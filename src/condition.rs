//! Evaluation of condition trees, and the choice of the operation that a
//! command dispatches to.

use vstd::prelude::*;

use crate::bound_args::BoundArgs;
use crate::metadata_command::{Command, ConditionOperator, ConditionOperatorType, Method, Operation};
use crate::resource_id::{check_id, ResourceId};
use crate::text::str_eq;

verus! {

/// Each node's type fits its shape: `and`/`or` over a list, `not` over one
/// operator, `hasValue` on an argument key.
pub open spec fn operator_wf(op: ConditionOperator) -> bool
    decreases op,
{
    match op {
        ConditionOperator::Operators { operators, type_ } => {
            (type_ == ConditionOperatorType::And || type_ == ConditionOperatorType::Or)
                && operators_wf(operators@)
        },
        ConditionOperator::Operator { operator, type_ } => {
            type_ == ConditionOperatorType::Not && operator_wf(*operator)
        },
        ConditionOperator::Arg { arg, type_ } => type_ == ConditionOperatorType::HasValue,
    }
}

pub open spec fn operators_wf(ops: Seq<ConditionOperator>) -> bool
    decreases ops,
{
    if ops.len() == 0 {
        true
    } else {
        operator_wf(ops[0]) && operators_wf(ops.subrange(1, ops.len() as int))
    }
}

/// The value of a condition tree when exactly the keys in `bound` have a value.
pub open spec fn eval_operator(op: ConditionOperator, bound: Set<Seq<char>>) -> bool
    decreases op,
{
    match op {
        ConditionOperator::Operators { operators, type_ } => {
            if type_ == ConditionOperatorType::And {
                all_hold(operators@, bound)
            } else {
                any_holds(operators@, bound)
            }
        },
        ConditionOperator::Operator { operator, type_ } => !eval_operator(*operator, bound),
        ConditionOperator::Arg { arg, type_ } => bound.contains(arg@),
    }
}

pub open spec fn all_hold(ops: Seq<ConditionOperator>, bound: Set<Seq<char>>) -> bool
    decreases ops,
{
    if ops.len() == 0 {
        true
    } else {
        eval_operator(ops[0], bound) && all_hold(ops.subrange(1, ops.len() as int), bound)
    }
}

pub open spec fn any_holds(ops: Seq<ConditionOperator>, bound: Set<Seq<char>>) -> bool
    decreases ops,
{
    if ops.len() == 0 {
        false
    } else {
        eval_operator(ops[0], bound) || any_holds(ops.subrange(1, ops.len() as int), bound)
    }
}

/// The tree holds no `not`.
pub open spec fn negation_free(op: ConditionOperator) -> bool
    decreases op,
{
    match op {
        ConditionOperator::Operators { operators, type_ } => all_negation_free(operators@),
        ConditionOperator::Operator { operator, type_ } => false,
        ConditionOperator::Arg { arg, type_ } => true,
    }
}

pub open spec fn all_negation_free(ops: Seq<ConditionOperator>) -> bool
    decreases ops,
{
    if ops.len() == 0 {
        true
    } else {
        negation_free(ops[0]) && all_negation_free(ops.subrange(1, ops.len() as int))
    }
}

/// The argument keys that the `hasValue` leaves of a tree test.
pub open spec fn leaf_args(op: ConditionOperator) -> Set<Seq<char>>
    decreases op,
{
    match op {
        ConditionOperator::Operators { operators, type_ } => all_leaf_args(operators@),
        ConditionOperator::Operator { operator, type_ } => leaf_args(*operator),
        ConditionOperator::Arg { arg, type_ } => set![arg@],
    }
}

pub open spec fn all_leaf_args(ops: Seq<ConditionOperator>) -> Set<Seq<char>>
    decreases ops,
{
    if ops.len() == 0 {
        Set::empty()
    } else {
        leaf_args(ops[0]).union(all_leaf_args(ops.subrange(1, ops.len() as int)))
    }
}

/// All conditions of a document are well formed.
pub open spec fn conditions_wf(cmd: Command) -> bool {
    cmd.conditions matches Some(cs) ==> forall|i: int|
        0 <= i < cs@.len() ==> operator_wf(#[trigger] cs@[i].operator)
}

/// The first condition at or after `i` that holds.
pub open spec fn first_true_condition(cmd: Command, bound: Set<Seq<char>>, i: int) -> Option<int>
    decreases (match cmd.conditions {
        Some(cs) => cs@.len(),
        None => 0,
    }) - i,
{
    match cmd.conditions {
        Some(cs) => if i < 0 || i >= cs@.len() {
            None
        } else if eval_operator(cs@[i].operator, bound) {
            Some(i)
        } else {
            first_true_condition(cmd, bound, i + 1)
        },
        None => None,
    }
}

/// The first operation at or after `i` whose path template the identifier fits.
pub open spec fn first_id_match(ops: Seq<Operation>, id: Seq<char>, i: int) -> Option<int>
    decreases ops.len() - i,
{
    if i < 0 || i >= ops.len() {
        None
    } else if ops[i].http matches Some(h) && check_id(id, h.path@, h.request.method == Method::Post) is Ok {
        Some(i)
    } else {
        first_id_match(ops, id, i + 1)
    }
}

/// The condition variable that the input selects: none for a command without
/// conditions; for an identifier, the last `when` tag of the first operation
/// whose template it fits; else the variable of the first condition that holds.
pub open spec fn selected_condition(cmd: Command, bound: Set<Seq<char>>, id: Option<Seq<char>>) -> Option<Seq<char>> {
    match cmd.conditions {
        None => None,
        Some(cs) => match id {
            Some(id) => match first_id_match(cmd.operations@, id, 0) {
                Some(j) => match cmd.operations@[j].when {
                    Some(w) => if w@.len() > 0 {
                        Some(w@.last()@)
                    } else {
                        None
                    },
                    None => None,
                },
                None => None,
            },
            None => match first_true_condition(cmd, bound, 0) {
                Some(i) => Some(cs@[i].var@),
                None => None,
            },
        },
    }
}

pub open spec fn has_tag(tags: Seq<String>, cond: Seq<char>) -> bool {
    exists|k: int| 0 <= k < tags.len() && #[trigger] tags[k]@ == cond
}

pub open spec fn when_contains(op: Operation, cond: Seq<char>) -> bool {
    match op.when {
        Some(w) => has_tag(w@, cond),
        None => false,
    }
}

/// The first operation at or after `i` tagged with `cond`.
pub open spec fn first_tagged(ops: Seq<Operation>, cond: Seq<char>, i: int) -> Option<int>
    decreases ops.len() - i,
{
    if i < 0 || i >= ops.len() {
        None
    } else if when_contains(ops[i], cond) {
        Some(i)
    } else {
        first_tagged(ops, cond, i + 1)
    }
}

/// The index of the operation chosen for a condition variable: the first one
/// tagged with it; without a variable, the only operation if there is exactly one.
pub open spec fn selected_index(ops: Seq<Operation>, cond: Option<Seq<char>>) -> Option<int> {
    match cond {
        Some(c) => first_tagged(ops, c, 0),
        None => if ops.len() == 1 {
            Some(0)
        } else {
            None
        },
    }
}

/// The index of the operation that the input selects.
pub open spec fn selected_operation(cmd: Command, bound: Set<Seq<char>>, id: Option<Seq<char>>) -> Option<int> {
    selected_index(cmd.operations@, selected_condition(cmd, bound, id))
}

impl Command {
    /// Evaluates a well-formed condition tree against the bound arguments.
    pub fn match_operator(&self, operator: &ConditionOperator, args: &BoundArgs) -> (r: bool)
        requires
            operator_wf(*operator),
        ensures
            r == eval_operator(*operator, args.keys()),
        decreases operator,
    {
        match operator {
            ConditionOperator::Operators { operators, type_ } => {
                let is_and = *type_ == ConditionOperatorType::And;
                let mut i: usize = 0;
                assert(operators@.subrange(0, operators@.len() as int) =~= operators@);
                while i < operators.len()
                    invariant
                        operator_wf(*operator),
                        *operator == (ConditionOperator::Operators { operators: *operators, type_: *type_ }),
                        i <= operators@.len(),
                        operators_wf(operators@.subrange(i as int, operators@.len() as int)),
                        is_and ==> all_hold(operators@, args.keys()) == all_hold(
                            operators@.subrange(i as int, operators@.len() as int),
                            args.keys(),
                        ),
                        !is_and ==> any_holds(operators@, args.keys()) == any_holds(
                            operators@.subrange(i as int, operators@.len() as int),
                            args.keys(),
                        ),
                        is_and == (*type_ == ConditionOperatorType::And),
                    decreases operators@.len() - i,
                {
                    let ghost rest = operators@.subrange(i as int, operators@.len() as int);
                    assert(rest[0] == operators@[i as int]);
                    assert(rest.subrange(1, rest.len() as int) =~= operators@.subrange(
                        i + 1,
                        operators@.len() as int,
                    ));
                    proof {
                        assert(decreases_to!(*operator => *operators));
                        assert(decreases_to!(*operators => operators@));
                        assert(decreases_to!(operators@ => operators@[i as int]));
                    }
                    let v = self.match_operator(&operators[i], args);
                    if is_and && !v {
                        return false;
                    }
                    if !is_and && v {
                        return true;
                    }
                    i = i + 1;
                }
                is_and
            },
            ConditionOperator::Operator { operator: inner, type_ } => {
                let o: &ConditionOperator = inner;
                !self.match_operator(o, args)
            },
            ConditionOperator::Arg { arg, type_ } => args.has_value(arg.as_str()),
        }
    }

    /// Whether `op` is tagged with the condition variable `cond`.
    fn tagged_with(op: &Operation, cond: &String) -> (r: bool)
        ensures
            r == when_contains(*op, cond@),
    {
        match &op.when {
            Some(w) => {
                let mut k: usize = 0;
                while k < w.len()
                    invariant
                        op.when == Some(*w),
                        k <= w@.len(),
                        forall|m: int| 0 <= m < k ==> w@[m]@ != cond@,
                    decreases w@.len() - k,
                {
                    if str_eq(w[k].as_str(), cond.as_str()) {
                        assert(w@[k as int]@ == cond@);
                        assert(has_tag(w@, cond@));
                        return true;
                    }
                    k = k + 1;
                }
                false
            },
            None => false,
        }
    }

    /// The operation chosen for a condition variable: the first one tagged
    /// with it; without a variable, the only operation if there is exactly one.
    pub fn select_operation_by_cond(&self, cond: Option<&String>) -> (r: Option<&Operation>)
        ensures
            r is Some <==> selected_index(self.operations@, opt_view(cond)) is Some,
            r matches Some(op) ==> (selected_index(self.operations@, opt_view(cond)) matches Some(j)
                && *op == self.operations@[j]),
    {
        match cond {
            Some(c) => {
                let mut i: usize = 0;
                while i < self.operations.len()
                    invariant
                        cond == Some(c),
                        i <= self.operations@.len(),
                        first_tagged(self.operations@, c@, 0) == first_tagged(
                            self.operations@,
                            c@,
                            i as int,
                        ),
                    decreases self.operations@.len() - i,
                {
                    if Self::tagged_with(&self.operations[i], c) {
                        return Some(&self.operations[i]);
                    }
                    i = i + 1;
                }
                None
            },
            None => {
                if self.operations.len() != 1 {
                    None
                } else {
                    Some(&self.operations[0])
                }
            },
        }
    }

    /// The condition variable that the input selects (see [`selected_condition`]).
    pub fn match_condition(&self, args: &BoundArgs, id: Option<&ResourceId>) -> (r: Option<String>)
        requires
            conditions_wf(*self),
        ensures
            r is Some <==> selected_condition(*self, args.keys(), opt_id_view(id)) is Some,
            r matches Some(v) ==> selected_condition(*self, args.keys(), opt_id_view(id)) == Some(
                v@,
            ),
    {
        let conditions = match &self.conditions {
            Some(cs) => cs,
            None => {
                return None;
            },
        };
        match id {
            Some(rid) => {
                let mut j: usize = 0;
                while j < self.operations.len()
                    invariant
                        id == Some(rid),
                        self.conditions == Some(*conditions),
                        j <= self.operations@.len(),
                        first_id_match(self.operations@, rid@, 0) == first_id_match(
                            self.operations@,
                            rid@,
                            j as int,
                        ),
                    decreases self.operations@.len() - j,
                {
                    let op = &self.operations[j];
                    let fits = match &op.http {
                        Some(http) => rid.validate_pattern(http.path.as_str(), &http.request.method).is_ok(),
                        None => false,
                    };
                    if fits {
                        return match &op.when {
                            Some(w) => if w.len() > 0 {
                                Some(w[w.len() - 1].clone())
                            } else {
                                None
                            },
                            None => None,
                        };
                    }
                    j = j + 1;
                }
                None
            },
            None => {
                let mut i: usize = 0;
                while i < conditions.len()
                    invariant
                        id is None,
                        self.conditions == Some(*conditions),
                        conditions_wf(*self),
                        i <= conditions@.len(),
                        first_true_condition(*self, args.keys(), 0) == first_true_condition(
                            *self,
                            args.keys(),
                            i as int,
                        ),
                    decreases conditions@.len() - i,
                {
                    if self.match_operator(&conditions[i].operator, args) {
                        return Some(conditions[i].var.clone());
                    }
                    i = i + 1;
                }
                None
            },
        }
    }

    /// The operation that the input selects: by the identifier's fit to the
    /// path templates when one is given, else by the conditions that hold.
    pub fn select_operation(&self, args: &BoundArgs, id: Option<&ResourceId>) -> (r: Option<&Operation>)
        requires
            conditions_wf(*self),
        ensures
            r is Some <==> selected_operation(*self, args.keys(), opt_id_view(id)) is Some,
            r matches Some(op) ==> (selected_operation(*self, args.keys(), opt_id_view(id)) matches Some(
                j,
            ) && *op == self.operations@[j]),
    {
        let cond = self.match_condition(args, id);
        match &cond {
            Some(c) => self.select_operation_by_cond(Some(c)),
            None => self.select_operation_by_cond(None),
        }
    }
}

pub open spec fn opt_view(o: Option<&String>) -> Option<Seq<char>> {
    match o {
        Some(s) => Some(s@),
        None => None,
    }
}

pub open spec fn opt_id_view(o: Option<&ResourceId>) -> Option<Seq<char>> {
    match o {
        Some(s) => Some(s@),
        None => None,
    }
}

/// A command without conditions resolves to an operation exactly when it
/// has a single one, whatever the input.
pub proof fn lemma_unconditional_selection(cmd: Command, bound: Set<Seq<char>>, id: Option<Seq<char>>)
    requires
        cmd.conditions is None,
    ensures
        selected_operation(cmd, bound, id) is Some <==> cmd.operations@.len() == 1,
{
}

/// Binding more arguments never turns a `hasValue` leaf from true to false,
/// so a condition tree without `not` can only turn from false to true.
pub proof fn lemma_binding_is_monotonic(op: ConditionOperator, bound: Set<Seq<char>>, more: Set<Seq<char>>)
    requires
        bound.subset_of(more),
    ensures
        forall|a: Seq<char>| #[trigger] leaf_args(op).contains(a) && bound.contains(a) ==> more.contains(a),
        negation_free(op) && eval_operator(op, bound) ==> eval_operator(op, more),
{
    if negation_free(op) {
        lemma_eval_monotonic(op, bound, more);
    }
}

proof fn lemma_eval_monotonic(op: ConditionOperator, bound: Set<Seq<char>>, more: Set<Seq<char>>)
    requires
        bound.subset_of(more),
        negation_free(op),
    ensures
        eval_operator(op, bound) ==> eval_operator(op, more),
    decreases op,
{
    match op {
        ConditionOperator::Operators { operators, type_ } => {
            assert(decreases_to!(op => operators));
            assert(decreases_to!(operators => operators@));
            lemma_list_monotonic(operators@, bound, more);
        },
        ConditionOperator::Operator { operator, type_ } => {},
        ConditionOperator::Arg { arg, type_ } => {},
    }
}

proof fn lemma_list_monotonic(ops: Seq<ConditionOperator>, bound: Set<Seq<char>>, more: Set<Seq<char>>)
    requires
        bound.subset_of(more),
        all_negation_free(ops),
    ensures
        all_hold(ops, bound) ==> all_hold(ops, more),
        any_holds(ops, bound) ==> any_holds(ops, more),
    decreases ops,
{
    if ops.len() > 0 {
        lemma_eval_monotonic(ops[0], bound, more);
        lemma_list_monotonic(ops.subrange(1, ops.len() as int), bound, more);
    }
}

/// The shape rules of [`operator_wf`], and besides that every `and`/`or`
/// combines at least two operators.
pub open spec fn operator_sound(op: ConditionOperator) -> bool
    decreases op,
{
    match op {
        ConditionOperator::Operators { operators, type_ } => {
            (type_ == ConditionOperatorType::And || type_ == ConditionOperatorType::Or)
                && operators@.len() >= 2 && operators_sound(operators@)
        },
        ConditionOperator::Operator { operator, type_ } => {
            type_ == ConditionOperatorType::Not && operator_sound(*operator)
        },
        ConditionOperator::Arg { arg, type_ } => type_ == ConditionOperatorType::HasValue,
    }
}

pub open spec fn operators_sound(ops: Seq<ConditionOperator>) -> bool
    decreases ops,
{
    if ops.len() == 0 {
        true
    } else {
        operator_sound(ops[0]) && operators_sound(ops.subrange(1, ops.len() as int))
    }
}

proof fn lemma_sound_is_wf(op: ConditionOperator)
    requires
        operator_sound(op),
    ensures
        operator_wf(op),
    decreases op,
{
    match op {
        ConditionOperator::Operators { operators, type_ } => {
            assert(decreases_to!(op => operators));
            assert(decreases_to!(operators => operators@));
            lemma_all_sound_are_wf(operators@);
        },
        ConditionOperator::Operator { operator, type_ } => {
            lemma_sound_is_wf(*operator);
        },
        ConditionOperator::Arg { arg, type_ } => {},
    }
}

proof fn lemma_all_sound_are_wf(ops: Seq<ConditionOperator>)
    requires
        operators_sound(ops),
    ensures
        operators_wf(ops),
    decreases ops,
{
    if ops.len() > 0 {
        lemma_sound_is_wf(ops[0]);
        lemma_all_sound_are_wf(ops.subrange(1, ops.len() as int));
    }
}

pub open spec fn declares_var(cs: Seq<crate::metadata_command::Condition>, v: Seq<char>) -> bool {
    exists|i: int| 0 <= i < cs.len() && #[trigger] cs[i].var@ == v
}

pub open spec fn all_declared(tags: Seq<String>, cs: Seq<crate::metadata_command::Condition>) -> bool {
    forall|k: int| 0 <= k < tags.len() ==> declares_var(cs, #[trigger] tags[k]@)
}

pub open spec fn tags_declared(op: Operation, cs: Seq<crate::metadata_command::Condition>) -> bool {
    match op.when {
        Some(w) => all_declared(w@, cs),
        None => true,
    }
}

/// A document is sound when, without conditions, it has exactly one
/// operation; and with conditions, each condition tree is sound and every
/// `when` tag of an operation names a declared condition.
pub open spec fn command_sound(cmd: Command) -> bool {
    match cmd.conditions {
        None => cmd.operations@.len() == 1,
        Some(cs) => (forall|i: int| 0 <= i < cs@.len() ==> operator_sound(#[trigger] cs@[i].operator))
            && forall|j: int| 0 <= j < cmd.operations@.len() ==> tags_declared(#[trigger] cmd.operations@[j], cs@),
    }
}

/// A fault of a metadata document.
#[derive(Debug, Clone)]
pub enum MetadataFault {
    /// A command without conditions must have exactly one operation.
    NotExactlyOneOperation,
    /// The condition of this variable is not a sound tree.
    MalformedCondition(String),
    /// An operation is tagged with this variable, which no condition declares.
    UnknownConditionVariable(String),
}

#[verifier::loop_isolation(false)]
fn operator_is_sound(op: &ConditionOperator) -> (r: bool)
    ensures
        r == operator_sound(*op),
    decreases op,
{
    match op {
        ConditionOperator::Operators { operators, type_ } => {
            if !(*type_ == ConditionOperatorType::And || *type_ == ConditionOperatorType::Or) || operators.len() < 2 {
                return false;
            }
            let mut i: usize = 0;
            assert(operators@.subrange(0, operators@.len() as int) =~= operators@);
            while i < operators.len()
                invariant
                    *op == (ConditionOperator::Operators { operators: *operators, type_: *type_ }),
                    i <= operators@.len(),
                    operators_sound(operators@) == operators_sound(operators@.subrange(i as int, operators@.len() as int)),
                decreases operators@.len() - i,
            {
                let ghost rest = operators@.subrange(i as int, operators@.len() as int);
                assert(rest[0] == operators@[i as int]);
                assert(rest.subrange(1, rest.len() as int) =~= operators@.subrange(i + 1, operators@.len() as int));
                proof {
                    assert(decreases_to!(*op => *operators));
                    assert(decreases_to!(*operators => operators@));
                    assert(decreases_to!(operators@ => operators@[i as int]));
                }
                if !operator_is_sound(&operators[i]) {
                    return false;
                }
                i = i + 1;
            }
            true
        },
        ConditionOperator::Operator { operator: inner, type_ } => {
            let o: &ConditionOperator = inner;
            *type_ == ConditionOperatorType::Not && operator_is_sound(o)
        },
        ConditionOperator::Arg { arg, type_ } => *type_ == ConditionOperatorType::HasValue,
    }
}

fn declares_var_exec(cs: &Vec<crate::metadata_command::Condition>, v: &String) -> (r: bool)
    ensures
        r == declares_var(cs@, v@),
{
    let mut i: usize = 0;
    while i < cs.len()
        invariant
            i <= cs@.len(),
            forall|m: int| 0 <= m < i ==> cs@[m].var@ != v@,
        decreases cs@.len() - i,
    {
        if str_eq(cs[i].var.as_str(), v.as_str()) {
            assert(cs@[i as int].var@ == v@);
            return true;
        }
        i = i + 1;
    }
    false
}

impl Command {
    /// Checks the document once, before it is used: see [`command_sound`].
    /// A sound document satisfies what [`Command::match_condition`] requires.
    pub fn check_integrity(&self) -> (r: Result<(), MetadataFault>)
        ensures
            r is Ok <==> command_sound(*self),
            r is Ok ==> conditions_wf(*self),
    {
        let cs = match &self.conditions {
            None => {
                if self.operations.len() == 1 {
                    return Ok(());
                }
                return Err(MetadataFault::NotExactlyOneOperation);
            },
            Some(cs) => cs,
        };
        let mut i: usize = 0;
        while i < cs.len()
            invariant
                self.conditions == Some(*cs),
                i <= cs@.len(),
                forall|m: int| 0 <= m < i ==> operator_sound(#[trigger] cs@[m].operator),
            decreases cs@.len() - i,
        {
            if !operator_is_sound(&cs[i].operator) {
                return Err(MetadataFault::MalformedCondition(cs[i].var.clone()));
            }
            i = i + 1;
        }
        let mut j: usize = 0;
        while j < self.operations.len()
            invariant
                self.conditions == Some(*cs),
                forall|m: int| 0 <= m < cs@.len() ==> operator_sound(#[trigger] cs@[m].operator),
                j <= self.operations@.len(),
                forall|m: int| 0 <= m < j ==> tags_declared(#[trigger] self.operations@[m], cs@),
            decreases self.operations@.len() - j,
        {
            match &self.operations[j].when {
                Some(w) => {
                    let mut k: usize = 0;
                    while k < w.len()
                        invariant
                            self.conditions == Some(*cs),
                            self.operations@[j as int].when == Some(*w),
                            j < self.operations@.len(),
                            k <= w@.len(),
                            forall|m: int| 0 <= m < k ==> declares_var(cs@, #[trigger] w@[m]@),
                        decreases w@.len() - k,
                    {
                        if !declares_var_exec(cs, &w[k]) {
                            assert(!declares_var(cs@, w@[k as int]@));
                            assert(!all_declared(w@, cs@));
                            assert(!tags_declared(self.operations@[j as int], cs@));
                            assert(!command_sound(*self));
                            return Err(MetadataFault::UnknownConditionVariable(w[k].clone()));
                        }
                        k = k + 1;
                    }
                },
                None => {},
            }
            j = j + 1;
        }
        proof {
            assert forall|m: int| 0 <= m < cs@.len() implies operator_wf(#[trigger] cs@[m].operator) by {
                lemma_sound_is_wf(cs@[m].operator);
            }
        }
        Ok(())
    }
}

} // verus!
