//! Building a JSON request body from a body schema and the bound arguments.

use vstd::prelude::*;

use crate::bound_args::{ArgValue, BoundArgs};
use crate::metadata_command::{find_prop, lemma_schema_at_named, schema_at, Schema};
use crate::text::{starts_with, str_eq};

verus! {

/// Whether `serde_json` accepts the text as one JSON document.
pub uninterp spec fn is_json_text(s: Seq<char>) -> bool;

/// Relies on `serde_json::from_str`: it succeeds exactly on the texts that
/// hold one JSON document, and the outcome depends on the text alone.
#[verifier::external_body]
fn parses_as_json(s: &str) -> (r: bool)
    ensures
        r == is_json_text(s@),
{
    serde_json::from_str::<serde_json::Value>(s).is_ok()
}

/// A JSON value under construction. `Raw` holds text that is already a JSON
/// document and goes into the body as it stands.
#[derive(Debug)]
pub enum BodyValue {
    Bool(bool),
    Int(i64),
    Str(String),
    Raw(String),
    Object(Vec<(String, BodyValue)>),
}

/// The model of a [`BodyValue`].
pub enum BodyModel {
    Bool(bool),
    Int(int),
    Str(Seq<char>),
    Raw(Seq<char>),
    Object(Seq<(Seq<char>, BodyModel)>),
}

pub open spec fn body_model(v: BodyValue) -> BodyModel
    decreases v,
{
    match v {
        BodyValue::Bool(b) => BodyModel::Bool(b),
        BodyValue::Int(i) => BodyModel::Int(i as int),
        BodyValue::Str(s) => BodyModel::Str(s@),
        BodyValue::Raw(s) => BodyModel::Raw(s@),
        BodyValue::Object(fs) => BodyModel::Object(fields_model(fs@)),
    }
}

pub open spec fn fields_model(fs: Seq<(String, BodyValue)>) -> Seq<(Seq<char>, BodyModel)>
    decreases fs,
{
    if fs.len() == 0 {
        Seq::empty()
    } else {
        fields_model(fs.drop_last()).push((fs.last().0@, body_model(fs.last().1)))
    }
}

/// Why a body could not be built. All but `InvalidJson` are faults of the
/// metadata document rather than of the input.
#[derive(Debug, Clone)]
pub enum BodyError {
    MissingTopLevelProps,
    PropertyWithoutName,
    ObjectWithoutArgOrProps,
    SchemaWithoutArg,
    /// The value bound to this argument key should be JSON text and is not.
    InvalidJson(String),
}

/// The model of a [`BodyError`].
pub enum BodyFault {
    MissingTopLevelProps,
    PropertyWithoutName,
    ObjectWithoutArgOrProps,
    SchemaWithoutArg,
    InvalidJson(Seq<char>),
}

impl BodyError {
    pub open spec fn model(&self) -> BodyFault {
        match self {
            BodyError::MissingTopLevelProps => BodyFault::MissingTopLevelProps,
            BodyError::PropertyWithoutName => BodyFault::PropertyWithoutName,
            BodyError::ObjectWithoutArgOrProps => BodyFault::ObjectWithoutArgOrProps,
            BodyError::SchemaWithoutArg => BodyFault::SchemaWithoutArg,
            BodyError::InvalidJson(a) => BodyFault::InvalidJson(a@),
        }
    }
}

/// The family of a schema type tag.
#[derive(Debug, Clone, Copy, PartialEq, Eq, Structural)]
pub enum TypeFamily {
    Object,
    String,
    Array,
    Integer,
    Boolean,
    Other,
}

pub open spec fn has_prefix(t: Seq<char>, p: Seq<char>) -> bool {
    p.len() <= t.len() && t.take(p.len() as int) == p
}

pub open spec fn family_of(t: Seq<char>) -> TypeFamily {
    if t == "object"@ {
        TypeFamily::Object
    } else if t == "string"@ {
        TypeFamily::String
    } else if has_prefix(t, "array"@) {
        TypeFamily::Array
    } else if has_prefix(t, "integer"@) {
        TypeFamily::Integer
    } else if t == "boolean"@ {
        TypeFamily::Boolean
    } else {
        TypeFamily::Other
    }
}

/// The text that a bound value carries, if it carries text.
pub open spec fn value_text(v: ArgValue) -> Seq<char> {
    match v {
        ArgValue::Str(s) => s@,
        ArgValue::Json(s) => s@,
        _ => Seq::empty(),
    }
}

/// The JSON for one bound value under a schema of family `fam`, given
/// whether its text parses as JSON. Integers and booleans are copied; text
/// held as JSON must parse; plain text is a JSON string under `string`, is
/// parsed under `object`, `array*`, `integer*` and `boolean`, and under any
/// other type is parsed when it can be and kept as a string when not.
pub open spec fn leaf_model(fam: TypeFamily, v: ArgValue, arg: Seq<char>, text_is_json: bool) -> Result<BodyModel, BodyFault> {
    match v {
        ArgValue::Int(i) => Ok(BodyModel::Int(i as int)),
        ArgValue::Bool(b) => Ok(BodyModel::Bool(b)),
        ArgValue::Json(t) => if text_is_json {
            Ok(BodyModel::Raw(t@))
        } else {
            Err(BodyFault::InvalidJson(arg))
        },
        ArgValue::Str(s) => if fam == TypeFamily::String {
            Ok(BodyModel::Str(s@))
        } else if text_is_json {
            Ok(BodyModel::Raw(s@))
        } else if fam == TypeFamily::Other {
            Ok(BodyModel::Str(s@))
        } else {
            Err(BodyFault::InvalidJson(arg))
        },
    }
}

/// The value a schema node yields: `None` where its argument is unbound or,
/// for an object built from its properties, where none of them yields one.
pub open spec fn value_model(s: Schema, args: BoundArgs) -> Result<Option<BodyModel>, BodyFault>
    decreases s,
{
    match s.arg {
        Some(a) => match args.lookup(a@) {
            Some(v) => match leaf_model(family_of(s.type_@), v, a@, is_json_text(value_text(v))) {
                Ok(m) => Ok(Some(m)),
                Err(e) => Err(e),
            },
            None => Ok(None),
        },
        None => if family_of(s.type_@) == TypeFamily::Object {
            match s.props {
                Some(ps) => match props_model(ps@, args) {
                    Ok(fs) => if fs.len() == 0 {
                        Ok(None)
                    } else {
                        Ok(Some(BodyModel::Object(fs)))
                    },
                    Err(e) => Err(e),
                },
                None => Err(BodyFault::ObjectWithoutArgOrProps),
            }
        } else {
            Err(BodyFault::SchemaWithoutArg)
        },
    }
}

/// The members that a list of properties yields, in order; a property that
/// yields no value is left out, and the first fault in order wins.
pub open spec fn props_model(ps: Seq<Schema>, args: BoundArgs) -> Result<Seq<(Seq<char>, BodyModel)>, BodyFault>
    decreases ps,
{
    if ps.len() == 0 {
        Ok(Seq::empty())
    } else {
        match props_model(ps.drop_last(), args) {
            Err(e) => Err(e),
            Ok(prev) => match ps.last().name {
                None => Err(BodyFault::PropertyWithoutName),
                Some(n) => match value_model(ps.last(), args) {
                    Err(e) => Err(e),
                    Ok(None) => Ok(prev),
                    Ok(Some(v)) => Ok(prev.push((n@, v))),
                },
            },
        }
    }
}

/// The body a top-level schema yields: always an object, built from its properties.
pub open spec fn body_of(s: Schema, args: BoundArgs) -> Result<BodyModel, BodyFault> {
    match s.props {
        Some(ps) => match props_model(ps@, args) {
            Ok(fs) => Ok(BodyModel::Object(fs)),
            Err(e) => Err(e),
        },
        None => Err(BodyFault::MissingTopLevelProps),
    }
}

pub open spec fn leaf_result(r: Result<BodyValue, BodyError>) -> Result<BodyModel, BodyFault> {
    match r {
        Ok(v) => Ok(body_model(v)),
        Err(e) => Err(e.model()),
    }
}

pub open spec fn value_result(r: Result<Option<BodyValue>, BodyError>) -> Result<Option<BodyModel>, BodyFault> {
    match r {
        Ok(Some(v)) => Ok(Some(body_model(v))),
        Ok(None) => Ok(None),
        Err(e) => Err(e.model()),
    }
}

pub open spec fn fields_result(r: Result<Vec<(String, BodyValue)>, BodyError>) -> Result<Seq<(Seq<char>, BodyModel)>, BodyFault> {
    match r {
        Ok(fs) => Ok(fields_model(fs@)),
        Err(e) => Err(e.model()),
    }
}

/// The family of a schema type tag.
pub fn family(t: &str) -> (r: TypeFamily)
    ensures
        r == family_of(t@),
{
    if str_eq(t, "object") {
        TypeFamily::Object
    } else if str_eq(t, "string") {
        TypeFamily::String
    } else if starts_with(t, "array") {
        TypeFamily::Array
    } else if starts_with(t, "integer") {
        TypeFamily::Integer
    } else if str_eq(t, "boolean") {
        TypeFamily::Boolean
    } else {
        TypeFamily::Other
    }
}

/// The JSON for one bound value, given whether its text parses as JSON
/// (see [`leaf_model`]).
pub fn json_leaf(fam: TypeFamily, value: &ArgValue, arg: &String, text_is_json: bool) -> (r: Result<BodyValue, BodyError>)
    ensures
        leaf_result(r) == leaf_model(fam, *value, arg@, text_is_json),
{
    match value {
        ArgValue::Int(i) => Ok(BodyValue::Int(*i)),
        ArgValue::Bool(b) => Ok(BodyValue::Bool(*b)),
        ArgValue::Json(t) => if text_is_json {
            Ok(BodyValue::Raw(t.clone()))
        } else {
            Err(BodyError::InvalidJson(arg.clone()))
        },
        ArgValue::Str(s) => if fam == TypeFamily::String {
            Ok(BodyValue::Str(s.clone()))
        } else if text_is_json {
            Ok(BodyValue::Raw(s.clone()))
        } else if fam == TypeFamily::Other {
            Ok(BodyValue::Str(s.clone()))
        } else {
            Err(BodyError::InvalidJson(arg.clone()))
        },
    }
}

/// Builds request bodies from the bound arguments.
pub struct BodyBuilder<'a>(pub &'a BoundArgs);

impl<'a> BodyBuilder<'a> {
    /// The body for a top-level schema, which must list its properties.
    pub fn build_body(&self, schema: &Schema) -> (r: Result<BodyValue, BodyError>)
        ensures
            leaf_result(r) == body_of(*schema, *self.0),
    {
        match &schema.props {
            Some(ps) => match self.build_props(ps) {
                Ok(fs) => Ok(BodyValue::Object(fs)),
                Err(e) => Err(e),
            },
            None => Err(BodyError::MissingTopLevelProps),
        }
    }

    /// The value of one schema node (see [`value_model`]).
    pub fn build_value(&self, schema: &Schema) -> (r: Result<Option<BodyValue>, BodyError>)
        ensures
            value_result(r) == value_model(*schema, *self.0),
        decreases schema,
    {
        let fam = family(schema.type_.as_str());
        match &schema.arg {
            Some(a) => match self.0.get(a.as_str()) {
                Some(v) => {
                    let text_is_json = match v {
                        ArgValue::Json(t) => parses_as_json(t.as_str()),
                        ArgValue::Str(s) => if fam == TypeFamily::String {
                            false
                        } else {
                            parses_as_json(s.as_str())
                        },
                        _ => false,
                    };
                    match json_leaf(fam, v, a, text_is_json) {
                        Ok(m) => Ok(Some(m)),
                        Err(e) => Err(e),
                    }
                },
                None => Ok(None),
            },
            None => {
                if fam != TypeFamily::Object {
                    return Err(BodyError::SchemaWithoutArg);
                }
                match &schema.props {
                    Some(ps) => {
                        proof {
                            assert(decreases_to!(*schema => schema.props));
                            assert(decreases_to!(schema.props => *ps));
                        }
                        match self.build_props(ps) {
                            Ok(fs) => if fs.len() == 0 {
                                Ok(None)
                            } else {
                                Ok(Some(BodyValue::Object(fs)))
                            },
                            Err(e) => Err(e),
                        }
                    },
                    None => Err(BodyError::ObjectWithoutArgOrProps),
                }
            },
        }
    }

    /// The members that a list of properties yields (see [`props_model`]).
    #[verifier::loop_isolation(false)]
    fn build_props(&self, props: &Vec<Schema>) -> (r: Result<Vec<(String, BodyValue)>, BodyError>)
        ensures
            fields_result(r) == props_model(props@, *self.0),
        decreases props,
    {
        let mut out: Vec<(String, BodyValue)> = Vec::new();
        let mut i: usize = 0;
        assert(props@.take(0) =~= Seq::<Schema>::empty());
        while i < props.len()
            invariant
                i <= props@.len(),
                props_model(props@.take(i as int), *self.0) == Ok::<Seq<(Seq<char>, BodyModel)>, BodyFault>(fields_model(out@)),
            decreases props@.len() - i,
        {
            let ghost pre = props@.take(i as int + 1);
            assert(pre.drop_last() =~= props@.take(i as int));
            assert(pre.last() == props@[i as int]);
            let prop = &props[i];
            let name = match &prop.name {
                Some(n) => n,
                None => {
                    assert(props_model(props@.take(i as int + 1), *self.0) is Err);
                    proof { lemma_props_prefix_err(props@, *self.0, i as int + 1); }
                    return Err(BodyError::PropertyWithoutName);
                },
            };
            proof {
                assert(decreases_to!(*props => props@));
                assert(decreases_to!(props@ => props@[i as int]));
            }
            match self.build_value(prop) {
                Ok(Some(v)) => {
                    let ghost before = out@;
                    out.push((name.clone(), v));
                    assert(out@.drop_last() =~= before);
                },
                Ok(None) => {},
                Err(e) => {
                    proof { lemma_props_prefix_err(props@, *self.0, i as int + 1); }
                    return Err(e);
                },
            }
            i = i + 1;
        }
        assert(props@.take(props@.len() as int) =~= props@);
        Ok(out)
    }
}

/// A fault among the first `n` properties is the fault of the whole list.
proof fn lemma_props_prefix_err(ps: Seq<Schema>, args: BoundArgs, n: int)
    requires
        0 <= n <= ps.len(),
        props_model(ps.take(n), args) is Err,
    ensures
        props_model(ps, args) == props_model(ps.take(n), args),
    decreases ps.len() - n,
{
    if n < ps.len() {
        assert(ps.take(n + 1).drop_last() =~= ps.take(n));
        lemma_props_prefix_err(ps, args, n + 1);
    } else {
        assert(ps.take(n) =~= ps);
    }
}

/// The first member at or after `i` whose key is `k`.
pub open spec fn find_field(fs: Seq<(Seq<char>, BodyModel)>, k: Seq<char>, i: int) -> Option<int>
    decreases fs.len() - i,
{
    if i < 0 || i >= fs.len() {
        None
    } else if fs[i].0 == k {
        Some(i)
    } else {
        find_field(fs, k, i + 1)
    }
}

/// The value reached from `m` by following object members, key by key.
pub open spec fn model_at(m: BodyModel, path: Seq<Seq<char>>) -> Option<BodyModel>
    decreases path.len(),
{
    if path.len() == 0 {
        Some(m)
    } else {
        match m {
            BodyModel::Object(fs) => match find_field(fs, path[0], 0) {
                Some(t) => model_at(fs[t].1, path.drop_first()),
                None => None,
            },
            _ => None,
        }
    }
}

/// No two properties of the list share a name.
pub open spec fn names_unique(ps: Seq<Schema>) -> bool {
    forall|i: int, j: int|
        0 <= i < j < ps.len() && ps[i].name is Some && ps[j].name is Some ==> #[trigger] ps[i].name->0@
            != #[trigger] ps[j].name->0@
}

/// At every level of the schema, no two properties share a name.
pub open spec fn tree_unique(s: Schema) -> bool
    decreases s,
{
    match s.props {
        Some(ps) => names_unique(ps@) && trees_unique(ps@),
        None => true,
    }
}

pub open spec fn trees_unique(ps: Seq<Schema>) -> bool
    decreases ps,
{
    if ps.len() == 0 {
        true
    } else {
        tree_unique(ps[0]) && trees_unique(ps.subrange(1, ps.len() as int))
    }
}

proof fn lemma_trees_unique_index(ps: Seq<Schema>, j: int)
    requires
        trees_unique(ps),
        0 <= j < ps.len(),
    ensures
        tree_unique(ps[j]),
    decreases ps.len(),
{
    if j > 0 {
        assert(ps.subrange(1, ps.len() as int)[j - 1] == ps[j]);
        lemma_trees_unique_index(ps.subrange(1, ps.len() as int), j - 1);
    }
}

proof fn lemma_find_prop_prefix(ps: Seq<Schema>, k: Seq<char>, i: int)
    requires
        ps.len() > 0,
        0 <= i <= ps.len() - 1,
        find_prop(ps.drop_last(), k, i) is Some,
    ensures
        find_prop(ps, k, i) == find_prop(ps.drop_last(), k, i),
    decreases ps.len() - i,
{
    if i < ps.len() - 1 {
        assert(ps.drop_last()[i] == ps[i]);
        if !(ps[i].name matches Some(n) && n@ == k) {
            lemma_find_prop_prefix(ps, k, i + 1);
        }
    }
}

proof fn lemma_find_prop_last(ps: Seq<Schema>, k: Seq<char>, i: int)
    requires
        ps.len() > 0,
        0 <= i <= ps.len() - 1,
        ps.last().name matches Some(n) && n@ == k,
        forall|m: int| i <= m < ps.len() - 1 ==> !(#[trigger] ps[m].name matches Some(n) && n@ == k),
    ensures
        find_prop(ps, k, i) == Some(ps.len() - 1),
    decreases ps.len() - i,
{
    if i < ps.len() - 1 {
        lemma_find_prop_last(ps, k, i + 1);
    }
}

proof fn lemma_find_field_push(fs: Seq<(Seq<char>, BodyModel)>, e: (Seq<char>, BodyModel), k: Seq<char>, i: int)
    requires
        0 <= i <= fs.len(),
    ensures
        find_field(fs.push(e), k, i) == (match find_field(fs, k, i) {
            Some(t) => Some(t),
            None => if e.0 == k { Some(fs.len() as int) } else { None },
        }),
    decreases fs.len() - i,
{
    assert(fs.push(e)[fs.len() as int] == e);
    if i < fs.len() {
        assert(fs.push(e)[i] == fs[i]);
        lemma_find_field_push(fs, e, k, i + 1);
    } else {
        assert(find_field(fs.push(e), k, i + 1) is None);
    }
}

proof fn lemma_find_field_some(fs: Seq<(Seq<char>, BodyModel)>, k: Seq<char>, i: int)
    requires
        0 <= i,
    ensures
        find_field(fs, k, i) matches Some(t) ==> i <= t < fs.len() && fs[t].0 == k,
    decreases fs.len() - i,
{
    if i < fs.len() {
        lemma_find_field_some(fs, k, i + 1);
    }
}

/// A member of a built object comes from the one property of that name, and
/// holds the value that property yields.
proof fn lemma_member_from_prop(ps: Seq<Schema>, args: BoundArgs, fs: Seq<(Seq<char>, BodyModel)>, k: Seq<char>)
    requires
        props_model(ps, args) == Ok::<Seq<(Seq<char>, BodyModel)>, BodyFault>(fs),
        names_unique(ps),
        find_field(fs, k, 0) is Some,
    ensures
        find_prop(ps, k, 0) matches Some(j) && 0 <= j < ps.len() && value_model(ps[j], args) == Ok::<
            Option<BodyModel>,
            BodyFault,
        >(Some(fs[find_field(fs, k, 0)->0].1)),
    decreases ps.len(),
{
    let t = find_field(fs, k, 0)->0;
    lemma_find_field_some(fs, k, 0);
    let init = ps.drop_last();
    let prev = props_model(init, args)->Ok_0;
    let last = ps.last();
    let n = last.name->0;
    assert(names_unique(init)) by {
        assert forall|a: int, b: int|
            0 <= a < b < init.len() && init[a].name is Some && init[b].name is Some implies #[trigger] init[a].name->0@
                != #[trigger] init[b].name->0@ by {
            assert(init[a] == ps[a] && init[b] == ps[b]);
        }
    }
    match value_model(last, args) {
        Ok(None) => {
            assert(fs == prev);
            lemma_member_from_prop(init, args, prev, k);
            lemma_find_prop_prefix(ps, k, 0);
            let j = find_prop(init, k, 0)->0;
            assert(init[j] == ps[j]);
        },
        Ok(Some(v)) => {
            assert(fs == prev.push((n@, v)));
            lemma_find_field_push(prev, (n@, v), k, 0);
            if find_field(prev, k, 0) is Some {
                lemma_member_from_prop(init, args, prev, k);
                lemma_find_prop_prefix(ps, k, 0);
                let j = find_prop(init, k, 0)->0;
                assert(init[j] == ps[j]);
                lemma_find_field_some(prev, k, 0);
                assert(fs[t] == prev[t]);
            } else {
                assert(t == prev.len());
                assert(n@ == k);
                assert forall|m: int| 0 <= m < ps.len() - 1 implies !(#[trigger] ps[m].name matches Some(x) && x@ == k) by {
                    if ps[m].name is Some {
                        assert(ps[m].name->0@ != ps[ps.len() - 1].name->0@);
                    }
                }
                lemma_find_prop_last(ps, k, 0);
            }
        },
        Err(_) => {},
    }
}

/// The value an object yields from its properties sits under a node with properties.
proof fn lemma_object_from_props(s: Schema, args: BoundArgs, m: BodyModel)
    requires
        value_model(s, args) == Ok::<Option<BodyModel>, BodyFault>(Some(m)),
        m is Object,
    ensures
        s.props matches Some(ps) && props_model(ps@, args) == Ok::<Seq<(Seq<char>, BodyModel)>, BodyFault>(
            m->Object_0,
        ),
{
    if let Some(a) = s.arg {
        if let Some(v) = args.lookup(a@) {
            assert(!(leaf_model(family_of(s.type_@), v, a@, is_json_text(value_text(v))) matches Ok(
                BodyModel::Object(_),
            )));
        }
    }
}

proof fn lemma_path_reaches_schema(s: Schema, args: BoundArgs, fs: Seq<(Seq<char>, BodyModel)>, path: Seq<Seq<char>>)
    requires
        s.props matches Some(ps) && props_model(ps@, args) == Ok::<Seq<(Seq<char>, BodyModel)>, BodyFault>(fs),
        tree_unique(s),
        path.len() > 0,
        model_at(BodyModel::Object(fs), path) is Some,
    ensures
        schema_at(s, path) is Some,
    decreases path.len(),
{
    let ps = s.props->0@;
    let k = path[0];
    lemma_member_from_prop(ps, args, fs, k);
    let j = find_prop(ps, k, 0)->0;
    let t = find_field(fs, k, 0)->0;
    let v = fs[t].1;
    let rest = path.drop_first();
    if rest.len() == 0 {
        assert(schema_at(ps[j], rest) == Some(ps[j]));
    } else {
        assert(model_at(v, rest) is Some);
        assert(v is Object);
        lemma_object_from_props(ps[j], args, v);
        lemma_trees_unique_index(ps, j);
        lemma_path_reaches_schema(ps[j], args, v->Object_0, rest);
    }
}

/// When the body built from a schema has a value at a non-empty path, the
/// schema node reached by the same path exists and carries the name of the
/// path's last segment (for schemas whose property names are unique at each level).
pub proof fn lemma_built_value_has_named_schema(s: Schema, args: BoundArgs, path: Seq<Seq<char>>)
    requires
        tree_unique(s),
        body_of(s, args) is Ok,
        path.len() > 0,
        model_at(body_of(s, args)->Ok_0, path) is Some,
    ensures
        schema_at(s, path) matches Some(n) && (n.name matches Some(x) && x@ == path.last()),
{
    let fs = props_model(s.props->0@, args)->Ok_0;
    lemma_path_reaches_schema(s, args, fs, path);
    lemma_schema_at_named(s, path);
}

} // verus!
