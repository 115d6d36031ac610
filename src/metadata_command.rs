//! The per-command metadata document: argument groups, condition trees,
//! operations with their HTTP shape, and the recursive body schema.

use vstd::prelude::*;

use crate::text::{push_str, str_eq, string_from_chars};

verus! {

/// One resolved command at one API version.
#[derive(Debug, Clone, Default)]
pub struct Command {
    pub arg_groups: Vec<ArgGroup>,
    pub conditions: Option<Vec<Condition>>,
    pub operations: Vec<Operation>,
    pub outputs: Option<Vec<Output>>,
    pub resources: Vec<Resource>,
}

/// A named boolean expression over "argument has a value" facts.
#[derive(Debug, Clone)]
pub struct Condition {
    pub operator: ConditionOperator,
    pub var: String,
}

/// A node of a condition tree.
#[derive(Debug)]
pub enum ConditionOperator {
    Operators { operators: Vec<ConditionOperator>, type_: ConditionOperatorType },
    Operator { operator: Box<ConditionOperator>, type_: ConditionOperatorType },
    Arg { arg: String, type_: ConditionOperatorType },
}

#[derive(Debug, Copy, Clone, PartialEq, Eq, Structural)]
pub enum ConditionOperatorType {
    HasValue,
    Not,
    And,
    Or,
}

#[derive(Debug, Clone)]
pub struct Resource {
    pub id: String,
    pub plane: Plane,
}

#[derive(Debug, Copy, Clone, PartialEq, Eq, Structural)]
pub enum Plane {
    Mgmt,
    Data,
}

#[derive(Debug, Clone)]
pub struct ArgGroup {
    pub name: String,
    pub args: Vec<Arg>,
}

#[derive(Debug, Clone)]
pub struct Arg {
    pub type_: String,
    pub var: String,
    pub options: Vec<String>,
    pub group: Option<String>,
    pub help: Option<Help>,
    pub required: Option<bool>,
    pub id_part: Option<String>,
    pub additional_props: Option<AdditionalPropSchema>,
    pub hide: Option<bool>,
}

#[derive(Debug, Clone)]
pub struct Help {
    pub short: String,
}

/// One concrete HTTP operation that a command may dispatch to.
#[derive(Debug, Clone)]
pub struct Operation {
    pub operation_id: Option<String>,
    pub http: Option<Http>,
    pub when: Option<Vec<String>>,
}

#[derive(Debug, Clone)]
pub struct Http {
    pub path: String,
    pub request: Request,
    pub responses: Vec<Response>,
}

#[derive(Debug, Clone)]
pub struct Request {
    pub method: Method,
    pub path: RequestPath,
    pub query: RequestQuery,
    pub body: Option<Body>,
}

#[derive(Debug, Copy, Clone, PartialEq, Eq, Structural)]
pub enum Method {
    Head,
    Get,
    Put,
    Patch,
    Post,
    Delete,
}

#[derive(Debug, Clone)]
pub struct RequestPath {
    pub params: Vec<RequestPathParam>,
}

#[derive(Debug, Clone)]
pub struct RequestPathParam {
    pub type_: String,
    pub name: String,
    pub arg: String,
    pub required: Option<bool>,
    pub format: Option<RequestFormat>,
}

#[derive(Debug, Clone)]
pub struct RequestFormat {
    pub pattern: Option<String>,
    pub max_length: Option<i64>,
    pub min_length: Option<i64>,
}

#[derive(Debug, Clone)]
pub struct ResponseFormat {
    pub template: Option<String>,
}

#[derive(Debug, Clone)]
pub struct RequestQuery {
    pub consts: Vec<RequestQueryConst>,
    pub params: Option<Vec<RequestQueryParam>>,
}

#[derive(Debug, Clone)]
pub struct RequestQueryConst {
    pub name: String,
    pub type_: String,
    pub required: Option<bool>,
    pub read_only: Option<bool>,
    pub const_: bool,
    pub default: DefaultValue,
}

#[derive(Debug, Clone)]
pub struct RequestQueryParam {
    pub arg: String,
    pub description: String,
    pub name: String,
    pub type_: String,
}

#[derive(Debug, Clone)]
pub struct DefaultValue {
    pub value: String,
}

#[derive(Debug, Clone)]
pub struct Body {
    pub json: BodyJSON,
}

#[derive(Debug, Clone)]
pub struct BodyJSON {
    pub schema: Option<Schema>,
    pub var: Option<String>,
    pub ref_: Option<String>,
}

#[derive(Debug, Clone)]
pub struct Response {
    pub status_code: Option<Vec<i64>>,
    pub body: Option<Body>,
    pub is_error: Option<bool>,
}

#[derive(Debug, Clone)]
pub struct Output {
    pub type_: String,
    pub client_flatten: Option<bool>,
}

/// A node of the recursive description of a JSON value and of its binding
/// to user-supplied arguments.
#[derive(Debug, Default)]
pub struct Schema {
    pub type_: String,
    pub name: Option<String>,
    pub description: Option<String>,
    pub required: Option<bool>,
    pub arg: Option<String>,
    pub read_only: Option<bool>,
    pub props: Option<Vec<Schema>>,
    pub item: Option<Box<Schema>>,
    pub format: Option<ResponseFormat>,
    pub client_flatten: Option<bool>,
    pub additional_props: Option<AdditionalPropSchema>,
}

impl Clone for ConditionOperator {
    #[verifier::loop_isolation(false)]
    fn clone(&self) -> Self
        decreases self,
    {
        match self {
            ConditionOperator::Operators { operators, type_ } => {
                let mut out: Vec<ConditionOperator> = Vec::new();
                let mut i: usize = 0;
                while i < operators.len()
                    invariant
                        i <= operators@.len(),
                    decreases operators@.len() - i,
                {
                    proof {
                        assert(decreases_to!(*self => *operators));
                        assert(decreases_to!(*operators => operators@));
                        assert(decreases_to!(operators@ => operators@[i as int]));
                    }
                    out.push(operators[i].clone());
                    i = i + 1;
                }
                ConditionOperator::Operators { operators: out, type_: *type_ }
            },
            ConditionOperator::Operator { operator, type_ } => {
                let inner: &ConditionOperator = operator;
                ConditionOperator::Operator { operator: Box::new(inner.clone()), type_: *type_ }
            },
            ConditionOperator::Arg { arg, type_ } => ConditionOperator::Arg {
                arg: arg.clone(),
                type_: *type_,
            },
        }
    }
}

impl Clone for Schema {
    #[verifier::loop_isolation(false)]
    fn clone(&self) -> Self
        decreases self,
    {
        let props = match &self.props {
            Some(ps) => {
                let mut out: Vec<Schema> = Vec::new();
                let mut i: usize = 0;
                while i < ps.len()
                    invariant
                        i <= ps@.len(),
                    decreases ps@.len() - i,
                {
                    proof {
                        assert(decreases_to!(*self => self.props));
                        assert(decreases_to!(self.props => *ps));
                        assert(decreases_to!(*ps => ps@));
                        assert(decreases_to!(ps@ => ps@[i as int]));
                    }
                    out.push(ps[i].clone());
                    i = i + 1;
                }
                Some(out)
            },
            None => None,
        };
        let item = match &self.item {
            Some(b) => {
                let inner: &Schema = b;
                Some(Box::new(inner.clone()))
            },
            None => None,
        };
        Schema {
            type_: self.type_.clone(),
            name: self.name.clone(),
            description: self.description.clone(),
            required: self.required,
            arg: self.arg.clone(),
            read_only: self.read_only,
            props,
            item,
            format: self.format.clone(),
            client_flatten: self.client_flatten,
            additional_props: self.additional_props.clone(),
        }
    }
}

#[derive(Debug, Clone)]
pub struct AdditionalPropSchema {
    pub item: AdditionalPropItemSchema,
}

#[derive(Debug, Clone)]
pub struct AdditionalPropItemSchema {
    pub type_: String,
}

/// PUT, PATCH and POST carry a request body.
pub open spec fn bears_body(m: Method) -> bool {
    m == Method::Put || m == Method::Patch || m == Method::Post
}

/// The first property at or after `i` named `name`.
pub open spec fn find_prop(ps: Seq<Schema>, name: Seq<char>, i: int) -> Option<int>
    decreases ps.len() - i,
{
    if i < 0 || i >= ps.len() {
        None
    } else if ps[i].name matches Some(n) && n@ == name {
        Some(i)
    } else {
        find_prop(ps, name, i + 1)
    }
}

/// The node reached from `s` by following, name by name, nested properties.
pub open spec fn schema_at(s: Schema, path: Seq<Seq<char>>) -> Option<Schema>
    decreases path.len(),
{
    if path.len() == 0 {
        Some(s)
    } else {
        match s.props {
            Some(ps) => match find_prop(ps@, path[0], 0) {
                Some(j) => schema_at(ps@[j], path.drop_first()),
                None => None,
            },
            None => None,
        }
    }
}

/// The request body schema of an operation, if it declares one.
pub open spec fn request_schema(op: Operation) -> Option<Schema> {
    match op.http {
        Some(h) => match h.request.body {
            Some(b) => b.json.schema,
            None => None,
        },
        None => None,
    }
}

pub open spec fn op_schema_at(op: Operation, path: Seq<Seq<char>>) -> Option<Schema> {
    match request_schema(op) {
        Some(s) => schema_at(s, path),
        None => None,
    }
}

pub open spec fn str_views(v: Seq<&str>) -> Seq<Seq<char>> {
    v.map_values(|p: &str| p@)
}

/// The hover text of a schema node: its name, whether it is required, its
/// type and, after a blank line, its description.
pub open spec fn hover_text(s: Schema) -> Seq<char> {
    let name = match s.name {
        Some(n) => n@,
        None => "unknown"@,
    };
    let req = if s.required == Some(true) {
        "required"@
    } else {
        "optional"@
    };
    let head = name + " *"@ + req + "*, "@ + s.type_@;
    match s.description {
        Some(d) => head + "\n\n"@ + d@,
        None => head,
    }
}

/// The first property named `name`.
fn find_prop_exec(ps: &Vec<Schema>, name: &str) -> (r: Option<usize>)
    ensures
        r matches Some(i) ==> i < ps@.len() && find_prop(ps@, name@, 0) == Some(i as int),
        r is None ==> find_prop(ps@, name@, 0) is None,
{
    let mut i: usize = 0;
    while i < ps.len()
        invariant
            i <= ps@.len(),
            find_prop(ps@, name@, 0) == find_prop(ps@, name@, i as int),
        decreases ps@.len() - i,
    {
        match &ps[i].name {
            Some(n) => if str_eq(n.as_str(), name) {
                return Some(i);
            },
            None => {},
        }
        i = i + 1;
    }
    None
}

impl Schema {
    /// The text shown when hovering over the node in an authored body.
    pub fn to_hover_content(&self) -> (r: String)
        ensures
            r@ == hover_text(*self),
    {
        let mut out: Vec<char> = Vec::new();
        match &self.name {
            Some(n) => push_str(&mut out, n.as_str()),
            None => push_str(&mut out, "unknown"),
        }
        push_str(&mut out, " *");
        if self.required == Some(true) {
            push_str(&mut out, "required");
        } else {
            push_str(&mut out, "optional");
        }
        push_str(&mut out, "*, ");
        push_str(&mut out, self.type_.as_str());
        match &self.description {
            Some(d) => {
                push_str(&mut out, "\n\n");
                push_str(&mut out, d.as_str());
            },
            None => {},
        }
        string_from_chars(out.as_slice())
    }
}

impl Operation {
    /// The body schema node reached by following `paths` through nested
    /// properties by name.
    pub fn schema_by_path(&self, paths: &[&str]) -> (r: Option<&Schema>)
        ensures
            r is Some <==> op_schema_at(*self, str_views(paths@)) is Some,
            r matches Some(s) ==> op_schema_at(*self, str_views(paths@)) == Some(*s),
    {
        let http = match &self.http {
            Some(h) => h,
            None => {
                return None;
            },
        };
        let body = match &http.request.body {
            Some(b) => b,
            None => {
                return None;
            },
        };
        let mut schema = match &body.json.schema {
            Some(s) => s,
            None => {
                return None;
            },
        };
        let ghost path = str_views(paths@);
        let mut i: usize = 0;
        assert(path.skip(0) =~= path);
        while i < paths.len()
            invariant
                path == str_views(paths@),
                i <= paths@.len(),
                op_schema_at(*self, path) == schema_at(*schema, path.skip(i as int)),
            decreases paths@.len() - i,
        {
            assert(path.skip(i as int)[0] == paths@[i as int]@);
            assert(path.skip(i as int).drop_first() =~= path.skip(i + 1));
            let next = match &schema.props {
                Some(ps) => match find_prop_exec(ps, paths[i]) {
                    Some(j) => &ps[j],
                    None => {
                        return None;
                    },
                },
                None => {
                    return None;
                },
            };
            schema = next;
            i = i + 1;
        }
        assert(path.skip(i as int).len() == 0);
        Some(schema)
    }

    /// Whether the operation's method carries a request body.
    pub fn contains_request_body(&self) -> (r: bool)
        ensures
            r == (self.http matches Some(h) && bears_body(h.request.method)),
    {
        match &self.http {
            Some(h) => {
                let m = h.request.method;
                m == Method::Put || m == Method::Patch || m == Method::Post
            },
            None => false,
        }
    }
}

impl Command {
    /// Whether the command's first operation carries a request body.
    pub fn contains_request_body(&self) -> (r: bool)
        ensures
            r == (self.operations@.len() > 0 && (self.operations@[0].http matches Some(h) && bears_body(
                h.request.method,
            ))),
    {
        if self.operations.len() == 0 {
            false
        } else {
            self.operations[0].contains_request_body()
        }
    }
}

/// A node reached by a non-empty path carries the name of the path's last segment.
pub proof fn lemma_schema_at_named(s: Schema, path: Seq<Seq<char>>)
    requires
        path.len() > 0,
        schema_at(s, path) is Some,
    ensures
        schema_at(s, path)->0.name matches Some(n) && n@ == path.last(),
    decreases path.len(),
{
    let ps = s.props->0@;
    let j = find_prop(ps, path[0], 0)->0;
    lemma_find_prop_named(ps, path[0], 0);
    if path.len() > 1 {
        assert(path.drop_first().last() == path.last());
        lemma_schema_at_named(ps[j], path.drop_first());
    } else {
        assert(path.drop_first().len() == 0);
        assert(schema_at(ps[j], path.drop_first()) == Some(ps[j]));
        assert(path.last() == path[0]);
    }
}

proof fn lemma_find_prop_named(ps: Seq<Schema>, name: Seq<char>, i: int)
    ensures
        find_prop(ps, name, i) matches Some(j) ==> 0 <= j < ps.len() && (ps[j].name matches Some(n)
            && n@ == name),
    decreases ps.len() - i,
{
    if 0 <= i < ps.len() {
        lemma_find_prop_named(ps, name, i + 1);
    }
}

} // verus!
