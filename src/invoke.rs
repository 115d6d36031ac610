//! Turning a selected operation and the bound arguments into one HTTP
//! request, and routing the response by its status code.

use vstd::prelude::*;
use vstd::utf8::{decode_utf8, valid_utf8};

use crate::body::{body_model, body_of, BodyBuilder, BodyError, BodyFault, BodyModel, BodyValue};
use crate::bound_args::{ArgValue, BoundArgs};
use crate::condition::{command_sound, opt_id_view, selected_operation, MetadataFault};
use crate::metadata_command::{
    bears_body, Command, Method, Operation, RequestPathParam, RequestQueryConst, RequestQueryParam, Response,
};
use crate::resource_id::{check_id, IdError, IdFault, ResourceId};
use crate::text::{
    chars_of, push_str, replace_all, replace_chars, split_chars, split_on, str_eq, string_from_chars,
};

verus! {

/// A fully formed request: method, path, query pairs in declaration order
/// and, for body-bearing methods, the body.
#[derive(Debug)]
pub struct HttpRequestSpec {
    pub method: Method,
    pub path: String,
    pub query: Vec<(String, String)>,
    pub body: Option<BodyValue>,
}

/// The model of an [`HttpRequestSpec`].
pub struct RequestModel {
    pub method: Method,
    pub path: Seq<char>,
    pub query: Seq<(Seq<char>, Seq<char>)>,
    pub body: Option<BodyModel>,
}

/// Why no request could be built.
#[derive(Debug)]
pub enum RequestError {
    /// The operation (named by its id, or empty) declares no HTTP shape.
    NoHttp(String),
    InvalidId(IdError),
    MissingRequiredParameter(String),
    /// Optional path parameters are not supported.
    OptionalParameterUnsupported(String),
    /// The value bound to this argument key is not text.
    ArgNotText(String),
    Body(BodyError),
}

/// The model of a [`RequestError`].
pub enum RequestFault {
    NoHttp(Seq<char>),
    InvalidId(IdFault),
    MissingRequiredParameter(Seq<char>),
    OptionalParameterUnsupported(Seq<char>),
    ArgNotText(Seq<char>),
    Body(BodyFault),
}

impl RequestError {
    pub open spec fn model(&self) -> RequestFault {
        match self {
            RequestError::NoHttp(s) => RequestFault::NoHttp(s@),
            RequestError::InvalidId(e) => RequestFault::InvalidId(e.model()),
            RequestError::MissingRequiredParameter(s) => RequestFault::MissingRequiredParameter(s@),
            RequestError::OptionalParameterUnsupported(s) => RequestFault::OptionalParameterUnsupported(s@),
            RequestError::ArgNotText(s) => RequestFault::ArgNotText(s@),
            RequestError::Body(e) => RequestFault::Body(e.model()),
        }
    }
}

pub open spec fn pairs_view(v: Seq<(String, String)>) -> Seq<(Seq<char>, Seq<char>)> {
    v.map_values(|p: (String, String)| (p.0@, p.1@))
}

impl HttpRequestSpec {
    pub open spec fn model(&self) -> RequestModel {
        RequestModel {
            method: self.method,
            path: self.path@,
            query: pairs_view(self.query@),
            body: match self.body {
                Some(b) => Some(body_model(b)),
                None => None,
            },
        }
    }
}

/// What is bound to `key`: `None` when nothing is, `Some(None)` when the
/// value is not text, else its text.
pub open spec fn arg_text(args: BoundArgs, key: Seq<char>) -> Option<Option<Seq<char>>> {
    match args.lookup(key) {
        Some(ArgValue::Str(s)) => Some(Some(s@)),
        Some(ArgValue::Json(s)) => Some(Some(s@)),
        Some(_) => Some(None),
        None => None,
    }
}

pub open spec fn braced(name: Seq<char>) -> Seq<char> {
    seq!['{'] + name + seq!['}']
}

/// The path template with each declared parameter's `{name}` replaced by
/// its bound text, in declaration order.
pub open spec fn fill_params(template: Seq<char>, params: Seq<RequestPathParam>, args: BoundArgs) -> Result<Seq<char>, RequestFault>
    decreases params.len(),
{
    if params.len() == 0 {
        Ok(template)
    } else {
        match fill_params(template, params.drop_last(), args) {
            Err(e) => Err(e),
            Ok(p) => {
                let prm = params.last();
                match arg_text(args, prm.arg@) {
                    Some(Some(t)) => Ok(replace_all(p, braced(prm.name@), t)),
                    Some(None) => Err(RequestFault::ArgNotText(prm.arg@)),
                    None => if prm.required == Some(true) {
                        Err(RequestFault::MissingRequiredParameter(prm.name@))
                    } else {
                        Err(RequestFault::OptionalParameterUnsupported(prm.name@))
                    },
                }
            },
        }
    }
}

/// The path for an explicit identifier: the identifier itself once it fits
/// the template, with `/` and the action name after it for `POST`.
pub open spec fn id_path(id: Seq<char>, template: Seq<char>, is_post: bool) -> Result<Seq<char>, RequestFault> {
    match check_id(id, template, is_post) {
        Err(f) => Err(RequestFault::InvalidId(f)),
        Ok(()) => if is_post {
            Ok(id + seq!['/'] + split_on(template, '/').last())
        } else {
            Ok(id)
        },
    }
}

/// The constant query pairs; an `api-version` constant takes the bound
/// `api-version` text when there is one.
pub open spec fn const_pairs(consts: Seq<RequestQueryConst>, args: BoundArgs) -> Result<Seq<(Seq<char>, Seq<char>)>, RequestFault>
    decreases consts.len(),
{
    if consts.len() == 0 {
        Ok(Seq::empty())
    } else {
        match const_pairs(consts.drop_last(), args) {
            Err(e) => Err(e),
            Ok(prev) => {
                let c = consts.last();
                if c.name@ == "api-version"@ {
                    match arg_text(args, "api-version"@) {
                        Some(Some(t)) => Ok(prev.push((c.name@, t))),
                        Some(None) => Err(RequestFault::ArgNotText("api-version"@)),
                        None => Ok(prev.push((c.name@, c.default.value@))),
                    }
                } else {
                    Ok(prev.push((c.name@, c.default.value@)))
                }
            },
        }
    }
}

/// The dynamic query pairs whose argument is bound.
pub open spec fn param_pairs(params: Seq<RequestQueryParam>, args: BoundArgs) -> Result<Seq<(Seq<char>, Seq<char>)>, RequestFault>
    decreases params.len(),
{
    if params.len() == 0 {
        Ok(Seq::empty())
    } else {
        match param_pairs(params.drop_last(), args) {
            Err(e) => Err(e),
            Ok(prev) => {
                let p = params.last();
                match arg_text(args, p.arg@) {
                    Some(Some(t)) => Ok(prev.push((p.name@, t))),
                    Some(None) => Err(RequestFault::ArgNotText(p.arg@)),
                    None => Ok(prev),
                }
            },
        }
    }
}

/// The request that an operation, the bound arguments, an optional explicit
/// identifier and an optional explicit body (JSON text) give.
pub open spec fn request_of(op: Operation, args: BoundArgs, id: Option<Seq<char>>, explicit: Option<Seq<char>>) -> Result<RequestModel, RequestFault> {
    match op.http {
        None => Err(RequestFault::NoHttp(
            match op.operation_id {
                Some(s) => s@,
                None => Seq::empty(),
            },
        )),
        Some(h) => {
            let path = match id {
                Some(i) => id_path(i, h.path@, h.request.method == Method::Post),
                None => fill_params(h.path@, h.request.path.params@, args),
            };
            let params = match h.request.query.params {
                Some(ps) => ps@,
                None => Seq::empty(),
            };
            let body: Result<Option<BodyModel>, RequestFault> = if !bears_body(h.request.method) {
                Ok(None)
            } else {
                match explicit {
                    Some(t) => Ok(Some(BodyModel::Raw(t))),
                    None => match h.request.body {
                        Some(b) => match b.json.schema {
                            Some(s) => match body_of(s, args) {
                                Ok(m) => Ok(Some(m)),
                                Err(e) => Err(RequestFault::Body(e)),
                            },
                            None => Ok(None),
                        },
                        None => Ok(None),
                    },
                }
            };
            match path {
                Err(e) => Err(e),
                Ok(p) => match const_pairs(h.request.query.consts@, args) {
                    Err(e) => Err(e),
                    Ok(cq) => match param_pairs(params, args) {
                        Err(e) => Err(e),
                        Ok(pq) => match body {
                            Err(e) => Err(e),
                            Ok(b) => Ok(
                                RequestModel { method: h.request.method, path: p, query: cq + pq, body: b },
                            ),
                        },
                    },
                },
            }
        },
    }
}

pub open spec fn opt_text_view(r: Option<Option<String>>) -> Option<Option<Seq<char>>> {
    match r {
        Some(Some(s)) => Some(Some(s@)),
        Some(None) => Some(None),
        None => None,
    }
}

/// What is bound to `key` (see [`arg_text`]).
fn text_arg(args: &BoundArgs, key: &str) -> (r: Option<Option<String>>)
    ensures
        opt_text_view(r) == arg_text(*args, key@),
{
    match args.get(key) {
        Some(ArgValue::Str(s)) => Some(Some(s.clone())),
        Some(ArgValue::Json(s)) => Some(Some(s.clone())),
        Some(_) => Some(None),
        None => None,
    }
}

/// The path from the template and the bound path parameters (see [`fill_params`]).
fn build_path_from_params(template: &String, params: &Vec<RequestPathParam>, args: &BoundArgs) -> (r: Result<String, RequestError>)
    ensures
        match fill_params(template@, params@, *args) {
            Ok(p) => r matches Ok(s) && s@ == p,
            Err(f) => r matches Err(e) && e.model() == f,
        },
{
    let mut path: Vec<char> = chars_of(template.as_str());
    let mut i: usize = 0;
    assert(params@.take(0) =~= Seq::<RequestPathParam>::empty());
    while i < params.len()
        invariant
            i <= params@.len(),
            fill_params(template@, params@.take(i as int), *args) == Ok::<Seq<char>, RequestFault>(path@),
        decreases params@.len() - i,
    {
        let ghost pre = params@.take(i as int + 1);
        assert(pre.drop_last() =~= params@.take(i as int));
        let prm = &params[i];
        match text_arg(args, prm.arg.as_str()) {
            Some(Some(t)) => {
                let mut pat: Vec<char> = Vec::new();
                pat.push('{');
                push_str(&mut pat, prm.name.as_str());
                pat.push('}');
                assert(pat@ =~= braced(prm.name@));
                let tc = chars_of(t.as_str());
                path = replace_chars(path.as_slice(), pat.as_slice(), tc.as_slice());
            },
            Some(None) => {
                proof { lemma_fill_prefix_err(template@, params@, *args, i as int + 1); }
                return Err(RequestError::ArgNotText(prm.arg.clone()));
            },
            None => {
                proof { lemma_fill_prefix_err(template@, params@, *args, i as int + 1); }
                if prm.required == Some(true) {
                    return Err(RequestError::MissingRequiredParameter(prm.name.clone()));
                } else {
                    return Err(RequestError::OptionalParameterUnsupported(prm.name.clone()));
                }
            },
        }
        i = i + 1;
    }
    assert(params@.take(params@.len() as int) =~= params@);
    Ok(string_from_chars(path.as_slice()))
}

proof fn lemma_fill_prefix_err(template: Seq<char>, params: Seq<RequestPathParam>, args: BoundArgs, n: int)
    requires
        0 <= n <= params.len(),
        fill_params(template, params.take(n), args) is Err,
    ensures
        fill_params(template, params, args) == fill_params(template, params.take(n), args),
    decreases params.len() - n,
{
    if n < params.len() {
        assert(params.take(n + 1).drop_last() =~= params.take(n));
        lemma_fill_prefix_err(template, params, args, n + 1);
    } else {
        assert(params.take(n) =~= params);
    }
}

/// The path for an explicit identifier (see [`id_path`]).
fn build_path_from_id(id: &ResourceId, template: &String, method: &Method) -> (r: Result<String, RequestError>)
    ensures
        match id_path(id@, template@, *method == Method::Post) {
            Ok(p) => r matches Ok(s) && s@ == p,
            Err(f) => r matches Err(e) && e.model() == f,
        },
{
    match id.validate_pattern(template.as_str(), method) {
        Err(e) => Err(RequestError::InvalidId(e)),
        Ok(()) => {
            if *method == Method::Post {
                let tc = chars_of(template.as_str());
                let segs = split_chars(tc.as_slice(), '/');
                proof { crate::text::lemma_split_on_nonempty(template@, '/'); }
                let last = &segs[segs.len() - 1];
                let mut out = chars_of(id.id().as_str());
                out.push('/');
                let mut tail: Vec<char> = vstd::slice::slice_to_vec(last.as_slice());
                out.append(&mut tail);
                Ok(string_from_chars(out.as_slice()))
            } else {
                Ok(id.id())
            }
        },
    }
}

/// The constant query pairs (see [`const_pairs`]).
fn build_const_query(consts: &Vec<RequestQueryConst>, args: &BoundArgs) -> (r: Result<Vec<(String, String)>, RequestError>)
    ensures
        match const_pairs(consts@, *args) {
            Ok(q) => r matches Ok(v) && pairs_view(v@) == q,
            Err(f) => r matches Err(e) && e.model() == f,
        },
{
    let mut out: Vec<(String, String)> = Vec::new();
    let mut i: usize = 0;
    assert(consts@.take(0) =~= Seq::<RequestQueryConst>::empty());
    assert(pairs_view(out@) =~= Seq::empty());
    while i < consts.len()
        invariant
            i <= consts@.len(),
            const_pairs(consts@.take(i as int), *args) == Ok::<Seq<(Seq<char>, Seq<char>)>, RequestFault>(pairs_view(out@)),
        decreases consts@.len() - i,
    {
        let ghost pre = consts@.take(i as int + 1);
        assert(pre.drop_last() =~= consts@.take(i as int));
        let c = &consts[i];
        let value = if str_eq(c.name.as_str(), "api-version") {
            match text_arg(args, "api-version") {
                Some(Some(t)) => t,
                Some(None) => {
                    proof { lemma_const_prefix_err(consts@, *args, i as int + 1); }
                    return Err(RequestError::ArgNotText(String::from_str("api-version")));
                },
                None => c.default.value.clone(),
            }
        } else {
            c.default.value.clone()
        };
        let ghost before = out@;
        out.push((c.name.clone(), value));
        assert(pairs_view(out@) =~= pairs_view(before).push((c.name@, value@)));
        i = i + 1;
    }
    assert(consts@.take(consts@.len() as int) =~= consts@);
    Ok(out)
}

proof fn lemma_const_prefix_err(consts: Seq<RequestQueryConst>, args: BoundArgs, n: int)
    requires
        0 <= n <= consts.len(),
        const_pairs(consts.take(n), args) is Err,
    ensures
        const_pairs(consts, args) == const_pairs(consts.take(n), args),
    decreases consts.len() - n,
{
    if n < consts.len() {
        assert(consts.take(n + 1).drop_last() =~= consts.take(n));
        lemma_const_prefix_err(consts, args, n + 1);
    } else {
        assert(consts.take(n) =~= consts);
    }
}

/// The dynamic query pairs (see [`param_pairs`]).
fn build_param_query(params: &Vec<RequestQueryParam>, args: &BoundArgs) -> (r: Result<Vec<(String, String)>, RequestError>)
    ensures
        match param_pairs(params@, *args) {
            Ok(q) => r matches Ok(v) && pairs_view(v@) == q,
            Err(f) => r matches Err(e) && e.model() == f,
        },
{
    let mut out: Vec<(String, String)> = Vec::new();
    let mut i: usize = 0;
    assert(params@.take(0) =~= Seq::<RequestQueryParam>::empty());
    assert(pairs_view(out@) =~= Seq::empty());
    while i < params.len()
        invariant
            i <= params@.len(),
            param_pairs(params@.take(i as int), *args) == Ok::<Seq<(Seq<char>, Seq<char>)>, RequestFault>(pairs_view(out@)),
        decreases params@.len() - i,
    {
        let ghost pre = params@.take(i as int + 1);
        assert(pre.drop_last() =~= params@.take(i as int));
        let p = &params[i];
        match text_arg(args, p.arg.as_str()) {
            Some(Some(t)) => {
                let ghost before = out@;
                out.push((p.name.clone(), t));
                assert(pairs_view(out@) =~= pairs_view(before).push((p.name@, t@)));
            },
            Some(None) => {
                proof { lemma_param_prefix_err(params@, *args, i as int + 1); }
                return Err(RequestError::ArgNotText(p.arg.clone()));
            },
            None => {},
        }
        i = i + 1;
    }
    assert(params@.take(params@.len() as int) =~= params@);
    Ok(out)
}

proof fn lemma_param_prefix_err(params: Seq<RequestQueryParam>, args: BoundArgs, n: int)
    requires
        0 <= n <= params.len(),
        param_pairs(params.take(n), args) is Err,
    ensures
        param_pairs(params, args) == param_pairs(params.take(n), args),
    decreases params.len() - n,
{
    if n < params.len() {
        assert(params.take(n + 1).drop_last() =~= params.take(n));
        lemma_param_prefix_err(params, args, n + 1);
    } else {
        assert(params.take(n) =~= params);
    }
}

pub open spec fn opt_string_view(o: Option<&String>) -> Option<Seq<char>> {
    match o {
        Some(s) => Some(s@),
        None => None,
    }
}

/// Builds the request for `operation`: the path from the explicit identifier
/// when one is given, else from the bound path parameters; the constant and
/// bound query pairs; and, for PUT, PATCH and POST, the explicit body when one
/// is given, else the body built from the body schema.
pub fn build_request(
    operation: &Operation,
    args: &BoundArgs,
    id: Option<&ResourceId>,
    explicit_body: Option<&String>,
) -> (r: Result<HttpRequestSpec, RequestError>)
    ensures
        match request_of(*operation, *args, opt_id_view(id), opt_string_view(explicit_body)) {
            Ok(m) => r matches Ok(q) && q.model() == m,
            Err(f) => r matches Err(e) && e.model() == f,
        },
{
    let http = match &operation.http {
        Some(h) => h,
        None => {
            let name = match &operation.operation_id {
                Some(s) => s.clone(),
                None => String::new(),
            };
            return Err(RequestError::NoHttp(name));
        },
    };
    let method = http.request.method;
    let path = match id {
        Some(rid) => build_path_from_id(rid, &http.path, &method),
        None => build_path_from_params(&http.path, &http.request.path.params, args),
    };
    let path = match path {
        Ok(p) => p,
        Err(e) => {
            return Err(e);
        },
    };
    let mut query = match build_const_query(&http.request.query.consts, args) {
        Ok(q) => q,
        Err(e) => {
            return Err(e);
        },
    };
    let mut dynamic = match &http.request.query.params {
        Some(ps) => match build_param_query(ps, args) {
            Ok(q) => q,
            Err(e) => {
                return Err(e);
            },
        },
        None => {
            assert(pairs_view(Seq::<(String, String)>::empty()) =~= Seq::empty());
            Vec::new()
        },
    };
    let ghost cq = query@;
    let ghost pq = dynamic@;
    query.append(&mut dynamic);
    assert(pairs_view(query@) =~= pairs_view(cq) + pairs_view(pq));
    let bearing = method == Method::Put || method == Method::Patch || method == Method::Post;
    let body = if !bearing {
        None
    } else {
        match explicit_body {
            Some(t) => Some(BodyValue::Raw(t.clone())),
            None => match &http.request.body {
                Some(b) => match &b.json.schema {
                    Some(s) => match BodyBuilder(args).build_body(s) {
                        Ok(v) => Some(v),
                        Err(e) => {
                            return Err(RequestError::Body(e));
                        },
                    },
                    None => None,
                },
                None => None,
            },
        }
    };
    Ok(HttpRequestSpec { method, path, query, body })
}

/// Some declared response lists the status code.
pub open spec fn accepted(responses: Seq<Response>, status: int) -> bool {
    exists|i: int|
        0 <= i < responses.len() && #[trigger] declares_status(responses[i], status)
}

pub open spec fn lists_status(codes: Seq<i64>, status: int) -> bool {
    exists|k: int| 0 <= k < codes.len() && #[trigger] codes[k] == status
}

pub open spec fn declares_status(resp: Response, status: int) -> bool {
    match resp.status_code {
        Some(codes) => lists_status(codes@, status),
        None => false,
    }
}

/// Why a response is not a success.
#[derive(Debug)]
pub enum ResponseError {
    /// The status is declared but the body is not UTF-8 text.
    InvalidUtf8,
    /// No declared response lists the status.
    Unexpected { status: u16, body: Vec<u8> },
}

/// Relies on `std::str::from_utf8`: it succeeds exactly on valid UTF-8 and
/// then holds the decoded characters.
#[verifier::external_body]
fn utf8_text(bytes: &[u8]) -> (r: Option<String>)
    ensures
        r is Some <==> valid_utf8(bytes@),
        r matches Some(s) ==> s@ == decode_utf8(bytes@),
{
    std::str::from_utf8(bytes).ok().map(String::from)
}

/// Routes a response: when a declared response lists the status code, the
/// body as text; otherwise an error holding the status and the raw body.
pub fn route_response(status: u16, body: Vec<u8>, responses: &Vec<Response>) -> (r: Result<String, ResponseError>)
    ensures
        accepted(responses@, status as int) && valid_utf8(body@) ==> (r matches Ok(s) && s@ == decode_utf8(body@)),
        accepted(responses@, status as int) && !valid_utf8(body@) ==> r matches Err(ResponseError::InvalidUtf8),
        !accepted(responses@, status as int) ==> (r matches Err(ResponseError::Unexpected { status: s, body: b })
            && s == status && b@ == body@),
{
    let mut i: usize = 0;
    while i < responses.len()
        invariant
            i <= responses@.len(),
            forall|j: int| 0 <= j < i ==> !declares_status(#[trigger] responses@[j], status as int),
        decreases responses@.len() - i,
    {
        match &responses[i].status_code {
            Some(codes) => {
                let mut k: usize = 0;
                while k < codes.len()
                    invariant
                        responses@[i as int].status_code == Some(*codes),
                        i < responses@.len(),
                        k <= codes@.len(),
                        forall|m: int| 0 <= m < k ==> codes@[m] != status as int,
                    decreases codes@.len() - k,
                {
                    if codes[k] == status as i64 {
                        assert(codes@[k as int] == status as int);
                        assert(lists_status(codes@, status as int));
                        assert(declares_status(responses@[i as int], status as int));
                        assert(accepted(responses@, status as int));
                        return match utf8_text(body.as_slice()) {
                            Some(s) => Ok(s),
                            None => Err(ResponseError::InvalidUtf8),
                        };
                    }
                    k = k + 1;
                }
            },
            None => {},
        }
        i = i + 1;
    }
    Err(ResponseError::Unexpected { status, body })
}

/// Why a command invocation produced no request.
#[derive(Debug)]
pub enum InvokeError {
    /// The command document is not sound.
    Metadata(MetadataFault),
    /// No single operation could be determined from the input.
    NoOperation,
    Request(RequestError),
}

/// The request for one invocation of a command: the document is checked,
/// the operation selected from the input, and its request built.
pub fn plan_request(
    command: &Command,
    args: &BoundArgs,
    id: Option<&ResourceId>,
    explicit_body: Option<&String>,
) -> (r: Result<HttpRequestSpec, InvokeError>)
    ensures
        !command_sound(*command) <==> r matches Err(InvokeError::Metadata(_)),
        command_sound(*command) ==> match selected_operation(*command, args.keys(), opt_id_view(id)) {
            None => r matches Err(InvokeError::NoOperation),
            Some(j) => match request_of(
                command.operations@[j],
                *args,
                opt_id_view(id),
                opt_string_view(explicit_body),
            ) {
                Ok(m) => r matches Ok(q) && q.model() == m,
                Err(f) => r matches Err(InvokeError::Request(e)) && e.model() == f,
            },
        },
{
    match command.check_integrity() {
        Err(f) => {
            return Err(InvokeError::Metadata(f));
        },
        Ok(()) => {},
    }
    let operation = match command.select_operation(args, id) {
        Some(op) => op,
        None => {
            return Err(InvokeError::NoOperation);
        },
    };
    match build_request(operation, args, id, explicit_body) {
        Ok(q) => Ok(q),
        Err(e) => Err(InvokeError::Request(e)),
    }
}

} // verus!
