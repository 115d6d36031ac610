//! Property completion inside an authored request body.

use vstd::prelude::*;

use crate::metadata_command::{op_schema_at, Operation, Schema};
use crate::text::str_eq;

verus! {

/// Where completion was asked for: the identifier path from the top down to
/// the enclosing block, and the identifiers already present beside it.
#[derive(Debug, Clone)]
pub struct CompletionInfo {
    pub path: Vec<String>,
    pub exist_idents: Vec<String>,
}

impl CompletionInfo {
    pub fn new(path: Vec<String>, exist_idents: Vec<String>) -> (r: CompletionInfo)
        ensures
            r.path == path,
            r.exist_idents == exist_idents,
    {
        CompletionInfo { path, exist_idents }
    }
}

pub open spec fn names_view(v: Seq<String>) -> Seq<Seq<char>> {
    v.map_values(|s: String| s@)
}

/// The names of the named properties that are not present yet, in order.
pub open spec fn open_names(props: Seq<Schema>, present: Seq<Seq<char>>) -> Seq<Seq<char>>
    decreases props.len(),
{
    if props.len() == 0 {
        Seq::empty()
    } else {
        let prev = open_names(props.drop_last(), present);
        match props.last().name {
            Some(n) => if present.contains(n@) {
                prev
            } else {
                prev.push(n@)
            },
            None => prev,
        }
    }
}

/// The property names to offer at a position: those of the node the path
/// reaches that are not present yet; nothing when the path reaches no node
/// with properties.
pub open spec fn completion_names(op: Operation, path: Seq<Seq<char>>, present: Seq<Seq<char>>) -> Option<Seq<Seq<char>>> {
    match op_schema_at(op, path) {
        Some(s) => match s.props {
            Some(ps) => Some(open_names(ps@, present)),
            None => None,
        },
        None => None,
    }
}

fn contains_name(v: &Vec<String>, name: &String) -> (r: bool)
    ensures
        r == names_view(v@).contains(name@),
{
    let mut i: usize = 0;
    while i < v.len()
        invariant
            i <= v@.len(),
            forall|j: int| 0 <= j < i ==> v@[j]@ != name@,
        decreases v@.len() - i,
    {
        if str_eq(v[i].as_str(), name.as_str()) {
            assert(names_view(v@)[i as int] == name@);
            return true;
        }
        i = i + 1;
    }
    proof {
        if names_view(v@).contains(name@) {
            let j = choose|j: int| 0 <= j < names_view(v@).len() && names_view(v@)[j] == name@;
            assert(v@[j]@ == name@);
        }
    }
    false
}

/// The property names to offer (see [`completion_names`]).
pub fn completion_labels(operation: &Operation, info: &CompletionInfo) -> (r: Option<Vec<String>>)
    ensures
        match completion_names(*operation, names_view(info.path@), names_view(info.exist_idents@)) {
            Some(ns) => r matches Some(v) && names_view(v@) == ns,
            None => r is None,
        },
{
    let mut path: Vec<&str> = Vec::new();
    let mut i: usize = 0;
    while i < info.path.len()
        invariant
            i <= info.path@.len(),
            path@.len() == i,
            forall|j: int| 0 <= j < i ==> #[trigger] path@[j]@ == info.path@[j]@,
        decreases info.path@.len() - i,
    {
        path.push(info.path[i].as_str());
        i = i + 1;
    }
    assert(crate::metadata_command::str_views(path@) =~= names_view(info.path@));
    let schema = match operation.schema_by_path(path.as_slice()) {
        Some(s) => s,
        None => {
            return None;
        },
    };
    let props = match &schema.props {
        Some(ps) => ps,
        None => {
            return None;
        },
    };
    let ghost present = names_view(info.exist_idents@);
    let mut out: Vec<String> = Vec::new();
    let mut k: usize = 0;
    assert(props@.take(0) =~= Seq::<Schema>::empty());
    assert(names_view(out@) =~= Seq::<Seq<char>>::empty());
    while k < props.len()
        invariant
            present == names_view(info.exist_idents@),
            k <= props@.len(),
            names_view(out@) == open_names(props@.take(k as int), present),
        decreases props@.len() - k,
    {
        assert(props@.take(k + 1).drop_last() =~= props@.take(k as int));
        match &props[k].name {
            Some(n) => if !contains_name(&info.exist_idents, n) {
                let ghost before = out@;
                out.push(n.clone());
                assert(names_view(out@) =~= names_view(before).push(n@));
            },
            None => {},
        }
        k = k + 1;
    }
    assert(props@.take(props@.len() as int) =~= props@);
    Some(out)
}

} // verus!
