//! The hierarchical command index: command groups nested by name down to
//! commands, each with the API versions it is available in.

use vstd::prelude::*;

use crate::text::{chars_of, str_eq, string_from_chars};

verus! {

/// The index of one service: its top-level command groups.
#[derive(Debug)]
pub struct Index {
    pub help: Option<Help>,
    pub command_groups: Vec<(String, CommandGroup)>,
}

/// A group of commands and of nested groups, each under its name.
#[derive(Debug)]
pub struct CommandGroup {
    pub command_groups: Option<Vec<(String, CommandGroup)>>,
    pub commands: Option<Vec<(String, Command)>>,
    pub help: Option<Help>,
}

/// A command, with the API versions it is available in.
#[derive(Debug, Clone)]
pub struct Command {
    pub help: Option<Help>,
    pub versions: Vec<String>,
}

#[derive(Debug, Clone)]
pub struct Help {
    pub short: String,
}

/// Why no command document could be located.
#[derive(Debug, Clone)]
pub enum LocateError {
    EmptyInput,
    UnknownArgument(String),
    VersionNotAvailable(String),
    NoVersion,
    NotACommand,
}

/// The model of a [`LocateError`].
pub enum LocateFault {
    EmptyInput,
    UnknownArgument(Seq<char>),
    VersionNotAvailable(Seq<char>),
    NoVersion,
    NotACommand,
}

impl LocateError {
    pub open spec fn model(&self) -> LocateFault {
        match self {
            LocateError::EmptyInput => LocateFault::EmptyInput,
            LocateError::UnknownArgument(a) => LocateFault::UnknownArgument(a@),
            LocateError::VersionNotAvailable(v) => LocateFault::VersionNotAvailable(v@),
            LocateError::NoVersion => LocateFault::NoVersion,
            LocateError::NotACommand => LocateFault::NotACommand,
        }
    }
}

/// `a` sorts strictly before `b`, character by character.
pub open spec fn lex_lt(a: Seq<char>, b: Seq<char>) -> bool
    decreases a.len(),
{
    if a.len() == 0 {
        b.len() > 0
    } else if b.len() == 0 {
        false
    } else if a[0] != b[0] {
        a[0] < b[0]
    } else {
        lex_lt(a.drop_first(), b.drop_first())
    }
}

/// The greatest of the versions (the latest of equal ones).
pub open spec fn max_version(vs: Seq<String>) -> Seq<char>
    decreases vs.len(),
{
    if vs.len() <= 1 {
        if vs.len() == 1 { vs[0]@ } else { Seq::empty() }
    } else {
        let m = max_version(vs.drop_last());
        if lex_lt(vs.last()@, m) {
            m
        } else {
            vs.last()@
        }
    }
}

pub open spec fn has_version(vs: Seq<String>, v: Seq<char>) -> bool {
    exists|i: int| 0 <= i < vs.len() && #[trigger] vs[i]@ == v
}

/// The version to use: the requested one if the command has it, else the greatest.
pub open spec fn resolve_version(vs: Seq<String>, requested: Option<Seq<char>>) -> Result<Seq<char>, LocateFault> {
    match requested {
        Some(r) => if has_version(vs, r) {
            Ok(r)
        } else {
            Err(LocateFault::VersionNotAvailable(r))
        },
        None => if vs.len() == 0 {
            Err(LocateFault::NoVersion)
        } else {
            Ok(max_version(vs))
        },
    }
}

/// The first entry at or after `i` named `name`.
pub open spec fn find_named<T>(entries: Seq<(String, T)>, name: Seq<char>, i: int) -> Option<int>
    decreases entries.len() - i,
{
    if i < 0 || i >= entries.len() {
        None
    } else if entries[i].0@ == name {
        Some(i)
    } else {
        find_named(entries, name, i + 1)
    }
}

pub open spec fn opt_entries<T>(o: Option<Vec<(String, T)>>) -> Seq<(String, T)> {
    match o {
        Some(v) => v@,
        None => Seq::empty(),
    }
}

/// Walks `args` from position `k` through the groups and commands of one
/// level, and yields the version of the command reached.
pub open spec fn walk(
    groups: Seq<(String, CommandGroup)>,
    commands: Seq<(String, Command)>,
    args: Seq<Seq<char>>,
    k: int,
    requested: Option<Seq<char>>,
) -> Result<Seq<char>, LocateFault>
    decreases args.len() - k,
{
    if k < 0 || k >= args.len() {
        Err(LocateFault::NotACommand)
    } else {
        match find_named(groups, args[k], 0) {
            Some(j) => walk(
                opt_entries(groups[j].1.command_groups),
                opt_entries(groups[j].1.commands),
                args,
                k + 1,
                requested,
            ),
            None => match find_named(commands, args[k], 0) {
                Some(j) => if k + 1 < args.len() {
                    Err(LocateFault::UnknownArgument(args[k + 1]))
                } else {
                    resolve_version(commands[j].1.versions@, requested)
                },
                None => Err(LocateFault::UnknownArgument(args[k])),
            },
        }
    }
}

/// The parts joined with `sep` between each two.
pub open spec fn join_with(parts: Seq<Seq<char>>, sep: char) -> Seq<char>
    decreases parts.len(),
{
    if parts.len() == 0 {
        Seq::empty()
    } else if parts.len() == 1 {
        parts[0]
    } else {
        join_with(parts.drop_last(), sep) + seq![sep] + parts.last()
    }
}

pub open spec fn views(v: Seq<String>) -> Seq<Seq<char>> {
    v.map_values(|s: String| s@)
}

/// The document that the positional arguments name: the first argument is
/// the service, the rest walk the index down to a command, which must come
/// last; the name is the arguments and the version joined by `_`, with `.json`.
pub open spec fn located(index: Index, args: Seq<Seq<char>>, requested: Option<Seq<char>>) -> Result<Seq<char>, LocateFault> {
    if args.len() == 0 {
        Err(LocateFault::EmptyInput)
    } else {
        match walk(index.command_groups@, Seq::empty(), args, 1, requested) {
            Ok(v) => Ok(join_with(args.push(v), '_') + seq!['.', 'j', 's', 'o', 'n']),
            Err(e) => Err(e),
        }
    }
}

fn find_entry<T>(entries: &Vec<(String, T)>, name: &str) -> (r: Option<usize>)
    ensures
        r matches Some(i) ==> i < entries@.len() && find_named(entries@, name@, 0) == Some(i as int),
        r is None ==> find_named(entries@, name@, 0) is None,
{
    let mut i: usize = 0;
    while i < entries.len()
        invariant
            i <= entries@.len(),
            find_named(entries@, name@, 0) == find_named(entries@, name@, i as int),
        decreases entries@.len() - i,
    {
        if str_eq(entries[i].0.as_str(), name) {
            return Some(i);
        }
        i = i + 1;
    }
    None
}

fn char_lt(a: &[char], b: &[char]) -> (r: bool)
    ensures
        r == lex_lt(a@, b@),
{
    let mut i: usize = 0;
    assert(a@.skip(0) =~= a@);
    assert(b@.skip(0) =~= b@);
    while i < a.len() && i < b.len() && a[i] == b[i]
        invariant
            i <= a@.len(),
            i <= b@.len(),
            lex_lt(a@, b@) == lex_lt(a@.skip(i as int), b@.skip(i as int)),
        decreases a@.len() - i,
    {
        assert(a@.skip(i as int).drop_first() =~= a@.skip(i + 1));
        assert(b@.skip(i as int).drop_first() =~= b@.skip(i + 1));
        i = i + 1;
    }
    if i == a.len() {
        i < b.len()
    } else if i == b.len() {
        false
    } else {
        a[i] < b[i]
    }
}

/// The version to use, as in [`resolve_version`].
fn pick_version(versions: &Vec<String>, requested: &Option<String>) -> (r: Result<String, LocateError>)
    ensures
        match resolve_version(versions@, opt_str(*requested)) {
            Ok(v) => r matches Ok(s) && s@ == v,
            Err(f) => r matches Err(e) && e.model() == f,
        },
{
    match requested {
        Some(req) => {
            let mut i: usize = 0;
            while i < versions.len()
                invariant
                    *requested == Some(*req),
                    i <= versions@.len(),
                    forall|m: int| 0 <= m < i ==> versions@[m]@ != req@,
                decreases versions@.len() - i,
            {
                if str_eq(versions[i].as_str(), req.as_str()) {
                    assert(versions@[i as int]@ == req@);
                    return Ok(versions[i].clone());
                }
                i = i + 1;
            }
            Err(LocateError::VersionNotAvailable(req.clone()))
        },
        None => {
            if versions.len() == 0 {
                return Err(LocateError::NoVersion);
            }
            let mut best: usize = 0;
            let mut best_chars = chars_of(versions[0].as_str());
            let mut i: usize = 1;
            assert(versions@.take(1).drop_last() =~= Seq::<String>::empty());
            while i < versions.len()
                invariant
                    1 <= i <= versions@.len(),
                    best < versions@.len(),
                    best_chars@ == versions@[best as int]@,
                    versions@[best as int]@ == max_version(versions@.take(i as int)),
                decreases versions@.len() - i,
            {
                let c = chars_of(versions[i].as_str());
                assert(versions@.take(i + 1).drop_last() =~= versions@.take(i as int));
                if !char_lt(c.as_slice(), best_chars.as_slice()) {
                    best = i;
                    best_chars = c;
                }
                i = i + 1;
            }
            assert(versions@.take(versions@.len() as int) =~= versions@);
            Ok(versions[best].clone())
        },
    }
}

pub open spec fn opt_str(o: Option<String>) -> Option<Seq<char>> {
    match o {
        Some(s) => Some(s@),
        None => None,
    }
}

impl Index {
    /// Locates the command document that the positional arguments name; with
    /// no API version given, the command's greatest version is used.
    pub fn locate_command_file(&self, api_version: Option<String>, pos_args: &Vec<String>) -> (r: Result<String, LocateError>)
        ensures
            match located(*self, views(pos_args@), opt_str(api_version)) {
                Ok(name) => r matches Ok(s) && s@ == name,
                Err(f) => r matches Err(e) && e.model() == f,
            },
    {
        let ghost args = views(pos_args@);
        if pos_args.len() == 0 {
            return Err(LocateError::EmptyInput);
        }
        let mut groups: Option<&Vec<(String, CommandGroup)>> = Some(&self.command_groups);
        let mut commands: Option<&Vec<(String, Command)>> = None;
        let ghost mut gs: Seq<(String, CommandGroup)> = self.command_groups@;
        let ghost mut cs: Seq<(String, Command)> = Seq::empty();
        let mut k: usize = 1;
        while k < pos_args.len()
            invariant
                args == views(pos_args@),
                1 <= k <= pos_args@.len(),
                groups matches Some(g) ==> gs == g@,
                groups is None ==> gs == Seq::<(String, CommandGroup)>::empty(),
                commands matches Some(c) ==> cs == c@,
                commands is None ==> cs == Seq::<(String, Command)>::empty(),
                walk(self.command_groups@, Seq::empty(), args, 1, opt_str(api_version)) == walk(
                    gs,
                    cs,
                    args,
                    k as int,
                    opt_str(api_version),
                ),
            decreases pos_args@.len() - k,
        {
            let arg = pos_args[k].as_str();
            assert(args[k as int] == arg@);
            let gi = match groups {
                Some(g) => find_entry(g, arg),
                None => None,
            };
            match gi {
                Some(j) => {
                    let g = groups.unwrap();
                    let node = &g[j].1;
                    groups = node.command_groups.as_ref();
                    commands = node.commands.as_ref();
                    proof {
                        gs = opt_entries(node.command_groups);
                        cs = opt_entries(node.commands);
                    }
                },
                None => {
                    let ci = match commands {
                        Some(c) => find_entry(c, arg),
                        None => None,
                    };
                    match ci {
                        Some(j) => {
                            let c = commands.unwrap();
                            if k + 1 < pos_args.len() {
                                assert(args[k + 1] == pos_args@[k + 1]@);
                                return Err(LocateError::UnknownArgument(pos_args[k + 1].clone()));
                            }
                            let ver = match pick_version(&c[j].1.versions, &api_version) {
                                Ok(v) => v,
                                Err(e) => {
                                    return Err(e);
                                },
                            };
                            return Ok(document_name(pos_args, &ver));
                        },
                        None => {
                            return Err(LocateError::UnknownArgument(pos_args[k].clone()));
                        },
                    }
                },
            }
            k = k + 1;
        }
        Err(LocateError::NotACommand)
    }
}

/// The arguments and the version joined by `_`, with `.json`.
fn document_name(pos_args: &Vec<String>, ver: &String) -> (r: String)
    requires
        pos_args@.len() > 0,
    ensures
        r@ == join_with(views(pos_args@).push(ver@), '_') + seq!['.', 'j', 's', 'o', 'n'],
{
    let ghost parts = views(pos_args@).push(ver@);
    let mut out: Vec<char> = chars_of(pos_args[0].as_str());
    let mut i: usize = 1;
    assert(parts.take(1).len() == 1);
    while i < pos_args.len()
        invariant
            parts == views(pos_args@).push(ver@),
            1 <= i <= pos_args@.len(),
            out@ == join_with(parts.take(i as int), '_'),
        decreases pos_args@.len() - i,
    {
        let mut next = chars_of(pos_args[i].as_str());
        assert(next@ == parts[i as int]);
        assert(parts.take(i + 1).drop_last() =~= parts.take(i as int));
        out.push('_');
        out.append(&mut next);
        i = i + 1;
    }
    let mut last = chars_of(ver.as_str());
    assert(parts.take(i + 1).drop_last() =~= parts.take(i as int));
    assert(parts.take(i + 1) =~= parts);
    out.push('_');
    out.append(&mut last);
    out.push('.');
    out.push('j');
    out.push('s');
    out.push('o');
    out.push('n');
    assert(out@ =~= join_with(parts, '_') + seq!['.', 'j', 's', 'o', 'n']);
    string_from_chars(out.as_slice())
}

} // verus!
