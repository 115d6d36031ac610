//! Quoting values for the command line of a shell.

use vstd::prelude::*;

use crate::text::{chars_of, string_from_chars};

verus! {

#[verifier::external_type_specification]
#[verifier::external_body]
pub struct ExJsonValue(serde_json::Value);

/// Relies on `serde_json::Value`: a string's own characters, and for any
/// other value its compact JSON text (its `Display`).
#[verifier::external_body]
fn value_text(v: &serde_json::Value) -> String {
    match v {
        serde_json::Value::String(s) => s.clone(),
        other => other.to_string(),
    }
}

/// The shells whose quoting rules are known.
#[derive(Debug, Clone, Copy, PartialEq, Eq, Structural)]
pub enum Shell {
    Cmd,
    PowerShell,
    Unix,
}

/// The characters of `t`, each `"` preceded by the shell's escape: `\` for
/// Unix shells, `"` for cmd and PowerShell.
pub open spec fn escape_chars(shell: Shell, t: Seq<char>) -> Seq<char>
    decreases t.len(),
{
    if t.len() == 0 {
        Seq::empty()
    } else {
        let c = t.last();
        escape_chars(shell, t.drop_last()) + if c == '"' {
            seq![if shell == Shell::Unix { '\\' } else { '"' }, c]
        } else {
            seq![c]
        }
    }
}

/// `t` escaped and put between double quotes.
pub open spec fn quoted(shell: Shell, t: Seq<char>) -> Seq<char> {
    seq!['"'] + escape_chars(shell, t) + seq!['"']
}

pub open spec fn ascii_lower(c: char) -> char {
    if 'A' <= c && c <= 'Z' {
        ((c as u32) + 32) as char
    } else {
        c
    }
}

/// `s` equals `lower` once its ASCII letters are lowered.
pub open spec fn eq_ignore_case(s: Seq<char>, lower: Seq<char>) -> bool {
    s.len() == lower.len() && forall|i: int| 0 <= i < s.len() ==> ascii_lower(#[trigger] s[i]) == lower[i]
}

/// The shell that a name selects, without regard to ASCII case.
pub open spec fn shell_named(s: Seq<char>) -> Option<Shell> {
    if eq_ignore_case(s, "cmd"@) {
        Some(Shell::Cmd)
    } else if eq_ignore_case(s, "powershell"@) {
        Some(Shell::PowerShell)
    } else if eq_ignore_case(s, "unix"@) {
        Some(Shell::Unix)
    } else {
        None
    }
}

fn lower_char(c: char) -> (r: char)
    ensures
        r == ascii_lower(c),
{
    if 'A' <= c && c <= 'Z' {
        let b = (c as u8) + 32;
        assert(b as u32 == (c as u32) + 32);
        b as char
    } else {
        c
    }
}

fn eq_ignore_case_exec(s: &[char], lower: &str) -> (r: bool)
    ensures
        r == eq_ignore_case(s@, lower@),
{
    let l = chars_of(lower);
    if s.len() != l.len() {
        return false;
    }
    let mut i: usize = 0;
    while i < s.len()
        invariant
            l@ == lower@,
            s@.len() == l@.len(),
            i <= s@.len(),
            forall|j: int| 0 <= j < i ==> ascii_lower(#[trigger] s@[j]) == l@[j],
        decreases s@.len() - i,
    {
        if lower_char(s[i]) != l[i] {
            return false;
        }
        i = i + 1;
    }
    true
}

/// A shell name that is not known.
#[derive(Debug, Clone)]
pub struct InvalidShell(pub String);

impl Shell {
    /// The names of the known shells.
    pub fn variants() -> (r: Vec<String>)
        ensures
            r@.len() == 3,
            r@[0]@ == "cmd"@,
            r@[1]@ == "powershell"@,
            r@[2]@ == "unix"@,
    {
        let mut r: Vec<String> = Vec::new();
        r.push(String::from_str("cmd"));
        r.push(String::from_str("powershell"));
        r.push(String::from_str("unix"));
        r
    }

    /// The shell a name selects, without regard to ASCII case.
    pub fn parse(s: &str) -> (r: Result<Shell, InvalidShell>)
        ensures
            shell_named(s@) matches Some(sh) ==> r == Ok::<Shell, InvalidShell>(sh),
            shell_named(s@) is None ==> (r matches Err(InvalidShell(t)) && t@ == s@),
    {
        let c = chars_of(s);
        if eq_ignore_case_exec(c.as_slice(), "cmd") {
            Ok(Shell::Cmd)
        } else if eq_ignore_case_exec(c.as_slice(), "powershell") {
            Ok(Shell::PowerShell)
        } else if eq_ignore_case_exec(c.as_slice(), "unix") {
            Ok(Shell::Unix)
        } else {
            Err(InvalidShell(string_from_chars(c.as_slice())))
        }
    }

    /// `text` between double quotes, each `"` in it escaped for the shell.
    pub fn escape_text(&self, text: &str) -> (r: String)
        ensures
            r@ == quoted(*self, text@),
    {
        let t = chars_of(text);
        let mut out: Vec<char> = Vec::new();
        out.push('"');
        let mut i: usize = 0;
        while i < t.len()
            invariant
                t@ == text@,
                i <= t@.len(),
                out@ == seq!['"'] + escape_chars(*self, t@.take(i as int)),
            decreases t@.len() - i,
        {
            assert(t@.take(i + 1).drop_last() =~= t@.take(i as int));
            let c = t[i];
            if c == '"' {
                if *self == Shell::Unix {
                    out.push('\\');
                } else {
                    out.push('"');
                }
            }
            out.push(c);
            i = i + 1;
            assert(out@ =~= seq!['"'] + escape_chars(*self, t@.take(i as int)));
        }
        out.push('"');
        assert(t@.take(t@.len() as int) =~= t@);
        assert(out@ =~= quoted(*self, text@));
        string_from_chars(out.as_slice())
    }

    /// A JSON value quoted for the shell: a string by its characters, any
    /// other value by its compact JSON text.
    pub fn escape(&self, arg: &serde_json::Value) -> (r: String)
        ensures
            exists|t: Seq<char>| r@ == quoted(*self, t),
    {
        let text = value_text(arg);
        self.escape_text(text.as_str())
    }
}

impl std::str::FromStr for Shell {
    type Err = InvalidShell;

    fn from_str(s: &str) -> Result<Shell, InvalidShell> {
        Shell::parse(s)
    }
}

} // verus!
