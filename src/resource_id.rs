//! Full resource identifiers and their validation against a path template.

use vstd::prelude::*;

use crate::metadata_command::Method;
use crate::text::{chars_eq, chars_of, split_chars, split_on, string_from_chars, trim_end, trim_end_chars};

verus! {

/// What `str::to_uppercase` makes of a string.
pub uninterp spec fn upper_of(s: Seq<char>) -> Seq<char>;

/// Relies on `str::to_uppercase`: the result depends on the characters alone.
#[verifier::external_body]
fn to_upper(s: &str) -> (r: String)
    ensures
        r@ == upper_of(s@),
{
    s.to_uppercase()
}

/// A resource identifier, kept without trailing slashes.
#[derive(Debug)]
pub struct ResourceId(String);

impl View for ResourceId {
    type V = Seq<char>;

    closed spec fn view(&self) -> Seq<char> {
        self.0@
    }
}

/// Why an identifier does not fit a path template.
#[derive(Debug, Clone)]
pub enum IdError {
    LengthMismatch { expect: usize, got: usize },
    SegmentMismatch { expect: String, got: String },
}

/// The model of an [`IdError`].
pub enum IdFault {
    Length(nat, nat),
    Segment(Seq<char>, Seq<char>),
}

impl IdError {
    pub open spec fn model(&self) -> IdFault {
        match self {
            IdError::LengthMismatch { expect, got } => IdFault::Length(*expect as nat, *got as nat),
            IdError::SegmentMismatch { expect, got } => IdFault::Segment(expect@, got@),
        }
    }
}

pub open spec fn id_result_model(r: Result<(), IdError>) -> Result<(), IdFault> {
    match r {
        Ok(()) => Ok(()),
        Err(e) => Err(e.model()),
    }
}

/// A template segment of the form `{...}` matches any identifier segment;
/// any other must be equal to it.
pub open spec fn segment_matches(got: Seq<char>, expect: Seq<char>) -> bool {
    (expect.len() > 0 && expect[0] == '{') || got == expect
}

/// The template segments an identifier is compared with: for a `POST`
/// action the last one, the action's name, is left out.
pub open spec fn template_segments(template: Seq<char>, is_post: bool) -> Seq<Seq<char>> {
    let segs = split_on(template, '/');
    if is_post {
        segs.drop_last()
    } else {
        segs
    }
}

/// The first index at or after `i` where the segments do not match.
pub open spec fn first_mismatch(got: Seq<Seq<char>>, expect: Seq<Seq<char>>, i: int) -> Option<int>
    decreases got.len() - i,
{
    if i < 0 || i >= got.len() || i >= expect.len() {
        None
    } else if !segment_matches(got[i], expect[i]) {
        Some(i)
    } else {
        first_mismatch(got, expect, i + 1)
    }
}

/// The outcome of comparing identifier segments with template segments.
pub open spec fn compare_segments(got: Seq<Seq<char>>, expect: Seq<Seq<char>>) -> Result<(), IdFault> {
    if got.len() != expect.len() {
        Err(IdFault::Length(expect.len(), got.len()))
    } else {
        match first_mismatch(got, expect, 0) {
            Some(i) => Err(IdFault::Segment(expect[i], got[i])),
            None => Ok(()),
        }
    }
}

/// The outcome of validating an (already upper-cased) identifier against an
/// (already upper-cased) template.
pub open spec fn check_upper(id_upper: Seq<char>, template_upper: Seq<char>, is_post: bool) -> Result<(), IdFault> {
    compare_segments(split_on(id_upper, '/'), template_segments(template_upper, is_post))
}

/// The outcome of validating the identifier `id` (already normalized) against
/// `template`, compared without regard to case.
pub open spec fn check_id(id: Seq<char>, template: Seq<char>, is_post: bool) -> Result<(), IdFault> {
    check_upper(upper_of(id), upper_of(template), is_post)
}

proof fn lemma_first_mismatch_none(got: Seq<Seq<char>>, expect: Seq<Seq<char>>, i: int)
    requires
        0 <= i <= got.len(),
        got.len() == expect.len(),
        first_mismatch(got, expect, i) is None,
    ensures
        forall|j: int| i <= j < got.len() ==> segment_matches(got[j], expect[j]),
    decreases got.len() - i,
{
    if i < got.len() {
        lemma_first_mismatch_none(got, expect, i + 1);
    }
}

/// Compares an upper-cased identifier with an upper-cased template, segment
/// by segment.
pub fn validate_upper_segments(id_upper: &str, template_upper: &str, is_post: bool) -> (r: Result<(), IdError>)
    ensures
        id_result_model(r) == check_upper(id_upper@, template_upper@, is_post),
        r is Ok <==> ({
            let got = split_on(id_upper@, '/');
            let expect = template_segments(template_upper@, is_post);
            got.len() == expect.len() && forall|j: int|
                0 <= j < got.len() ==> segment_matches(#[trigger] got[j], expect[j])
        }),
{
    let id_chars = chars_of(id_upper);
    let template_chars = chars_of(template_upper);
    let got = split_chars(id_chars.as_slice(), '/');
    let mut expect = split_chars(template_chars.as_slice(), '/');
    let ghost g = split_on(id_upper@, '/');
    let ghost e = template_segments(template_upper@, is_post);
    proof {
        crate::text::lemma_split_on_nonempty(template_upper@, '/');
    }
    if is_post {
        expect.pop();
    }
    assert(expect@.len() == e.len());
    if got.len() != expect.len() {
        return Err(IdError::LengthMismatch { expect: expect.len(), got: got.len() });
    }
    let mut i: usize = 0;
    while i < got.len()
        invariant
            g == split_on(id_upper@, '/'),
            e == template_segments(template_upper@, is_post),
            got@.len() == g.len(),
            expect@.len() == e.len(),
            g.len() == e.len(),
            forall|k: int| 0 <= k < g.len() ==> #[trigger] got@[k]@ == g[k],
            forall|k: int| 0 <= k < e.len() ==> #[trigger] expect@[k]@ == e[k],
            i <= g.len(),
            first_mismatch(g, e, 0) == first_mismatch(g, e, i as int),
        decreases g.len() - i,
    {
        let a = &got[i];
        let p = &expect[i];
        let wild = p.len() > 0 && p[0] == '{';
        assert(a@ == g[i as int]);
        assert(p@ == e[i as int]);
        if !wild && !chars_eq(a.as_slice(), p.as_slice()) {
            assert(!segment_matches(g[i as int], e[i as int]));
            assert(first_mismatch(g, e, i as int) == Some(i as int));
            return Err(IdError::SegmentMismatch {
                expect: string_from_chars(p.as_slice()),
                got: string_from_chars(a.as_slice()),
            });
        }
        i = i + 1;
    }
    proof {
        lemma_first_mismatch_none(g, e, 0);
    }
    Ok(())
}

impl ResourceId {
    /// The identifier `id` without its trailing slashes.
    pub fn from(id: &str) -> (r: ResourceId)
        ensures
            r@ == trim_end(id@, '/'),
    {
        let c = chars_of(id);
        let t = trim_end_chars(c.as_slice(), '/');
        ResourceId(string_from_chars(t.as_slice()))
    }

    pub fn id(&self) -> (r: String)
        ensures
            r@ == self@,
    {
        self.0.clone()
    }

    /// Checks the identifier against a path template, segment by segment and
    /// without regard to case; a `{...}` template segment matches anything,
    /// and for `POST` the template's last segment (the action) is left out.
    pub fn validate_pattern(&self, pattern: &str, method: &Method) -> (r: Result<(), IdError>)
        ensures
            id_result_model(r) == check_id(self@, pattern@, *method == Method::Post),
    {
        let id_upper = to_upper(self.0.as_str());
        let template_upper = to_upper(pattern);
        validate_upper_segments(id_upper.as_str(), template_upper.as_str(), *method == Method::Post)
    }
}

/// An identifier given with a trailing slash validates exactly as the same
/// identifier without it; and two identifiers that upper-case alike validate
/// alike.
pub proof fn lemma_id_check_ignores_slash_and_case(id: Seq<char>, other: Seq<char>, template: Seq<char>, is_post: bool)
    ensures
        check_id(trim_end(id.push('/'), '/'), template, is_post) == check_id(
            trim_end(id, '/'),
            template,
            is_post,
        ),
        upper_of(id) == upper_of(other) ==> check_id(id, template, is_post) == check_id(
            other,
            template,
            is_post,
        ),
{
    assert(id.push('/').drop_last() =~= id);
}

} // verus!
