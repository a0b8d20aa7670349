use vstd::prelude::*;

verus! {

/// `pattern` stands somewhere in `text`.
pub open spec fn occurs_in(pattern: Seq<char>, text: Seq<char>) -> bool {
    exists|start: int|
        0 <= start && start + pattern.len() <= text.len() && #[trigger] text.subrange(
            start,
            start + pattern.len(),
        ) == pattern
}

/// Calls `str::starts_with`, which tells whether the pattern is a prefix of
/// the text.
#[verifier::external_body]
pub(crate) fn str_starts_with(text: &str, pattern: &str) -> (r: bool)
    ensures
        r == pattern@.is_prefix_of(text@),
{
    text.starts_with(pattern)
}

/// Calls `str::ends_with`, which tells whether the pattern is a suffix of
/// the text.
#[verifier::external_body]
pub(crate) fn str_ends_with(text: &str, pattern: &str) -> (r: bool)
    ensures
        r == pattern@.is_suffix_of(text@),
{
    text.ends_with(pattern)
}

/// Calls `str::contains`, which tells whether the pattern stands somewhere
/// in the text.
#[verifier::external_body]
pub(crate) fn str_contains(text: &str, pattern: &str) -> (r: bool)
    ensures
        r == occurs_in(pattern@, text@),
{
    text.contains(pattern)
}

} // verus!
