//! Regular expressions, compiled and applied by the `regex` crate.
use vstd::prelude::*;

verus! {

/// `regex::Regex`, carried through as an opaque value.
#[verifier::external_type_specification]
#[verifier::external_body]
pub struct ExRegex(regex::Regex);

/// Whether `regex::Regex::new` accepts a pattern.
pub uninterp spec fn regex_compiles(pattern: Seq<char>) -> bool;

/// What `regex::Regex::is_match` answers for the regex compiled from
/// `pattern` on a haystack.
pub uninterp spec fn regex_is_match(pattern: Seq<char>, haystack: Seq<char>) -> bool;

/// What `regex::Regex::replace_all` gives for the regex compiled from
/// `pattern`, a haystack and a replacement text.
pub uninterp spec fn regex_replace_all(
    pattern: Seq<char>,
    haystack: Seq<char>,
    replacement: Seq<char>,
) -> Seq<char>;

/// A regex together with the pattern it was compiled from. Values of this
/// type are made only by `compile`, so `source` is always the pattern of `re`.
pub(crate) struct CompiledRegex {
    re: regex::Regex,
    source: Ghost<Seq<char>>,
}

impl CompiledRegex {
    /// The pattern this regex was compiled from.
    pub(crate) closed spec fn source(&self) -> Seq<char> {
        self.source@
    }
}

/// Calls `regex::Regex::new`. The contract claims that it succeeds exactly
/// when the pattern is one that `regex_compiles` names, and records the
/// pattern beside the compiled regex.
#[verifier::external_body]
pub(crate) fn compile(pattern: &str) -> (res: Option<CompiledRegex>)
    ensures
        res is Some <==> regex_compiles(pattern@),
        res matches Some(r) ==> r.source() == pattern@,
{
    match regex::Regex::new(pattern) {
        Ok(re) => Some(CompiledRegex { re, source: Ghost(pattern@) }),
        Err(_) => None,
    }
}

/// Calls `regex::Regex::is_match`; the answer is named `regex_is_match` of
/// the regex's pattern and the haystack.
#[verifier::external_body]
pub(crate) fn is_match(re: &CompiledRegex, haystack: &str) -> (res: bool)
    ensures
        res == regex_is_match(re.source(), haystack@),
{
    re.re.is_match(haystack)
}

/// Calls `regex::Regex::replace_all` with a text replacement; the result is
/// named `regex_replace_all` of the regex's pattern, the haystack and the
/// replacement.
#[verifier::external_body]
pub(crate) fn replace_all(re: &CompiledRegex, haystack: &str, replacement: &str) -> (res: String)
    ensures
        res@ == regex_replace_all(re.source(), haystack@, replacement@),
{
    re.re.replace_all(haystack, replacement).into_owned()
}

} // verus!
