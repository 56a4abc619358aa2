use vstd::prelude::*;

verus! {

#[verifier::external_type_specification]
#[verifier::external_body]
pub struct ExRegex(regex::Regex);

/// The pattern text a compiled expression was built from, as
/// `regex::Regex::as_str` hands it back.
pub uninterp spec fn regex_pattern(re: regex::Regex) -> Seq<char>;

/// Whether `regex::Regex::new` accepts `pattern`.
pub uninterp spec fn regex_valid(pattern: Seq<char>) -> bool;

/// The rendered text of the compile error that `regex::Regex::new` reports
/// for an invalid `pattern`.
pub uninterp spec fn regex_error_text(pattern: Seq<char>) -> Seq<char>;

/// Whether a search over `text` with the expression compiled from `pattern`
/// finds a match anywhere, as `regex::Regex::is_match` decides it.
pub uninterp spec fn regex_found(pattern: Seq<char>, text: Seq<char>) -> bool;

/// Relies on `regex::Regex::new`: compilation succeeds or fails on the
/// pattern text alone, a compiled expression remembers the pattern it was
/// built from (`Regex::as_str`), and the error's message is a function of
/// the pattern (`regex::Error`'s `Display`).
#[verifier::external_body]
pub(crate) fn regex_compile(pattern: &str) -> (r: Result<regex::Regex, String>)
    ensures
        r matches Ok(re) ==> regex_valid(pattern@) && regex_pattern(re) == pattern@,
        r matches Err(e) ==> !regex_valid(pattern@) && e@ == regex_error_text(pattern@),
{
    match regex::Regex::new(pattern) {
        Ok(re) => Ok(re),
        Err(e) => Err(e.to_string()),
    }
}

/// Relies on `regex::Regex::is_match`: whether a match exists anywhere in
/// `text` is a function of the pattern and the text alone.
#[verifier::external_body]
pub(crate) fn regex_is_match(re: &regex::Regex, text: &str) -> (r: bool)
    ensures
        r == regex_found(regex_pattern(*re), text@),
{
    re.is_match(text)
}

} // verus!
