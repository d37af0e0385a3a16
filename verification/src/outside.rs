//! The crate's trusted edge: the few calls into std and regex-lite that the
//! verified logic relies on. Everything else in the library is verified.

use vstd::prelude::*;

verus! {

/// Relies on std's `String::push`: appends the given character to the end of
/// the string.
#[verifier::external_body]
pub fn push_char(s: &mut String, c: char)
    ensures
        final(s)@ == old(s)@.push(c),
{
    s.push(c);
}

/// Whether a path names an existing filesystem entity. Relies on
/// `std::path::Path::exists`; the answer depends on the machine's disk at the
/// moment of the call, so nothing is promised of it.
#[verifier::external_body]
pub fn path_exists(p: &str) -> bool {
    std::path::Path::new(p).exists()
}

/// Whether a pattern compiles as a regular expression under regex-lite's
/// default size limit. A function of the pattern alone.
pub uninterp spec fn regex_valid(pattern: Seq<char>) -> bool;

/// Whether a regular expression matches anywhere in a text. A function of the
/// pattern and the text alone.
pub uninterp spec fn regex_match(pattern: Seq<char>, text: Seq<char>) -> bool;

/// Relies on `regex_lite::Regex::new`, which errs exactly on patterns that do
/// not compile (invalid syntax, or past the default size limit), and on
/// `regex_lite::Regex::is_match`, which is true exactly when the compiled
/// pattern matches anywhere in the text.
#[verifier::external_body]
pub fn regex_match_text(pattern: &str, text: &str) -> (r: Option<bool>)
    ensures
        r is Some <==> regex_valid(pattern@),
        match r {
            Some(b) => b == regex_match(pattern@, text@),
            None => true,
        },
{
    match regex_lite::Regex::new(pattern) {
        Ok(re) => Some(re.is_match(text)),
        Err(_) => None,
    }
}

} // verus!
