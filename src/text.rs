//! Text operations the validators rely on: pattern matching from the `regex` crate and
//! a few of std's string functions.
use vstd::prelude::*;

verus! {

/// What compiling `pattern` and matching it against `text` gives: `None` when `pattern`
/// does not compile, else whether it matches somewhere in `text`.
pub uninterp spec fn regex_outcome(pattern: Seq<char>, text: Seq<char>) -> Option<bool>;

/// The upper-case form of `s`.
pub uninterp spec fn upper_of(s: Seq<char>) -> Seq<char>;

/// `needle` occurs in `hay` as a contiguous run.
pub open spec fn occurs_in(hay: Seq<char>, needle: Seq<char>) -> bool {
    exists|i: int|
        0 <= i && i + needle.len() <= hay.len() && #[trigger] hay.subrange(i, i + needle.len())
            == needle
}

/// Relies on regex::Regex::new, which compiles `pattern` or reports it invalid, and on
/// Regex::is_match, which says whether the compiled pattern matches anywhere in `text`.
#[verifier::external_body]
pub(crate) fn regex_match(pattern: &str, text: &str) -> (r: Option<bool>)
    ensures
        r == regex_outcome(pattern@, text@),
{
    match regex::Regex::new(pattern) {
        Ok(re) => Some(re.is_match(text)),
        Err(_) => None,
    }
}

/// Relies on str::to_uppercase: the result depends on the characters alone, and the
/// empty string stays empty.
#[verifier::external_body]
pub(crate) fn uppercase(s: &str) -> (r: String)
    ensures
        r@ == upper_of(s@),
        s@.len() == 0 ==> r@.len() == 0,
{
    s.to_uppercase()
}

/// Relies on str::contains with a string pattern: true exactly when `needle` is a
/// substring of `hay`.
#[verifier::external_body]
pub(crate) fn str_contains(hay: &str, needle: &str) -> (r: bool)
    ensures
        r == occurs_in(hay@, needle@),
{
    hay.contains(needle)
}

/// Relies on std's formatting of `&str` through `format!`, which writes each argument
/// verbatim.
#[verifier::external_body]
pub(crate) fn concat(a: &str, b: &str) -> (r: String)
    ensures
        r@ == a@ + b@,
{
    format!("{}{}", a, b)
}

} // verus!
