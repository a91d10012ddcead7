//! The two calls into the `regex` crate that answer a yes/no question or
//! rewrite a text, for a pattern given by the caller.
use vstd::prelude::*;

verus! {

/// What `regex::Regex::new(pattern)` then `is_match(text)` answers; `None`
/// when the pattern does not compile.
pub uninterp spec fn regex_match_found(pattern: Seq<char>, text: Seq<char>) -> Option<bool>;

/// What `regex::Regex::new(pattern)` then `replace_all(text, replacement)`
/// gives; `None` when the pattern does not compile.
pub uninterp spec fn regex_replaced(pattern: Seq<char>, replacement: Seq<char>, text: Seq<char>) -> Option<Seq<char>>;

/// `Regex::is_match` of `pattern` on `text`. The contract claims only that
/// the answer is a function of the pattern and the text.
#[verifier::external_body]
pub(crate) fn regex_is_match(pattern: &str, text: &str) -> (r: Option<bool>)
    ensures
        r == regex_match_found(pattern@, text@),
{
    match regex::Regex::new(pattern) {
        Ok(re) => Some(re.is_match(text)),
        Err(_) => None,
    }
}

/// `Regex::replace_all` of `pattern` by `replacement` in `text`. The
/// contract claims only that the result is a function of the three texts.
#[verifier::external_body]
pub(crate) fn regex_replace_all(pattern: &str, replacement: &str, text: &str) -> (r: Option<String>)
    ensures
        match r {
            Some(s) => regex_replaced(pattern@, replacement@, text@) == Some(s@),
            None => regex_replaced(pattern@, replacement@, text@) is None,
        },
{
    match regex::Regex::new(pattern) {
        Ok(re) => Some(re.replace_all(text, replacement).to_string()),
        Err(_) => None,
    }
}

} // verus!
