//! URI and path helpers backed by the `url` crate and `std::path`.
use vstd::prelude::*;

verus! {

/// The filesystem path that the `url` crate gives for the URI text `uri`:
/// `None` when the text does not parse as a URL or is not a `file:` URL
/// whose path is a valid local path.
pub uninterp spec fn file_path_of_uri(uri: Seq<char>) -> Option<Seq<char>>;

/// Parses `uri` with `url::Url::parse` and converts it with
/// `url::Url::to_file_path`; the path is returned as text. The contract
/// claims only that the result is a function of `uri`, named
/// `file_path_of_uri`; which texts give a path is left to the `url` crate.
#[verifier::external_body]
pub(crate) fn uri_to_file_path(uri: &str) -> (r: Option<String>)
    ensures
        match r {
            Some(p) => file_path_of_uri(uri@) == Some(p@),
            None => file_path_of_uri(uri@) is None,
        },
{
    match url::Url::parse(uri) {
        Ok(u) => match u.to_file_path() {
            Ok(p) => p.to_str().map(|s| s.to_string()),
            Err(_) => None,
        },
        Err(_) => None,
    }
}

/// The `file:` URI text that `url::Url::from_file_path` gives for `path`,
/// `None` when the path is not absolute.
pub uninterp spec fn file_uri_of_path(path: Seq<char>) -> Option<Seq<char>>;

/// Converts a filesystem path to a `file:` URI with
/// `url::Url::from_file_path`. The contract claims only that the result is
/// a function of `path`, named `file_uri_of_path`.
#[verifier::external_body]
pub(crate) fn path_to_file_uri(path: &str) -> (r: Option<String>)
    ensures
        match r {
            Some(u) => file_uri_of_path(path@) == Some(u@),
            None => file_uri_of_path(path@) is None,
        },
{
    match url::Url::from_file_path(path) {
        Ok(u) => Some(u.to_string()),
        Err(_) => None,
    }
}

/// Whether `std::path::Path::is_absolute` holds of the path `p` on this platform.
pub uninterp spec fn absolute_path(p: Seq<char>) -> bool;

/// `std::path::Path::is_absolute`; the contract claims only that the answer
/// is a function of the path text, named `absolute_path`.
#[verifier::external_body]
pub(crate) fn path_is_absolute(p: &str) -> (r: bool)
    ensures
        r == absolute_path(p@),
{
    std::path::Path::new(p).is_absolute()
}

/// The text of `std::path::Path::parent` of `p`, `None` at a root or for a
/// path that cannot be shown as text.
pub uninterp spec fn parent_path(p: Seq<char>) -> Option<Seq<char>>;

/// `std::path::Path::parent`, documented to give the path without its
/// final component (so a shorter text), and `None` for a path that ends in a
/// root or prefix or is empty; which paths have a parent is left to the
/// named result `parent_path`.
#[verifier::external_body]
pub(crate) fn path_parent(p: &str) -> (r: Option<String>)
    ensures
        match r {
            Some(q) => parent_path(p@) == Some(q@) && q@.len() < p@.len(),
            None => parent_path(p@) is None,
        },
        p@.len() == 0 ==> r is None,
{
    match std::path::Path::new(p).parent() {
        Some(q) => q.to_str().map(|s| s.to_string()),
        None => None,
    }
}

/// The text of `std::path::Path::join(a, b)`.
pub uninterp spec fn joined_path(a: Seq<char>, b: Seq<char>) -> Option<Seq<char>>;

/// `std::path::Path::join`; the contract claims only that the result is a
/// function of both path texts, named `joined_path`.
#[verifier::external_body]
pub(crate) fn path_join(a: &str, b: &str) -> (r: Option<String>)
    ensures
        match r {
            Some(q) => joined_path(a@, b@) == Some(q@),
            None => joined_path(a@, b@) is None,
        },
{
    std::path::Path::new(a).join(b).to_str().map(|s| s.to_string())
}

/// Whether `std::path::Path` compares the two paths equal (component by
/// component, so `/a/` and `/a` are the same path).
pub uninterp spec fn same_path(a: Seq<char>, b: Seq<char>) -> bool;

/// `==` on `std::path::Path`; the contract claims that the answer is a
/// function of both path texts, named `same_path`, and that equal texts
/// are equal paths.
#[verifier::external_body]
pub(crate) fn path_equal(a: &str, b: &str) -> (r: bool)
    ensures
        r == same_path(a@, b@),
        a@ == b@ ==> r,
{
    std::path::Path::new(a) == std::path::Path::new(b)
}

} // verus!
