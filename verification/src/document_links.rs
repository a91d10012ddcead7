//! File targets of document links.
use vstd::prelude::*;
use crate::text::{str_chars, owned, str_starts_with, string_from_chars};
use crate::json::{JsonValue, JsonMember, member, str_value, spec_get, spec_as_str, is_str};
use crate::lifecycle::{LspServer, JsonRpcError, INVALID_PARAMS};
use crate::uri::{uri_to_file_path, file_path_of_uri, path_to_file_uri, file_uri_of_path, path_is_absolute, absolute_path, path_parent, parent_path, path_join, joined_path};

verus! {

/// A path that starts with a drive letter, a colon and a slash (`C:/`).
pub open spec fn windows_drive_path(p: Seq<char>) -> bool {
    &&& p.len() >= 3
    &&& (('a' <= p[0] && p[0] <= 'z') || ('A' <= p[0] && p[0] <= 'Z'))
    &&& p[1] == ':'
    &&& p[2] == '/'
}

pub fn is_windows_drive_path(path: &str) -> (r: bool)
    ensures
        r == windows_drive_path(path@),
{
    let c = str_chars(path);
    c.len() >= 3 && (('a' <= c[0] && c[0] <= 'z') || ('A' <= c[0] && c[0] <= 'Z')) && c[1] == ':' && c[2] == '/'
}

/// A path separator: `\` or `/`.
pub open spec fn separator(c: char) -> bool {
    c == '\\' || c == '/'
}

/// `s` with every run of separators replaced by one `/` (a run continuing
/// from before `s` when `saw` is set adds nothing).
pub open spec fn collapse_separators(s: Seq<char>, saw: bool) -> Seq<char>
    decreases s.len(),
{
    if s.len() == 0 {
        Seq::empty()
    } else if separator(s[0]) {
        (if saw { Seq::empty() } else { seq!['/'] }) + collapse_separators(s.drop_first(), true)
    } else {
        seq![s[0]] + collapse_separators(s.drop_first(), false)
    }
}

/// `s` without its leading separators.
pub open spec fn skip_separators(s: Seq<char>) -> Seq<char>
    decreases s.len(),
{
    if s.len() > 0 && separator(s[0]) {
        skip_separators(s.drop_first())
    } else {
        s
    }
}

/// The normalized form of a linked file path: unchanged without
/// separators; otherwise runs of `\` and `/` become one `/`, and a UNC
/// prefix (`\\` or `//`) becomes `//`.
pub open spec fn normalized_link_path(p: Seq<char>) -> Seq<char> {
    if !(exists|i: int| 0 <= i < p.len() && separator(#[trigger] p[i])) {
        p
    } else if "\\\\"@.is_prefix_of(p) || "//"@.is_prefix_of(p) {
        "//"@ + collapse_separators(skip_separators(p), false)
    } else {
        collapse_separators(p, false)
    }
}

pub fn normalize_document_link_file_path(file_path: &str) -> (r: String)
    ensures
        r@ == normalized_link_path(file_path@),
{
    let chars = str_chars(file_path);
    let ghost s = chars@;
    let mut has_sep = false;
    let mut i: usize = 0;
    while i < chars.len()
        invariant
            s == chars@,
            i <= chars.len(),
            has_sep == exists|j: int| 0 <= j < i && separator(#[trigger] s[j]),
        decreases chars.len() - i,
    {
        if chars[i] == '\\' || chars[i] == '/' {
            has_sep = true;
        }
        i = i + 1;
    }
    if !has_sep {
        return owned(file_path);
    }
    let unc = str_starts_with(file_path, "\\\\") || str_starts_with(file_path, "//");
    let mut out: Vec<char> = Vec::new();
    let mut k: usize = 0;
    if unc {
        out.push('/');
        out.push('/');
        proof {
            reveal_strlit("//");
            assert(s.skip(0) =~= s);
        }
        while k < chars.len() && (chars[k] == '\\' || chars[k] == '/')
            invariant
                s == chars@,
                k <= chars.len(),
                skip_separators(s) == skip_separators(s.skip(k as int)),
            decreases chars.len() - k,
        {
            assert(s.skip(k as int).drop_first() =~= s.skip(k + 1));
            k = k + 1;
        }
        assert(skip_separators(s.skip(k as int)) == s.skip(k as int));
    }
    let ghost head = out@;
    let ghost rest = s.skip(k as int);
    let mut saw = false;
    assert(s.skip(k as int) =~= rest);
    while k < chars.len()
        invariant
            s == chars@,
            k <= chars.len(),
            collapse_separators(rest, false) == out@.subrange(head.len() as int, out@.len() as int) + collapse_separators(s.skip(k as int), saw),
            head.is_prefix_of(out@),
        decreases chars.len() - k,
    {
        let c = chars[k];
        let ghost before = out@;
        assert(s.skip(k as int)[0] == c);
        assert(s.skip(k as int).drop_first() =~= s.skip(k + 1));
        let sep = c == '\\' || c == '/';
        if sep {
            if !saw {
                out.push('/');
            }
        } else {
            out.push(c);
        }
        assert(out@.subrange(head.len() as int, out@.len() as int) =~= before.subrange(head.len() as int, before.len() as int) + (if sep {
            if saw { Seq::<char>::empty() } else { seq!['/'] }
        } else {
            seq![c]
        }));
        saw = sep;
        k = k + 1;
    }
    assert(s.skip(k as int) =~= Seq::<char>::empty());
    assert(out@ =~= head + out@.subrange(head.len() as int, out@.len() as int));
    proof {
        reveal_strlit("//");
        if unc {
            assert(head =~= "//"@);
        } else {
            assert(head =~= Seq::<char>::empty());
            assert(rest =~= s);
        }
    }
    string_from_chars(out.as_slice())
}

/// The text of the URL that the `url` crate parses from `text`, or `None`
/// when it does not parse.
pub uninterp spec fn parsed_url_text(text: Seq<char>) -> Option<Seq<char>>;

/// Parses `text` with `url::Url::parse` and gives back the URL as text
/// (`Url::to_string`); the contract claims only that the result is a
/// function of `text`, named `parsed_url_text`.
#[verifier::external_body]
fn parse_url(text: &str) -> (r: Option<String>)
    ensures
        match r {
            Some(u) => parsed_url_text(text@) == Some(u@),
            None => parsed_url_text(text@) is None,
        },
{
    match url::Url::parse(text) {
        Ok(u) => Some(u.to_string()),
        Err(_) => None,
    }
}

/// The text of `rel` resolved against the URL `base` by `url::Url::join`,
/// or `None` when `base` does not parse or the join fails.
pub uninterp spec fn joined_url_text(base: Seq<char>, rel: Seq<char>) -> Option<Seq<char>>;

/// Resolves `rel` against the URL parsed from `base` with `url::Url::join`;
/// the contract claims only that the result is a function of both texts,
/// named `joined_url_text`.
#[verifier::external_body]
fn join_url(base: &str, rel: &str) -> (r: Option<String>)
    ensures
        match r {
            Some(u) => joined_url_text(base@, rel@) == Some(u@),
            None => joined_url_text(base@, rel@) is None,
        },
{
    match url::Url::parse(base) {
        Ok(b) => match b.join(rel) {
            Ok(u) => Some(u.to_string()),
            Err(_) => None,
        },
        Err(_) => None,
    }
}

/// The target URI of a linked file `file_path` found in the document
/// `base_uri`: a UNC path as a `file:` URL; a drive path under `file:///`;
/// an absolute path as its file URL; otherwise `file_path` resolved against
/// the document's URL, or against the directory of the document's file.
pub open spec fn link_target(base_uri: Seq<char>, file_path: Seq<char>) -> Option<Seq<char>> {
    if "//"@.is_prefix_of(file_path) {
        parsed_url_text("file:"@ + file_path)
    } else if windows_drive_path(file_path) {
        parsed_url_text("file:///"@ + file_path)
    } else if absolute_path(file_path) && file_uri_of_path(file_path) is Some {
        file_uri_of_path(file_path)
    } else if parsed_url_text(base_uri) is None {
        None
    } else if joined_url_text(base_uri, file_path) is Some {
        joined_url_text(base_uri, file_path)
    } else {
        match file_path_of_uri(base_uri) {
            Some(base_path) => match parent_path(base_path) {
                Some(parent) => match joined_path(parent, file_path) {
                    Some(resolved) => file_uri_of_path(resolved),
                    None => None,
                },
                None => None,
            },
            None => None,
        }
    }
}

pub fn resolve_file_link_target(base_uri: &str, file_path: &str) -> (r: Option<String>)
    ensures
        match r {
            Some(t) => link_target(base_uri@, file_path@) == Some(t@),
            None => link_target(base_uri@, file_path@) is None,
        },
{
    if str_starts_with(file_path, "//") {
        let mut text = owned("file:");
        text.append(file_path);
        return parse_url(text.as_str());
    }
    if is_windows_drive_path(file_path) {
        let mut text = owned("file:///");
        text.append(file_path);
        return parse_url(text.as_str());
    }
    if path_is_absolute(file_path) {
        if let Some(target) = path_to_file_uri(file_path) {
            return Some(target);
        }
    }
    if parse_url(base_uri).is_none() {
        return None;
    }
    if let Some(target) = join_url(base_uri, file_path) {
        return Some(target);
    }
    if let Some(base_path) = uri_to_file_path(base_uri) {
        if let Some(parent) = path_parent(base_path.as_str()) {
            if let Some(resolved) = path_join(parent.as_str(), file_path) {
                return path_to_file_uri(resolved.as_str());
            }
        }
    }
    None
}

} // verus!

verus! {

/// What resolving a document link does.
pub enum LinkOutcome {
    /// The link is returned as it is.
    Unchanged,
    /// The link is returned with this `target`.
    Target(Seq<char>),
    /// The request fails with `Invalid params` and this message; for an
    /// unknown link type the error data holds the type.
    Fails(Seq<char>),
}

/// The URL of a module's page on MetaCPAN.
pub open spec fn metacpan_url(module: Seq<char>) -> Seq<char> {
    "https://metacpan.org/pod/"@ + module
}

/// The text member `key` of `v`.
pub open spec fn text_member(v: JsonValue, key: Seq<char>) -> Option<Seq<char>> {
    spec_as_str(spec_get(v, key))
}

/// The outcome of resolving `link`: a link with a target stays as it is;
/// otherwise its `data` says how the target is found. A module resolves to
/// the file `module_target` found for it or to its MetaCPAN page; a file to
/// its path resolved against `baseUri`; a URL to itself.
pub open spec fn link_outcome(link: JsonValue, module_target: Option<Seq<char>>) -> LinkOutcome {
    if text_member(link, "target"@) is Some {
        LinkOutcome::Unchanged
    } else {
        match spec_get(link, "data"@) {
            None => LinkOutcome::Unchanged,
            Some(data) => {
                let kind = text_member(data, "type"@);
                if kind == Some("module"@) {
                    match text_member(data, "module"@) {
                        None => LinkOutcome::Fails("Missing module name in data"@),
                        Some(m) => LinkOutcome::Target(
                            match module_target {
                                Some(t) => t,
                                None => metacpan_url(m),
                            },
                        ),
                    }
                } else if kind == Some("file"@) {
                    match text_member(data, "path"@) {
                        None => LinkOutcome::Fails("Missing file path in data"@),
                        Some(path) => match text_member(data, "baseUri"@) {
                            None => LinkOutcome::Fails("Missing base URI in data"@),
                            Some(base) => match link_target(base, normalized_link_path(path)) {
                                Some(t) => LinkOutcome::Target(t),
                                None => LinkOutcome::Unchanged,
                            },
                        },
                    }
                } else if kind == Some("url"@) {
                    match text_member(data, "url"@) {
                        Some(u) => LinkOutcome::Target(u),
                        None => LinkOutcome::Unchanged,
                    }
                } else {
                    LinkOutcome::Fails("Unknown link type in data field"@)
                }
            },
        }
    }
}

/// `r` is `link` with its `target` member set to `target`.
pub open spec fn with_target(r: JsonValue, link: JsonValue, target: Seq<char>) -> bool {
    &&& r is Obj
    &&& spec_get(r, "target"@) matches Some(t) && is_str(t, target)
    &&& forall|k: Seq<char>| k != "target"@ ==> #[trigger] spec_get(r, k) == spec_get(link, k)
}

fn text_of<'a>(v: &'a JsonValue, key: &str) -> (r: Option<&'a str>)
    ensures
        match r {
            Some(t) => text_member(*v, key@) == Some(t@),
            None => text_member(*v, key@) is None,
        },
{
    match v.get(key) {
        Some(x) => x.as_str(),
        None => None,
    }
}

fn invalid_params(message: &str, data: Option<JsonValue>) -> (e: JsonRpcError)
    ensures
        e.code == INVALID_PARAMS,
        e.message@ == message@,
        e.data == data,
{
    JsonRpcError { code: INVALID_PARAMS, message: owned(message), data }
}

impl LspServer {
    /// The module whose file resolving `params` would look for: the
    /// `data.module` of a module link without a target.
    pub fn document_link_module(params: &Option<JsonValue>) -> (r: Option<String>)
        ensures
            match params {
                Some(link) => match (text_member(*link, "target"@), spec_get(*link, "data"@)) {
                    (None, Some(data)) => if text_member(data, "type"@) == Some("module"@) {
                        match text_member(data, "module"@) {
                            Some(m) => r matches Some(x) && x@ == m,
                            None => r is None,
                        }
                    } else {
                        r is None
                    },
                    _ => r is None,
                },
                None => r is None,
            },
    {
        let link = match params {
            Some(l) => l,
            None => return None,
        };
        if text_of(link, "target").is_some() {
            return None;
        }
        let data = match link.get("data") {
            Some(d) => d,
            None => return None,
        };
        match text_of(data, "type") {
            Some(t) => {
                if !crate::text::str_eq(t, "module") {
                    return None;
                }
            },
            None => return None,
        }
        match text_of(data, "module") {
            Some(m) => Some(owned(m)),
            None => None,
        }
    }

    /// `documentLink/resolve`: fills in the `target` of a link from its
    /// `data`. `module_target` is the file found for the link's module
    /// (see `document_link_module`), if any.
    pub fn handle_document_link_resolve(&self, params: Option<JsonValue>, module_target: Option<String>) -> (r: Result<Option<JsonValue>, JsonRpcError>)
        ensures
            match params {
                None => r matches Err(e) && e.code == INVALID_PARAMS && e.message@ == "Missing parameters for documentLink/resolve"@ && e.data is None,
                Some(link) => match link_outcome(link, match module_target {
                    Some(t) => Some(t@),
                    None => None,
                }) {
                    LinkOutcome::Unchanged => r == Ok::<Option<JsonValue>, JsonRpcError>(Some(link)),
                    LinkOutcome::Target(t) => r matches Ok(Some(v)) && with_target(v, link, t),
                    LinkOutcome::Fails(m) => r matches Err(e) && e.code == INVALID_PARAMS && e.message@ == m,
                },
            },
    {
        let link = match params {
            Some(l) => l,
            None => return Err(invalid_params("Missing parameters for documentLink/resolve", None)),
        };
        if text_of(&link, "target").is_some() {
            return Ok(Some(link));
        }
        let target: String = {
            let data = match link.get("data") {
                Some(d) => d,
                None => return Ok(Some(link)),
            };
            let kind = text_of(data, "type");
            proof {
                reveal_strlit("module");
                reveal_strlit("file");
                reveal_strlit("url");
            }
            let is_module = match kind {
                Some(k) => crate::text::str_eq(k, "module"),
                None => false,
            };
            let is_file = match kind {
                Some(k) => crate::text::str_eq(k, "file"),
                None => false,
            };
            let is_url = match kind {
                Some(k) => crate::text::str_eq(k, "url"),
                None => false,
            };
            if is_module {
                let module = match text_of(data, "module") {
                    Some(m) => m,
                    None => return Err(invalid_params("Missing module name in data", None)),
                };
                match module_target {
                    Some(t) => t,
                    None => {
                        let mut url = owned("https://metacpan.org/pod/");
                        url.append(module);
                        url
                    },
                }
            } else if is_file {
                let path = match text_of(data, "path") {
                    Some(p) => p,
                    None => return Err(invalid_params("Missing file path in data", None)),
                };
                let normalized = normalize_document_link_file_path(path);
                let base = match text_of(data, "baseUri") {
                    Some(b) => b,
                    None => return Err(invalid_params("Missing base URI in data", None)),
                };
                match resolve_file_link_target(base, normalized.as_str()) {
                    Some(t) => t,
                    None => return Ok(Some(link)),
                }
            } else if is_url {
                match text_of(data, "url") {
                    Some(u) => owned(u),
                    None => return Ok(Some(link)),
                }
            } else {
                let type_value = match kind {
                    Some(k) => str_value(k),
                    None => JsonValue::Null,
                };
                let mut ms: Vec<JsonMember> = Vec::new();
                ms.push(member("linkType", type_value));
                return Err(invalid_params("Unknown link type in data field", Some(JsonValue::Obj(ms))));
            }
        };
        Ok(Some(link.with_member("target", JsonValue::Str(target))))
    }
}

} // verus!

verus! {

/// A link that resolving gave a target is final: resolving it again leaves
/// it as it is, whatever module file is offered.
pub proof fn lemma_resolved_link_is_final(link: JsonValue, resolved: JsonValue, target: Seq<char>, module_target: Option<Seq<char>>)
    requires
        with_target(resolved, link, target),
    ensures
        link_outcome(resolved, module_target) == LinkOutcome::Unchanged,
{
}

} // verus!

verus! {

/// No `\` in `s`.
pub open spec fn no_backslash(s: Seq<char>) -> bool {
    forall|i: int| 0 <= i < s.len() ==> #[trigger] s[i] != '\\'
}

/// No two `/` in a row in `s`, from position `from` on.
pub open spec fn no_double_slash_from(s: Seq<char>, from: int) -> bool {
    forall|i: int| from <= i && i + 1 < s.len() ==> !(#[trigger] s[i] == '/' && s[i + 1] == '/')
}

proof fn lemma_collapse_shape(s: Seq<char>, saw: bool)
    ensures
        no_backslash(collapse_separators(s, saw)),
        no_double_slash_from(collapse_separators(s, saw), 0),
        saw && collapse_separators(s, saw).len() > 0 ==> collapse_separators(s, saw)[0] != '/',
        s.len() > 0 && !separator(s[0]) ==> collapse_separators(s, saw).len() > 0 && collapse_separators(s, saw)[0] == s[0],
        s.len() == 0 ==> collapse_separators(s, saw).len() == 0,
    decreases s.len(),
{
    if s.len() > 0 {
        let rest = s.drop_first();
        if separator(s[0]) {
            lemma_collapse_shape(rest, true);
            let x = collapse_separators(rest, true);
            let head: Seq<char> = if saw { Seq::empty() } else { seq!['/'] };
            let r = head + x;
            assert(r == collapse_separators(s, saw));
            assert forall|i: int| 0 <= i < r.len() implies #[trigger] r[i] != '\\' by {
                if i >= head.len() {
                    assert(r[i] == x[i - head.len()]);
                }
            }
            assert forall|i: int| 0 <= i && i + 1 < r.len() implies !(#[trigger] r[i] == '/' && r[i + 1] == '/') by {
                if i >= head.len() {
                    assert(r[i] == x[i - head.len()]);
                    assert(r[i + 1] == x[i + 1 - head.len()]);
                } else {
                    assert(r[i + 1] == x[0]);
                }
            }
        } else {
            lemma_collapse_shape(rest, false);
            let x = collapse_separators(rest, false);
            let r = seq![s[0]] + x;
            assert(r == collapse_separators(s, saw));
            assert forall|i: int| 0 <= i < r.len() implies #[trigger] r[i] != '\\' by {
                if i >= 1 {
                    assert(r[i] == x[i - 1]);
                }
            }
            assert forall|i: int| 0 <= i && i + 1 < r.len() implies !(#[trigger] r[i] == '/' && r[i + 1] == '/') by {
                if i >= 1 {
                    assert(r[i] == x[i - 1]);
                    assert(r[i + 1] == x[i]);
                }
            }
        }
    }
}

proof fn lemma_collapse_fixed(s: Seq<char>, saw: bool)
    requires
        no_backslash(s),
        no_double_slash_from(s, 0),
        saw && s.len() > 0 ==> s[0] != '/',
    ensures
        collapse_separators(s, saw) == s,
    decreases s.len(),
{
    if s.len() > 0 {
        let rest = s.drop_first();
        assert forall|i: int| 0 <= i < rest.len() implies #[trigger] rest[i] != '\\' by {
            assert(rest[i] == s[i + 1]);
        }
        assert forall|i: int| 0 <= i && i + 1 < rest.len() implies !(#[trigger] rest[i] == '/' && rest[i + 1] == '/') by {
            assert(rest[i] == s[i + 1]);
            assert(rest[i + 1] == s[i + 2]);
        }
        assert(s[0] != '\\');
        if s[0] == '/' {
            if rest.len() > 0 {
                assert(rest[0] == s[1]);
                assert(!(s[0] == '/' && s[1] == '/'));
            }
            lemma_collapse_fixed(rest, true);
            assert(collapse_separators(s, saw) =~= seq!['/'] + rest);
        } else {
            lemma_collapse_fixed(rest, false);
            assert(collapse_separators(s, saw) =~= seq![s[0]] + rest);
        }
        assert(s =~= seq![s[0]] + rest);
    }
}

proof fn lemma_skip_separators_start(s: Seq<char>)
    ensures
        skip_separators(s).len() > 0 ==> !separator(skip_separators(s)[0]),
    decreases s.len(),
{
    if s.len() > 0 && separator(s[0]) {
        lemma_skip_separators_start(s.drop_first());
    }
}

/// Normalizing a linked file path twice gives what normalizing once
/// gives; the result holds no `\`, and `//` occurs in it only as its first
/// two characters, and only for a UNC path (one starting with `\\` or `//`).
pub proof fn lemma_link_path_normalization_is_idempotent(p: Seq<char>)
    ensures
        normalized_link_path(normalized_link_path(p)) == normalized_link_path(p),
        no_backslash(normalized_link_path(p)),
        no_double_slash_from(normalized_link_path(p), 1),
        ({
            let q = normalized_link_path(p);
            q.len() >= 2 && q[0] == '/' && q[1] == '/' ==> "\\\\"@.is_prefix_of(p) || "//"@.is_prefix_of(p)
        }),
{
    reveal_strlit("//");
    reveal_strlit("\\\\");
    let q = normalized_link_path(p);
    if !(exists|i: int| 0 <= i < p.len() && separator(#[trigger] p[i])) {
        assert forall|i: int| 0 <= i < q.len() implies #[trigger] q[i] != '\\' by {
            assert(!separator(p[i]));
        }
        assert forall|i: int| 1 <= i && i + 1 < q.len() implies !(#[trigger] q[i] == '/' && q[i + 1] == '/') by {
            assert(!separator(p[i]));
        }
        if q.len() >= 2 && q[0] == '/' {
            assert(separator(p[0]));
        }
    } else if "\\\\"@.is_prefix_of(p) || "//"@.is_prefix_of(p) {
        let sk = skip_separators(p);
        let x = collapse_separators(sk, false);
        lemma_collapse_shape(sk, false);
        lemma_skip_separators_start(p);
        assert(q == "//"@ + x);
        assert forall|i: int| 0 <= i < q.len() implies #[trigger] q[i] != '\\' by {
            if i >= 2 {
                assert(q[i] == x[i - 2]);
            }
        }
        assert forall|i: int| 1 <= i && i + 1 < q.len() implies !(#[trigger] q[i] == '/' && q[i + 1] == '/') by {
            if i >= 2 {
                assert(q[i] == x[i - 2]);
                assert(q[i + 1] == x[i - 1]);
            } else {
                assert(x.len() > 0);
                assert(sk.len() > 0);
                assert(!separator(sk[0]));
                assert(q[2] == x[0]);
            }
        }
        // Normalizing q: it has a separator and starts with `//`.
        assert(separator(q[0]));
        assert("//"@.is_prefix_of(q));
        assert(q.drop_first().drop_first() =~= x);
        assert(skip_separators(q) == skip_separators(q.drop_first()));
        assert(skip_separators(q.drop_first()) == skip_separators(x));
        if x.len() > 0 {
            assert(!separator(x[0]));
        }
        assert(skip_separators(x) == x);
        lemma_collapse_fixed(x, false);
    } else {
        lemma_collapse_shape(p, false);
        assert(q == collapse_separators(p, false));
        if q.len() >= 2 && q[0] == '/' && q[1] == '/' {
            assert(false);
        }
        if exists|i: int| 0 <= i < q.len() && separator(#[trigger] q[i]) {
            assert(!"//"@.is_prefix_of(q)) by {
                if q.len() >= 2 && "//"@.is_prefix_of(q) {
                    assert(q[0] == "//"@[0] && q[1] == "//"@[1]);
                }
            }
            assert(!"\\\\"@.is_prefix_of(q)) by {
                if q.len() >= 2 && "\\\\"@.is_prefix_of(q) {
                    assert(q[0] == "\\\\"@[0]);
                }
            }
            lemma_collapse_fixed(q, false);
        }
    }
}

} // verus!
