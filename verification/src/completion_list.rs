//! Completion lists: the lexical candidates offered when a document has no
//! syntax tree (common methods after `->`, special variables after a
//! sigil, keywords otherwise), and the JSON list sent to the client.
use vstd::prelude::*;
use crate::json::{JsonValue, JsonMember, member, str_value, spec_get, spec_as_str, is_str, has_keys, members_of};
use crate::completion::{CompletionItemKind, commit_chars, commit_chars_for_kind, snippet_placeholders_expanded, snippet_tabstops_removed};
use crate::lifecycle::LspServer;
use crate::text::{str_chars, owned, ident_char, is_ident_char, str_starts_with};

verus! {

/// A completion candidate: what the client shows, its kind, a detail
/// line, markdown documentation, the text inserted and a sort key.
pub struct CompletionCandidate {
    pub label: String,
    pub kind: CompletionItemKind,
    pub detail: Option<String>,
    pub documentation: Option<String>,
    pub insert_text: Option<String>,
    pub sort_text: Option<String>,
}

pub open spec fn opt_str(s: Option<String>) -> Option<Seq<char>> {
    match s {
        Some(x) => Some(x@),
        None => None,
    }
}

/// A lexical candidate as label, kind and detail.
pub open spec fn lexical_view(c: CompletionCandidate) -> (Seq<char>, CompletionItemKind, Option<Seq<char>>) {
    (c.label@, c.kind, opt_str(c.detail))
}

/// A lexical candidate inserts its label and has no documentation or sort key.
pub open spec fn is_plain(c: CompletionCandidate) -> bool {
    &&& opt_str(c.insert_text) == Some(c.label@)
    &&& c.documentation is None
    &&& c.sort_text is None
}

/// Byte `o` of `s` is the start of a character, or at or past the end.
pub open spec fn at_char_boundary(s: Seq<char>, o: int) -> bool {
    o >= crate::document::byte_len(s) || exists|k: int| 0 <= k <= s.len() && crate::document::byte_len(#[trigger] s.take(k)) == o
}

/// Where the word before the end of `s` starts: the end of the last
/// character that is not a letter, digit or `_`.
pub open spec fn word_start(s: Seq<char>) -> int
    decreases s.len(),
{
    if s.len() == 0 {
        0
    } else if is_ident_char(s.last()) {
        word_start(s.drop_last())
    } else {
        s.len() as int
    }
}

/// The methods offered after `->`, with the role shown for each.
pub open spec fn method_entry(i: int) -> (Seq<char>, Seq<char>) {
    if i == 0 { ("new"@, "constructor"@) }
    else if i == 1 { ("init"@, "initializer"@) }
    else if i == 2 { ("process"@, "processor"@) }
    else if i == 3 { ("run"@, "executor"@) }
    else if i == 4 { ("execute"@, "executor"@) }
    else if i == 5 { ("handle"@, "handler"@) }
    else if i == 6 { ("get"@, "getter"@) }
    else if i == 7 { ("set"@, "setter"@) }
    else if i == 8 { ("create"@, "constructor"@) }
    else if i == 9 { ("build"@, "builder"@) }
    else if i == 10 { ("parse"@, "parser"@) }
    else if i == 11 { ("format"@, "formatter"@) }
    else if i == 12 { ("validate"@, "validator"@) }
    else if i == 13 { ("transform"@, "transformer"@) }
    else { ("render"@, "renderer"@) }
}

/// The first `n` methods that start with `prefix`, in table order.
pub open spec fn method_candidates(prefix: Seq<char>, n: nat) -> Seq<(Seq<char>, CompletionItemKind, Option<Seq<char>>)>
    decreases n,
{
    if n == 0 {
        Seq::empty()
    } else {
        let r = method_candidates(prefix, (n - 1) as nat);
        let (m, role) = method_entry(n - 1);
        if prefix.is_prefix_of(m) {
            r.push((m, CompletionItemKind::Function, Some("method ("@ + role + ")"@)))
        } else {
            r
        }
    }
}

/// The keywords that start with `prefix`, in order.
pub open spec fn keyword_candidates(keywords: Seq<Seq<char>>, prefix: Seq<char>) -> Seq<(Seq<char>, CompletionItemKind, Option<Seq<char>>)>
    decreases keywords.len(),
{
    if keywords.len() == 0 {
        Seq::empty()
    } else {
        let r = keyword_candidates(keywords.drop_last(), prefix);
        if prefix.is_prefix_of(keywords.last()) {
            r.push((keywords.last(), CompletionItemKind::Keyword, None))
        } else {
            r
        }
    }
}

/// A special variable offered when `prefix` starts its name.
pub open spec fn variable_if(prefix: Seq<char>, name: Seq<char>, detail: Seq<char>) -> Seq<(Seq<char>, CompletionItemKind, Option<Seq<char>>)> {
    if prefix.is_prefix_of(name) {
        seq![(name, CompletionItemKind::Variable, Some(detail))]
    } else {
        Seq::empty()
    }
}

/// The lexical candidates at byte `offset` of `content` (the text before
/// it: the characters wholly before that byte, all of them past the end):
/// after `->`
/// the common methods; after `$` the default variable; after `@` `ARGV`
/// and `_`; after `%` `ENV`; otherwise the XS API candidates `xs`, then
/// the keywords; always those that start with the word before the cursor.
pub open spec fn lexical_candidates(
    content: Seq<char>,
    offset: int,
    keywords: Seq<Seq<char>>,
    xs: Seq<(Seq<char>, CompletionItemKind, Option<Seq<char>>)>,
) -> Seq<(Seq<char>, CompletionItemKind, Option<Seq<char>>)> {
    let before = crate::document::chars_within(content, offset);
    let start = word_start(before);
    let prefix = before.skip(start);
    if start >= 2 && before[start - 2] == '-' && before[start - 1] == '>' {
        method_candidates(prefix, 15)
    } else if start >= 1 && before[start - 1] == '$' {
        variable_if(prefix, "_"@, "Default variable"@)
    } else if start >= 1 && before[start - 1] == '@' {
        variable_if(prefix, "ARGV"@, "Command line arguments"@) + variable_if(prefix, "_"@, "Function arguments"@)
    } else if start >= 1 && before[start - 1] == '%' {
        variable_if(prefix, "ENV"@, "Environment variables"@)
    } else {
        xs + keyword_candidates(keywords, prefix)
    }
}

fn candidate(label: &str, kind: CompletionItemKind, detail: Option<String>) -> (c: CompletionCandidate)
    ensures
        lexical_view(c) == (label@, kind, opt_str(detail)),
        is_plain(c),
{
    CompletionCandidate { label: owned(label), kind, detail, documentation: None, insert_text: Some(owned(label)), sort_text: None }
}

fn common_methods() -> (v: Vec<(&'static str, &'static str)>)
    ensures
        v@.len() == 15,
        forall|i: int| 0 <= i < 15 ==> (#[trigger] v@[i]).0@ == method_entry(i).0 && v@[i].1@ == method_entry(i).1,
{
    let v: Vec<(&'static str, &'static str)> = vec![
        ("new", "constructor"),
        ("init", "initializer"),
        ("process", "processor"),
        ("run", "executor"),
        ("execute", "executor"),
        ("handle", "handler"),
        ("get", "getter"),
        ("set", "setter"),
        ("create", "constructor"),
        ("build", "builder"),
        ("parse", "parser"),
        ("format", "formatter"),
        ("validate", "validator"),
        ("transform", "transformer"),
        ("render", "renderer"),
    ];
    v
}

fn push_variable(out: &mut Vec<CompletionCandidate>, prefix: &str, name: &str, detail: &str)
    ensures
        final(out)@.map_values(|c: CompletionCandidate| lexical_view(c)) == old(out)@.map_values(|c: CompletionCandidate| lexical_view(c))
            + variable_if(prefix@, name@, detail@),
        forall|i: int| 0 <= i < old(out)@.len() ==> #[trigger] final(out)@[i] == old(out)@[i],
        forall|i: int| old(out)@.len() <= i < final(out)@.len() ==> is_plain(#[trigger] final(out)@[i]),
{
    let ghost before = out@;
    if str_starts_with(name, prefix) {
        out.push(candidate(name, CompletionItemKind::Variable, Some(owned(detail))));
        assert(out@.map_values(|c: CompletionCandidate| lexical_view(c)) =~= before.map_values(|c: CompletionCandidate| lexical_view(c))
            + variable_if(prefix@, name@, detail@));
    } else {
        assert(out@.map_values(|c: CompletionCandidate| lexical_view(c)) =~= before.map_values(|c: CompletionCandidate| lexical_view(c))
            + variable_if(prefix@, name@, detail@));
    }
}

/// The lexical completions at byte `offset` of `content` (a character
/// boundary, or past the end), the
/// keyword list and the XS API candidates (for the prefix, empty outside
/// XS sources) given by the caller.
pub fn lexical_completions(content: &str, offset: usize, keywords: &Vec<String>, xs: Vec<CompletionCandidate>) -> (r: Vec<CompletionCandidate>)
    requires
        at_char_boundary(content@, offset as int),
        forall|i: int| 0 <= i < xs@.len() ==> is_plain(#[trigger] xs@[i]),
    ensures
        r@.map_values(|c: CompletionCandidate| lexical_view(c)) == lexical_candidates(
            content@,
            offset as int,
            keywords@.map_values(|k: String| k@),
            xs@.map_values(|c: CompletionCandidate| lexical_view(c)),
        ),
        forall|i: int| 0 <= i < r@.len() ==> is_plain(#[trigger] r@[i]),
{
    let chars = str_chars(content);
    let ghost s = chars@;
    let mut end: usize = 0;
    let mut used: usize = 0;
    assert(s.skip(0) =~= s);
    assert(s.take(0) =~= Seq::<char>::empty());
    while end < chars.len() && crate::document::char_utf8_len(chars[end]) <= offset - used
        invariant
            s == chars@,
            s == content@,
            end <= chars.len(),
            used <= offset,
            crate::document::chars_within(s, offset as int) == s.take(end as int) + crate::document::chars_within(s.skip(end as int), offset - used),
        decreases chars.len() - end,
    {
        let n = crate::document::char_utf8_len(chars[end]);
        assert(s.skip(end as int)[0] == chars[end as int]);
        assert(s.skip(end as int).drop_first() =~= s.skip(end + 1));
        assert(s.take(end + 1) =~= s.take(end as int) + seq![chars[end as int]]);
        used = used + n;
        end = end + 1;
    }
    proof {
        if end < chars.len() {
            assert(s.skip(end as int)[0] == chars[end as int]);
            assert(crate::document::chars_within(s.skip(end as int), offset - used) =~= Seq::<char>::empty());
        } else {
            assert(s.skip(end as int) =~= Seq::<char>::empty());
        }
        assert(s.take(end as int) + Seq::<char>::empty() =~= s.take(end as int));
    }
    let ghost before = content@.take(end as int);
    assert(before == crate::document::chars_within(content@, offset as int));
    let mut j: usize = end;
    assert(chars@.take(end as int) =~= before);
    assert(before.take(end as int) =~= before);
    while j > 0 && ident_char(chars[j - 1])
        invariant
            j <= end,
            end <= chars@.len(),
            chars@ == content@,
            before == content@.take(end as int),
            word_start(before.take(j as int)) == word_start(before),
        decreases j,
    {
        assert(before.take(j as int).drop_last() =~= before.take(j - 1));
        assert(before.take(j as int).last() == chars@[j - 1]);
        j = j - 1;
    }
    proof {
        if j > 0 {
            assert(before.take(j as int).last() == chars@[j - 1]);
        } else {
            assert(before.take(0) =~= Seq::<char>::empty());
        }
    }
    let start = j;
    assert(start as int == word_start(before));
    let mut prefix = String::new();
    let mut k: usize = start;
    while k < end
        invariant
            start <= k <= end,
            end <= chars@.len(),
            prefix@ == chars@.subrange(start as int, k as int),
        decreases end - k,
    {
        crate::text::string_push(&mut prefix, chars[k]);
        assert(chars@.subrange(start as int, k + 1) =~= chars@.subrange(start as int, k as int).push(chars@[k as int]));
        k = k + 1;
    }
    assert(prefix@ =~= before.skip(start as int));
    let mut out: Vec<CompletionCandidate> = Vec::new();
    if start >= 2 && chars[start - 2] == '-' && chars[start - 1] == '>' {
        let methods = common_methods();
        let mut i: usize = 0;
        while i < 15
            invariant
                i <= 15,
                methods@.len() == 15,
                forall|t: int| 0 <= t < 15 ==> (#[trigger] methods@[t]).0@ == method_entry(t).0 && methods@[t].1@ == method_entry(t).1,
                out@.map_values(|c: CompletionCandidate| lexical_view(c)) == method_candidates(prefix@, i as nat),
                forall|t: int| 0 <= t < out@.len() ==> is_plain(#[trigger] out@[t]),
            decreases 15 - i,
        {
            let (m, role) = methods[i];
            let ghost prev = out@;
            if str_starts_with(m, prefix.as_str()) {
                let mut detail = owned("method (");
                detail.append(role);
                detail.append(")");
                out.push(candidate(m, CompletionItemKind::Function, Some(detail)));
                assert(out@.map_values(|c: CompletionCandidate| lexical_view(c)) =~= prev.map_values(|c: CompletionCandidate| lexical_view(c)).push(
                    (method_entry(i as int).0, CompletionItemKind::Function, Some("method ("@ + method_entry(i as int).1 + ")"@)),
                ));
            }
            i = i + 1;
        }
        return out;
    }
    if start >= 1 && chars[start - 1] == '$' {
        push_variable(&mut out, prefix.as_str(), "_", "Default variable");
        assert(out@.map_values(|c: CompletionCandidate| lexical_view(c)) =~= variable_if(prefix@, "_"@, "Default variable"@));
        return out;
    }
    if start >= 1 && chars[start - 1] == '@' {
        push_variable(&mut out, prefix.as_str(), "ARGV", "Command line arguments");
        push_variable(&mut out, prefix.as_str(), "_", "Function arguments");
        assert(out@.map_values(|c: CompletionCandidate| lexical_view(c)) =~= variable_if(prefix@, "ARGV"@, "Command line arguments"@)
            + variable_if(prefix@, "_"@, "Function arguments"@));
        return out;
    }
    if start >= 1 && chars[start - 1] == '%' {
        push_variable(&mut out, prefix.as_str(), "ENV", "Environment variables");
        assert(out@.map_values(|c: CompletionCandidate| lexical_view(c)) =~= variable_if(prefix@, "ENV"@, "Environment variables"@));
        return out;
    }
    let ghost xs_view = xs@.map_values(|c: CompletionCandidate| lexical_view(c));
    let ghost kws = keywords@.map_values(|k: String| k@);
    out = xs;
    let mut i: usize = 0;
    assert(kws.take(0) =~= Seq::<Seq<char>>::empty());
    assert(xs_view + keyword_candidates(kws.take(0), prefix@) =~= xs_view);
    while i < keywords.len()
        invariant
            i <= keywords.len(),
            kws == keywords@.map_values(|k: String| k@),
            out@.map_values(|c: CompletionCandidate| lexical_view(c)) == xs_view + keyword_candidates(kws.take(i as int), prefix@),
            forall|t: int| 0 <= t < out@.len() ==> is_plain(#[trigger] out@[t]),
        decreases keywords.len() - i,
    {
        assert(kws.take(i + 1).drop_last() =~= kws.take(i as int));
        assert(kws.take(i + 1).last() == keywords@[i as int]@);
        let ghost prev = out@;
        if str_starts_with(keywords[i].as_str(), prefix.as_str()) {
            out.push(candidate(keywords[i].as_str(), CompletionItemKind::Keyword, None));
            assert(out@.map_values(|c: CompletionCandidate| lexical_view(c)) =~= prev.map_values(|c: CompletionCandidate| lexical_view(c)).push(
                (keywords@[i as int]@, CompletionItemKind::Keyword, None),
            ));
        }
        i = i + 1;
    }
    assert(kws.take(keywords.len() as int) =~= kws);
    out
}

} // verus!

verus! {

/// The number a completion kind is sent as.
pub open spec fn kind_number(k: CompletionItemKind) -> u64 {
    match k {
        CompletionItemKind::Variable => 6,
        CompletionItemKind::Function => 3,
        CompletionItemKind::Keyword => 14,
        CompletionItemKind::Module => 9,
        CompletionItemKind::File => 17,
        CompletionItemKind::Snippet => 15,
        CompletionItemKind::Constant => 14,
        CompletionItemKind::Property => 7,
        CompletionItemKind::Text => 1,
        CompletionItemKind::Method => 2,
        CompletionItemKind::Constructor => 4,
        CompletionItemKind::Field => 5,
        CompletionItemKind::Class => 7,
        CompletionItemKind::Interface => 8,
        CompletionItemKind::Unit => 11,
        CompletionItemKind::Value => 12,
        CompletionItemKind::Enum => 13,
        CompletionItemKind::Color => 16,
        CompletionItemKind::Reference => 18,
        CompletionItemKind::Folder => 19,
        CompletionItemKind::EnumMember => 20,
        CompletionItemKind::Struct => 22,
        CompletionItemKind::Event => 23,
        CompletionItemKind::Operator => 24,
        CompletionItemKind::TypeParameter => 25,
    }
}

fn kind_value(k: CompletionItemKind) -> (r: u64)
    ensures
        r == kind_number(k),
{
    match k {
        CompletionItemKind::Variable => 6,
        CompletionItemKind::Function => 3,
        CompletionItemKind::Keyword => 14,
        CompletionItemKind::Module => 9,
        CompletionItemKind::File => 17,
        CompletionItemKind::Snippet => 15,
        CompletionItemKind::Constant => 14,
        CompletionItemKind::Property => 7,
        CompletionItemKind::Text => 1,
        CompletionItemKind::Method => 2,
        CompletionItemKind::Constructor => 4,
        CompletionItemKind::Field => 5,
        CompletionItemKind::Class => 7,
        CompletionItemKind::Interface => 8,
        CompletionItemKind::Unit => 11,
        CompletionItemKind::Value => 12,
        CompletionItemKind::Enum => 13,
        CompletionItemKind::Color => 16,
        CompletionItemKind::Reference => 18,
        CompletionItemKind::Folder => 19,
        CompletionItemKind::EnumMember => 20,
        CompletionItemKind::Struct => 22,
        CompletionItemKind::Event => 23,
        CompletionItemKind::Operator => 24,
        CompletionItemKind::TypeParameter => 25,
    }
}

/// The members a completion item may have.
pub open spec fn item_key(k: Seq<char>) -> bool {
    ||| k == "label"@
    ||| k == "kind"@
    ||| k == "insertTextFormat"@
    ||| k == "detail"@
    ||| k == "insertText"@
    ||| k == "documentation"@
    ||| k == "commitCharacters"@
    ||| k == "sortText"@
}

/// A snippet is sent as a snippet (format 2) only to clients that support
/// snippets; everything else is plain text (format 1).
pub open spec fn insert_format(c: CompletionCandidate, snippet_support: bool) -> u64 {
    if c.kind == CompletionItemKind::Snippet && snippet_support { 2 } else { 1 }
}

/// The text inserted: a snippet sent to a client without snippet support
/// is degraded to plain text.
pub open spec fn shown_insert_text(c: CompletionCandidate, snippet_support: bool) -> Option<Seq<char>> {
    match opt_str(c.insert_text) {
        Some(t) => Some(
            if c.kind == CompletionItemKind::Snippet && !snippet_support {
                snippet_tabstops_removed(snippet_placeholders_expanded(t))
            } else {
                t
            },
        ),
        None => None,
    }
}

/// An optional string member: present exactly when there is a value.
pub open spec fn opt_str_member(v: JsonValue, key: Seq<char>, s: Option<Seq<char>>) -> bool {
    match s {
        Some(x) => spec_as_str(spec_get(v, key)) == Some(x),
        None => spec_get(v, key) is None,
    }
}

/// `v` is the JSON item of candidate `c`.
pub open spec fn is_completion_item(v: JsonValue, c: CompletionCandidate, snippet_support: bool, commit_support: bool) -> bool {
    &&& v is Obj
    &&& spec_as_str(spec_get(v, "label"@)) == Some(c.label@)
    &&& spec_get(v, "kind"@) == Some(JsonValue::UInt(kind_number(c.kind)))
    &&& spec_get(v, "insertTextFormat"@) == Some(JsonValue::UInt(insert_format(c, snippet_support)))
    &&& opt_str_member(v, "detail"@, opt_str(c.detail))
    &&& opt_str_member(v, "insertText"@, shown_insert_text(c, snippet_support))
    &&& match opt_str(c.documentation) {
        Some(d) => spec_get(v, "documentation"@) matches Some(o) && spec_as_str(spec_get(o, "kind"@)) == Some("markdown"@)
            && spec_as_str(spec_get(o, "value"@)) == Some(d),
        None => spec_get(v, "documentation"@) is None,
    }
    &&& match (commit_support, commit_chars(c.kind)) {
        (true, Some(cs)) => spec_get(v, "commitCharacters"@) matches Some(JsonValue::Arr(a)) && a@.len() == cs.len()
            && forall|i: int| 0 <= i < cs.len() ==> is_str(#[trigger] a@[i], cs[i]),
        _ => spec_get(v, "commitCharacters"@) is None,
    }
    &&& opt_str_member(v, "sortText"@, opt_str(c.sort_text))
    &&& forall|k: Seq<char>| !item_key(k) ==> #[trigger] spec_get(v, k) is None
}

proof fn lemma_item_keys_distinct()
    ensures
        "label"@.len() == 5,
        "kind"@.len() == 4,
        "insertTextFormat"@.len() == 16,
        "detail"@.len() == 6,
        "insertText"@.len() == 10,
        "documentation"@.len() == 13,
        "commitCharacters"@.len() == 16,
        "sortText"@.len() == 8,
        "insertTextFormat"@ != "commitCharacters"@,
        "value"@ != "kind"@,
{
    reveal_strlit("label");
    reveal_strlit("kind");
    reveal_strlit("insertTextFormat");
    reveal_strlit("detail");
    reveal_strlit("insertText");
    reveal_strlit("documentation");
    reveal_strlit("commitCharacters");
    reveal_strlit("sortText");
    reveal_strlit("value");
    assert("insertTextFormat"@[0] != "commitCharacters"@[0]);
    assert("value"@.len() != "kind"@.len());
}

fn opt_text(s: &Option<String>) -> (r: Option<String>)
    ensures
        opt_str(r) == opt_str(*s),
{
    match s {
        Some(x) => Some(owned(x.as_str())),
        None => None,
    }
}

fn set_opt_str(v: JsonValue, key: &str, s: Option<String>) -> (r: JsonValue)
    requires
        v is Obj,
    ensures
        r is Obj,
        opt_str_member(r, key@, opt_str(s)) || (s is None && spec_get(r, key@) == spec_get(v, key@)),
        forall|k: Seq<char>| k != key@ ==> #[trigger] spec_get(r, k) == spec_get(v, k),
{
    match s {
        Some(x) => v.with_member(key, JsonValue::Str(x)),
        None => v,
    }
}

/// The JSON item of a completion candidate, as the client gets it.
pub fn completion_item_json(c: &CompletionCandidate, snippet_support: bool, commit_support: bool) -> (v: JsonValue)
    ensures
        is_completion_item(v, *c, snippet_support, commit_support),
{
    proof { lemma_item_keys_distinct(); }
    let is_snippet = match c.kind {
        CompletionItemKind::Snippet => true,
        _ => false,
    };
    let format: u64 = if is_snippet && snippet_support { 2 } else { 1 };
    let e = JsonValue::Obj(Vec::new());
    let v1 = e.with_member("label", str_value(c.label.as_str()));
    let v2 = v1.with_member("kind", JsonValue::UInt(kind_value(c.kind)));
    let v3 = v2.with_member("insertTextFormat", JsonValue::UInt(format));
    let v4 = set_opt_str(v3, "detail", opt_text(&c.detail));
    let shown: Option<String> = match &c.insert_text {
        Some(t) => if is_snippet && !snippet_support {
            Some(LspServer::degrade_snippet_to_plaintext(t.as_str()))
        } else {
            Some(owned(t.as_str()))
        },
        None => None,
    };
    let v5 = set_opt_str(v4, "insertText", shown);
    let v6 = match &c.documentation {
        Some(d) => {
            let doc = JsonValue::Obj(Vec::new()).with_member("kind", str_value("markdown")).with_member("value", str_value(d.as_str()));
            v5.with_member("documentation", doc)
        },
        None => v5,
    };
    let v7 = if commit_support {
        match commit_chars_for_kind(c.kind) {
            Some(cs) => {
                let mut a: Vec<JsonValue> = Vec::new();
                let mut i: usize = 0;
                while i < cs.len()
                    invariant
                        i <= cs.len(),
                        a@.len() == i,
                        forall|t: int| 0 <= t < i ==> is_str(#[trigger] a@[t], cs@[t]@),
                    decreases cs.len() - i,
                {
                    a.push(str_value(cs[i]));
                    i = i + 1;
                }
                assert forall|t: int| 0 <= t < cs@.len() implies is_str(#[trigger] a@[t], cs@.map_values(|s: &str| s@)[t]) by {}
                v6.with_member("commitCharacters", JsonValue::Arr(a))
            },
            None => v6,
        }
    } else {
        v6
    };
    let v = set_opt_str(v7, "sortText", opt_text(&c.sort_text));
    assert(spec_get(e, "label"@) is None);
    assert forall|k: Seq<char>| !item_key(k) implies #[trigger] spec_get(v, k) is None by {
        assert(spec_get(e, k) is None);
        assert(spec_get(v1, k) is None);
        assert(spec_get(v2, k) is None);
        assert(spec_get(v3, k) is None);
        assert(spec_get(v4, k) is None);
        assert(spec_get(v5, k) is None);
        assert(spec_get(v6, k) is None);
        assert(spec_get(v7, k) is None);
    }
    v
}

/// `r` is the completion list of `items`: `isIncomplete` when there are
/// more than `cap` items, and the first `cap` of them (all when fewer) as
/// JSON items.
pub open spec fn is_completion_list(r: JsonValue, items: Seq<CompletionCandidate>, snippet_support: bool, commit_support: bool, cap: nat) -> bool {
    let shown = if items.len() > cap { cap } else { items.len() };
    &&& has_keys(r, seq!["isIncomplete"@, "items"@])
    &&& members_of(r)[0].value == JsonValue::Bool(items.len() > cap)
    &&& members_of(r)[1].value matches JsonValue::Arr(a) && a@.len() == shown && forall|i: int|
        0 <= i < shown ==> is_completion_item(#[trigger] a@[i], items[i], snippet_support, commit_support)
}

/// The completion list sent to the client: at most `cap` items, with
/// `isIncomplete` set when some were left out.
pub fn completion_list_json(items: &Vec<CompletionCandidate>, snippet_support: bool, commit_support: bool, cap: usize) -> (r: JsonValue)
    ensures
        is_completion_list(r, items@, snippet_support, commit_support, cap as nat),
{
    let shown = if items.len() > cap { cap } else { items.len() };
    let mut a: Vec<JsonValue> = Vec::new();
    let mut i: usize = 0;
    while i < shown
        invariant
            i <= shown,
            shown <= items@.len(),
            a@.len() == i,
            forall|t: int| 0 <= t < i ==> is_completion_item(#[trigger] a@[t], items@[t], snippet_support, commit_support),
        decreases shown - i,
    {
        a.push(completion_item_json(&items[i], snippet_support, commit_support));
        i = i + 1;
    }
    let mut ms: Vec<JsonMember> = Vec::new();
    ms.push(member("isIncomplete", JsonValue::Bool(items.len() > cap)));
    ms.push(member("items", JsonValue::Arr(a)));
    JsonValue::Obj(ms)
}

} // verus!
