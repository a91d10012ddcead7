//! Diagnostics as JSON: one diagnostic with its positions, source and
//! data, and the reports of a `workspace/diagnostic` request.
use vstd::prelude::*;
use crate::json::{JsonValue, JsonMember, member, str_value, range_value, is_str, members_of, spec_get, spec_as_str};
use crate::lifecycle::LspServer;
use crate::text::{str_eq, owned, str_contains, contains_seq, string_push};
use crate::diagnostics::{DiagnosticTag, tag_number, fixable_policy, is_fixable_perlcritic_policy};
use crate::document::{offset_to_position_in, position_of_offset};

verus! {

/// How serious a diagnostic is.
#[derive(Clone, Copy, Debug, PartialEq, Eq, Structural)]
pub enum DiagnosticSeverity {
    Error,
    Warning,
    Information,
    Hint,
}

/// The LSP number of a severity.
pub open spec fn severity_number(s: DiagnosticSeverity) -> u64 {
    match s {
        DiagnosticSeverity::Error => 1,
        DiagnosticSeverity::Warning => 2,
        DiagnosticSeverity::Information => 3,
        DiagnosticSeverity::Hint => 4,
    }
}

/// A place related to a diagnostic: a byte range of the same document and
/// a message.
pub struct RelatedInformation {
    pub location: (usize, usize),
    pub message: String,
}

/// A diagnostic as the analyzers report it: a byte range, a severity, an
/// optional code, a message, an optional suggestion, related places and
/// tags.
pub struct InternalDiagnostic {
    pub range: (usize, usize),
    pub severity: DiagnosticSeverity,
    pub code: Option<String>,
    pub message: String,
    pub suggestion: Option<String>,
    pub related_information: Vec<RelatedInformation>,
    pub tags: Vec<DiagnosticTag>,
}

/// What the catalogue of diagnostic codes knows of a code: the name of its
/// variant and the name of its category.
pub struct KnownCode {
    pub variant: String,
    pub category: String,
}

/// The catalogue variants for which a quick fix exists.
pub open spec fn fixable_variant(v: Seq<char>) -> bool {
    ||| v == "ParseError"@
    ||| v == "MissingStrict"@
    ||| v == "MissingWarnings"@
    ||| v == "PhaseScopedStrictPragma"@
    ||| v == "PhaseScopedWarningsPragma"@
    ||| v == "UnusedVariable"@
    ||| v == "UndefinedVariable"@
    ||| v == "VariableShadowing"@
    ||| v == "UnusedParameter"@
    ||| v == "UnquotedBareword"@
    ||| v == "BarewordFilehandle"@
    ||| v == "TwoArgOpen"@
    ||| v == "AssignmentInCondition"@
    ||| v == "NumericComparisonWithUndef"@
    ||| v == "DeprecatedDefined"@
    ||| v == "MissingPackageDeclaration"@
    ||| v == "VariableRedeclaration"@
    ||| v == "MisspelledPragma"@
    ||| v == "UnreachableCode"@
    ||| v == "DuplicateSubroutine"@
    ||| v == "MissingReturn"@
}

fn is_fixable_variant(v: &str) -> (r: bool)
    ensures
        r == fixable_variant(v@),
{
    let pragmas = str_eq(v, "ParseError") || str_eq(v, "MissingStrict") || str_eq(v, "MissingWarnings") || str_eq(
        v,
        "PhaseScopedStrictPragma",
    ) || str_eq(v, "PhaseScopedWarningsPragma");
    let variables = str_eq(v, "UnusedVariable") || str_eq(v, "UndefinedVariable") || str_eq(v, "VariableShadowing")
        || str_eq(v, "UnusedParameter") || str_eq(v, "UnquotedBareword") || str_eq(v, "BarewordFilehandle");
    let constructs = str_eq(v, "TwoArgOpen") || str_eq(v, "AssignmentInCondition") || str_eq(
        v,
        "NumericComparisonWithUndef",
    ) || str_eq(v, "DeprecatedDefined") || str_eq(v, "MissingPackageDeclaration") || str_eq(
        v,
        "VariableRedeclaration",
    );
    let structure = str_eq(v, "MisspelledPragma") || str_eq(v, "UnreachableCode") || str_eq(
        v,
        "DuplicateSubroutine",
    ) || str_eq(v, "MissingReturn");
    pragmas || variables || constructs || structure
}

pub open spec fn opt_known(k: Option<&KnownCode>) -> Option<KnownCode> {
    match k {
        Some(x) => Some(*x),
        None => None,
    }
}

/// A code has a quick fix when it is a fixable Perl::Critic policy or a
/// fixable catalogue code.
pub open spec fn fixable_code(code: Seq<char>, known: Option<KnownCode>) -> bool {
    fixable_policy(code) || (known matches Some(k) && fixable_variant(k.variant@))
}

/// Whether a quick fix exists for a diagnostic with this code (`known` is
/// what the catalogue knows of it).
pub fn is_fixable_diagnostic(code: &str, known: Option<&KnownCode>) -> (r: bool)
    ensures
        r == fixable_code(code@, opt_known(known)),
{
    is_fixable_perlcritic_policy(code) || match known {
        Some(k) => is_fixable_variant(k.variant.as_str()),
        None => false,
    }
}

/// Who reports a diagnostic: Perl::Critic for a `::` code the catalogue
/// does not know, the server otherwise.
pub open spec fn source_name(code: Option<Seq<char>>, known: bool) -> Seq<char> {
    match code {
        Some(c) => if contains_seq(c, "::"@) && !known {
            "perlcritic"@
        } else {
            "perl-lsp"@
        },
        None => "perl-lsp"@,
    }
}

pub fn diagnostic_source(code: Option<&str>, known: bool) -> (r: &'static str)
    ensures
        r@ == source_name(
            match code {
                Some(c) => Some(c@),
                None => None,
            },
            known,
        ),
{
    match code {
        Some(c) => if str_contains(c, "::") && !known {
            "perlcritic"
        } else {
            "perl-lsp"
        },
        None => "perl-lsp",
    }
}

/// The name of a tag in diagnostic data.
pub open spec fn tag_name(t: DiagnosticTag) -> Seq<char> {
    match t {
        DiagnosticTag::Unnecessary => "Unnecessary"@,
        DiagnosticTag::Deprecated => "Deprecated"@,
    }
}

/// `v` is the range `{"start": {line, character}, "end": {...}}` of the
/// two positions.
pub open spec fn is_range_of(v: JsonValue, s: (nat, nat), e: (nat, nat)) -> bool {
    &&& spec_get(v, "start"@) matches Some(a) && spec_get(a, "line"@) == Some(JsonValue::UInt(s.0 as u64))
        && spec_get(a, "character"@) == Some(JsonValue::UInt(s.1 as u64))
    &&& spec_get(v, "end"@) matches Some(b) && spec_get(b, "line"@) == Some(JsonValue::UInt(e.0 as u64))
        && spec_get(b, "character"@) == Some(JsonValue::UInt(e.1 as u64))
}

/// `v` is the related-information object of `ri` in the document `uri`.
pub open spec fn is_related_of(v: JsonValue, text: Seq<char>, uri: Seq<char>, ri: RelatedInformation) -> bool {
    let ms = members_of(v);
    let loc = members_of(ms[0].value);
    &&& v is Obj
    &&& ms.len() == 2
    &&& ms[0].key@ == "location"@
    &&& ms[0].value is Obj
    &&& loc.len() == 2
    &&& loc[0].key@ == "uri"@
    &&& is_str(loc[0].value, uri)
    &&& loc[1].key@ == "range"@
    &&& is_range_of(
        loc[1].value,
        position_of_offset(text, ri.location.0 as int),
        position_of_offset(text, ri.location.1 as int),
    )
    &&& ms[1].key@ == "message"@
    &&& is_str(ms[1].value, ri.message@)
}

/// `v` is the `data` of a diagnostic with this code and these tags.
pub open spec fn is_data_of(v: JsonValue, code: Seq<char>, known: Option<KnownCode>, tags: Seq<DiagnosticTag>) -> bool {
    let ms = members_of(v);
    &&& v is Obj
    &&& ms.len() == 4
    &&& ms[0].key@ == "code"@
    &&& is_str(ms[0].value, code)
    &&& ms[1].key@ == "category"@
    &&& is_str(ms[1].value, match known {
        Some(k) => k.category@,
        None => "Other"@,
    })
    &&& ms[2].key@ == "fixable"@
    &&& ms[2].value == JsonValue::Bool(fixable_code(code, known))
    &&& ms[3].key@ == "tags"@
    &&& ms[3].value matches JsonValue::Arr(a) && a@.len() == tags.len() && forall|i: int|
        0 <= i < tags.len() ==> is_str(#[trigger] a@[i], tag_name(tags[i]))
}

/// The message shown: with `\nSuggestion: ...` appended when asked for
/// and there is a suggestion.
pub open spec fn shown_message(d: InternalDiagnostic, with_suggestion: bool) -> Seq<char> {
    match d.suggestion {
        Some(s) => if with_suggestion {
            d.message@ + "\nSuggestion: "@ + s@
        } else {
            d.message@
        },
        None => d.message@,
    }
}

pub open spec fn opt_str(s: Option<String>) -> Option<Seq<char>> {
    match s {
        Some(x) => Some(x@),
        None => None,
    }
}

/// `v` is the array of the LSP numbers of `tags`.
pub open spec fn is_tag_numbers(v: JsonValue, tags: Seq<DiagnosticTag>) -> bool {
    v matches JsonValue::Arr(a) && a@.len() == tags.len() && forall|i: int|
        0 <= i < a@.len() ==> #[trigger] a@[i] == JsonValue::UInt(tag_number(tags[i]) as u64)
}

/// `v` is the array of the related-information objects of `rel`.
pub open spec fn is_related_list(v: JsonValue, text: Seq<char>, uri: Seq<char>, rel: Seq<RelatedInformation>) -> bool {
    v matches JsonValue::Arr(a) && a@.len() == rel.len() && forall|i: int|
        0 <= i < a@.len() ==> is_related_of(#[trigger] a@[i], text, uri, rel[i])
}

/// `v` is the LSP form of `d` in the document `uri` with text `text`:
/// range, severity, code, source and message; then the tag numbers, the
/// related places and the data, each only when there is something to say.
pub open spec fn is_diagnostic_of(
    v: JsonValue,
    text: Seq<char>,
    uri: Seq<char>,
    d: InternalDiagnostic,
    known: Option<KnownCode>,
    with_suggestion: bool,
) -> bool {
    let ms = members_of(v);
    let n_tags: int = if d.tags@.len() > 0 { 1 } else { 0 };
    let n_rel: int = if d.related_information@.len() > 0 { 1 } else { 0 };
    let n_data: int = if d.code is Some { 1 } else { 0 };
    &&& v is Obj
    &&& ms.len() == 5 + n_tags + n_rel + n_data
    &&& ms[0].key@ == "range"@
    &&& is_range_of(ms[0].value, position_of_offset(text, d.range.0 as int), position_of_offset(text, d.range.1 as int))
    &&& ms[1].key@ == "severity"@
    &&& ms[1].value == JsonValue::UInt(severity_number(d.severity))
    &&& ms[2].key@ == "code"@
    &&& match d.code {
        Some(c) => is_str(ms[2].value, c@),
        None => ms[2].value is Null,
    }
    &&& ms[3].key@ == "source"@
    &&& is_str(ms[3].value, source_name(opt_str(d.code), known is Some))
    &&& ms[4].key@ == "message"@
    &&& is_str(ms[4].value, shown_message(d, with_suggestion))
    &&& d.tags@.len() > 0 ==> (ms[5].key@ == "tags"@ && is_tag_numbers(ms[5].value, d.tags@))
    &&& d.related_information@.len() > 0 ==> (ms[5 + n_tags].key@ == "relatedInformation"@ && is_related_list(
        ms[5 + n_tags].value,
        text,
        uri,
        d.related_information@,
    ))
    &&& d.code matches Some(c) ==> (ms[5 + n_tags + n_rel].key@ == "data"@ && is_data_of(
        ms[5 + n_tags + n_rel].value,
        c@,
        known,
        d.tags@,
    ))
}

fn range_of(text: &str, start: usize, end: usize) -> (r: JsonValue)
    requires
        text@.len() <= 0x7fff_ffff,
    ensures
        is_range_of(r, position_of_offset(text@, start as int), position_of_offset(text@, end as int)),
{
    let s = offset_to_position_in(text, start);
    let e = offset_to_position_in(text, end);
    range_value(s.0 as u64, s.1 as u64, e.0 as u64, e.1 as u64)
}

fn related_json(text: &str, uri: &str, ri: &RelatedInformation) -> (r: JsonValue)
    requires
        text@.len() <= 0x7fff_ffff,
    ensures
        is_related_of(r, text@, uri@, *ri),
{
    let mut loc: Vec<JsonMember> = Vec::new();
    loc.push(member("uri", str_value(uri)));
    loc.push(member("range", range_of(text, ri.location.0, ri.location.1)));
    let mut ms: Vec<JsonMember> = Vec::new();
    ms.push(member("location", JsonValue::Obj(loc)));
    ms.push(member("message", str_value(ri.message.as_str())));
    JsonValue::Obj(ms)
}

fn data_json(code: &str, known: Option<&KnownCode>, tags: &Vec<DiagnosticTag>) -> (r: JsonValue)
    ensures
        is_data_of(r, code@, opt_known(known), tags@),
{
    let category = match known {
        Some(k) => owned(k.category.as_str()),
        None => owned("Other"),
    };
    let fixable = is_fixable_diagnostic(code, known);
    let mut names: Vec<JsonValue> = Vec::new();
    let mut i: usize = 0;
    while i < tags.len()
        invariant
            i <= tags.len(),
            names@.len() == i,
            forall|j: int| 0 <= j < i ==> is_str(#[trigger] names@[j], tag_name(tags@[j])),
        decreases tags.len() - i,
    {
        let name = match tags[i] {
            DiagnosticTag::Unnecessary => "Unnecessary",
            DiagnosticTag::Deprecated => "Deprecated",
        };
        names.push(str_value(name));
        i = i + 1;
    }
    let mut ms: Vec<JsonMember> = Vec::new();
    ms.push(member("code", str_value(code)));
    ms.push(member("category", JsonValue::Str(category)));
    ms.push(member("fixable", JsonValue::Bool(fixable)));
    ms.push(member("tags", JsonValue::Arr(names)));
    JsonValue::Obj(ms)
}

impl LspServer {
    /// The LSP form of a diagnostic of the document `uri`, whose text is
    /// `text`. `known` is what the code catalogue knows of its code; with
    /// `with_suggestion` a suggestion is appended to the message.
    pub fn diagnostic_to_json(text: &str, uri: &str, d: &InternalDiagnostic, known: Option<&KnownCode>, with_suggestion: bool) -> (r: JsonValue)
        requires
            text@.len() <= 0x7fff_ffff,
        ensures
            is_diagnostic_of(r, text@, uri@, *d, opt_known(known), with_suggestion),
    {
        let mut ms: Vec<JsonMember> = Vec::new();
        ms.push(member("range", range_of(text, d.range.0, d.range.1)));
        let severity: u64 = match d.severity {
            DiagnosticSeverity::Error => 1,
            DiagnosticSeverity::Warning => 2,
            DiagnosticSeverity::Information => 3,
            DiagnosticSeverity::Hint => 4,
        };
        ms.push(member("severity", JsonValue::UInt(severity)));
        let code_value = match &d.code {
            Some(c) => str_value(c.as_str()),
            None => JsonValue::Null,
        };
        ms.push(member("code", code_value));
        let code_text: Option<&str> = match &d.code {
            Some(c) => Some(c.as_str()),
            None => None,
        };
        let source = diagnostic_source(code_text, known.is_some());
        ms.push(member("source", str_value(source)));
        let mut message = owned(d.message.as_str());
        if with_suggestion {
            match &d.suggestion {
                Some(s) => {
                    message.append("\nSuggestion: ");
                    message.append(s.as_str());
                },
                None => {},
            }
        }
        ms.push(member("message", JsonValue::Str(message)));
        let ghost base = ms@;
        if d.tags.len() > 0 {
            let numbers = LspServer::diagnostic_tags_to_lsp(&d.tags);
            let mut values: Vec<JsonValue> = Vec::new();
            let mut i: usize = 0;
            while i < numbers.len()
                invariant
                    i <= numbers.len(),
                    numbers@ == d.tags@.map_values(|t: DiagnosticTag| tag_number(t)),
                    values@.len() == i,
                    forall|j: int| 0 <= j < i ==> #[trigger] values@[j] == JsonValue::UInt(tag_number(d.tags@[j]) as u64),
                decreases numbers.len() - i,
            {
                let n = numbers[i];
                assert(n == tag_number(d.tags@[i as int]));
                let u: u64 = if n == 1 {
                    1
                } else {
                    2
                };
                values.push(JsonValue::UInt(u));
                i = i + 1;
            }
            ms.push(member("tags", JsonValue::Arr(values)));
        }
        let ghost with_tags = ms@;
        if d.related_information.len() > 0 {
            let mut related: Vec<JsonValue> = Vec::new();
            let mut i: usize = 0;
            while i < d.related_information.len()
                invariant
                    i <= d.related_information.len(),
                    text@.len() <= 0x7fff_ffff,
                    related@.len() == i,
                    forall|j: int| 0 <= j < i ==> is_related_of(#[trigger] related@[j], text@, uri@, d.related_information@[j]),
                decreases d.related_information.len() - i,
            {
                related.push(related_json(text, uri, &d.related_information[i]));
                i = i + 1;
            }
            ms.push(member("relatedInformation", JsonValue::Arr(related)));
        }
        let ghost with_rel = ms@;
        match &d.code {
            Some(c) => {
                ms.push(member("data", data_json(c.as_str(), known, &d.tags)));
            },
            None => {},
        }
        proof {
            assert(ms@[0] == base[0]);
            assert(ms@[1] == base[1]);
            assert(ms@[2] == base[2]);
            assert(ms@[3] == base[3]);
            assert(ms@[4] == base[4]);
            if d.tags@.len() > 0 {
                assert(ms@[5] == with_tags[5]);
            }
            if d.related_information@.len() > 0 {
                let k: int = if d.tags@.len() > 0 { 6 } else { 5 };
                assert(ms@[k] == with_rel[k]);
            }
        }
        JsonValue::Obj(ms)
    }
}

/// The MD5 digest of the UTF-8 bytes of `text`, as `md5::compute` gives it.
pub uninterp spec fn md5_digest(text: Seq<char>) -> Seq<u8>;

/// `md5::compute` on the bytes of `text`; the contract claims that the
/// digest is a function of the text, named `md5_digest`, and has 16 bytes
/// (`md5::Digest` holds a `[u8; 16]`).
#[verifier::external_body]
fn md5_of(text: &str) -> (r: Vec<u8>)
    ensures
        r@ == md5_digest(text@),
        r@.len() == 16,
{
    md5::compute(text).0.to_vec()
}

/// The lower-case hex digit of `n` (below 16).
pub open spec fn hex_digit(n: u8) -> char {
    if n < 10 {
        ((n + 48) as u8) as char
    } else {
        ((n + 87) as u8) as char
    }
}

/// `bytes` in lower-case hex, two digits a byte (the `{:x}` form of an
/// `md5::Digest`).
pub open spec fn hex_lower(bytes: Seq<u8>) -> Seq<char>
    decreases bytes.len(),
{
    if bytes.len() == 0 {
        Seq::empty()
    } else {
        hex_lower(bytes.drop_last()) + seq![hex_digit(bytes.last() / 16), hex_digit(bytes.last() % 16)]
    }
}

fn hex_char(n: u8) -> (c: char)
    requires
        n < 16,
    ensures
        c == hex_digit(n),
{
    if n < 10 {
        ((n + 48) as u8) as char
    } else {
        ((n + 87) as u8) as char
    }
}

/// The result id of a document's diagnostics: the MD5 digest of its text in hex.
pub open spec fn result_id_of(text: Seq<char>) -> Seq<char> {
    hex_lower(md5_digest(text))
}

fn result_id(text: &str) -> (r: String)
    ensures
        r@ == result_id_of(text@),
{
    let digest = md5_of(text);
    let mut out = String::new();
    let mut i: usize = 0;
    while i < digest.len()
        invariant
            i <= digest.len(),
            digest@ == md5_digest(text@),
            out@ == hex_lower(digest@.take(i as int)),
        decreases digest.len() - i,
    {
        let b = digest[i];
        assert(digest@.take(i + 1).drop_last() =~= digest@.take(i as int));
        string_push(&mut out, hex_char(b / 16));
        string_push(&mut out, hex_char(b % 16));
        i = i + 1;
    }
    assert(digest@.take(digest.len() as int) =~= digest@);
    out
}

/// A diagnostic together with what the code catalogue knows of its code.
pub struct CheckedDiagnostic {
    pub diagnostic: InternalDiagnostic,
    pub known_code: Option<KnownCode>,
}

/// An open document as the workspace report sees it: its uri, version and
/// text, and its diagnostics (the parse errors when it did not parse).
pub struct WorkspaceDocument {
    pub uri: String,
    pub version: i32,
    pub text: String,
    pub diagnostics: Vec<CheckedDiagnostic>,
}

/// The `(uri, resultId)` pairs the client sent as `previousResultIds`,
/// skipping entries without both texts.
pub open spec fn previous_ids(entries: Seq<JsonValue>) -> Seq<(Seq<char>, Seq<char>)>
    decreases entries.len(),
{
    if entries.len() == 0 {
        Seq::empty()
    } else {
        let r = previous_ids(entries.drop_last());
        match (spec_as_str(spec_get(entries.last(), "uri"@)), spec_as_str(spec_get(entries.last(), "value"@))) {
            (Some(u), Some(v)) => r.push((u, v)),
            _ => r,
        }
    }
}

/// The entries of the `previousResultIds` array of the request.
pub open spec fn previous_entries(params: Option<JsonValue>) -> Seq<JsonValue> {
    match params {
        Some(p) => match spec_get(p, "previousResultIds"@) {
            Some(JsonValue::Arr(a)) => a@,
            _ => Seq::empty(),
        },
        None => Seq::empty(),
    }
}

/// The first result id the client sent for `uri`.
pub open spec fn previous_id_for(ids: Seq<(Seq<char>, Seq<char>)>, uri: Seq<char>) -> Option<Seq<char>>
    decreases ids.len(),
{
    if ids.len() == 0 {
        None
    } else if ids[0].0 == uri {
        Some(ids[0].1)
    } else {
        previous_id_for(ids.drop_first(), uri)
    }
}

/// `v` is a JSON integer holding `n`.
pub open spec fn is_int(v: JsonValue, n: int) -> bool {
    if n >= 0 {
        v == JsonValue::UInt(n as u64)
    } else {
        v == JsonValue::NegInt(n as i64)
    }
}

/// `v` is the array of the LSP forms of the document's diagnostics, with
/// their suggestions.
pub open spec fn is_item_list(v: JsonValue, doc: WorkspaceDocument) -> bool {
    v matches JsonValue::Arr(a) && a@.len() == doc.diagnostics@.len() && forall|j: int|
        0 <= j < a@.len() ==> is_diagnostic_of(
            #[trigger] a@[j],
            doc.text@,
            doc.uri@,
            doc.diagnostics@[j].diagnostic,
            doc.diagnostics@[j].known_code,
            true,
        )
}

/// `v` is the report of `doc`: `unchanged` with the client's result id
/// when that id is the digest of the text, otherwise `full` with the new
/// result id and all diagnostics.
pub open spec fn is_report_of(v: JsonValue, doc: WorkspaceDocument, ids: Seq<(Seq<char>, Seq<char>)>) -> bool {
    let ms = members_of(v);
    let rid = result_id_of(doc.text@);
    &&& v is Obj
    &&& ms[0].key@ == "uri"@
    &&& is_str(ms[0].value, doc.uri@)
    &&& ms[1].key@ == "version"@
    &&& is_int(ms[1].value, doc.version as int)
    &&& ms[2].key@ == "kind"@
    &&& ms[3].key@ == "resultId"@
    &&& if previous_id_for(ids, doc.uri@) == Some(rid) {
        &&& ms.len() == 4
        &&& is_str(ms[2].value, "unchanged"@)
        &&& is_str(ms[3].value, rid)
    } else {
        &&& ms.len() == 5
        &&& is_str(ms[2].value, "full"@)
        &&& is_str(ms[3].value, rid)
        &&& ms[4].key@ == "items"@
        &&& is_item_list(ms[4].value, doc)
    }
}

/// A JSON integer holding `n`.
fn int_value(n: i32) -> (r: JsonValue)
    ensures
        is_int(r, n as int),
{
    if n >= 0 {
        JsonValue::UInt(n as u64)
    } else {
        JsonValue::NegInt(n as i64)
    }
}

fn read_previous_ids(params: &Option<JsonValue>) -> (r: Vec<(String, String)>)
    ensures
        r@.len() == previous_ids(previous_entries(*params)).len(),
        forall|i: int|
            0 <= i < r@.len() ==> (#[trigger] r@[i]).0@ == previous_ids(previous_entries(*params))[i].0 && r@[i].1@
                == previous_ids(previous_entries(*params))[i].1,
{
    let mut out: Vec<(String, String)> = Vec::new();
    let entries: &Vec<JsonValue> = match params {
        Some(p) => match p.get("previousResultIds") {
            Some(JsonValue::Arr(a)) => a,
            _ => return out,
        },
        None => return out,
    };
    let ghost all = entries@;
    assert(all == previous_entries(*params));
    let mut i: usize = 0;
    while i < entries.len()
        invariant
            i <= entries.len(),
            all == entries@,
            out@.len() == previous_ids(all.take(i as int)).len(),
            forall|k: int|
                0 <= k < out@.len() ==> (#[trigger] out@[k]).0@ == previous_ids(all.take(i as int))[k].0 && out@[k].1@
                    == previous_ids(all.take(i as int))[k].1,
        decreases entries.len() - i,
    {
        assert(all.take(i + 1).drop_last() =~= all.take(i as int));
        assert(all.take(i + 1).last() == entries@[i as int]);
        let uri = match entries[i].get("uri") {
            Some(u) => u.as_str(),
            None => None,
        };
        let value = match entries[i].get("value") {
            Some(v) => v.as_str(),
            None => None,
        };
        match (uri, value) {
            (Some(u), Some(v)) => {
                out.push((owned(u), owned(v)));
            },
            _ => {},
        }
        i = i + 1;
    }
    assert(all.take(entries.len() as int) =~= all);
    out
}

fn find_previous_id(ids: &Vec<(String, String)>, uri: &str) -> (r: Option<String>)
    ensures
        ({
            let spec_ids = ids@.map_values(|p: (String, String)| (p.0@, p.1@));
            match r {
                Some(x) => previous_id_for(spec_ids, uri@) == Some(x@),
                None => previous_id_for(spec_ids, uri@) is None,
            }
        }),
{
    let ghost spec_ids = ids@.map_values(|p: (String, String)| (p.0@, p.1@));
    let mut i: usize = 0;
    assert(spec_ids.skip(0) =~= spec_ids);
    while i < ids.len()
        invariant
            i <= ids.len(),
            spec_ids == ids@.map_values(|p: (String, String)| (p.0@, p.1@)),
            previous_id_for(spec_ids, uri@) == previous_id_for(spec_ids.skip(i as int), uri@),
        decreases ids.len() - i,
    {
        assert(spec_ids.skip(i as int).drop_first() =~= spec_ids.skip(i + 1));
        assert(spec_ids.skip(i as int)[0] == (ids@[i as int].0@, ids@[i as int].1@));
        if str_eq(ids[i].0.as_str(), uri) {
            return Some(owned(ids[i].1.as_str()));
        }
        i = i + 1;
    }
    None
}

fn document_report(doc: &WorkspaceDocument, previous: Option<String>) -> (r: JsonValue)
    requires
        doc.text@.len() <= 0x7fff_ffff,
    ensures
        ({
            let rid = result_id_of(doc.text@);
            let ms = members_of(r);
            &&& r is Obj
            &&& ms[0].key@ == "uri"@
            &&& is_str(ms[0].value, doc.uri@)
            &&& ms[1].key@ == "version"@
            &&& is_int(ms[1].value, doc.version as int)
            &&& ms[2].key@ == "kind"@
            &&& ms[3].key@ == "resultId"@
            &&& if (previous matches Some(p) && p@ == rid) {
                &&& ms.len() == 4
                &&& is_str(ms[2].value, "unchanged"@)
                &&& is_str(ms[3].value, rid)
            } else {
                &&& ms.len() == 5
                &&& is_str(ms[2].value, "full"@)
                &&& is_str(ms[3].value, rid)
                &&& ms[4].key@ == "items"@
                &&& is_item_list(ms[4].value, *doc)
            }
        }),
{
    let rid = result_id(doc.text.as_str());
    let unchanged = match &previous {
        Some(p) => str_eq(p.as_str(), rid.as_str()),
        None => false,
    };
    let mut ms: Vec<JsonMember> = Vec::new();
    ms.push(member("uri", str_value(doc.uri.as_str())));
    ms.push(member("version", int_value(doc.version)));
    if unchanged {
        ms.push(member("kind", str_value("unchanged")));
        ms.push(member("resultId", JsonValue::Str(rid)));
        return JsonValue::Obj(ms);
    }
    let mut items: Vec<JsonValue> = Vec::new();
    let mut j: usize = 0;
    while j < doc.diagnostics.len()
        invariant
            j <= doc.diagnostics.len(),
            doc.text@.len() <= 0x7fff_ffff,
            items@.len() == j,
            forall|k: int|
                0 <= k < j ==> is_diagnostic_of(
                    #[trigger] items@[k],
                    doc.text@,
                    doc.uri@,
                    doc.diagnostics@[k].diagnostic,
                    doc.diagnostics@[k].known_code,
                    true,
                ),
        decreases doc.diagnostics.len() - j,
    {
        let cd = &doc.diagnostics[j];
        let known: Option<&KnownCode> = match &cd.known_code {
            Some(k) => Some(k),
            None => None,
        };
        items.push(LspServer::diagnostic_to_json(doc.text.as_str(), doc.uri.as_str(), &cd.diagnostic, known, true));
        j = j + 1;
    }
    ms.push(member("kind", str_value("full")));
    ms.push(member("resultId", JsonValue::Str(rid)));
    ms.push(member("items", JsonValue::Arr(items)));
    JsonValue::Obj(ms)
}

impl LspServer {
    /// `workspace/diagnostic`: one report per open document, in order, with
    /// its uri and version; a document whose text still has the result id
    /// the client sent is reported `unchanged`.
    pub fn handle_workspace_diagnostic(&self, params: Option<JsonValue>, documents: &Vec<WorkspaceDocument>) -> (r: Result<Option<JsonValue>, crate::lifecycle::JsonRpcError>)
        requires
            forall|i: int| 0 <= i < documents@.len() ==> (#[trigger] documents@[i]).text@.len() <= 0x7fff_ffff,
        ensures
            r matches Ok(Some(v)) && ({
                let docs = documents@;
                let ids = previous_ids(previous_entries(params));
                let ms = members_of(v);
                &&& v is Obj
                &&& ms.len() == 1
                &&& ms[0].key@ == "items"@
                &&& ms[0].value matches JsonValue::Arr(a) && a@.len() == docs.len() && forall|i: int|
                    0 <= i < a@.len() ==> is_report_of(#[trigger] a@[i], docs[i], ids)
            }),
    {
        let ids = read_previous_ids(&params);
        let ghost spec_ids = previous_ids(previous_entries(params));
        assert(ids@.map_values(|p: (String, String)| (p.0@, p.1@)) =~= spec_ids);
        let mut items: Vec<JsonValue> = Vec::new();
        let mut i: usize = 0;
        while i < documents.len()
            invariant
                i <= documents.len(),
                forall|k: int| 0 <= k < documents@.len() ==> (#[trigger] documents@[k]).text@.len() <= 0x7fff_ffff,
                ids@.map_values(|p: (String, String)| (p.0@, p.1@)) == spec_ids,
                items@.len() == i,
                forall|k: int| 0 <= k < i ==> is_report_of(#[trigger] items@[k], documents@[k], spec_ids),
            decreases documents.len() - i,
        {
            let doc = &documents[i];
            let previous = find_previous_id(&ids, doc.uri.as_str());
            let report = document_report(doc, previous);
            items.push(report);
            i = i + 1;
        }
        let mut ms: Vec<JsonMember> = Vec::new();
        ms.push(member("items", JsonValue::Arr(items)));
        Ok(Some(JsonValue::Obj(ms)))
    }
}

} // verus!

verus! {

/// A diagnostic code as the LSP types carry it: a number or a text.
pub enum LspCode {
    Number(i32),
    Text(String),
}

/// A place related to an LSP diagnostic: a document, a range (start line
/// and character, end line and character) and a message.
pub struct LspRelated {
    pub uri: String,
    pub range: (u32, u32, u32, u32),
    pub message: String,
}

/// A diagnostic in LSP form, as the pull-diagnostics provider reports it:
/// severity and tags are the protocol numbers.
pub struct LspDiagnostic {
    pub range: (u32, u32, u32, u32),
    pub severity: Option<i32>,
    pub code: Option<LspCode>,
    pub source: Option<String>,
    pub message: String,
    pub tags: Option<Vec<i32>>,
    pub data: Option<JsonValue>,
    pub related_information: Option<Vec<LspRelated>>,
}

/// The severity number sent: 1 to 4 as they are, anything else a warning.
pub open spec fn sent_severity(s: i32) -> u64 {
    if 1 <= s && s <= 4 {
        s as u64
    } else {
        2
    }
}

/// The tag number sent: 1 and 2 as they are, anything else 0.
pub open spec fn sent_tag(t: i32) -> u64 {
    if t == 1 || t == 2 {
        t as u64
    } else {
        0
    }
}

/// `v` is the range `(start line, start character, end line, end character)`.
pub open spec fn is_lsp_range(v: JsonValue, r: (u32, u32, u32, u32)) -> bool {
    is_range_of(v, (r.0 as nat, r.1 as nat), (r.2 as nat, r.3 as nat))
}

/// `v` is the related-information object of `ri`.
pub open spec fn is_lsp_related(v: JsonValue, ri: LspRelated) -> bool {
    let ms = members_of(v);
    let loc = members_of(ms[0].value);
    &&& v is Obj
    &&& ms.len() == 2
    &&& ms[0].key@ == "location"@
    &&& ms[0].value is Obj
    &&& loc.len() == 2
    &&& loc[0].key@ == "uri"@
    &&& is_str(loc[0].value, ri.uri@)
    &&& loc[1].key@ == "range"@
    &&& is_lsp_range(loc[1].value, ri.range)
    &&& ms[1].key@ == "message"@
    &&& is_str(ms[1].value, ri.message@)
}

/// `v` is the JSON form of `d`: range, severity, code, source and message
/// (`null` where `d` has none), then its tags, data and related places,
/// each when `d` has them.
pub open spec fn is_lsp_diagnostic_json(v: JsonValue, d: LspDiagnostic) -> bool {
    let ms = members_of(v);
    let n_tags: int = if d.tags is Some { 1 } else { 0 };
    let n_data: int = if d.data is Some { 1 } else { 0 };
    let n_rel: int = if d.related_information is Some { 1 } else { 0 };
    &&& v is Obj
    &&& ms.len() == 5 + n_tags + n_data + n_rel
    &&& ms[0].key@ == "range"@
    &&& is_lsp_range(ms[0].value, d.range)
    &&& ms[1].key@ == "severity"@
    &&& ms[1].value == match d.severity {
        Some(s) => JsonValue::UInt(sent_severity(s)),
        None => JsonValue::Null,
    }
    &&& ms[2].key@ == "code"@
    &&& match d.code {
        Some(LspCode::Number(n)) => is_int(ms[2].value, n as int),
        Some(LspCode::Text(t)) => is_str(ms[2].value, t@),
        None => ms[2].value is Null,
    }
    &&& ms[3].key@ == "source"@
    &&& match d.source {
        Some(src) => is_str(ms[3].value, src@),
        None => ms[3].value is Null,
    }
    &&& ms[4].key@ == "message"@
    &&& is_str(ms[4].value, d.message@)
    &&& (d.tags matches Some(ts) ==> (ms[5].key@ == "tags"@ && is_sent_tags(ms[5].value, ts@)))
    &&& (d.data matches Some(x) ==> (ms[5 + n_tags].key@ == "data"@ && ms[5 + n_tags].value == x))
    &&& (d.related_information matches Some(rs) ==> (ms[5 + n_tags + n_data].key@ == "relatedInformation"@
        && is_lsp_related_list(ms[5 + n_tags + n_data].value, rs@)))
}

/// `v` is the array of the sent numbers of `tags`.
pub open spec fn is_sent_tags(v: JsonValue, tags: Seq<i32>) -> bool {
    v matches JsonValue::Arr(a) && a@.len() == tags.len() && forall|i: int|
        0 <= i < a@.len() ==> #[trigger] a@[i] == JsonValue::UInt(sent_tag(tags[i]))
}

/// `v` is the array of the related-information objects of `rs`.
pub open spec fn is_lsp_related_list(v: JsonValue, rs: Seq<LspRelated>) -> bool {
    v matches JsonValue::Arr(a) && a@.len() == rs.len() && forall|i: int|
        0 <= i < a@.len() ==> is_lsp_related(#[trigger] a@[i], rs[i])
}

fn lsp_range(r: (u32, u32, u32, u32)) -> (v: JsonValue)
    ensures
        is_lsp_range(v, r),
{
    range_value(r.0 as u64, r.1 as u64, r.2 as u64, r.3 as u64)
}

fn i32_json(n: i32) -> (r: JsonValue)
    ensures
        is_int(r, n as int),
{
    if n >= 0 {
        JsonValue::UInt(n as u64)
    } else {
        JsonValue::NegInt(n as i64)
    }
}

impl LspServer {
    /// The JSON form of a diagnostic in LSP form.
    pub fn lsp_diagnostic_to_json(d: LspDiagnostic) -> (r: JsonValue)
        ensures
            is_lsp_diagnostic_json(r, d),
    {
        let ghost d0 = d;
        let LspDiagnostic { range, severity, code, source, message, tags, data, related_information } = d;
        let mut ms: Vec<JsonMember> = Vec::new();
        ms.push(member("range", lsp_range(range)));
        let sev = match severity {
            Some(s) => JsonValue::UInt(
                if 1 <= s && s <= 4 {
                    s as u64
                } else {
                    2
                },
            ),
            None => JsonValue::Null,
        };
        ms.push(member("severity", sev));
        let c = match code {
            Some(LspCode::Number(n)) => i32_json(n),
            Some(LspCode::Text(t)) => JsonValue::Str(t),
            None => JsonValue::Null,
        };
        ms.push(member("code", c));
        let src = match source {
            Some(t) => JsonValue::Str(t),
            None => JsonValue::Null,
        };
        ms.push(member("source", src));
        ms.push(member("message", JsonValue::Str(message)));
        let ghost base = ms@;
        match tags {
            Some(ts) => {
                let mut values: Vec<JsonValue> = Vec::new();
                let mut i: usize = 0;
                while i < ts.len()
                    invariant
                        i <= ts.len(),
                        values@.len() == i,
                        forall|j: int| 0 <= j < i ==> #[trigger] values@[j] == JsonValue::UInt(sent_tag(ts@[j])),
                    decreases ts.len() - i,
                {
                    let t = ts[i];
                    values.push(JsonValue::UInt(
                        if t == 1 || t == 2 {
                            t as u64
                        } else {
                            0
                        },
                    ));
                    i = i + 1;
                }
                ms.push(member("tags", JsonValue::Arr(values)));
            },
            None => {},
        }
        let ghost with_tags = ms@;
        match data {
            Some(x) => {
                ms.push(member("data", x));
            },
            None => {},
        }
        let ghost with_data = ms@;
        match related_information {
            Some(rs) => {
                let mut items: Vec<JsonValue> = Vec::new();
                let mut i: usize = 0;
                while i < rs.len()
                    invariant
                        i <= rs.len(),
                        items@.len() == i,
                        forall|j: int| 0 <= j < i ==> is_lsp_related(#[trigger] items@[j], rs@[j]),
                    decreases rs.len() - i,
                {
                    let ri = &rs[i];
                    let mut loc: Vec<JsonMember> = Vec::new();
                    loc.push(member("uri", str_value(ri.uri.as_str())));
                    loc.push(member("range", lsp_range(ri.range)));
                    let mut m: Vec<JsonMember> = Vec::new();
                    m.push(member("location", JsonValue::Obj(loc)));
                    m.push(member("message", str_value(ri.message.as_str())));
                    items.push(JsonValue::Obj(m));
                    i = i + 1;
                }
                ms.push(member("relatedInformation", JsonValue::Arr(items)));
            },
            None => {},
        }
        proof {
            assert(ms@[0] == base[0] && ms@[1] == base[1] && ms@[2] == base[2] && ms@[3] == base[3] && ms@[4] == base[4]);
            if d0.tags is Some {
                assert(ms@[5] == with_tags[5]);
            }
            if d0.data is Some {
                let k: int = if d0.tags is Some { 6 } else { 5 };
                assert(ms@[k] == with_data[k]);
            }
        }
        JsonValue::Obj(ms)
    }
}

/// A pull-diagnostics report for one document.
pub enum DocumentReport {
    /// The diagnostics of the document, with the id of this result.
    Full { result_id: Option<String>, items: Vec<LspDiagnostic> },
    /// The diagnostics did not change since the result with this id.
    Unchanged { result_id: String },
}

impl LspServer {
    /// The JSON form of a document report, with the Perl::Critic
    /// diagnostics of the document (`critic`, each with what the code
    /// catalogue knows of its code) added after the report's own items.
    pub fn document_report_to_json(report: DocumentReport, text: &str, uri: &str, critic: &Vec<CheckedDiagnostic>) -> (r: JsonValue)
        requires
            text@.len() <= 0x7fff_ffff,
        ensures
            ({
                let ms = members_of(r);
                &&& r is Obj
                &&& match report {
                    DocumentReport::Full { result_id, items } => {
                        &&& ms.len() == 3
                        &&& ms[0].key@ == "kind"@
                        &&& is_str(ms[0].value, "full"@)
                        &&& ms[1].key@ == "resultId"@
                        &&& match result_id {
                            Some(id) => is_str(ms[1].value, id@),
                            None => ms[1].value is Null,
                        }
                        &&& ms[2].key@ == "items"@
                        &&& (ms[2].value matches JsonValue::Arr(a) && a@.len() == items@.len() + critic@.len() && (forall|i: int|
                            0 <= i < items@.len() ==> is_lsp_diagnostic_json(#[trigger] a@[i], items@[i])) && (forall|i: int|
                            0 <= i < critic@.len() ==> is_diagnostic_of(
                                a@[items@.len() + i],
                                text@,
                                uri@,
                                #[trigger] critic@[i].diagnostic,
                                critic@[i].known_code,
                                false,
                            )))
                    },
                    DocumentReport::Unchanged { result_id } => {
                        &&& ms.len() == 2
                        &&& ms[0].key@ == "kind"@
                        &&& is_str(ms[0].value, "unchanged"@)
                        &&& ms[1].key@ == "resultId"@
                        &&& is_str(ms[1].value, result_id@)
                    },
                }
            }),
    {
        let ghost rep = report;
        match report {
            DocumentReport::Full { result_id, items } => {
                let ghost all = items@;
                let mut out: Vec<JsonValue> = Vec::new();
                let mut rest = items;
                while rest.len() > 0
                    invariant
                        out@.len() + rest@.len() == all.len(),
                        rest@ == all.skip(out@.len() as int),
                        forall|j: int| 0 <= j < out@.len() ==> is_lsp_diagnostic_json(#[trigger] out@[j], all[j]),
                    decreases rest.len(),
                {
                    let ghost k = out@.len() as int;
                    let d = rest.remove(0);
                    assert(d == all[k]);
                    out.push(LspServer::lsp_diagnostic_to_json(d));
                    assert(rest@ =~= all.skip(out@.len() as int));
                }
                let base = out.len();
                let mut j: usize = 0;
                while j < critic.len()
                    invariant
                        j <= critic.len(),
                        text@.len() <= 0x7fff_ffff,
                        base == all.len(),
                        out@.len() == base + j,
                        forall|i: int| 0 <= i < base ==> is_lsp_diagnostic_json(#[trigger] out@[i], all[i]),
                        forall|i: int|
                            0 <= i < j ==> is_diagnostic_of(
                                out@[base + i],
                                text@,
                                uri@,
                                #[trigger] critic@[i].diagnostic,
                                critic@[i].known_code,
                                false,
                            ),
                    decreases critic.len() - j,
                {
                    let cd = &critic[j];
                    let known: Option<&KnownCode> = match &cd.known_code {
                        Some(k) => Some(k),
                        None => None,
                    };
                    out.push(LspServer::diagnostic_to_json(text, uri, &cd.diagnostic, known, false));
                    j = j + 1;
                }
                let id = match result_id {
                    Some(id) => JsonValue::Str(id),
                    None => JsonValue::Null,
                };
                let mut ms: Vec<JsonMember> = Vec::new();
                ms.push(member("kind", str_value("full")));
                ms.push(member("resultId", id));
                ms.push(member("items", JsonValue::Arr(out)));
                JsonValue::Obj(ms)
            },
            DocumentReport::Unchanged { result_id } => {
                let mut ms: Vec<JsonMember> = Vec::new();
                ms.push(member("kind", str_value("unchanged")));
                ms.push(member("resultId", JsonValue::Str(result_id)));
                JsonValue::Obj(ms)
            },
        }
    }
}

} // verus!

verus! {

/// The Perl::Critic policies with a quick fix are exactly these six:
/// bareword file handles, brief open, three-argument open, `use strict`,
/// `use warnings` and unused variables; without a catalogue entry no other
/// code is fixable, and with one a fixable policy stays fixable.
pub proof fn lemma_fixable_policies_are_the_six(code: Seq<char>, known: Option<KnownCode>)
    ensures
        fixable_code(code, None) <==> (
            code == "InputOutput::ProhibitBarewordFileHandles"@
            || code == "InputOutput::RequireBriefOpen"@
            || code == "InputOutput::RequireThreeArgOpen"@
            || code == "TestingAndDebugging::RequireUseStrict"@
            || code == "TestingAndDebugging::RequireUseWarnings"@
            || code == "Variables::ProhibitUnusedVariables"@
        ),
        fixable_code(code, None) ==> fixable_code(code, known),
{
}

} // verus!
