//! Pushed diagnostics: what a `textDocument/publishDiagnostics`
//! notification carries, and when one is sent at all.
use vstd::prelude::*;
use crate::json::{JsonValue, JsonMember, member, str_value, range_value, is_str, members_of};
use crate::lifecycle::LspServer;
use crate::text::owned;
use crate::diagnostics::{DiagnosticTag, tag_number};
use crate::diagnostic_json::{InternalDiagnostic, DiagnosticSeverity, severity_number, is_range_of, is_tag_numbers, is_int};
use crate::document::{offset_to_position_in, position_of_offset};
use vstd::string::StringSliceAdditionalSpecFns;

verus! {

/// A parse error as the parser reports it.
pub enum ParseError {
    UnexpectedToken { location: usize, expected: String, found: String },
    SyntaxError { location: usize, message: String },
    UnexpectedEof,
    LexerError { message: String },
    /// Any other error, with the text it displays as.
    Other { display: String },
}

/// A parse error with the hint the analyzer has for it, if any.
pub struct ReportedParseError {
    pub error: ParseError,
    pub hint: Option<String>,
}

/// The number of bytes of `text` in UTF-8.
pub open spec fn text_bytes(text: Seq<char>) -> nat {
    vstd::utf8::encode_utf8(text).len()
}

/// Where a parse error is reported (a byte offset into a text of
/// `text_bytes` bytes) and its message before any hint.
pub open spec fn parse_error_place(e: ParseError, text_bytes: nat) -> (nat, Seq<char>) {
    match e {
        ParseError::UnexpectedToken { location, expected, found } => (
            location as nat,
            "Expected "@ + expected@ + ", found "@ + found@,
        ),
        ParseError::SyntaxError { location, message } => (location as nat, message@),
        ParseError::UnexpectedEof => (text_bytes, "Unexpected end of input"@),
        ParseError::LexerError { message } => (0, message@),
        ParseError::Other { display } => (0, display@),
    }
}

/// The message of a reported parse error: with `\nSuggestion: ` and the
/// hint when there is one.
pub open spec fn parse_error_message(r: ReportedParseError, text_bytes: nat) -> Seq<char> {
    let base = parse_error_place(r.error, text_bytes).1;
    match r.hint {
        Some(h) => base + "\nSuggestion: "@ + h@,
        None => base,
    }
}

/// `v` is the diagnostic of a parse error of `text`: one character wide at
/// its place, an error, coded `code`, from `perl-parser`.
pub open spec fn is_parse_error_of(v: JsonValue, text: Seq<char>, r: ReportedParseError, code: Seq<char>) -> bool {
    let bytes = text_bytes(text);
    let at = position_of_offset(text, parse_error_place(r.error, bytes).0 as int);
    let ms = members_of(v);
    &&& v is Obj
    &&& ms.len() == 5
    &&& ms[0].key@ == "range"@
    &&& is_range_of(ms[0].value, at, (at.0, at.1 + 1))
    &&& ms[1].key@ == "severity"@
    &&& ms[1].value == JsonValue::UInt(1)
    &&& ms[2].key@ == "code"@
    &&& is_str(ms[2].value, code)
    &&& ms[3].key@ == "source"@
    &&& is_str(ms[3].value, "perl-parser"@)
    &&& ms[4].key@ == "message"@
    &&& is_str(ms[4].value, parse_error_message(r, bytes))
}

/// `v` is the pushed form of `d`: range, severity, code, source
/// `perl-parser` and message, then the tag numbers when it has tags.
pub open spec fn is_pushed_diagnostic_of(v: JsonValue, text: Seq<char>, d: InternalDiagnostic) -> bool {
    let ms = members_of(v);
    &&& v is Obj
    &&& ms.len() == if d.tags@.len() > 0 { 6int } else { 5int }
    &&& ms[0].key@ == "range"@
    &&& is_range_of(ms[0].value, position_of_offset(text, d.range.0 as int), position_of_offset(text, d.range.1 as int))
    &&& ms[1].key@ == "severity"@
    &&& ms[1].value == JsonValue::UInt(severity_number(d.severity))
    &&& ms[2].key@ == "code"@
    &&& match d.code {
        Some(c) => is_str(ms[2].value, c@),
        None => ms[2].value is Null,
    }
    &&& ms[3].key@ == "source"@
    &&& is_str(ms[3].value, "perl-parser"@)
    &&& ms[4].key@ == "message"@
    &&& is_str(ms[4].value, d.message@)
    &&& d.tags@.len() > 0 ==> (ms[5].key@ == "tags"@ && is_tag_numbers(ms[5].value, d.tags@))
}

/// `v` is `{"uri": uri, "version": version, "diagnostics": diagnostics}`.
pub open spec fn is_publish_params(v: JsonValue, uri: Seq<char>, version: i32, diagnostics: Seq<JsonValue>) -> bool {
    let ms = members_of(v);
    &&& v is Obj
    &&& ms.len() == 3
    &&& ms[0].key@ == "uri"@
    &&& is_str(ms[0].value, uri)
    &&& ms[1].key@ == "version"@
    &&& is_int(ms[1].value, version as int)
    &&& ms[2].key@ == "diagnostics"@
    &&& ms[2].value matches JsonValue::Arr(a) && a@ == diagnostics
}

fn int_json(n: i32) -> (r: JsonValue)
    ensures
        is_int(r, n as int),
{
    if n >= 0 {
        JsonValue::UInt(n as u64)
    } else {
        JsonValue::NegInt(n as i64)
    }
}

fn publish_params(uri: &str, version: i32, diagnostics: Vec<JsonValue>) -> (r: JsonValue)
    ensures
        is_publish_params(r, uri@, version, diagnostics@),
{
    let mut ms: Vec<JsonMember> = Vec::new();
    ms.push(member("uri", str_value(uri)));
    ms.push(member("version", int_json(version)));
    ms.push(member("diagnostics", JsonValue::Arr(diagnostics)));
    JsonValue::Obj(ms)
}

impl LspServer {
    /// The diagnostic of a parse error of `text`, with the code that the
    /// catalogue gives parse errors.
    pub fn parse_error_to_json(text: &str, reported: &ReportedParseError, code: &str) -> (r: JsonValue)
        requires
            text@.len() <= 0x7fff_ffff,
        ensures
            is_parse_error_of(r, text@, *reported, code@),
    {
        let (location, mut message): (usize, String) = match &reported.error {
            ParseError::UnexpectedToken { location, expected, found } => {
                let mut m = owned("Expected ");
                m.append(expected.as_str());
                m.append(", found ");
                m.append(found.as_str());
                (*location, m)
            },
            ParseError::SyntaxError { location, message } => (*location, owned(message.as_str())),
            ParseError::UnexpectedEof => (text.as_bytes().len(), owned("Unexpected end of input")),
            ParseError::LexerError { message } => (0, owned(message.as_str())),
            ParseError::Other { display } => (0, owned(display.as_str())),
        };
        match &reported.hint {
            Some(h) => {
                message.append("\nSuggestion: ");
                message.append(h.as_str());
            },
            None => {},
        }
        let at = offset_to_position_in(text, location);
        let mut ms: Vec<JsonMember> = Vec::new();
        ms.push(member("range", range_value(at.0 as u64, at.1 as u64, at.0 as u64, at.1 as u64 + 1)));
        ms.push(member("severity", JsonValue::UInt(1)));
        ms.push(member("code", str_value(code)));
        ms.push(member("source", str_value("perl-parser")));
        ms.push(member("message", JsonValue::Str(message)));
        JsonValue::Obj(ms)
    }

    /// The pushed form of a diagnostic of `text`.
    pub fn push_diagnostic_to_json(text: &str, d: &InternalDiagnostic) -> (r: JsonValue)
        requires
            text@.len() <= 0x7fff_ffff,
        ensures
            is_pushed_diagnostic_of(r, text@, *d),
    {
        let s = offset_to_position_in(text, d.range.0);
        let e = offset_to_position_in(text, d.range.1);
        let mut ms: Vec<JsonMember> = Vec::new();
        ms.push(member("range", range_value(s.0 as u64, s.1 as u64, e.0 as u64, e.1 as u64)));
        let severity: u64 = match d.severity {
            DiagnosticSeverity::Error => 1,
            DiagnosticSeverity::Warning => 2,
            DiagnosticSeverity::Information => 3,
            DiagnosticSeverity::Hint => 4,
        };
        ms.push(member("severity", JsonValue::UInt(severity)));
        let code_value = match &d.code {
            Some(c) => str_value(c.as_str()),
            None => JsonValue::Null,
        };
        ms.push(member("code", code_value));
        ms.push(member("source", str_value("perl-parser")));
        ms.push(member("message", str_value(d.message.as_str())));
        let ghost base = ms@;
        if d.tags.len() > 0 {
            let numbers = LspServer::diagnostic_tags_to_lsp(&d.tags);
            let mut values: Vec<JsonValue> = Vec::new();
            let mut i: usize = 0;
            while i < numbers.len()
                invariant
                    i <= numbers.len(),
                    numbers@ == d.tags@.map_values(|t: DiagnosticTag| tag_number(t)),
                    values@.len() == i,
                    forall|j: int| 0 <= j < i ==> #[trigger] values@[j] == JsonValue::UInt(tag_number(d.tags@[j]) as u64),
                decreases numbers.len() - i,
            {
                let u: u64 = if numbers[i] == 1 {
                    1
                } else {
                    2
                };
                values.push(JsonValue::UInt(u));
                i = i + 1;
            }
            ms.push(member("tags", JsonValue::Arr(values)));
            assert(ms@[4] == base[4]);
        }
        JsonValue::Obj(ms)
    }

    /// The `publishDiagnostics` parameters to send once the diagnostics of
    /// a document are computed: none when the document changed meanwhile
    /// (its generation moved on) or when the client pulls diagnostics itself.
    pub fn publish_diagnostics_params(
        &self,
        uri: &str,
        version: i32,
        diagnostics: Vec<JsonValue>,
        generation_at_snapshot: u64,
        current_generation: u64,
    ) -> (r: Option<JsonValue>)
        ensures
            (current_generation != generation_at_snapshot || self.client_supports_pull_diags) ==> r is None,
            (current_generation == generation_at_snapshot && !self.client_supports_pull_diags) ==> (r matches Some(v)
                && is_publish_params(v, uri@, version, diagnostics@)),
    {
        if current_generation != generation_at_snapshot {
            return None;
        }
        if self.client_supports_pull_diags {
            return None;
        }
        Some(publish_params(uri, version, diagnostics))
    }

    /// The fast `publishDiagnostics` parameters for the parse errors of a
    /// document, sent before the full analysis: only to clients that do not
    /// pull diagnostics, and only when there are parse errors.
    pub fn publish_parse_errors_fast(
        &self,
        uri: &str,
        version: i32,
        text: &str,
        errors: &Vec<ReportedParseError>,
        code: &str,
    ) -> (r: Option<JsonValue>)
        requires
            text@.len() <= 0x7fff_ffff,
        ensures
            (self.client_supports_pull_diags || errors@.len() == 0) ==> r is None,
            (!self.client_supports_pull_diags && errors@.len() > 0) ==> (r matches Some(v) && {
                let ms = members_of(v);
                &&& v is Obj
                &&& ms.len() == 3
                &&& ms[0].key@ == "uri"@
                &&& is_str(ms[0].value, uri@)
                &&& ms[1].key@ == "version"@
                &&& is_int(ms[1].value, version as int)
                &&& ms[2].key@ == "diagnostics"@
                &&& ms[2].value matches JsonValue::Arr(a) && a@.len() == errors@.len() && forall|i: int|
                    0 <= i < a@.len() ==> is_parse_error_of(#[trigger] a@[i], text@, errors@[i], code@)
            }),
    {
        if self.client_supports_pull_diags {
            return None;
        }
        if errors.len() == 0 {
            return None;
        }
        let mut out: Vec<JsonValue> = Vec::new();
        let mut i: usize = 0;
        while i < errors.len()
            invariant
                i <= errors.len(),
                text@.len() <= 0x7fff_ffff,
                out@.len() == i,
                forall|j: int| 0 <= j < i ==> is_parse_error_of(#[trigger] out@[j], text@, errors@[j], code@),
            decreases errors.len() - i,
        {
            out.push(LspServer::parse_error_to_json(text, &errors[i], code));
            i = i + 1;
        }
        Some(publish_params(uri, version, out))
    }
}

} // verus!
