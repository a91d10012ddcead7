//! Code actions for a document that parsed: the quick fixes, refactorings
//! and commands that the analyzers propose, turned into LSP code actions.
use vstd::prelude::*;
use crate::json::{JsonValue, JsonMember, member, str_value, range_value, members_of, spec_get, spec_as_str, spec_as_u64};
use crate::lifecycle::LspServer;
use crate::text::{owned, str_eq};
use crate::code_actions::{FixAllRange, range_of, edit_range, text_or_empty, str_member_at, keep_requested, fix_all_fold, is_fix_all_action, build_source_fix_all, retain_requested_code_action_kinds};
use crate::diagnostic_json::{InternalDiagnostic, DiagnosticSeverity, severity_number, shown_message};
use crate::document::{offset_to_position_in, position_of_offset, position_to_offset_in, offset_of_position, byte_len};
use crate::publish::text_bytes;

verus! {

/// How serious a Perl::Critic violation is, from gentle to brutal.
#[derive(Clone, Copy, Debug, PartialEq, Eq, Structural)]
pub enum CriticSeverity {
    Gentle,
    Stern,
    Harsh,
    Cruel,
    Brutal,
}

/// The LSP severity of a violation: gentle ones are errors, stern and
/// harsh ones warnings, cruel ones information, brutal ones hints.
pub open spec fn critic_severity_number(s: CriticSeverity) -> u64 {
    match s {
        CriticSeverity::Gentle => 1,
        CriticSeverity::Stern => 2,
        CriticSeverity::Harsh => 2,
        CriticSeverity::Cruel => 3,
        CriticSeverity::Brutal => 4,
    }
}

/// The kinds of code action the providers produce.
#[derive(Clone, Copy, Debug, PartialEq, Eq, Structural)]
pub enum ActionKind {
    QuickFix,
    Refactor,
    RefactorExtract,
    RefactorInline,
    RefactorRewrite,
    Source,
    SourceOrganizeImports,
    SourceFixAll,
    SourceModernize,
}

/// The LSP name of an action kind.
pub open spec fn kind_name(k: ActionKind) -> Seq<char> {
    match k {
        ActionKind::QuickFix => "quickfix"@,
        ActionKind::Refactor => "refactor"@,
        ActionKind::RefactorExtract => "refactor.extract"@,
        ActionKind::RefactorInline => "refactor.inline"@,
        ActionKind::RefactorRewrite => "refactor.rewrite"@,
        ActionKind::Source => "source"@,
        ActionKind::SourceOrganizeImports => "source.organizeImports"@,
        ActionKind::SourceFixAll => "source.fixAll"@,
        ActionKind::SourceModernize => "source.modernize"@,
    }
}

fn kind_text(k: ActionKind) -> (r: &'static str)
    ensures
        r@ == kind_name(k),
{
    match k {
        ActionKind::QuickFix => "quickfix",
        ActionKind::Refactor => "refactor",
        ActionKind::RefactorExtract => "refactor.extract",
        ActionKind::RefactorInline => "refactor.inline",
        ActionKind::RefactorRewrite => "refactor.rewrite",
        ActionKind::Source => "source",
        ActionKind::SourceOrganizeImports => "source.organizeImports",
        ActionKind::SourceFixAll => "source.fixAll",
        ActionKind::SourceModernize => "source.modernize",
    }
}

/// A replacement of a byte range of the document.
pub struct TextEditAt {
    pub range: (usize, usize),
    pub new_text: String,
}

/// A Perl::Critic violation with the quick fix its policy offers.
pub struct CriticQuickFix {
    pub range: (usize, usize),
    pub severity: CriticSeverity,
    pub policy: String,
    pub description: String,
    pub title: String,
    pub new_text: String,
}

/// A quick fix proposed for a diagnostic: one edit, and the code and range
/// of the diagnostic it fixes, when known.
pub struct DiagnosticFix {
    pub title: String,
    pub kind: ActionKind,
    pub edit: TextEditAt,
    pub diagnostic_id: Option<String>,
    pub diagnostic_range: Option<(usize, usize)>,
}

/// A refactoring: a titled set of edits of the document.
pub struct RefactorAction {
    pub title: String,
    pub kind: ActionKind,
    pub edits: Vec<TextEditAt>,
}

/// A subroutine a test can be generated for, with the generated test.
pub struct TestTarget {
    pub name: String,
    pub test_code: String,
}

/// What the analyzers propose for a document.
pub struct CodeActionInputs {
    pub critic_fixes: Vec<CriticQuickFix>,
    pub diagnostic_fixes: Vec<DiagnosticFix>,
    pub diagnostics: Vec<InternalDiagnostic>,
    pub refactorings: Vec<RefactorAction>,
    pub enhanced_refactorings: Vec<RefactorAction>,
    pub test_targets: Vec<TestTarget>,
    pub pragma_actions: Vec<JsonValue>,
}

/// The LSP range of a byte span of `text`.
pub open spec fn span_range(text: Seq<char>, r: (usize, usize)) -> FixAllRange {
    let s = position_of_offset(text, r.0 as int);
    let e = position_of_offset(text, r.1 as int);
    FixAllRange { start_line: s.0 as u64, start_char: s.1 as u64, end_line: e.0 as u64, end_char: e.1 as u64 }
}

/// `v` is a text edit `{"range": .., "newText": ..}` over `range`.
pub open spec fn is_edit_of(v: JsonValue, range: FixAllRange, new_text: Seq<char>) -> bool {
    &&& v is Obj
    &&& members_of(v).len() == 2
    &&& members_of(v)[0].key@ == "range"@
    &&& members_of(v)[1].key@ == "newText"@
    &&& edit_range(v) == Some(range)
    &&& text_or_empty(v, "newText"@) == new_text
}

/// The edits that `edit` (`{"changes": {uri: [...]}}`) makes to `uri`.
pub open spec fn changes_for(edit: JsonValue, uri: Seq<char>) -> Option<Seq<JsonValue>> {
    let ms = members_of(edit);
    if edit is Obj && ms.len() == 1 && ms[0].key@ == "changes"@ {
        let cs = members_of(ms[0].value);
        if ms[0].value is Obj && cs.len() == 1 && cs[0].key@ == uri {
            match cs[0].value {
                JsonValue::Arr(es) => Some(es@),
                _ => None,
            }
        } else {
            None
        }
    } else {
        None
    }
}

/// `edits` are the edits of `tes`, in order, positions taken in `text`.
pub open spec fn edits_match(edits: Seq<JsonValue>, text: Seq<char>, tes: Seq<TextEditAt>) -> bool {
    &&& edits.len() == tes.len()
    &&& forall|i: int| 0 <= i < edits.len() ==> is_edit_of(#[trigger] edits[i], span_range(text, tes[i].range), tes[i].new_text@)
}

/// `v` is the diagnostic a Perl::Critic quick fix addresses.
pub open spec fn is_critic_diagnostic(v: JsonValue, text: Seq<char>, f: CriticQuickFix) -> bool {
    &&& v is Obj
    &&& members_of(v).len() == 5
    &&& members_of(v)[0].key@ == "range"@
    &&& range_of(members_of(v)[0].value) == Some(span_range(text, f.range))
    &&& members_of(v)[1].key@ == "severity"@
    &&& members_of(v)[1].value == JsonValue::UInt(critic_severity_number(f.severity))
    &&& str_member_at(v, 2, "code"@, f.policy@)
    &&& str_member_at(v, 3, "source"@, "Perl::Critic"@)
    &&& str_member_at(v, 4, "message"@, f.description@)
}

/// `v` is the quick-fix action of a Perl::Critic violation.
pub open spec fn is_critic_action(v: JsonValue, text: Seq<char>, uri: Seq<char>, f: CriticQuickFix) -> bool {
    let ms = members_of(v);
    &&& v is Obj
    &&& ms.len() == 4
    &&& str_member_at(v, 0, "title"@, f.title@)
    &&& str_member_at(v, 1, "kind"@, "quickfix"@)
    &&& ms[2].key@ == "diagnostics"@
    &&& (ms[2].value matches JsonValue::Arr(ds) && ds@.len() == 1 && is_critic_diagnostic(ds@[0], text, f))
    &&& ms[3].key@ == "edit"@
    &&& (changes_for(ms[3].value, uri) matches Some(es) && es.len() == 1 && is_edit_of(
        es[0],
        span_range(text, f.range),
        f.new_text@,
    ))
}

/// The first diagnostic with the given code and range.
pub open spec fn associated(diags: Seq<InternalDiagnostic>, code: Seq<char>, range: (usize, usize)) -> Option<InternalDiagnostic>
    decreases diags.len(),
{
    if diags.len() == 0 {
        None
    } else if (diags[0].code matches Some(c) && c@ == code) && diags[0].range == range {
        Some(diags[0])
    } else {
        associated(diags.drop_first(), code, range)
    }
}

/// The diagnostic a quick fix is tied to: the first one with the fix's
/// diagnostic code and range, when the fix names both.
pub open spec fn fix_diagnostic(f: DiagnosticFix, diags: Seq<InternalDiagnostic>) -> Option<InternalDiagnostic> {
    match (f.diagnostic_id, f.diagnostic_range) {
        (Some(id), Some(range)) => associated(diags, id@, range),
        _ => None,
    }
}

/// `v` is a diagnostic that a quick fix addresses, as the server reports it.
pub open spec fn is_fixed_diagnostic(v: JsonValue, text: Seq<char>, d: InternalDiagnostic) -> bool {
    &&& v is Obj
    &&& members_of(v).len() == 5
    &&& members_of(v)[0].key@ == "range"@
    &&& range_of(members_of(v)[0].value) == Some(span_range(text, d.range))
    &&& members_of(v)[1].key@ == "severity"@
    &&& members_of(v)[1].value == JsonValue::UInt(severity_number(d.severity))
    &&& (d.code matches Some(c) && str_member_at(v, 2, "code"@, c@))
    &&& str_member_at(v, 3, "source"@, "perl-lsp"@)
    &&& str_member_at(v, 4, "message"@, shown_message(d, true))
}

/// `v` is the action of a diagnostic quick fix: title, kind, the one edit,
/// and the diagnostic it fixes when there is one.
pub open spec fn is_fix_action(v: JsonValue, text: Seq<char>, uri: Seq<char>, f: DiagnosticFix, diags: Seq<InternalDiagnostic>) -> bool {
    let ms = members_of(v);
    let d = fix_diagnostic(f, diags);
    &&& v is Obj
    &&& ms.len() == if d is Some { 4int } else { 3int }
    &&& str_member_at(v, 0, "title"@, f.title@)
    &&& str_member_at(v, 1, "kind"@, kind_name(f.kind))
    &&& ms[2].key@ == "edit"@
    &&& (changes_for(ms[2].value, uri) matches Some(es) && es.len() == 1 && is_edit_of(
        es[0],
        span_range(text, f.edit.range),
        f.edit.new_text@,
    ))
    &&& (d matches Some(x) ==> (ms[3].key@ == "diagnostics"@ && (ms[3].value matches JsonValue::Arr(ds)
        && ds@.len() == 1 && is_fixed_diagnostic(ds@[0], text, x))))
}

/// `v` is the action of a refactoring: title, kind and all its edits.
pub open spec fn is_refactor_action(v: JsonValue, text: Seq<char>, uri: Seq<char>, a: RefactorAction) -> bool {
    let ms = members_of(v);
    &&& v is Obj
    &&& ms.len() == 3
    &&& str_member_at(v, 0, "title"@, a.title@)
    &&& str_member_at(v, 1, "kind"@, kind_name(a.kind))
    &&& ms[2].key@ == "edit"@
    &&& (changes_for(ms[2].value, uri) matches Some(es) && edits_match(es, text, a.edits@))
}

/// `v` is the command that generates the test of `t`.
pub open spec fn is_test_action(v: JsonValue, uri: Seq<char>, t: TestTarget) -> bool {
    let ms = members_of(v);
    let c = ms[2].value;
    &&& v is Obj
    &&& ms.len() == 3
    &&& str_member_at(v, 0, "title"@, "Generate test for '"@ + t.name@ + "'"@)
    &&& str_member_at(v, 1, "kind"@, "source"@)
    &&& ms[2].key@ == "command"@
    &&& c is Obj
    &&& members_of(c).len() == 3
    &&& str_member_at(c, 0, "title"@, "Generate test"@)
    &&& str_member_at(c, 1, "command"@, "perl.generateTest"@)
    &&& members_of(c)[2].key@ == "arguments"@
    &&& (members_of(c)[2].value matches JsonValue::Arr(args) && args@.len() == 1 && args@[0] is Obj
        && members_of(args@[0]).len() == 3 && str_member_at(args@[0], 0, "uri"@, uri) && str_member_at(
        args@[0],
        1,
        "name"@,
        t.name@,
    ) && str_member_at(args@[0], 2, "test"@, t.test_code@))
}

/// Where a pragma is inserted: at byte `at`, or at the end of the document
/// when `at` is past it.
pub open spec fn insertion_point(text: Seq<char>, at: u64) -> (nat, nat) {
    if at >= text_bytes(text) {
        position_of_offset(text, text_bytes(text) as int)
    } else {
        position_of_offset(text, at as int)
    }
}

/// The `(uri, insertAt, text)` of a pragma action's `data`, when all three
/// are there.
pub open spec fn pragma_data(action: JsonValue) -> Option<(Seq<char>, u64, Seq<char>)> {
    match spec_get(action, "data"@) {
        Some(d) => match (
            spec_as_str(spec_get(d, "uri"@)),
            spec_as_u64(spec_get(d, "insertAt"@)),
            spec_as_str(spec_get(d, "text"@)),
        ) {
            (Some(u), Some(at), Some(t)) => Some((u, at, t)),
            _ => None,
        },
        None => None,
    }
}

/// `v` is the pragma action `a` with its edit filled in from its `data`
/// (which is dropped); an action without complete data stays as it is.
pub open spec fn is_filled_pragma(v: JsonValue, text: Seq<char>, a: JsonValue) -> bool {
    match pragma_data(a) {
        Some((u, at, t)) => {
            let p = insertion_point(text, at);
            &&& v is Obj
            &&& spec_get(v, "data"@) is None
            &&& (spec_get(v, "edit"@) matches Some(e) && (changes_for(e, u) matches Some(es) && es.len() == 1
                && is_edit_of(
                es[0],
                FixAllRange { start_line: p.0 as u64, start_char: p.1 as u64, end_line: p.0 as u64, end_char: p.1 as u64 },
                t,
            )))
            &&& forall|k: Seq<char>| k != "data"@ && k != "edit"@ ==> #[trigger] spec_get(v, k) == spec_get(a, k)
        },
        None => v == a,
    }
}

/// A text edit over a known range.
fn edit_json(range: JsonValue, new_text: &str, Ghost(r): Ghost<FixAllRange>) -> (v: JsonValue)
    requires
        range_of(range) == Some(r),
    ensures
        is_edit_of(v, r, new_text@),
{
    let mut e: Vec<JsonMember> = Vec::new();
    e.push(member("range", range));
    e.push(member("newText", str_value(new_text)));
    proof {
        reveal_strlit("range");
        reveal_strlit("newText");
        assert("range"@ != "newText"@) by {
            assert("range"@.len() != "newText"@.len());
        }
        assert(e@.drop_first()[0] == e@[1]);
        assert(crate::json::member_value(e@.drop_first(), "newText"@) == Some(e@[1].value));
    }
    JsonValue::Obj(e)
}

/// The LSP range of a byte span of `text`.
fn span_json(text: &str, r: (usize, usize)) -> (v: JsonValue)
    requires
        text@.len() <= 0x7fff_ffff,
    ensures
        range_of(v) == Some(span_range(text@, r)),
{
    let s = offset_to_position_in(text, r.0);
    let e = offset_to_position_in(text, r.1);
    range_value(s.0 as u64, s.1 as u64, e.0 as u64, e.1 as u64)
}

/// `{"changes": {uri: edits}}`.
fn changes_json(uri: &str, edits: Vec<JsonValue>) -> (v: JsonValue)
    ensures
        changes_for(v, uri@) == Some(edits@),
{
    let mut c: Vec<JsonMember> = Vec::new();
    c.push(member(uri, JsonValue::Arr(edits)));
    let mut ms: Vec<JsonMember> = Vec::new();
    ms.push(member("changes", JsonValue::Obj(c)));
    JsonValue::Obj(ms)
}

fn critic_action(text: &str, uri: &str, f: &CriticQuickFix) -> (v: JsonValue)
    requires
        text@.len() <= 0x7fff_ffff,
    ensures
        is_critic_action(v, text@, uri@, *f),
{
    let severity: u64 = match f.severity {
        CriticSeverity::Gentle => 1,
        CriticSeverity::Stern => 2,
        CriticSeverity::Harsh => 2,
        CriticSeverity::Cruel => 3,
        CriticSeverity::Brutal => 4,
    };
    let mut d: Vec<JsonMember> = Vec::new();
    d.push(member("range", span_json(text, f.range)));
    d.push(member("severity", JsonValue::UInt(severity)));
    d.push(member("code", str_value(f.policy.as_str())));
    d.push(member("source", str_value("Perl::Critic")));
    d.push(member("message", str_value(f.description.as_str())));
    let mut ds: Vec<JsonValue> = Vec::new();
    ds.push(JsonValue::Obj(d));
    let edit = edit_json(span_json(text, f.range), f.new_text.as_str(), Ghost(span_range(text@, f.range)));
    let mut edits: Vec<JsonValue> = Vec::new();
    edits.push(edit);
    let mut ms: Vec<JsonMember> = Vec::new();
    ms.push(member("title", str_value(f.title.as_str())));
    ms.push(member("kind", str_value("quickfix")));
    ms.push(member("diagnostics", JsonValue::Arr(ds)));
    ms.push(member("edit", changes_json(uri, edits)));
    JsonValue::Obj(ms)
}

fn find_associated<'a>(diags: &'a Vec<InternalDiagnostic>, code: &str, range: (usize, usize)) -> (r: Option<&'a InternalDiagnostic>)
    ensures
        match r {
            Some(d) => associated(diags@, code@, range) == Some(*d),
            None => associated(diags@, code@, range) is None,
        },
        r matches Some(d) ==> (d.code matches Some(c) && c@ == code@),
{
    let mut i: usize = 0;
    assert(diags@.skip(0) =~= diags@);
    while i < diags.len()
        invariant
            i <= diags.len(),
            associated(diags@, code@, range) == associated(diags@.skip(i as int), code@, range),
        decreases diags.len() - i,
    {
        assert(diags@.skip(i as int).drop_first() =~= diags@.skip(i + 1));
        assert(diags@.skip(i as int)[0] == diags@[i as int]);
        let d = &diags[i];
        let same_code = match &d.code {
            Some(c) => str_eq(c.as_str(), code),
            None => false,
        };
        if same_code && d.range.0 == range.0 && d.range.1 == range.1 {
            return Some(d);
        }
        i = i + 1;
    }
    None
}

fn fix_action(text: &str, uri: &str, f: &DiagnosticFix, diags: &Vec<InternalDiagnostic>) -> (v: JsonValue)
    requires
        text@.len() <= 0x7fff_ffff,
    ensures
        is_fix_action(v, text@, uri@, *f, diags@),
{
    let edit = edit_json(span_json(text, f.edit.range), f.edit.new_text.as_str(), Ghost(span_range(text@, f.edit.range)));
    let mut edits: Vec<JsonValue> = Vec::new();
    edits.push(edit);
    let mut ms: Vec<JsonMember> = Vec::new();
    ms.push(member("title", str_value(f.title.as_str())));
    ms.push(member("kind", str_value(kind_text(f.kind))));
    ms.push(member("edit", changes_json(uri, edits)));
    let found: Option<&InternalDiagnostic> = match (&f.diagnostic_id, f.diagnostic_range) {
        (Some(id), Some(range)) => find_associated(diags, id.as_str(), range),
        _ => None,
    };
    match found {
        Some(d) => {
            let severity: u64 = match d.severity {
                DiagnosticSeverity::Error => 1,
                DiagnosticSeverity::Warning => 2,
                DiagnosticSeverity::Information => 3,
                DiagnosticSeverity::Hint => 4,
            };
            let code = match &d.code {
                Some(c) => str_value(c.as_str()),
                None => JsonValue::Null,
            };
            let mut message = owned(d.message.as_str());
            match &d.suggestion {
                Some(s) => {
                    message.append("\nSuggestion: ");
                    message.append(s.as_str());
                },
                None => {},
            }
            let mut dm: Vec<JsonMember> = Vec::new();
            dm.push(member("range", span_json(text, d.range)));
            dm.push(member("severity", JsonValue::UInt(severity)));
            dm.push(member("code", code));
            dm.push(member("source", str_value("perl-lsp")));
            dm.push(member("message", JsonValue::Str(message)));
            let mut ds: Vec<JsonValue> = Vec::new();
            ds.push(JsonValue::Obj(dm));
            let ghost before = ms@;
            ms.push(member("diagnostics", JsonValue::Arr(ds)));
            assert(ms@[0] == before[0] && ms@[1] == before[1] && ms@[2] == before[2]);
            assert(fix_diagnostic(*f, diags@) == Some(*d));
        },
        None => {
            assert(fix_diagnostic(*f, diags@) is None);
        },
    }
    JsonValue::Obj(ms)
}

fn refactor_action(text: &str, uri: &str, a: &RefactorAction) -> (v: JsonValue)
    requires
        text@.len() <= 0x7fff_ffff,
    ensures
        is_refactor_action(v, text@, uri@, *a),
{
    let mut edits: Vec<JsonValue> = Vec::new();
    let mut i: usize = 0;
    while i < a.edits.len()
        invariant
            i <= a.edits.len(),
            text@.len() <= 0x7fff_ffff,
            edits@.len() == i,
            forall|j: int|
                0 <= j < i ==> is_edit_of(#[trigger] edits@[j], span_range(text@, a.edits@[j].range), a.edits@[j].new_text@),
        decreases a.edits.len() - i,
    {
        let te = &a.edits[i];
        edits.push(edit_json(span_json(text, te.range), te.new_text.as_str(), Ghost(span_range(text@, te.range))));
        i = i + 1;
    }
    let mut ms: Vec<JsonMember> = Vec::new();
    ms.push(member("title", str_value(a.title.as_str())));
    ms.push(member("kind", str_value(kind_text(a.kind))));
    ms.push(member("edit", changes_json(uri, edits)));
    JsonValue::Obj(ms)
}

fn test_action(uri: &str, t: &TestTarget) -> (v: JsonValue)
    ensures
        is_test_action(v, uri@, *t),
{
    let mut arg: Vec<JsonMember> = Vec::new();
    arg.push(member("uri", str_value(uri)));
    arg.push(member("name", str_value(t.name.as_str())));
    arg.push(member("test", str_value(t.test_code.as_str())));
    let mut args: Vec<JsonValue> = Vec::new();
    args.push(JsonValue::Obj(arg));
    let mut c: Vec<JsonMember> = Vec::new();
    c.push(member("title", str_value("Generate test")));
    c.push(member("command", str_value("perl.generateTest")));
    c.push(member("arguments", JsonValue::Arr(args)));
    let mut title = owned("Generate test for '");
    title.append(t.name.as_str());
    title.append("'");
    let mut ms: Vec<JsonMember> = Vec::new();
    ms.push(member("title", JsonValue::Str(title)));
    ms.push(member("kind", str_value("source")));
    ms.push(member("command", JsonValue::Obj(c)));
    JsonValue::Obj(ms)
}

/// The `(uri, insertAt, text)` of a pragma action's data.
fn read_pragma_data(a: &JsonValue) -> (r: Option<(String, u64, String)>)
    ensures
        match pragma_data(*a) {
            Some((u, at, t)) => r matches Some(x) && x.0@ == u && x.1 == at && x.2@ == t,
            None => r is None,
        },
{
    let d = match a.get("data") {
        Some(d) => d,
        None => return None,
    };
    let u = match d.get("uri") {
        Some(v) => v.as_str(),
        None => None,
    };
    let at = match d.get("insertAt") {
        Some(v) => v.as_u64(),
        None => None,
    };
    let t = match d.get("text") {
        Some(v) => v.as_str(),
        None => None,
    };
    match (u, at, t) {
        (Some(u), Some(at), Some(t)) => Some((owned(u), at, owned(t))),
        _ => None,
    }
}

/// A pragma action with its edit filled in from its data.
fn fill_pragma_edit(text: &str, a: JsonValue) -> (v: JsonValue)
    requires
        text@.len() <= 0x7fff_ffff,
    ensures
        is_filled_pragma(v, text@, a),
{
    let (u, at, t) = match read_pragma_data(&a) {
        Some(x) => x,
        None => return a,
    };
    let bytes = text.as_bytes().len();
    let pos = if at >= bytes as u64 {
        offset_to_position_in(text, bytes)
    } else {
        offset_to_position_in(text, at as usize)
    };
    let ghost p = insertion_point(text@, at);
    assert(pos.0 == p.0 && pos.1 == p.1);
    let range = range_value(pos.0 as u64, pos.1 as u64, pos.0 as u64, pos.1 as u64);
    let e = edit_json(
        range,
        t.as_str(),
        Ghost(FixAllRange { start_line: p.0 as u64, start_char: p.1 as u64, end_line: p.0 as u64, end_char: p.1 as u64 }),
    );
    let mut edits: Vec<JsonValue> = Vec::new();
    edits.push(e);
    let edit = changes_json(u.as_str(), edits);
    let ghost edit_view = edit;
    let with_edit = a.with_member("edit", edit);
    let v = with_edit.without_member("data");
    proof {
        reveal_strlit("data");
        reveal_strlit("edit");
        assert("edit"@ != "data"@) by {
            assert("edit"@[0] != "data"@[0]);
        }
        assert(spec_get(v, "edit"@) == spec_get(with_edit, "edit"@));
    }
    v
}

fn critic_actions(text: &str, uri: &str, fixes: &Vec<CriticQuickFix>) -> (r: Vec<JsonValue>)
    requires
        text@.len() <= 0x7fff_ffff,
    ensures
        r@.len() == fixes@.len(),
        forall|i: int| 0 <= i < r@.len() ==> is_critic_action(#[trigger] r@[i], text@, uri@, fixes@[i]),
{
    let mut out: Vec<JsonValue> = Vec::new();
    let mut i: usize = 0;
    while i < fixes.len()
        invariant
            i <= fixes.len(),
            text@.len() <= 0x7fff_ffff,
            out@.len() == i,
            forall|j: int| 0 <= j < i ==> is_critic_action(#[trigger] out@[j], text@, uri@, fixes@[j]),
        decreases fixes.len() - i,
    {
        out.push(critic_action(text, uri, &fixes[i]));
        i = i + 1;
    }
    out
}

fn fix_actions(text: &str, uri: &str, fixes: &Vec<DiagnosticFix>, diags: &Vec<InternalDiagnostic>) -> (r: Vec<JsonValue>)
    requires
        text@.len() <= 0x7fff_ffff,
    ensures
        r@.len() == fixes@.len(),
        forall|i: int| 0 <= i < r@.len() ==> is_fix_action(#[trigger] r@[i], text@, uri@, fixes@[i], diags@),
{
    let mut out: Vec<JsonValue> = Vec::new();
    let mut i: usize = 0;
    while i < fixes.len()
        invariant
            i <= fixes.len(),
            text@.len() <= 0x7fff_ffff,
            out@.len() == i,
            forall|j: int| 0 <= j < i ==> is_fix_action(#[trigger] out@[j], text@, uri@, fixes@[j], diags@),
        decreases fixes.len() - i,
    {
        out.push(fix_action(text, uri, &fixes[i], diags));
        i = i + 1;
    }
    out
}

fn refactor_actions(text: &str, uri: &str, actions: &Vec<RefactorAction>) -> (r: Vec<JsonValue>)
    requires
        text@.len() <= 0x7fff_ffff,
    ensures
        r@.len() == actions@.len(),
        forall|i: int| 0 <= i < r@.len() ==> is_refactor_action(#[trigger] r@[i], text@, uri@, actions@[i]),
{
    let mut out: Vec<JsonValue> = Vec::new();
    let mut i: usize = 0;
    while i < actions.len()
        invariant
            i <= actions.len(),
            text@.len() <= 0x7fff_ffff,
            out@.len() == i,
            forall|j: int| 0 <= j < i ==> is_refactor_action(#[trigger] out@[j], text@, uri@, actions@[j]),
        decreases actions.len() - i,
    {
        out.push(refactor_action(text, uri, &actions[i]));
        i = i + 1;
    }
    out
}

fn test_actions(uri: &str, targets: &Vec<TestTarget>) -> (r: Vec<JsonValue>)
    ensures
        r@.len() == targets@.len(),
        forall|i: int| 0 <= i < r@.len() ==> is_test_action(#[trigger] r@[i], uri@, targets@[i]),
{
    let mut out: Vec<JsonValue> = Vec::new();
    let mut i: usize = 0;
    while i < targets.len()
        invariant
            i <= targets.len(),
            out@.len() == i,
            forall|j: int| 0 <= j < i ==> is_test_action(#[trigger] out@[j], uri@, targets@[j]),
        decreases targets.len() - i,
    {
        out.push(test_action(uri, &targets[i]));
        i = i + 1;
    }
    out
}

fn filled_pragmas(text: &str, actions: Vec<JsonValue>) -> (r: Vec<JsonValue>)
    requires
        text@.len() <= 0x7fff_ffff,
    ensures
        r@.len() == actions@.len(),
        forall|i: int| 0 <= i < r@.len() ==> is_filled_pragma(#[trigger] r@[i], text@, actions@[i]),
{
    let ghost all = actions@;
    let mut rest = actions;
    let mut out: Vec<JsonValue> = Vec::new();
    while rest.len() > 0
        invariant
            text@.len() <= 0x7fff_ffff,
            out@.len() + rest@.len() == all.len(),
            rest@ == all.skip(out@.len() as int),
            forall|j: int| 0 <= j < out@.len() ==> is_filled_pragma(#[trigger] out@[j], text@, all[j]),
        decreases rest.len(),
    {
        let ghost k = out@.len() as int;
        let a = rest.remove(0);
        assert(a == all[k]);
        out.push(fill_pragma_edit(text, a));
        assert(rest@ =~= all.skip(out@.len() as int));
    }
    out
}

/// The actions proposed for a document that parsed, in order: Perl::Critic
/// quick fixes, diagnostic quick fixes, refactorings, enhanced
/// refactorings, test generation commands, then the missing-pragma actions
/// with their edits filled in.
pub open spec fn assembled(all: Seq<JsonValue>, text: Seq<char>, uri: Seq<char>, inputs: CodeActionInputs) -> bool {
    let c = inputs.critic_fixes@;
    let f = inputs.diagnostic_fixes@;
    let rf = inputs.refactorings@;
    let en = inputs.enhanced_refactorings@;
    let t = inputs.test_targets@;
    let p = inputs.pragma_actions@;
    let o1 = c.len() as int;
    let o2 = o1 + f.len();
    let o3 = o2 + rf.len();
    let o4 = o3 + en.len();
    let o5 = o4 + t.len();
    &&& all.len() == o5 + p.len()
    &&& forall|i: int| 0 <= i < c.len() ==> is_critic_action(all[i], text, uri, #[trigger] c[i])
    &&& forall|i: int| 0 <= i < f.len() ==> is_fix_action(all[o1 + i], text, uri, #[trigger] f[i], inputs.diagnostics@)
    &&& forall|i: int| 0 <= i < rf.len() ==> is_refactor_action(all[o2 + i], text, uri, #[trigger] rf[i])
    &&& forall|i: int| 0 <= i < en.len() ==> is_refactor_action(all[o3 + i], text, uri, #[trigger] en[i])
    &&& forall|i: int| 0 <= i < t.len() ==> is_test_action(all[o4 + i], uri, #[trigger] t[i])
    &&& forall|i: int| 0 <= i < p.len() ==> is_filled_pragma(all[o5 + i], text, #[trigger] p[i])
}

/// `extra` is what aggregating the quick fixes of `all` adds: the
/// `source.fixAll` action when at least two edits can be applied together.
pub open spec fn fix_all_extra(extra: Seq<JsonValue>, all: Seq<JsonValue>, uri: Seq<char>) -> bool {
    let st = fix_all_fold(all, uri);
    &&& st.edits.len() < 2 ==> extra.len() == 0
    &&& st.edits.len() >= 2 ==> (extra.len() == 1 && is_fix_all_action(extra[0], uri, st.edits, st.diagnostics))
}

impl LspServer {
    /// The missing-pragma actions of a document, with their edits filled in.
    pub fn handle_code_actions_pragmas(&self, text: &str, actions: Vec<JsonValue>) -> (r: Vec<JsonValue>)
        requires
            text@.len() <= 0x7fff_ffff,
        ensures
            r@.len() == actions@.len(),
            forall|i: int| 0 <= i < r@.len() ==> is_filled_pragma(#[trigger] r@[i], text@, actions@[i]),
    {
        filled_pragmas(text, actions)
    }

    /// The code actions of a document that parsed: everything the analyzers
    /// propose, the aggregated `source.fixAll` action when there is one, all
    /// filtered by the requested kinds.
    pub fn code_actions_with_ast(&self, uri: &str, text: &str, inputs: CodeActionInputs, requested_kinds: &Vec<String>) -> (r: Vec<JsonValue>)
        requires
            text@.len() <= 0x7fff_ffff,
        ensures
            exists|all: Seq<JsonValue>, extra: Seq<JsonValue>|
                assembled(all, text@, uri@, inputs) && fix_all_extra(extra, all, uri@) && r@ == keep_requested(
                    all + extra,
                    requested_kinds@.map_values(|s: String| s@),
                ),
    {
        let ghost before = inputs;
        let mut actions = critic_actions(text, uri, &inputs.critic_fixes);
        let mut fixes = fix_actions(text, uri, &inputs.diagnostic_fixes, &inputs.diagnostics);
        let mut refactorings = refactor_actions(text, uri, &inputs.refactorings);
        let mut enhanced = refactor_actions(text, uri, &inputs.enhanced_refactorings);
        let mut tests = test_actions(uri, &inputs.test_targets);
        let ghost s1 = actions@;
        let ghost s2 = fixes@;
        let ghost s3 = refactorings@;
        let ghost s4 = enhanced@;
        let ghost s5 = tests@;
        let CodeActionInputs { pragma_actions, .. } = inputs;
        let mut pragmas = filled_pragmas(text, pragma_actions);
        let ghost s6 = pragmas@;
        actions.append(&mut fixes);
        actions.append(&mut refactorings);
        actions.append(&mut enhanced);
        actions.append(&mut tests);
        actions.append(&mut pragmas);
        let ghost all = actions@;
        proof {
            assert(all =~= s1 + s2 + s3 + s4 + s5 + s6);
            let o1 = s1.len() as int;
            let o2 = o1 + s2.len();
            let o3 = o2 + s3.len();
            let o4 = o3 + s4.len();
            let o5 = o4 + s5.len();
            assert forall|i: int| 0 <= i < s2.len() implies all[o1 + i] == s2[i] by {}
            assert forall|i: int| 0 <= i < s3.len() implies all[o2 + i] == s3[i] by {}
            assert forall|i: int| 0 <= i < s4.len() implies all[o3 + i] == s4[i] by {}
            assert forall|i: int| 0 <= i < s5.len() implies all[o4 + i] == s5[i] by {}
            assert forall|i: int| 0 <= i < s6.len() implies all[o5 + i] == s6[i] by {}
            assert(assembled(all, text@, uri@, before));
        }
        let extra = build_source_fix_all(actions.as_slice(), uri);
        let ghost mut extra_seq: Seq<JsonValue> = Seq::empty();
        match extra {
            Some(v) => {
                proof {
                    extra_seq = seq![v];
                }
                actions.push(v);
            },
            None => {},
        }
        assert(actions@ =~= all + extra_seq);
        retain_requested_code_action_kinds(&mut actions, requested_kinds);
        assert(fix_all_extra(extra_seq, all, uri@));
        actions
    }
}

} // verus!

verus! {

/// A diagnostic the client sent in the request context can be read: it has
/// a range of four non-negative integers, a text code and a text message.
pub open spec fn readable_context_diagnostic(e: JsonValue) -> bool {
    &&& (spec_get(e, "range"@) matches Some(r) && range_of(r) is Some)
    &&& spec_as_str(spec_get(e, "code"@)) is Some
    &&& spec_as_str(spec_get(e, "message"@)) is Some
}

/// The context diagnostics that can be read, in order.
pub open spec fn readable_context(entries: Seq<JsonValue>) -> Seq<JsonValue>
    decreases entries.len(),
{
    if entries.len() == 0 {
        Seq::empty()
    } else {
        let r = readable_context(entries.drop_last());
        if readable_context_diagnostic(entries.last()) {
            r.push(entries.last())
        } else {
            r
        }
    }
}

/// The diagnostics of the request context.
pub open spec fn context_entries(params: JsonValue) -> Seq<JsonValue> {
    match spec_get(params, "context"@) {
        Some(c) => match spec_get(c, "diagnostics"@) {
            Some(JsonValue::Arr(a)) => a@,
            _ => Seq::empty(),
        },
        None => Seq::empty(),
    }
}

/// The byte offset of a position of `text`; the end of the text for a
/// line past it.
pub open spec fn offset_or_end(text: Seq<char>, line: u32, ch: u32) -> nat {
    match offset_of_position(text, line as nat, ch as nat) {
        Some(o) => o,
        None => byte_len(text),
    }
}

/// The severity a client sends as a number (1 to 4; a warning otherwise).
pub open spec fn severity_of_number(n: Option<u64>) -> DiagnosticSeverity {
    match n {
        Some(1) => DiagnosticSeverity::Error,
        Some(2) => DiagnosticSeverity::Warning,
        Some(3) => DiagnosticSeverity::Information,
        Some(4) => DiagnosticSeverity::Hint,
        _ => DiagnosticSeverity::Warning,
    }
}

/// `d` is the diagnostic `e` of the request context, its positions (cut to
/// 32 bits) turned into byte offsets of `text`.
pub open spec fn is_context_diagnostic(d: InternalDiagnostic, text: Seq<char>, e: JsonValue) -> bool {
    let r = range_of(spec_get(e, "range"@)->0)->0;
    &&& d.range.0 == offset_or_end(text, r.start_line as u32, r.start_char as u32)
    &&& d.range.1 == offset_or_end(text, r.end_line as u32, r.end_char as u32)
    &&& d.severity == severity_of_number(spec_as_u64(spec_get(e, "severity"@)))
    &&& (d.code matches Some(c) && Some(c@) == spec_as_str(spec_get(e, "code"@)))
    &&& Some(d.message@) == spec_as_str(spec_get(e, "message"@))
    &&& d.suggestion is None
    &&& d.related_information@.len() == 0
    &&& d.tags@.len() == 0
}

fn context_diagnostic(text: &str, e: &JsonValue) -> (r: Option<InternalDiagnostic>)
    requires
        text@.len() <= 0x7fff_ffff,
    ensures
        readable_context_diagnostic(*e) ==> (r matches Some(d) && is_context_diagnostic(d, text@, *e)),
        !readable_context_diagnostic(*e) ==> r is None,
{
    let range = match e.get("range") {
        Some(r) => r,
        None => return None,
    };
    let fr = match FixAllRange::from_json(range) {
        Some(f) => f,
        None => return None,
    };
    let code = match e.get("code") {
        Some(c) => match c.as_str() {
            Some(c) => c,
            None => return None,
        },
        None => return None,
    };
    let message = match e.get("message") {
        Some(m) => match m.as_str() {
            Some(m) => m,
            None => return None,
        },
        None => return None,
    };
    let severity = match e.get("severity") {
        Some(v) => match v.as_u64() {
            Some(1) => DiagnosticSeverity::Error,
            Some(2) => DiagnosticSeverity::Warning,
            Some(3) => DiagnosticSeverity::Information,
            Some(4) => DiagnosticSeverity::Hint,
            _ => DiagnosticSeverity::Warning,
        },
        None => DiagnosticSeverity::Warning,
    };
    let start = position_to_offset_in(text, fr.start_line as u32, fr.start_char as u32);
    let end = position_to_offset_in(text, fr.end_line as u32, fr.end_char as u32);
    Some(InternalDiagnostic {
        range: (start, end),
        severity,
        code: Some(owned(code)),
        message: owned(message),
        suggestion: None,
        related_information: Vec::new(),
        tags: Vec::new(),
    })
}

impl LspServer {
    /// The diagnostics the client sent in the request context, as the
    /// analyzers see them: the readable ones, in order, positions turned
    /// into byte offsets of `text`.
    pub fn context_diagnostics_for_code_actions(&self, params: &JsonValue, text: &str) -> (r: Vec<InternalDiagnostic>)
        requires
            text@.len() <= 0x7fff_ffff,
        ensures
            ({
                let wanted = readable_context(context_entries(*params));
                &&& r@.len() == wanted.len()
                &&& forall|i: int| 0 <= i < r@.len() ==> is_context_diagnostic(#[trigger] r@[i], text@, wanted[i])
            }),
    {
        let mut out: Vec<InternalDiagnostic> = Vec::new();
        let entries: &Vec<JsonValue> = match params.get("context") {
            Some(c) => match c.get("diagnostics") {
                Some(JsonValue::Arr(a)) => a,
                _ => return out,
            },
            None => return out,
        };
        let ghost all = entries@;
        assert(all == context_entries(*params));
        let mut i: usize = 0;
        while i < entries.len()
            invariant
                i <= entries.len(),
                all == entries@,
                text@.len() <= 0x7fff_ffff,
                out@.len() == readable_context(all.take(i as int)).len(),
                forall|k: int|
                    0 <= k < out@.len() ==> is_context_diagnostic(#[trigger] out@[k], text@, readable_context(all.take(i as int))[k]),
            decreases entries.len() - i,
        {
            assert(all.take(i + 1).drop_last() =~= all.take(i as int));
            assert(all.take(i + 1).last() == entries@[i as int]);
            match context_diagnostic(text, &entries[i]) {
                Some(d) => {
                    out.push(d);
                },
                None => {},
            }
            i = i + 1;
        }
        assert(all.take(entries.len() as int) =~= all);
        out
    }
}

/// The `(uri, pragma)` of a quick fix to resolve: its `data` names an open
/// document (`uri`) and the pragma to add.
pub open spec fn resolve_request(action: JsonValue) -> Option<(Seq<char>, Seq<char>)> {
    if spec_as_str(spec_get(action, "kind"@)) == Some("quickfix"@) {
        match spec_get(action, "data"@) {
            Some(d) => match (spec_as_str(spec_get(d, "uri"@)), spec_as_str(spec_get(d, "pragma"@))) {
                (Some(u), Some(p)) => Some((u, p)),
                _ => None,
            },
            None => None,
        }
    } else {
        None
    }
}

/// The document a quick fix to resolve names in its `data`.
pub open spec fn resolve_document(action: JsonValue) -> Option<Seq<char>> {
    if spec_as_str(spec_get(action, "kind"@)) == Some("quickfix"@) {
        match spec_get(action, "data"@) {
            Some(d) => spec_as_str(spec_get(d, "uri"@)),
            None => None,
        }
    } else {
        None
    }
}

fn read_resolve_request(action: &JsonValue) -> (r: Option<(String, Option<String>)>)
    ensures
        match resolve_document(*action) {
            Some(u) => r matches Some(x) && x.0@ == u && match resolve_request(*action) {
                Some((_, p)) => x.1 matches Some(q) && q@ == p,
                None => x.1 is None,
            },
            None => r is None,
        },
{
    let kind = match action.get("kind") {
        Some(k) => k.as_str(),
        None => None,
    };
    proof {
        reveal_strlit("quickfix");
    }
    let quickfix = match kind {
        Some(k) => str_eq(k, "quickfix"),
        None => false,
    };
    if !quickfix {
        return None;
    }
    let data = match action.get("data") {
        Some(d) => d,
        None => return None,
    };
    let uri = match data.get("uri") {
        Some(u) => match u.as_str() {
            Some(u) => u,
            None => return None,
        },
        None => return None,
    };
    let pragma = match data.get("pragma") {
        Some(p) => match p.as_str() {
            Some(p) => Some(owned(p)),
            None => None,
        },
        None => None,
    };
    Some((owned(uri), pragma))
}

impl LspServer {
    /// The document whose openness resolving `params` depends on.
    pub fn code_action_resolve_document(params: &Option<JsonValue>) -> (r: Option<String>)
        ensures
            match params {
                Some(a) => match resolve_document(*a) {
                    Some(u) => r matches Some(x) && x@ == u,
                    None => r is None,
                },
                None => r is None,
            },
    {
        match params {
            Some(a) => match read_resolve_request(a) {
                Some((u, _)) => Some(u),
                None => None,
            },
            None => None,
        }
    }

    /// `codeAction/resolve`: a quick fix whose data names an open document
    /// (`document_open` says whether the document of
    /// `code_action_resolve_document` is open) and a pragma gets the edit
    /// that inserts the pragma line at the top; any other action is returned
    /// as it is, and no action gives none.
    pub fn handle_code_action_resolve(&self, params: Option<JsonValue>, document_open: bool) -> (r: Result<Option<JsonValue>, crate::lifecycle::JsonRpcError>)
        ensures
            match params {
                None => r matches Ok(None),
                Some(a) => match resolve_request(a) {
                    Some((u, p)) => if document_open {
                        r matches Ok(Some(v)) && v is Obj && (spec_get(v, "edit"@) matches Some(e) && (changes_for(e, u) matches Some(es)
                            && es.len() == 1 && is_edit_of(
                            es[0],
                            FixAllRange { start_line: 0, start_char: 0, end_line: 0, end_char: 0 },
                            p + "\n"@,
                        ))) && forall|k: Seq<char>| k != "edit"@ ==> #[trigger] spec_get(v, k) == spec_get(a, k)
                    } else {
                        r matches Ok(Some(v)) && v == a
                    },
                    None => r matches Ok(Some(v)) && v == a,
                },
            },
    {
        let action = match params {
            Some(a) => a,
            None => return Ok(None),
        };
        let (uri, pragma) = match read_resolve_request(&action) {
            Some(x) => x,
            None => return Ok(Some(action)),
        };
        let pragma = match pragma {
            Some(p) => p,
            None => return Ok(Some(action)),
        };
        if !document_open {
            return Ok(Some(action));
        }
        let mut text = owned(pragma.as_str());
        text.append("\n");
        let e = edit_json(
            range_value(0, 0, 0, 0),
            text.as_str(),
            Ghost(FixAllRange { start_line: 0, start_char: 0, end_line: 0, end_char: 0 }),
        );
        let mut edits: Vec<JsonValue> = Vec::new();
        edits.push(e);
        let edit = changes_json(uri.as_str(), edits);
        Ok(Some(action.with_member("edit", edit)))
    }
}

} // verus!
