//! The decisions of go-to-definition, as a step function: from the
//! document text and the answers of the lookups made so far to the next
//! lookup to make or the answer to give. The lookups themselves (module
//! files on disk, the workspace index, the same-file syntax tree) are made
//! by the caller.
use vstd::prelude::*;
use crate::json::{JsonValue, JsonMember, member, str_value, range_value, is_str, members_of};
use crate::lifecycle::{JsonRpcError, INTERNAL_ERROR};
use crate::diagnostic_json::is_range_of;
use crate::declaration::{is_span_of, span};
use crate::navigation::{
    group_matches, pair_matches, first_covering, first_method_covering, goto_target, any_covering, split_qualified,
    universal_method, PACKAGE_ARROW, GOTO_LABEL, LABEL_DECLARATION, SUPER_METHOD, QUALIFIED_NAME, ARROW_METHOD,
    VAR_METHOD, package_arrow_target_at, goto_label_definition, super_method_at, qualified_name_at, arrow_method_at,
    var_method_at, is_universal_method,
};

verus! {

/// The answer of the lookup the previous step asked for.
pub enum DefinitionLookup {
    /// The file URI of the module asked for, when one was found.
    ModuleFile(Option<String>),
    /// The definition response found for a `SUPER::method` call.
    Super(Option<JsonValue>),
    /// The definition response found for a qualified name.
    Qualified(Option<JsonValue>),
    /// The definition response found for a `Package->method` call.
    Arrow(Option<JsonValue>),
    /// The definition response found for a `$var->method` call.
    Var(Option<JsonValue>),
}

/// What go-to-definition does next.
pub enum DefinitionAction {
    /// Answer the request with this result.
    Respond(Option<JsonValue>),
    /// Answer the request with this error.
    Fail(JsonRpcError),
    /// Find the file of `module`; answer with `DefinitionLookup::ModuleFile`.
    ResolveModule { module: String },
    /// Resolve `SUPER::method` in the current package's parents.
    LookupSuper { method: String },
    /// Look `package::name` up in the workspace.
    LookupQualified { package: String, name: String },
    /// Look `package->method` up in the workspace (and in `UNIVERSAL` when
    /// `universal` is set).
    LookupArrow { package: String, method: String, universal: bool },
    /// Resolve `$variable->method` from the variable's class.
    LookupVar { variable: String, method: String },
    /// Resolve the symbol in the document's own syntax tree.
    Fallback,
}

/// `v` is `[{"uri": uri, "range": <the span s..e of text>}]`.
pub open spec fn is_label_response(v: JsonValue, uri: Seq<char>, text: Seq<char>, s: nat, e: nat) -> bool {
    &&& v matches JsonValue::Arr(a) && a@.len() == 1 && {
        let ms = members_of(a@[0]);
        &&& a@[0] is Obj
        &&& ms.len() == 2
        &&& ms[0].key@ == "uri"@
        &&& is_str(ms[0].value, uri)
        &&& ms[1].key@ == "range"@
        &&& is_span_of(ms[1].value, text, (s as usize, e as usize))
    }
}

/// `v` is `[{"uri": file, "range": 0:0-0:0}]`: the start of a module file.
pub open spec fn is_module_response(v: JsonValue, file: Seq<char>) -> bool {
    &&& v matches JsonValue::Arr(a) && a@.len() == 1 && {
        let ms = members_of(a@[0]);
        &&& a@[0] is Obj
        &&& ms.len() == 2
        &&& ms[0].key@ == "uri"@
        &&& is_str(ms[0].value, file)
        &&& ms[1].key@ == "range"@
        &&& is_range_of(ms[1].value, (0, 0), (0, 0))
    }
}

/// An internal error.
pub open spec fn is_internal_failure(r: DefinitionAction) -> bool {
    r matches DefinitionAction::Fail(e) && e.code == INTERNAL_ERROR
}

/// From the `Package->method` stage on: the method call under the cursor
/// is looked up; without one, `$var->method`; without one, the syntax tree.
pub open spec fn from_arrow(r: DefinitionAction, around: Seq<char>, c: nat) -> bool {
    match pair_matches(ARROW_METHOD@, around) {
        None => is_internal_failure(r),
        Some(ms) => match first_method_covering(ms, c) {
            Some((p, m)) => r matches DefinitionAction::LookupArrow { package, method, universal }
                && package@ == p && method@ == m && universal == universal_method(m),
            None => from_var(r, around, c),
        },
    }
}

pub open spec fn from_var(r: DefinitionAction, around: Seq<char>, c: nat) -> bool {
    match pair_matches(VAR_METHOD@, around) {
        None => is_internal_failure(r),
        Some(ms) => match first_method_covering(ms, c) {
            Some((v, m)) => r matches DefinitionAction::LookupVar { variable, method } && variable@ == v && method@ == m,
            None => r is Fallback,
        },
    }
}

/// From the qualified-name stage on.
pub open spec fn from_qualified(r: DefinitionAction, around: Seq<char>, c: nat) -> bool {
    match group_matches(QUALIFIED_NAME@, around) {
        None => is_internal_failure(r),
        Some(ms) => match first_covering(ms, c) {
            Some(full) => match split_qualified(full) {
                Some((p, n)) => r matches DefinitionAction::LookupQualified { package, name } && package@ == p && name@ == n,
                None => from_arrow(r, around, c),
            },
            None => from_arrow(r, around, c),
        },
    }
}

/// From the `SUPER::method` stage on.
pub open spec fn from_super(r: DefinitionAction, around: Seq<char>, c: nat) -> bool {
    match group_matches(SUPER_METHOD@, around) {
        None => is_internal_failure(r),
        Some(ms) => match first_covering(ms, c) {
            Some(m) => r matches DefinitionAction::LookupSuper { method } && method@ == m,
            None => from_qualified(r, around, c),
        },
    }
}

/// From the `goto LABEL` stage on: a label under the cursor that is
/// declared in the document answers with the declaration's span.
pub open spec fn from_label(r: DefinitionAction, text: Seq<char>, around: Seq<char>, c: nat, uri: Seq<char>) -> bool {
    match group_matches(GOTO_LABEL@, around) {
        None => is_internal_failure(r),
        Some(gs) => if !any_covering(gs, c) {
            from_super(r, around, c)
        } else {
            match group_matches(LABEL_DECLARATION@, text) {
                None => is_internal_failure(r),
                Some(ds) => match goto_target(gs, ds, c) {
                    Some((s, e)) => r matches DefinitionAction::Respond(Some(v)) && is_label_response(v, uri, text, s, e),
                    None => from_super(r, around, c),
                },
            }
        },
    }
}

/// The next step of go-to-definition at `cursor` of the text `around` it
/// (a window of the document `text`), given the answer of the lookup the
/// previous step asked for. First a package name before `->` under the
/// cursor asks for its module file, which answers when found; then a
/// `goto` label; then `SUPER::method`, a qualified name, `Package->method`
/// and `$var->method` are each looked up, a found result answering; then
/// the syntax tree.
pub open spec fn definition_decision(r: DefinitionAction, text: Seq<char>, around: Seq<char>, c: nat, uri: Seq<char>, looked_up: Option<DefinitionLookup>) -> bool {
    match looked_up {
        None => match group_matches(PACKAGE_ARROW@, around) {
            None => is_internal_failure(r),
            Some(ms) => match first_covering(ms, c) {
                Some(name) => r matches DefinitionAction::ResolveModule { module } && module@ == name,
                None => from_label(r, text, around, c, uri),
            },
        },
        Some(DefinitionLookup::ModuleFile(Some(f))) => r matches DefinitionAction::Respond(Some(v)) && is_module_response(v, f@),
        Some(DefinitionLookup::ModuleFile(None)) => from_label(r, text, around, c, uri),
        Some(DefinitionLookup::Super(Some(v))) => r == DefinitionAction::Respond(Some(v)),
        Some(DefinitionLookup::Super(None)) => from_qualified(r, around, c),
        Some(DefinitionLookup::Qualified(Some(v))) => r == DefinitionAction::Respond(Some(v)),
        Some(DefinitionLookup::Qualified(None)) => from_arrow(r, around, c),
        Some(DefinitionLookup::Arrow(Some(v))) => r == DefinitionAction::Respond(Some(v)),
        Some(DefinitionLookup::Arrow(None)) => from_var(r, around, c),
        Some(DefinitionLookup::Var(Some(v))) => r == DefinitionAction::Respond(Some(v)),
        Some(DefinitionLookup::Var(None)) => r is Fallback,
    }
}

fn location(uri: &str, range: JsonValue) -> (v: JsonValue)
    ensures
        v matches JsonValue::Arr(a) && a@.len() == 1 && {
            let ms = members_of(a@[0]);
            &&& a@[0] is Obj
            &&& ms.len() == 2
            &&& ms[0].key@ == "uri"@
            &&& is_str(ms[0].value, uri@)
            &&& ms[1].key@ == "range"@
            &&& ms[1].value == range
        },
{
    let mut ms: Vec<JsonMember> = Vec::new();
    ms.push(member("uri", str_value(uri)));
    ms.push(member("range", range));
    let mut a: Vec<JsonValue> = Vec::new();
    a.push(JsonValue::Obj(ms));
    JsonValue::Arr(a)
}

fn step_from_var(around: &str, c: usize) -> (r: DefinitionAction)
    ensures
        from_var(r, around@, c as nat),
{
    match var_method_at(around, c) {
        Err(e) => DefinitionAction::Fail(e),
        Ok(Some((variable, method))) => DefinitionAction::LookupVar { variable, method },
        Ok(None) => DefinitionAction::Fallback,
    }
}

fn step_from_arrow(around: &str, c: usize) -> (r: DefinitionAction)
    ensures
        from_arrow(r, around@, c as nat),
{
    match arrow_method_at(around, c) {
        Err(e) => DefinitionAction::Fail(e),
        Ok(Some((package, method))) => {
            let universal = is_universal_method(method.as_str());
            DefinitionAction::LookupArrow { package, method, universal }
        },
        Ok(None) => step_from_var(around, c),
    }
}

fn step_from_qualified(around: &str, c: usize) -> (r: DefinitionAction)
    ensures
        from_qualified(r, around@, c as nat),
{
    match qualified_name_at(around, c) {
        Err(e) => DefinitionAction::Fail(e),
        Ok(Some((package, name))) => DefinitionAction::LookupQualified { package, name },
        Ok(None) => step_from_arrow(around, c),
    }
}

fn step_from_super(around: &str, c: usize) -> (r: DefinitionAction)
    ensures
        from_super(r, around@, c as nat),
{
    match super_method_at(around, c) {
        Err(e) => DefinitionAction::Fail(e),
        Ok(Some(method)) => DefinitionAction::LookupSuper { method },
        Ok(None) => step_from_qualified(around, c),
    }
}

fn step_from_label(text: &str, around: &str, c: usize, uri: &str) -> (r: DefinitionAction)
    requires
        text@.len() <= 0x7fff_ffff,
    ensures
        from_label(r, text@, around@, c as nat, uri@),
{
    match goto_label_definition(text, around, c) {
        Err(e) => DefinitionAction::Fail(e),
        Ok(Some((s, e))) => {
            let range = span(text, (s, e));
            DefinitionAction::Respond(Some(location(uri, range)))
        },
        Ok(None) => step_from_super(around, c),
    }
}

/// The next step of go-to-definition, as `definition_decision` states it.
pub fn definition_step(text: &str, text_around: &str, cursor_in_text: usize, uri: &str, looked_up: Option<DefinitionLookup>) -> (r: DefinitionAction)
    requires
        text@.len() <= 0x7fff_ffff,
    ensures
        definition_decision(r, text@, text_around@, cursor_in_text as nat, uri@, looked_up),
{
    match looked_up {
        None => match package_arrow_target_at(text_around, cursor_in_text) {
            Err(e) => DefinitionAction::Fail(e),
            Ok(Some(module)) => DefinitionAction::ResolveModule { module },
            Ok(None) => step_from_label(text, text_around, cursor_in_text, uri),
        },
        Some(DefinitionLookup::ModuleFile(Some(f))) => {
            let range = range_value(0, 0, 0, 0);
            DefinitionAction::Respond(Some(location(f.as_str(), range)))
        },
        Some(DefinitionLookup::ModuleFile(None)) => step_from_label(text, text_around, cursor_in_text, uri),
        Some(DefinitionLookup::Super(Some(v))) => DefinitionAction::Respond(Some(v)),
        Some(DefinitionLookup::Super(None)) => step_from_qualified(text_around, cursor_in_text),
        Some(DefinitionLookup::Qualified(Some(v))) => DefinitionAction::Respond(Some(v)),
        Some(DefinitionLookup::Qualified(None)) => step_from_arrow(text_around, cursor_in_text),
        Some(DefinitionLookup::Arrow(Some(v))) => DefinitionAction::Respond(Some(v)),
        Some(DefinitionLookup::Arrow(None)) => step_from_var(text_around, cursor_in_text),
        Some(DefinitionLookup::Var(Some(v))) => DefinitionAction::Respond(Some(v)),
        Some(DefinitionLookup::Var(None)) => DefinitionAction::Fallback,
    }
}

} // verus!

verus! {

proof fn lemma_goto_target_first(gs: Seq<(nat, nat, Seq<char>)>, ds: Seq<(nat, nat, Seq<char>)>, c: nat, j: int)
    requires
        0 <= j < gs.len(),
        crate::navigation::covers(gs[j], c),
        forall|k: int| 0 <= k < j ==> !crate::navigation::covers(#[trigger] gs[k], c),
        crate::navigation::first_label(ds, gs[j].2) is Some,
    ensures
        goto_target(gs, ds, c) == crate::navigation::first_label(ds, gs[j].2),
    decreases j,
{
    if j > 0 {
        assert(!crate::navigation::covers(gs[0], c));
        let rest = gs.drop_first();
        assert forall|k: int| 0 <= k < j - 1 implies !crate::navigation::covers(#[trigger] rest[k], c) by {
            assert(rest[k] == gs[k + 1]);
        }
        lemma_goto_target_first(rest, ds, c, j - 1);
    }
}

/// A `goto LABEL` under the cursor (with no package name before `->`
/// there) whose label is declared in the document answers the request
/// with the span of the label's first declaration, the span that
/// `find_label_declaration_span` gives.
pub proof fn lemma_goto_label_answers_with_declaration(
    r: DefinitionAction,
    text: Seq<char>,
    around: Seq<char>,
    c: nat,
    uri: Seq<char>,
    gs: Seq<(nat, nat, Seq<char>)>,
    ds: Seq<(nat, nat, Seq<char>)>,
    j: int,
)
    requires
        definition_decision(r, text, around, c, uri, None),
        group_matches(PACKAGE_ARROW@, around) matches Some(ms) && first_covering(ms, c) is None,
        group_matches(GOTO_LABEL@, around) == Some(gs),
        group_matches(LABEL_DECLARATION@, text) == Some(ds),
        0 <= j < gs.len(),
        crate::navigation::covers(gs[j], c),
        forall|k: int| 0 <= k < j ==> !crate::navigation::covers(#[trigger] gs[k], c),
        crate::navigation::first_label(ds, gs[j].2) is Some,
    ensures
        crate::navigation::first_label(ds, gs[j].2) matches Some((s, e)) && (r matches DefinitionAction::Respond(Some(v))
            && is_label_response(v, uri, text, s, e)),
{
    lemma_goto_target_first(gs, ds, c, j);
    assert(any_covering(gs, c));
}

} // verus!
