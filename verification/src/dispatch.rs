//! Request routing: decides, for each JSON-RPC message, what the server
//! answers or which handler must run.
use vstd::prelude::*;
use crate::json::{JsonValue, spec_get_opt, spec_as_str};
use crate::text::{str_eq, owned};
use crate::lifecycle::{LspServer, JsonRpcError, initialize_params_read, INVALID_REQUEST, SERVER_NOT_INITIALIZED, METHOD_NOT_FOUND, REQUEST_CANCELLED, normalized_trace};

verus! {

/// A JSON-RPC request or notification as received.
#[derive(Debug)]
pub struct JsonRpcRequest {
    pub id: Option<JsonValue>,
    pub method: String,
    pub params: Option<JsonValue>,
}

/// A JSON-RPC response (its `jsonrpc` member is always "2.0").
#[derive(Debug)]
pub struct JsonRpcResponse {
    pub id: Option<JsonValue>,
    pub result: Option<JsonValue>,
    pub error: Option<JsonRpcError>,
}

/// What the server does with one message.
#[derive(Debug)]
pub enum RequestOutcome {
    /// The answer is complete: a response, or nothing for a notification.
    Respond(Option<JsonRpcResponse>),
    /// `initialize` was accepted; the capabilities reply is built from the
    /// advertised features and answered with `finish_response`.
    Initialize { id: Option<JsonValue>, params: Option<JsonValue> },
    /// The process exits with this code.
    Exit(i32),
    /// The feature handler for `method` runs; its result is answered with
    /// `finish_response`.
    Delegate { id: Option<JsonValue>, method: String, params: Option<JsonValue> },
}

/// A `null` id counts as no id.
pub open spec fn effective_id(id: Option<JsonValue>) -> Option<JsonValue> {
    match id {
        Some(JsonValue::Null) => None,
        other => other,
    }
}

/// Two request ids are the same id: equal numbers or equal strings.
pub open spec fn same_id(a: JsonValue, b: JsonValue) -> bool {
    match (a, b) {
        (JsonValue::UInt(x), JsonValue::UInt(y)) => x == y,
        (JsonValue::NegInt(x), JsonValue::NegInt(y)) => x == y,
        (JsonValue::Float(x), JsonValue::Float(y)) => x@ == y@,
        (JsonValue::Str(x), JsonValue::Str(y)) => x@ == y@,
        (JsonValue::Bool(x), JsonValue::Bool(y)) => x == y,
        (JsonValue::Null, JsonValue::Null) => true,
        _ => false,
    }
}

pub fn id_eq(a: &JsonValue, b: &JsonValue) -> (r: bool)
    ensures
        r == same_id(*a, *b),
{
    match (a, b) {
        (JsonValue::UInt(x), JsonValue::UInt(y)) => *x == *y,
        (JsonValue::NegInt(x), JsonValue::NegInt(y)) => *x == *y,
        (JsonValue::Float(x), JsonValue::Float(y)) => str_eq(x.as_str(), y.as_str()),
        (JsonValue::Str(x), JsonValue::Str(y)) => str_eq(x.as_str(), y.as_str()),
        (JsonValue::Bool(x), JsonValue::Bool(y)) => *x == *y,
        (JsonValue::Null, JsonValue::Null) => true,
        _ => false,
    }
}

pub open spec fn id_listed(ids: Seq<JsonValue>, id: JsonValue) -> bool {
    exists|i: int| 0 <= i < ids.len() && same_id(ids[i], id)
}

/// The response owed for a handler result: only requests (with an id)
/// are answered, and only when the handler produced a value or an error.
pub open spec fn answers(id: Option<JsonValue>, result: Result<Option<JsonValue>, JsonRpcError>, resp: Option<JsonRpcResponse>) -> bool {
    match result {
        Ok(Some(v)) => if id is Some {
            resp matches Some(r) && r.id == id && r.result == Some(v) && r.error is None
        } else {
            resp is None
        },
        Ok(None) => resp is None,
        Err(e) => if id is Some {
            resp matches Some(r) && r.id == id && r.result is None && r.error == Some(e)
        } else {
            resp is None
        },
    }
}

/// The outcome answers with an error of `code` (nothing for a notification).
pub open spec fn answers_error(id: Option<JsonValue>, out: RequestOutcome, code: i32) -> bool {
    if id is Some {
        out matches RequestOutcome::Respond(Some(r)) && r.id == id && r.result is None && (r.error matches Some(e) && e.code == code)
    } else {
        out matches RequestOutcome::Respond(None)
    }
}

/// Build the response owed for a handler result.
pub fn finish_response(id: Option<JsonValue>, result: Result<Option<JsonValue>, JsonRpcError>) -> (resp: Option<JsonRpcResponse>)
    ensures
        answers(id, result, resp),
{
    match result {
        Ok(Some(v)) => {
            if id.is_some() {
                Some(JsonRpcResponse { id, result: Some(v), error: None })
            } else {
                None
            }
        },
        Ok(None) => None,
        Err(e) => {
            if id.is_some() {
                Some(JsonRpcResponse { id, result: None, error: Some(e) })
            } else {
                None
            }
        },
    }
}

pub open spec fn is_handler_method(m: Seq<char>) -> bool {
    m == "textDocument/didOpen"@
    || m == "textDocument/didChange"@
    || m == "textDocument/didClose"@
    || m == "textDocument/didSave"@
    || m == "textDocument/willSave"@
    || m == "textDocument/willSaveWaitUntil"@
    || m == "notebookDocument/didOpen"@
    || m == "notebookDocument/didChange"@
    || m == "notebookDocument/didSave"@
    || m == "notebookDocument/didClose"@
    || m == "textDocument/completion"@
    || m == "completionItem/resolve"@
    || m == "textDocument/hover"@
    || m == "textDocument/signatureHelp"@
    || m == "textDocument/definition"@
    || m == "textDocument/declaration"@
    || m == "textDocument/references"@
    || m == "textDocument/documentHighlight"@
    || m == "textDocument/prepareTypeHierarchy"@
    || m == "typeHierarchy/prepare"@
    || m == "typeHierarchy/supertypes"@
    || m == "typeHierarchy/subtypes"@
    || m == "textDocument/diagnostic"@
    || m == "workspace/diagnostic"@
    || m == "textDocument/prepareRename"@
    || m == "workspace/symbol"@
    || m == "workspace/symbol/resolve"@
    || m == "textDocument/rename"@
    || m == "textDocument/codeAction"@
    || m == "codeAction/resolve"@
    || m == "textDocument/semanticTokens/full"@
    || m == "textDocument/inlayHint"@
    || m == "inlayHint/resolve"@
    || m == "textDocument/documentLink"@
    || m == "documentLink/resolve"@
    || m == "textDocument/selectionRange"@
    || m == "textDocument/onTypeFormatting"@
    || m == "textDocument/codeLens"@
    || m == "codeLens/resolve"@
    || m == "textDocument/linkedEditingRange"@
    || m == "textDocument/inlineCompletion"@
    || m == "textDocument/perlInlineCompletionStream"@
    || m == "textDocument/inlineValue"@
    || m == "textDocument/moniker"@
    || m == "textDocument/documentColor"@
    || m == "textDocument/colorPresentation"@
    || m == "textDocument/semanticTokens/range"@
    || m == "workspace/executeCommand"@
    || m == "textDocument/typeDefinition"@
    || m == "textDocument/implementation"@
    || m == "textDocument/documentSymbol"@
    || m == "textDocument/foldingRange"@
    || m == "textDocument/formatting"@
    || m == "textDocument/rangeFormatting"@
    || m == "textDocument/rangesFormatting"@
    || m == "textDocument/prepareCallHierarchy"@
    || m == "callHierarchy/incomingCalls"@
    || m == "callHierarchy/outgoingCalls"@
    || m == "perl/showAst"@
    || m == "experimental/testDiscovery"@
    || m == "workspace/configuration"@
    || m == "workspace/didChangeWatchedFiles"@
    || m == "workspace/didChangeWorkspaceFolders"@
    || m == "workspace/didChangeConfiguration"@
    || m == "$/perl-lsp/clientResponse"@
    || m == "window/workDoneProgress/cancel"@
    || m == "workspace/willRenameFiles"@
    || m == "workspace/didRenameFiles"@
    || m == "workspace/willDeleteFiles"@
    || m == "workspace/didDeleteFiles"@
    || m == "workspace/willCreateFiles"@
    || m == "workspace/didCreateFiles"@
    || m == "workspace/applyEdit"@
    || m == "workspace/textDocumentContent"@
    || m == "$/test/slowOperation"@
}

/// Methods served by a feature handler.
pub fn handler_method(m: &str) -> (r: bool)
    ensures
        r == is_handler_method(m@),
{
    str_eq(m, "textDocument/didOpen")
    || str_eq(m, "textDocument/didChange")
    || str_eq(m, "textDocument/didClose")
    || str_eq(m, "textDocument/didSave")
    || str_eq(m, "textDocument/willSave")
    || str_eq(m, "textDocument/willSaveWaitUntil")
    || str_eq(m, "notebookDocument/didOpen")
    || str_eq(m, "notebookDocument/didChange")
    || str_eq(m, "notebookDocument/didSave")
    || str_eq(m, "notebookDocument/didClose")
    || str_eq(m, "textDocument/completion")
    || str_eq(m, "completionItem/resolve")
    || str_eq(m, "textDocument/hover")
    || str_eq(m, "textDocument/signatureHelp")
    || str_eq(m, "textDocument/definition")
    || str_eq(m, "textDocument/declaration")
    || str_eq(m, "textDocument/references")
    || str_eq(m, "textDocument/documentHighlight")
    || str_eq(m, "textDocument/prepareTypeHierarchy")
    || str_eq(m, "typeHierarchy/prepare")
    || str_eq(m, "typeHierarchy/supertypes")
    || str_eq(m, "typeHierarchy/subtypes")
    || str_eq(m, "textDocument/diagnostic")
    || str_eq(m, "workspace/diagnostic")
    || str_eq(m, "textDocument/prepareRename")
    || str_eq(m, "workspace/symbol")
    || str_eq(m, "workspace/symbol/resolve")
    || str_eq(m, "textDocument/rename")
    || str_eq(m, "textDocument/codeAction")
    || str_eq(m, "codeAction/resolve")
    || str_eq(m, "textDocument/semanticTokens/full")
    || str_eq(m, "textDocument/inlayHint")
    || str_eq(m, "inlayHint/resolve")
    || str_eq(m, "textDocument/documentLink")
    || str_eq(m, "documentLink/resolve")
    || str_eq(m, "textDocument/selectionRange")
    || str_eq(m, "textDocument/onTypeFormatting")
    || str_eq(m, "textDocument/codeLens")
    || str_eq(m, "codeLens/resolve")
    || str_eq(m, "textDocument/linkedEditingRange")
    || str_eq(m, "textDocument/inlineCompletion")
    || str_eq(m, "textDocument/perlInlineCompletionStream")
    || str_eq(m, "textDocument/inlineValue")
    || str_eq(m, "textDocument/moniker")
    || str_eq(m, "textDocument/documentColor")
    || str_eq(m, "textDocument/colorPresentation")
    || str_eq(m, "textDocument/semanticTokens/range")
    || str_eq(m, "workspace/executeCommand")
    || str_eq(m, "textDocument/typeDefinition")
    || str_eq(m, "textDocument/implementation")
    || str_eq(m, "textDocument/documentSymbol")
    || str_eq(m, "textDocument/foldingRange")
    || str_eq(m, "textDocument/formatting")
    || str_eq(m, "textDocument/rangeFormatting")
    || str_eq(m, "textDocument/rangesFormatting")
    || str_eq(m, "textDocument/prepareCallHierarchy")
    || str_eq(m, "callHierarchy/incomingCalls")
    || str_eq(m, "callHierarchy/outgoingCalls")
    || str_eq(m, "perl/showAst")
    || str_eq(m, "experimental/testDiscovery")
    || str_eq(m, "workspace/configuration")
    || str_eq(m, "workspace/didChangeWatchedFiles")
    || str_eq(m, "workspace/didChangeWorkspaceFolders")
    || str_eq(m, "workspace/didChangeConfiguration")
    || str_eq(m, "$/perl-lsp/clientResponse")
    || str_eq(m, "window/workDoneProgress/cancel")
    || str_eq(m, "workspace/willRenameFiles")
    || str_eq(m, "workspace/didRenameFiles")
    || str_eq(m, "workspace/willDeleteFiles")
    || str_eq(m, "workspace/didDeleteFiles")
    || str_eq(m, "workspace/willCreateFiles")
    || str_eq(m, "workspace/didCreateFiles")
    || str_eq(m, "workspace/applyEdit")
    || str_eq(m, "workspace/textDocumentContent")
    || str_eq(m, "$/test/slowOperation")
}

/// Lifecycle methods, which never trigger compatibility initialization.
pub open spec fn is_lifecycle_method(m: Seq<char>) -> bool {
    m == "initialize"@ || m == "initialized"@ || m == "shutdown"@ || m == "exit"@
}

/// Everything but the lifecycle flags and the cancelled ids is the same:
/// trace level, root, folders, client capabilities, pull support,
/// advertised features and the warnings already shown.
pub open spec fn same_settings(s0: LspServer, s1: LspServer) -> bool {
    &&& s1.trace_level@ == s0.trace_level@
    &&& s1.root_path == s0.root_path
    &&& s1.workspace_folders@ == s0.workspace_folders@
    &&& s1.client_capabilities == s0.client_capabilities
    &&& s1.client_supports_pull_diags == s0.client_supports_pull_diags
    &&& s1.advertised_features == s0.advertised_features
    &&& s1.critic_workspace_warnings_sent@ == s0.critic_workspace_warnings_sent@
}

/// The state is left exactly as it was.
pub open spec fn unchanged(s0: LspServer, s1: LspServer) -> bool {
    &&& s1.lifecycle() == s0.lifecycle()
    &&& s1.cancelled@ == s0.cancelled@
    &&& same_settings(s0, s1)
}

/// What handling `request` in state `s0` does: the outcome `out` and the
/// next state `s1`.
pub open spec fn handled(s0: LspServer, s1: LspServer, request: JsonRpcRequest, out: RequestOutcome) -> bool {
    let id = effective_id(request.id);
    let m = request.method@;
    if m == "$/cancelRequest"@ {
        &&& out matches RequestOutcome::Respond(None)
        &&& s1.lifecycle() == s0.lifecycle()
        &&& same_settings(s0, s1)
        &&& s1.cancelled@ == match spec_get_opt(request.params, "id"@) {
            Some(v) => s0.cancelled@.push(v),
            None => s0.cancelled@,
        }
    } else if id is Some && id_listed(s0.cancelled@, id.unwrap()) {
        &&& answers_error(id, out, REQUEST_CANCELLED)
        &&& unchanged(s0, s1)
    } else {
        let auto = !s0.initialized && s0.initialize_requested && !is_lifecycle_method(m);
        let initialized = s0.initialized || auto;
        if m == "initialize"@ {
            &&& s0.initialize_requested ==> (answers_error(id, out, INVALID_REQUEST) && unchanged(s0, s1))
            &&& !s0.initialize_requested ==> {
                &&& out matches RequestOutcome::Initialize { id: oid, params: op } && oid == id && op == request.params
                &&& s1.initialize_requested
                &&& s1.initialized == s0.initialized
                &&& s1.shutdown_received == s0.shutdown_received
                &&& s1.cancelled@ == s0.cancelled@
                &&& s1.trace_level@ == s0.trace_level@
                &&& s1.advertised_features == s0.advertised_features
                &&& s1.critic_workspace_warnings_sent@ == s0.critic_workspace_warnings_sent@
                &&& (request.params matches Some(p) ==> initialize_params_read(s0, s1, p))
                &&& (request.params is None ==> same_settings(s0, s1))
            }
        } else if m == "initialized"@ {
            &&& !s0.initialize_requested ==> answers_error(id, out, SERVER_NOT_INITIALIZED)
            &&& s0.initialize_requested && s0.initialized ==> answers_error(id, out, INVALID_REQUEST)
            &&& s0.initialize_requested && !s0.initialized ==> (out matches RequestOutcome::Respond(None))
            &&& s1.initialized == s0.initialize_requested
            &&& s1.initialize_requested == s0.initialize_requested
            &&& s1.shutdown_received == s0.shutdown_received
            &&& s1.cancelled@ == s0.cancelled@
            &&& same_settings(s0, s1)
        } else if !s0.initialize_requested && m != "exit"@ {
            &&& answers_error(id, out, SERVER_NOT_INITIALIZED)
            &&& unchanged(s0, s1)
        } else if m == "shutdown"@ {
            &&& s0.shutdown_received ==> (answers_error(id, out, INVALID_REQUEST) && s1.cancelled@ == s0.cancelled@)
            &&& !s0.shutdown_received ==> (id is Some ==> (out matches RequestOutcome::Respond(Some(r))
                && r.id == id && r.error is None && (r.result matches Some(v) && v is Null)))
            &&& !s0.shutdown_received ==> (id is None ==> (out matches RequestOutcome::Respond(None)))
            &&& !s0.shutdown_received ==> s1.cancelled@.len() == 0
            &&& s1.shutdown_received
            &&& s1.initialize_requested == s0.initialize_requested
            &&& s1.initialized == s0.initialized
            &&& same_settings(s0, s1)
        } else if m == "exit"@ {
            &&& out == RequestOutcome::Exit(if s0.shutdown_received { 0i32 } else { 1i32 })
            &&& unchanged(s0, s1)
        } else {
            &&& s1.initialized == initialized
            &&& s1.initialize_requested == s0.initialize_requested
            &&& s1.shutdown_received == s0.shutdown_received
            &&& s1.cancelled@ == s0.cancelled@
            &&& s1.root_path == s0.root_path
            &&& s1.workspace_folders@ == s0.workspace_folders@
            &&& s1.client_capabilities == s0.client_capabilities
            &&& s1.client_supports_pull_diags == s0.client_supports_pull_diags
            &&& s1.advertised_features == s0.advertised_features
            &&& s1.critic_workspace_warnings_sent@ == s0.critic_workspace_warnings_sent@
            &&& if m == "$/setTrace"@ {
                &&& out matches RequestOutcome::Respond(None)
                &&& s1.trace_level@ == match spec_as_str(spec_get_opt(request.params, "value"@)) {
                    Some(v) => normalized_trace(Some(v)),
                    None => s0.trace_level@,
                }
            } else {
                &&& s1.trace_level@ == s0.trace_level@
                &&& if is_handler_method(m) {
                    (out matches RequestOutcome::Delegate { id: oid, method: om, params: op }
                        && oid == id && om@ == m && op == request.params)
                } else {
                    answers_error(id, out, METHOD_NOT_FOUND)
                }
            }
        }
    }
}

/// Once `initialize` has been accepted it stays accepted, once the server is
/// initialized it stays initialized, and once `shutdown` has been accepted it
/// stays accepted, whatever message comes next.
pub proof fn lemma_lifecycle_flags_are_permanent(s0: LspServer, s1: LspServer, request: JsonRpcRequest, out: RequestOutcome)
    requires
        s0.wf(),
        handled(s0, s1, request, out),
    ensures
        s0.initialize_requested ==> s1.initialize_requested,
        s0.initialized ==> s1.initialized,
        s0.shutdown_received ==> s1.shutdown_received,
{
}

/// A notification (no id, or a `null` id) is never answered, and the
/// handlers it is passed to get no id either.
pub proof fn lemma_notifications_are_not_answered(s0: LspServer, s1: LspServer, request: JsonRpcRequest, out: RequestOutcome)
    requires
        handled(s0, s1, request, out),
        effective_id(request.id) is None,
    ensures
        !(out matches RequestOutcome::Respond(Some(_))),
        out matches RequestOutcome::Initialize { id, .. } ==> id is None,
        out matches RequestOutcome::Delegate { id, .. } ==> id is None,
{
}

/// After `$/cancelRequest` names an id, a request with that id is answered
/// "request cancelled", whatever its method.
pub proof fn lemma_cancelled_request_is_refused(
    s0: LspServer,
    s1: LspServer,
    s2: LspServer,
    cancel: JsonRpcRequest,
    out1: RequestOutcome,
    request: JsonRpcRequest,
    out2: RequestOutcome,
)
    requires
        handled(s0, s1, cancel, out1),
        cancel.method@ == "$/cancelRequest"@,
        spec_get_opt(cancel.params, "id"@) matches Some(x) && effective_id(request.id) matches Some(y) && same_id(x, y),
        request.method@ != "$/cancelRequest"@,
        handled(s1, s2, request, out2),
    ensures
        answers_error(effective_id(request.id), out2, REQUEST_CANCELLED),
{
    let x = spec_get_opt(cancel.params, "id"@).unwrap();
    let y = effective_id(request.id).unwrap();
    let i = s0.cancelled@.len() as int;
    assert(s1.cancelled@[i] == x);
    assert(id_listed(s1.cancelled@, y));
}

/// A second `initialize` is refused with "invalid request" (unless its id
/// was cancelled, which is answered first).
pub proof fn lemma_initialize_is_accepted_once(
    s0: LspServer,
    s1: LspServer,
    s2: LspServer,
    first: JsonRpcRequest,
    out1: RequestOutcome,
    second: JsonRpcRequest,
    out2: RequestOutcome,
)
    requires
        handled(s0, s1, first, out1),
        out1 is Initialize,
        handled(s1, s2, second, out2),
        second.method@ == "initialize"@,
        !(effective_id(second.id) matches Some(y) && id_listed(s1.cancelled@, y)),
    ensures
        answers_error(effective_id(second.id), out2, INVALID_REQUEST),
{
}

/// `exit` after an accepted `shutdown` exits with code 0; without one it
/// exits with code 1.
pub proof fn lemma_exit_code_follows_shutdown(
    s0: LspServer,
    s1: LspServer,
    s2: LspServer,
    shutdown: JsonRpcRequest,
    out1: RequestOutcome,
    exit: JsonRpcRequest,
    out2: RequestOutcome,
)
    requires
        s0.initialize_requested,
        handled(s0, s1, shutdown, out1),
        shutdown.method@ == "shutdown"@,
        !(effective_id(shutdown.id) matches Some(y) && id_listed(s0.cancelled@, y)),
        handled(s1, s2, exit, out2),
        exit.method@ == "exit"@,
        effective_id(exit.id) is None,
    ensures
        out2 == RequestOutcome::Exit(0),
{
    reveal_strlit("exit");
    reveal_strlit("shutdown");
    reveal_strlit("initialize");
    reveal_strlit("initialized");
    reveal_strlit("$/cancelRequest");
    assert("exit"@.len() == 4);
    assert("shutdown"@.len() == 8);
    assert("initialize"@.len() == 10);
    assert("initialized"@.len() == 11);
    assert("$/cancelRequest"@.len() == 15);
}

/// Before `initialize`, every request but `initialize` and `exit` (and
/// `$/cancelRequest`) is refused with "server not initialized" and leaves
/// the state as it was; `shutdown` and `initialized` included.
pub proof fn lemma_requests_before_initialize_are_refused(s0: LspServer, s1: LspServer, request: JsonRpcRequest, out: RequestOutcome)
    requires
        s0.wf(),
        handled(s0, s1, request, out),
        !s0.initialize_requested,
        request.method@ != "initialize"@,
        request.method@ != "exit"@,
        request.method@ != "$/cancelRequest"@,
        !(effective_id(request.id) matches Some(y) && id_listed(s0.cancelled@, y)),
    ensures
        answers_error(effective_id(request.id), out, SERVER_NOT_INITIALIZED),
        s1.lifecycle() == s0.lifecycle(),
        s1.cancelled@ == s0.cancelled@,
        same_settings(s0, s1),
{
}

/// Requests are accepted after `initialize` even without the `initialized`
/// notification: once `initialize` was accepted, a later request whose id
/// was not cancelled before is routed, and an unknown method gets "method
/// not found".
pub proof fn lemma_unknown_method_after_initialize(
    s0: LspServer,
    s1: LspServer,
    s2: LspServer,
    init: JsonRpcRequest,
    out1: RequestOutcome,
    request: JsonRpcRequest,
    out2: RequestOutcome,
)
    requires
        handled(s0, s1, init, out1),
        init.method@ == "initialize"@,
        !s0.initialize_requested,
        !(effective_id(init.id) matches Some(y) && id_listed(s0.cancelled@, y)),
        handled(s1, s2, request, out2),
        !is_lifecycle_method(request.method@),
        request.method@ != "$/cancelRequest"@,
        request.method@ != "$/setTrace"@,
        !is_handler_method(request.method@),
        !(effective_id(request.id) matches Some(y) && id_listed(s0.cancelled@, y)),
    ensures
        out1 is Initialize,
        answers_error(effective_id(request.id), out2, METHOD_NOT_FOUND),
        s2.initialized,
{
    reveal_strlit("initialize");
    reveal_strlit("$/cancelRequest");
    assert("initialize"@.len() == 10);
    assert("$/cancelRequest"@.len() == 15);
}

/// After `initialize` has been accepted, any request that is not a
/// lifecycle message initializes the server, even without the
/// `initialized` notification.
pub proof fn lemma_requests_after_initialize_initialize(s0: LspServer, s1: LspServer, request: JsonRpcRequest, out: RequestOutcome)
    requires
        handled(s0, s1, request, out),
        s0.initialize_requested,
        !is_lifecycle_method(request.method@),
        request.method@ != "$/cancelRequest"@,
        !(effective_id(request.id) matches Some(y) && id_listed(s0.cancelled@, y)),
    ensures
        s1.initialized,
        !is_handler_method(request.method@) && request.method@ != "$/setTrace"@ ==> answers_error(effective_id(request.id), out, METHOD_NOT_FOUND),
{
}

impl LspServer {
    /// Whether the client asked to cancel the request `id`.
    pub fn is_cancelled(&self, id: &JsonValue) -> (r: bool)
        ensures
            r == id_listed(self.cancelled@, *id),
    {
        let mut i: usize = 0;
        while i < self.cancelled.len()
            invariant
                i <= self.cancelled.len(),
                forall|j: int| 0 <= j < i ==> !same_id(self.cancelled@[j], *id),
            decreases self.cancelled.len() - i,
        {
            if id_eq(&self.cancelled[i], id) {
                return true;
            }
            i = i + 1;
        }
        false
    }

    /// Record that the client asked to cancel the request `id`.
    pub fn cancel_mark(&mut self, id: JsonValue)
        ensures
            final(self).cancelled@ == old(self).cancelled@.push(id),
            final(self).lifecycle() == old(self).lifecycle(),
            final(self).trace_level@ == old(self).trace_level@,
            final(self).root_path == old(self).root_path,
            final(self).workspace_folders@ == old(self).workspace_folders@,
            final(self).client_capabilities == old(self).client_capabilities,
            final(self).client_supports_pull_diags == old(self).client_supports_pull_diags,
            final(self).advertised_features == old(self).advertised_features,
            final(self).critic_workspace_warnings_sent@ == old(self).critic_workspace_warnings_sent@,
    {
        self.cancelled.push(id);
    }

    /// Handle a JSON-RPC message.
    ///
    /// `$/cancelRequest` records the id to cancel. A request whose id was
    /// cancelled is answered "request cancelled". Before `initialize` every
    /// method but `initialize` and `exit` is refused with "server not
    /// initialized"; after `initialize`, a client
    /// that skips `initialized` is initialized on its first other request.
    /// Unknown methods get "method not found". Notifications (no id, or a
    /// `null` id) are never answered.
    pub fn handle_request(&mut self, request: JsonRpcRequest) -> (out: RequestOutcome)
        requires
            old(self).wf(),
        ensures
            final(self).wf(),
            handled(*old(self), *final(self), request, out),
    {
        let id = match request.id {
            Some(JsonValue::Null) => None,
            other => other,
        };
        let method = request.method;
        let params = request.params;

        if str_eq(method.as_str(), "$/cancelRequest") {
            if let Some(p) = params {
                if let Some(idv) = p.into_member("id") {
                    self.cancel_mark(idv);
                }
            }
            return RequestOutcome::Respond(None);
        }

        if let Some(rid) = &id {
            if self.is_cancelled(rid) {
                let err = JsonRpcError { code: REQUEST_CANCELLED, message: owned("Request cancelled"), data: None };
                return RequestOutcome::Respond(finish_response(id, Err(err)));
            }
        }

        let lifecycle = str_eq(method.as_str(), "initialize") || str_eq(method.as_str(), "initialized")
        || str_eq(method.as_str(), "shutdown") || str_eq(method.as_str(), "exit");
        if !self.initialized && self.initialize_requested && !lifecycle {
            self.auto_initialize_for_compat(method.as_str());
        }

        if str_eq(method.as_str(), "initialize") {
            match self.handle_initialize(params.as_ref()) {
                Ok(()) => {
                    return RequestOutcome::Initialize { id, params };
                },
                Err(e) => {
                    return RequestOutcome::Respond(finish_response(id, Err(e)));
                },
            }
        }
        if str_eq(method.as_str(), "initialized") {
            let r = self.handle_initialized_dispatch();
            return RequestOutcome::Respond(finish_response(id, r));
        }
        if !self.initialize_requested && !str_eq(method.as_str(), "exit") {
            let err = JsonRpcError { code: SERVER_NOT_INITIALIZED, message: owned("Server not initialized"), data: None };
            return RequestOutcome::Respond(finish_response(id, Err(err)));
        }
        if str_eq(method.as_str(), "shutdown") {
            let r = self.handle_shutdown_dispatch();
            return RequestOutcome::Respond(finish_response(id, r));
        }
        if str_eq(method.as_str(), "exit") {
            return RequestOutcome::Exit(self.handle_exit_dispatch());
        }
        if str_eq(method.as_str(), "$/setTrace") {
            let r = self.handle_set_trace_dispatch(params.as_ref());
            return RequestOutcome::Respond(finish_response(id, r));
        }
        if handler_method(method.as_str()) {
            return RequestOutcome::Delegate { id, method, params };
        }
        let mut message = owned("Method '");
        message.append(method.as_str());
        message.append("' not found or not supported");
        let err = JsonRpcError { code: METHOD_NOT_FOUND, message, data: None };
        RequestOutcome::Respond(finish_response(id, Err(err)))
    }
}

} // verus!
