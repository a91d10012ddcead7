//! Server lifecycle: `initialize`, `initialized`, `shutdown`, `exit` and `$/setTrace`.
use vstd::prelude::*;
use crate::json::{JsonValue, spec_get, spec_as_str};
use crate::text::{str_eq, owned};
use crate::capabilities::{ClientCapabilities, BuildFlags, caps_read, resolve_properties, is_string_set_of, read_client_capabilities, apply_initialization_options, disabled_all, disabled_feature_ids};
use crate::json::{spec_get_opt, get_opt, opt_val};
use crate::uri::{uri_to_file_path, file_path_of_uri, path_to_file_uri, file_uri_of_path};

verus! {

/// JSON-RPC "server not initialized" error code.
pub const SERVER_NOT_INITIALIZED: i32 = -32002;
/// JSON-RPC "invalid request" error code.
pub const INVALID_REQUEST: i32 = -32600;
/// JSON-RPC "method not found" error code.
pub const METHOD_NOT_FOUND: i32 = -32601;
/// JSON-RPC "invalid params" error code.
pub const INVALID_PARAMS: i32 = -32602;
/// LSP "request cancelled" error code.
pub const REQUEST_CANCELLED: i32 = -32800;
/// JSON-RPC "internal error" error code.
pub const INTERNAL_ERROR: i32 = -32603;
/// LSP "content modified" error code.
pub const CONTENT_MODIFIED: i32 = -32801;

/// A JSON-RPC error object.
#[derive(Debug)]
pub struct JsonRpcError {
    pub code: i32,
    pub message: String,
    pub data: Option<JsonValue>,
}

/// The state of the language server that the request handlers read and change.
pub struct LspServer {
    /// An `initialize` request has been accepted.
    pub initialize_requested: bool,
    /// Initialization has completed (explicitly or for compatibility).
    pub initialized: bool,
    /// A `shutdown` request has been accepted.
    pub shutdown_received: bool,
    /// The current trace level: "off", "messages" or "verbose".
    pub trace_level: String,
    /// Request ids that the client asked to cancel.
    pub cancelled: Vec<JsonValue>,
    /// Filesystem path of the workspace root, when one is known.
    pub root_path: Option<String>,
    /// URIs of the workspace folders, in the order they were given.
    pub workspace_folders: Vec<String>,
    /// What the client said it supports during `initialize`.
    pub client_capabilities: ClientCapabilities,
    /// The client pulls diagnostics itself (no push publishing).
    pub client_supports_pull_diags: bool,
    /// The features advertised to the client.
    pub advertised_features: BuildFlags,
    /// Keys of workspace warnings already shown to the user.
    pub critic_workspace_warnings_sent: Vec<String>,
}

/// The three trace levels of LSP's `TraceValue`.
pub open spec fn is_trace_level(s: Seq<char>) -> bool {
    s == "off"@ || s == "messages"@ || s == "verbose"@
}

/// The level a `$/setTrace` value selects: a known level is kept, anything else is "off".
pub open spec fn normalized_trace(value: Option<Seq<char>>) -> Seq<char> {
    match value {
        Some(v) => if v == "off"@ {
            "off"@
        } else if v == "messages"@ {
            "messages"@
        } else if v == "verbose"@ {
            "verbose"@
        } else {
            "off"@
        },
        None => "off"@,
    }
}

/// The lifecycle flags of a server.
pub struct Lifecycle {
    pub initialize_requested: bool,
    pub initialized: bool,
    pub shutdown_received: bool,
}

impl Default for LspServer {
    /// A new server, as `LspServer::new` creates it.
    fn default() -> (s: Self)
        ensures
            s.wf(),
            !s.initialize_requested,
            !s.initialized,
            !s.shutdown_received,
            s.trace_level@ == "off"@,
            s.cancelled@.len() == 0,
            s.root_path is None,
            s.workspace_folders@.len() == 0,
            s.client_capabilities == ClientCapabilities::spec_default(),
            !s.client_supports_pull_diags,
            s.advertised_features == BuildFlags::spec_all(),
            s.critic_workspace_warnings_sent@.len() == 0,
    {
        LspServer::new()
    }
}

impl LspServer {
    /// The lifecycle flags of this server.
    pub open spec fn lifecycle(&self) -> Lifecycle {
        Lifecycle {
            initialize_requested: self.initialize_requested,
            initialized: self.initialized,
            shutdown_received: self.shutdown_received,
        }
    }

    /// The invariant every reachable server state keeps: the server is only
    /// initialized after an `initialize` request, and its trace level is a
    /// known level.
    pub open spec fn wf(&self) -> bool {
        &&& self.initialized ==> self.initialize_requested
        &&& is_trace_level(self.trace_level@)
    }

    /// Everything but the lifecycle flags is the same in both states.
    pub open spec fn same_except_lifecycle(&self, other: &LspServer) -> bool {
        &&& self.trace_level@ == other.trace_level@
        &&& self.cancelled@ == other.cancelled@
        &&& self.root_path == other.root_path
        &&& self.workspace_folders@ == other.workspace_folders@
        &&& self.client_capabilities == other.client_capabilities
        &&& self.client_supports_pull_diags == other.client_supports_pull_diags
        &&& self.advertised_features == other.advertised_features
        &&& self.critic_workspace_warnings_sent@ == other.critic_workspace_warnings_sent@
    }

    /// Create a new LSP server: nothing requested yet, tracing off.
    pub fn new() -> (s: Self)
        ensures
            s.wf(),
            !s.initialize_requested,
            !s.initialized,
            !s.shutdown_received,
            s.trace_level@ == "off"@,
            s.cancelled@.len() == 0,
            s.root_path is None,
            s.workspace_folders@.len() == 0,
            s.client_capabilities == ClientCapabilities::spec_default(),
            !s.client_supports_pull_diags,
            s.advertised_features == BuildFlags::spec_all(),
            s.critic_workspace_warnings_sent@.len() == 0,
    {
        LspServer::new_with_feature_profile(BuildFlags::all())
    }

    /// A new server that advertises the features of a feature profile
    /// (`advertised_features`, what the profile enables).
    pub fn new_with_feature_profile(advertised_features: BuildFlags) -> (s: Self)
        ensures
            s.wf(),
            !s.initialize_requested,
            !s.initialized,
            !s.shutdown_received,
            s.trace_level@ == "off"@,
            s.cancelled@.len() == 0,
            s.root_path is None,
            s.workspace_folders@.len() == 0,
            s.client_capabilities == ClientCapabilities::spec_default(),
            !s.client_supports_pull_diags,
            s.advertised_features == advertised_features,
            s.critic_workspace_warnings_sent@.len() == 0,
    {
        LspServer {
            initialize_requested: false,
            initialized: false,
            shutdown_received: false,
            trace_level: owned("off"),
            cancelled: Vec::new(),
            root_path: None,
            workspace_folders: Vec::new(),
            client_capabilities: ClientCapabilities::default_caps(),
            client_supports_pull_diags: false,
            advertised_features,
            critic_workspace_warnings_sent: Vec::new(),
        }
    }

    /// Map a `$/setTrace` value onto one of the three trace levels.
    pub fn normalize_trace_level(value: Option<&str>) -> (r: &'static str)
        ensures
            r@ == normalized_trace(match value {
                Some(v) => Some(v@),
                None => None,
            }),
    {
        match value {
            Some(v) => {
                if str_eq(v, "off") {
                    "off"
                } else if str_eq(v, "messages") {
                    "messages"
                } else if str_eq(v, "verbose") {
                    "verbose"
                } else {
                    "off"
                }
            },
            None => "off",
        }
    }

    /// Mark initialization complete; a second completion changes nothing.
    pub fn complete_initialization(&mut self)
        ensures
            final(self).initialized,
            final(self).initialize_requested == old(self).initialize_requested,
            final(self).shutdown_received == old(self).shutdown_received,
            final(self).same_except_lifecycle(old(self)),
    {
        if self.initialized {
            return;
        }
        self.initialized = true;
    }

    /// Complete initialization for clients that skip the `initialized`
    /// notification, once `initialize` has been accepted.
    pub fn auto_initialize_for_compat(&mut self, method: &str)
        ensures
            final(self).initialized == (old(self).initialized || old(self).initialize_requested),
            final(self).initialize_requested == old(self).initialize_requested,
            final(self).shutdown_received == old(self).shutdown_received,
            final(self).same_except_lifecycle(old(self)),
    {
        if self.initialize_requested && !self.initialized {
            self.complete_initialization();
        }
    }

    /// Handle the `initialized` notification.
    pub fn handle_initialized_dispatch(&mut self) -> (r: Result<Option<JsonValue>, JsonRpcError>)
        ensures
            !old(self).initialize_requested ==> (r matches Err(e) && e.code == SERVER_NOT_INITIALIZED
                && final(self).initialized == old(self).initialized),
            old(self).initialize_requested && old(self).initialized ==> (r matches Err(e) && e.code
                == INVALID_REQUEST && final(self).initialized),
            old(self).initialize_requested && !old(self).initialized ==> (r matches Ok(None)
                && final(self).initialized),
            final(self).initialize_requested == old(self).initialize_requested,
            final(self).shutdown_received == old(self).shutdown_received,
            final(self).same_except_lifecycle(old(self)),
    {
        if !self.initialize_requested {
            return Err(
                JsonRpcError {
                    code: SERVER_NOT_INITIALIZED,
                    message: owned("Server not initialized"),
                    data: None,
                },
            );
        }
        if self.initialized {
            return Err(
                JsonRpcError {
                    code: INVALID_REQUEST,
                    message: owned("initialized notification may only be sent once"),
                    data: None,
                },
            );
        }
        self.complete_initialization();
        Ok(None)
    }

    /// Handle the `shutdown` request: accepted once, refused afterwards.
    pub fn handle_shutdown_dispatch(&mut self) -> (r: Result<Option<JsonValue>, JsonRpcError>)
        ensures
            old(self).shutdown_received ==> (r matches Err(e) && e.code == INVALID_REQUEST
                && final(self).cancelled@ == old(self).cancelled@),
            !old(self).shutdown_received ==> (r matches Ok(Some(v)) && v is Null
                && final(self).cancelled@.len() == 0),
            final(self).shutdown_received,
            final(self).initialize_requested == old(self).initialize_requested,
            final(self).initialized == old(self).initialized,
            final(self).trace_level@ == old(self).trace_level@,
            final(self).root_path == old(self).root_path,
            final(self).workspace_folders@ == old(self).workspace_folders@,
            final(self).client_capabilities == old(self).client_capabilities,
            final(self).client_supports_pull_diags == old(self).client_supports_pull_diags,
            final(self).advertised_features == old(self).advertised_features,
            final(self).critic_workspace_warnings_sent@ == old(self).critic_workspace_warnings_sent@,
    {
        if self.shutdown_received {
            return Err(
                JsonRpcError {
                    code: INVALID_REQUEST,
                    message: owned("shutdown request may only be sent once"),
                    data: None,
                },
            );
        }
        self.shutdown_received = true;
        self.cancelled = Vec::new();
        Ok(Some(JsonValue::Null))
    }

    /// The process exit code for the `exit` notification: 0 after a
    /// shutdown request, 1 otherwise.
    pub fn handle_exit_dispatch(&self) -> (code: i32)
        ensures
            code == (if self.shutdown_received { 0i32 } else { 1i32 }),
    {
        if self.shutdown_received {
            0
        } else {
            1
        }
    }

    /// Handle the `$/setTrace` notification. A string `value` selects the
    /// level (unknown strings select "off"); a missing or non-string value,
    /// or missing params, leave the level unchanged.
    pub fn handle_set_trace_dispatch(&mut self, params: Option<&JsonValue>) -> (r: Result<
        Option<JsonValue>,
        JsonRpcError,
    >)
        ensures
            r matches Ok(None),
            final(self).trace_level@ == (match params {
                Some(p) => match spec_as_str(spec_get(*p, "value"@)) {
                    Some(v) => normalized_trace(Some(v)),
                    None => old(self).trace_level@,
                },
                None => old(self).trace_level@,
            }),
            final(self).lifecycle() == old(self).lifecycle(),
            final(self).cancelled@ == old(self).cancelled@,
            final(self).root_path == old(self).root_path,
            final(self).workspace_folders@ == old(self).workspace_folders@,
            final(self).client_capabilities == old(self).client_capabilities,
            final(self).client_supports_pull_diags == old(self).client_supports_pull_diags,
            final(self).advertised_features == old(self).advertised_features,
            final(self).critic_workspace_warnings_sent@ == old(self).critic_workspace_warnings_sent@,
    {
        if let Some(p) = params {
            if let Some(v) = p.get("value") {
                if let Some(s) = v.as_str() {
                    let level = Self::normalize_trace_level(Some(s));
                    self.trace_level = owned(level);
                }
            }
        }
        Ok(None)
    }

    /// Decide the `$/logTrace` notification for `message`: none while tracing
    /// is off; the `verbose` text is attached only at the "verbose" level.
    pub fn send_log_trace(&self, message: &str, verbose: Option<&str>) -> (r: Option<(String, Option<String>)>)
        ensures
            self.trace_level@ == "off"@ ==> r is None,
            self.trace_level@ != "off"@ ==> (r matches Some((m, v)) && m@ == message@ && (match v {
                Some(vt) => self.trace_level@ == "verbose"@ && (verbose matches Some(x) && vt@ == x@),
                None => self.trace_level@ != "verbose"@ || verbose is None,
            })),
    {
        if str_eq(self.trace_level.as_str(), "off") {
            return None;
        }
        let v = if str_eq(self.trace_level.as_str(), "verbose") {
            match verbose {
                Some(x) => Some(owned(x)),
                None => None,
            }
        } else {
            None
        };
        Some((owned(message), v))
    }
}


/// The `uri` strings of the workspace folders listed in `initialize`, in order.
pub open spec fn folder_uris(items: Seq<JsonValue>) -> Seq<Seq<char>>
    decreases items.len(),
{
    if items.len() == 0 {
        Seq::empty()
    } else {
        let rest = folder_uris(items.drop_last());
        match spec_as_str(spec_get(items.last(), "uri"@)) {
            Some(u) => rest.push(u),
            None => rest,
        }
    }
}

/// The workspace folders and root path that the `initialize` params `p` select,
/// given the previous ones: the `workspaceFolders` array wins, then `rootUri`,
/// then the legacy `rootPath`.
#[verifier::opaque]
pub open spec fn workspace_after(p: JsonValue, folders: Seq<Seq<char>>, root: Option<Seq<char>>) -> (Seq<Seq<char>>, Option<Seq<char>>) {
    match spec_get(p, "workspaceFolders"@) {
        Some(JsonValue::Arr(items)) => {
            let uris = folder_uris(items@);
            (folders + uris, if uris.len() > 0 { file_path_of_uri(uris[0]) } else { root })
        },
        _ => match spec_as_str(spec_get(p, "rootUri"@)) {
            Some(u) => (folders.push(u), file_path_of_uri(u)),
            None => match spec_as_str(spec_get(p, "rootPath"@)) {
                Some(path) => {
                    let u = match file_uri_of_path(path) {
                        Some(x) => x,
                        None => path,
                    };
                    (folders.push(u), file_path_of_uri(u))
                },
                None => (folders, root),
            },
        },
    }
}

pub open spec fn opt_views(v: Option<String>) -> Option<Seq<char>> {
    match v {
        Some(s) => Some(s@),
        None => None,
    }
}

pub open spec fn views(v: Seq<String>) -> Seq<Seq<char>> {
    v.map_values(|s: String| s@)
}

/// How the state `new` follows from `old` after reading the `initialize`
/// params `p`: capabilities, pull-diagnostics support, workspace folders and root.
pub open spec fn initialize_params_read(old: LspServer, new: LspServer, p: JsonValue) -> bool {
    let (folders, root) = workspace_after(p, views(old.workspace_folders@), opt_views(old.root_path));
    &&& caps_read(p, old.client_capabilities) == (ClientCapabilities { inlay_hint_resolve_support: old.client_capabilities.inlay_hint_resolve_support, ..new.client_capabilities })
    &&& (resolve_properties(p) is None ==> new.client_capabilities.inlay_hint_resolve_support == old.client_capabilities.inlay_hint_resolve_support)
    &&& (resolve_properties(p) matches Some(props) ==> (new.client_capabilities.inlay_hint_resolve_support matches Some(v) && is_string_set_of(v@, props)))
    &&& new.client_supports_pull_diags == (old.client_supports_pull_diags
        || spec_get_opt(spec_get_opt(spec_get(p, "capabilities"@), "textDocument"@), "diagnostic"@) is Some)
    &&& views(new.workspace_folders@) == folders
    &&& opt_views(new.root_path) == root
}

impl LspServer {
    /// Set the root path from the root URI: the URI's file path, or none
    /// when the URI is not a usable `file:` URI.
    pub fn set_root_uri(&mut self, root_uri: &str)
        ensures
            opt_views(final(self).root_path) == file_path_of_uri(root_uri@),
            final(self).lifecycle() == old(self).lifecycle(),
            final(self).trace_level@ == old(self).trace_level@,
            final(self).cancelled@ == old(self).cancelled@,
            final(self).workspace_folders@ == old(self).workspace_folders@,
            final(self).client_capabilities == old(self).client_capabilities,
            final(self).client_supports_pull_diags == old(self).client_supports_pull_diags,
            final(self).advertised_features == old(self).advertised_features,
            final(self).critic_workspace_warnings_sent@ == old(self).critic_workspace_warnings_sent@,
    {
        self.root_path = uri_to_file_path(root_uri);
    }

    /// Handle the state part of the `initialize` request: accepted once
    /// (refused with "invalid request" afterwards), it records the client's
    /// capabilities, whether it pulls diagnostics, and the workspace folders
    /// and root. Loading project configuration, probing for tools and
    /// building the capabilities reply follow outside this function.
    pub fn handle_initialize(&mut self, params: Option<&JsonValue>) -> (r: Result<(), JsonRpcError>)
        ensures
            old(self).initialize_requested ==> (r matches Err(e) && e.code == INVALID_REQUEST
                && final(self).lifecycle() == old(self).lifecycle()
                && final(self).root_path == old(self).root_path
                && final(self).workspace_folders@ == old(self).workspace_folders@
                && final(self).client_capabilities == old(self).client_capabilities
                && final(self).client_supports_pull_diags == old(self).client_supports_pull_diags),
            !old(self).initialize_requested ==> (r is Ok && final(self).initialize_requested
                && final(self).initialized == old(self).initialized
                && final(self).shutdown_received == old(self).shutdown_received),
            !old(self).initialize_requested && params is None ==> (
                final(self).root_path == old(self).root_path
                && final(self).workspace_folders@ == old(self).workspace_folders@
                && final(self).client_capabilities == old(self).client_capabilities
                && final(self).client_supports_pull_diags == old(self).client_supports_pull_diags),
            !old(self).initialize_requested && params is Some ==> initialize_params_read(*old(self), *final(self), *params.unwrap()),
            final(self).trace_level@ == old(self).trace_level@,
            final(self).cancelled@ == old(self).cancelled@,
            final(self).advertised_features == old(self).advertised_features,
            final(self).critic_workspace_warnings_sent@ == old(self).critic_workspace_warnings_sent@,
    {
        if self.initialize_requested {
            return Err(
                JsonRpcError {
                    code: INVALID_REQUEST,
                    message: owned("initialize may only be sent once"),
                    data: None,
                },
            );
        }
        self.initialize_requested = true;
        if let Some(p) = params {
            self.read_initialize_params(p);
        }
        Ok(())
    }

    /// Record what the `initialize` params `p` say about the client and the workspace.
    fn read_initialize_params(&mut self, p: &JsonValue)
        ensures
            initialize_params_read(*old(self), *final(self), *p),
            final(self).lifecycle() == old(self).lifecycle(),
            final(self).trace_level@ == old(self).trace_level@,
            final(self).cancelled@ == old(self).cancelled@,
            final(self).advertised_features == old(self).advertised_features,
            final(self).critic_workspace_warnings_sent@ == old(self).critic_workspace_warnings_sent@,
    {
        let mut prev = ClientCapabilities::default_caps();
        core::mem::swap(&mut prev, &mut self.client_capabilities);
        let caps = read_client_capabilities(p, prev);
        self.client_capabilities = caps;
        let supports_pull = get_opt(get_opt(p.get("capabilities"), "textDocument"), "diagnostic").is_some();
        if supports_pull {
            self.client_supports_pull_diags = true;
        }
        self.read_workspace_roots(p);
    }

    /// Record the workspace folders and root that the `initialize` params select.
    fn read_workspace_roots(&mut self, p: &JsonValue)
        ensures
            ({
                let (folders, root) = workspace_after(*p, views(old(self).workspace_folders@), opt_views(old(self).root_path));
                &&& views(final(self).workspace_folders@) == folders
                &&& opt_views(final(self).root_path) == root
            }),
            final(self).lifecycle() == old(self).lifecycle(),
            final(self).trace_level@ == old(self).trace_level@,
            final(self).cancelled@ == old(self).cancelled@,
            final(self).client_capabilities == old(self).client_capabilities,
            final(self).client_supports_pull_diags == old(self).client_supports_pull_diags,
            final(self).advertised_features == old(self).advertised_features,
            final(self).critic_workspace_warnings_sent@ == old(self).critic_workspace_warnings_sent@,
    {
        reveal(workspace_after);
        let folders = p.get("workspaceFolders");
        match folders {
            Some(JsonValue::Arr(items)) => {
                let mut uris: Vec<String> = Vec::new();
                let mut k: usize = 0;
                while k < items.len()
                    invariant
                        k <= items.len(),
                        views(uris@) == folder_uris(items@.take(k as int)),
                    decreases items.len() - k,
                {
                    let ghost before = uris@;
                    assert(items@.take(k + 1).drop_last() =~= items@.take(k as int));
                    assert(items@.take(k + 1).last() == items@[k as int]);
                    match items[k].get("uri") {
                        Some(u) => match u.as_str() {
                            Some(us) => {
                                uris.push(owned(us));
                                assert(views(uris@) =~= views(before).push(us@));
                            },
                            None => {},
                        },
                        None => {},
                    }
                    k = k + 1;
                }
                assert(items@.take(items.len() as int) =~= items@);
                if uris.len() > 0 {
                    self.set_root_uri(uris[0].as_str());
                }
                let mut nf: Vec<String> = Vec::new();
                core::mem::swap(&mut nf, &mut self.workspace_folders);
                let ghost old_folders = nf@;
                let mut j: usize = 0;
                assert(views(uris@.take(0)) =~= Seq::<Seq<char>>::empty());
                assert(views(old_folders) + views(uris@.take(0)) =~= views(old_folders));
                while j < uris.len()
                    invariant
                        j <= uris.len(),
                        views(nf@) == views(old_folders) + views(uris@.take(j as int)),
                    decreases uris.len() - j,
                {
                    let ghost before = nf@;
                    nf.push(owned(uris[j].as_str()));
                    assert(views(nf@) =~= views(before).push(uris@[j as int]@));
                    assert(views(uris@.take(j + 1)) =~= views(uris@.take(j as int)).push(uris@[j as int]@));
                    j = j + 1;
                }
                assert(uris@.take(uris.len() as int) =~= uris@);
                self.workspace_folders = nf;
            },
            _ => {
                match p.get("rootUri") {
                    Some(JsonValue::Str(u)) => {
                        let ghost before = self.workspace_folders@;
                        self.workspace_folders.push(owned(u.as_str()));
                        assert(views(self.workspace_folders@) =~= views(before).push(u@));
                        self.set_root_uri(u.as_str());
                        return;
                    },
                    _ => {},
                }
                match p.get("rootPath") {
                    Some(JsonValue::Str(path)) => {
                        let u = match path_to_file_uri(path.as_str()) {
                            Some(x) => x,
                            None => owned(path.as_str()),
                        };
                        let ghost before = self.workspace_folders@;
                        self.workspace_folders.push(owned(u.as_str()));
                        assert(views(self.workspace_folders@) =~= views(before).push(u@));
                        self.set_root_uri(u.as_str());
                    },
                    _ => {},
                }
            },
        }
    }

    /// Finish `initialize`: switch off the features the client disabled in
    /// `initializationOptions` and record the result as the advertised features.
    pub fn finish_initialize(&mut self, params: Option<&JsonValue>, flags: BuildFlags) -> (r: BuildFlags)
        ensures
            r == disabled_all(flags, disabled_feature_ids(opt_val(params))),
            final(self).advertised_features == r,
            final(self).lifecycle() == old(self).lifecycle(),
            final(self).trace_level@ == old(self).trace_level@,
            final(self).cancelled@ == old(self).cancelled@,
            final(self).root_path == old(self).root_path,
            final(self).workspace_folders@ == old(self).workspace_folders@,
            final(self).client_capabilities == old(self).client_capabilities,
            final(self).client_supports_pull_diags == old(self).client_supports_pull_diags,
            final(self).critic_workspace_warnings_sent@ == old(self).critic_workspace_warnings_sent@,
    {
        let mut f = flags;
        apply_initialization_options(params, &mut f);
        self.advertised_features = f;
        f
    }
}

} // verus!

verus! {

impl LspServer {
    /// The error for a request made against an older version of a document.
    pub fn content_modified() -> (e: JsonRpcError)
        ensures
            e.code == CONTENT_MODIFIED,
            e.message@ == "Document changed before request executed"@,
            e.data is None,
    {
        JsonRpcError { code: CONTENT_MODIFIED, message: owned("Document changed before request executed"), data: None }
    }

    /// Refuse a request whose document version is older than the version
    /// of the open document (`current_version`, none when the document is
    /// not open); a request without a version is always accepted.
    pub fn ensure_latest(&self, req_version: Option<i32>, current_version: Option<i32>) -> (r: Result<(), JsonRpcError>)
        ensures
            match (req_version, current_version) {
                (Some(v), Some(cur)) => if v < cur {
                    r matches Err(e) && e.code == CONTENT_MODIFIED && e.message@ == "Document changed before request executed"@
                } else {
                    r is Ok
                },
                _ => r is Ok,
            },
    {
        if let Some(v) = req_version {
            if let Some(cur) = current_version {
                if v < cur {
                    return Err(LspServer::content_modified());
                }
            }
        }
        Ok(())
    }
}

} // verus!
