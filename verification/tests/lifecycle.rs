use perl_lsp_runtime::initialize_reply::initialize_result;
use perl_lsp_runtime::capabilities::{apply_disabled_feature_id, BuildFlags};
use perl_lsp_runtime::dispatch::{JsonRpcRequest, RequestOutcome};
use perl_lsp_runtime::json::{JsonMember, JsonValue};
use perl_lsp_runtime::lifecycle::{JsonRpcError, LspServer};

fn obj(members: Vec<(&str, JsonValue)>) -> JsonValue {
    JsonValue::Obj(
        members
            .into_iter()
            .map(|(k, v)| JsonMember { key: k.to_string(), value: v })
            .collect(),
    )
}

fn request(id: u64, method: &str, params: Option<JsonValue>) -> JsonRpcRequest {
    JsonRpcRequest { id: Some(JsonValue::UInt(id)), method: method.to_string(), params }
}

fn error_code(outcome: &RequestOutcome) -> Option<i32> {
    match outcome {
        RequestOutcome::Respond(Some(response)) => response.error.as_ref().map(|e| e.code),
        _ => None,
    }
}

#[test]
fn requests_are_accepted_after_initialize_even_without_initialized_notification() {
    let mut server = LspServer::new();

    let before_initialize = server.handle_request(request(1, "custom/unknown", None));
    assert_eq!(error_code(&before_initialize), Some(-32002));

    let initialize = server.handle_request(request(2, "initialize", Some(obj(vec![]))));
    assert!(
        matches!(initialize, RequestOutcome::Initialize { .. }),
        "initialize request should succeed"
    );

    let after_initialize = server.handle_request(request(3, "custom/unknown", None));
    assert_eq!(error_code(&after_initialize), Some(-32601));
    assert!(server.initialized);
}

#[test]
fn cancelled_request_is_answered_cancelled() {
    let mut server = LspServer::new();
    let cancel = JsonRpcRequest {
        id: None,
        method: "$/cancelRequest".to_string(),
        params: Some(obj(vec![("id", JsonValue::UInt(7))])),
    };
    assert!(matches!(server.handle_request(cancel), RequestOutcome::Respond(None)));
    let outcome = server.handle_request(request(7, "textDocument/hover", None));
    assert_eq!(error_code(&outcome), Some(-32800));
}

#[test]
fn notifications_are_never_answered() {
    let mut server = LspServer::new();
    let note = JsonRpcRequest { id: Some(JsonValue::Null), method: "custom/unknown".to_string(), params: None };
    assert!(matches!(server.handle_request(note), RequestOutcome::Respond(None)));
}

#[test]
fn known_methods_are_delegated_after_initialize() {
    let mut server = LspServer::new();
    let _ = server.handle_request(request(1, "initialize", None));
    match server.handle_request(request(2, "textDocument/hover", None)) {
        RequestOutcome::Delegate { method, .. } => assert_eq!(method, "textDocument/hover"),
        _ => panic!("hover must be delegated"),
    }
}

#[test]
fn exit_code_follows_shutdown() {
    let mut server = LspServer::new();
    let exit = JsonRpcRequest { id: None, method: "exit".to_string(), params: None };
    let mut copy = LspServer::new();
    assert!(matches!(copy.handle_request(JsonRpcRequest { id: None, method: "exit".to_string(), params: None }), RequestOutcome::Exit(1)));
    let _ = server.handle_request(request(1, "initialize", None));
    let _ = server.handle_request(request(2, "shutdown", None));
    assert!(matches!(server.handle_request(exit), RequestOutcome::Exit(0)));
}

#[test]
fn shutdown_before_initialize_is_refused() {
    let mut server = LspServer::new();
    match server.handle_request(request(1, "shutdown", None)) {
        RequestOutcome::Respond(Some(r)) => assert_eq!(r.error.map(|e| e.code), Some(-32002)),
        _ => panic!("shutdown before initialize must be answered with an error"),
    }
    assert!(!server.shutdown_received);
}

#[test]
fn initialize_params_are_recorded_through_handle_request() {
    let mut server = LspServer::new();
    let params = JsonValue::Obj(vec![JsonMember {
        key: "rootUri".to_string(),
        value: JsonValue::Str("file:///work".to_string()),
    }]);
    let _ = server.handle_request(request(1, "initialize", Some(params)));
    assert_eq!(server.workspace_folders, vec!["file:///work".to_string()]);
    assert!(server.cancelled.is_empty());
    match server.handle_request(request(3, "custom/unknown", None)) {
        RequestOutcome::Respond(Some(r)) => assert_eq!(r.error.map(|e| e.code), Some(-32601)),
        _ => panic!("unknown method must be answered with an error"),
    }
}

#[test]
fn initialized_requires_initialize_request_first() {
    let mut server = LspServer::new();
    let result = server.handle_initialized_dispatch();
    assert!(result.is_err(), "initialized before initialize must error");
    assert!(!server.initialized, "server must remain uninitialized");
}

#[test]
fn initialized_can_only_be_sent_once() -> Result<(), JsonRpcError> {
    let mut server = LspServer::new();
    server.handle_initialize(None)?;
    let first = server.handle_initialized_dispatch();
    let second = server.handle_initialized_dispatch();
    assert!(first.is_ok(), "first initialized must succeed");
    assert!(second.is_err(), "second initialized must error");
    Ok(())
}

#[test]
fn auto_initialize_for_compat_promotes_initialized_state() -> Result<(), JsonRpcError> {
    let mut server = LspServer::new();
    server.handle_initialize(None)?;
    server.auto_initialize_for_compat("textDocument/hover");
    assert!(server.initialized, "compatibility path should mark server initialized");
    Ok(())
}

#[test]
fn set_trace_invalid_value_defaults_to_off() -> Result<(), JsonRpcError> {
    let mut server = LspServer::new();
    let p = obj(vec![("value", JsonValue::Str("verbose".to_string()))]);
    server.handle_set_trace_dispatch(Some(&p))?;
    assert_eq!(server.trace_level.as_str(), "verbose");
    let p = obj(vec![("value", JsonValue::Str("invalid-value".to_string()))]);
    server.handle_set_trace_dispatch(Some(&p))?;
    assert_eq!(server.trace_level.as_str(), "off");
    Ok(())
}

#[test]
fn set_trace_missing_value_key_preserves_current_level() -> Result<(), JsonRpcError> {
    let mut server = LspServer::new();
    let p = obj(vec![("value", JsonValue::Str("messages".to_string()))]);
    server.handle_set_trace_dispatch(Some(&p))?;
    assert_eq!(server.trace_level.as_str(), "messages");
    let empty = obj(vec![]);
    server.handle_set_trace_dispatch(Some(&empty))?;
    assert_eq!(server.trace_level.as_str(), "messages", "missing value key must not reset trace level");
    Ok(())
}

#[test]
fn set_trace_null_params_preserves_current_level() -> Result<(), JsonRpcError> {
    let mut server = LspServer::new();
    let p = obj(vec![("value", JsonValue::Str("verbose".to_string()))]);
    server.handle_set_trace_dispatch(Some(&p))?;
    assert_eq!(server.trace_level.as_str(), "verbose");
    server.handle_set_trace_dispatch(None)?;
    assert_eq!(server.trace_level.as_str(), "verbose", "null params must not reset trace level");
    Ok(())
}

#[test]
fn set_trace_all_valid_values_roundtrip() -> Result<(), JsonRpcError> {
    let mut server = LspServer::new();
    for level in ["off", "messages", "verbose"] {
        let p = obj(vec![("value", JsonValue::Str(level.to_string()))]);
        server.handle_set_trace_dispatch(Some(&p))?;
        assert_eq!(server.trace_level.as_str(), level);
    }
    Ok(())
}

#[test]
fn shutdown_sets_shutdown_received_flag() -> Result<(), JsonRpcError> {
    let mut server = LspServer::new();
    server.handle_initialize(None)?;
    let result = server.handle_shutdown_dispatch()?;
    assert!(matches!(result, Some(JsonValue::Null)), "shutdown must return JSON null");
    assert!(server.shutdown_received, "shutdown_received must be true after successful shutdown");
    Ok(())
}

#[test]
fn shutdown_can_only_be_requested_once() -> Result<(), JsonRpcError> {
    let mut server = LspServer::new();
    server.handle_initialize(None)?;
    let first = server.handle_shutdown_dispatch();
    let second = server.handle_shutdown_dispatch();
    assert!(first.is_ok(), "first shutdown must succeed");
    assert!(second.is_err(), "second shutdown must error");
    if let Err(second_err) = second {
        assert_eq!(second_err.code, -32600, "second shutdown must return InvalidRequest (-32600)");
    }
    Ok(())
}

#[test]
fn send_log_trace_respects_level() {
    let mut server = LspServer::new();
    assert!(server.send_log_trace("hello", Some("details")).is_none());
    let p = obj(vec![("value", JsonValue::Str("messages".to_string()))]);
    let _ = server.handle_set_trace_dispatch(Some(&p));
    assert_eq!(server.send_log_trace("hello", Some("details")), Some(("hello".to_string(), None)));
    let p = obj(vec![("value", JsonValue::Str("verbose".to_string()))]);
    let _ = server.handle_set_trace_dispatch(Some(&p));
    assert_eq!(
        server.send_log_trace("hello", Some("details")),
        Some(("hello".to_string(), Some("details".to_string())))
    );
}

#[test]
fn apply_disabled_feature_id_zeros_correct_field() {
    let mut flags = BuildFlags::all();
    apply_disabled_feature_id(&mut flags, "lsp.semantic_tokens");
    assert!(!flags.semantic_tokens);
    assert!(flags.completion, "other flags must be unchanged");
}

#[test]
fn apply_disabled_feature_id_unknown_is_noop() {
    let mut flags = BuildFlags::all();
    let before = flags.clone();
    apply_disabled_feature_id(&mut flags, "lsp.does_not_exist");
    assert_eq!(flags, before, "unknown ID must not mutate flags");
}

#[test]
fn apply_disabled_feature_id_execute_command_zeros_field() {
    let mut flags = BuildFlags::all();
    apply_disabled_feature_id(&mut flags, "lsp.execute_command");
    assert!(!flags.execute_command, "lsp.execute_command must zero execute_command field");
    assert!(flags.completion, "other flags must be unchanged");
}

#[test]
fn apply_disabled_feature_id_moniker_zeros_field() {
    let mut flags = BuildFlags::all();
    apply_disabled_feature_id(&mut flags, "lsp.moniker");
    assert!(!flags.moniker, "lsp.moniker must zero moniker field");
}

#[test]
fn apply_disabled_feature_id_notebook_cell_execution_zeros_field() {
    let mut flags = BuildFlags::all();
    apply_disabled_feature_id(&mut flags, "lsp.notebook_cell_execution");
    assert!(!flags.notebook_cell_execution, "lsp.notebook_cell_execution must zero notebook_cell_execution field");
}

#[test]
fn all_feature_ids_have_match_arm() {
    let all_ids = BuildFlags::all().to_feature_ids();
    for id in &all_ids {
        let mut before = BuildFlags::all();
        apply_disabled_feature_id(&mut before, id);
        let still_all = before == BuildFlags::all();
        assert!(!still_all, "feature ID '{id}' emitted by to_feature_ids() has no match arm in apply_disabled_feature_id");
    }
}

#[test]
fn set_root_uri_ignores_non_file_scheme() {
    let mut server = LspServer::new();
    server.set_root_uri("untitled:Untitled-1");
    assert!(server.root_path.is_none());
}

#[test]
fn set_root_uri_takes_file_path() {
    let mut server = LspServer::new();
    server.set_root_uri("file:///workspace/project");
    assert_eq!(server.root_path.as_deref(), Some("/workspace/project"));
}

#[test]
fn initialize_with_workspace_folders_sets_root_path_from_first_folder() {
    let mut server = LspServer::new();
    let params = obj(vec![
        (
            "workspaceFolders",
            JsonValue::Arr(vec![
                obj(vec![("uri", JsonValue::Str("file:///primary".to_string())), ("name", JsonValue::Str("primary".to_string()))]),
                obj(vec![("uri", JsonValue::Str("file:///secondary".to_string())), ("name", JsonValue::Str("secondary".to_string()))]),
            ]),
        ),
        ("capabilities", obj(vec![])),
    ]);
    let result = server.handle_initialize(Some(&params));
    assert!(result.is_ok(), "initialize should succeed");
    assert!(
        server.root_path.as_ref().is_some_and(|path| path.ends_with("primary")),
        "root path should come from first workspace folder"
    );
    assert_eq!(server.workspace_folders.len(), 2);
}

#[test]
fn initialize_parses_workspace_configuration_capability() {
    let mut server = LspServer::new();
    let params = obj(vec![(
        "capabilities",
        obj(vec![("workspace", obj(vec![("configuration", JsonValue::Bool(true))]))]),
    )]);
    let _ = server.handle_initialize(Some(&params));
    assert!(server.client_capabilities.workspace_configuration_support);
}

#[test]
fn initialize_parses_completion_item_capabilities_from_spec_shape() {
    let mut server = LspServer::new();
    let params = obj(vec![(
        "capabilities",
        obj(vec![(
            "textDocument",
            obj(vec![(
                "completion",
                obj(vec![(
                    "completionItem",
                    obj(vec![("snippetSupport", JsonValue::Bool(true)), ("commitCharactersSupport", JsonValue::Bool(true))]),
                )]),
            )]),
        )]),
    )]);
    let _ = server.handle_initialize(Some(&params));
    assert!(server.client_capabilities.snippet_support);
    assert!(server.client_capabilities.completion_commit_characters_support);
}

#[test]
fn initialize_parses_completion_item_capabilities_from_flattened_shape() {
    let mut server = LspServer::new();
    let params = obj(vec![(
        "capabilities",
        obj(vec![(
            "textDocument",
            obj(vec![(
                "completion",
                obj(vec![("snippetSupport", JsonValue::Bool(true)), ("commitCharactersSupport", JsonValue::Bool(true))]),
            )]),
        )]),
    )]);
    let _ = server.handle_initialize(Some(&params));
    assert!(server.client_capabilities.snippet_support);
    assert!(server.client_capabilities.completion_commit_characters_support);
}

#[test]
fn initialize_reply_states_sync_encoding_and_server_name() {
    let base = obj(vec![("hoverProvider", JsonValue::Bool(true)), ("positionEncoding", JsonValue::Str("utf-8".to_string()))]);
    let reply = initialize_result(base, &BuildFlags::all(), "1.2.3");
    let caps = reply.get("capabilities").expect("capabilities");
    assert_eq!(caps.get("positionEncoding").and_then(|v| v.as_str()), Some("utf-16"));
    assert!(matches!(caps.get("hoverProvider"), Some(JsonValue::Bool(true))));
    assert!(matches!(caps.get("declarationProvider"), Some(JsonValue::Bool(true))));
    assert!(matches!(caps.get("typeHierarchyProvider"), Some(JsonValue::Bool(true))));
    let sync = caps.get("textDocumentSync").expect("sync");
    assert_eq!(sync.get("change").and_then(|v| v.as_u64()), Some(1));
    assert_eq!(sync.get("openClose").and_then(|v| v.as_bool()), Some(true));
    let globs = caps
        .get("workspace")
        .and_then(|w| w.get("fileOperations"))
        .and_then(|f| f.get("didRename"))
        .and_then(|d| d.get("filters"))
        .and_then(|f| f.as_array())
        .expect("filters");
    assert_eq!(globs.len(), 4);
    assert_eq!(globs[3].get("pattern").and_then(|p| p.get("glob")).and_then(|g| g.as_str()), Some("**/*.psgi"));
    let info = reply.get("serverInfo").expect("serverInfo");
    assert_eq!(info.get("name").and_then(|v| v.as_str()), Some("perl-lsp"));
    assert_eq!(info.get("version").and_then(|v| v.as_str()), Some("1.2.3"));
}

#[test]
fn initialize_reply_leaves_unadvertised_providers_alone() {
    let mut flags = BuildFlags::all();
    apply_disabled_feature_id(&mut flags, "lsp.declaration");
    let reply = initialize_result(obj(vec![]), &flags, "0");
    let caps = reply.get("capabilities").expect("capabilities");
    assert!(caps.get("declarationProvider").is_none());
}

#[test]
fn initialize_request_answers_with_the_reply_once() {
    let mut server = LspServer::new();
    let reply = server
        .handle_initialize_request(None, BuildFlags::all(), obj(vec![]), "9.9")
        .ok()
        .flatten()
        .expect("reply");
    let caps = reply.get("capabilities").expect("capabilities");
    assert_eq!(caps.get("positionEncoding").and_then(|v| v.as_str()), Some("utf-16"));
    let sync = caps.get("textDocumentSync").expect("sync");
    assert_eq!(sync.get("change").and_then(|v| v.as_u64()), Some(1));
    assert_eq!(sync.get("openClose").and_then(|v| v.as_bool()), Some(true));
    assert_eq!(reply.get("serverInfo").and_then(|i| i.get("name")).and_then(|n| n.as_str()), Some("perl-lsp"));
    assert!(server.initialize_requested);
    let again = server.handle_initialize_request(None, BuildFlags::all(), obj(vec![]), "9.9");
    assert_eq!(again.err().map(|e| e.code), Some(-32600));
}
