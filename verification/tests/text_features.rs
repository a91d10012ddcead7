use perl_lsp_runtime::completion::{commit_chars_for_kind, CompletionItemKind, SymbolKind, WorkspaceSymbol};
use perl_lsp_runtime::document_links::{is_windows_drive_path, normalize_document_link_file_path, resolve_file_link_target};
use perl_lsp_runtime::json::JsonValue;
use perl_lsp_runtime::lifecycle::LspServer;
use perl_lsp_runtime::module_resolution::{build_effective_inc_roots, normalized_inc_key, IncRootKind, workspace_root_for_doc};

#[test]
fn test_degrade_snippet_removes_placeholders_with_defaults() {
    let result = LspServer::degrade_snippet_to_plaintext("function(${1:arg1}, ${2:arg2})");
    assert_eq!(result, "function(arg1, arg2)");
}

#[test]
fn test_degrade_snippet_removes_simple_placeholders() {
    let result = LspServer::degrade_snippet_to_plaintext("print $1;$0");
    assert_eq!(result, "print ;");
}

#[test]
fn test_degrade_snippet_mixed_placeholders() {
    let result = LspServer::degrade_snippet_to_plaintext("sub ${1:name} { $0 }");
    assert_eq!(result, "sub name {  }");
}

#[test]
fn test_degrade_snippet_no_placeholders() {
    let result = LspServer::degrade_snippet_to_plaintext("just plain text");
    assert_eq!(result, "just plain text");
}

#[test]
fn test_degrade_snippet_empty_string() {
    let result = LspServer::degrade_snippet_to_plaintext("");
    assert_eq!(result, "");
}

#[test]
fn normalize_document_link_file_path_collapses_windows_separators() {
    assert_eq!(normalize_document_link_file_path(r"lib\\Thing.pm"), "lib/Thing.pm");
    assert_eq!(normalize_document_link_file_path(r"lib\Thing.pm"), "lib/Thing.pm");
    assert_eq!(normalize_document_link_file_path("lib/Thing.pm"), "lib/Thing.pm");
}

#[test]
fn normalize_document_link_file_path_preserves_unc_prefix() {
    assert_eq!(normalize_document_link_file_path(r"\\server\share\Thing.pm"), "//server/share/Thing.pm");
}

#[test]
fn normalize_document_link_file_path_keeps_plain_names() {
    assert_eq!(normalize_document_link_file_path("Thing.pm"), "Thing.pm");
    assert_eq!(normalize_document_link_file_path("a//b///c"), "a/b/c");
}

#[test]
fn windows_drive_paths_are_recognized() {
    assert!(is_windows_drive_path("C:/Users"));
    assert!(!is_windows_drive_path("C:\\Users"));
    assert!(!is_windows_drive_path("1:/x"));
    assert!(!is_windows_drive_path("C:"));
}

#[test]
fn resolve_file_link_target_handles_windows_absolute_paths() {
    let resolved = resolve_file_link_target("file:///workspace/project/file.pl", "C:/Users/me/Thing.pm");
    assert_eq!(resolved, Some("file:///C:/Users/me/Thing.pm".to_string()));
}

#[test]
fn resolve_file_link_target_handles_unc_paths() {
    let resolved = resolve_file_link_target("file:///workspace/project/file.pl", "//server/share/lib/Thing.pm");
    assert_eq!(resolved, Some("file://server/share/lib/Thing.pm".to_string()));
}

#[test]
fn resolve_file_link_target_resolves_relative_paths() {
    let resolved = resolve_file_link_target("file:///workspace/project/file.pl", "lib/Thing.pm");
    assert_eq!(resolved, Some("file:///workspace/project/lib/Thing.pm".to_string()));
    assert_eq!(resolve_file_link_target("not a url", "lib/Thing.pm"), None);
}

#[test]
fn token_helpers_support_cursor_on_sigil() {
    let server = LspServer::default();
    let text = "my $value = 1;";
    let offset = text.find('$').expect("missing sigil");
    let token = server.get_token_at_position(text, offset);
    let (start, end) = server.get_token_bounds(text, offset);
    assert_eq!(token, "$value");
    assert_eq!(&text.chars().collect::<Vec<_>>()[start..end].iter().collect::<String>(), "$value");
}

#[test]
fn token_helpers_support_cursor_after_identifier() {
    let server = LspServer::default();
    let text = "my $value = 1;";
    let offset = text.find("$value").expect("missing variable") + "$value".len();
    let token = server.get_token_at_position(text, offset);
    let (start, end) = server.get_token_bounds(text, offset);
    assert_eq!(token, "$value");
    assert_eq!(&text.chars().collect::<Vec<_>>()[start..end].iter().collect::<String>(), "$value");
}

#[test]
fn token_helpers_find_nothing_on_spaces_and_bare_sigils() {
    let server = LspServer::default();
    assert_eq!(server.get_token_at_position("a  = b", 2), "");
    assert_eq!(server.get_token_bounds("a  = b", 2), (2, 2));
    assert_eq!(server.get_token_at_position("$ x", 0), "");
    assert_eq!(server.get_token_at_position("", 0), "");
    assert_eq!(server.get_token_bounds("abc", 9), (9, 9));
}

#[test]
fn identifiers_are_validated() {
    let server = LspServer::default();
    assert!(server.is_valid_identifier("_private"));
    assert!(server.is_valid_identifier("name2"));
    assert!(!server.is_valid_identifier("2name"));
    assert!(!server.is_valid_identifier(""));
    assert!(!server.is_valid_identifier("a-b"));
}

#[test]
fn rename_targets_keep_the_sigil() {
    let server = LspServer::default();
    assert_eq!(server.normalize_rename_target(Some("$total"), "sum").ok(), Some("$sum".to_string()));
    assert_eq!(server.normalize_rename_target(Some("$total"), "$sum").ok(), Some("$sum".to_string()));
    let err = server.normalize_rename_target(Some("$total"), "@sum").err().expect("sigil mismatch");
    assert_eq!(err.code, -32602);
    assert_eq!(err.message, "Invalid identifier: sigil '@' does not match '$'");
    assert_eq!(server.normalize_rename_target(None, "foo").ok(), Some("foo".to_string()));
    assert_eq!(server.normalize_rename_target(None, "").err().map(|e| e.code), Some(-32602));
    assert_eq!(server.normalize_rename_target(Some("foo"), "9x").err().map(|e| e.message), Some("Invalid identifier: 9x".to_string()));
}

#[test]
fn prepare_rename_reports_token_range() {
    let server = LspServer::default();
    let answer = server.prepare_rename_at("my $value = 1;\n", 0, 5);
    let placeholder = answer.get("placeholder").and_then(|p| p.as_str());
    assert_eq!(placeholder, Some("$value"));
    let start = answer.get("range").and_then(|r| r.get("start")).expect("start");
    assert_eq!(start.get("character").and_then(|c| c.as_u64()), Some(3));
    let none = server.prepare_rename_at("my $value = 1;\n", 0, 10);
    assert!(none.is_null());
}

#[test]
fn positions_convert_both_ways() {
    let server = LspServer::default();
    let text = "ab\nc\u{1F600}d\n";
    assert_eq!(server.offset_to_position(text, 0), (0, 0));
    assert_eq!(server.offset_to_position(text, 3), (1, 0));
    assert_eq!(server.offset_to_position(text, 8), (1, 3));
    assert_eq!(server.offset_to_position(text, 100), (2, 0));
    assert_eq!(server.position_to_offset(text, 1, 3), 8);
    assert_eq!(server.position_to_offset(text, 1, 2), 4);
    assert_eq!(server.position_to_offset(text, 7, 0), text.len());
    assert_eq!(server.position_to_offset(text, 0, 99), 2);
}

#[test]
fn commit_characters_follow_kind() {
    assert_eq!(commit_chars_for_kind(CompletionItemKind::Function), Some(vec!["(", ",", ";"]));
    assert_eq!(commit_chars_for_kind(CompletionItemKind::Property), Some(vec![",", "}"]));
    assert_eq!(commit_chars_for_kind(CompletionItemKind::Keyword), None);
}

#[test]
fn workspace_symbols_are_qualified_and_documented() {
    let var = WorkspaceSymbol {
        name: "@items".to_string(),
        kind: SymbolKind::Variable,
        container_name: Some("My::Pkg".to_string()),
        qualified_name: None,
        documentation: None,
    };
    assert_eq!(LspServer::workspace_symbol_qualified_name(&var), "@My::Pkg::items");
    assert_eq!(
        LspServer::workspace_symbol_documentation(&var),
        Some("Variable `@My::Pkg::items` declared in the workspace.".to_string())
    );
    assert_eq!(LspServer::workspace_symbol_kind(&var), CompletionItemKind::Variable);
    let sub = WorkspaceSymbol {
        name: "run".to_string(),
        kind: SymbolKind::Subroutine,
        container_name: Some("My::Pkg".to_string()),
        qualified_name: None,
        documentation: Some("Runs it.".to_string()),
    };
    assert_eq!(LspServer::workspace_symbol_qualified_name(&sub), "My::Pkg::run");
    assert_eq!(LspServer::workspace_symbol_documentation(&sub), Some("Runs it.".to_string()));
    assert_eq!(LspServer::split_sigil("%h"), (Some('%'), "h".to_string()));
    assert_eq!(LspServer::split_sigil("h"), (None, "h".to_string()));
}

#[test]
fn build_effective_inc_roots_dedupes_with_normalized_separators() {
    let include_paths = vec!["lib".to_string(), "lib/".to_string(), "other".to_string()];
    let lexical_paths = vec!["lib\\".to_string()];
    let system_paths = vec!["other/".to_string(), "syslib".to_string()];
    let roots = build_effective_inc_roots(&include_paths, &lexical_paths, &system_paths);
    let root_paths: Vec<String> = roots.iter().map(|r| r.path.replace('\\', "/")).collect();
    assert_eq!(root_paths, vec!["lib/".to_string(), "other".to_string(), "syslib".to_string()]);
    assert_eq!(roots[0].source, "use-lib-lexical");
    assert_eq!(roots[1].source, "workspace-include-paths");
    assert_eq!(roots[2].source, "interpreter-startup-inc");
}

#[test]
fn build_effective_inc_roots_preserves_precedence_for_first_occurrence() {
    let include_paths = vec!["dup".to_string(), "late".to_string()];
    let lexical_paths = vec!["dup".to_string()];
    let system_paths = vec!["late".to_string(), "sys".to_string()];
    let roots = build_effective_inc_roots(&include_paths, &lexical_paths, &system_paths);
    assert_eq!(roots.len(), 3);
    assert_eq!(roots[0].path, "dup");
    assert_eq!(roots[0].kind, IncRootKind::FileLocalLexical);
    assert_eq!(roots[1].path, "late");
    assert_eq!(roots[1].kind, IncRootKind::WorkspaceRelative);
    assert_eq!(roots[2].path, "sys");
    assert_eq!(roots[2].kind, IncRootKind::InterpreterStartup);
    assert_eq!(roots[0].precedence, 0);
    assert_eq!(roots[1].precedence, 1);
    assert_eq!(roots[2].precedence, 2);
}

#[test]
fn absolute_include_paths_are_external() {
    let roots = build_effective_inc_roots(&vec!["/opt/lib".to_string()], &Vec::new(), &Vec::new());
    assert_eq!(roots[0].kind, IncRootKind::ExternalAbsolute);
}

#[test]
fn inc_keys_normalize_separators() {
    assert_eq!(normalized_inc_key("lib\\"), "lib");
    assert_eq!(normalized_inc_key("/"), "/");
    assert_eq!(normalized_inc_key("a/b//"), "a/b");
}

#[test]
fn workspace_root_for_doc_prefers_deepest_folder() {
    let folders = vec!["file:///work".to_string(), "file:///work/inner".to_string()];
    assert_eq!(workspace_root_for_doc(&folders, Some("file:///work/inner/a.pl")), Some("/work/inner".to_string()));
    assert_eq!(workspace_root_for_doc(&folders, Some("file:///elsewhere/a.pl")), Some("/work".to_string()));
    assert_eq!(workspace_root_for_doc(&Vec::new(), None), None);
}

#[test]
fn json_null_is_null() {
    assert!(JsonValue::Null.is_null());
}

#[test]
fn workspace_root_for_doc_prefers_most_specific_workspace_folder() {
    let repo = "/tmp/perl-lsp-ws/repo";
    let app = "/tmp/perl-lsp-ws/repo/app";
    let workspace_folders = vec![format!("file://{repo}"), format!("file://{app}")];
    let doc_uri = format!("file://{app}/script/run.pl");
    let matched = workspace_root_for_doc(&workspace_folders, Some(doc_uri.as_str())).expect("expected a matching workspace root");
    assert_eq!(matched, app, "nested workspace root should prefer most specific folder");
}

#[test]
fn workspace_root_for_doc_falls_back_to_first_workspace_folder() {
    let repo = "/tmp/perl-lsp-ws/repo";
    let app = "/tmp/perl-lsp-ws/repo/app";
    let workspace_folders = vec![format!("file://{repo}"), format!("file://{app}")];
    let matched = workspace_root_for_doc(&workspace_folders, None).expect("expected fallback workspace root");
    assert_eq!(matched, repo, "fallback should keep first workspace folder when no document URI is provided");
}

#[test]
fn link_path_normalization_is_idempotent() {
    for p in [r"\\server\share\Thing.pm", r"lib\\Thing.pm", "a//b///c", "//host//x", "plain.pm", r"C:\lib\A.pm"] {
        let once = normalize_document_link_file_path(p);
        assert_eq!(normalize_document_link_file_path(&once), once);
        assert!(!once.contains('\\'));
    }
    assert_eq!(normalize_document_link_file_path(r"\\server\share\Thing.pm"), "//server/share/Thing.pm");
}

#[test]
fn crlf_line_ends_at_the_line_feed() {
    let server = LspServer::new();
    let text = "ab\r\ncd";
    assert_eq!(server.offset_to_position(text, 2), (0, 2));
    assert_eq!(server.offset_to_position(text, 3), (0, 3));
    assert_eq!(server.offset_to_position(text, 4), (1, 0));
    for o in 0..=text.len() {
        let (l, c) = server.offset_to_position(text, o);
        assert_eq!(server.position_to_offset(text, l, c), o);
    }
}
