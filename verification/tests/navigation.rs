use perl_lsp_runtime::diagnostics::{
    find_workspace_perlcritic_profile, is_fixable_perlcritic_policy, resolve_configured_profile_path, DiagnosticTag,
};
use perl_lsp_runtime::lifecycle::LspServer;
use perl_lsp_runtime::navigation::{
    is_core_perl_module, is_module_token_byte, is_universal_method, mojolicious_app_root,
    normalize_mojolicious_controller_name,
};

#[test]
fn module_token_bytes_are_identifier_bytes_and_separators() {
    for b in [b'a', b'Z', b'0', b'9', b'_', b':', b'\''] {
        assert!(is_module_token_byte(b));
    }
    for b in [b' ', b'-', b'$', b'/', b'.', 0xC3] {
        assert!(!is_module_token_byte(b));
    }
}

#[test]
fn core_modules_are_recognized() {
    assert!(is_core_perl_module("strict"));
    assert!(is_core_perl_module("warnings::register"));
    assert!(is_core_perl_module("Data::Dumper"));
    assert!(is_core_perl_module("Pod::Usage"));
    assert!(!is_core_perl_module("Moose"));
    assert!(!is_core_perl_module("Strict"));
    assert!(!is_core_perl_module("Data::Dumper "));
}

#[test]
fn universal_methods_are_recognized() {
    for name in ["can", "isa", "DOES", "VERSION"] {
        assert!(is_universal_method(name));
    }
    assert!(!is_universal_method("does"));
    assert!(!is_universal_method("new"));
}

#[test]
fn mojolicious_app_root_strips_app_suffix() {
    assert_eq!(mojolicious_app_root("  MyApp::App  "), Some("MyApp".to_string()));
    assert_eq!(mojolicious_app_root("MyApp"), Some("MyApp".to_string()));
    assert_eq!(mojolicious_app_root("MyApp::Application"), Some("MyApp::Application".to_string()));
    assert_eq!(mojolicious_app_root("::App"), Some(String::new()));
    assert_eq!(mojolicious_app_root("   "), None);
}

#[test]
fn mojolicious_controller_names_are_camel_cased() {
    assert_eq!(normalize_mojolicious_controller_name("user"), Some("User".to_string()));
    assert_eq!(normalize_mojolicious_controller_name("'admin-user_profile'"), Some("Admin::UserProfile".to_string()));
    assert_eq!(normalize_mojolicious_controller_name("\"foo/bar_baz\""), Some("Foo::BarBaz".to_string()));
    assert_eq!(normalize_mojolicious_controller_name("Foo::bar"), Some("Foo::Bar".to_string()));
    assert_eq!(normalize_mojolicious_controller_name("a:::b"), Some("A:::b".to_string()));
    assert_eq!(normalize_mojolicious_controller_name(" //__// "), None);
    assert_eq!(normalize_mojolicious_controller_name("''"), None);
    assert_eq!(normalize_mojolicious_controller_name("éclair"), Some("Éclair".to_string()));
}

#[test]
fn diagnostic_tags_map_to_lsp_numbers() {
    let tags = vec![DiagnosticTag::Deprecated, DiagnosticTag::Unnecessary, DiagnosticTag::Deprecated];
    assert_eq!(LspServer::diagnostic_tags_to_lsp(&tags), vec![2, 1, 2]);
    assert_eq!(LspServer::diagnostic_tags_to_lsp(&Vec::new()), Vec::<i32>::new());
}

#[test]
fn fixable_perlcritic_policies_are_recognized() {
    assert!(is_fixable_perlcritic_policy("InputOutput::RequireThreeArgOpen"));
    assert!(is_fixable_perlcritic_policy("Variables::ProhibitUnusedVariables"));
    assert!(!is_fixable_perlcritic_policy("ValuesAndExpressions::ProhibitMagicNumbers"));
}

#[test]
fn configured_profile_candidates_follow_search_order() {
    assert_eq!(
        resolve_configured_profile_path("/etc/critic.rc", Some("/work"), "/work/lib/A.pm"),
        vec!["/etc/critic.rc".to_string()]
    );
    assert_eq!(
        resolve_configured_profile_path("critic.rc", Some("/work"), "/work/lib/A.pm"),
        vec!["critic.rc".to_string(), "/work/critic.rc".to_string(), "/work/lib/critic.rc".to_string()]
    );
    assert_eq!(
        resolve_configured_profile_path("critic.rc", None, "/work/lib/A.pm"),
        vec!["critic.rc".to_string(), "/work/lib/critic.rc".to_string()]
    );
}

#[test]
fn workspace_profile_search_stops_at_workspace_root() {
    assert_eq!(
        find_workspace_perlcritic_profile(Some("/work"), "/work/lib/A.pm"),
        vec![
            "/work/lib/.perlcriticrc".to_string(),
            "/work/lib/perlcriticrc".to_string(),
            "/work/.perlcriticrc".to_string(),
            "/work/perlcriticrc".to_string(),
        ]
    );
}

#[test]
fn workspace_profile_search_reaches_filesystem_root() {
    assert_eq!(
        find_workspace_perlcritic_profile(None, "/a/b.pl"),
        vec![
            "/a/.perlcriticrc".to_string(),
            "/a/perlcriticrc".to_string(),
            "/.perlcriticrc".to_string(),
            "/perlcriticrc".to_string(),
        ]
    );
    assert_eq!(find_workspace_perlcritic_profile(None, ""), Vec::<String>::new());
}

#[test]
fn workspace_warning_is_shown_once_per_key() {
    let mut server = LspServer::default();
    assert_eq!(
        server.emit_perlcritic_workspace_warning("missing".to_string(), "perlcritic not found"),
        Some("perlcritic not found".to_string())
    );
    assert_eq!(server.emit_perlcritic_workspace_warning("missing".to_string(), "perlcritic not found"), None);
    assert_eq!(
        server.emit_perlcritic_workspace_warning("other".to_string(), "other warning"),
        Some("other warning".to_string())
    );
}

#[test]
fn workspace_profile_search_compares_roots_as_paths() {
    assert_eq!(
        find_workspace_perlcritic_profile(Some("/work/"), "/work/A.pm"),
        vec!["/work/.perlcriticrc".to_string(), "/work/perlcriticrc".to_string()]
    );
}

use perl_lsp_runtime::navigation::{
    arrow_method_at, find_label_declaration_span, goto_label_definition, mojolicious_route_candidates, package_arrow_target_at,
    qualified_name_at, super_method_at, var_method_at,
};

fn pair(a: &str, b: &str) -> (String, String) {
    (a.to_string(), b.to_string())
}

#[test]
fn mojolicious_routes_under_the_cursor_name_controller_actions() {
    let text = "$r->get('/users')->to('users#list');\n$r->get('/x')->to(controller => 'admin-user', action => 'show');\n$r->get('/y')->to(action => 'edit', controller => 'blog_post');\n";
    let on_string = text.find("users#").unwrap() + 2;
    assert_eq!(mojolicious_route_candidates("MyApp::App", text, on_string), vec![pair("MyApp::Controller::Users", "list")]);
    let on_kv = text.find("admin-user").unwrap() + 1;
    assert_eq!(mojolicious_route_candidates("MyApp", text, on_kv), vec![pair("MyApp::Controller::Admin::User", "show")]);
    let on_reversed = text.find("'edit'").unwrap() + 1;
    assert_eq!(mojolicious_route_candidates("MyApp", text, on_reversed), vec![pair("MyApp::Controller::BlogPost", "edit")]);
    let on_arrow = text.find("->to").unwrap();
    assert_eq!(mojolicious_route_candidates("MyApp", text, on_arrow), Vec::<(String, String)>::new());
    assert_eq!(mojolicious_route_candidates("   ", text, on_string), Vec::<(String, String)>::new());
}

#[test]
fn label_declarations_are_found_by_name() {
    let text = "foo();\nLOOP: while (1) {\n  INNER : for (1) { last LOOP; }\n}\n";
    assert_eq!(find_label_declaration_span(text, "LOOP").ok().flatten(), Some((7, 11)));
    assert_eq!(find_label_declaration_span(text, "INNER").ok().flatten(), Some((27, 32)));
    assert_eq!(find_label_declaration_span(text, "OUTER").ok().flatten(), None);
}

#[test]
fn goto_under_cursor_jumps_to_label_declaration() {
    let text = "START:\nmy $x = 1;\ngoto START;\n";
    assert_eq!(goto_label_definition(text, text, 24).ok().flatten(), Some((0, 5)));
    assert_eq!(goto_label_definition(text, text, 28).ok().flatten(), Some((0, 5)));
    assert_eq!(goto_label_definition(text, text, 19).ok().flatten(), None);
}

#[test]
fn goto_away_from_cursor_or_undeclared_gives_nothing() {
    let text = "START:\nmy $x = 1;\ngoto START;\n";
    assert_eq!(goto_label_definition(text, text, 8).ok().flatten(), None);
    let undeclared = "goto NOWHERE;\n";
    assert_eq!(goto_label_definition(undeclared, undeclared, 6).ok().flatten(), None);
}

#[test]
fn package_before_arrow_is_found_under_cursor() {
    let around = "my $o = Foo::Bar->new;";
    assert_eq!(package_arrow_target_at(around, 10).ok().flatten().as_deref(), Some("Foo::Bar"));
    assert_eq!(package_arrow_target_at(around, 16).ok().flatten().as_deref(), Some("Foo::Bar"));
    assert_eq!(package_arrow_target_at(around, 2).ok().flatten(), None);
}

#[test]
fn method_call_patterns_under_the_cursor() {
    assert_eq!(super_method_at("$self->SUPER::init(@_)", 15).ok().flatten().as_deref(), Some("init"));
    assert_eq!(super_method_at("$self->SUPER::init(@_)", 3).ok().flatten(), None);
    assert_eq!(
        qualified_name_at("Foo::Bar::baz();", 10).ok().flatten(),
        Some(("Foo::Bar".to_string(), "baz".to_string()))
    );
    assert_eq!(qualified_name_at("my $x", 1).ok().flatten(), None);
    assert_eq!(
        arrow_method_at("Foo::Bar->new(1)", 11).ok().flatten(),
        Some(("Foo::Bar".to_string(), "new".to_string()))
    );
    assert_eq!(arrow_method_at("Foo::Bar->new(1)", 2).ok().flatten(), None);
    assert_eq!(var_method_at("$self->run;", 8).ok().flatten(), Some(("self".to_string(), "run".to_string())));
}
