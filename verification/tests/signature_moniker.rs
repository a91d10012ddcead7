use perl_lsp_runtime::hover_text::PragmaDoc;
use perl_lsp_runtime::json::{JsonMember, JsonValue};
use perl_lsp_runtime::lifecycle::{LspServer, CONTENT_MODIFIED, INVALID_PARAMS};
use perl_lsp_runtime::moniker::{SymKind, SymbolKey};
use perl_lsp_runtime::signature_help::SignatureCall;

fn s(text: &str) -> JsonValue {
    JsonValue::Str(text.to_string())
}

fn obj(members: Vec<(&str, JsonValue)>) -> JsonValue {
    JsonValue::Obj(members.into_iter().map(|(k, v)| JsonMember { key: k.to_string(), value: v }).collect())
}

fn text_at<'a>(v: &'a JsonValue, key: &str) -> Option<&'a str> {
    v.get(key).and_then(|x| x.as_str())
}

fn context(text: &str, offset: usize) -> Option<(String, usize)> {
    LspServer::default().find_function_context(text, offset)
}

#[test]
fn function_context_finds_plain_calls() {
    assert_eq!(context("foo(a, b", 8), Some(("foo".to_string(), 1)));
    assert_eq!(context("my $x = substr($s, 0, ", 22), Some(("substr".to_string(), 2)));
    assert_eq!(context(" foo (x", 7), Some(("foo".to_string(), 0)));
}

#[test]
fn function_context_strips_package_and_follows_methods() {
    assert_eq!(context("Foo::Bar::baz(1", 15), Some(("baz".to_string(), 0)));
    assert_eq!(context("$obj->method(x, y", 17), Some(("method".to_string(), 1)));
    assert_eq!(context("a:b(", 4), Some((":b".to_string(), 0)));
}

#[test]
fn function_context_skips_nested_brackets() {
    assert_eq!(context("foo(bar(1, 2), ", 15), Some(("foo".to_string(), 1)));
    assert_eq!(context("foo([1, 2], {a => 1}, ", 22), Some(("foo".to_string(), 2)));
    assert_eq!(context("foo(1, bar(2, ", 14), Some(("bar".to_string(), 1)));
}

#[test]
fn function_context_rejects_positions_outside_calls() {
    assert_eq!(context("foo", 3), None);
    assert_eq!(context("(1, 2", 5), None);
    assert_eq!(context("foo(1", 0), None);
    assert_eq!(context("foo(1", 6), None);
    assert_eq!(context("$obj->(1", 8), None);
    assert_eq!(context("foo(1)", 6), None);
}

#[test]
fn signature_call_reads_dbi_receiver_only_in_dbi_files() {
    let server = LspServer::default();
    let text = "use DBI;\nmy $sth = $dbh->prepare(";
    let call = server.signature_call_at(text, text.chars().count()).expect("call");
    assert_eq!(call.function_name, "prepare");
    assert_eq!(call.active_parameter, 0);
    assert_eq!(call.dbi_receiver.as_deref(), Some("$dbh"));
    let plain = "my $sth = $dbh->prepare(";
    let call = server.signature_call_at(plain, plain.chars().count()).expect("call");
    assert_eq!(call.dbi_receiver, None);
    assert!(server.signature_call_at("no call here", 5).is_none());
}

fn call(name: &str, active: usize, receiver: Option<&str>) -> SignatureCall {
    SignatureCall {
        function_name: name.to_string(),
        active_parameter: active,
        dbi_receiver: receiver.map(|r| r.to_string()),
    }
}

fn first_signature(response: &JsonValue) -> &JsonValue {
    match response.get("signatures") {
        Some(JsonValue::Arr(sigs)) => &sigs[0],
        _ => panic!("expected signatures"),
    }
}

#[test]
fn signature_help_prefers_user_signature() {
    let server = LspServer::default();
    let user = obj(vec![("label", s("print($x)"))]);
    let response = server.signature_help_response(&call("print", 1, None), Some(user), None);
    assert_eq!(text_at(first_signature(&response), "label"), Some("print($x)"));
    assert_eq!(response.get("activeParameter").and_then(|v| v.as_u64()), Some(1));
    assert_eq!(response.get("activeSignature").and_then(|v| v.as_u64()), Some(0));
}

#[test]
fn signature_help_falls_back_to_builtins_dbi_and_generic() {
    let server = LspServer::default();
    let response = server.signature_help_response(&call("push", 0, None), None, None);
    assert_eq!(text_at(first_signature(&response), "label"), Some("push ARRAY, LIST"));

    let dbi = Some(("prepare($statement)".to_string(), "Prepares a statement".to_string()));
    let response = server.signature_help_response(&call("prepare", 0, Some("$dbh")), None, dbi.clone());
    assert_eq!(text_at(first_signature(&response), "label"), Some("prepare($statement)"));
    assert_eq!(text_at(first_signature(&response), "documentation"), Some("Prepares a statement"));

    let response = server.signature_help_response(&call("prepare", 2, None), None, dbi);
    assert_eq!(text_at(first_signature(&response), "label"), Some("prepare(...)"));
    assert!(first_signature(&response).get("documentation").map(|d| d.is_null()).unwrap_or(false));
    assert_eq!(response.get("activeParameter").and_then(|v| v.as_u64()), Some(2));
}

#[test]
fn exported_symbols_are_found_in_export_lists() {
    let server = LspServer::default();
    let qw = "package My::Mod;\nour @EXPORT_OK = qw(foo bar);\n";
    assert!(server.is_symbol_exported(qw, "bar"));
    assert!(!server.is_symbol_exported(qw, "ba"));
    let paren = "our @EXPORT = ('foo', \"bar\");";
    assert!(server.is_symbol_exported(paren, "bar"));
    assert!(server.is_symbol_exported(paren, "foo"));
    assert!(!server.is_symbol_exported(paren, "fo"));
    assert!(!server.is_symbol_exported("sub foo {}", "foo"));
}

fn key(pkg: &str, name: &str, sigil: Option<char>, kind: SymKind) -> SymbolKey {
    SymbolKey { pkg: pkg.to_string(), name: name.to_string(), sigil, kind }
}

#[test]
fn monikers_are_classified_by_export_and_scope() {
    let server = LspServer::default();
    let text = "our @EXPORT = qw(foo);";
    assert_eq!(server.classify_moniker(&key("My::Mod", "foo", None, SymKind::Sub), text, false, false, false), ("export", "global"));
    assert_eq!(server.classify_moniker(&key("My::Mod", "bar", None, SymKind::Sub), text, false, true, false), ("import", "project"));
    assert_eq!(server.classify_moniker(&key("main", "bar", None, SymKind::Sub), text, false, false, false), ("local", "document"));
    assert_eq!(server.classify_moniker(&key("main", "x", Some('$'), SymKind::Var), "", false, false, true), ("local", "project"));
    assert_eq!(server.classify_moniker(&key("main", "x", Some('$'), SymKind::Var), "", false, false, false), ("local", "document"));
    assert_eq!(server.classify_moniker(&key("My::Mod", "My::Mod", None, SymKind::Pack), "", true, false, false), ("export", "global"));
}

fn ids(monikers: &[JsonValue]) -> Vec<(String, String, String)> {
    monikers
        .iter()
        .map(|m| {
            assert_eq!(text_at(m, "scheme"), Some("perl"));
            (
                text_at(m, "identifier").unwrap_or("").to_string(),
                text_at(m, "unique").unwrap_or("").to_string(),
                text_at(m, "kind").unwrap_or("").to_string(),
            )
        })
        .collect()
}

fn triple(a: &str, b: &str, c: &str) -> (String, String, String) {
    (a.to_string(), b.to_string(), c.to_string())
}

#[test]
fn moniker_list_includes_import_source_and_parents() {
    let parents = vec!["Base::Class".to_string()];
    let list = LspServer::monikers_for(
        &key("My::Mod", "foo", None, SymKind::Sub),
        "import",
        "project",
        Some("List::Util"),
        &parents,
    );
    assert_eq!(
        ids(&list),
        vec![
            triple("My.Mod.foo", "project", "import"),
            triple("List.Util.foo", "global", "export"),
            triple("Base.Class.foo", "global", "local"),
        ]
    );
}

#[test]
fn moniker_list_adds_bare_name_for_package_variables() {
    let list = LspServer::monikers_for(&key("My::Mod", "count", Some('$'), SymKind::Var), "local", "project", None, &vec![
        "Ignored".to_string(),
    ]);
    assert_eq!(ids(&list), vec![triple("My.Mod.count", "project", "local"), triple("$count", "document", "local")]);
    let list = LspServer::monikers_for(&key("main", "count", Some('$'), SymKind::Var), "local", "document", None, &vec![]);
    assert_eq!(ids(&list), vec![triple("main.count", "document", "local")]);
}

#[test]
fn base_parents_are_read_from_use_arguments() {
    let args = vec!["qw(Foo::Bar  Baz)".to_string(), "-norequire".to_string(), "'Qux'".to_string(), "\"\"".to_string()];
    assert_eq!(
        LspServer::base_parents_from_args(&args),
        vec!["Foo::Bar".to_string(), "Baz".to_string(), "Qux".to_string()]
    );
    assert_eq!(LspServer::base_parents_from_args(&vec!["qw/A B/".to_string()]), vec!["A".to_string(), "B".to_string()]);
}

fn link(data: JsonValue) -> JsonValue {
    obj(vec![("range", JsonValue::Null), ("data", data)])
}

#[test]
fn document_link_resolve_fills_module_targets() {
    let server = LspServer::default();
    let l = link(obj(vec![("type", s("module")), ("module", s("Foo::Bar"))]));
    assert_eq!(LspServer::document_link_module(&Some(link(obj(vec![("type", s("module")), ("module", s("Foo::Bar"))])))), Some("Foo::Bar".to_string()));
    let resolved = server.handle_document_link_resolve(Some(l), None).ok().flatten().expect("link");
    assert_eq!(text_at(&resolved, "target"), Some("https://metacpan.org/pod/Foo::Bar"));
    let l = link(obj(vec![("type", s("module")), ("module", s("Foo::Bar"))]));
    let resolved = server.handle_document_link_resolve(Some(l), Some("file:///lib/Foo/Bar.pm".to_string())).ok().flatten().expect("link");
    assert_eq!(text_at(&resolved, "target"), Some("file:///lib/Foo/Bar.pm"));
    assert!(resolved.get("range").is_some());
}

#[test]
fn document_link_resolve_handles_files_and_urls() {
    let server = LspServer::default();
    let l = link(obj(vec![("type", s("file")), ("path", s("lib\\Thing.pm")), ("baseUri", s("file:///project/script.pl"))]));
    let resolved = server.handle_document_link_resolve(Some(l), None).ok().flatten().expect("link");
    assert_eq!(text_at(&resolved, "target"), Some("file:///project/lib/Thing.pm"));
    let l = link(obj(vec![("type", s("url")), ("url", s("https://example.com"))]));
    let resolved = server.handle_document_link_resolve(Some(l), None).ok().flatten().expect("link");
    assert_eq!(text_at(&resolved, "target"), Some("https://example.com"));
    let l = obj(vec![("target", s("file:///x")), ("data", obj(vec![("type", s("bogus"))]))]);
    let resolved = server.handle_document_link_resolve(Some(l), None).ok().flatten().expect("link");
    assert_eq!(text_at(&resolved, "target"), Some("file:///x"));
}

#[test]
fn document_link_resolve_reports_bad_data() {
    let server = LspServer::default();
    let err = server.handle_document_link_resolve(None, None).err().expect("error");
    assert_eq!(err.code, INVALID_PARAMS);
    assert_eq!(err.message, "Missing parameters for documentLink/resolve");
    let err = server.handle_document_link_resolve(Some(link(obj(vec![("type", s("module"))]))), None).err().expect("error");
    assert_eq!(err.message, "Missing module name in data");
    let err = server.handle_document_link_resolve(Some(link(obj(vec![("type", s("file")), ("path", s("a"))]))), None).err().expect("error");
    assert_eq!(err.message, "Missing base URI in data");
    let err = server.handle_document_link_resolve(Some(link(obj(vec![("type", s("ftp"))]))), None).err().expect("error");
    assert_eq!(err.message, "Unknown link type in data field");
    assert_eq!(err.data.as_ref().and_then(|d| d.get("linkType")).and_then(|t| t.as_str()), Some("ftp"));
}

#[test]
fn ensure_latest_refuses_stale_versions() {
    let server = LspServer::default();
    assert!(server.ensure_latest(Some(3), Some(3)).is_ok());
    assert!(server.ensure_latest(Some(4), Some(3)).is_ok());
    assert!(server.ensure_latest(None, Some(3)).is_ok());
    assert!(server.ensure_latest(Some(1), None).is_ok());
    let err = server.ensure_latest(Some(2), Some(3)).err().expect("stale");
    assert_eq!(err.code, CONTENT_MODIFIED);
    assert_eq!(err.message, "Document changed before request executed");
}

#[test]
fn pragma_hover_shows_summary_version_and_link() {
    let doc = PragmaDoc {
        summary: "Restrict unsafe constructs".to_string(),
        description: "Enables strict checks.".to_string(),
        version_required: Some("5.6".to_string()),
    };
    let hover = LspServer::build_pragma_hover("strict", Some(&doc)).expect("hover");
    let value = hover.get("contents").and_then(|c| c.get("value")).and_then(|v| v.as_str()).unwrap_or("");
    assert_eq!(
        value,
        "**Pragma: `strict`**\n\n_Restrict unsafe constructs_\n\nEnables strict checks.\n\n**Requires**: Perl 5.6\n\n[perldoc strict](https://perldoc.perl.org/strict)"
    );
    assert!(LspServer::build_pragma_hover("Foo", None).is_none());
}
