use perl_lsp_runtime::completion_resolve::BuiltinDoc;
use perl_lsp_runtime::json::{JsonMember, JsonValue};
use perl_lsp_runtime::lifecycle::LspServer;

fn s(text: &str) -> JsonValue {
    JsonValue::Str(text.to_string())
}

fn obj(members: Vec<(&str, JsonValue)>) -> JsonValue {
    JsonValue::Obj(members.into_iter().map(|(k, v)| JsonMember { key: k.to_string(), value: v }).collect())
}

fn builtin_table() -> Vec<BuiltinDoc> {
    vec![
        BuiltinDoc {
            name: "print".to_string(),
            signatures: vec!["print FILEHANDLE LIST".to_string(), "print LIST".to_string(), "print".to_string()],
            documentation: "Prints a string or a list of strings.".to_string(),
        },
        BuiltinDoc {
            name: "time".to_string(),
            signatures: vec![],
            documentation: "Returns the number of seconds since the epoch.".to_string(),
        },
    ]
}

fn resolve(item: JsonValue) -> JsonValue {
    let server = LspServer::default();
    let result = server.handle_completion_resolve(Some(item), &builtin_table());
    assert!(result.is_ok());
    result.ok().flatten().expect("expected resolved value")
}

fn doc_value(resolved: &JsonValue) -> String {
    let doc = resolved.get("documentation").expect("expected documentation");
    doc.get("value").and_then(|v| v.as_str()).unwrap_or("").to_string()
}

#[test]
fn test_completion_resolve_builtin_function() {
    let resolved = resolve(obj(vec![("label", s("print")), ("kind", JsonValue::UInt(3))]));
    assert!(resolved.get("documentation").is_some());
    let doc = resolved.get("documentation").expect("expected documentation");
    assert_eq!(doc.get("kind").and_then(|v| v.as_str()), Some("markdown"));
    let value = doc_value(&resolved);
    assert!(value.contains("Signatures:"));
    assert!(value.contains("print"));
}

#[test]
fn test_completion_resolve_keyword() {
    let resolved = resolve(obj(vec![("label", s("my")), ("kind", JsonValue::UInt(14))]));
    assert!(resolved.get("documentation").is_some());
    assert!(doc_value(&resolved).contains("lexically scoped"));
}

#[test]
fn test_completion_resolve_variable() {
    let resolved = resolve(obj(vec![("label", s("$foo")), ("kind", JsonValue::UInt(6))]));
    assert!(resolved.get("documentation").is_some());
    assert!(doc_value(&resolved).contains("Scalar variable"));
}

#[test]
fn test_completion_resolve_array_variable() {
    let resolved = resolve(obj(vec![("label", s("@items")), ("kind", JsonValue::UInt(6))]));
    assert!(resolved.get("documentation").is_some());
    assert!(doc_value(&resolved).contains("Array variable"));
}

#[test]
fn test_completion_resolve_passthrough() {
    let resolved = resolve(obj(vec![("label", s("some_custom_function")), ("kind", JsonValue::UInt(3))]));
    assert_eq!(resolved.get("label").and_then(|v| v.as_str()), Some("some_custom_function"));
    assert_eq!(resolved.get("kind").and_then(|v| v.as_u64()), Some(3));
    assert!(resolved.get("documentation").is_none());
}

#[test]
fn completion_resolve_builtin_markdown_is_exact() {
    let resolved = resolve(obj(vec![("label", s("print")), ("kind", JsonValue::UInt(3))]));
    assert_eq!(
        doc_value(&resolved),
        "**Signatures:**\n- `print FILEHANDLE LIST`\n- `print LIST`\n- `print`\n\nPrints a string or a list of strings."
    );
}

#[test]
fn completion_resolve_builtin_without_signatures_has_only_description() {
    let resolved = resolve(obj(vec![("label", s("time")), ("kind", JsonValue::UInt(3))]));
    assert_eq!(doc_value(&resolved), "Returns the number of seconds since the epoch.");
}

#[test]
fn completion_resolve_builtin_replaces_existing_documentation() {
    let resolved = resolve(obj(vec![
        ("label", s("time")),
        ("documentation", s("old")),
        ("kind", JsonValue::UInt(3)),
    ]));
    assert_eq!(doc_value(&resolved), "Returns the number of seconds since the epoch.");
    if let JsonValue::Obj(ms) = &resolved {
        assert_eq!(ms.len(), 3);
        assert_eq!(ms[1].key, "documentation");
    } else {
        panic!("expected an object");
    }
}

#[test]
fn completion_resolve_keeps_existing_variable_documentation() {
    let resolved = resolve(obj(vec![
        ("label", s("$foo")),
        ("kind", JsonValue::UInt(6)),
        ("documentation", s("mine")),
    ]));
    assert_eq!(resolved.get("documentation").and_then(|v| v.as_str()), Some("mine"));
}

#[test]
fn completion_resolve_hash_variable_and_control_keywords() {
    let resolved = resolve(obj(vec![("label", s("%h")), ("kind", JsonValue::UInt(6))]));
    assert!(doc_value(&resolved).starts_with("Hash variable"));
    let resolved = resolve(obj(vec![("label", s("foreach")), ("kind", JsonValue::UInt(14))]));
    assert_eq!(doc_value(&resolved), "Iterate over a list");
    let resolved = resolve(obj(vec![("label", s("goto")), ("kind", JsonValue::UInt(14))]));
    assert_eq!(doc_value(&resolved), "Transfers control to another location");
    let resolved = resolve(obj(vec![("label", s("frobnicate")), ("kind", JsonValue::UInt(14))]));
    assert!(resolved.get("documentation").is_none());
}

#[test]
fn completion_resolve_without_item_is_none() {
    let server = LspServer::default();
    let result = server.handle_completion_resolve(None, &builtin_table());
    assert!(matches!(result, Ok(None)));
}

#[test]
fn completion_resolve_leaves_non_objects_alone() {
    let resolved = resolve(s("print"));
    assert!(matches!(resolved, JsonValue::Str(ref t) if t == "print"));
}
