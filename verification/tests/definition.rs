use perl_lsp_runtime::definition::{definition_step, DefinitionAction, DefinitionLookup};
use perl_lsp_runtime::json::JsonValue;

fn first_location(v: &JsonValue) -> (String, u64, u64, u64, u64) {
    let a = v.as_array().expect("array");
    let loc = &a[0];
    let uri = loc.get("uri").and_then(|u| u.as_str()).expect("uri").to_string();
    let r = loc.get("range").expect("range");
    let n = |p: &str, k: &str| r.get(p).and_then(|x| x.get(k)).and_then(|x| x.as_u64()).expect("number");
    (uri, n("start", "line"), n("start", "character"), n("end", "line"), n("end", "character"))
}

#[test]
fn goto_label_resolves_to_its_declaration() {
    let text = "START:\nmy $x = 1;\ngoto START;\n";
    match definition_step(text, text, 24, "file:///a.pl", None) {
        DefinitionAction::Respond(Some(v)) => {
            assert_eq!(first_location(&v), ("file:///a.pl".to_string(), 0, 0, 0, 5));
        }
        _ => panic!("goto label must answer"),
    }
}

#[test]
fn package_before_arrow_asks_for_its_module_file() {
    let text = "Foo::Bar->new";
    match definition_step(text, text, 2, "file:///a.pl", None) {
        DefinitionAction::ResolveModule { module } => assert_eq!(module, "Foo::Bar"),
        _ => panic!("module lookup expected"),
    }
    let found = DefinitionLookup::ModuleFile(Some("file:///lib/Foo/Bar.pm".to_string()));
    match definition_step(text, text, 2, "file:///a.pl", Some(found)) {
        DefinitionAction::Respond(Some(v)) => {
            assert_eq!(first_location(&v), ("file:///lib/Foo/Bar.pm".to_string(), 0, 0, 0, 0));
        }
        _ => panic!("module file must answer"),
    }
    match definition_step(text, text, 2, "file:///a.pl", Some(DefinitionLookup::ModuleFile(None))) {
        DefinitionAction::LookupQualified { package, name } => {
            assert_eq!((package.as_str(), name.as_str()), ("Foo", "Bar"));
        }
        _ => panic!("qualified lookup expected"),
    }
}

#[test]
fn method_calls_are_looked_up_in_order() {
    let text = "$self->SUPER::init()";
    match definition_step(text, text, 15, "file:///a.pl", None) {
        DefinitionAction::LookupSuper { method } => assert_eq!(method, "init"),
        _ => panic!("SUPER lookup expected"),
    }
    let call = "$obj->can('x')";
    match definition_step(call, call, 7, "file:///a.pl", None) {
        DefinitionAction::LookupArrow { package, method, universal } => {
            assert_eq!((package.as_str(), method.as_str(), universal), ("obj", "can", true));
        }
        _ => panic!("arrow lookup expected"),
    }
    match definition_step(call, call, 7, "file:///a.pl", Some(DefinitionLookup::Arrow(None))) {
        DefinitionAction::LookupVar { variable, method } => {
            assert_eq!((variable.as_str(), method.as_str()), ("obj", "can"));
        }
        _ => panic!("variable lookup expected"),
    }
    assert!(matches!(
        definition_step(call, call, 7, "file:///a.pl", Some(DefinitionLookup::Var(None))),
        DefinitionAction::Fallback
    ));
    let found = JsonValue::Arr(vec![]);
    assert!(matches!(
        definition_step(call, call, 7, "file:///a.pl", Some(DefinitionLookup::Arrow(Some(found)))),
        DefinitionAction::Respond(Some(JsonValue::Arr(_)))
    ));
}
