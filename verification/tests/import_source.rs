use perl_lsp_runtime::import_source::{ExportTag, ImportArg, ImportNode, ImportObject};
use perl_lsp_runtime::lifecycle::LspServer;

fn s(x: &str) -> String {
    x.to_string()
}

fn import_call(object: ImportObject, args: Vec<ImportArg>) -> ImportNode {
    ImportNode::MethodCall { object, method: s("import"), args }
}

fn call(name: &str, args: Vec<ImportArg>) -> ImportNode {
    ImportNode::Call { name: s(name), args }
}

#[test]
fn find_import_source_supports_require_manual_import() {
    let server = LspServer::new();
    let program = ImportNode::Block {
        statements: vec![
            call("require", vec![ImportArg::Ident(s("List::Util"))]),
            import_call(ImportObject::Ident(s("List::Util")), vec![ImportArg::Str(s("'sum'"))]),
            ImportNode::Assign { target: Some(s("x")), call_name: Some(s("sum")), call_args: vec![] },
        ],
    };
    assert_eq!(server.find_import_source(&program, &vec![], "sum").as_deref(), Some("List::Util"));
}

#[test]
fn find_import_source_supports_require_default_import() {
    let server = LspServer::new();
    let program = ImportNode::Block {
        statements: vec![
            call("require", vec![ImportArg::Ident(s("List::Util"))]),
            import_call(ImportObject::Ident(s("List::Util")), vec![]),
            ImportNode::Assign { target: Some(s("x")), call_name: Some(s("sum")), call_args: vec![] },
        ],
    };
    assert_eq!(server.find_import_source(&program, &vec![], "sum").as_deref(), Some("List::Util"));
}

#[test]
fn find_import_source_supports_module_runtime_alias() {
    let server = LspServer::new();
    let program = ImportNode::Block {
        statements: vec![
            ImportNode::Assign {
                target: Some(s("mod")),
                call_name: Some(s("use_module")),
                call_args: vec![ImportArg::Str(s("'Foo::Bar'"))],
            },
            import_call(ImportObject::Var(s("mod")), vec![ImportArg::Str(s("'baz'"))]),
            call("baz", vec![]),
        ],
    };
    assert_eq!(server.find_import_source(&program, &vec![], "baz").as_deref(), Some("Foo::Bar"));
}

#[test]
fn use_statements_import_by_name_qw_list_and_tag() {
    let server = LspServer::new();
    let tags = vec![ExportTag { module: s("POSIX"), tag: s(":math"), names: vec![s("floor"), s("ceil")] }];
    let program = ImportNode::Block {
        statements: vec![
            ImportNode::Use { module: s("List::Util"), args: vec![s("qw<sum max>")] },
            ImportNode::Use { module: s("POSIX"), args: vec![s(":math")] },
            ImportNode::Use { module: s("Carp"), args: vec![s("croak")] },
        ],
    };
    assert_eq!(server.find_import_source(&program, &tags, "max").as_deref(), Some("List::Util"));
    assert_eq!(server.find_import_source(&program, &tags, "ceil").as_deref(), Some("POSIX"));
    assert_eq!(server.find_import_source(&program, &tags, "croak").as_deref(), Some("Carp"));
    assert_eq!(server.find_import_source(&program, &tags, "confess"), None);
}

#[test]
fn quoted_require_paths_and_nested_blocks() {
    let server = LspServer::new();
    let inner = ImportNode::Block {
        statements: vec![
            call("require", vec![ImportArg::Str(s("\"Foo/Bar.pm\""))]),
            import_call(
                ImportObject::Ident(s("Foo::Bar")),
                vec![ImportArg::Array(vec![ImportArg::Ident(s("qw(one two)"))])],
            ),
        ],
    };
    let program = ImportNode::Block { statements: vec![ImportNode::Other, inner] };
    assert_eq!(server.find_import_source(&program, &vec![], "two").as_deref(), Some("Foo::Bar"));
    assert_eq!(server.find_import_source(&program, &vec![], "three"), None);
}
