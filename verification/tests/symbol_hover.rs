use perl_lsp_runtime::lifecycle::LspServer;
use perl_lsp_runtime::symbol_hover::{decimal_string, HoverSymbolKind, SymbolHover};

fn symbol(kind: HoverSymbolKind, name: &str, sigil: &str) -> SymbolHover {
    SymbolHover {
        kind,
        name: name.to_string(),
        sigil: sigil.to_string(),
        declaration: None,
        attributes: vec![],
        documentation: None,
        params: vec![],
        complexity: String::new(),
        declared_line: 0,
        scope_context: String::new(),
        type_label: None,
        tied_class: None,
    }
}

#[test]
fn variable_card_lists_declaration_line_scope_and_type() {
    let mut h = symbol(HoverSymbolKind::Scalar, "count", "$");
    h.declaration = Some("my".to_string());
    h.declared_line = 4;
    h.scope_context = "\n**Scope**: file scope".to_string();
    h.type_label = Some("Int".to_string());
    assert_eq!(
        LspServer::symbol_hover_markdown(&h),
        "**Scalar Variable**\n\n`$count`\n**Declaration**: `my`\n**Declared at**: line 5\n**Scope**: file scope\n**Type**: `Int`"
    );
    h.type_label = Some("Any".to_string());
    h.tied_class = Some("Tie::Counter".to_string());
    assert!(LspServer::symbol_hover_markdown(&h).ends_with("file scope\n**Tied to**: `Tie::Counter`"));
}

#[test]
fn subroutine_card_shows_parameters_and_documentation() {
    let mut h = symbol(HoverSymbolKind::Subroutine, "add", "&");
    h.params = vec!["$a".to_string(), "$b".to_string()];
    h.documentation = Some("Adds.".to_string());
    h.attributes = vec!["lvalue".to_string()];
    assert_eq!(
        LspServer::symbol_hover_markdown(&h),
        "**Subroutine**\n\n`sub add($a, $b)`\n**Attributes**: lvalue\n\nAdds."
    );
    let m = symbol(HoverSymbolKind::Method, "run", "");
    assert_eq!(LspServer::symbol_hover_markdown(&m), "**Method**\n\n`method run`");
}

#[test]
fn modifier_and_accessor_cards() {
    let mut h = symbol(HoverSymbolKind::Subroutine, "run", "");
    h.attributes = vec!["lvalue".to_string(), "modifier=around".to_string()];
    assert_eq!(
        LspServer::symbol_hover_markdown(&h),
        "**Method Modifier (`around`)**\n\n`run` — wraps the method — receives `$orig` as first arg, must call `$orig->($self, @_)`\n\n"
    );
    let mut a = symbol(HoverSymbolKind::Subroutine, "name", "");
    a.declaration = Some("has".to_string());
    a.attributes = vec!["is=ro".to_string()];
    assert!(LspServer::symbol_hover_markdown(&a).starts_with("**Moo/Moose Attribute Accessor**"));
}

#[test]
fn decimal_text_of_numbers() {
    assert_eq!(decimal_string(0), "0");
    assert_eq!(decimal_string(120), "120");
    assert_eq!(decimal_string(u64::MAX), u64::MAX.to_string());
}
