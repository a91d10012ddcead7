use perl_lsp_runtime::code_action_assembly::{
    ActionKind, CodeActionInputs, CriticQuickFix, CriticSeverity, DiagnosticFix, RefactorAction, TestTarget, TextEditAt,
};
use perl_lsp_runtime::diagnostic_json::{DiagnosticSeverity, InternalDiagnostic};
use perl_lsp_runtime::json::{JsonMember, JsonValue};
use perl_lsp_runtime::lifecycle::LspServer;

fn s(text: &str) -> JsonValue {
    JsonValue::Str(text.to_string())
}

fn obj(members: Vec<(&str, JsonValue)>) -> JsonValue {
    JsonValue::Obj(members.into_iter().map(|(k, v)| JsonMember { key: k.to_string(), value: v }).collect())
}

fn title(a: &JsonValue) -> &str {
    a.get("title").and_then(|t| t.as_str()).unwrap_or("")
}

fn kind(a: &JsonValue) -> &str {
    a.get("kind").and_then(|t| t.as_str()).unwrap_or("")
}

fn no_inputs() -> CodeActionInputs {
    CodeActionInputs {
        critic_fixes: vec![],
        diagnostic_fixes: vec![],
        diagnostics: vec![],
        refactorings: vec![],
        enhanced_refactorings: vec![],
        test_targets: vec![],
        pragma_actions: vec![],
    }
}

fn pragma_action(uri: &str, pragma: &str, at: u64) -> JsonValue {
    obj(vec![
        ("title", s(&format!("Add '{}'", pragma.trim_end_matches(";\n")))),
        ("kind", s("quickfix")),
        ("data", obj(vec![("uri", s(uri)), ("insertAt", JsonValue::UInt(at)), ("text", s(pragma))])),
    ])
}

fn pragma_fixes() -> Vec<DiagnosticFix> {
    vec![
        DiagnosticFix {
            title: "Add 'use strict'".to_string(),
            kind: ActionKind::QuickFix,
            edit: TextEditAt { range: (0, 0), new_text: "use strict;\n".to_string() },
            diagnostic_id: Some("PL100".to_string()),
            diagnostic_range: Some((0, 0)),
        },
        DiagnosticFix {
            title: "Add 'use warnings'".to_string(),
            kind: ActionKind::QuickFix,
            edit: TextEditAt { range: (0, 0), new_text: "use warnings;\n".to_string() },
            diagnostic_id: Some("PL101".to_string()),
            diagnostic_range: Some((0, 0)),
        },
    ]
}

fn pragma_diagnostics() -> Vec<InternalDiagnostic> {
    ["PL100", "PL101"]
        .iter()
        .map(|code| InternalDiagnostic {
            range: (0, 0),
            severity: DiagnosticSeverity::Warning,
            code: Some(code.to_string()),
            message: format!("Missing pragma {code}"),
            suggestion: None,
            related_information: vec![],
            tags: vec![],
        })
        .collect()
}

#[test]
fn code_action_runtime_offers_missing_pragmas() {
    let server = LspServer::new();
    let uri = "file:///test.pl";
    let text = "print 'hello';\n";
    let inputs = CodeActionInputs { pragma_actions: vec![pragma_action(uri, "use strict;\n", 0)], ..no_inputs() };
    let actions = server.code_actions_with_ast(uri, text, inputs, &vec![]);
    assert!(actions.iter().any(|a| title(a).contains("use strict")), "expected missing pragma action");
    let action = actions.iter().find(|a| title(a).contains("use strict")).expect("pragma");
    assert!(action.get("data").is_none());
    let edit = action.get("edit").and_then(|e| e.get("changes")).and_then(|c| c.get(uri));
    match edit {
        Some(JsonValue::Arr(edits)) => {
            assert_eq!(edits.len(), 1);
            assert_eq!(edits[0].get("newText").and_then(|t| t.as_str()), Some("use strict;\n"));
        }
        _ => panic!("expected a filled edit"),
    }
}

#[test]
fn code_action_runtime_offers_extract_variable() {
    let server = LspServer::new();
    let uri = "file:///test.pl";
    let text = "\nmy $str = \"hello\";\nmy $result = length($str) + 10;\nprint $result;\n";
    let extract = RefactorAction {
        title: "Extract 'length($str) + 10' into variable".to_string(),
        kind: ActionKind::RefactorExtract,
        edits: vec![
            TextEditAt { range: (20, 20), new_text: "my $extracted = length($str) + 10;\n".to_string() },
            TextEditAt { range: (33, 50), new_text: "$extracted".to_string() },
        ],
    };
    let inputs = CodeActionInputs { enhanced_refactorings: vec![extract], ..no_inputs() };
    let actions = server.code_actions_with_ast(uri, text, inputs, &vec![]);
    assert!(actions.iter().any(|a| {
        let t = title(a);
        t.contains("Extract") && t.contains("variable")
    }));
    let a = actions.iter().find(|a| kind(a) == "refactor.extract").expect("extract action");
    match a.get("edit").and_then(|e| e.get("changes")).and_then(|c| c.get(uri)) {
        Some(JsonValue::Arr(edits)) => {
            assert_eq!(edits.len(), 2);
            let start = edits[1].get("range").and_then(|r| r.get("start")).expect("start");
            assert_eq!(start.get("line").and_then(|l| l.as_u64()), Some(2));
            assert_eq!(start.get("character").and_then(|l| l.as_u64()), Some(13));
        }
        _ => panic!("expected edits"),
    }
}

#[test]
fn code_action_runtime_emits_source_fix_all_when_multiple_quick_fixes_exist() {
    let server = LspServer::new();
    let uri = "file:///fix_all.pl";
    let text = "print $undefined;\n";
    let inputs = CodeActionInputs { diagnostic_fixes: pragma_fixes(), diagnostics: pragma_diagnostics(), ..no_inputs() };
    let actions = server.code_actions_with_ast(uri, text, inputs, &vec![]);
    let fix_all: Vec<&JsonValue> = actions.iter().filter(|a| kind(a) == "source.fixAll").collect();
    assert_eq!(fix_all.len(), 1, "exactly one source.fixAll aggregate should be emitted");
    let aggregate = fix_all[0];
    assert_eq!(title(aggregate), "Fix all auto-fixable issues");
    assert_eq!(aggregate.get("isPreferred").and_then(|b| b.as_bool()), Some(true));
    match aggregate.get("edit").and_then(|e| e.get("changes")).and_then(|c| c.get(uri)) {
        Some(JsonValue::Arr(edits)) => assert!(edits.len() >= 2, "aggregate must combine at least two edits"),
        _ => panic!("aggregate has edits"),
    }
    let first = actions.iter().find(|a| title(a) == "Add 'use strict'").expect("quick fix");
    match first.get("diagnostics") {
        Some(JsonValue::Arr(ds)) => {
            assert_eq!(ds.len(), 1);
            assert_eq!(ds[0].get("code").and_then(|c| c.as_str()), Some("PL100"));
            assert_eq!(ds[0].get("source").and_then(|c| c.as_str()), Some("perl-lsp"));
        }
        _ => panic!("expected the fixed diagnostic"),
    }
}

#[test]
fn code_action_runtime_skips_source_fix_all_for_clean_file() {
    let server = LspServer::new();
    let uri = "file:///clean.pl";
    let text = "use strict;\nuse warnings;\nmy $x = 1;\nprint $x;\n";
    let actions = server.code_actions_with_ast(uri, text, no_inputs(), &vec![]);
    assert_eq!(actions.iter().filter(|a| kind(a) == "source.fixAll").count(), 0);
}

#[test]
fn code_action_runtime_returns_only_source_fix_all_when_filtered() {
    let server = LspServer::new();
    let uri = "file:///filter.pl";
    let text = "print $undefined;\n";
    let inputs = CodeActionInputs {
        diagnostic_fixes: pragma_fixes(),
        diagnostics: pragma_diagnostics(),
        test_targets: vec![TestTarget { name: "foo".to_string(), test_code: "ok(foo());".to_string() }],
        ..no_inputs()
    };
    let actions = server.code_actions_with_ast(uri, text, inputs, &vec!["source.fixAll".to_string()]);
    assert!(!actions.is_empty(), "filtered request should still yield the aggregate");
    for action in &actions {
        assert_eq!(kind(action), "source.fixAll");
    }
}

#[test]
fn critic_quick_fixes_carry_their_violation() {
    let server = LspServer::new();
    let uri = "file:///c.pl";
    let text = "open(FH, $f);\n";
    let fix = CriticQuickFix {
        range: (5, 7),
        severity: CriticSeverity::Harsh,
        policy: "InputOutput::ProhibitBarewordFileHandles".to_string(),
        description: "Bareword file handle opened".to_string(),
        title: "Use a lexical file handle".to_string(),
        new_text: "my $fh".to_string(),
    };
    let inputs = CodeActionInputs { critic_fixes: vec![fix], ..no_inputs() };
    let actions = server.code_actions_with_ast(uri, text, inputs, &vec![]);
    assert_eq!(actions.len(), 1);
    assert_eq!(kind(&actions[0]), "quickfix");
    match actions[0].get("diagnostics") {
        Some(JsonValue::Arr(ds)) => {
            assert_eq!(ds[0].get("severity").and_then(|v| v.as_u64()), Some(2));
            assert_eq!(ds[0].get("source").and_then(|v| v.as_str()), Some("Perl::Critic"));
        }
        _ => panic!("expected the violation"),
    }
}

#[test]
fn test_generation_commands_name_the_subroutine() {
    let server = LspServer::new();
    let uri = "file:///t.pl";
    let inputs = CodeActionInputs {
        test_targets: vec![TestTarget { name: "add".to_string(), test_code: "is(add(1, 2), 3);".to_string() }],
        ..no_inputs()
    };
    let actions = server.code_actions_with_ast(uri, "sub add {}\n", inputs, &vec![]);
    assert_eq!(actions.len(), 1);
    assert_eq!(title(&actions[0]), "Generate test for 'add'");
    let command = actions[0].get("command").expect("command");
    assert_eq!(command.get("command").and_then(|c| c.as_str()), Some("perl.generateTest"));
}

#[test]
fn pragma_actions_past_the_end_insert_at_document_end() {
    let server = LspServer::new();
    let text = "print 1;\nprint 2;";
    let filled = server.handle_code_actions_pragmas(text, vec![pragma_action("file:///p.pl", "use strict;\n", 999), obj(vec![("title", s("no data"))])]);
    assert_eq!(filled.len(), 2);
    match filled[0].get("edit").and_then(|e| e.get("changes")).and_then(|c| c.get("file:///p.pl")) {
        Some(JsonValue::Arr(edits)) => {
            let start = edits[0].get("range").and_then(|r| r.get("start")).expect("start");
            assert_eq!(start.get("line").and_then(|l| l.as_u64()), Some(1));
            assert_eq!(start.get("character").and_then(|l| l.as_u64()), Some(8));
        }
        _ => panic!("expected an edit"),
    }
    assert!(filled[1].get("edit").is_none());
    assert_eq!(title(&filled[1]), "no data");
}

fn range_json(sl: u64, sc: u64, el: u64, ec: u64) -> JsonValue {
    obj(vec![
        ("start", obj(vec![("line", JsonValue::UInt(sl)), ("character", JsonValue::UInt(sc))])),
        ("end", obj(vec![("line", JsonValue::UInt(el)), ("character", JsonValue::UInt(ec))])),
    ])
}

#[test]
fn context_diagnostics_are_read_from_the_request() {
    let server = LspServer::new();
    let text = "my $x;\nprint $y;\n";
    let params = obj(vec![(
        "context",
        obj(vec![(
            "diagnostics",
            JsonValue::Arr(vec![
                obj(vec![
                    ("range", range_json(1, 6, 1, 8)),
                    ("code", s("UndefinedVariable")),
                    ("message", s("Global symbol $y")),
                    ("severity", JsonValue::UInt(1)),
                ]),
                obj(vec![("range", range_json(0, 0, 0, 1)), ("message", s("no code"))]),
                obj(vec![("range", range_json(9, 0, 9, 1)), ("code", s("X")), ("message", s("far"))]),
            ]),
        )]),
    )]);
    let diags = server.context_diagnostics_for_code_actions(&params, text);
    assert_eq!(diags.len(), 2);
    assert_eq!(diags[0].range, (13, 15));
    assert_eq!(diags[0].severity, DiagnosticSeverity::Error);
    assert_eq!(diags[0].code.as_deref(), Some("UndefinedVariable"));
    assert_eq!(diags[0].message, "Global symbol $y");
    assert_eq!(diags[1].range, (17, 17));
    assert_eq!(diags[1].severity, DiagnosticSeverity::Warning);
    assert!(server.context_diagnostics_for_code_actions(&obj(vec![]), text).is_empty());
}

#[test]
fn code_action_resolve_adds_pragma_edits() {
    let server = LspServer::new();
    let action = || {
        obj(vec![
            ("title", s("Add use strict")),
            ("kind", s("quickfix")),
            ("data", obj(vec![("uri", s("file:///a.pl")), ("pragma", s("use strict;"))])),
        ])
    };
    assert_eq!(LspServer::code_action_resolve_document(&Some(action())), Some("file:///a.pl".to_string()));
    let resolved = server.handle_code_action_resolve(Some(action()), true).ok().flatten().expect("action");
    match resolved.get("edit").and_then(|e| e.get("changes")).and_then(|c| c.get("file:///a.pl")) {
        Some(JsonValue::Arr(edits)) => {
            assert_eq!(edits.len(), 1);
            assert_eq!(edits[0].get("newText").and_then(|t| t.as_str()), Some("use strict;\n"));
        }
        _ => panic!("expected an edit"),
    }
    assert_eq!(title(&resolved), "Add use strict");
    let closed = server.handle_code_action_resolve(Some(action()), false).ok().flatten().expect("action");
    assert!(closed.get("edit").is_none());
    let refactor = obj(vec![("title", s("r")), ("kind", s("refactor")), ("data", obj(vec![("uri", s("file:///a.pl")), ("pragma", s("x"))]))]);
    let same = server.handle_code_action_resolve(Some(refactor), true).ok().flatten().expect("action");
    assert!(same.get("edit").is_none());
    assert!(matches!(server.handle_code_action_resolve(None, true), Ok(None)));
}
