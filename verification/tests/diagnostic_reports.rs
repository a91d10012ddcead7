use perl_lsp_runtime::diagnostic_json::{
    diagnostic_source, is_fixable_diagnostic, CheckedDiagnostic, DiagnosticSeverity, InternalDiagnostic, KnownCode,
    RelatedInformation, WorkspaceDocument,
};
use perl_lsp_runtime::code_action_assembly::CriticSeverity;
use perl_lsp_runtime::diagnostics::{builtin_violation_to_diagnostic, CriticViolation, DiagnosticTag};
use perl_lsp_runtime::hover_text::SymbolSpan;
use perl_lsp_runtime::json::{JsonMember, JsonValue};
use perl_lsp_runtime::lifecycle::LspServer;

fn s(text: &str) -> JsonValue {
    JsonValue::Str(text.to_string())
}

fn obj(members: Vec<(&str, JsonValue)>) -> JsonValue {
    JsonValue::Obj(members.into_iter().map(|(k, v)| JsonMember { key: k.to_string(), value: v }).collect())
}

fn text_at<'a>(v: &'a JsonValue, key: &str) -> Option<&'a str> {
    v.get(key).and_then(|x| x.as_str())
}

fn num_at(v: &JsonValue, path: &[&str]) -> Option<u64> {
    let mut cur = v;
    for k in path {
        cur = cur.get(k)?;
    }
    cur.as_u64()
}

fn diagnostic(code: Option<&str>) -> InternalDiagnostic {
    InternalDiagnostic {
        range: (4, 6),
        severity: DiagnosticSeverity::Warning,
        code: code.map(|c| c.to_string()),
        message: "Unused variable".to_string(),
        suggestion: Some("Remove it".to_string()),
        related_information: vec![],
        tags: vec![],
    }
}

#[test]
fn builtin_violation_maps_gentle_to_error() {
    let violation = CriticViolation {
        policy: "GentlePolicy".to_string(),
        description: "gentle".to_string(),
        explanation: String::new(),
        severity: CriticSeverity::Gentle,
        start: 0,
        end: 0,
        file: "test.pl".to_string(),
    };

    let diagnostic = builtin_violation_to_diagnostic(&violation);
    assert_eq!(diagnostic.severity, DiagnosticSeverity::Error);
    assert_eq!(diagnostic.code.as_deref(), Some("GentlePolicy"));
}

#[test]
fn builtin_violation_levels_map_to_severities_and_fields() {
    let levels = [
        (CriticSeverity::Stern, DiagnosticSeverity::Warning),
        (CriticSeverity::Harsh, DiagnosticSeverity::Warning),
        (CriticSeverity::Cruel, DiagnosticSeverity::Information),
        (CriticSeverity::Brutal, DiagnosticSeverity::Hint),
    ];
    for (level, expected) in levels {
        let violation = CriticViolation {
            policy: "Policy::Name".to_string(),
            description: "what is wrong".to_string(),
            explanation: "why".to_string(),
            severity: level,
            start: 3,
            end: 9,
            file: "a.pl".to_string(),
        };
        let d = builtin_violation_to_diagnostic(&violation);
        assert_eq!(d.severity, expected);
        assert_eq!(d.range, (3, 9));
        assert_eq!(d.message, "what is wrong");
        assert!(d.suggestion.is_none());
        assert!(d.related_information.is_empty());
        assert!(d.tags.is_empty());
    }
}

#[test]
fn gentle_diagnostic_json_has_error_severity() {
    let d = InternalDiagnostic {
        range: (0, 0),
        severity: DiagnosticSeverity::Error,
        code: Some("GentlePolicy".to_string()),
        message: "gentle".to_string(),
        suggestion: None,
        related_information: vec![],
        tags: vec![],
    };
    let v = LspServer::diagnostic_to_json("my $x;\n", "file:///test.pl", &d, None, false);
    assert_eq!(v.get("severity").and_then(|x| x.as_u64()), Some(1));
    assert_eq!(text_at(&v, "code"), Some("GentlePolicy"));
}

#[test]
fn diagnostic_json_has_positions_source_and_message() {
    let text = "my $x = 1;\nmy $y;\n";
    let d = InternalDiagnostic { range: (14, 16), ..diagnostic(None) };
    let v = LspServer::diagnostic_to_json(text, "file:///a.pl", &d, None, false);
    assert_eq!(num_at(&v, &["range", "start", "line"]), Some(1));
    assert_eq!(num_at(&v, &["range", "start", "character"]), Some(3));
    assert_eq!(num_at(&v, &["range", "end", "character"]), Some(5));
    assert_eq!(num_at(&v, &["severity"]), Some(2));
    assert!(v.get("code").map(|c| c.is_null()).unwrap_or(false));
    assert_eq!(text_at(&v, "source"), Some("perl-lsp"));
    assert_eq!(text_at(&v, "message"), Some("Unused variable"));
    assert!(v.get("data").is_none());
    assert!(v.get("tags").is_none());
    assert!(v.get("relatedInformation").is_none());
}

#[test]
fn diagnostic_json_adds_tags_related_information_and_data() {
    let text = "my $x = 1;\n";
    let d = InternalDiagnostic {
        tags: vec![DiagnosticTag::Unnecessary, DiagnosticTag::Deprecated],
        related_information: vec![RelatedInformation { location: (0, 2), message: "declared here".to_string() }],
        ..diagnostic(Some("UnusedVariable"))
    };
    let known = KnownCode { variant: "UnusedVariable".to_string(), category: "Variables".to_string() };
    let v = LspServer::diagnostic_to_json(text, "file:///a.pl", &d, Some(&known), true);
    assert_eq!(text_at(&v, "message"), Some("Unused variable\nSuggestion: Remove it"));
    match v.get("tags") {
        Some(JsonValue::Arr(a)) => {
            assert_eq!(a.len(), 2);
            assert_eq!(a[0].as_u64(), Some(1));
            assert_eq!(a[1].as_u64(), Some(2));
        }
        _ => panic!("expected tags"),
    }
    match v.get("relatedInformation") {
        Some(JsonValue::Arr(a)) => {
            assert_eq!(a.len(), 1);
            assert_eq!(a[0].get("location").and_then(|l| l.get("uri")).and_then(|u| u.as_str()), Some("file:///a.pl"));
            assert_eq!(text_at(&a[0], "message"), Some("declared here"));
            assert_eq!(num_at(&a[0], &["location", "range", "end", "character"]), Some(2));
        }
        _ => panic!("expected related information"),
    }
    let data = v.get("data").expect("data");
    assert_eq!(text_at(data, "code"), Some("UnusedVariable"));
    assert_eq!(text_at(data, "category"), Some("Variables"));
    assert_eq!(data.get("fixable").and_then(|f| f.as_bool()), Some(true));
    match data.get("tags") {
        Some(JsonValue::Arr(a)) => {
            assert_eq!(a.iter().map(|t| t.as_str().unwrap_or("")).collect::<Vec<_>>(), vec!["Unnecessary", "Deprecated"]);
        }
        _ => panic!("expected data tags"),
    }
}

#[test]
fn perlcritic_codes_are_attributed_to_perlcritic() {
    assert_eq!(diagnostic_source(Some("Variables::ProhibitUnusedVariables"), false), "perlcritic");
    assert_eq!(diagnostic_source(Some("Variables::ProhibitUnusedVariables"), true), "perl-lsp");
    assert_eq!(diagnostic_source(Some("PL001"), false), "perl-lsp");
    assert_eq!(diagnostic_source(None, false), "perl-lsp");
    let d = diagnostic(Some("Subroutines::ProhibitExplicitReturnUndef"));
    let v = LspServer::diagnostic_to_json("x", "file:///a.pl", &d, None, false);
    assert_eq!(text_at(&v, "source"), Some("perlcritic"));
    let data = v.get("data").expect("data");
    assert_eq!(text_at(data, "category"), Some("Other"));
    assert_eq!(data.get("fixable").and_then(|f| f.as_bool()), Some(false));
}

#[test]
fn fixable_diagnostics_cover_policies_and_catalogue_codes() {
    assert!(is_fixable_diagnostic("InputOutput::RequireBriefOpen", None));
    let known = KnownCode { variant: "MissingStrict".to_string(), category: "Pragmas".to_string() };
    assert!(is_fixable_diagnostic("PL100", Some(&known)));
    let other = KnownCode { variant: "SyntaxWarning".to_string(), category: "Syntax".to_string() };
    assert!(!is_fixable_diagnostic("PL200", Some(&other)));
    assert!(!is_fixable_diagnostic("PL200", None));
}

fn doc(uri: &str, text: &str, diags: Vec<InternalDiagnostic>) -> WorkspaceDocument {
    WorkspaceDocument {
        uri: uri.to_string(),
        version: 3,
        text: text.to_string(),
        diagnostics: diags.into_iter().map(|d| CheckedDiagnostic { diagnostic: d, known_code: None }).collect(),
    }
}

fn reports(v: &JsonValue) -> &Vec<JsonValue> {
    match v.get("items") {
        Some(JsonValue::Arr(a)) => a,
        _ => panic!("expected items"),
    }
}

#[test]
fn workspace_diagnostic_reports_full_documents_with_md5_result_ids() {
    let server = LspServer::default();
    let docs = vec![
        doc("file:///a.pl", "my $x = 1;\n", vec![diagnostic(None)]),
        doc("file:///broken.pl", "sub {", vec![]),
    ];
    let result = server.handle_workspace_diagnostic(None, &docs).ok().flatten().expect("report");
    let items = reports(&result);
    assert_eq!(items.len(), 2);
    assert_eq!(text_at(&items[1], "uri"), Some("file:///broken.pl"));
    assert_eq!(items[1].get("version").and_then(|v| v.as_u64()), Some(3));
    assert!(matches!(items[1].get("items"), Some(JsonValue::Arr(a)) if a.is_empty()));
    assert_eq!(text_at(&items[0], "uri"), Some("file:///a.pl"));
    assert_eq!(text_at(&items[0], "kind"), Some("full"));
    assert_eq!(text_at(&items[0], "resultId"), Some("114cab42d83095d07c5b00bf955efaf8"));
    assert_eq!(items[0].get("version").and_then(|v| v.as_u64()), Some(3));
    match items[0].get("items") {
        Some(JsonValue::Arr(a)) => {
            assert_eq!(a.len(), 1);
            assert_eq!(text_at(&a[0], "message"), Some("Unused variable\nSuggestion: Remove it"));
        }
        _ => panic!("expected diagnostics"),
    }
}

#[test]
fn workspace_diagnostic_reports_unchanged_documents() {
    let server = LspServer::default();
    let docs = vec![
        doc("file:///a.pl", "use strict;\n", vec![diagnostic(None)]),
        doc("file:///b.pl", "", vec![]),
    ];
    let params = obj(vec![(
        "previousResultIds",
        JsonValue::Arr(vec![
            obj(vec![("uri", s("file:///a.pl")), ("value", s("4110d2bcb83d37253b46210f154d25ed"))]),
            obj(vec![("uri", s("file:///b.pl")), ("value", s("stale"))]),
            obj(vec![("uri", s("file:///ignored.pl"))]),
        ]),
    )]);
    let result = server.handle_workspace_diagnostic(Some(params), &docs).ok().flatten().expect("report");
    let items = reports(&result);
    assert_eq!(items.len(), 2);
    assert_eq!(text_at(&items[0], "kind"), Some("unchanged"));
    assert_eq!(text_at(&items[0], "resultId"), Some("4110d2bcb83d37253b46210f154d25ed"));
    assert!(items[0].get("items").is_none());
    assert_eq!(text_at(&items[1], "kind"), Some("full"));
    assert_eq!(text_at(&items[1], "resultId"), Some("d41d8cd98f00b204e9800998ecf8427e"));
}

#[test]
fn variable_scope_is_the_smallest_enclosing_subroutine() {
    let symbols = vec![
        SymbolSpan { name: "outer".to_string(), is_subroutine: true, start: 0, end: 100 },
        SymbolSpan { name: "x".to_string(), is_subroutine: false, start: 10, end: 20 },
        SymbolSpan { name: "inner".to_string(), is_subroutine: true, start: 10, end: 50 },
        SymbolSpan { name: "twin".to_string(), is_subroutine: true, start: 20, end: 60 },
    ];
    assert_eq!(LspServer::build_variable_scope_context(&symbols, 30), "\n**Scope**: lexical in subroutine `inner`");
    assert_eq!(LspServer::build_variable_scope_context(&symbols, 70), "\n**Scope**: lexical in subroutine `outer`");
    assert_eq!(LspServer::build_variable_scope_context(&symbols, 0), "\n**Scope**: file scope");
    assert_eq!(LspServer::build_variable_scope_context(&symbols, 100), "\n**Scope**: file scope");
}

#[test]
fn feature_profile_decides_advertised_features() {
    let server = LspServer::new();
    assert!(server.advertised_features.hover);
    let mut flags = server.advertised_features;
    flags.hover = false;
    let limited = LspServer::new_with_feature_profile(flags);
    assert!(!limited.advertised_features.hover);
    assert!(limited.advertised_features.completion);
    assert!(!limited.initialized);
    assert_eq!(limited.trace_level, "off");
}

use perl_lsp_runtime::publish::{ParseError, ReportedParseError};

fn diagnostics_of(params: &JsonValue) -> &Vec<JsonValue> {
    match params.get("diagnostics") {
        Some(JsonValue::Arr(a)) => a,
        _ => panic!("expected diagnostics"),
    }
}

#[test]
fn stable_generation_publishes_diagnostics() {
    let server = LspServer::default();
    let text = "my $x = 1;\n";
    let d = diagnostic(None);
    let pushed = LspServer::push_diagnostic_to_json(text, &d);
    let params = server
        .publish_diagnostics_params("file:///stable_gen_test.pl", 1, vec![pushed], 50, 50)
        .expect("stable generation must produce a publishDiagnostics notification");
    assert_eq!(text_at(&params, "uri"), Some("file:///stable_gen_test.pl"));
    assert_eq!(diagnostics_of(&params).len(), 1);
    assert_eq!(text_at(&diagnostics_of(&params)[0], "source"), Some("perl-parser"));
}

#[test]
fn pre_advanced_generation_does_not_suppress_publish() {
    let server = LspServer::default();
    let params = server.publish_diagnostics_params("file:///a.pl", 2, vec![], 7, 7).expect("publish");
    assert!(diagnostics_of(&params).is_empty());
}

#[test]
fn advanced_generation_suppresses_publish() {
    let server = LspServer::default();
    assert!(server.publish_diagnostics_params("file:///a.pl", 2, vec![], 7, 8).is_none());
}

#[test]
fn fast_path_emits_notification_for_documents_with_parse_errors() {
    let server = LspServer::default();
    let text = "sub { SYNTAX ERROR HERE }\n";
    let errors = vec![
        ReportedParseError {
            error: ParseError::UnexpectedToken { location: 6, expected: "'}'".to_string(), found: "SYNTAX".to_string() },
            hint: Some("close the block".to_string()),
        },
        ReportedParseError { error: ParseError::UnexpectedEof, hint: None },
    ];
    let params = server
        .publish_parse_errors_fast("file:///fast_path_parse_err_test.pl", 1, text, &errors, "PL001")
        .expect("fast path must emit publishDiagnostics when parse errors exist");
    let diags = diagnostics_of(&params);
    assert_eq!(diags.len(), 2);
    assert_eq!(text_at(&diags[0], "message"), Some("Expected '}', found SYNTAX\nSuggestion: close the block"));
    assert_eq!(num_at(&diags[0], &["range", "start", "character"]), Some(6));
    assert_eq!(num_at(&diags[0], &["range", "end", "character"]), Some(7));
    assert_eq!(num_at(&diags[0], &["severity"]), Some(1));
    assert_eq!(text_at(&diags[0], "code"), Some("PL001"));
    assert_eq!(text_at(&diags[1], "message"), Some("Unexpected end of input"));
    assert_eq!(num_at(&diags[1], &["range", "start", "line"]), Some(1));
    assert_eq!(num_at(&diags[1], &["range", "start", "character"]), Some(0));
}

#[test]
fn fast_path_silent_for_pull_diagnostic_clients() {
    let mut server = LspServer::default();
    server.client_supports_pull_diags = true;
    let errors = vec![ReportedParseError { error: ParseError::LexerError { message: "bad".to_string() }, hint: None }];
    assert!(server.publish_parse_errors_fast("file:///a.pl", 1, "x", &errors, "PL001").is_none());
    assert!(server.publish_diagnostics_params("file:///a.pl", 1, vec![], 1, 1).is_none());
    let server = LspServer::default();
    assert!(server.publish_parse_errors_fast("file:///a.pl", 1, "x", &vec![], "PL001").is_none());
}

#[test]
fn pushed_diagnostics_carry_tags() {
    let d = InternalDiagnostic { tags: vec![DiagnosticTag::Deprecated], ..diagnostic(Some("PL002")) };
    let v = LspServer::push_diagnostic_to_json("abcdefg", &d);
    assert_eq!(text_at(&v, "code"), Some("PL002"));
    assert_eq!(text_at(&v, "message"), Some("Unused variable"));
    match v.get("tags") {
        Some(JsonValue::Arr(a)) => assert_eq!(a.iter().filter_map(|t| t.as_u64()).collect::<Vec<_>>(), vec![2]),
        _ => panic!("expected tags"),
    }
}

use perl_lsp_runtime::diagnostic_json::{DocumentReport, LspCode, LspDiagnostic, LspRelated};

fn lsp_diag(severity: Option<i32>, code: Option<LspCode>, tags: Option<Vec<i32>>) -> LspDiagnostic {
    LspDiagnostic {
        range: (1, 2, 1, 5),
        severity,
        code,
        source: Some("perl-lsp".to_string()),
        message: "problem".to_string(),
        tags,
        data: None,
        related_information: None,
    }
}

#[test]
fn lsp_diagnostics_keep_protocol_numbers() {
    let v = LspServer::lsp_diagnostic_to_json(lsp_diag(Some(3), Some(LspCode::Number(42)), Some(vec![1, 2, 7])));
    assert_eq!(num_at(&v, &["range", "start", "line"]), Some(1));
    assert_eq!(num_at(&v, &["range", "end", "character"]), Some(5));
    assert_eq!(num_at(&v, &["severity"]), Some(3));
    assert_eq!(num_at(&v, &["code"]), Some(42));
    assert_eq!(text_at(&v, "source"), Some("perl-lsp"));
    match v.get("tags") {
        Some(JsonValue::Arr(a)) => assert_eq!(a.iter().filter_map(|t| t.as_u64()).collect::<Vec<_>>(), vec![1, 2, 0]),
        _ => panic!("expected tags"),
    }
    let v = LspServer::lsp_diagnostic_to_json(lsp_diag(Some(9), Some(LspCode::Text("E1".to_string())), None));
    assert_eq!(num_at(&v, &["severity"]), Some(2));
    assert_eq!(text_at(&v, "code"), Some("E1"));
    assert!(v.get("tags").is_none());
    let v = LspServer::lsp_diagnostic_to_json(LspDiagnostic {
        severity: None,
        code: None,
        source: None,
        data: Some(s("extra")),
        related_information: Some(vec![LspRelated { uri: "file:///b.pl".to_string(), range: (0, 0, 0, 1), message: "here".to_string() }]),
        ..lsp_diag(None, None, Some(vec![]))
    });
    assert!(v.get("severity").map(|x| x.is_null()).unwrap_or(false));
    assert!(v.get("code").map(|x| x.is_null()).unwrap_or(false));
    assert!(v.get("source").map(|x| x.is_null()).unwrap_or(false));
    assert!(matches!(v.get("tags"), Some(JsonValue::Arr(a)) if a.is_empty()));
    assert_eq!(text_at(&v, "data"), Some("extra"));
    match v.get("relatedInformation") {
        Some(JsonValue::Arr(a)) => {
            assert_eq!(a[0].get("location").and_then(|l| l.get("uri")).and_then(|u| u.as_str()), Some("file:///b.pl"));
        }
        _ => panic!("expected related information"),
    }
}

#[test]
fn document_reports_merge_perlcritic_diagnostics() {
    let report = DocumentReport::Full { result_id: Some("abc".to_string()), items: vec![lsp_diag(Some(1), None, None)] };
    let critic = vec![CheckedDiagnostic { diagnostic: diagnostic(Some("Variables::ProhibitReusedNames")), known_code: None }];
    let v = LspServer::document_report_to_json(report, "my $x = 1;\n", "file:///a.pl", &critic);
    assert_eq!(text_at(&v, "kind"), Some("full"));
    assert_eq!(text_at(&v, "resultId"), Some("abc"));
    match v.get("items") {
        Some(JsonValue::Arr(a)) => {
            assert_eq!(a.len(), 2);
            assert_eq!(text_at(&a[1], "source"), Some("perlcritic"));
            assert_eq!(text_at(&a[1], "message"), Some("Unused variable"));
        }
        _ => panic!("expected items"),
    }
    let v = LspServer::document_report_to_json(DocumentReport::Unchanged { result_id: "abc".to_string() }, "", "file:///a.pl", &vec![]);
    assert_eq!(text_at(&v, "kind"), Some("unchanged"));
    assert_eq!(text_at(&v, "resultId"), Some("abc"));
    assert!(v.get("items").is_none());
}
