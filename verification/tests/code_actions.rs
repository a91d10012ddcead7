use perl_lsp_runtime::code_actions::{
    build_source_fix_all, code_action_kind_matches_filter, code_actions_without_ast,
    quickfix_text_edits_for_uri, requested_code_action_kinds, retain_requested_code_action_kinds,
    FixAllRange,
};
use perl_lsp_runtime::json::{JsonMember, JsonValue};

fn s(text: &str) -> JsonValue {
    JsonValue::Str(text.to_string())
}

fn u(n: u64) -> JsonValue {
    JsonValue::UInt(n)
}

fn obj(members: Vec<(&str, JsonValue)>) -> JsonValue {
    JsonValue::Obj(
        members
            .into_iter()
            .map(|(k, v)| JsonMember { key: k.to_string(), value: v })
            .collect(),
    )
}

fn get<'a>(v: &'a JsonValue, key: &str) -> Option<&'a JsonValue> {
    v.get(key)
}

fn text_of(v: &JsonValue) -> Option<&str> {
    v.as_str()
}

fn range(line: u64, start_char: u64, end_line: u64, end_char: u64) -> JsonValue {
    obj(vec![
        ("start", obj(vec![("line", u(line)), ("character", u(start_char))])),
        ("end", obj(vec![("line", u(end_line)), ("character", u(end_char))])),
    ])
}

fn make_quickfix(
    uri: &str,
    line: u64,
    start_char: u64,
    end_char: u64,
    new_text: &str,
    title: &str,
    diag_code: Option<&str>,
) -> JsonValue {
    let edit = obj(vec![("range", range(line, start_char, line, end_char)), ("newText", s(new_text))]);
    let mut members = vec![
        ("title", s(title)),
        ("kind", s("quickfix")),
        ("edit", obj(vec![("changes", obj(vec![(uri, JsonValue::Arr(vec![edit]))]))])),
    ];
    if let Some(code) = diag_code {
        members.push((
            "diagnostics",
            JsonValue::Arr(vec![obj(vec![
                ("range", range(line, start_char, line, end_char)),
                ("code", s(code)),
                ("message", s(&format!("Diagnostic for {code}"))),
                ("source", s("perl-lsp")),
                ("severity", u(2)),
            ])]),
        ));
    }
    obj(members)
}

fn make_document_changes_quickfix(
    uri: &str,
    line: u64,
    start_char: u64,
    end_char: u64,
    new_text: &str,
    title: &str,
    include_resource_op: bool,
) -> JsonValue {
    let mut document_changes = vec![obj(vec![
        ("textDocument", obj(vec![("uri", s(uri)), ("version", JsonValue::Null)])),
        (
            "edits",
            JsonValue::Arr(vec![obj(vec![
                ("range", range(line, start_char, line, end_char)),
                ("newText", s(new_text)),
            ])]),
        ),
    ])];
    if include_resource_op {
        document_changes.push(obj(vec![("kind", s("create")), ("uri", s("file:///tmp/generated.pm"))]));
    }
    obj(vec![
        ("title", s(title)),
        ("kind", s("quickfix")),
        ("edit", obj(vec![("documentChanges", JsonValue::Arr(document_changes))])),
    ])
}

fn aggregate_edits<'a>(aggregate: &'a JsonValue, uri: &str) -> &'a Vec<JsonValue> {
    let changes = get(get(aggregate, "edit").expect("edit"), "changes").expect("changes");
    get(changes, uri).and_then(|v| v.as_array()).expect("aggregate has edits")
}

fn new_texts(edits: &[JsonValue]) -> Vec<&str> {
    edits.iter().filter_map(|e| get(e, "newText").and_then(text_of)).collect()
}

#[test]
fn code_action_kind_filter_matches_subkinds() {
    assert!(code_action_kind_matches_filter("refactor.rewrite", "refactor"));
    assert!(code_action_kind_matches_filter("source.organizeImports", "source"));
    assert!(code_action_kind_matches_filter("quickfix", "quickfix"));
    assert!(!code_action_kind_matches_filter("quickfix", "refactor"));
    assert!(!code_action_kind_matches_filter("refactor.rewrite.extra", "refactor.inline"));
}

#[test]
fn code_action_kind_filter_empty_request_matches_everything() {
    assert!(code_action_kind_matches_filter("quickfix", ""));
    assert!(!code_action_kind_matches_filter("refactorx", "refactor"));
    assert!(!code_action_kind_matches_filter("refactor", "refactor.rewrite"));
}

#[test]
fn retain_requested_code_action_kinds_filters_unrequested_actions() {
    let mut actions = vec![
        obj(vec![("title", s("quickfix")), ("kind", s("quickfix"))]),
        obj(vec![("title", s("rewrite")), ("kind", s("refactor.rewrite"))]),
        obj(vec![("title", s("organize")), ("kind", s("source.organizeImports"))]),
    ];

    retain_requested_code_action_kinds(&mut actions, &vec!["refactor".to_string()]);

    let remaining_kinds: Vec<&str> =
        actions.iter().filter_map(|action| get(action, "kind").and_then(text_of)).collect();
    assert_eq!(remaining_kinds, vec!["refactor.rewrite"]);
}

#[test]
fn retain_requested_code_action_kinds_keeps_all_without_request() {
    let mut actions = vec![
        obj(vec![("title", s("quickfix")), ("kind", s("quickfix"))]),
        obj(vec![("title", s("no kind"))]),
    ];
    retain_requested_code_action_kinds(&mut actions, &Vec::new());
    assert_eq!(actions.len(), 2);
}

#[test]
fn requested_code_action_kinds_reads_context_only() {
    let params = obj(vec![(
        "context",
        obj(vec![("only", JsonValue::Arr(vec![s("source.fixAll"), u(3), s("refactor")]))]),
    )]);
    assert_eq!(requested_code_action_kinds(&params), vec!["source.fixAll".to_string(), "refactor".to_string()]);
    assert!(requested_code_action_kinds(&obj(vec![])).is_empty());
}

#[test]
fn fix_all_range_overlap_detects_contained_ranges() {
    let outer = FixAllRange { start_line: 0, start_char: 0, end_line: 0, end_char: 20 };
    let inner = FixAllRange { start_line: 0, start_char: 5, end_line: 0, end_char: 10 };
    assert!(outer.overlaps(&inner));
    assert!(inner.overlaps(&outer));
}

#[test]
fn fix_all_range_overlap_excludes_adjacent_ranges() {
    let left = FixAllRange { start_line: 0, start_char: 0, end_line: 0, end_char: 5 };
    let right = FixAllRange { start_line: 0, start_char: 5, end_line: 0, end_char: 10 };
    assert!(!left.overlaps(&right));
    assert!(!right.overlaps(&left));
}

#[test]
fn fix_all_range_overlap_allows_stacked_insertions() {
    let first = FixAllRange { start_line: 0, start_char: 0, end_line: 0, end_char: 0 };
    let second = FixAllRange { start_line: 0, start_char: 0, end_line: 0, end_char: 0 };
    assert!(!first.overlaps(&second));
}

#[test]
fn fix_all_range_overlap_allows_insertion_outside_range() {
    let insertion = FixAllRange { start_line: 5, start_char: 0, end_line: 5, end_char: 0 };
    let unrelated = FixAllRange { start_line: 0, start_char: 0, end_line: 0, end_char: 5 };
    assert!(!insertion.overlaps(&unrelated));
    assert!(!unrelated.overlaps(&insertion));
}

#[test]
fn fix_all_range_overlap_detects_multiline_overlap() {
    let multiline = FixAllRange { start_line: 1, start_char: 0, end_line: 3, end_char: 0 };
    let inner = FixAllRange { start_line: 2, start_char: 0, end_line: 2, end_char: 10 };
    assert!(multiline.overlaps(&inner));
    assert!(inner.overlaps(&multiline));
}

#[test]
fn fix_all_range_overlap_insertion_inside_real_range_conflicts() {
    let replacement = FixAllRange { start_line: 0, start_char: 0, end_line: 0, end_char: 10 };
    let insertion = FixAllRange { start_line: 0, start_char: 5, end_line: 0, end_char: 5 };
    assert!(replacement.overlaps(&insertion));
    assert!(insertion.overlaps(&replacement));
}

#[test]
fn fix_all_range_overlap_insertion_at_replacement_boundary_allowed() {
    let replacement = FixAllRange { start_line: 0, start_char: 0, end_line: 0, end_char: 10 };
    let left_boundary = FixAllRange { start_line: 0, start_char: 0, end_line: 0, end_char: 0 };
    let right_boundary = FixAllRange { start_line: 0, start_char: 10, end_line: 0, end_char: 10 };
    assert!(!replacement.overlaps(&left_boundary));
    assert!(!left_boundary.overlaps(&replacement));
    assert!(!replacement.overlaps(&right_boundary));
    assert!(!right_boundary.overlaps(&replacement));
}

#[test]
fn fix_all_range_from_json_reads_positions() {
    let r = FixAllRange::from_json(&range(1, 2, 3, 4));
    assert_eq!(r, Some(FixAllRange { start_line: 1, start_char: 2, end_line: 3, end_char: 4 }));
    let missing = obj(vec![("start", obj(vec![("line", u(1)), ("character", u(2))]))]);
    assert_eq!(FixAllRange::from_json(&missing), None);
    let negative = obj(vec![
        ("start", obj(vec![("line", JsonValue::NegInt(-1)), ("character", u(0))])),
        ("end", obj(vec![("line", u(0)), ("character", u(0))])),
    ]);
    assert_eq!(FixAllRange::from_json(&negative), None);
}

#[test]
fn build_source_fix_all_rejects_insertion_inside_existing_replacement() {
    let uri = "file:///insertion_overlap.pl";
    let actions = vec![
        make_quickfix(uri, 0, 0, 10, "replace", "Replace span", Some("PL100")),
        make_quickfix(uri, 0, 5, 5, "insert", "Insert inside span", Some("PL101")),
        make_quickfix(uri, 1, 0, 3, "other", "Other edit", Some("PL102")),
    ];
    let aggregate = build_source_fix_all(&actions, uri).expect("aggregate present");
    assert_eq!(new_texts(aggregate_edits(&aggregate, uri)), vec!["replace", "other"]);
}

#[test]
fn build_source_fix_all_aggregates_multiple_quickfixes() {
    let uri = "file:///aggregate.pl";
    let actions = vec![
        make_quickfix(uri, 1, 4, 10, "fix-a", "Fix A", Some("PL100")),
        make_quickfix(uri, 2, 0, 4, "fix-b", "Fix B", Some("PL101")),
        make_quickfix(uri, 3, 2, 5, "fix-c", "Fix C", Some("PL102")),
    ];
    let aggregate = build_source_fix_all(&actions, uri).expect("aggregate present");
    assert_eq!(get(&aggregate, "title").and_then(text_of), Some("Fix all auto-fixable issues"));
    assert_eq!(get(&aggregate, "kind").and_then(text_of), Some("source.fixAll"));
    assert_eq!(get(&aggregate, "isPreferred").and_then(|v| v.as_bool()), Some(true));
    assert_eq!(aggregate_edits(&aggregate, uri).len(), 3, "three non-conflicting edits were kept");
    let diagnostics = get(&aggregate, "diagnostics").and_then(|v| v.as_array()).expect("diagnostics array");
    assert_eq!(diagnostics.len(), 3, "one diagnostic per quickfix");
}

#[test]
fn build_source_fix_all_supports_document_changes_quickfixes() {
    let uri = "file:///doc_changes.pl";
    let actions = vec![
        make_document_changes_quickfix(uri, 0, 0, 0, "use strict;\n", "Add strict", false),
        make_document_changes_quickfix(uri, 0, 0, 0, "use warnings;\n", "Add warnings", false),
    ];
    let aggregate = build_source_fix_all(&actions, uri).expect("aggregate present");
    assert_eq!(aggregate_edits(&aggregate, uri).len(), 2, "documentChanges quick fixes should aggregate");
}

#[test]
fn build_source_fix_all_ignores_document_changes_resource_operations() {
    let uri = "file:///doc_changes_resource_ops.pl";
    let actions = vec![
        make_document_changes_quickfix(uri, 0, 0, 3, "my", "Fix declaration", true),
        make_document_changes_quickfix(uri, 1, 0, 3, "our", "Fix scope", false),
    ];
    let aggregate = build_source_fix_all(&actions, uri).expect("aggregate present");
    assert_eq!(aggregate_edits(&aggregate, uri).len(), 2, "resource ops must be ignored during aggregation");
}

#[test]
fn build_source_fix_all_returns_none_for_single_quickfix() {
    let uri = "file:///single.pl";
    let actions = vec![make_quickfix(uri, 0, 0, 3, "fix", "Fix solo", Some("PL100"))];
    assert!(build_source_fix_all(&actions, uri).is_none());
}

#[test]
fn build_source_fix_all_returns_none_without_any_quickfix() {
    let uri = "file:///none.pl";
    let actions = vec![
        obj(vec![
            ("title", s("Extract variable")),
            ("kind", s("refactor.extract")),
            ("edit", obj(vec![("changes", obj(vec![(uri, JsonValue::Arr(vec![]))]))])),
        ]),
        obj(vec![
            ("title", s("Organize imports")),
            ("kind", s("source.organizeImports")),
            ("edit", obj(vec![("changes", obj(vec![(uri, JsonValue::Arr(vec![]))]))])),
        ]),
    ];
    assert!(build_source_fix_all(&actions, uri).is_none());
}

#[test]
fn build_source_fix_all_ignores_non_quickfix_kinds() {
    let uri = "file:///mixed.pl";
    let actions = vec![
        make_quickfix(uri, 0, 0, 3, "fix-a", "Fix A", Some("PL100")),
        make_quickfix(uri, 1, 0, 3, "fix-b", "Fix B", Some("PL101")),
        obj(vec![
            ("title", s("Extract variable")),
            ("kind", s("refactor.extract")),
            (
                "edit",
                obj(vec![(
                    "changes",
                    obj(vec![(
                        uri,
                        JsonValue::Arr(vec![obj(vec![("range", range(2, 0, 2, 5)), ("newText", s("extracted"))])]),
                    )]),
                )]),
            ),
        ]),
    ];
    let aggregate = build_source_fix_all(&actions, uri).expect("aggregate present");
    assert_eq!(aggregate_edits(&aggregate, uri).len(), 2, "refactor action must not be merged into fixAll");
}

#[test]
fn build_source_fix_all_rejects_overlapping_edits() {
    let uri = "file:///overlap.pl";
    let actions = vec![
        make_quickfix(uri, 0, 0, 10, "first", "Fix A", Some("PL100")),
        make_quickfix(uri, 0, 5, 15, "second", "Fix B", Some("PL101")),
        make_quickfix(uri, 2, 0, 3, "third", "Fix C", Some("PL102")),
    ];
    let aggregate = build_source_fix_all(&actions, uri).expect("aggregate present");
    let edits = aggregate_edits(&aggregate, uri);
    assert_eq!(edits.len(), 2);
    assert_eq!(new_texts(edits), vec!["first", "third"]);
}

#[test]
fn build_source_fix_all_skips_command_only_quickfixes() {
    let uri = "file:///command.pl";
    let actions = vec![
        make_quickfix(uri, 0, 0, 3, "fix-a", "Fix A", Some("PL100")),
        make_quickfix(uri, 1, 0, 3, "fix-b", "Fix B", Some("PL101")),
        obj(vec![
            ("title", s("Run external fixer")),
            ("kind", s("quickfix")),
            ("command", obj(vec![("command", s("perl.runFixer")), ("title", s("Run"))])),
        ]),
    ];
    let aggregate = build_source_fix_all(&actions, uri).expect("aggregate present");
    assert_eq!(aggregate_edits(&aggregate, uri).len(), 2);
}

#[test]
fn build_source_fix_all_deduplicates_identical_edits() {
    let uri = "file:///identical.pl";
    let actions = vec![
        make_quickfix(uri, 0, 0, 0, "use strict;\n", "Add strict (A)", Some("PL100")),
        make_quickfix(uri, 0, 0, 0, "use strict;\n", "Add strict (B)", Some("PL100")),
        make_quickfix(uri, 0, 0, 0, "use warnings;\n", "Add warnings", Some("PL101")),
    ];
    let aggregate = build_source_fix_all(&actions, uri).expect("aggregate present");
    let edits = aggregate_edits(&aggregate, uri);
    assert_eq!(edits.len(), 2, "identical edits must dedupe");
    let texts = new_texts(edits);
    assert!(texts.contains(&"use strict;\n"));
    assert!(texts.contains(&"use warnings;\n"));
}

#[test]
fn build_source_fix_all_deduplicates_diagnostics() {
    let uri = "file:///dupes.pl";
    let mut third = make_quickfix(uri, 2, 0, 3, "b2", "Fix B2", Some("PL200"));
    if let JsonValue::Obj(members) = &mut third {
        members.retain(|m| m.key != "diagnostics");
        members.push(JsonMember {
            key: "diagnostics".to_string(),
            value: JsonValue::Arr(vec![obj(vec![
                ("range", range(1, 0, 1, 3)),
                ("code", s("PL200")),
                ("message", s("Duplicate diagnostic")),
                ("source", s("perl-lsp")),
                ("severity", u(2)),
            ])]),
        });
    }
    let actions = vec![
        make_quickfix(uri, 0, 0, 3, "a", "Fix A", Some("PL100")),
        make_quickfix(uri, 1, 0, 3, "b", "Fix B1", Some("PL200")),
        third,
    ];
    let aggregate = build_source_fix_all(&actions, uri).expect("aggregate present");
    let diagnostics = get(&aggregate, "diagnostics").and_then(|v| v.as_array()).expect("diagnostics array");
    let codes: Vec<&str> = diagnostics.iter().filter_map(|d| get(d, "code").and_then(text_of)).collect();
    assert_eq!(codes, vec!["PL100", "PL200"]);
}

#[test]
fn build_source_fix_all_ignores_other_uris() {
    let uri = "file:///target.pl";
    let other_uri = "file:///other.pl";
    let actions = vec![
        make_quickfix(uri, 0, 0, 3, "a", "Fix A", Some("PL100")),
        make_quickfix(uri, 1, 0, 3, "b", "Fix B", Some("PL101")),
        make_quickfix(other_uri, 0, 0, 3, "c", "Cross-file", Some("PL102")),
    ];
    let aggregate = build_source_fix_all(&actions, uri).expect("aggregate present");
    assert_eq!(aggregate_edits(&aggregate, uri).len(), 2);
}

#[test]
fn build_source_fix_all_omits_diagnostics_member_without_diagnostics() {
    let uri = "file:///nodiag.pl";
    let actions = vec![
        make_quickfix(uri, 0, 0, 3, "a", "Fix A", None),
        make_quickfix(uri, 1, 0, 3, "b", "Fix B", None),
    ];
    let aggregate = build_source_fix_all(&actions, uri).expect("aggregate present");
    assert!(get(&aggregate, "diagnostics").is_none());
}

#[test]
fn quickfix_text_edits_for_uri_prefers_changes() {
    let uri = "file:///a.pl";
    let action = make_quickfix(uri, 0, 0, 1, "x", "Fix", None);
    let edits = quickfix_text_edits_for_uri(&action, uri).expect("edits");
    assert_eq!(edits.len(), 1);
    assert!(quickfix_text_edits_for_uri(&action, "file:///b.pl").is_none());
}

#[test]
fn code_actions_without_ast_offers_pragmas_after_shebang() {
    let uri = "file:///broken.pl";
    let actions = code_actions_without_ast(uri, "#!/usr/bin/perl\nmy $x = ;\n", &Vec::new());
    let titles: Vec<&str> = actions.iter().filter_map(|a| get(a, "title").and_then(text_of)).collect();
    assert_eq!(titles, vec!["Add 'use strict' and 'use warnings'", "Add debug print"]);
    let edits = get(get(get(&actions[0], "edit").unwrap(), "changes").unwrap(), uri)
        .and_then(|v| v.as_array())
        .unwrap();
    assert_eq!(get(&edits[0], "newText").and_then(text_of), Some("use strict;\nuse warnings;\n\n"));
    assert_eq!(FixAllRange::from_json(get(&edits[0], "range").unwrap()), Some(FixAllRange { start_line: 1, start_char: 0, end_line: 1, end_char: 0 }));
}

#[test]
fn code_actions_without_ast_offers_globals_conversion() {
    let uri = "file:///globals.pl";
    let text = "use strict;\nuse warnings;\n$count = 1;\n";
    let actions = code_actions_without_ast(uri, text, &Vec::new());
    let titles: Vec<&str> = actions.iter().filter_map(|a| get(a, "title").and_then(text_of)).collect();
    assert_eq!(titles, vec!["Add debug print", "Convert globals to 'my' declarations"]);
    let only_quickfix = code_actions_without_ast(uri, "use warnings;\n", &vec!["quickfix".to_string()]);
    assert_eq!(only_quickfix.len(), 1);
    let edits = get(get(get(&only_quickfix[0], "edit").unwrap(), "changes").unwrap(), uri)
        .and_then(|v| v.as_array())
        .unwrap();
    assert_eq!(get(&edits[0], "newText").and_then(text_of), Some("use strict;\n"));
}
