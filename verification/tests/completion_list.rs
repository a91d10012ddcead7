use perl_lsp_runtime::completion::CompletionItemKind;
use perl_lsp_runtime::completion_list::{completion_item_json, completion_list_json, lexical_completions, CompletionCandidate};
use perl_lsp_runtime::json::JsonValue;

fn labels(items: &[CompletionCandidate]) -> Vec<String> {
    items.iter().map(|c| c.label.clone()).collect()
}

fn keywords() -> Vec<String> {
    vec!["print".to_string(), "printf".to_string(), "my".to_string()]
}

#[test]
fn methods_are_offered_after_arrow() {
    let text = "my $o = Foo->ne";
    let items = lexical_completions(text, text.len(), &keywords(), vec![]);
    assert_eq!(labels(&items), vec!["new"]);
    assert_eq!(items[0].detail.as_deref(), Some("method (constructor)"));
    assert_eq!(items[0].kind, CompletionItemKind::Function);
    assert_eq!(items[0].insert_text.as_deref(), Some("new"));
    let all = lexical_completions("$x->", 4, &keywords(), vec![]);
    assert_eq!(all.len(), 15);
}

#[test]
fn special_variables_follow_their_sigil() {
    assert_eq!(labels(&lexical_completions("print $", 7, &keywords(), vec![])), vec!["_"]);
    assert_eq!(labels(&lexical_completions("for (@", 6, &keywords(), vec![])), vec!["ARGV", "_"]);
    assert_eq!(labels(&lexical_completions("for (@A", 7, &keywords(), vec![])), vec!["ARGV"]);
    let env = lexical_completions("%E", 2, &keywords(), vec![]);
    assert_eq!(labels(&env), vec!["ENV"]);
    assert_eq!(env[0].detail.as_deref(), Some("Environment variables"));
    assert!(lexical_completions("$x", 2, &keywords(), vec![]).is_empty());
}

#[test]
fn keywords_match_the_word_before_the_cursor() {
    let items = lexical_completions("  pri", 5, &keywords(), vec![]);
    assert_eq!(labels(&items), vec!["print", "printf"]);
    assert_eq!(items[0].kind, CompletionItemKind::Keyword);
    assert!(items[0].detail.is_none());
    let past_end = lexical_completions("m", 40, &keywords(), vec![]);
    assert_eq!(labels(&past_end), vec!["my"]);
}

fn candidate(label: &str, kind: CompletionItemKind, insert: &str) -> CompletionCandidate {
    CompletionCandidate {
        label: label.to_string(),
        kind,
        detail: Some("d".to_string()),
        documentation: Some("doc".to_string()),
        insert_text: Some(insert.to_string()),
        sort_text: None,
    }
}

#[test]
fn completion_list_caps_items_and_marks_incomplete() {
    let items = vec![
        candidate("$x", CompletionItemKind::Variable, "$x"),
        candidate("foo", CompletionItemKind::Function, "foo"),
    ];
    let list = completion_list_json(&items, false, true, 1);
    assert!(matches!(list.get("isIncomplete"), Some(JsonValue::Bool(true))));
    let arr = list.get("items").and_then(|v| v.as_array()).expect("items");
    assert_eq!(arr.len(), 1);
    assert_eq!(arr[0].get("kind").and_then(|v| v.as_u64()), Some(6));
    assert_eq!(arr[0].get("insertTextFormat").and_then(|v| v.as_u64()), Some(1));
    let commit = arr[0].get("commitCharacters").and_then(|v| v.as_array()).expect("commit characters");
    assert_eq!(commit.len(), 4);
    assert_eq!(arr[0].get("documentation").and_then(|d| d.get("kind")).and_then(|k| k.as_str()), Some("markdown"));
    let full = completion_list_json(&items, false, false, 10);
    assert!(matches!(full.get("isIncomplete"), Some(JsonValue::Bool(false))));
    let arr = full.get("items").and_then(|v| v.as_array()).expect("items");
    assert_eq!(arr.len(), 2);
    assert!(arr[1].get("commitCharacters").is_none());
    assert!(arr[1].get("sortText").is_none());
}

#[test]
fn snippets_degrade_without_client_support() {
    let c = candidate("foreach", CompletionItemKind::Snippet, "foreach my ${1:item} ($2) {\n\t$0\n}");
    let plain = completion_item_json(&c, false, false);
    assert_eq!(plain.get("insertTextFormat").and_then(|v| v.as_u64()), Some(1));
    assert_eq!(plain.get("insertText").and_then(|v| v.as_str()), Some("foreach my item () {\n\t\n}"));
    assert_eq!(plain.get("kind").and_then(|v| v.as_u64()), Some(15));
    let snippet = completion_item_json(&c, true, false);
    assert_eq!(snippet.get("insertTextFormat").and_then(|v| v.as_u64()), Some(2));
    assert_eq!(snippet.get("insertText").and_then(|v| v.as_str()), Some("foreach my ${1:item} ($2) {\n\t$0\n}"));
}

#[test]
fn offset_counts_bytes() {
    let text = "é$xyz";
    assert_eq!(labels(&lexical_completions(text, 3, &keywords(), vec![])), vec!["_"]);
    assert!(lexical_completions(text, 4, &keywords(), vec![]).is_empty());
}
