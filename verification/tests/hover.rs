use perl_lsp_runtime::json::JsonValue;
use perl_lsp_runtime::lifecycle::LspServer;

fn hover_value(hover: &JsonValue) -> &str {
    hover
        .get("contents")
        .and_then(|c| c.get("value"))
        .and_then(|v| v.as_str())
        .expect("markdown hover text")
}

#[test]
fn test_internal_pl_sv_yes_hover_from_sigiled_token() {
    let text = "print $PL_sv_yes;\n";
    let offset = text.find('$').expect("sigil should exist");
    assert_eq!(LspServer::extract_special_variable(text, offset).as_deref(), Some("$PL_sv_yes"));
    let hover = LspServer::get_special_variable_hover("$PL_sv_yes").expect("hover should exist for $PL_sv_yes");
    let value = hover_value(&hover);
    assert!(value.contains("true scalar"), "hover should describe the shared true scalar: {value}");
}

#[test]
fn special_variables_are_found_next_to_the_cursor() {
    assert_eq!(LspServer::extract_special_variable("die $!;", 4).as_deref(), Some("$!"));
    assert_eq!(LspServer::extract_special_variable("die $!;", 5).as_deref(), Some("$!"));
    assert_eq!(LspServer::extract_special_variable("if ($^W) {}", 4).as_deref(), Some("$^W"));
    assert_eq!(LspServer::extract_special_variable("my $x;", 3), None);
    assert_eq!(LspServer::extract_special_variable("x", 5), None);
}

#[test]
fn capture_group_hover_names_the_group() {
    let hover = LspServer::get_special_variable_hover("$2").expect("capture group hover");
    let value = hover_value(&hover);
    assert!(value.starts_with("**`$2` \u{2014} Regex Capture Group 2**"));
    assert!(value.contains("the 2nd set of parentheses"));
    assert!(LspServer::get_special_variable_hover("$0").is_some());
    assert!(LspServer::get_special_variable_hover("$10").is_none());
    assert!(LspServer::get_special_variable_hover("$nothing").is_none());
}

#[test]
fn documented_special_variables_have_hovers() {
    let hover = LspServer::get_special_variable_hover("$_").expect("default variable hover");
    assert!(hover_value(&hover).starts_with("**`$_` \u{2014} The Default Variable**"));
    let internal = LspServer::get_internal_special_variable_hover("PL_sv_undef").expect("internal hover");
    assert!(hover_value(&internal).starts_with("**`PL_sv_undef` \u{2014} Internal Special Variable**"));
}

#[test]
fn builtin_signatures_list_their_parameters() {
    let server = LspServer::default();
    let sig = server.get_builtin_function_signature("substr").expect("substr signature");
    assert_eq!(sig.get("label").and_then(|l| l.as_str()), Some("substr EXPR, OFFSET, LENGTH, REPLACEMENT"));
    let params = sig.get("parameters").and_then(|p| p.as_array()).expect("parameters");
    let labels: Vec<&str> = params.iter().filter_map(|p| p.get("label").and_then(|l| l.as_str())).collect();
    assert_eq!(labels, vec!["EXPR", "OFFSET", "LENGTH", "REPLACEMENT"]);
    let fork = server.get_builtin_function_signature("fork").expect("fork signature");
    assert_eq!(fork.get("parameters").and_then(|p| p.as_array()).map(|p| p.len()), Some(0));
    assert!(server.get_builtin_function_signature("not_a_builtin").is_none());
    assert!(server.get_builtin_function_signature("lock").is_some());
}

#[test]
fn static_tokens_include_sigils_before_the_cursor() {
    assert_eq!(LspServer::get_token_at_position_static("print $name;", 8), "$name");
    assert_eq!(LspServer::get_token_at_position_static("print $name;", 7), "$name");
    assert_eq!(LspServer::get_token_at_position_static("print $name;", 6), "");
    assert_eq!(LspServer::get_token_at_position_static("abc", 3), "");
}

#[test]
fn package_names_need_a_separator() {
    assert_eq!(LspServer::get_package_name_at_position("use File::Path;", 6).as_deref(), Some("File::Path"));
    assert_eq!(LspServer::get_package_name_at_position("Foo::Bar::", 2).as_deref(), Some("Foo::Bar"));
    assert_eq!(LspServer::get_package_name_at_position("my $x = foo();", 9), None);
}

#[test]
fn arrow_receivers_are_found_before_methods() {
    assert_eq!(LspServer::extract_arrow_receiver("$dbh->prepare($sql)", 8).as_deref(), Some("$dbh"));
    assert_eq!(LspServer::extract_arrow_receiver("$dbh -> prepare", 10).as_deref(), Some("$dbh"));
    assert_eq!(LspServer::extract_arrow_receiver("Foo::Bar->new", 11).as_deref(), Some("Foo::Bar"));
    assert_eq!(LspServer::extract_arrow_receiver("prepare", 2), None);
}

#[test]
fn moo_accessor_hover_lists_options() {
    let attrs = vec![
        "is=ro".to_string(),
        "isa=Str".to_string(),
        "required=1".to_string(),
        "predicate=1".to_string(),
        "trigger=_on_set".to_string(),
    ];
    let text = LspServer::format_moo_accessor_hover("name", &attrs);
    assert_eq!(
        text,
        "**Moo/Moose Attribute Accessor**\n\n**Attribute**: `name`\n**Type**: `Str`\n**Access**: read-only\n**Required**: yes\n**Predicate**: `has_name`\n**Options**: trigger=_on_set"
    );
}

#[test]
fn flags_are_read_loosely() {
    assert!(LspServer::is_truthy(" TRUE "));
    assert!(!LspServer::is_truthy("0"));
    assert_eq!(LspServer::describe_truthy("No"), "no");
    assert_eq!(LspServer::describe_truthy(" Maybe "), "maybe");
    assert_eq!(LspServer::describe_access_mode("rwp"), "read-write private");
    assert_eq!(LspServer::describe_access_mode("bare"), "bare");
    let attrs = vec!["builder=make_it".to_string(), "noequals".to_string()];
    assert_eq!(LspServer::moo_accessor_method_name("x", &attrs, "builder", "_build_").as_deref(), Some("make_it"));
    assert_eq!(LspServer::moo_attribute_value(&attrs, "noequals"), None);
}

#[test]
fn regex_patterns_are_explained() {
    let entries = LspServer::explain_regex(r"^\d+\s*(?:foo|bar)[^a-z]{2,3}$");
    let tokens: Vec<&str> = entries.iter().map(|(t, _)| t.as_str()).collect();
    assert_eq!(tokens, vec!["^", "\\d", "\\s", "(?:", "| ", "[^a-z]{2,3}", "$"]);
    assert_eq!(entries[1].1, "Any decimal digit (0-9), one or more (greedy)");
    assert_eq!(entries[5].1, "Negated character class, counted repetition");
    let backref = LspServer::explain_regex(r"(a)\1?");
    assert_eq!(backref[1], ("\\1".to_string(), "Backreference to capture group 1, zero or one (optional, greedy)".to_string()));
}

#[test]
fn quantifiers_fold_into_the_token() {
    let mut pos = 0usize;
    let (tok, desc) = LspServer::apply_quantifier("x".to_string(), "X".to_string(), b"+?rest", &mut pos);
    assert_eq!((tok.as_str(), desc.as_str(), pos), ("x", "X, one or more (lazy \u{2014} matches as few as possible)", 2));
    let mut pos = 1usize;
    let (tok, desc) = LspServer::apply_quantifier("a".to_string(), "A".to_string(), b"a{2}+", &mut pos);
    assert_eq!((tok.as_str(), desc.as_str(), pos), ("a{2}", "A, counted repetition (possessive)", 5));
}

#[test]
fn regex_literals_are_found_under_the_cursor() {
    assert_eq!(LspServer::find_regex_in_line("if ($x =~ /ab+c/) {", 12).as_deref(), Some("ab+c"));
    assert_eq!(LspServer::find_regex_in_line("my $y = $x / 2;", 12), None);
    assert_eq!(LspServer::find_regex_in_line("s{foo{1}}{bar}", 3).as_deref(), Some("foo{1}"));
    assert_eq!(LspServer::find_regex_in_line("qr!x+!", 3).as_deref(), Some("x+"));
    assert_eq!(LspServer::matching_close(b'('), b')');
    assert_eq!(LspServer::matching_close(b'!'), b'!');
    let text = "my $a = 1;\nif ($s =~ m/^\\w+$/) {}\n";
    let offset = text.find("^\\w").unwrap() + 1;
    assert_eq!(LspServer::find_regex_at_offset(text, offset).as_deref(), Some("^\\w+$"));
    let hover = LspServer::extract_regex_hover(text, offset).expect("regex hover");
    let value = hover.get("contents").and_then(|c| c.get("value")).and_then(|v| v.as_str()).unwrap();
    assert!(value.starts_with("**Regex Pattern**\n\n| Token | Meaning |\n|-------|-------|\n| `^` | Start of string/line anchor |\n"));
    assert!(LspServer::extract_regex_hover(text, 2).is_none());
}
