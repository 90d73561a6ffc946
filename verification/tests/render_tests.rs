use sbc::comments::strip_comments;
use sbc::document::{parse_document, write_document, Document, Member};
use sbc::environment::Env;
use sbc::placeholder::{extract_structural_placeholder, interpolate_string};
use sbc::render::{process_value, render, resolve_env_var, RenderError, MAX_NESTING};
use sbc::warning::Warning;

fn env_of(pairs: &[(&str, &str)]) -> Env {
    let mut env = Env::new();
    for (name, value) in pairs {
        env.insert(name, value);
    }
    env
}

fn number(n: u64) -> Document {
    Document::Number(serde_json::Number::from(n))
}

fn text(s: &str) -> Document {
    Document::Text(s.to_string())
}

#[test]
fn strip_keeps_text_without_comments() {
    assert_eq!(strip_comments("{\"a\": 1}"), "{\"a\": 1}");
    assert_eq!(strip_comments(""), "");
}

#[test]
fn strip_removes_line_comment_up_to_newline() {
    assert_eq!(strip_comments("a // gone\nb"), "a \nb");
    assert_eq!(strip_comments("a // gone to the end"), "a ");
    assert_eq!(strip_comments("//\n"), "\n");
}

#[test]
fn strip_removes_block_comment() {
    assert_eq!(strip_comments("a /* gone */ b"), "a  b");
    assert_eq!(strip_comments("a /* two\nlines */b"), "a b");
    assert_eq!(strip_comments("a /* never closed"), "a ");
    assert_eq!(strip_comments("a /*/ still inside */b"), "a b");
    assert_eq!(strip_comments("a /***/b"), "a b");
}

#[test]
fn strip_preserves_quoted_comment_markers() {
    let quoted = "{\"url\": \"//not-a-comment\"}";
    assert_eq!(strip_comments(quoted), quoted);
    let block = "{\"glob\": \"/* kept */\"}";
    assert_eq!(strip_comments(block), block);
}

#[test]
fn strip_escaped_quote_does_not_close_string() {
    let input = "\"a\\\"//b\" // c";
    assert_eq!(strip_comments(input), "\"a\\\"//b\" ");
    let backslash = "\"a\\\\\" // c";
    assert_eq!(strip_comments(backslash), "\"a\\\\\" ");
}

#[test]
fn strip_single_slash_is_kept() {
    assert_eq!(strip_comments("a / b"), "a / b");
    assert_eq!(strip_comments("/"), "/");
}

#[test]
fn strip_handles_non_ascii_text() {
    assert_eq!(strip_comments("\"é\" // ü\n\"日本\""), "\"é\" \n\"日本\"");
}

#[test]
fn placeholder_whole_value_matches() {
    assert_eq!(extract_structural_placeholder("{{X}}"), Some("X"));
    assert_eq!(extract_structural_placeholder("  {{X}}  "), Some("X"));
    assert_eq!(extract_structural_placeholder("{{ NAME }}"), Some("NAME"));
    assert_eq!(extract_structural_placeholder("\t{{A_1}}\n"), Some("A_1"));
    assert_eq!(extract_structural_placeholder("{{}}"), Some(""));
}

#[test]
fn placeholder_partial_value_does_not_match() {
    assert_eq!(extract_structural_placeholder("a{{X}}b"), None);
    assert_eq!(extract_structural_placeholder("{{X}"), None);
    assert_eq!(extract_structural_placeholder("{X}}"), None);
    assert_eq!(extract_structural_placeholder("{{}"), None);
    assert_eq!(extract_structural_placeholder("{}"), None);
    assert_eq!(extract_structural_placeholder(""), None);
    assert_eq!(extract_structural_placeholder("plain"), None);
}

#[test]
fn interpolation_replaces_known_variable() {
    let env = env_of(&[("HOST", "example.org"), ("PORT", "8080")]);
    assert_eq!(interpolate_string("http://${HOST}:${PORT}/", &env), "http://example.org:8080/");
}

#[test]
fn interpolation_of_missing_variable_is_empty() {
    let env = Env::new();
    assert_eq!(interpolate_string("${MISSING}", &env), "");
    assert_eq!(interpolate_string("a${MISSING}b", &env), "ab");
}

#[test]
fn interpolation_leaves_other_dollars_alone() {
    let env = env_of(&[("X", "1")]);
    assert_eq!(interpolate_string("$5", &env), "$5");
    assert_eq!(interpolate_string("$X", &env), "$X");
    assert_eq!(interpolate_string("cost: 5$", &env), "cost: 5$");
    assert_eq!(interpolate_string("a{{X}}b", &env), "a{{X}}b");
}

#[test]
fn interpolation_without_closing_brace_stops() {
    let env = env_of(&[("X", "1")]);
    assert_eq!(interpolate_string("${X} and ${X", &env), "1 and ${X");
}

#[test]
fn interpolation_skips_invalid_name() {
    let env = env_of(&[("X", "1")]);
    assert_eq!(interpolate_string("${a-b}${X}", &env), "${a-b}1");
    assert_eq!(interpolate_string("${ ${X}", &env), "${ 1");
}

#[test]
fn interpolation_does_not_rescan_inserted_text() {
    let env = env_of(&[("A", "${B}"), ("B", "deep")]);
    assert_eq!(interpolate_string("${A}/${B}", &env), "${B}/deep");
}

#[test]
fn interpolation_accepts_unicode_names() {
    let env = env_of(&[("größe", "xl")]);
    assert_eq!(interpolate_string("${größe}", &env), "xl");
}

#[test]
fn env_later_binding_replaces_earlier() {
    let mut env = Env::new();
    assert_eq!(env.get("A"), None);
    env.insert("A", "1");
    env.insert("B", "2");
    env.insert("A", "3");
    assert_eq!(env.get("A").map(|s| s.as_str()), Some("3"));
    assert_eq!(env.get("B").map(|s| s.as_str()), Some("2"));
    assert_eq!(env.get("C"), None);
}

#[test]
fn resolve_missing_or_blank_is_none() {
    let env = env_of(&[("BLANK", "   ")]);
    assert_eq!(resolve_env_var("MISSING", &env).unwrap(), None);
    assert_eq!(resolve_env_var("BLANK", &env).unwrap(), None);
}

#[test]
fn resolve_parses_trimmed_json() {
    let env = env_of(&[("N", "  42 "), ("B", "true"), ("S", "\"hi\"")]);
    assert_eq!(resolve_env_var("N", &env).unwrap(), Some(number(42)));
    assert_eq!(resolve_env_var("B", &env).unwrap(), Some(Document::Bool(true)));
    assert_eq!(resolve_env_var("S", &env).unwrap(), Some(text("hi")));
}

#[test]
fn resolve_invalid_json_is_an_error() {
    let env = env_of(&[("BAD", "{not json")]);
    match resolve_env_var("BAD", &env) {
        Err(RenderError::Variable { name, .. }) => assert_eq!(name, "BAD"),
        other => panic!("unexpected: {:?}", other),
    }
}

#[test]
fn array_splicing_preserves_order() {
    let env = env_of(&[("LIST", "[1,2,3]")]);
    let template = Document::Array(vec![text("a"), text("{{LIST}}"), text("b")]);
    let expected = Document::Array(vec![text("a"), number(1), number(2), number(3), text("b")]);
    assert_eq!(process_value(&template, &env, &mut Vec::new()).unwrap(), expected);
}

#[test]
fn array_placeholder_with_scalar_is_pushed() {
    let env = env_of(&[("ONE", "{\"k\": null}")]);
    let template = Document::Array(vec![text("{{ONE}}")]);
    let expected = Document::Array(vec![Document::Object(vec![Member {
        key: "k".to_string(),
        value: Document::Null,
    }])]);
    assert_eq!(process_value(&template, &env, &mut Vec::new()).unwrap(), expected);
}

#[test]
fn missing_reference_is_kept_as_value_and_dropped_from_array() {
    let env = Env::new();
    assert_eq!(process_value(&text("{{MISSING}}"), &env, &mut Vec::new()).unwrap(), text("{{MISSING}}"));
    let template = Document::Array(vec![number(1), text("{{MISSING}}"), number(2)]);
    assert_eq!(
        process_value(&template, &env, &mut Vec::new()).unwrap(),
        Document::Array(vec![number(1), number(2)])
    );
}

#[test]
fn structural_reference_replaces_type() {
    let env = env_of(&[("PORT", "8080"), ("ON", "true")]);
    assert_eq!(process_value(&text("  {{PORT}}  "), &env, &mut Vec::new()).unwrap(), number(8080));
    assert_eq!(process_value(&text("{{ON}}"), &env, &mut Vec::new()).unwrap(), Document::Bool(true));
}

#[test]
fn partial_braces_are_interpolated_not_resolved() {
    let env = env_of(&[("X", "1"), ("Y", "why")]);
    assert_eq!(process_value(&text("a{{X}}b"), &env, &mut Vec::new()).unwrap(), text("a{{X}}b"));
    assert_eq!(process_value(&text("a{{X}}${Y}"), &env, &mut Vec::new()).unwrap(), text("a{{X}}why"));
}

#[test]
fn object_keys_pass_through() {
    let env = env_of(&[("V", "\"${K}\""), ("K", "inner")]);
    let template = Document::Object(vec![
        Member { key: "${K}".to_string(), value: text("${K}") },
        Member { key: "n".to_string(), value: Document::Null },
        Member { key: "v".to_string(), value: text("{{V}}") },
    ]);
    let expected = Document::Object(vec![
        Member { key: "${K}".to_string(), value: text("inner") },
        Member { key: "n".to_string(), value: Document::Null },
        Member { key: "v".to_string(), value: text("inner") },
    ]);
    assert_eq!(process_value(&template, &env, &mut Vec::new()).unwrap(), expected);
}

#[test]
fn spliced_items_are_rendered_on_their_own() {
    let env = env_of(&[("LIST", "[\"${A}\", \"{{GONE}}\", [\"{{GONE}}\"]]"), ("A", "x")]);
    let template = Document::Array(vec![text("{{LIST}}")]);
    let expected =
        Document::Array(vec![text("x"), text("{{GONE}}"), Document::Array(vec![])]);
    assert_eq!(process_value(&template, &env, &mut Vec::new()).unwrap(), expected);
}

#[test]
fn self_reference_ends_in_too_deep() {
    let env = env_of(&[("LOOP", "\"{{LOOP}}\"")]);
    assert!(matches!(process_value(&text("{{LOOP}}"), &env, &mut Vec::new()), Err(RenderError::TooDeep)));
    let in_array = Document::Array(vec![text("{{LOOP}}")]);
    assert!(matches!(process_value(&in_array, &env, &mut Vec::new()), Err(RenderError::TooDeep)));
    assert_eq!(MAX_NESTING, 32);
}

#[test]
fn chain_of_references_is_followed() {
    let env = env_of(&[("A", "\"{{B}}\""), ("B", "\"{{C}}\""), ("C", "[true]")]);
    assert_eq!(
        process_value(&text("{{A}}"), &env, &mut Vec::new()).unwrap(),
        Document::Array(vec![Document::Bool(true)])
    );
}

#[test]
fn invalid_variable_fails_rendering() {
    let env = env_of(&[("BAD", "[1,")]);
    let template = Document::Array(vec![number(1), text("{{BAD}}")]);
    assert!(matches!(process_value(&template, &env, &mut Vec::new()), Err(RenderError::Variable { .. })));
}

#[test]
fn parse_document_reads_json() {
    let d = parse_document("{\"b\": [1, \"x\", null], \"a\": false}").unwrap();
    let expected = Document::Object(vec![
        Member { key: "a".to_string(), value: Document::Bool(false) },
        Member {
            key: "b".to_string(),
            value: Document::Array(vec![number(1), text("x"), Document::Null]),
        },
    ]);
    assert_eq!(d, expected);
    assert!(parse_document("{").is_err());
    assert!(parse_document("").is_err());
}

#[test]
fn write_document_pretty_prints() {
    let d = Document::Object(vec![
        Member { key: "b".to_string(), value: Document::Array(vec![number(1), text("x")]) },
        Member { key: "a".to_string(), value: Document::Null },
    ]);
    let expected = "{\n  \"a\": null,\n  \"b\": [\n    1,\n    \"x\"\n  ]\n}";
    assert_eq!(write_document(&d).unwrap(), expected);
    assert_eq!(write_document(&Document::Array(vec![])).unwrap(), "[]");
}

#[test]
fn render_whole_template() {
    let env = env_of(&[("LIST", "[1,2,3]"), ("HOST", "example.org")]);
    let template = "{\n  // servers\n  \"items\": [\"a\", \"{{LIST}}\", \"b\"],\n  /* address */\n  \"url\": \"http://${HOST}//path\"\n}";
    let expected = "{\n  \"items\": [\n    \"a\",\n    1,\n    2,\n    3,\n    \"b\"\n  ],\n  \"url\": \"http://example.org//path\"\n}";
    assert_eq!(render(template, &env, &mut Vec::new()).unwrap(), expected);
}

#[test]
fn render_is_repeatable() {
    let env = env_of(&[("A", "{\"x\": [1.5, -2]}")]);
    let template = "[\"{{A}}\", \"${A}\"] // tail";
    let first = render(template, &env, &mut Vec::new()).unwrap();
    let second = render(template, &env, &mut Vec::new()).unwrap();
    assert_eq!(first, second);
}

#[test]
fn render_rejects_invalid_template() {
    let env = Env::new();
    assert!(matches!(render("{ \"a\": ", &env, &mut Vec::new()), Err(RenderError::Template(_))));
    assert!(matches!(render("// only a comment", &env, &mut Vec::new()), Err(RenderError::Template(_))));
}

#[test]
fn render_rejects_invalid_variable() {
    let env = env_of(&[("BAD", "nope")]);
    assert!(matches!(render("[\"{{BAD}}\"]", &env, &mut Vec::new()), Err(RenderError::Variable { .. })));
}

#[test]
fn scalars_pass_through() {
    let env = Env::new();
    let mut warnings = Vec::new();
    assert_eq!(process_value(&number(5), &env, &mut warnings).unwrap(), number(5));
    assert_eq!(process_value(&Document::Null, &env, &mut warnings).unwrap(), Document::Null);
    assert_eq!(
        process_value(&Document::Bool(false), &env, &mut warnings).unwrap(),
        Document::Bool(false)
    );
    assert!(warnings.is_empty());
}

#[test]
fn warnings_name_what_was_not_resolved() {
    let env = env_of(&[("BLANK", " "), ("LIST", "[\"${GONE}\"]")]);
    let template = Document::Object(vec![
        Member { key: "a".to_string(), value: text("{{MISSING}}") },
        Member {
            key: "b".to_string(),
            value: Document::Array(vec![text("{{ BLANK }}"), text("{{LIST}}"), text("x")]),
        },
        Member { key: "c".to_string(), value: text("${ONE}-${TWO}") },
    ]);
    let mut warnings = vec![Warning::MissingVariable("earlier".to_string())];
    let out = process_value(&template, &env, &mut warnings).unwrap();
    let expected = Document::Object(vec![
        Member { key: "a".to_string(), value: text("{{MISSING}}") },
        Member { key: "b".to_string(), value: Document::Array(vec![text(""), text("x")]) },
        Member { key: "c".to_string(), value: text("-") },
    ]);
    assert_eq!(out, expected);
    assert_eq!(
        warnings,
        vec![
            Warning::MissingVariable("earlier".to_string()),
            Warning::KeptPlaceholder("MISSING".to_string()),
            Warning::DroppedItem("BLANK".to_string()),
            Warning::MissingVariable("GONE".to_string()),
            Warning::MissingVariable("ONE".to_string()),
            Warning::MissingVariable("TWO".to_string()),
        ]
    );
}

#[test]
fn render_reports_warnings() {
    let env = Env::new();
    let mut warnings = Vec::new();
    let text = render("[\"{{A}}\", \"${B}\"]", &env, &mut warnings).unwrap();
    assert_eq!(text, "[\n  \"\"\n]");
    assert_eq!(
        warnings,
        vec![Warning::DroppedItem("A".to_string()), Warning::MissingVariable("B".to_string())]
    );
}

#[test]
fn render_nested_template_with_comments_in_strings() {
    let env = env_of(&[("PORTS", "[80, 443]"), ("NAME", "edge")]);
    let template = "{ \"name\": \"${NAME}\", /* ports\n follow */ \"ports\": [\"{{PORTS}}\"], \"note\": \"/* kept */ //kept\" } // end";
    let expected = "{\n  \"name\": \"edge\",\n  \"note\": \"/* kept */ //kept\",\n  \"ports\": [\n    80,\n    443\n  ]\n}";
    assert_eq!(render(template, &env, &mut Vec::new()).unwrap(), expected);
}

fn chain(length: usize) -> Env {
    let mut env = Env::new();
    let mut i = 0;
    while i + 1 < length {
        env.insert(&format!("V{}", i), &format!("\"{{{{V{}}}}}\"", i + 1));
        i += 1;
    }
    env.insert(&format!("V{}", length - 1), "7");
    env
}

#[test]
fn nesting_is_followed_up_to_the_bound() {
    let env = chain(MAX_NESTING);
    assert_eq!(process_value(&text("{{V0}}"), &env, &mut Vec::new()).unwrap(), number(7));
    let in_array = Document::Array(vec![text("{{V0}}")]);
    assert_eq!(
        process_value(&in_array, &env, &mut Vec::new()).unwrap(),
        Document::Array(vec![number(7)])
    );
}

#[test]
fn nesting_beyond_the_bound_fails() {
    let env = chain(MAX_NESTING + 1);
    assert!(matches!(
        process_value(&text("{{V0}}"), &env, &mut Vec::new()),
        Err(RenderError::TooDeep)
    ));
}
