use signer_core::display::{json_to_lines, render_text, DisplayLine, JsonValue};

fn s(text: &str) -> JsonValue {
    JsonValue::Str(text.to_string())
}

fn n(text: &str) -> JsonValue {
    JsonValue::Number(text.to_string())
}

fn obj(entries: Vec<(&str, JsonValue)>) -> JsonValue {
    JsonValue::Object(entries.into_iter().map(|(k, v)| (k.to_string(), v)).collect())
}

#[test]
fn simple_object() {
    let val = obj(vec![("amount", n("42")), ("to", s("addr1..."))]);
    let lines = json_to_lines(&val);
    assert!(lines.iter().any(|l| l.key.as_deref() == Some("to")));
    assert!(lines.iter().any(|l| l.key.as_deref() == Some("amount")));
}

#[test]
fn nested_object() {
    let val = obj(vec![("tx", obj(vec![("to", s("addr1")), ("value", s("5 ADA"))]))]);
    let lines = json_to_lines(&val);
    let text = render_text(&lines);
    assert!(text.contains("tx:"));
    assert!(text.contains("  to: addr1"));
}

#[test]
fn array_values() {
    let val = obj(vec![(
        "outputs",
        JsonValue::Array(vec![obj(vec![("addr", s("a"))]), obj(vec![("addr", s("b"))])]),
    )]);
    let lines = json_to_lines(&val);
    let text = render_text(&lines);
    assert!(text.contains("[2 items]"));
}

#[test]
fn flattening_is_depth_first_with_indices() {
    let val = obj(vec![
        ("list", JsonValue::Array(vec![JsonValue::Null, JsonValue::Bool(true)])),
        ("n", n("-1.5")),
    ]);
    let lines = json_to_lines(&val);
    let view: Vec<(usize, Option<&str>, &str)> =
        lines.iter().map(|l| (l.indent, l.key.as_deref(), l.value.as_str())).collect();
    assert_eq!(
        view,
        vec![
            (1, Some("list"), "[2 items]"),
            (2, Some("[0]"), "null"),
            (2, Some("[1]"), "true"),
            (1, Some("n"), "-1.5"),
        ]
    );
}

#[test]
fn top_level_leaf_has_no_key() {
    let lines = json_to_lines(&JsonValue::Bool(false));
    assert_eq!(lines.len(), 1);
    assert_eq!((lines[0].indent, lines[0].key.clone(), lines[0].value.as_str()), (0, None, "false"));
}

#[test]
fn render_text_formats_each_kind_of_line() {
    let lines = vec![
        DisplayLine { indent: 0, key: Some("tx".into()), value: String::new() },
        DisplayLine { indent: 1, key: Some("to".into()), value: "addr".into() },
        DisplayLine { indent: 2, key: None, value: "plain".into() },
    ];
    assert_eq!(render_text(&lines), "tx:\n  to: addr\n    plain\n");
}

#[test]
fn render_of_nested_value_is_exact_and_repeatable() {
    let val = obj(vec![(
        "tx",
        obj(vec![("items", JsonValue::Array(vec![n("12")])), ("to", s("addr1"))]),
    )]);
    let first = render_text(&json_to_lines(&val));
    let second = render_text(&json_to_lines(&val));
    assert_eq!(first, "  tx:\n    items: [1 items]\n      [0]: 12\n    to: addr1\n");
    assert_eq!(first, second);
}

#[test]
fn array_with_many_items_counts_in_decimal() {
    let val = obj(vec![("xs", JsonValue::Array((0..12).map(|i| n(&i.to_string())).collect()))]);
    let lines = json_to_lines(&val);
    assert_eq!(lines[0].value, "[12 items]");
    assert_eq!(lines[11].key.as_deref(), Some("[10]"));
}
