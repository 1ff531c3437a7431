use gripe::body_formatter::{format_body, format_title};
use gripe::types::{AutomatedPolicy, FieldDefinition, FieldType, GripeSchema};
use gripe::values::ValueMap;

fn field(id: &str, label: Option<&str>, required: bool) -> FieldDefinition {
    FieldDefinition {
        id: id.to_string(),
        label: label.map(|l| l.to_string()),
        field_type: FieldType::Input,
        required,
        options: Vec::new(),
        default: None,
    }
}

fn schema_of(fields: Vec<FieldDefinition>) -> GripeSchema {
    GripeSchema {
        repo: None,
        automated: AutomatedPolicy::Allow,
        labels: Vec::new(),
        title_template: None,
        fields,
    }
}

#[test]
fn test_format_title_with_template() {
    let mut values = ValueMap::new();
    values.insert("tool".to_string(), "vim".to_string());
    values.insert("summary".to_string(), "cursor jumps".to_string());

    let title = format_title(Some("[{tool}] {summary}"), &values);
    assert_eq!(title, "[vim] cursor jumps");
}

#[test]
fn test_format_title_no_template() {
    let mut values = ValueMap::new();
    values.insert("summary".to_string(), "something broke".to_string());

    let title = format_title(None, &values);
    assert_eq!(title, "something broke");
}

#[test]
fn test_format_title_no_template_no_summary() {
    let values = ValueMap::new();
    let title = format_title(None, &values);
    assert_eq!(title, "Feedback");
}

#[test]
fn test_format_title_unresolved_placeholder_degrades() {
    let mut values = ValueMap::new();
    values.insert("tool".to_string(), "vim".to_string());
    let title = format_title(Some("[{tool}] {summary}"), &values);
    assert_eq!(title, "[vim] summary");
}

#[test]
fn test_format_title_strips_stray_braces() {
    let mut values = ValueMap::new();
    values.insert("tool".to_string(), "a{b}c".to_string());
    let title = format_title(Some("{tool} {open"), &values);
    assert_eq!(title, "abc open");
}

#[test]
fn test_format_body_sections_in_schema_order() {
    let schema = schema_of(vec![
        field("a", Some("Alpha"), true),
        field("b", None, false),
        field("c", Some("Gamma"), false),
    ]);
    let mut values = ValueMap::new();
    values.insert("c".to_string(), "third".to_string());
    values.insert("a".to_string(), "first".to_string());
    values.insert("b".to_string(), "second".to_string());

    let body = format_body(&schema, &values);
    assert_eq!(body, "### Alpha\n\nfirst\n\n### b\n\nsecond\n\n### Gamma\n\nthird");
}

#[test]
fn test_format_body_skips_empty_and_absent() {
    let schema = schema_of(vec![
        field("a", Some("Alpha"), true),
        field("b", Some("Beta"), false),
        field("c", Some("Gamma"), false),
    ]);
    let mut values = ValueMap::new();
    values.insert("a".to_string(), "kept".to_string());
    values.insert("b".to_string(), "".to_string());

    let body = format_body(&schema, &values);
    assert_eq!(body, "### Alpha\n\nkept");
}

#[test]
fn test_format_body_twice_equal() {
    let schema = schema_of(vec![field("a", Some("Alpha"), true), field("b", None, false)]);
    let mut values = ValueMap::new();
    values.insert("a".to_string(), "x".to_string());
    values.insert("b".to_string(), "y".to_string());

    let once = format_body(&schema, &values);
    let twice = format_body(&schema, &values);
    assert_eq!(once, twice);
}

#[test]
fn test_format_body_values_outside_schema_ignored() {
    let schema = schema_of(vec![field("a", Some("Alpha"), true)]);
    let mut values = ValueMap::new();
    values.insert("a".to_string(), "kept".to_string());
    values.insert("stray".to_string(), "dropped".to_string());

    let body = format_body(&schema, &values);
    assert_eq!(body, "### Alpha\n\nkept");
}
