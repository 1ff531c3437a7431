use gripe::github_templates::{
    convert_template_fields, first_usable_template, template_to_schema, TemplateAttributes,
    TemplateDocument, TemplateEntry, TemplateValidations,
};
use gripe::types::FieldType;

fn entry(tag: &str, id: Option<&str>) -> TemplateEntry {
    TemplateEntry {
        type_tag: tag.to_string(),
        id: id.map(|s| s.to_string()),
        attributes: None,
        validations: None,
    }
}

#[test]
fn test_markdown_and_idless_entries_are_dropped() {
    let body = vec![
        entry("markdown", Some("notes")),
        entry("input", None),
        entry("input", Some("tool")),
    ];
    let fields = convert_template_fields(&body);
    assert_eq!(fields.len(), 1);
    assert_eq!(fields[0].id, "tool");
}

#[test]
fn test_type_tag_mapping_with_permissive_fallback() {
    let body = vec![
        entry("input", Some("a")),
        entry("textarea", Some("b")),
        entry("dropdown", Some("c")),
        entry("something-new", Some("d")),
    ];
    let fields = convert_template_fields(&body);
    assert_eq!(fields[0].field_type, FieldType::Input);
    assert_eq!(fields[1].field_type, FieldType::Textarea);
    assert_eq!(fields[2].field_type, FieldType::Select);
    assert_eq!(fields[3].field_type, FieldType::Input);
}

#[test]
fn test_attributes_and_validations_carry_over() {
    let mut e = entry("dropdown", Some("severity"));
    e.attributes = Some(TemplateAttributes {
        label: Some("Severity".to_string()),
        options: Some(vec!["low".to_string(), "high".to_string()]),
        value: Some("low".to_string()),
    });
    e.validations = Some(TemplateValidations { required: Some(true) });
    let fields = convert_template_fields(&vec![e]);
    let f = &fields[0];
    assert_eq!(f.label, Some("Severity".to_string()));
    assert_eq!(f.options, vec!["low".to_string(), "high".to_string()]);
    assert_eq!(f.default, Some("low".to_string()));
    assert!(f.required);

    let bare = convert_template_fields(&vec![entry("input", Some("x"))]);
    assert!(!bare[0].required);
    assert!(bare[0].options.is_empty());
    assert_eq!(bare[0].label, None);
    assert_eq!(bare[0].default, None);
}

#[test]
fn test_template_name_becomes_title_template() {
    let doc = TemplateDocument {
        name: Some("Bug Report".to_string()),
        labels: Some(vec!["bug".to_string()]),
        body: vec![entry("input", Some("tool"))],
    };
    let schema = template_to_schema(&doc).unwrap();
    assert_eq!(schema.title_template, Some("[Bug Report] {summary}".to_string()));
    assert_eq!(schema.labels, vec!["bug".to_string()]);
    assert_eq!(schema.repo, None);
}

#[test]
fn test_template_without_usable_fields_yields_none() {
    let doc = TemplateDocument {
        name: None,
        labels: None,
        body: vec![entry("markdown", Some("notes")), entry("input", None)],
    };
    assert!(template_to_schema(&doc).is_none());
}

#[test]
fn test_first_usable_template_wins() {
    let empty_doc = TemplateDocument { name: Some("Empty".to_string()), labels: None, body: vec![] };
    let usable = TemplateDocument {
        name: Some("Usable".to_string()),
        labels: None,
        body: vec![entry("input", Some("tool"))],
    };
    let later = TemplateDocument {
        name: Some("Later".to_string()),
        labels: None,
        body: vec![entry("input", Some("other"))],
    };
    let schema = first_usable_template(&vec![empty_doc, usable, later]).unwrap();
    assert_eq!(schema.title_template, Some("[Usable] {summary}".to_string()));
    assert!(first_usable_template(&Vec::new()).is_none());
}
