use gripe::submit::{default_option_index, parse_kv_args, prepare_submission, validate_fields};
use gripe::types::{AutomatedPolicy, FieldDefinition, FieldType, GripeSchema};
use gripe::values::ValueMap;

fn field(id: &str, label: Option<&str>, required: bool) -> FieldDefinition {
    FieldDefinition {
        id: id.to_string(),
        label: label.map(|l| l.to_string()),
        field_type: FieldType::Input,
        required,
        options: Vec::new(),
        default: None,
    }
}

fn schema_of(fields: Vec<FieldDefinition>) -> GripeSchema {
    GripeSchema {
        repo: None,
        automated: AutomatedPolicy::Allow,
        labels: Vec::new(),
        title_template: None,
        fields,
    }
}

#[test]
fn test_validator_names_exactly_the_missing_label() {
    let schema = schema_of(vec![field("a", None, true), field("b", None, true)]);
    let mut values = ValueMap::new();
    values.insert("a".to_string(), "x".to_string());

    let err = validate_fields(&schema, &values).unwrap_err();
    assert_eq!(err, "Missing required fields: b");
}

#[test]
fn test_validator_lists_all_missing_in_order_by_display_label() {
    let schema = schema_of(vec![
        field("a", Some("Alpha"), true),
        field("b", None, true),
        field("c", Some("Gamma"), true),
    ]);
    let mut values = ValueMap::new();
    values.insert("b".to_string(), "".to_string());

    let err = validate_fields(&schema, &values).unwrap_err();
    assert_eq!(err, "Missing required fields: Alpha, b, Gamma");
}

#[test]
fn test_validator_accepts_complete_values() {
    let schema = schema_of(vec![field("a", None, true), field("b", None, false)]);
    let mut values = ValueMap::new();
    values.insert("a".to_string(), "x".to_string());
    assert!(validate_fields(&schema, &values).is_ok());
}

#[test]
fn test_parse_kv_args_builds_map() {
    let args = vec!["tool=vim".to_string(), "summary=it broke".to_string()];
    let vm = parse_kv_args(&args).unwrap();
    assert_eq!(*vm.get("tool").unwrap(), "vim");
    assert_eq!(*vm.get("summary").unwrap(), "it broke");
    assert!(vm.get("absent").is_none());
}

#[test]
fn test_value_map_later_insert_overrides() {
    let mut vm = ValueMap::new();
    vm.insert("k".to_string(), "first".to_string());
    vm.insert("k".to_string(), "second".to_string());
    assert_eq!(*vm.get("k").unwrap(), "second");

    let args = vec!["k=first".to_string(), "k=second".to_string()];
    let parsed = parse_kv_args(&args).unwrap();
    assert_eq!(*parsed.get("k").unwrap(), "second");
}

#[test]
fn test_parse_kv_args_rejects_missing_equals() {
    let args = vec!["tool=vim".to_string(), "broken".to_string()];
    let err = parse_kv_args(&args).unwrap_err();
    assert_eq!(err, "Invalid field argument 'broken'. Expected key=value.");
}

#[test]
fn test_prepare_submission_reports_missing_fields_first() {
    let schema = schema_of(vec![field("a", Some("Alpha"), true)]);
    let values = ValueMap::new();
    let err = prepare_submission(&schema, &values, Some("o/r".to_string()), false).unwrap_err();
    assert_eq!(err, "Missing required fields: Alpha");
}

#[test]
fn test_prepare_submission_requires_a_repo() {
    let schema = schema_of(vec![field("a", None, false)]);
    let values = ValueMap::new();
    let err = prepare_submission(&schema, &values, None, false).unwrap_err();
    assert_eq!(
        err,
        "No repo specified. Use --repo, set repo in gripe.yaml, or run from a git repo."
    );
}

#[test]
fn test_prepare_submission_assembles_plan() {
    let mut schema = schema_of(vec![field("tool", None, true), field("summary", None, true)]);
    schema.repo = Some("schema/repo".to_string());
    schema.labels = vec!["feedback".to_string()];
    schema.title_template = Some("[{tool}] {summary}".to_string());
    let mut values = ValueMap::new();
    values.insert("tool".to_string(), "vim".to_string());
    values.insert("summary".to_string(), "cursor jumps".to_string());

    let plan = prepare_submission(&schema, &values, None, false).unwrap();
    assert_eq!(plan.repo, "schema/repo");
    assert_eq!(plan.title, "[vim] cursor jumps");
    assert_eq!(plan.body, "### tool\n\nvim\n\n### summary\n\ncursor jumps");
    assert_eq!(plan.labels, vec!["feedback".to_string()]);
    assert!(plan.robots_check);

    let override_plan =
        prepare_submission(&schema, &values, Some("cli/repo".to_string()), true).unwrap();
    assert_eq!(override_plan.repo, "cli/repo");
    assert!(!override_plan.robots_check);
}

#[test]
fn test_default_option_index_picks_default() {
    let options = vec!["low".to_string(), "medium".to_string(), "high".to_string()];
    assert_eq!(default_option_index(&options, &Some("medium".to_string())), 1);
    assert_eq!(default_option_index(&options, &Some("absent".to_string())), 0);
    assert_eq!(default_option_index(&options, &None), 0);
}
