use gripe::config::{find_gripe_yaml, resolve_schema};
use gripe::defaults::default_schema;
use gripe::types::{AutomatedPolicy, FieldDefinition, FieldType, GripeSchema};

fn named_schema(repo: Option<&str>, label: &str) -> GripeSchema {
    GripeSchema {
        repo: repo.map(|r| r.to_string()),
        automated: AutomatedPolicy::Allow,
        labels: vec![label.to_string()],
        title_template: None,
        fields: vec![FieldDefinition {
            id: "summary".to_string(),
            label: None,
            field_type: FieldType::Input,
            required: true,
            options: Vec::new(),
            default: None,
        }],
    }
}

#[test]
fn test_gripe_yaml_wins_over_usable_template() {
    let from_file = named_schema(None, "from-file");
    let from_template = named_schema(None, "from-template");
    let resolved = resolve_schema(Some(Ok(from_file)), Some(from_template), None).unwrap();
    assert_eq!(resolved.labels, vec!["from-file".to_string()]);
}

#[test]
fn test_gripe_yaml_parse_failure_is_terminal() {
    let from_template = named_schema(None, "from-template");
    let err = resolve_schema(
        Some(Err("Failed to parse gripe.yaml: bad".to_string())),
        Some(from_template),
        None,
    )
    .unwrap_err();
    assert_eq!(err, "Failed to parse gripe.yaml: bad");
}

#[test]
fn test_template_used_when_no_gripe_yaml() {
    let from_template = named_schema(None, "from-template");
    let resolved = resolve_schema(None, Some(from_template), None).unwrap();
    assert_eq!(resolved.labels, vec!["from-template".to_string()]);
}

#[test]
fn test_builtin_default_as_last_resort() {
    let resolved = resolve_schema(None, None, Some("o/r".to_string())).unwrap();
    assert_eq!(resolved.repo, Some("o/r".to_string()));
    assert_eq!(resolved.labels, vec!["feedback".to_string()]);
    assert_eq!(resolved.fields.len(), 6);
    assert_eq!(resolved.fields[0].id, "tool");
    assert_eq!(resolved.fields[4].id, "severity");
    assert_eq!(resolved.fields[4].options.len(), 4);
    assert_eq!(resolved.fields[4].default, Some("medium".to_string()));
}

#[test]
fn test_detected_repo_fills_only_absent_repo() {
    let with_repo = named_schema(Some("explicit/repo"), "l");
    let resolved =
        resolve_schema(Some(Ok(with_repo)), None, Some("detected/repo".to_string())).unwrap();
    assert_eq!(resolved.repo, Some("explicit/repo".to_string()));

    let without_repo = named_schema(None, "l");
    let resolved2 =
        resolve_schema(Some(Ok(without_repo)), None, Some("detected/repo".to_string())).unwrap();
    assert_eq!(resolved2.repo, Some("detected/repo".to_string()));
}

#[test]
fn test_default_schema_shape() {
    let d = default_schema();
    assert_eq!(d.repo, None);
    assert_eq!(d.title_template, Some("[{tool}] {summary}".to_string()));
    let ids: Vec<&str> = d.fields.iter().map(|f| f.id.as_str()).collect();
    assert_eq!(ids, vec!["tool", "summary", "expected", "actual", "severity", "context"]);
    assert!(d.fields[0].required && d.fields[1].required);
    assert!(d.fields[2].required && d.fields[3].required);
    assert!(!d.fields[4].required && !d.fields[5].required);
    assert_eq!(
        d.fields[4].options,
        vec!["low".to_string(), "medium".to_string(), "high".to_string(), "critical".to_string()]
    );
}

#[test]
fn test_find_gripe_yaml_nearest_ancestor_wins() {
    let dirs = vec![
        "/home/user/project/sub".to_string(),
        "/home/user/project".to_string(),
        "/home/user".to_string(),
        "/home".to_string(),
    ];
    let has = vec![false, true, true, false];
    assert_eq!(
        find_gripe_yaml(&dirs, &has),
        Some("/home/user/project/gripe.yaml".to_string())
    );
    let none = vec![false, false, false, false];
    assert_eq!(find_gripe_yaml(&dirs, &none), None);
}
