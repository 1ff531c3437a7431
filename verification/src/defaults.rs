//! The built-in fallback schema, used when no configuration file and no
//! usable issue template is found.

use vstd::prelude::*;
use vstd::string::StringExecFns;
use crate::types::{AutomatedPolicy, FieldDefinition, FieldType, GripeSchema};

verus! {

/// One field of the built-in schema, apart from options and default.
pub open spec fn field_shape(
    f: FieldDefinition,
    id: Seq<char>,
    label: Seq<char>,
    ft: FieldType,
    req: bool,
) -> bool {
    &&& f.id@ == id
    &&& (f.label matches Some(l) && l@ == label)
    &&& f.field_type == ft
    &&& f.required == req
}

/// The shape of the built-in schema, apart from the target repository.
pub open spec fn default_schema_shape(s: GripeSchema) -> bool {
    &&& s.automated == AutomatedPolicy::Allow
    &&& s.labels@.len() == 1
    &&& s.labels@[0]@ == "feedback"@
    &&& (s.title_template matches Some(t) && t@ == "[{tool}] {summary}"@)
    &&& s.fields@.len() == 6
    &&& field_shape(s.fields@[0], "tool"@, "Tool Name"@, FieldType::Input, true)
    &&& s.fields@[0].options@.len() == 0 && s.fields@[0].default is None
    &&& field_shape(s.fields@[1], "summary"@, "Summary"@, FieldType::Input, true)
    &&& s.fields@[1].options@.len() == 0 && s.fields@[1].default is None
    &&& field_shape(s.fields@[2], "expected"@, "Expected Behavior"@, FieldType::Textarea, true)
    &&& s.fields@[2].options@.len() == 0 && s.fields@[2].default is None
    &&& field_shape(s.fields@[3], "actual"@, "Actual Behavior"@, FieldType::Textarea, true)
    &&& s.fields@[3].options@.len() == 0 && s.fields@[3].default is None
    &&& field_shape(s.fields@[4], "severity"@, "Severity"@, FieldType::Select, false)
    &&& s.fields@[4].options.deep_view() == seq!["low"@, "medium"@, "high"@, "critical"@]
    &&& (s.fields@[4].default matches Some(d) && d@ == "medium"@)
    &&& field_shape(s.fields@[5], "context"@, "Additional Context"@, FieldType::Textarea, false)
    &&& s.fields@[5].options@.len() == 0 && s.fields@[5].default is None
}

fn plain_field(id: &str, label: &str, ft: FieldType, req: bool) -> (f: FieldDefinition)
    ensures
        field_shape(f, id@, label@, ft, req),
        f.options@.len() == 0,
        f.default is None,
{
    FieldDefinition {
        id: id.to_owned(),
        label: Some(label.to_owned()),
        field_type: ft,
        required: req,
        options: Vec::new(),
        default: None,
    }
}

/// The built-in fallback schema: four required questions, an optional
/// severity choice, and an optional context field.
pub fn default_schema() -> (r: GripeSchema)
    ensures
        default_schema_shape(r),
        r.repo is None,
{
    let mut options: Vec<String> = Vec::new();
    options.push("low".to_owned());
    options.push("medium".to_owned());
    options.push("high".to_owned());
    options.push("critical".to_owned());
    proof {
        assert(options.deep_view() =~= seq!["low"@, "medium"@, "high"@, "critical"@]);
    }
    let severity = FieldDefinition {
        id: "severity".to_owned(),
        label: Some("Severity".to_owned()),
        field_type: FieldType::Select,
        required: false,
        options,
        default: Some("medium".to_owned()),
    };
    let mut labels: Vec<String> = Vec::new();
    labels.push("feedback".to_owned());
    let mut fields: Vec<FieldDefinition> = Vec::new();
    fields.push(plain_field("tool", "Tool Name", FieldType::Input, true));
    fields.push(plain_field("summary", "Summary", FieldType::Input, true));
    fields.push(plain_field("expected", "Expected Behavior", FieldType::Textarea, true));
    fields.push(plain_field("actual", "Actual Behavior", FieldType::Textarea, true));
    fields.push(severity);
    fields.push(plain_field("context", "Additional Context", FieldType::Textarea, false));
    GripeSchema {
        repo: None,
        automated: AutomatedPolicy::Allow,
        labels,
        title_template: Some("[{tool}] {summary}".to_owned()),
        fields,
    }
}

} // verus!
