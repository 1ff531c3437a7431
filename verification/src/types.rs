//! The shared data model: a feedback-form schema and its field definitions.

use vstd::prelude::*;

verus! {

/// A target repository's declared willingness to accept submissions that
/// were not produced by an interactive session.
#[derive(Clone, Copy, Debug, PartialEq, Eq, Structural)]
pub enum AutomatedPolicy {
    Allow,
    Deny,
}

/// The kind of prompt a field uses.
#[derive(Clone, Copy, Debug, PartialEq, Eq, Structural)]
pub enum FieldType {
    Input,
    Textarea,
    Select,
}

/// One question in a feedback form.
#[derive(Clone, Debug)]
pub struct FieldDefinition {
    /// Unique key within the schema's fields; also the value-map key and
    /// title-placeholder name.
    pub id: String,
    /// Optional display name; `id` stands in when absent.
    pub label: Option<String>,
    pub field_type: FieldType,
    pub required: bool,
    /// Choices, meaningful only for `Select`.
    pub options: Vec<String>,
    /// Pre-filled or pre-selected value.
    pub default: Option<String>,
}

/// The effective feedback form definition.
#[derive(Clone, Debug)]
pub struct GripeSchema {
    /// Optional "owner/name" target; resolved lazily if absent.
    pub repo: Option<String>,
    pub automated: AutomatedPolicy,
    /// Labels applied to created issues, in order.
    pub labels: Vec<String>,
    /// Optional title template with `{placeholder}` tokens.
    pub title_template: Option<String>,
    /// Field order determines both prompt order and rendered-section order.
    pub fields: Vec<FieldDefinition>,
}

impl FieldDefinition {
    /// The name a field is shown under: the label verbatim when one is set,
    /// else the id.
    pub open spec fn spec_display_label(&self) -> Seq<char> {
        match self.label {
            Some(ref l) => l@,
            None => self.id@,
        }
    }

    pub fn display_label(&self) -> (r: &str)
        ensures
            r@ == self.spec_display_label(),
    {
        match &self.label {
            Some(l) => l.as_str(),
            None => self.id.as_str(),
        }
    }
}

/// The policy a schema carries when none is stated.
pub fn default_automated() -> (r: AutomatedPolicy)
    ensures
        r == AutomatedPolicy::Allow,
{
    AutomatedPolicy::Allow
}

/// The field type a field definition carries when none is stated.
pub fn default_field_type() -> (r: FieldType)
    ensures
        r == FieldType::Input,
{
    FieldType::Input
}

} // verus!
