//! Converting a foreign issue-template document into the schema shape.

use vstd::prelude::*;
use vstd::string::StrSliceExecFns;
use vstd::string::StringExecFns;
use crate::types::{AutomatedPolicy, FieldDefinition, FieldType, GripeSchema};
use crate::text::str_eq;
use crate::submit::clone_strings;

verus! {

/// The attributes block of one template body entry.
#[derive(Clone, Debug)]
pub struct TemplateAttributes {
    pub label: Option<String>,
    pub options: Option<Vec<String>>,
    /// The entry's pre-filled value.
    pub value: Option<String>,
}

/// The validations block of one template body entry.
#[derive(Clone, Debug)]
pub struct TemplateValidations {
    pub required: Option<bool>,
}

/// One body entry of a foreign issue-template document.
#[derive(Clone, Debug)]
pub struct TemplateEntry {
    /// The entry's type tag, e.g. `input`, `textarea`, `dropdown`, `markdown`.
    pub type_tag: String,
    pub id: Option<String>,
    pub attributes: Option<TemplateAttributes>,
    pub validations: Option<TemplateValidations>,
}

/// A foreign issue-template document.
#[derive(Clone, Debug)]
pub struct TemplateDocument {
    pub name: Option<String>,
    pub labels: Option<Vec<String>>,
    pub body: Vec<TemplateEntry>,
}

pub open spec fn opt_str_view(o: Option<String>) -> Option<Seq<char>> {
    match o {
        Some(s) => Some(s@),
        None => None,
    }
}

/// An entry is dropped: it is decorative, or it cannot be referenced.
pub open spec fn entry_skipped(e: TemplateEntry) -> bool {
    e.id is None || e.type_tag@ == "markdown"@
}

/// The field type an entry's type tag maps to; unknown tags fall back to
/// `Input` rather than erroring.
pub open spec fn spec_tag_type(tag: Seq<char>) -> FieldType {
    if tag == "input"@ {
        FieldType::Input
    } else if tag == "textarea"@ {
        FieldType::Textarea
    } else if tag == "dropdown"@ {
        FieldType::Select
    } else {
        FieldType::Input
    }
}

/// `f` is the field definition that the kept entry `e` converts to.
pub open spec fn entry_converts_to(e: TemplateEntry, f: FieldDefinition) -> bool {
    &&& !entry_skipped(e)
    &&& f.id@ == e.id->Some_0@
    &&& opt_str_view(f.label) == (match e.attributes {
        Some(a) => opt_str_view(a.label),
        None => None,
    })
    &&& f.field_type == spec_tag_type(e.type_tag@)
    &&& f.required == (match e.validations {
        Some(v) => match v.required {
            Some(b) => b,
            None => false,
        },
        None => false,
    })
    &&& f.options.deep_view() == (match e.attributes {
        Some(a) => match a.options {
            Some(o) => o.deep_view(),
            None => Seq::<Seq<char>>::empty(),
        },
        None => Seq::<Seq<char>>::empty(),
    })
    &&& opt_str_view(f.default) == (match e.attributes {
        Some(a) => opt_str_view(a.value),
        None => None,
    })
}

/// How many entries of `es` are kept by the conversion.
pub open spec fn spec_converted_count(es: Seq<TemplateEntry>) -> nat
    decreases es.len(),
{
    if es.len() == 0 {
        0
    } else {
        spec_converted_count(es.drop_last()) + (if entry_skipped(es.last()) {
            0nat
        } else {
            1nat
        })
    }
}

/// `fs` is the conversion of `es`: kept entries, in order, each converted.
pub open spec fn entries_convert_to(es: Seq<TemplateEntry>, fs: Seq<FieldDefinition>) -> bool
    decreases es.len(),
{
    if es.len() == 0 {
        fs.len() == 0
    } else if entry_skipped(es.last()) {
        entries_convert_to(es.drop_last(), fs)
    } else {
        fs.len() > 0 && entry_converts_to(es.last(), fs.last()) && entries_convert_to(
            es.drop_last(),
            fs.drop_last(),
        )
    }
}

/// The strings of an optional list; an absent list stands for no strings.
fn clone_opt_strings(o: &Option<Vec<String>>) -> (r: Vec<String>)
    ensures
        r.deep_view() == (match o {
            Some(v) => v.deep_view(),
            None => Seq::<Seq<char>>::empty(),
        }),
{
    match o {
        Some(v) => clone_strings(v),
        None => {
            let c: Vec<String> = Vec::new();
            proof {
                assert(c.deep_view() =~= Seq::<Seq<char>>::empty());
            }
            c
        }
    }
}

/// Convert the body entries of a template document: `markdown` entries and
/// entries without an id are dropped; the rest become field definitions in
/// order.
pub fn convert_template_fields(body: &Vec<TemplateEntry>) -> (r: Vec<FieldDefinition>)
    ensures
        entries_convert_to(body@, r@),
        r@.len() == spec_converted_count(body@),
{
    let mut r: Vec<FieldDefinition> = Vec::new();
    let mut i: usize = 0;
    proof {
        assert(body@.take(0) =~= Seq::<TemplateEntry>::empty());
    }
    while i < body.len()
        invariant
            0 <= i <= body@.len(),
            entries_convert_to(body@.take(i as int), r@),
            r@.len() == spec_converted_count(body@.take(i as int)),
        decreases body@.len() - i,
    {
        let ghost r0 = r@;
        let ghost ent = body@[i as int];
        let e = &body[i];
        let mut kept = false;
        match &e.id {
            None => {}
            Some(id) => {
                if !str_eq(e.type_tag.as_str(), "markdown") {
                    let field_type = if str_eq(e.type_tag.as_str(), "input") {
                        FieldType::Input
                    } else if str_eq(e.type_tag.as_str(), "textarea") {
                        FieldType::Textarea
                    } else if str_eq(e.type_tag.as_str(), "dropdown") {
                        FieldType::Select
                    } else {
                        FieldType::Input
                    };
                    let label = match &e.attributes {
                        Some(a) => match &a.label {
                            Some(l) => Some(l.clone()),
                            None => None,
                        },
                        None => None,
                    };
                    let options = match &e.attributes {
                        Some(a) => clone_opt_strings(&a.options),
                        None => clone_opt_strings(&None),
                    };
                    let default = match &e.attributes {
                        Some(a) => match &a.value {
                            Some(v) => Some(v.clone()),
                            None => None,
                        },
                        None => None,
                    };
                    let required = match &e.validations {
                        Some(v) => match v.required {
                            Some(b) => b,
                            None => false,
                        },
                        None => false,
                    };
                    let f = FieldDefinition {
                        id: id.clone(),
                        label,
                        field_type,
                        required,
                        options,
                        default,
                    };
                    proof {
                        assert(entry_converts_to(ent, f));
                    }
                    r.push(f);
                    kept = true;
                }
            }
        }
        proof {
            let tk = body@.take(i as int + 1);
            assert(tk.drop_last() =~= body@.take(i as int));
            assert(tk.last() == ent);
            if kept {
                assert(r@.drop_last() =~= r0);
            }
        }
        i += 1;
    }
    proof {
        assert(body@.take(body@.len() as int) =~= body@);
    }
    r
}

/// `s` is the schema that the template document `doc` converts to.
pub open spec fn template_schema_matches(doc: TemplateDocument, s: GripeSchema) -> bool {
    &&& s.repo is None
    &&& s.automated == AutomatedPolicy::Allow
    &&& s.labels.deep_view() == (match doc.labels {
        Some(l) => l.deep_view(),
        None => Seq::<Seq<char>>::empty(),
    })
    &&& opt_str_view(s.title_template) == (match doc.name {
        Some(n) => Some("["@ + n@ + "] {summary}"@),
        None => None,
    })
    &&& entries_convert_to(doc.body@, s.fields@)
    &&& s.fields@.len() > 0
}

/// Convert one template document into a schema; a document whose converted
/// field list is empty yields none. The document's `name` becomes the title
/// template `[{name}] {summary}`.
pub fn template_to_schema(doc: &TemplateDocument) -> (r: Option<GripeSchema>)
    ensures
        match r {
            Some(s) => template_schema_matches(*doc, s),
            None => spec_converted_count(doc.body@) == 0,
        },
{
    let fields = convert_template_fields(&doc.body);
    if fields.len() == 0 {
        return None;
    }
    let labels = clone_opt_strings(&doc.labels);
    let title_template = match &doc.name {
        Some(n) => {
            let mut t = "[".to_owned();
            t.append(n.as_str());
            t.append("] {summary}");
            Some(t)
        }
        None => None,
    };
    Some(
        GripeSchema {
            repo: None,
            automated: AutomatedPolicy::Allow,
            labels,
            title_template,
            fields,
        },
    )
}

/// A conversion always yields exactly as many fields as there are kept
/// entries.
proof fn lemma_convert_count(es: Seq<TemplateEntry>, fs: Seq<FieldDefinition>)
    requires
        entries_convert_to(es, fs),
    ensures
        fs.len() == spec_converted_count(es),
    decreases es.len(),
{
    if es.len() > 0 {
        if entry_skipped(es.last()) {
            lemma_convert_count(es.drop_last(), fs);
        } else {
            lemma_convert_count(es.drop_last(), fs.drop_last());
        }
    }
}

/// Index of the first document whose conversion has at least one field;
/// `docs.len()` when there is none.
pub open spec fn spec_first_usable(docs: Seq<TemplateDocument>, i: int) -> int
    decreases docs.len() - i,
{
    if i < 0 || i >= docs.len() {
        docs.len() as int
    } else if spec_converted_count(docs[i].body@) > 0 {
        i
    } else {
        spec_first_usable(docs, i + 1)
    }
}

/// Pick the first usable template document, in the order given: the first
/// whose converted field list is non-empty becomes the schema.
pub fn first_usable_template(docs: &Vec<TemplateDocument>) -> (r: Option<GripeSchema>)
    ensures
        ({
            let u = spec_first_usable(docs@, 0);
            match r {
                Some(s) => u < docs@.len() && template_schema_matches(docs@[u], s),
                None => u == docs@.len(),
            }
        }),
{
    let mut i: usize = 0;
    while i < docs.len()
        invariant
            0 <= i <= docs@.len(),
            spec_first_usable(docs@, 0) == spec_first_usable(docs@, i as int),
        decreases docs@.len() - i,
    {
        match template_to_schema(&docs[i]) {
            Some(s) => {
                proof {
                    lemma_convert_count(docs@[i as int].body@, s.fields@);
                }
                return Some(s);
            }
            None => {}
        }
        i += 1;
    }
    None
}

} // verus!
