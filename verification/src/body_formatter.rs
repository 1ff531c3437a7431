//! Rendering: turns a schema and a value map into the submission title and
//! the Markdown issue body.

use vstd::prelude::*;
use vstd::string::StrSliceExecFns;
use vstd::string::StringExecFns;
use crate::types::{FieldDefinition, GripeSchema};
use crate::values::ValueMap;
use crate::text::{push_char, join_strings, spec_join_with};

verus! {

/// Position of the first `'}'` at or after `i`; `s.len()` when there is none.
pub open spec fn spec_find_close(s: Seq<char>, i: int) -> int
    decreases s.len() - i,
{
    if i < 0 || i >= s.len() {
        s.len() as int
    } else if s[i] == '}' {
        i
    } else {
        spec_find_close(s, i + 1)
    }
}

/// Template substitution from position `i` on: a `{key}` group whose key is
/// bound in `m` is replaced by its value; any other character, including a
/// `{` that opens no bound group, is kept as it stands.
pub open spec fn spec_subst_from(s: Seq<char>, m: Map<Seq<char>, Seq<char>>, i: int) -> Seq<char>
    decreases s.len() - i,
{
    if i < 0 || i >= s.len() {
        Seq::empty()
    } else if s[i] == '{' {
        let j = spec_find_close(s, i + 1);
        if i + 1 <= j < s.len() && m.contains_key(s.subrange(i + 1, j)) {
            m[s.subrange(i + 1, j)] + spec_subst_from(s, m, j + 1)
        } else {
            seq!['{'] + spec_subst_from(s, m, i + 1)
        }
    } else {
        seq![s[i]] + spec_subst_from(s, m, i + 1)
    }
}

pub open spec fn spec_substitute(s: Seq<char>, m: Map<Seq<char>, Seq<char>>) -> Seq<char> {
    spec_subst_from(s, m, 0)
}

/// `s` with every brace character removed, from position `i` on.
pub open spec fn spec_strip_from(s: Seq<char>, i: int) -> Seq<char>
    decreases s.len() - i,
{
    if i < 0 || i >= s.len() {
        Seq::empty()
    } else if s[i] == '{' || s[i] == '}' {
        spec_strip_from(s, i + 1)
    } else {
        seq![s[i]] + spec_strip_from(s, i + 1)
    }
}

pub open spec fn spec_strip_braces(s: Seq<char>) -> Seq<char> {
    spec_strip_from(s, 0)
}

/// The issue title: the substituted template with leftover braces stripped,
/// or, with no template, the `summary` value, or the fixed fallback.
pub open spec fn spec_format_title(
    template: Option<Seq<char>>,
    m: Map<Seq<char>, Seq<char>>,
) -> Seq<char> {
    match template {
        Some(t) => spec_strip_braces(spec_substitute(t, m)),
        None => if m.contains_key("summary"@) {
            m["summary"@]
        } else {
            "Feedback"@
        },
    }
}

/// Render the issue title from the template.
pub fn format_title(template: Option<&str>, values: &ValueMap) -> (r: String)
    ensures
        r@ == spec_format_title(
            match template {
                Some(t) => Some(t@),
                None => None,
            },
            values@,
        ),
{
    match template {
        Some(t) => {
            let ghost m = values@;
            let n = t.unicode_len();
            let mut buf = String::new();
            let mut i: usize = 0;
            while i < n
                invariant
                    n == t@.len(),
                    0 <= i <= n,
                    spec_subst_from(t@, m, 0) == buf@ + spec_subst_from(t@, m, i as int),
                    m == values@,
                decreases n - i,
            {
                let ghost buf0 = buf@;
                let c = t.get_char(i);
                if c == '{' {
                    let mut k: usize = i + 1;
                    while k < n && t.get_char(k) != '}'
                        invariant
                            n == t@.len(),
                            i + 1 <= k <= n,
                            spec_find_close(t@, i as int + 1) == spec_find_close(t@, k as int),
                        decreases n - k,
                    {
                        k += 1;
                    }
                    proof {
                        if k < n {
                            assert(spec_find_close(t@, k as int) == k);
                        }
                    }
                    let mut matched = false;
                    if k < n {
                        let key = t.substring_char(i + 1, k);
                        match values.get(key) {
                            Some(v) => {
                                buf.append(v.as_str());
                                proof {
                                    assert(t@.subrange(i as int + 1, k as int) == key@);
                                    assert(spec_subst_from(t@, m, i as int) == m[key@]
                                        + spec_subst_from(t@, m, k as int + 1));
                                    assert(buf0 + (m[key@] + spec_subst_from(t@, m, k as int + 1))
                                        =~= buf@ + spec_subst_from(t@, m, k as int + 1));
                                }
                                i = k + 1;
                                matched = true;
                            }
                            None => {
                            }
                        }
                    }
                    if !matched {
                        push_char(&mut buf, '{');
                        proof {
                            assert(spec_subst_from(t@, m, i as int) == seq!['{']
                                + spec_subst_from(t@, m, i as int + 1));
                            assert(buf0 + (seq!['{'] + spec_subst_from(t@, m, i as int + 1))
                                =~= buf@ + spec_subst_from(t@, m, i as int + 1));
                        }
                        i = i + 1;
                    }
                } else {
                    push_char(&mut buf, c);
                    proof {
                        assert(spec_subst_from(t@, m, i as int) == seq![t@[i as int]]
                            + spec_subst_from(t@, m, i as int + 1));
                        assert(buf0 + (seq![t@[i as int]] + spec_subst_from(t@, m, i as int + 1))
                            =~= buf@ + spec_subst_from(t@, m, i as int + 1));
                    }
                    i = i + 1;
                }
            }
            proof {
                assert(buf@ + spec_subst_from(t@, m, n as int) =~= buf@);
            }
            let sn = buf.unicode_len();
            let mut out = String::new();
            let mut p: usize = 0;
            while p < sn
                invariant
                    sn == buf@.len(),
                    0 <= p <= sn,
                    spec_strip_from(buf@, 0) == out@ + spec_strip_from(buf@, p as int),
                decreases sn - p,
            {
                let ghost out0 = out@;
                let c = buf.get_char(p);
                if c != '{' && c != '}' {
                    push_char(&mut out, c);
                    proof {
                        assert(spec_strip_from(buf@, p as int) == seq![buf@[p as int]]
                            + spec_strip_from(buf@, p as int + 1));
                        assert(out0 + (seq![buf@[p as int]] + spec_strip_from(buf@, p as int + 1))
                            =~= out@ + spec_strip_from(buf@, p as int + 1));
                    }
                }
                p += 1;
            }
            proof {
                assert(out@ + spec_strip_from(buf@, sn as int) =~= out@);
                assert(buf@ == spec_substitute(t@, m));
            }
            out
        }
        None => {
            match values.get("summary") {
                Some(v) => v.clone(),
                None => "Feedback".to_owned(),
            }
        }
    }
}

/// A field's value is present: bound in the map and non-empty.
pub open spec fn field_present(f: FieldDefinition, m: Map<Seq<char>, Seq<char>>) -> bool {
    m.contains_key(f.id@) && m[f.id@].len() > 0
}

/// The Markdown section a present field renders to.
pub open spec fn spec_section(f: FieldDefinition, m: Map<Seq<char>, Seq<char>>) -> Seq<char> {
    "### "@ + f.spec_display_label() + "\n\n"@ + m[f.id@]
}

/// The sections of the present fields, in schema field order.
pub open spec fn spec_sections(
    fields: Seq<FieldDefinition>,
    m: Map<Seq<char>, Seq<char>>,
) -> Seq<Seq<char>>
    decreases fields.len(),
{
    if fields.len() == 0 {
        Seq::empty()
    } else {
        spec_sections(fields.drop_last(), m) + (if field_present(fields.last(), m) {
            seq![spec_section(fields.last(), m)]
        } else {
            Seq::empty()
        })
    }
}

/// The issue body: the sections of the present fields joined by blank lines.
pub open spec fn spec_format_body(
    fields: Seq<FieldDefinition>,
    m: Map<Seq<char>, Seq<char>>,
) -> Seq<char> {
    spec_join_with(spec_sections(fields, m), "\n\n"@)
}

/// Render field values into a Markdown issue body.
pub fn format_body(schema: &GripeSchema, values: &ValueMap) -> (r: String)
    ensures
        r@ == spec_format_body(schema.fields@, values@),
{
    let ghost m = values@;
    let mut sections: Vec<String> = Vec::new();
    let mut i: usize = 0;
    proof {
        assert(schema.fields@.take(0) =~= Seq::<FieldDefinition>::empty());
        assert(sections.deep_view() =~= spec_sections(schema.fields@.take(0), m));
    }
    while i < schema.fields.len()
        invariant
            0 <= i <= schema.fields@.len(),
            sections.deep_view() == spec_sections(schema.fields@.take(i as int), m),
            m == values@,
        decreases schema.fields@.len() - i,
    {
        let ghost secs0 = sections.deep_view();
        let ghost fld = schema.fields@[i as int];
        let f = &schema.fields[i];
        let mut emitted = false;
        match values.get(f.id.as_str()) {
            Some(v) => {
                if !v.as_str().is_empty() {
                    let mut section = String::new();
                    section.append("### ");
                    section.append(f.display_label());
                    section.append("\n\n");
                    section.append(v.as_str());
                    proof {
                        assert(section@ == spec_section(fld, m));
                    }
                    sections.push(section);
                    emitted = true;
                    proof {
                        assert(sections.deep_view() =~= secs0 + seq![spec_section(fld, m)]);
                    }
                }
            }
            None => {
            }
        }
        proof {
            let tk = schema.fields@.take(i as int + 1);
            assert(tk.drop_last() =~= schema.fields@.take(i as int));
            assert(tk.last() == fld);
            if !emitted {
                assert(sections.deep_view() =~= secs0 + Seq::<Seq<char>>::empty());
            }
        }
        i += 1;
    }
    proof {
        assert(schema.fields@.take(schema.fields@.len() as int) =~= schema.fields@);
    }
    join_strings(&sections, "\n\n")
}

/// Skipping and ordering of body sections: the rendered sections are exactly
/// the fields whose value is present, kept in schema field order, each
/// rendered as its section text.
pub proof fn lemma_sections_filter_map(fields: Seq<FieldDefinition>, m: Map<Seq<char>, Seq<char>>)
    ensures
        spec_sections(fields, m) == fields.filter(|f: FieldDefinition| field_present(f, m))
            .map_values(|f: FieldDefinition| spec_section(f, m)),
    decreases fields.len(),
{
    reveal(Seq::filter);
    let pred = |f: FieldDefinition| field_present(f, m);
    let g = |f: FieldDefinition| spec_section(f, m);
    if fields.len() == 0 {
        assert(spec_sections(fields, m) =~= fields.filter(pred).map_values(g));
    } else {
        lemma_sections_filter_map(fields.drop_last(), m);
        if pred(fields.last()) {
            assert(fields.filter(pred) == fields.drop_last().filter(pred).push(fields.last()));
            assert(fields.filter(pred).map_values(g) =~= fields.drop_last().filter(pred)
                .map_values(g).push(g(fields.last())));
            assert(spec_sections(fields, m) =~= fields.filter(pred).map_values(g));
        } else {
            assert(spec_sections(fields, m) =~= fields.filter(pred).map_values(g));
        }
    }
}

/// Rendering is repeatable: the body is a function of the schema's fields
/// and the value map alone, so rendering twice gives equal text.
pub proof fn lemma_body_rendering_repeatable(
    fields: Seq<FieldDefinition>,
    m: Map<Seq<char>, Seq<char>>,
    r1: Seq<char>,
    r2: Seq<char>,
)
    requires
        r1 == spec_format_body(fields, m),
        r2 == spec_format_body(fields, m),
    ensures
        r1 == r2,
{
}

} // verus!
