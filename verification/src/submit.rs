//! Submission-side logic: required-field validation, `key=value` argument
//! parsing, and assembling one submission from a schema and a value map.

use vstd::prelude::*;
use vstd::string::StrSliceExecFns;
use vstd::string::StringExecFns;
use crate::types::{FieldDefinition, GripeSchema};
use crate::values::ValueMap;
use crate::text::{join_strings, spec_join_with, str_eq};
use crate::body_formatter::{
    field_present, format_body, format_title, spec_format_body, spec_format_title,
};

verus! {

/// Display labels of the required fields whose value is absent or empty,
/// in schema field order.
pub open spec fn spec_missing_labels(
    fields: Seq<FieldDefinition>,
    m: Map<Seq<char>, Seq<char>>,
) -> Seq<Seq<char>>
    decreases fields.len(),
{
    if fields.len() == 0 {
        Seq::empty()
    } else {
        spec_missing_labels(fields.drop_last(), m) + (if fields.last().required
            && !field_present(fields.last(), m) {
            seq![fields.last().spec_display_label()]
        } else {
            Seq::empty()
        })
    }
}

/// Enforce required-field presence: all-or-nothing, naming every missing
/// required field by display label, joined in schema field order.
pub fn validate_fields(schema: &GripeSchema, values: &ValueMap) -> (r: Result<(), String>)
    ensures
        r is Ok <==> spec_missing_labels(schema.fields@, values@).len() == 0,
        r matches Err(e) ==> e@ == "Missing required fields: "@ + spec_join_with(
            spec_missing_labels(schema.fields@, values@),
            ", "@,
        ),
{
    let ghost m = values@;
    let mut missing: Vec<String> = Vec::new();
    let mut i: usize = 0;
    proof {
        assert(schema.fields@.take(0) =~= Seq::<FieldDefinition>::empty());
        assert(missing.deep_view() =~= spec_missing_labels(schema.fields@.take(0), m));
    }
    while i < schema.fields.len()
        invariant
            0 <= i <= schema.fields@.len(),
            missing.deep_view() == spec_missing_labels(schema.fields@.take(i as int), m),
            m == values@,
        decreases schema.fields@.len() - i,
    {
        let ghost miss0 = missing.deep_view();
        let ghost fld = schema.fields@[i as int];
        let f = &schema.fields[i];
        let mut skipped = true;
        if f.required {
            let absent = match values.get(f.id.as_str()) {
                Some(v) => v.as_str().is_empty(),
                None => true,
            };
            if absent {
                missing.push(f.display_label().to_owned());
                skipped = false;
                proof {
                    assert(missing.deep_view() =~= miss0 + seq![fld.spec_display_label()]);
                }
            }
        }
        proof {
            let tk = schema.fields@.take(i as int + 1);
            assert(tk.drop_last() =~= schema.fields@.take(i as int));
            assert(tk.last() == fld);
            if skipped {
                assert(missing.deep_view() =~= miss0 + Seq::<Seq<char>>::empty());
            }
        }
        i += 1;
    }
    proof {
        assert(schema.fields@.take(schema.fields@.len() as int) =~= schema.fields@);
    }
    if missing.len() == 0 {
        proof {
            assert(missing.deep_view().len() == 0);
        }
        Ok(())
    } else {
        let joined = join_strings(&missing, ", ");
        let mut msg = "Missing required fields: ".to_owned();
        msg.append(joined.as_str());
        proof {
            assert(missing.deep_view().len() != 0);
        }
        Err(msg)
    }
}

/// Position of the first occurrence of `c` at or after `i`; `s.len()` when
/// there is none.
pub open spec fn spec_find_char(s: Seq<char>, c: char, i: int) -> int
    decreases s.len() - i,
{
    if i < 0 || i >= s.len() {
        s.len() as int
    } else if s[i] == c {
        i
    } else {
        spec_find_char(s, c, i + 1)
    }
}

/// Split at the first `'='`: key before it, value after it.
pub open spec fn spec_split_kv(s: Seq<char>) -> Option<(Seq<char>, Seq<char>)> {
    let i = spec_find_char(s, '=', 0);
    if 0 <= i < s.len() {
        Some((s.subrange(0, i), s.subrange(i + 1, s.len() as int)))
    } else {
        None
    }
}

/// The value map that a sequence of well-formed `key=value` arguments
/// denotes; a later binding for a key overrides an earlier one.
pub open spec fn spec_kv_map(args: Seq<Seq<char>>) -> Map<Seq<char>, Seq<char>>
    decreases args.len(),
{
    if args.len() == 0 {
        Map::empty()
    } else {
        match spec_split_kv(args.last()) {
            Some(kv) => spec_kv_map(args.drop_last()).insert(kv.0, kv.1),
            None => spec_kv_map(args.drop_last()),
        }
    }
}

/// Index of the first argument with no `'='`; `args.len()` when all are
/// well formed.
pub open spec fn spec_first_bad_arg(args: Seq<Seq<char>>, i: int) -> int
    decreases args.len() - i,
{
    if i < 0 || i >= args.len() {
        args.len() as int
    } else if spec_split_kv(args[i]) is None {
        i
    } else {
        spec_first_bad_arg(args, i + 1)
    }
}

/// Parse `key=value` command-line arguments into a value map.
pub fn parse_kv_args(args: &Vec<String>) -> (r: Result<ValueMap, String>)
    ensures
        r is Ok <==> spec_first_bad_arg(args.deep_view(), 0) == args.deep_view().len(),
        r matches Ok(vm) ==> vm@ == spec_kv_map(args.deep_view()),
        r matches Err(e) ==> ({
            let b = spec_first_bad_arg(args.deep_view(), 0);
            b < args.deep_view().len() && e@ == "Invalid field argument '"@
                + args.deep_view()[b] + "'. Expected key=value."@
        }),
{
    let ghost dv = args.deep_view();
    let mut vm = ValueMap::new();
    let mut i: usize = 0;
    proof {
        assert(dv.take(0) =~= Seq::<Seq<char>>::empty());
    }
    while i < args.len()
        invariant
            dv == args.deep_view(),
            dv.len() == args@.len(),
            0 <= i <= dv.len(),
            spec_first_bad_arg(dv, 0) == spec_first_bad_arg(dv, i as int),
            vm@ == spec_kv_map(dv.take(i as int)),
        decreases args@.len() - i,
    {
        let a = args[i].as_str();
        let alen = a.unicode_len();
        let mut j: usize = 0;
        while j < alen && a.get_char(j) != '='
            invariant
                alen == a@.len(),
                0 <= j <= alen,
                spec_find_char(a@, '=', 0) == spec_find_char(a@, '=', j as int),
            decreases alen - j,
        {
            j += 1;
        }
        proof {
            assert(a@ == dv[i as int]);
            if j < alen {
                assert(spec_find_char(a@, '=', j as int) == j);
            }
        }
        if j < alen {
            let key = a.substring_char(0, j).to_owned();
            let val = a.substring_char(j + 1, alen).to_owned();
            let ghost vm0 = vm@;
            vm.insert(key, val);
            proof {
                let tk = dv.take(i as int + 1);
                assert(tk.drop_last() =~= dv.take(i as int));
                assert(tk.last() == dv[i as int]);
                assert(spec_split_kv(dv[i as int]) is Some);
            }
            i += 1;
        } else {
            proof {
                assert(spec_split_kv(dv[i as int]) is None);
                assert(spec_first_bad_arg(dv, i as int) == i);
            }
            let mut msg = "Invalid field argument '".to_owned();
            msg.append(a);
            msg.append("'. Expected key=value.");
            return Err(msg);
        }
    }
    proof {
        assert(dv.take(dv.len() as int) =~= dv);
        assert(spec_first_bad_arg(dv, dv.len() as int) == dv.len());
    }
    Ok(vm)
}

/// An element-for-element copy of a vector of strings.
pub fn clone_strings(v: &Vec<String>) -> (r: Vec<String>)
    ensures
        r@ == v@,
{
    let mut out: Vec<String> = Vec::new();
    let mut i: usize = 0;
    while i < v.len()
        invariant
            0 <= i <= v@.len(),
            out@ == v@.take(i as int),
        decreases v@.len() - i,
    {
        out.push(v[i].clone());
        proof {
            assert(v@.take(i as int + 1).drop_last() =~= v@.take(i as int));
            assert(out@ =~= v@.take(i as int + 1));
        }
        i += 1;
    }
    proof {
        assert(v@.take(v@.len() as int) =~= v@);
    }
    out
}

/// Everything needed to carry out one submission, assembled and checked.
#[derive(Debug)]
pub struct SubmissionPlan {
    /// Target "owner/name".
    pub repo: String,
    pub title: String,
    pub body: String,
    pub labels: Vec<String>,
    /// Whether the automation-policy check must run before creating the
    /// issue: it is required exactly for non-interactive submissions.
    pub robots_check: bool,
}

/// Validate the collected values and assemble the submission: the rendered
/// title and body, the labels, the target repository (the explicit override
/// wins over the schema's), and whether the policy check is owed.
pub fn prepare_submission(
    schema: &GripeSchema,
    values: &ValueMap,
    repo_override: Option<String>,
    interactive: bool,
) -> (r: Result<SubmissionPlan, String>)
    ensures
        spec_missing_labels(schema.fields@, values@).len() != 0 ==> (r matches Err(e)
            && e@ == "Missing required fields: "@ + spec_join_with(
            spec_missing_labels(schema.fields@, values@),
            ", "@,
        )),
        spec_missing_labels(schema.fields@, values@).len() == 0 && repo_override is None
            && schema.repo is None ==> (r matches Err(e)
            && e@ == "No repo specified. Use --repo, set repo in gripe.yaml, or run from a git repo."@),
        spec_missing_labels(schema.fields@, values@).len() == 0 && !(repo_override is None
            && schema.repo is None) ==> (r matches Ok(p) && ({
            &&& p.repo@ == (match repo_override {
                Some(ro) => ro@,
                None => schema.repo->Some_0@,
            })
            &&& p.title@ == spec_format_title(
                match schema.title_template {
                    Some(ref t) => Some(t@),
                    None => None,
                },
                values@,
            )
            &&& p.body@ == spec_format_body(schema.fields@, values@)
            &&& p.labels@ == schema.labels@
            &&& p.robots_check == !interactive
        })),
{
    if let Err(e) = validate_fields(schema, values) {
        return Err(e);
    }
    let repo = match repo_override {
        Some(ro) => ro,
        None => match &schema.repo {
            Some(sr) => sr.clone(),
            None => {
                return Err(
                    "No repo specified. Use --repo, set repo in gripe.yaml, or run from a git repo.".to_owned(),
                );
            }
        },
    };
    let title = format_title(
        match &schema.title_template {
            Some(t) => Some(t.as_str()),
            None => None,
        },
        values,
    );
    let body = format_body(schema, values);
    let labels = clone_strings(&schema.labels);
    Ok(SubmissionPlan { repo, title, body, labels, robots_check: !interactive })
}

/// Index of the first element of `dv` equal to `d` at or after `i`;
/// `dv.len()` when there is none.
pub open spec fn spec_first_match(dv: Seq<Seq<char>>, d: Seq<char>, i: int) -> int
    decreases dv.len() - i,
{
    if i < 0 || i >= dv.len() {
        dv.len() as int
    } else if dv[i] == d {
        i
    } else {
        spec_first_match(dv, d, i + 1)
    }
}

/// The index pre-selected in a Select prompt: the first option equal to the
/// field's default value, or 0 when there is no default or no match.
pub fn default_option_index(options: &Vec<String>, default: &Option<String>) -> (r: usize)
    ensures
        ({
            let dv = options.deep_view();
            match default {
                Some(d) => r == (if spec_first_match(dv, d@, 0) < dv.len() {
                    spec_first_match(dv, d@, 0)
                } else {
                    0
                }),
                None => r == 0,
            }
        }),
{
    let ghost dv = options.deep_view();
    match default {
        Some(d) => {
            let mut i: usize = 0;
            while i < options.len()
                invariant
                    *default == Some(*d),
                    dv == options.deep_view(),
                    dv.len() == options@.len(),
                    0 <= i <= dv.len(),
                    spec_first_match(dv, d@, 0) == spec_first_match(dv, d@, i as int),
                decreases options@.len() - i,
            {
                if str_eq(options[i].as_str(), d.as_str()) {
                    proof {
                        assert(spec_first_match(dv, d@, i as int) == i);
                    }
                    return i;
                }
                i += 1;
            }
            0
        }
        None => 0,
    }
}

} // verus!
