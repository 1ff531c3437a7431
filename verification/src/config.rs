//! Schema resolution: the ordered fallback chain that produces one
//! effective schema, and the upward search for the configuration file.

use vstd::prelude::*;
use vstd::string::StringExecFns;
use crate::defaults::{default_schema, default_schema_shape};
use crate::types::GripeSchema;

verus! {

/// Index of the first `true` flag at or after `i`; `flags.len()` when there
/// is none.
pub open spec fn spec_first_true(flags: Seq<bool>, i: int) -> int
    decreases flags.len() - i,
{
    if i < 0 || i >= flags.len() {
        flags.len() as int
    } else if flags[i] {
        i
    } else {
        spec_first_true(flags, i + 1)
    }
}

/// The upward search for `gripe.yaml`: `dirs` are the directories from the
/// working directory towards the filesystem root, nearest first, and
/// `has_file` says for each whether it holds a `gripe.yaml`. The result is
/// the file's path in the nearest directory that has one.
pub fn find_gripe_yaml(dirs: &Vec<String>, has_file: &Vec<bool>) -> (r: Option<String>)
    requires
        dirs@.len() == has_file@.len(),
    ensures
        ({
            let f = spec_first_true(has_file@, 0);
            match r {
                Some(p) => f < has_file@.len() && p@ == dirs.deep_view()[f] + "/gripe.yaml"@,
                None => f == has_file@.len(),
            }
        }),
{
    let mut i: usize = 0;
    while i < dirs.len()
        invariant
            dirs@.len() == has_file@.len(),
            0 <= i <= dirs@.len(),
            spec_first_true(has_file@, 0) == spec_first_true(has_file@, i as int),
        decreases dirs@.len() - i,
    {
        if has_file[i] {
            let mut p = dirs[i].clone();
            p.append("/gripe.yaml");
            proof {
                assert(spec_first_true(has_file@, i as int) == i);
            }
            return Some(p);
        }
        i += 1;
    }
    None
}

/// `s` with the detected repository filled in when it names none itself.
pub open spec fn spec_with_repo(s: GripeSchema, detected: Option<String>) -> GripeSchema {
    if s.repo is None {
        GripeSchema { repo: detected, ..s }
    } else {
        s
    }
}

/// The ordered fallback chain, first success wins, no merging across
/// sources: a found `gripe.yaml` is used as parsed, and a parse failure is
/// terminal; else a usable issue-template schema; else the built-in
/// default. Whatever was selected, an absent target repository is filled
/// from the detected remote.
pub fn resolve_schema(
    gripe_file: Option<Result<GripeSchema, String>>,
    template_schema: Option<GripeSchema>,
    detected_repo: Option<String>,
) -> (r: Result<GripeSchema, String>)
    ensures
        match gripe_file {
            Some(res) => match res {
                Ok(g) => r == Ok::<GripeSchema, String>(spec_with_repo(g, detected_repo)),
                Err(e) => r == Err::<GripeSchema, String>(e),
            },
            None => match template_schema {
                Some(t) => r == Ok::<GripeSchema, String>(spec_with_repo(t, detected_repo)),
                None => (r matches Ok(d) && default_schema_shape(d) && d.repo == detected_repo),
            },
        },
{
    match gripe_file {
        Some(res) => match res {
            Ok(mut g) => {
                if g.repo.is_none() {
                    g.repo = detected_repo;
                }
                Ok(g)
            }
            Err(e) => Err(e),
        },
        None => match template_schema {
            Some(mut t) => {
                if t.repo.is_none() {
                    t.repo = detected_repo;
                }
                Ok(t)
            }
            None => {
                let mut d = default_schema();
                d.repo = detected_repo;
                Ok(d)
            }
        },
    }
}

} // verus!
