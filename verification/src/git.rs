//! Detecting the target repository from a version-control remote URL.
//! Only GitHub SSH and HTTP(S) remote forms yield a repository.

use vstd::prelude::*;
use vstd::string::StrSliceExecFns;
use crate::text::str_eq;

verus! {

/// `s` begins with `p`.
pub open spec fn spec_starts_with(s: Seq<char>, p: Seq<char>) -> bool {
    s.len() >= p.len() && s.subrange(0, p.len() as int) == p
}

/// `s` ends with the four characters `.git`.
pub open spec fn spec_ends_with_git(s: Seq<char>) -> bool {
    s.len() >= 4 && s[s.len() - 4] == '.' && s[s.len() - 3] == 'g' && s[s.len() - 2] == 'i'
        && s[s.len() - 1] == 't'
}

/// `s` with every trailing repetition of `.git` removed.
pub open spec fn spec_trim_git(s: Seq<char>) -> Seq<char>
    decreases s.len(),
{
    if spec_ends_with_git(s) {
        spec_trim_git(s.subrange(0, s.len() - 4))
    } else {
        s
    }
}

/// The "owner/name" a remote URL denotes: the rest after a recognised
/// GitHub prefix, with any `.git` suffix trimmed; other hosts denote none.
pub open spec fn spec_parse_repo(url: Seq<char>) -> Option<Seq<char>> {
    if spec_starts_with(url, "git@github.com:"@) {
        Some(spec_trim_git(url.skip("git@github.com:"@.len() as int)))
    } else if spec_starts_with(url, "https://github.com/"@) {
        Some(spec_trim_git(url.skip("https://github.com/"@.len() as int)))
    } else if spec_starts_with(url, "http://github.com/"@) {
        Some(spec_trim_git(url.skip("http://github.com/"@.len() as int)))
    } else {
        None
    }
}

/// The rest of `s` after the prefix `p`, when `s` begins with it.
fn strip_prefix_str<'a>(s: &'a str, p: &str) -> (r: Option<&'a str>)
    ensures
        match r {
            Some(rest) => spec_starts_with(s@, p@) && rest@ == s@.skip(p@.len() as int),
            None => !spec_starts_with(s@, p@),
        },
{
    let pl = p.unicode_len();
    let sl = s.unicode_len();
    if pl > sl {
        return None;
    }
    let head = s.substring_char(0, pl);
    if str_eq(head, p) {
        Some(s.substring_char(pl, sl))
    } else {
        None
    }
}

/// `s` with every trailing repetition of `.git` removed.
fn trim_git_suffix(s: &str) -> (r: String)
    ensures
        r@ == spec_trim_git(s@),
{
    let n = s.unicode_len();
    let mut e: usize = n;
    proof {
        assert(s@.subrange(0, n as int) =~= s@);
    }
    while e >= 4 && s.get_char(e - 4) == '.' && s.get_char(e - 3) == 'g' && s.get_char(e - 2)
        == 'i' && s.get_char(e - 1) == 't'
        invariant
            n == s@.len(),
            0 <= e <= n,
            spec_trim_git(s@) == spec_trim_git(s@.subrange(0, e as int)),
        decreases e,
    {
        proof {
            let cur = s@.subrange(0, e as int);
            assert(spec_ends_with_git(cur));
            assert(cur.subrange(0, cur.len() - 4) =~= s@.subrange(0, e as int - 4));
        }
        e -= 4;
    }
    proof {
        let cur = s@.subrange(0, e as int);
        assert(!spec_ends_with_git(cur));
        assert(spec_trim_git(cur) == cur);
    }
    s.substring_char(0, e).to_owned()
}

/// Parse the "owner/name" target out of a remote URL; GitHub SSH and
/// HTTP(S) forms only.
pub fn parse_repo_from_url(url: &str) -> (r: Option<String>)
    ensures
        match r {
            Some(repo) => spec_parse_repo(url@) == Some(repo@),
            None => spec_parse_repo(url@) is None,
        },
{
    if let Some(rest) = strip_prefix_str(url, "git@github.com:") {
        return Some(trim_git_suffix(rest));
    }
    if let Some(rest) = strip_prefix_str(url, "https://github.com/") {
        return Some(trim_git_suffix(rest));
    }
    if let Some(rest) = strip_prefix_str(url, "http://github.com/") {
        return Some(trim_git_suffix(rest));
    }
    None
}

} // verus!
