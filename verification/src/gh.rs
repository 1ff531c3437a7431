//! Hosting-platform side logic: interpreting a fetched automation policy
//! file, the issue-creation retry decision, and parsing the created issue's
//! number out of its URL.

use vstd::prelude::*;
use vstd::string::StrSliceExecFns;
use vstd::string::StringExecFns;
use crate::base64::{base64_decode, spec_b64_decode};
use crate::text::{contains_sub, push_char, spec_contains_sub, str_eq};
use crate::types::AutomatedPolicy;

verus! {

/// One successfully created issue.
#[derive(Clone, Debug)]
pub struct IssueResult {
    pub url: String,
    /// Parsed from the trailing path segment of `url`; 0 when unparsable.
    pub number: u64,
}

/// Index of the last `'/'` in `s`; -1 when there is none.
pub open spec fn spec_last_slash(s: Seq<char>) -> int
    decreases s.len(),
{
    if s.len() == 0 {
        -1
    } else if s[s.len() - 1] == '/' {
        s.len() - 1
    } else {
        spec_last_slash(s.drop_last())
    }
}

pub open spec fn spec_is_digit(c: char) -> bool {
    48 <= c as u32 <= 57
}

pub open spec fn spec_all_digits(s: Seq<char>) -> bool {
    forall|k: int| 0 <= k < s.len() ==> spec_is_digit(#[trigger] s[k])
}

/// Numeric value of a digit string.
pub open spec fn spec_digits_val(s: Seq<char>) -> int
    decreases s.len(),
{
    if s.len() == 0 {
        0
    } else {
        spec_digits_val(s.drop_last()) * 10 + (s.last() as u32 - 48)
    }
}

/// The number a string denotes: all digits, non-empty, and within range.
pub open spec fn spec_parse_u64(s: Seq<char>) -> Option<u64> {
    if s.len() > 0 && spec_all_digits(s) && spec_digits_val(s) <= u64::MAX {
        Some(spec_digits_val(s) as u64)
    } else {
        None
    }
}

proof fn lemma_digits_val_nonneg(s: Seq<char>)
    requires
        spec_all_digits(s),
    ensures
        spec_digits_val(s) >= 0,
    decreases s.len(),
{
    if s.len() > 0 {
        assert(spec_all_digits(s.drop_last())) by {
            assert(forall|k: int|
                0 <= k < s.drop_last().len() ==> #[trigger] s.drop_last()[k] == s[k]);
        }
        lemma_digits_val_nonneg(s.drop_last());
    }
}

proof fn lemma_digits_val_mono(s: Seq<char>, i: int)
    requires
        spec_all_digits(s),
        0 <= i <= s.len(),
    ensures
        spec_digits_val(s.take(i)) <= spec_digits_val(s),
    decreases s.len() - i,
{
    if i == s.len() {
        assert(s.take(i) =~= s);
    } else {
        lemma_digits_val_mono(s, i + 1);
        let t = s.take(i + 1);
        assert(t.drop_last() =~= s.take(i));
        assert(spec_all_digits(s.take(i))) by {
            assert(forall|k: int| 0 <= k < i ==> #[trigger] s.take(i)[k] == s[k]);
        }
        lemma_digits_val_nonneg(s.take(i));
        assert(spec_digits_val(t) == spec_digits_val(s.take(i)) * 10 + (t.last() as u32 - 48));
    }
}

/// Parse a non-empty all-digit string into a number; `None` on any other
/// character or on overflow.
fn parse_u64_digits(s: &str) -> (r: Option<u64>)
    ensures
        r == spec_parse_u64(s@),
{
    let n = s.unicode_len();
    if n == 0 {
        return None;
    }
    let mut acc: u64 = 0;
    let mut i: usize = 0;
    proof {
        assert(s@.take(0) =~= Seq::<char>::empty());
    }
    while i < n
        invariant
            n == s@.len(),
            n > 0,
            0 <= i <= n,
            spec_all_digits(s@.take(i as int)),
            acc == spec_digits_val(s@.take(i as int)),
        decreases n - i,
    {
        let c = s.get_char(i);
        let u = c as u32;
        if !(48 <= u && u <= 57) {
            proof {
                assert(!spec_is_digit(s@[i as int]));
                assert(!spec_all_digits(s@));
            }
            return None;
        }
        let d = (u - 48) as u64;
        let ghost tk = s@.take(i as int + 1);
        proof {
            assert(tk.drop_last() =~= s@.take(i as int));
            assert(tk.last() == s@[i as int]);
            assert(spec_all_digits(tk)) by {
                assert(forall|k: int| 0 <= k < i ==> #[trigger] tk[k] == s@.take(i as int)[k]);
            }
        }
        let next = match acc.checked_mul(10) {
            Some(x) => x.checked_add(d),
            None => None,
        };
        match next {
            Some(v) => {
                acc = v;
            }
            None => {
                proof {
                    assert(spec_digits_val(tk) > u64::MAX);
                    if spec_all_digits(s@) {
                        lemma_digits_val_mono(s@, i as int + 1);
                        assert(spec_digits_val(s@) > u64::MAX);
                    }
                }
                return None;
            }
        }
        i += 1;
    }
    proof {
        assert(s@.take(n as int) =~= s@);
    }
    Some(acc)
}

/// The issue number a URL denotes: the number after the last `'/'`
/// (the whole text when there is no slash), or 0 when unparsable.
pub open spec fn spec_issue_number(url: Seq<char>) -> u64 {
    match spec_parse_u64(url.skip(spec_last_slash(url) + 1)) {
        Some(v) => v,
        None => 0u64,
    }
}

/// Build the issue record for a URL returned by the hosting platform.
pub fn issue_result_from_url(url: &str) -> (r: IssueResult)
    ensures
        r.url@ == url@,
        r.number == spec_issue_number(url@),
{
    let n = url.unicode_len();
    let mut k: usize = n;
    proof {
        assert(url@.take(n as int) =~= url@);
    }
    while k > 0 && url.get_char(k - 1) != '/'
        invariant
            n == url@.len(),
            0 <= k <= n,
            spec_last_slash(url@) == spec_last_slash(url@.take(k as int)),
        decreases k,
    {
        proof {
            let t = url@.take(k as int);
            assert(t.drop_last() =~= url@.take(k as int - 1));
        }
        k -= 1;
    }
    proof {
        if k > 0 {
            assert(spec_last_slash(url@.take(k as int)) == k - 1);
        }
        assert(spec_last_slash(url@) + 1 == k);
        assert(url@.subrange(k as int, n as int) =~= url@.skip(spec_last_slash(url@) + 1));
    }
    let seg = url.substring_char(k, n);
    let number = match parse_u64_digits(seg) {
        Some(v) => v,
        None => 0,
    };
    IssueResult { url: url.to_owned(), number }
}

/// A creation failure reports a missing label: its text contains both
/// `label` and `not found`.
pub open spec fn spec_label_not_found(e: Seq<char>) -> bool {
    spec_contains_sub(e, "label"@) && spec_contains_sub(e, "not found"@)
}

pub fn should_retry_without_labels(stderr: &str) -> (r: bool)
    ensures
        r == spec_label_not_found(stderr@),
{
    contains_sub(stderr, "label") && contains_sub(stderr, "not found")
}

/// What to do after the first creation attempt.
pub enum RetryDecision {
    /// The attempt succeeded: here is the issue.
    Done(IssueResult),
    /// The attempt failed because a label was not found on the repository:
    /// retry exactly once, with an empty label set.
    RetryWithoutLabels,
    /// Any other failure: surface it at once, without a retry.
    Fail(String),
}

/// Decide the follow-up to the first creation attempt. `outcome` is the
/// attempt's result: the created issue's URL, or the failure text.
pub fn decide_after_first_attempt(outcome: Result<String, String>) -> (r: RetryDecision)
    ensures
        match outcome {
            Ok(url) => (r matches RetryDecision::Done(ir) && ir.url@ == url@ && ir.number
                == spec_issue_number(url@)),
            Err(e) => if spec_label_not_found(e@) {
                r is RetryWithoutLabels
            } else {
                (r matches RetryDecision::Fail(msg) && msg@ == "gh issue create failed: "@ + e@)
            },
        },
{
    match outcome {
        Ok(url) => RetryDecision::Done(issue_result_from_url(url.as_str())),
        Err(e) => {
            if should_retry_without_labels(e.as_str()) {
                RetryDecision::RetryWithoutLabels
            } else {
                let mut msg = "gh issue create failed: ".to_owned();
                msg.append(e.as_str());
                RetryDecision::Fail(msg)
            }
        }
    }
}

/// The overall result once the retry attempt has run.
pub fn finish_after_retry(outcome: Result<String, String>) -> (r: Result<IssueResult, String>)
    ensures
        match outcome {
            Ok(url) => (r matches Ok(ir) && ir.url@ == url@ && ir.number == spec_issue_number(
                url@,
            )),
            Err(e) => (r matches Err(msg) && msg@ == "gh issue create failed: "@ + e@),
        },
{
    match outcome {
        Ok(url) => Ok(issue_result_from_url(url.as_str())),
        Err(e) => {
            let mut msg = "gh issue create failed: ".to_owned();
            msg.append(e.as_str());
            Err(msg)
        }
    }
}

/// A whitespace character, as the policy-file cleaning step skips them.
pub open spec fn spec_is_ws(c: char) -> bool {
    let u = c as u32;
    u == 0x09 || u == 0x0a || u == 0x0b || u == 0x0c || u == 0x0d || u == 0x20 || u == 0x85
        || u == 0xa0 || u == 0x1680 || (0x2000 <= u <= 0x200a) || u == 0x2028 || u == 0x2029
        || u == 0x202f || u == 0x205f || u == 0x3000
}

/// `s` with every whitespace character removed, from position `i` on.
pub open spec fn spec_strip_ws_from(s: Seq<char>, i: int) -> Seq<char>
    decreases s.len() - i,
{
    if i < 0 || i >= s.len() {
        Seq::empty()
    } else if spec_is_ws(s[i]) {
        spec_strip_ws_from(s, i + 1)
    } else {
        seq![s[i]] + spec_strip_ws_from(s, i + 1)
    }
}

pub open spec fn spec_strip_ws(s: Seq<char>) -> Seq<char> {
    spec_strip_ws_from(s, 0)
}

/// Remove every whitespace character.
pub fn strip_whitespace(s: &str) -> (r: String)
    ensures
        r@ == spec_strip_ws(s@),
{
    let n = s.unicode_len();
    let mut out = String::new();
    let mut i: usize = 0;
    while i < n
        invariant
            n == s@.len(),
            0 <= i <= n,
            spec_strip_ws_from(s@, 0) == out@ + spec_strip_ws_from(s@, i as int),
        decreases n - i,
    {
        let ghost out0 = out@;
        let c = s.get_char(i);
        let u = c as u32;
        let ws = u == 0x09 || u == 0x0a || u == 0x0b || u == 0x0c || u == 0x0d || u == 0x20
            || u == 0x85 || u == 0xa0 || u == 0x1680 || (0x2000 <= u && u <= 0x200a)
            || u == 0x2028 || u == 0x2029 || u == 0x202f || u == 0x205f || u == 0x3000;
        if !ws {
            push_char(&mut out, c);
            proof {
                assert(spec_strip_ws_from(s@, i as int) == seq![s@[i as int]]
                    + spec_strip_ws_from(s@, i as int + 1));
                assert(out0 + (seq![s@[i as int]] + spec_strip_ws_from(s@, i as int + 1))
                    =~= out@ + spec_strip_ws_from(s@, i as int + 1));
            }
        }
        i += 1;
    }
    proof {
        assert(out@ + spec_strip_ws_from(s@, n as int) =~= out@);
    }
    out
}

/// What a YAML document holds as its top-level string at `key`: the result
/// of parsing `doc` and reading that entry, when the document parses and
/// the entry is a string.
pub uninterp spec fn yaml_string_field(doc: Seq<u8>, key: Seq<char>) -> Option<Seq<char>>;

/// Relies on serde_yaml::from_slice::<serde_yaml::Value>, serde_yaml::Value::get
/// and serde_yaml::Value::as_str: parsing is a function of the bytes alone;
/// the chain yields the document's top-level string at `key` when the
/// document parses and holds one, and nothing otherwise.
#[verifier::external_body]
fn yaml_top_level_string(doc: &[u8], key: &str) -> (r: Option<String>)
    ensures
        match r {
            Some(v) => yaml_string_field(doc@, key@) == Some(v@),
            None => yaml_string_field(doc@, key@) is None,
        },
{
    match serde_yaml::from_slice::<serde_yaml::Value>(doc) {
        Ok(value) => value.get(key).and_then(|f| f.as_str()).map(|s| s.to_string()),
        Err(_) => None,
    }
}

/// The policy a fetched policy file denotes. A failed fetch, empty content,
/// undecodable or unparsable content, and any parsed value other than the
/// string `deny` all mean Allow; only a parsed top-level `automated: deny`
/// means Deny.
pub open spec fn spec_robots_policy(content: Option<Seq<char>>) -> AutomatedPolicy {
    match content {
        None => AutomatedPolicy::Allow,
        Some(raw) => {
            let cleaned = spec_strip_ws(raw);
            if cleaned.len() == 0 {
                AutomatedPolicy::Allow
            } else {
                match spec_b64_decode(cleaned) {
                    None => AutomatedPolicy::Allow,
                    Some(bytes) => match yaml_string_field(bytes, "automated"@) {
                        Some(v) => if v == "deny"@ {
                            AutomatedPolicy::Deny
                        } else {
                            AutomatedPolicy::Allow
                        },
                        None => AutomatedPolicy::Allow,
                    },
                }
            }
        }
    }
}

/// Interpret the automation policy file fetched from a target repository.
/// `content` is the raw base64 text of the file, or `None` when the fetch
/// failed or found no file.
pub fn check_robots_content(content: Option<&str>) -> (r: AutomatedPolicy)
    ensures
        r == spec_robots_policy(
            match content {
                Some(s) => Some(s@),
                None => None,
            },
        ),
{
    match content {
        None => AutomatedPolicy::Allow,
        Some(raw) => {
            let cleaned = strip_whitespace(raw);
            if cleaned.as_str().is_empty() {
                return AutomatedPolicy::Allow;
            }
            match base64_decode(cleaned.as_str()) {
                Err(_) => AutomatedPolicy::Allow,
                Ok(bytes) => {
                    match yaml_top_level_string(bytes.as_slice(), "automated") {
                        Some(v) => {
                            if str_eq(v.as_str(), "deny") {
                                AutomatedPolicy::Deny
                            } else {
                                AutomatedPolicy::Allow
                            }
                        }
                        None => AutomatedPolicy::Allow,
                    }
                }
            }
        }
    }
}

} // verus!
