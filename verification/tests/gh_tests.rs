use gripe::gh::{
    check_robots_content, decide_after_first_attempt, finish_after_retry, issue_result_from_url,
    should_retry_without_labels, RetryDecision,
};
use gripe::types::AutomatedPolicy;

#[test]
fn test_issue_number_parsed_from_url() {
    let r = issue_result_from_url("https://github.com/owner/repo/issues/42");
    assert_eq!(r.url, "https://github.com/owner/repo/issues/42");
    assert_eq!(r.number, 42);
}

#[test]
fn test_issue_number_unparsable_falls_back_to_zero() {
    assert_eq!(issue_result_from_url("https://github.com/owner/repo/issues/").number, 0);
    assert_eq!(issue_result_from_url("https://github.com/owner/repo/issues/new2").number, 0);
    assert_eq!(issue_result_from_url("no-slash-at-all").number, 0);
}

#[test]
fn test_label_failure_triggers_retry() {
    assert!(should_retry_without_labels("could not add label: 'feedback' not found"));
    let d = decide_after_first_attempt(Err(
        "could not add label: 'feedback' not found".to_string(),
    ));
    assert!(matches!(d, RetryDecision::RetryWithoutLabels));
}

#[test]
fn test_other_failure_is_not_retried() {
    assert!(!should_retry_without_labels("HTTP 404: repository missing"));
    assert!(!should_retry_without_labels("label exists but something else broke"));
    assert!(!should_retry_without_labels("thing not found"));
    let d = decide_after_first_attempt(Err("HTTP 404: repository missing".to_string()));
    match d {
        RetryDecision::Fail(msg) => {
            assert_eq!(msg, "gh issue create failed: HTTP 404: repository missing");
        }
        _ => panic!("expected immediate failure"),
    }
}

#[test]
fn test_successful_attempt_is_done() {
    let d = decide_after_first_attempt(Ok("https://github.com/o/r/issues/7".to_string()));
    match d {
        RetryDecision::Done(ir) => {
            assert_eq!(ir.url, "https://github.com/o/r/issues/7");
            assert_eq!(ir.number, 7);
        }
        _ => panic!("expected done"),
    }
}

#[test]
fn test_retry_outcome_is_final() {
    let ok = finish_after_retry(Ok("https://github.com/o/r/issues/9".to_string())).unwrap();
    assert_eq!(ok.number, 9);
    let err = finish_after_retry(Err("still broken".to_string())).unwrap_err();
    assert_eq!(err, "gh issue create failed: still broken");
}

#[test]
fn test_robots_fetch_failure_allows() {
    assert_eq!(check_robots_content(None), AutomatedPolicy::Allow);
}

#[test]
fn test_robots_empty_content_allows() {
    assert_eq!(check_robots_content(Some("")), AutomatedPolicy::Allow);
    assert_eq!(check_robots_content(Some("  \n ")), AutomatedPolicy::Allow);
}

#[test]
fn test_robots_deny_is_detected() {
    // base64 of "automated: deny"
    assert_eq!(check_robots_content(Some("YXV0b21hdGVkOiBkZW55")), AutomatedPolicy::Deny);
}

#[test]
fn test_robots_deny_with_interspersed_whitespace() {
    assert_eq!(
        check_robots_content(Some("YXV0b2\n1hdGVk  OiBkZW55\n")),
        AutomatedPolicy::Deny
    );
}

#[test]
fn test_robots_allow_value_allows() {
    // base64 of "automated: allow"
    assert_eq!(
        check_robots_content(Some("YXV0b21hdGVkOiBhbGxvdw==")),
        AutomatedPolicy::Allow
    );
}

#[test]
fn test_robots_malformed_content_fails_open() {
    // not base64 at all
    assert_eq!(check_robots_content(Some("!!!not-base64!!!")), AutomatedPolicy::Allow);
    // base64 of "not yaml: [unclosed"
    assert_eq!(
        check_robots_content(Some("bm90IHlhbWw6IFt1bmNsb3NlZA==")),
        AutomatedPolicy::Allow
    );
    // base64 of "automated: 5" (not a string value)
    assert_eq!(check_robots_content(Some("YXV0b21hdGVkOiA1")), AutomatedPolicy::Allow);
}
