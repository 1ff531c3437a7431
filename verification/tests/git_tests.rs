use gripe::git::parse_repo_from_url;

#[test]
fn test_parse_ssh_url() {
    assert_eq!(
        parse_repo_from_url("git@github.com:owner/repo.git"),
        Some("owner/repo".to_string())
    );
}

#[test]
fn test_parse_https_url() {
    assert_eq!(
        parse_repo_from_url("https://github.com/owner/repo.git"),
        Some("owner/repo".to_string())
    );
}

#[test]
fn test_parse_https_no_git_suffix() {
    assert_eq!(
        parse_repo_from_url("https://github.com/owner/repo"),
        Some("owner/repo".to_string())
    );
}

#[test]
fn test_parse_http_url() {
    assert_eq!(
        parse_repo_from_url("http://github.com/owner/repo.git"),
        Some("owner/repo".to_string())
    );
}

#[test]
fn test_parse_non_github_host_yields_none() {
    assert_eq!(parse_repo_from_url("git@gitlab.com:owner/repo.git"), None);
    assert_eq!(parse_repo_from_url("https://gitlab.com/owner/repo"), None);
    assert_eq!(parse_repo_from_url("ssh://example.org/owner/repo"), None);
    assert_eq!(parse_repo_from_url(""), None);
}
