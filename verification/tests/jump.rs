use issue_jumper::config::{CustomPlatform, RawIssueRule, UserConfig};
use issue_jumper::error::IssueJumperError;
use issue_jumper::git::RemoteUrl;
use issue_jumper::jump::{resolve_jump, JumpOptions, JumpTarget};
use issue_jumper::platform::Platform;

fn origin(url: &str) -> Result<Option<RemoteUrl>, IssueJumperError> {
    Ok(Some(RemoteUrl { name: "origin".to_string(), url: url.to_string() }))
}

fn rule(name: &str, pattern: &str, platform: Option<&str>) -> RawIssueRule {
    RawIssueRule { name: name.to_string(), pattern: pattern.to_string(), platform: platform.map(str::to_string) }
}

#[test]
fn resolves_redmine_url_without_remote() {
    let config = UserConfig {
        fallback_platform: Some("redmine".to_string()),
        redmine_base_url: Some("https://redmine.company.com".to_string()),
        issue_rules: vec![rule("redmine-prefix", "(?i)redmine[-_](?P<id>\\d+)", Some("redmine"))],
        ..UserConfig::default()
    };

    let result = resolve_jump(JumpOptions::default(), "/repo".to_string(), &config, "feature/redmine-101".to_string(), Ok(None)).unwrap();

    assert_eq!(result.url, "https://redmine.company.com/issues/101");
    assert!(result.remote.is_none());
}

#[test]
fn resolves_custom_platform_from_remote_host() {
    let config = UserConfig {
        custom_platforms: vec![CustomPlatform {
            name: "jira".to_string(),
            host_patterns: vec!["jira.company.com".to_string()],
            url_template: "https://jira.company.com/browse/{id}".to_string(),
        }],
        ..UserConfig::default()
    };

    let result = resolve_jump(
        JumpOptions::default(),
        "/repo".to_string(),
        &config,
        "feature/ABC-456".to_string(),
        origin("https://jira.company.com/team/app.git"),
    )
    .unwrap();

    assert_eq!(result.platform.name(), "jira");
    assert_eq!(result.url, "https://jira.company.com/browse/ABC-456");
}

#[test]
fn supports_rule_and_platform_overrides() {
    let config = UserConfig {
        redmine_base_url: Some("https://redmine.company.com".to_string()),
        issue_rules: vec![rule("custom", "custom-(?P<id>\\d+)", None)],
        ..UserConfig::default()
    };

    let result = resolve_jump(
        JumpOptions { repo: None, rule_name: Some("custom".to_string()), platform_override: Some(Platform::Redmine) },
        "/repo".to_string(),
        &config,
        "feature/custom-77".to_string(),
        origin("git@github.com:owner/repo.git"),
    )
    .unwrap();

    assert_eq!(result.platform, Platform::Redmine);
    assert_eq!(result.url, "https://redmine.company.com/issues/77");
    assert_eq!(
        result.target,
        JumpTarget::Issue { issue_id: "77".to_string(), matched_rule: "custom".to_string() }
    );
}

#[test]
fn falls_back_to_github_repository_when_no_issue_matches() {
    let result = resolve_jump(
        JumpOptions::default(),
        "/repo".to_string(),
        &UserConfig::default(),
        "main".to_string(),
        origin("git@github.com:owner/repo.git"),
    )
    .unwrap();

    assert_eq!(result.platform, Platform::GitHub);
    assert_eq!(result.target, JumpTarget::Repository);
    assert_eq!(result.url, "https://github.com/owner/repo");
}

#[test]
fn does_not_fallback_to_repository_when_rule_override_does_not_match() {
    let config = UserConfig {
        issue_rules: vec![rule("ticket", "TICKET-(?P<id>\\d+)", None)],
        ..UserConfig::default()
    };

    let err = resolve_jump(
        JumpOptions { rule_name: Some("ticket".to_string()), ..JumpOptions::default() },
        "/repo".to_string(),
        &config,
        "main".to_string(),
        origin("git@github.com:owner/repo.git"),
    )
    .unwrap_err();

    assert!(matches!(err, IssueJumperError::NoMatchingRule(branch) if branch == "main"));
}

#[test]
fn falls_back_to_gitlab_repository_when_no_issue_matches() {
    let result = resolve_jump(
        JumpOptions::default(),
        "/repo".to_string(),
        &UserConfig::default(),
        "main".to_string(),
        origin("git@gitlab.com:group/subgroup/app.git"),
    )
    .unwrap();

    assert_eq!(result.platform, Platform::GitLab);
    assert_eq!(result.target, JumpTarget::Repository);
    assert_eq!(result.url, "https://gitlab.com/group/subgroup/app");
}

#[test]
fn keeps_no_matching_rule_for_non_github_gitlab_remotes() {
    let err = resolve_jump(
        JumpOptions::default(),
        "/repo".to_string(),
        &UserConfig::default(),
        "main".to_string(),
        origin("git@bitbucket.org:owner/repo.git"),
    )
    .unwrap_err();

    assert!(matches!(err, IssueJumperError::NoMatchingRule(branch) if branch == "main"));
}

#[test]
fn fails_when_platform_cannot_be_resolved() {
    let err = resolve_jump(
        JumpOptions::default(),
        "/repo".to_string(),
        &UserConfig::default(),
        "feature/GH-123".to_string(),
        Ok(None),
    )
    .unwrap_err();

    assert!(matches!(err, IssueJumperError::PlatformUnresolved));
}

#[test]
fn a_remote_read_error_surfaces_when_the_remote_is_needed() {
    let err = resolve_jump(
        JumpOptions::default(),
        "/repo".to_string(),
        &UserConfig::default(),
        "feature/GH-123".to_string(),
        Err(IssueJumperError::GitNotFound),
    )
    .unwrap_err();
    assert!(matches!(err, IssueJumperError::GitNotFound));
}
