use issue_jumper::browser::{open_url, opener_result, BrowserCommand, HostOs, OpenerOutcome};
use issue_jumper::config::{
    discovered_config_paths, global_config_path, load_config, project_config_paths, CustomPlatform,
    RawIssueRule, UserConfig,
};
use issue_jumper::text::{join_path, PathStyle};
use issue_jumper::error::IssueJumperError;
use issue_jumper::git::remote::parse_remote;
use issue_jumper::git::{stderr_looks_like_not_git_repo, BranchStep, GitOutput, GitReader, RemoteStep};
use issue_jumper::issue::extract_issue;
use issue_jumper::lint::{lint_discovered_config, lint_explicit_config_paths, ConfigFile, ExplicitFile};
use issue_jumper::platform::Platform;
use issue_jumper::url::{build_issue_url, build_repository_url, resolve_platform};

// ---------------------------------------------------------------------------
// Errors
// ---------------------------------------------------------------------------

#[test]
fn maps_exit_codes() {
    let cases = [
        (IssueJumperError::NoMatchingRule("main".to_string()), 1),
        (IssueJumperError::PlatformUnresolved, 1),
        (IssueJumperError::UrlBuildFailed("bad".to_string()), 1),
        (IssueJumperError::RemoteParseFailed("bad".to_string()), 1),
        (IssueJumperError::Io("io".to_string()), 1),
        (IssueJumperError::Usage("usage".to_string()), 1),
        (IssueJumperError::UnknownRule("missing".to_string()), 1),
        (IssueJumperError::InvalidConfig("bad".to_string()), 2),
        (IssueJumperError::GitNotFound, 3),
        (IssueJumperError::RepoPathInvalid("/x".to_string()), 3),
        (IssueJumperError::NotGitRepo("/x".to_string()), 3),
        (IssueJumperError::DetachedHead, 3),
        (IssueJumperError::BrowserOpenFailed("bad".to_string()), 4),
        (IssueJumperError::ZedConfigPathNotFound, 5),
        (IssueJumperError::ZedConfigInvalidJson("bad".to_string()), 5),
        (IssueJumperError::ZedKeyConflict("alt-i".to_string()), 5),
    ];

    for (err, code) in cases {
        assert_eq!(err.exit_code(), code);
    }
}

#[test]
fn formats_all_error_messages() {
    let errors = [
        IssueJumperError::GitNotFound,
        IssueJumperError::RepoPathInvalid("/x".to_string()),
        IssueJumperError::NotGitRepo("/x".to_string()),
        IssueJumperError::DetachedHead,
        IssueJumperError::RemoteParseFailed("remote".to_string()),
        IssueJumperError::NoMatchingRule("main".to_string()),
        IssueJumperError::UnknownRule("missing".to_string()),
        IssueJumperError::InvalidConfig("bad".to_string()),
        IssueJumperError::PlatformUnresolved,
        IssueJumperError::UrlBuildFailed("bad".to_string()),
        IssueJumperError::BrowserOpenFailed("bad".to_string()),
        IssueJumperError::ZedConfigPathNotFound,
        IssueJumperError::ZedConfigInvalidJson("keymap.json".to_string()),
        IssueJumperError::ZedKeyConflict("alt-i".to_string()),
        IssueJumperError::Io("io".to_string()),
        IssueJumperError::Usage("usage".to_string()),
    ];

    for err in errors {
        assert!(!err.message().is_empty());
    }
}

#[test]
fn converts_io_error() {
    let err: IssueJumperError = std::io::Error::other("boom").into();
    assert!(matches!(err, IssueJumperError::Io(message) if message == "boom"));
}

#[test]
fn error_messages_carry_their_details() {
    assert_eq!(
        IssueJumperError::NoMatchingRule("main".to_string()).message(),
        "No issue ID matched branch \"main\"."
    );
    assert_eq!(
        IssueJumperError::ZedKeyConflict("alt-i".to_string()).message(),
        "Key \"alt-i\" is already bound in Zed keymap.json."
    );
    assert_eq!(IssueJumperError::Usage("usage".to_string()).message(), "usage");
}

// ---------------------------------------------------------------------------
// Platforms
// ---------------------------------------------------------------------------

#[test]
fn parses_known_and_custom_platforms() {
    assert_eq!(Platform::parse("github"), Platform::GitHub);
    assert_eq!(Platform::parse("GitLab"), Platform::GitLab);
    assert_eq!(Platform::parse("bitbucket"), Platform::Bitbucket);
    assert_eq!(Platform::parse("gitee"), Platform::Gitee);
    assert_eq!(Platform::parse("redmine"), Platform::Redmine);
    assert_eq!(Platform::parse("jira"), Platform::Custom("jira".to_string()));
}

#[test]
fn returns_platform_names() {
    let cases = [
        (Platform::GitHub, "github"),
        (Platform::GitLab, "gitlab"),
        (Platform::Bitbucket, "bitbucket"),
        (Platform::Gitee, "gitee"),
        (Platform::Redmine, "redmine"),
        (Platform::Custom("jira".to_string()), "jira"),
    ];

    for (platform, name) in cases {
        assert_eq!(platform.name(), name);
    }
}

#[test]
fn platform_name_of_parsed_is_lowercased_input() {
    for input in ["GitHub", "REDMINE", "Jira", "gitee"] {
        assert_eq!(Platform::parse(input).name(), input.to_ascii_lowercase());
    }
}

// ---------------------------------------------------------------------------
// Git
// ---------------------------------------------------------------------------

#[test]
fn detects_not_git_error_variants() {
    assert!(stderr_looks_like_not_git_repo("fatal: not a git repository"));
    assert!(stderr_looks_like_not_git_repo("fatal: not in a git directory"));
    assert!(!stderr_looks_like_not_git_repo("other error"));
}

fn output(success: bool, stdout: &str, stderr: &str) -> GitOutput {
    GitOutput { success, stdout: stdout.to_string(), stderr: stderr.to_string() }
}

#[test]
fn propagates_repo_resolution_error() {
    let err = GitReader::new("/definitely/missing/repo".to_string(), false).unwrap_err();
    assert!(matches!(err, IssueJumperError::RepoPathInvalid(_)));
}

#[test]
fn reports_not_git_repo() {
    let reader = GitReader::new("/tmp/plain".to_string(), true).unwrap();
    let step = reader.current_branch(&output(false, "", "fatal: Not a git repository (or any parent)"));
    assert!(matches!(step, BranchStep::Failed(IssueJumperError::NotGitRepo(p)) if p == "/tmp/plain"));
}

#[test]
fn uses_rev_parse_fallback_when_primary_branch_is_empty() {
    let reader = GitReader::new("/r".to_string(), true).unwrap();
    assert!(matches!(reader.current_branch(&output(true, "  \n", "")), BranchStep::TryFallback));
    let branch = reader.fallback_branch(&output(true, "feature/GH-1\n", "")).unwrap();
    assert_eq!(branch, "feature/GH-1");
}

#[test]
fn reports_detached_head_when_fallback_command_fails() {
    let reader = GitReader::new("/r".to_string(), true).unwrap();
    let err = reader.fallback_branch(&output(false, "", "fatal: ambiguous argument")).unwrap_err();
    assert!(matches!(err, IssueJumperError::DetachedHead));
    let err = reader.fallback_branch(&output(true, "HEAD\n", "")).unwrap_err();
    assert!(matches!(err, IssueJumperError::DetachedHead));
}

#[test]
fn uses_fallback_after_non_not_git_primary_failure() {
    let reader = GitReader::new("/r".to_string(), true).unwrap();
    assert!(matches!(
        reader.current_branch(&output(false, "", "error: unknown option `show-current'")),
        BranchStep::TryFallback
    ));
}

#[test]
fn treats_fallback_not_git_error_as_not_git_repo() {
    let reader = GitReader::new("/r".to_string(), true).unwrap();
    let err = reader.fallback_branch(&output(false, "", "fatal: not a git repository")).unwrap_err();
    assert!(matches!(err, IssueJumperError::NotGitRepo(p) if p == "/r"));
}

#[test]
fn reads_origin_upstream_and_missing_remote() {
    let reader = GitReader::new("/r".to_string(), true).unwrap();
    let origin = reader.remote_url("origin", &output(true, "git@github.com:o/r.git\n", "")).unwrap();
    assert_eq!(origin.name, "origin");
    assert_eq!(origin.url, "git@github.com:o/r.git");
    assert!(reader.remote_url("origin", &output(false, "", "error: No such remote")).is_none());
}

#[test]
fn ignores_empty_remote_url() {
    let reader = GitReader::new("/r".to_string(), true).unwrap();
    assert!(reader.remote_url("origin", &output(true, "   \n", "")).is_none());
}

#[test]
fn runs_git_in_the_repository() {
    let reader = GitReader::with_git_binary("/r".to_string(), "/usr/bin/git".to_string(), true).unwrap();
    assert_eq!(reader.git_binary(), "/usr/bin/git");
    assert_eq!(reader.command_args(&["branch", "--show-current"]), vec!["-C", "/r", "branch", "--show-current"]);
    assert!(matches!(GitReader::spawn_error(true, "x".to_string()), IssueJumperError::GitNotFound));
    assert!(matches!(GitReader::spawn_error(false, "denied".to_string()), IssueJumperError::Io(m) if m == "denied"));
}

// ---------------------------------------------------------------------------
// Remotes
// ---------------------------------------------------------------------------

#[test]
fn parses_common_remote_urls() {
    let config = UserConfig::default();
    let remote = parse_remote("origin", "git@github.com:owner/repo.git", &config).unwrap();
    assert_eq!(remote.host, "github.com");
    assert_eq!(remote.path, "owner/repo");
    assert_eq!(remote.owner.as_deref(), Some("owner"));
    assert_eq!(remote.repo.as_deref(), Some("repo"));

    let remote = parse_remote("origin", "ssh://git@gitlab.com:2222/team/app.git", &config).unwrap();
    assert_eq!(remote.host, "gitlab.com");
    assert_eq!(remote.project.as_deref(), Some("team/app"));
}

#[test]
fn parses_https_git_protocol_bitbucket_and_gitee_urls() {
    let config = UserConfig::default();

    let remote = parse_remote("origin", "https://bitbucket.org/team/app.git", &config).unwrap();
    assert_eq!(remote.platform, Platform::Bitbucket);
    assert_eq!(remote.path, "team/app");

    let remote = parse_remote("origin", "git://gitee.com/team/app.git", &config).unwrap();
    assert_eq!(remote.platform, Platform::Gitee);
    assert_eq!(remote.path, "team/app");
}

#[test]
fn parses_custom_and_unknown_hosts() {
    let config = UserConfig {
        custom_platforms: vec![CustomPlatform {
            name: "jira".to_string(),
            host_patterns: vec!["jira.company.com".to_string()],
            url_template: "https://jira.company.com/browse/{id}".to_string(),
        }],
        ..UserConfig::default()
    };

    let remote = parse_remote("origin", "https://jira.company.com/team/app/", &config).unwrap();
    assert_eq!(remote.platform, Platform::Custom("jira".to_string()));
    assert_eq!(remote.path, "team/app");

    let remote = parse_remote("origin", "https://git.example.com/team/app.git", &config).unwrap();
    assert_eq!(remote.platform, Platform::Custom("git.example.com".to_string()));
}

#[test]
fn detects_private_gitlab_hosts_by_convention() {
    let config = UserConfig::default();

    let remote = parse_remote("origin", "https://gitlab.example.com/devops/app.git", &config).unwrap();
    assert_eq!(remote.platform, Platform::GitLab);

    let remote =
        parse_remote("origin", "ssh://git@code.gitlab.company.com/team/app.git", &config).unwrap();
    assert_eq!(remote.platform, Platform::GitLab);
}

#[test]
fn custom_platform_overrides_private_gitlab_convention() {
    let config = UserConfig {
        custom_platforms: vec![CustomPlatform {
            name: "gitlab-work-items".to_string(),
            host_patterns: vec!["gitlab.example.com".to_string()],
            url_template: "https://{host}/{project}/-/work_items/{id}".to_string(),
        }],
        ..UserConfig::default()
    };

    let remote = parse_remote("origin", "https://gitlab.example.com/devops/app.git", &config).unwrap();

    assert_eq!(remote.platform, Platform::Custom("gitlab-work-items".to_string()));
}

#[test]
fn rejects_unparseable_remote_urls() {
    let config = UserConfig::default();
    let err = parse_remote("origin", "not-a-remote", &config).unwrap_err();
    assert!(matches!(err, IssueJumperError::RemoteParseFailed(value) if value == "not-a-remote"));
}

#[test]
fn rejects_supported_shape_with_invalid_details() {
    let config = UserConfig::default();

    for remote_url in [
        "ftp://github.com/owner/repo.git",
        "https://github.com",
        "https://github.com/",
        "git@github.com:",
    ] {
        let err = parse_remote("origin", remote_url, &config).unwrap_err();
        assert!(matches!(err, IssueJumperError::RemoteParseFailed(value) if value == remote_url));
    }
}

// ---------------------------------------------------------------------------
// Issue rules
// ---------------------------------------------------------------------------

#[test]
fn extracts_default_patterns() {
    let config = UserConfig::default();
    assert_eq!(extract_issue("feature/GH-123", &config, None).unwrap().issue_id, "123");
    assert_eq!(extract_issue("fix/issue-456", &config, None).unwrap().issue_id, "456");
    assert_eq!(extract_issue("bug/#789", &config, None).unwrap().issue_id, "789");
    assert_eq!(extract_issue("101-add-login", &config, None).unwrap().issue_id, "101");
    assert_eq!(extract_issue("feature/ABC-456-login", &config, None).unwrap().issue_id, "ABC-456");
    assert_eq!(extract_issue("feature/login-789", &config, None).unwrap().issue_id, "789");
}

#[test]
fn supports_custom_rules_rule_filtering_and_disabled_defaults() {
    let config = UserConfig {
        disabled_default_rules: vec!["trailing-number".to_string()],
        disabled_rules: vec!["disabled-redmine".to_string()],
        issue_rules: vec![
            RawIssueRule {
                name: "redmine".to_string(),
                pattern: r"(?i)redmine[-_](?P<id>\d+)".to_string(),
                platform: Some("redmine".to_string()),
            },
            RawIssueRule {
                name: "disabled-redmine".to_string(),
                pattern: r"(?i)disabled[-_](?P<id>\d+)".to_string(),
                platform: Some("redmine".to_string()),
            },
        ],
        ..UserConfig::default()
    };

    let matched = extract_issue("feature/redmine-42", &config, Some("redmine")).unwrap();
    assert_eq!(matched.issue_id, "42");
    assert_eq!(matched.rule_name, "redmine");
    assert_eq!(matched.platform_hint, Some(Platform::Redmine));

    let err = extract_issue("feature/login-789", &config, None).unwrap_err();
    assert!(matches!(err, IssueJumperError::NoMatchingRule(branch) if branch == "feature/login-789"));

    let err = extract_issue("feature/disabled-42", &config, None).unwrap_err();
    assert!(matches!(err, IssueJumperError::NoMatchingRule(branch) if branch == "feature/disabled-42"));
}

#[test]
fn reports_unknown_rule_filter() {
    let config = UserConfig::default();

    let err = extract_issue("feature/GH-123", &config, Some("missing-rule")).unwrap_err();

    assert!(matches!(err, IssueJumperError::UnknownRule(rule) if rule == "missing-rule"));
}

#[test]
fn rejects_invalid_custom_rule_regex() {
    let config = UserConfig {
        issue_rules: vec![RawIssueRule {
            name: "bad".to_string(),
            pattern: "(".to_string(),
            platform: None,
        }],
        ..UserConfig::default()
    };

    let err = extract_issue("feature/bad", &config, None).unwrap_err();
    assert!(matches!(err, IssueJumperError::InvalidConfig(message) if message.contains("invalid regex")));
}

#[test]
fn rejects_custom_rule_without_id_capture() {
    let config = UserConfig {
        issue_rules: vec![RawIssueRule {
            name: "missing-id".to_string(),
            pattern: r"issue-\d+".to_string(),
            platform: None,
        }],
        ..UserConfig::default()
    };

    let err = extract_issue("feature/issue-42", &config, None).unwrap_err();
    assert!(
        matches!(err, IssueJumperError::InvalidConfig(message) if message.contains("named capture group"))
    );
}

#[test]
fn ignores_empty_trimmed_capture() {
    let config = UserConfig {
        disabled_default_rules: vec![
            "github-gh-prefix".to_string(),
            "issue-prefix".to_string(),
            "hash-number".to_string(),
            "leading-number".to_string(),
            "jira-like-key".to_string(),
            "trailing-number".to_string(),
        ],
        issue_rules: vec![RawIssueRule {
            name: "blank".to_string(),
            pattern: r"blank(?P<id>\s+)".to_string(),
            platform: None,
        }],
        ..UserConfig::default()
    };

    let err = extract_issue("blank   ", &config, None).unwrap_err();
    assert!(matches!(err, IssueJumperError::NoMatchingRule(_)));
}

#[test]
fn custom_rules_come_before_defaults() {
    let config = UserConfig {
        issue_rules: vec![RawIssueRule {
            name: "ticket".to_string(),
            pattern: r"T(?P<id>\d+)".to_string(),
            platform: Some("github".to_string()),
        }],
        ..UserConfig::default()
    };
    let matched = extract_issue("feature/T77-GH-123", &config, None).unwrap();
    assert_eq!(matched.issue_id, "77");
    assert_eq!(matched.rule_name, "ticket");
    assert_eq!(matched.platform_hint, Some(Platform::GitHub));
}

// ---------------------------------------------------------------------------
// URLs
// ---------------------------------------------------------------------------

#[test]
fn builds_github_url() {
    let config = UserConfig::default();
    let remote = parse_remote("origin", "git@github.com:owner/repo.git", &config).unwrap();
    let url = build_issue_url("123", &Platform::GitHub, Some(&remote), &config).unwrap();
    assert_eq!(url, "https://github.com/owner/repo/issues/123");

    let repo_url = build_repository_url(&Platform::GitHub, Some(&remote)).unwrap();
    assert_eq!(repo_url, "https://github.com/owner/repo");
}

#[test]
fn builds_gitlab_url_with_nested_project() {
    let config = UserConfig::default();
    let remote = parse_remote("origin", "git@gitlab.com:group/subgroup/app.git", &config).unwrap();
    let url = build_issue_url("456", &Platform::GitLab, Some(&remote), &config).unwrap();
    assert_eq!(url, "https://gitlab.com/group/subgroup/app/-/issues/456");

    let repo_url = build_repository_url(&Platform::GitLab, Some(&remote)).unwrap();
    assert_eq!(repo_url, "https://gitlab.com/group/subgroup/app");
}

#[test]
fn builds_bitbucket_gitee_and_redmine_urls() {
    let config = UserConfig {
        redmine_base_url: Some("https://redmine.company.com/".to_string()),
        ..UserConfig::default()
    };

    let bitbucket = parse_remote("origin", "git@bitbucket.org:team/app.git", &config).unwrap();
    assert_eq!(
        build_issue_url("7", &Platform::Bitbucket, Some(&bitbucket), &config).unwrap(),
        "https://bitbucket.org/team/app/issues/7"
    );

    let gitee = parse_remote("origin", "git@gitee.com:team/app.git", &config).unwrap();
    assert_eq!(
        build_issue_url("8", &Platform::Gitee, Some(&gitee), &config).unwrap(),
        "https://gitee.com/team/app/issues/8"
    );

    assert_eq!(
        build_issue_url("9", &Platform::Redmine, None, &config).unwrap(),
        "https://redmine.company.com/issues/9"
    );
}

#[test]
fn builds_custom_url_with_template_placeholders_and_encoding() {
    let config = UserConfig {
        redmine_base_url: Some("https://redmine.company.com/".to_string()),
        custom_platforms: vec![CustomPlatform {
            name: "custom".to_string(),
            host_patterns: vec!["tracker.example.com".to_string()],
            url_template: "{redmine_base_url}/projects/{project}/owners/{owner}/repos/{repo}/issues/{id}?host={host}".to_string(),
        }],
        ..UserConfig::default()
    };
    let remote = parse_remote("origin", "https://tracker.example.com/team/app repo.git", &config).unwrap();

    let url = build_issue_url("ABC 1", &Platform::Custom("custom".to_string()), Some(&remote), &config).unwrap();

    assert_eq!(
        url,
        "https://redmine.company.com/projects/team/app%20repo/owners/team/repos/app%20repo/issues/ABC%201?host=tracker.example.com"
    );
}

#[test]
fn resolves_custom_platform_names_case_insensitively() {
    let config = UserConfig {
        custom_platforms: vec![CustomPlatform {
            name: "Jira".to_string(),
            host_patterns: Vec::new(),
            url_template: "https://jira.example.com/browse/{id}".to_string(),
        }],
        ..UserConfig::default()
    };

    let url = build_issue_url("ABC-123", &Platform::Custom("jira".to_string()), None, &config).unwrap();

    assert_eq!(url, "https://jira.example.com/browse/ABC-123");
}

#[test]
fn resolves_platform_precedence() {
    let config = UserConfig {
        fallback_platform: Some("redmine".to_string()),
        ..UserConfig::default()
    };
    let remote = parse_remote("origin", "git@github.com:owner/repo.git", &config).unwrap();

    assert_eq!(
        resolve_platform(Some(Platform::GitLab), Some(Platform::GitHub), Some(&remote), &config).unwrap(),
        Platform::GitLab
    );
    assert_eq!(
        resolve_platform(None, Some(Platform::GitHub), Some(&remote), &config).unwrap(),
        Platform::GitHub
    );
    assert_eq!(resolve_platform(None, None, Some(&remote), &config).unwrap(), Platform::GitHub);
    assert_eq!(resolve_platform(None, None, None, &config).unwrap(), Platform::Redmine);
}

#[test]
fn reports_platform_and_url_build_errors() {
    let config = UserConfig::default();
    let github_error = build_issue_url("1", &Platform::GitHub, None, &config).unwrap_err();
    assert!(
        matches!(github_error, IssueJumperError::UrlBuildFailed(message) if message.contains("without Git remote"))
    );

    let repository_error = build_repository_url(&Platform::Bitbucket, None).unwrap_err();
    assert!(
        matches!(repository_error, IssueJumperError::UrlBuildFailed(message) if message.contains("Bitbucket") || message.contains("bitbucket"))
    );

    let redmine_error = build_issue_url("1", &Platform::Redmine, None, &config).unwrap_err();
    assert!(
        matches!(redmine_error, IssueJumperError::UrlBuildFailed(message) if message.contains("redmine_base_url"))
    );

    let custom_error =
        build_issue_url("1", &Platform::Custom("missing".to_string()), None, &config).unwrap_err();
    assert!(
        matches!(custom_error, IssueJumperError::UrlBuildFailed(message) if message.contains("custom_platforms"))
    );

    let unresolved = resolve_platform(None, None, None, &config).unwrap_err();
    assert!(matches!(unresolved, IssueJumperError::PlatformUnresolved));
}

#[test]
fn rejects_unresolved_template_placeholders_and_non_http_urls() {
    let config = UserConfig {
        custom_platforms: vec![CustomPlatform {
            name: "bad-placeholder".to_string(),
            host_patterns: Vec::new(),
            url_template: "https://example.com/{missing}/{id}".to_string(),
        }],
        ..UserConfig::default()
    };

    let err = build_issue_url("1", &Platform::Custom("bad-placeholder".to_string()), None, &config).unwrap_err();
    assert!(
        matches!(err, IssueJumperError::UrlBuildFailed(message) if message.contains("unresolved placeholder"))
    );

    let config = UserConfig {
        custom_platforms: vec![CustomPlatform {
            name: "bad-scheme".to_string(),
            host_patterns: Vec::new(),
            url_template: "file:///tmp/{id}".to_string(),
        }],
        ..UserConfig::default()
    };
    let err = build_issue_url("1", &Platform::Custom("bad-scheme".to_string()), None, &config).unwrap_err();
    assert!(
        matches!(err, IssueJumperError::UrlBuildFailed(message) if message.contains("http:// or https://"))
    );
}

// ---------------------------------------------------------------------------
// Configuration files
// ---------------------------------------------------------------------------

#[test]
fn returns_expected_config_paths() {
    let paths = project_config_paths("/repo", PathStyle::Unix);

    assert_eq!(paths[0], "/repo/.zed/issue-jumper.json");
    assert_eq!(paths[1], "/repo/.issue-jumper.json");
}

#[test]
fn global_config_path_prefers_appdata_then_xdg_then_home() {
    let s = |v: &str| Some(v.to_string());
    let unix = PathStyle::Unix;
    assert_eq!(global_config_path(s("C:/AppData"), s("/x"), s("/h"), unix).as_deref(), Some("C:/AppData/issue-jumper/config.json"));
    assert_eq!(global_config_path(None, s("/x/"), s("/h"), unix).as_deref(), Some("/x/issue-jumper/config.json"));
    assert_eq!(global_config_path(None, None, s("/h"), unix).as_deref(), Some("/h/.config/issue-jumper/config.json"));
    assert_eq!(global_config_path(None, None, None, unix), None);
    assert_eq!(
        global_config_path(s("C:\\Users\\me\\AppData\\Roaming"), None, None, PathStyle::Windows).as_deref(),
        Some("C:\\Users\\me\\AppData\\Roaming\\issue-jumper\\config.json")
    );
}

#[test]
fn loads_default_when_config_is_missing() {
    let config = load_config(None, None);
    assert!(config.fallback_platform.is_none());
    assert!(config.issue_rules.is_empty());
}

#[test]
fn project_config_can_clear_inherited_config() {
    let global = UserConfig {
        fallback_platform: Some("redmine".to_string()),
        redmine_base_url: Some("https://redmine.global.example.com".to_string()),
        issue_rules: vec![RawIssueRule {
            name: "global-redmine".to_string(),
            pattern: "global-(?P<id>\\d+)".to_string(),
            platform: Some("redmine".to_string()),
        }],
        custom_platforms: vec![CustomPlatform {
            name: "jira".to_string(),
            host_patterns: Vec::new(),
            url_template: "https://jira.example.com/browse/{id}".to_string(),
        }],
        ..UserConfig::default()
    };
    let project = UserConfig {
        clear_inherited_config: true,
        fallback_platform: Some("github".to_string()),
        ..UserConfig::default()
    };

    let config = load_config(Some(global), Some(project));

    assert_eq!(config.fallback_platform.as_deref(), Some("github"));
    assert!(config.redmine_base_url.is_none());
    assert!(config.issue_rules.is_empty());
    assert!(config.custom_platforms.is_empty());
    assert!(!config.clear_inherited_config);
}

#[test]
fn merges_global_config_with_project_override() {
    let rule = |name: &str, pattern: &str| RawIssueRule {
        name: name.to_string(),
        pattern: pattern.to_string(),
        platform: Some("redmine".to_string()),
    };
    let global = UserConfig {
        redmine_base_url: Some("https://redmine.global.example.com".to_string()),
        issue_rules: vec![
            rule("shared-redmine", "global-(?P<id>\\d+)"),
            rule("disabled-global-redmine", "disabled-(?P<id>\\d+)"),
        ],
        ..UserConfig::default()
    };
    let project = UserConfig {
        redmine_base_url: Some("https://redmine.project.example.com".to_string()),
        disabled_rules: vec!["disabled-global-redmine".to_string()],
        issue_rules: vec![rule("shared-redmine", "project-(?P<id>\\d+)")],
        ..UserConfig::default()
    };

    let config = load_config(Some(global), Some(project));

    assert_eq!(config.redmine_base_url.as_deref(), Some("https://redmine.project.example.com"));
    assert_eq!(config.issue_rules.len(), 2);
    assert_eq!(config.issue_rules[0].name, "shared-redmine");
    assert_eq!(config.issue_rules[0].pattern, "project-(?P<id>\\d+)");
    assert_eq!(config.issue_rules[1].name, "disabled-global-redmine");
    assert_eq!(config.disabled_rules, vec!["disabled-global-redmine".to_string()]);
}

#[test]
fn disabled_rule_lists_accumulate() {
    let global = UserConfig { disabled_rules: vec!["g".to_string()], ..UserConfig::default() };
    let project = UserConfig { disabled_rules: vec!["p".to_string()], ..UserConfig::default() };
    let config = load_config(Some(global), Some(project));
    assert_eq!(config.disabled_rules, vec!["g".to_string(), "p".to_string()]);
}

// ---------------------------------------------------------------------------
// Lint
// ---------------------------------------------------------------------------

fn explicit(path: &str, config: UserConfig) -> ExplicitFile {
    ExplicitFile { path: path.to_string(), contents: Some(Ok(config)) }
}

fn has_error(report: &issue_jumper::config::ConfigLintReport, text: &str) -> bool {
    report.errors.iter().any(|error| error.message.contains(text))
}

#[test]
fn tests_lint_accepts_valid_explicit_config() {
    let config = UserConfig {
        fallback_platform: Some("jira".to_string()),
        issue_rules: vec![RawIssueRule {
            name: "jira-ticket".to_string(),
            pattern: "(?P<id>[A-Z]+-\\d+)".to_string(),
            platform: Some("jira".to_string()),
        }],
        custom_platforms: vec![CustomPlatform {
            name: "jira".to_string(),
            host_patterns: vec!["jira.example.com".to_string()],
            url_template: "https://jira.example.com/browse/{id}".to_string(),
        }],
        ..UserConfig::default()
    };
    let report = lint_explicit_config_paths(&vec![explicit("/d/config.json", config)]);
    assert!(report.is_ok(), "{:?}", report.errors);
    assert_eq!(report.checked_paths.len(), 1);
}

#[test]
fn lint_rejects_invalid_rule_regex() {
    let config = UserConfig {
        issue_rules: vec![RawIssueRule {
            name: "bad-regex".to_string(),
            pattern: "(?P<id>".to_string(),
            platform: None,
        }],
        ..UserConfig::default()
    };
    let report = lint_explicit_config_paths(&vec![explicit("/d/config.json", config)]);
    assert!(!report.is_ok());
    assert!(has_error(&report, "invalid regex"));
}

#[test]
fn lint_rejects_unknown_platform_reference() {
    let config = UserConfig { fallback_platform: Some("missing".to_string()), ..UserConfig::default() };
    let report = lint_explicit_config_paths(&vec![explicit("/d/config.json", config)]);
    assert!(!report.is_ok());
    assert!(has_error(&report, "unknown platform"));
}

#[test]
fn lint_rejects_duplicate_custom_platform_names_ignoring_case() {
    let platform = |name: &str, url: &str| CustomPlatform {
        name: name.to_string(),
        host_patterns: Vec::new(),
        url_template: url.to_string(),
    };
    let config = UserConfig {
        custom_platforms: vec![
            platform("Jira", "https://jira.example.com/browse/{id}"),
            platform("jira", "https://jira-alt.example.com/browse/{id}"),
        ],
        ..UserConfig::default()
    };
    let report = lint_explicit_config_paths(&vec![explicit("/d/config.json", config)]);
    assert!(!report.is_ok());
    assert!(has_error(&report, "defined more than once"));
}

#[test]
fn lint_rejects_unmatched_url_template_braces() {
    let config = UserConfig {
        custom_platforms: vec![CustomPlatform {
            name: "jira".to_string(),
            host_patterns: Vec::new(),
            url_template: "https://jira.example.com/browse/{id}}".to_string(),
        }],
        ..UserConfig::default()
    };
    let report = lint_explicit_config_paths(&vec![explicit("/d/config.json", config)]);
    assert!(!report.is_ok());
    assert!(has_error(&report, "unmatched `}`"));
}

#[test]
fn lint_allows_project_rule_to_use_global_custom_platform() {
    let global = UserConfig {
        custom_platforms: vec![CustomPlatform {
            name: "jira".to_string(),
            host_patterns: vec!["jira.example.com".to_string()],
            url_template: "https://jira.example.com/browse/{id}".to_string(),
        }],
        ..UserConfig::default()
    };
    let project = UserConfig {
        issue_rules: vec![RawIssueRule {
            name: "jira-ticket".to_string(),
            pattern: "(?P<id>[A-Z]+-\\d+)".to_string(),
            platform: Some("jira".to_string()),
        }],
        ..UserConfig::default()
    };
    let report = lint_discovered_config(
        Some(ConfigFile { path: "/home/.config/issue-jumper/config.json".to_string(), config: Ok(global) }),
        vec![ConfigFile { path: "/repo/.issue-jumper.json".to_string(), config: Ok(project) }],
    );
    assert!(report.is_ok(), "{:?}", report.errors);
}

#[test]
fn lint_reports_missing_explicit_file() {
    let report = lint_explicit_config_paths(&vec![ExplicitFile { path: "/nope.json".to_string(), contents: None }]);
    assert!(!report.is_ok());
}

// ---------------------------------------------------------------------------
// Browser
// ---------------------------------------------------------------------------

#[test]
fn rejects_non_http_urls() {
    let err = open_url("file:///tmp/x", HostOs::Other).unwrap_err();
    assert!(matches!(err, IssueJumperError::BrowserOpenFailed(message) if message.contains("non-http")));
}

#[test]
fn builds_platform_command_and_handles_success() {
    let command: BrowserCommand = open_url("https://example.com/issue/1", HostOs::Other).unwrap();
    assert_eq!(command.program, "xdg-open");
    assert!(command.args.iter().any(|arg| arg == "https://example.com/issue/1"));
    let outcome = OpenerOutcome::Exited { success: true, status: "exit status: 0".to_string() };
    opener_result("https://example.com/issue/1", &outcome).unwrap();
}

#[test]
fn accepts_http_urls() {
    let command = open_url("http://example.com/issue/1", HostOs::MacOs).unwrap();
    assert_eq!(command.program, "open");
    assert_eq!(command.args, vec!["http://example.com/issue/1"]);
    let command = open_url("http://example.com/issue/1", HostOs::Windows).unwrap();
    assert_eq!(command.program, "cmd");
    assert_eq!(command.args, vec!["/C", "start", "", "http://example.com/issue/1"]);
}

#[test]
fn reports_non_zero_opener_status() {
    let outcome = OpenerOutcome::Exited { success: false, status: "exit status: 1".to_string() };
    let err = opener_result("https://example.com", &outcome).unwrap_err();
    assert!(matches!(err, IssueJumperError::BrowserOpenFailed(message) if message.contains("exit status")));
}

#[test]
fn reports_opener_io_error() {
    let outcome = OpenerOutcome::Failed { error: "missing opener".to_string() };
    let err = opener_result("https://example.com", &outcome).unwrap_err();
    assert!(
        matches!(err, IssueJumperError::BrowserOpenFailed(message) if message == "URL: https://example.com; missing opener")
    );
}

#[test]
fn a_named_rule_is_the_only_one_tried() {
    let config = UserConfig::default();
    let matched = extract_issue("feature/GH-123-issue-9", &config, Some("issue-prefix")).unwrap();
    assert_eq!(matched.issue_id, "9");
    assert_eq!(matched.rule_name, "issue-prefix");
    let err = extract_issue("feature/GH-123", &config, Some("issue-prefix")).unwrap_err();
    assert!(matches!(err, IssueJumperError::NoMatchingRule(_)));
}

#[test]
fn rejects_invalid_repo_path() {
    let err = GitReader::with_git_binary("/definitely/not/a/repo".to_string(), "git".to_string(), false)
        .unwrap_err();
    assert!(matches!(err, IssueJumperError::RepoPathInvalid(path) if path == "/definitely/not/a/repo"));
}

#[test]
fn encodes_owner_and_repo_in_issue_urls() {
    let config = UserConfig::default();
    let remote = parse_remote("origin", "https://github.com/my org/my repo.git", &config).unwrap();
    assert_eq!(
        build_issue_url("1", &Platform::GitHub, Some(&remote), &config).unwrap(),
        "https://github.com/my%20org/my%20repo/issues/1"
    );
    let remote = parse_remote("origin", "https://bitbucket.org/a b/c.git", &config).unwrap();
    assert_eq!(
        build_issue_url("2", &Platform::Bitbucket, Some(&remote), &config).unwrap(),
        "https://bitbucket.org/a%20b/c/issues/2"
    );
}

#[test]
fn windows_paths_join_with_backslashes() {
    assert_eq!(project_config_paths("C:\\repo", PathStyle::Windows), vec![
        "C:\\repo\\.zed\\issue-jumper.json".to_string(),
        "C:\\repo\\.issue-jumper.json".to_string(),
    ]);
    assert_eq!(join_path("C:", "x", PathStyle::Windows), "C:x");
    assert_eq!(join_path("C:/dir/", "x", PathStyle::Windows), "C:/dir/x");
    assert_eq!(join_path("", "x", PathStyle::Unix), "x");
    assert_eq!(join_path("/a", "x", PathStyle::Unix), "/a/x");
}

#[test]
fn discovered_paths_put_the_global_file_first() {
    let paths = discovered_config_paths("/repo", Some("/h/.config/issue-jumper/config.json".to_string()), PathStyle::Unix);
    assert_eq!(paths, vec![
        "/h/.config/issue-jumper/config.json".to_string(),
        "/repo/.zed/issue-jumper.json".to_string(),
        "/repo/.issue-jumper.json".to_string(),
    ]);
    assert_eq!(discovered_config_paths("/repo", None, PathStyle::Unix).len(), 2);
}

#[test]
fn remote_lookup_stops_at_the_first_configured_remote() {
    let reader = GitReader::new("/r".to_string(), true).unwrap();
    assert_eq!(reader.first_remote(), "origin");
    let step = reader.next_remote(0, &output(true, "git@github.com:o/r.git\n", ""));
    assert!(matches!(step, RemoteStep::Found(u) if u.name == "origin" && u.url == "git@github.com:o/r.git"));
    let step = reader.next_remote(0, &output(false, "", "error: No such remote"));
    assert!(matches!(step, RemoteStep::Ask(n) if n == "upstream"));
    let step = reader.next_remote(1, &output(true, "https://x/y.git", ""));
    assert!(matches!(step, RemoteStep::Found(u) if u.name == "upstream"));
    assert!(matches!(reader.next_remote(1, &output(true, "  ", "")), RemoteStep::NoRemote));
}

#[test]
fn url_template_lint_accepts_only_complete_http_templates() {
    let platform = |template: &str| CustomPlatform {
        name: "jira".to_string(),
        host_patterns: Vec::new(),
        url_template: template.to_string(),
    };
    let mut out = Vec::new();
    issue_jumper::lint::lint_url_template(&platform("https://jira.example.com/browse/{id}"), &mut out);
    assert!(out.is_empty());
    issue_jumper::lint::lint_url_template(&platform("{redmine_base_url}/x/{id}"), &mut out);
    assert!(out.is_empty());
    issue_jumper::lint::lint_url_template(&platform("ftp://x/{nope}"), &mut out);
    assert_eq!(out.len(), 3);
    assert!(out[0].contains("must include `{id}`"));
    assert!(out[1].contains("must start with"));
    assert!(out[2].contains("unsupported placeholder `{nope}`"));
}

#[test]
fn parsed_paths_lose_outer_slashes_and_git_suffix() {
    let config = UserConfig::default();
    let remote = parse_remote("up", "https://example.com//group/sub/app.git/", &config).unwrap();
    assert_eq!(remote.remote_name, "up");
    assert_eq!(remote.original_url, "https://example.com//group/sub/app.git/");
    assert_eq!(remote.path, "group/sub/app.git");
    assert_eq!(remote.owner.as_deref(), Some("group"));
    assert_eq!(remote.repo.as_deref(), Some("app.git"));
    assert_eq!(remote.project.as_deref(), Some("group/sub/app.git"));
}
