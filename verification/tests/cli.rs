use issue_jumper::cli::config_lint::{parse_lint_args, run_config_command};
use issue_jumper::cli::install_zed;
use issue_jumper::cli::integration::{self, editor_snippets, generic_examples, parse_target, sections, shell_quote, IntegrationTarget, Section};
use issue_jumper::cli::{self, parse_jump_args, CliCommand};
use issue_jumper::error::IssueJumperError;
use issue_jumper::platform::Platform;
use issue_jumper::zed::{install_zed, task_label};

fn strings(items: &[&str]) -> Vec<String> {
    items.iter().map(|s| s.to_string()).collect()
}

#[test]
fn prints_help_without_command() {
    let command = cli::run(&Vec::new()).unwrap();
    assert!(matches!(command, CliCommand::Help));
}

#[test]
fn prints_help_for_help_commands() {
    for command in ["help", "-h", "--help"] {
        let parsed = cli::run(&vec![command.to_string()]).unwrap();
        assert!(matches!(parsed, CliCommand::Help));
    }
}

#[test]
fn rejects_unknown_command() {
    let err = cli::run(&vec!["missing".to_string()]).unwrap_err();
    assert!(
        matches!(err, IssueJumperError::Usage(message) if message.contains("Unknown command"))
    );
}

#[test]
fn parses_jump_arguments() {
    let parsed = parse_jump_args(&[
        "--repo".to_string(),
        "/tmp/repo".to_string(),
        "--platform".to_string(),
        "github".to_string(),
        "--rule".to_string(),
        "gh".to_string(),
        "--print-url".to_string(),
    ])
    .unwrap();

    assert_eq!(parsed.repo.unwrap(), "/tmp/repo");
    assert_eq!(parsed.platform.unwrap(), Platform::GitHub);
    assert_eq!(parsed.rule.as_deref(), Some("gh"));
    assert!(parsed.print_url);
}

#[test]
fn rejects_missing_jump_argument_values() {
    for arg in ["--repo", "--platform", "--rule"] {
        let err = parse_jump_args(&[arg.to_string()]).unwrap_err();
        assert!(matches!(err, IssueJumperError::Usage(_)));
    }
}

#[test]
fn rejects_unknown_open_argument() {
    let err = cli::open::run(&["--bad".to_string()]).unwrap_err();
    assert!(matches!(err, IssueJumperError::Usage(_)));
}

#[test]
fn config_command_requires_lint_subcommand() {
    let err = run_config_command(&[]).unwrap_err();
    assert!(matches!(err, IssueJumperError::Usage(_)));
}

#[test]
fn parse_lint_rejects_missing_values() {
    for arg in ["--repo", "--path"] {
        let err = parse_lint_args(&[arg.to_string()]).unwrap_err();
        assert!(matches!(err, IssueJumperError::Usage(_)));
    }
}

#[test]
fn prints_zed_config_snippets() {
    let options = install_zed::run(&["--print".to_string()]).unwrap();
    assert!(options.print);
    let plan = install_zed(options, "/usr/local/bin/issue-jumper", None).unwrap();
    assert!(plan.write_to.is_none());
}

#[test]
fn accepts_custom_key_when_printing() {
    let options = install_zed::run(&[
        "--key".to_string(),
        "cmd-i".to_string(),
        "--force".to_string(),
        "--print".to_string(),
    ])
    .unwrap();
    assert_eq!(options.key, "cmd-i");
    assert!(options.force);
    assert!(options.print);
    let plan = install_zed(options, "/usr/local/bin/issue-jumper", None).unwrap();
    assert_eq!(plan.keymap.key, "cmd-i");
}

#[test]
fn rejects_missing_key_value() {
    let err = install_zed::run(&["--key".to_string()]).unwrap_err();
    assert!(matches!(err, IssueJumperError::Usage(_)));
}

#[test]
fn rejects_unknown_argument() {
    let err = install_zed::run(&["--bad".to_string()]).unwrap_err();
    assert!(matches!(err, IssueJumperError::Usage(_)));
}

#[test]
fn accepts_known_targets() {
    assert_eq!(parse_target("vscode").unwrap(), IntegrationTarget::VsCode);
    assert_eq!(parse_target("cursor").unwrap(), IntegrationTarget::Cursor);
    assert_eq!(parse_target("generic").unwrap(), IntegrationTarget::Generic);
    assert_eq!(parse_target("all").unwrap(), IntegrationTarget::All);
}

#[test]
fn rejects_unknown_target() {
    let err = parse_target("missing").unwrap_err();
    assert!(matches!(err, IssueJumperError::Usage(_)));
}

#[test]
fn prints_vscode_example() {
    let request = integration::run(
        &[
            "print".to_string(),
            "--target".to_string(),
            "vscode".to_string(),
            "--command".to_string(),
            "/opt/homebrew/bin/issue-jumper".to_string(),
        ],
        "issue-jumper",
    )
    .unwrap();
    assert_eq!(request.target, IntegrationTarget::VsCode);
    assert_eq!(request.command, "/opt/homebrew/bin/issue-jumper");
}

#[test]
fn quotes_shell_commands_with_spaces() {
    assert_eq!(
        shell_quote("/Applications/Issue Jumper"),
        "'/Applications/Issue Jumper'"
    );
}

// Further cases of the command-line parsers.

#[test]
fn dispatches_subcommands_with_their_arguments() {
    let command = cli::run(&strings(&["url", "--print-url"])).unwrap();
    assert!(matches!(command, CliCommand::Url(args) if args == strings(&["--print-url"])));
    let command = cli::run(&strings(&["config", "lint"])).unwrap();
    assert!(matches!(command, CliCommand::Config(args) if args == strings(&["lint"])));
    let command = cli::run(&strings(&["integration"])).unwrap();
    assert!(matches!(command, CliCommand::Integration(args) if args.is_empty()));
    let command = cli::run(&strings(&["--version"])).unwrap();
    assert!(matches!(command, CliCommand::Version));
}

#[test]
fn unknown_command_message_names_the_command() {
    let err = cli::run(&strings(&["frobnicate"])).unwrap_err();
    assert!(matches!(err, IssueJumperError::Usage(m) if m == "Unknown command `frobnicate`"));
}

#[test]
fn later_jump_options_win() {
    let parsed = parse_jump_args(&strings(&["--rule", "a", "--rule", "b", "--platform", "Jira"])).unwrap();
    assert_eq!(parsed.rule.as_deref(), Some("b"));
    assert_eq!(parsed.platform.unwrap(), Platform::Custom("jira".to_string()));
    assert!(!parsed.print_url);
    let err = parse_jump_args(&strings(&["--repo"])).unwrap_err();
    assert!(matches!(err, IssueJumperError::Usage(m) if m == "--repo requires a value"));
}

#[test]
fn url_and_doctor_parse_the_same_options() {
    let request = cli::url::run(&strings(&["--repo", "/r", "--print-url"])).unwrap();
    assert!(request.print_url);
    assert_eq!(request.options.repo.as_deref(), Some("/r"));
    let options = cli::doctor::run(&strings(&["--rule", "gh"])).unwrap();
    assert_eq!(options.rule_name.as_deref(), Some("gh"));
    assert!(cli::doctor::run(&strings(&["--bad"])).is_err());
}

#[test]
fn config_lint_collects_paths_in_order() {
    let parsed = run_config_command(&strings(&["lint", "--path", "a.json", "--repo", "/r", "--path", "b.json"])).unwrap();
    assert_eq!(parsed.repo.as_deref(), Some("/r"));
    assert_eq!(parsed.paths, strings(&["a.json", "b.json"]));
    let err = run_config_command(&strings(&["check"])).unwrap_err();
    assert!(matches!(err, IssueJumperError::Usage(m) if m == "Unknown config subcommand `check`"));
    let err = parse_lint_args(&strings(&["--bad"])).unwrap_err();
    assert!(matches!(err, IssueJumperError::Usage(m) if m == "Unknown config lint argument `--bad`"));
}

#[test]
fn install_zed_defaults_to_double_alt() {
    let options = install_zed::run(&[]).unwrap();
    assert_eq!(options.key, "alt alt");
    assert!(!options.force);
    assert!(!options.print);
    let err = install_zed::run(&strings(&["--nope"])).unwrap_err();
    assert!(matches!(err, IssueJumperError::Usage(m) if m == "Unknown install-zed argument `--nope`"));
}

#[test]
fn integration_targets_ignore_case_and_have_aliases() {
    assert_eq!(parse_target("VS-Code").unwrap(), IntegrationTarget::VsCode);
    assert_eq!(parse_target("CODE").unwrap(), IntegrationTarget::VsCode);
    assert_eq!(parse_target("Shell").unwrap(), IntegrationTarget::Generic);
    let err = parse_target("Emacs").unwrap_err();
    assert!(matches!(err, IssueJumperError::Usage(m) if m == "Unknown integration target `emacs`"));
    let request = integration::run(&[], "/bin/issue-jumper").unwrap();
    assert_eq!(request.target, IntegrationTarget::All);
    assert_eq!(request.command, "/bin/issue-jumper");
    let err = integration::run(&strings(&["--target", "nope"]), "x").unwrap_err();
    assert!(matches!(err, IssueJumperError::Usage(m) if m == "Unknown integration target `nope`"));
    let err = integration::run(&strings(&["--command"]), "x").unwrap_err();
    assert!(matches!(err, IssueJumperError::Usage(m) if m == "--command requires a value"));
}

#[test]
fn shell_quote_keeps_safe_words_and_escapes_quotes() {
    assert_eq!(shell_quote("/usr/local/bin/issue-jumper"), "/usr/local/bin/issue-jumper");
    assert_eq!(shell_quote("it's"), "'it'\\''s'");
    assert_eq!(shell_quote(""), "");
}

#[test]
fn generic_examples_use_the_quoted_command() {
    let lines = generic_examples("/opt/Issue Jumper");
    assert_eq!(lines.len(), 6);
    assert_eq!(lines[2], "'/opt/Issue Jumper' open --repo /absolute/path/to/repo");
    assert_eq!(lines[3], "");
    assert_eq!(lines[5], "'/opt/Issue Jumper' url --repo /absolute/path/to/repo --print-url");
    assert_eq!(task_label(), "Issue Jumper: Open Current Issue");
}

#[test]
fn integration_sections_follow_the_target() {
    assert_eq!(sections(IntegrationTarget::All), vec![Section::VsCode, Section::Cursor, Section::Generic]);
    assert_eq!(sections(IntegrationTarget::Cursor), vec![Section::Cursor]);
    let s = editor_snippets(Section::Cursor, "/bin/ij");
    assert_eq!(s.heading, "Cursor integration snippets");
    assert_eq!(s.command, "/bin/ij");
    assert_eq!(s.args, vec!["open", "--repo", "${workspaceFolder}"]);
    assert_eq!(s.task_label, "Issue Jumper: Open Current Issue");
    assert_eq!(editor_snippets(Section::VsCode, "x").heading, "VS Code integration snippets");
}

#[test]
fn lint_outcome_reports_files_and_counts_problems() {
    use_lint_outcome();
}

fn use_lint_outcome() {
    let mut report = issue_jumper::config::ConfigLintReport::new();
    let ok = issue_jumper::cli::config_lint::lint_outcome(&report);
    assert_eq!(ok.lines, strings(&["Issue Jumper config lint", "No Issue Jumper config files found.", "OK"]));
    assert!(ok.problems.is_empty());
    assert!(ok.result.is_ok());

    report.checked_paths.push("/a.json".to_string());
    for n in 0..12 {
        report.errors.push(issue_jumper::config::ConfigLintError {
            path: if n == 0 { Some("/a.json".to_string()) } else { None },
            message: "bad".to_string(),
        });
    }
    let failed = issue_jumper::cli::config_lint::lint_outcome(&report);
    assert_eq!(failed.lines, strings(&["Issue Jumper config lint", "Checked: /a.json"]));
    assert_eq!(failed.problems[0], "/a.json: bad");
    assert_eq!(failed.problems[1], "bad");
    assert!(matches!(failed.result, Err(IssueJumperError::InvalidConfig(m)) if m == "config lint failed with 12 error(s)"));
}

fn ticket_file(pattern: &str, platform: Option<&str>) -> issue_jumper::lint::ExplicitFile {
    issue_jumper::lint::ExplicitFile {
        path: "/tmp/issue-jumper.json".to_string(),
        contents: Some(Ok(issue_jumper::config::UserConfig {
            issue_rules: vec![issue_jumper::config::RawIssueRule {
                name: "ticket".to_string(),
                pattern: pattern.to_string(),
                platform: platform.map(str::to_string),
            }],
            ..issue_jumper::config::UserConfig::default()
        })),
    }
}

#[test]
fn config_lint_lint_accepts_valid_explicit_config() {
    let parsed = parse_lint_args(&strings(&["--path", "/tmp/issue-jumper.json"])).unwrap();
    assert_eq!(parsed.paths, strings(&["/tmp/issue-jumper.json"]));
    let report = issue_jumper::lint::lint_explicit_config_paths(&vec![ticket_file("TICKET-(?P<id>\\d+)", Some("github"))]);
    issue_jumper::cli::config_lint::lint_outcome(&report).result.unwrap();
}

#[test]
fn lint_rejects_invalid_explicit_config() {
    let report = issue_jumper::lint::lint_explicit_config_paths(&vec![ticket_file("TICKET-(\\d+)", None)]);
    let err = issue_jumper::cli::config_lint::lint_outcome(&report).result.unwrap_err();
    assert!(matches!(err, IssueJumperError::InvalidConfig(message) if message.contains("lint failed")));
}

#[test]
fn only_the_long_version_flag_is_known() {
    let err = cli::run(&strings(&["-V"])).unwrap_err();
    assert!(matches!(err, IssueJumperError::Usage(m) if m == "Unknown command `-V`"));
}
