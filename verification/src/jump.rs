//! The main flow: from the branch, the configuration and the remote to the
//! URL to open.

use vstd::prelude::*;
use crate::config::{ConfigView, UserConfig};
use crate::error::{ErrorView, IssueJumperError};
use crate::git::remote::{law_parsed_remote_shape, parse_remote, parse_remote_spec, RemoteInfo, RemoteView};
use crate::git::RemoteUrl;
use crate::issue::{extract_issue, extract_spec, MatchView};
use crate::platform::{Platform, PlatformView};
use crate::url::{
    build_issue_url, build_repository_url, encode_segment, is_http_url, issue_url,
    law_owner_repo_issue_urls, law_repository_urls, platform_choice, repository_url, resolve_platform,
};

verus! {

/// What the user asked for: the repository (none: the current directory),
/// a branch rule to use, and a platform to use.
#[derive(Debug)]
pub struct JumpOptions {
    pub repo: Option<String>,
    pub rule_name: Option<String>,
    pub platform_override: Option<Platform>,
}

impl Default for JumpOptions {
    fn default() -> (o: Self)
        ensures
            o.repo is None,
            o.rule_name is None,
            o.platform_override is None,
    {
        JumpOptions { repo: None, rule_name: None, platform_override: None }
    }
}

/// Where a jump leads: an issue, or the repository page when the branch
/// names no issue.
#[derive(Debug)]
pub enum JumpTarget {
    Issue { issue_id: String, matched_rule: String },
    Repository,
}

/// The outcome of a jump.
#[derive(Debug)]
pub struct JumpResult {
    pub repo: String,
    pub branch: String,
    pub platform: Platform,
    pub target: JumpTarget,
    pub url: String,
    pub remote: Option<RemoteInfo>,
}

/// The mathematical value of a [`JumpTarget`].
pub enum TargetView {
    Issue { issue_id: Seq<char>, matched_rule: Seq<char> },
    Repository,
}

/// The mathematical value of a [`JumpResult`].
pub struct JumpView {
    pub repo: Seq<char>,
    pub branch: Seq<char>,
    pub platform: PlatformView,
    pub target: TargetView,
    pub url: Seq<char>,
    pub remote: Option<RemoteView>,
}

impl View for JumpResult {
    type V = JumpView;

    open spec fn view(&self) -> JumpView {
        JumpView {
            repo: self.repo@,
            branch: self.branch@,
            platform: self.platform@,
            target: match self.target {
                JumpTarget::Issue { issue_id, matched_rule } => TargetView::Issue {
                    issue_id: issue_id@,
                    matched_rule: matched_rule@,
                },
                JumpTarget::Repository => TargetView::Repository,
            },
            url: self.url@,
            remote: match self.remote {
                Some(r) => Some(r@),
                None => None,
            },
        }
    }
}

impl PartialEq for JumpTarget {
    fn eq(&self, other: &Self) -> (r: bool) {
        match self {
            JumpTarget::Issue { issue_id: a, matched_rule: b } => match other {
                JumpTarget::Issue { issue_id: c, matched_rule: d } => a.eq(c) && b.eq(d),
                JumpTarget::Repository => false,
            },
            JumpTarget::Repository => match other {
                JumpTarget::Repository => true,
                _ => false,
            },
        }
    }
}

impl vstd::std_specs::cmp::PartialEqSpecImpl for JumpTarget {
    open spec fn obeys_eq_spec() -> bool {
        true
    }

    open spec fn eq_spec(&self, other: &Self) -> bool {
        target_view(*self) == target_view(*other)
    }
}

impl Eq for JumpTarget {
}

/// The view of a [`JumpTarget`].
pub open spec fn target_view(t: JumpTarget) -> TargetView {
    match t {
        JumpTarget::Issue { issue_id, matched_rule } => TargetView::Issue {
            issue_id: issue_id@,
            matched_rule: matched_rule@,
        },
        JumpTarget::Repository => TargetView::Repository,
    }
}

/// What reading the remote gave: an error, no remote, or a name and a URL.
pub open spec fn remote_read_view(r: Result<Option<RemoteUrl>, IssueJumperError>) -> Result<
    Option<(Seq<char>, Seq<char>)>,
    ErrorView,
> {
    match r {
        Err(e) => Err(e@),
        Ok(None) => Ok(None),
        Ok(Some(u)) => Ok(Some((u.name@, u.url@))),
    }
}

/// The parsed remote, or the error of reading or parsing it.
pub open spec fn parsed_remote(
    read: Result<Option<(Seq<char>, Seq<char>)>, ErrorView>,
    c: ConfigView,
) -> Result<Option<RemoteView>, ErrorView> {
    match read {
        Err(e) => Err(e),
        Ok(None) => Ok(None),
        Ok(Some((name, url))) => match parse_remote_spec(name, url, c.custom_platforms) {
            Ok(r) => Ok(Some(r)),
            Err(e) => Err(e),
        },
    }
}

/// The jump to the repository page when the branch names no issue: it
/// needs a remote that can be read and parsed, on GitHub or GitLab.
pub open spec fn repository_jump(
    repo: Seq<char>,
    branch: Seq<char>,
    c: ConfigView,
    read: Result<Option<(Seq<char>, Seq<char>)>, ErrorView>,
) -> Result<JumpView, ErrorView> {
    match parsed_remote(read, c) {
        Ok(Some(r)) => if r.platform is GitHub || r.platform is GitLab {
            match repository_url(r.platform, Some(r)) {
                Ok(url) => Ok(
                    JumpView {
                        repo,
                        branch,
                        platform: r.platform,
                        target: TargetView::Repository,
                        url,
                        remote: Some(r),
                    },
                ),
                Err(e) => Err(e),
            }
        } else {
            Err(ErrorView::NoMatchingRule(branch))
        },
        _ => Err(ErrorView::NoMatchingRule(branch)),
    }
}

/// `resolve_jump` once the repository, the configuration, the branch and the
/// remote have been read: the issue of the branch on the chosen platform;
/// without a rule name, a branch that names no issue leads to the
/// repository page instead.
pub open spec fn jump_spec(
    rule_name: Option<Seq<char>>,
    platform_override: Option<PlatformView>,
    repo: Seq<char>,
    c: ConfigView,
    branch: Seq<char>,
    read: Result<Option<(Seq<char>, Seq<char>)>, ErrorView>,
) -> Result<JumpView, ErrorView> {
    match extract_spec(branch, c, rule_name) {
        Err(ErrorView::NoMatchingRule(b)) => if rule_name is None {
            repository_jump(repo, b, c, read)
        } else {
            Err(ErrorView::NoMatchingRule(b))
        },
        Err(e) => Err(e),
        Ok(m) => match parsed_remote(read, c) {
            Err(e) => Err(e),
            Ok(rv) => match platform_choice(platform_override, m.platform_hint, rv, c) {
                Err(e) => Err(e),
                Ok(p) => match issue_url(m.issue_id, p, rv, c) {
                    Err(e) => Err(e),
                    Ok(url) => Ok(
                        JumpView {
                            repo,
                            branch,
                            platform: p,
                            target: TargetView::Issue {
                                issue_id: m.issue_id,
                                matched_rule: m.rule_name,
                            },
                            url,
                            remote: rv,
                        },
                    ),
                },
            },
        },
    }
}

/// Parses the remote that was read.
fn resolve_remote(remote: &Option<RemoteUrl>, config: &UserConfig) -> (r: Result<
    Option<RemoteInfo>,
    IssueJumperError,
>)
    ensures
        match r {
            Ok(None) => remote is None,
            Ok(Some(info)) => remote matches Some(u) && parse_remote_spec(
                u.name@,
                u.url@,
                config@.custom_platforms,
            ) == Ok::<RemoteView, ErrorView>(info@),
            Err(e) => remote matches Some(u) && parse_remote_spec(
                u.name@,
                u.url@,
                config@.custom_platforms,
            ) == Err::<RemoteView, ErrorView>(e@),
        },
{
    match remote {
        None => Ok(None),
        Some(u) => match parse_remote(u.name.as_str(), u.url.as_str(), config) {
            Ok(info) => Ok(Some(info)),
            Err(e) => Err(e),
        },
    }
}

/// The jump to the repository page when the branch names no issue.
fn resolve_repository_jump(
    repo: String,
    branch: String,
    config: &UserConfig,
    remote: &Result<Option<RemoteUrl>, IssueJumperError>,
) -> (r: Result<JumpResult, IssueJumperError>)
    ensures
        match r {
            Ok(j) => repository_jump(repo@, branch@, config@, remote_read_view(*remote)) == Ok::<
                JumpView,
                ErrorView,
            >(j@),
            Err(e) => repository_jump(repo@, branch@, config@, remote_read_view(*remote)) == Err::<
                JumpView,
                ErrorView,
            >(e@),
        },
{
    let parsed = match remote {
        Ok(read) => resolve_remote(read, config),
        Err(_) => Ok(None),
    };
    let info = match parsed {
        Ok(Some(info)) => info,
        _ => {
            return Err(IssueJumperError::NoMatchingRule(branch));
        },
    };
    let platform = info.platform.clone();
    let supported = match &platform {
        Platform::GitHub => true,
        Platform::GitLab => true,
        _ => false,
    };
    if !supported {
        return Err(IssueJumperError::NoMatchingRule(branch));
    }
    let url = match build_repository_url(&platform, Some(&info)) {
        Ok(url) => url,
        Err(e) => {
            return Err(e);
        },
    };
    Ok(
        JumpResult {
            repo,
            branch,
            platform,
            target: JumpTarget::Repository,
            url,
            remote: Some(info),
        },
    )
}

/// The view of the options' rule name.
pub open spec fn rule_name_view(o: JumpOptions) -> Option<Seq<char>> {
    match o.rule_name {
        Some(n) => Some(n@),
        None => None,
    }
}

/// The view of the options' platform override.
pub open spec fn override_view(o: JumpOptions) -> Option<PlatformView> {
    match o.platform_override {
        Some(p) => Some(p@),
        None => None,
    }
}

/// Resolves the jump once the repository path, its configuration, the
/// current branch and the remote (as read with `git remote get-url`) are
/// known.
pub fn resolve_jump(
    options: JumpOptions,
    repo: String,
    config: &UserConfig,
    branch: String,
    remote: Result<Option<RemoteUrl>, IssueJumperError>,
) -> (r: Result<JumpResult, IssueJumperError>)
    ensures
        match r {
            Ok(j) => jump_spec(
                rule_name_view(options),
                override_view(options),
                repo@,
                config@,
                branch@,
                remote_read_view(remote),
            ) == Ok::<JumpView, ErrorView>(j@),
            Err(e) => jump_spec(
                rule_name_view(options),
                override_view(options),
                repo@,
                config@,
                branch@,
                remote_read_view(remote),
            ) == Err::<JumpView, ErrorView>(e@),
        },
        r matches Ok(j) ==> is_http_url(j@.url),
        r matches Ok(j) ==> (options.rule_name is Some ==> j@.target is Issue),
        r matches Ok(j) ==> (j@.target is Repository ==> (j@.platform is GitHub
            || j@.platform is GitLab)),
{
    let allow_repository_fallback = options.rule_name.is_none();
    let rule: Option<&str> = match &options.rule_name {
        Some(s) => Some(s.as_str()),
        None => None,
    };
    let issue = match extract_issue(branch.as_str(), config, rule) {
        Ok(issue) => issue,
        Err(IssueJumperError::NoMatchingRule(b)) => {
            if allow_repository_fallback {
                return resolve_repository_jump(repo, b, config, &remote);
            }
            return Err(IssueJumperError::NoMatchingRule(b));
        },
        Err(e) => {
            return Err(e);
        },
    };
    let read = match remote {
        Ok(read) => read,
        Err(e) => {
            return Err(e);
        },
    };
    let info = match resolve_remote(&read, config) {
        Ok(info) => info,
        Err(e) => {
            return Err(e);
        },
    };
    let platform = match resolve_platform(
        options.platform_override,
        issue.platform_hint,
        info.as_ref(),
        config,
    ) {
        Ok(p) => p,
        Err(e) => {
            return Err(e);
        },
    };
    let url = match build_issue_url(issue.issue_id.as_str(), &platform, info.as_ref(), config) {
        Ok(url) => url,
        Err(e) => {
            return Err(e);
        },
    };
    Ok(
        JumpResult {
            repo,
            branch,
            platform,
            target: JumpTarget::Issue { issue_id: issue.issue_id, matched_rule: issue.rule_name },
            url,
            remote: info,
        },
    )
}

// ---------------------------------------------------------------------------
// Laws of the jump
// ---------------------------------------------------------------------------

/// A jump is built from the remote it reports: that remote is the one read
/// and parsed, and the URL is the issue URL (or the repository URL) of the
/// jump's platform for that remote.
pub open spec fn built_from_its_remote(
    j: JumpView,
    c: ConfigView,
    read: Result<Option<(Seq<char>, Seq<char>)>, ErrorView>,
) -> bool {
    &&& match read {
        Ok(Some((name, url))) => parse_remote_spec(name, url, c.custom_platforms) == Ok::<
            RemoteView,
            ErrorView,
        >(j.remote->Some_0) && j.remote is Some,
        Ok(None) => j.remote is None,
        Err(_) => false,
    }
    &&& match j.target {
        TargetView::Issue { issue_id, .. } => issue_url(issue_id, j.platform, j.remote, c) == Ok::<
            Seq<char>,
            ErrorView,
        >(j.url),
        TargetView::Repository => repository_url(j.platform, j.remote) == Ok::<
            Seq<char>,
            ErrorView,
        >(j.url),
    }
}

/// Law: a successful jump reports the remote that was read and parsed, and
/// its URL is built for its platform from that remote.
pub proof fn law_jump_built_from_its_remote(
    rule_name: Option<Seq<char>>,
    platform_override: Option<PlatformView>,
    repo: Seq<char>,
    c: ConfigView,
    branch: Seq<char>,
    read: Result<Option<(Seq<char>, Seq<char>)>, ErrorView>,
)
    ensures
        match jump_spec(rule_name, platform_override, repo, c, branch, read) {
            Ok(j) => built_from_its_remote(j, c, read),
            Err(_) => true,
        },
{
}

/// Law: when the branch names an issue (with no platform hint) and the
/// remote is a GitHub remote with owner `o` and repository `r`, the jump
/// without a platform override leads to
/// `https://github.com/<o>/<r>/issues/<id>`, each part encoded as a path
/// segment, and reports that remote.
pub proof fn law_github_issue_jump(
    rule_name: Option<Seq<char>>,
    repo: Seq<char>,
    c: ConfigView,
    branch: Seq<char>,
    name: Seq<char>,
    url: Seq<char>,
)
    requires
        extract_spec(branch, c, rule_name) is Ok,
        extract_spec(branch, c, rule_name)->Ok_0.platform_hint is None,
        parse_remote_spec(name, url, c.custom_platforms) is Ok,
        parse_remote_spec(name, url, c.custom_platforms)->Ok_0.platform is GitHub,
        parse_remote_spec(name, url, c.custom_platforms)->Ok_0.owner is Some,
        parse_remote_spec(name, url, c.custom_platforms)->Ok_0.repo is Some,
    ensures
        jump_spec(rule_name, None, repo, c, branch, Ok(Some((name, url)))) is Ok,
        jump_spec(rule_name, None, repo, c, branch, Ok(Some((name, url))))->Ok_0.url == "https://github.com/"@
            + encode_segment(parse_remote_spec(name, url, c.custom_platforms)->Ok_0.owner->Some_0)
            + "/"@ + encode_segment(parse_remote_spec(name, url, c.custom_platforms)->Ok_0.repo->Some_0)
            + "/issues/"@ + encode_segment(extract_spec(branch, c, rule_name)->Ok_0.issue_id),
        jump_spec(rule_name, None, repo, c, branch, Ok(Some((name, url))))->Ok_0.remote == Some(
            parse_remote_spec(name, url, c.custom_platforms)->Ok_0,
        ),
        jump_spec(rule_name, None, repo, c, branch, Ok(Some((name, url))))->Ok_0.platform
            == PlatformView::GitHub,
{
    let r = parse_remote_spec(name, url, c.custom_platforms)->Ok_0;
    let m = extract_spec(branch, c, rule_name)->Ok_0;
    law_owner_repo_issue_urls(m.issue_id, Some(r), c);
}

/// Law: when the branch names no issue and no rule was asked for, a remote
/// on GitHub or GitLab leads to its repository page (and is reported); a
/// remote on another platform leaves the branch naming no issue. When a
/// rule was asked for, there is no such fallback.
pub proof fn law_repository_fallback(
    platform_override: Option<PlatformView>,
    repo: Seq<char>,
    c: ConfigView,
    branch: Seq<char>,
    name: Seq<char>,
    url: Seq<char>,
    rule: Seq<char>,
)
    requires
        extract_spec(branch, c, None) == Err::<MatchView, ErrorView>(ErrorView::NoMatchingRule(branch)),
        extract_spec(branch, c, Some(rule)) == Err::<MatchView, ErrorView>(
            ErrorView::NoMatchingRule(branch),
        ),
        parse_remote_spec(name, url, c.custom_platforms) is Ok,
    ensures
        ({
            let r = parse_remote_spec(name, url, c.custom_platforms)->Ok_0;
            let j = jump_spec(None, platform_override, repo, c, branch, Ok(Some((name, url))));
            if r.platform is GitHub || r.platform is GitLab {
                &&& j is Ok
                &&& j->Ok_0.target == TargetView::Repository
                &&& j->Ok_0.platform == r.platform
                &&& j->Ok_0.remote == Some(r)
                &&& Ok::<Seq<char>, ErrorView>(j->Ok_0.url) == repository_url(r.platform, Some(r))
            } else {
                j == Err::<JumpView, ErrorView>(ErrorView::NoMatchingRule(branch))
            }
        }),
        jump_spec(Some(rule), platform_override, repo, c, branch, Ok(Some((name, url)))) == Err::<
            JumpView,
            ErrorView,
        >(ErrorView::NoMatchingRule(branch)),
{
    let r = parse_remote_spec(name, url, c.custom_platforms)->Ok_0;
    law_parsed_remote_shape(name, url, c.custom_platforms);
    law_repository_urls(r.platform, Some(r));
}

} // verus!
