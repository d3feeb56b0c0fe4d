//! The library's error type and its exit codes.

use vstd::prelude::*;
use crate::text::{join2, join3, owned};

verus! {

/// Everything that can go wrong while resolving or opening an issue.
#[derive(Debug)]
pub enum IssueJumperError {
    GitNotFound,
    RepoPathInvalid(String),
    NotGitRepo(String),
    DetachedHead,
    RemoteParseFailed(String),
    NoMatchingRule(String),
    UnknownRule(String),
    InvalidConfig(String),
    PlatformUnresolved,
    UrlBuildFailed(String),
    BrowserOpenFailed(String),
    ZedConfigPathNotFound,
    ZedConfigInvalidJson(String),
    ZedKeyConflict(String),
    Io(String),
    Usage(String),
}

/// The mathematical value of an [`IssueJumperError`].
pub enum ErrorView {
    GitNotFound,
    RepoPathInvalid(Seq<char>),
    NotGitRepo(Seq<char>),
    DetachedHead,
    RemoteParseFailed(Seq<char>),
    NoMatchingRule(Seq<char>),
    UnknownRule(Seq<char>),
    InvalidConfig(Seq<char>),
    PlatformUnresolved,
    UrlBuildFailed(Seq<char>),
    BrowserOpenFailed(Seq<char>),
    ZedConfigPathNotFound,
    ZedConfigInvalidJson(Seq<char>),
    ZedKeyConflict(Seq<char>),
    Io(Seq<char>),
    Usage(Seq<char>),
}

impl View for IssueJumperError {
    type V = ErrorView;

    open spec fn view(&self) -> ErrorView {
        match self {
            IssueJumperError::GitNotFound => ErrorView::GitNotFound,
            IssueJumperError::RepoPathInvalid(s) => ErrorView::RepoPathInvalid(s@),
            IssueJumperError::NotGitRepo(s) => ErrorView::NotGitRepo(s@),
            IssueJumperError::DetachedHead => ErrorView::DetachedHead,
            IssueJumperError::RemoteParseFailed(s) => ErrorView::RemoteParseFailed(s@),
            IssueJumperError::NoMatchingRule(s) => ErrorView::NoMatchingRule(s@),
            IssueJumperError::UnknownRule(s) => ErrorView::UnknownRule(s@),
            IssueJumperError::InvalidConfig(s) => ErrorView::InvalidConfig(s@),
            IssueJumperError::PlatformUnresolved => ErrorView::PlatformUnresolved,
            IssueJumperError::UrlBuildFailed(s) => ErrorView::UrlBuildFailed(s@),
            IssueJumperError::BrowserOpenFailed(s) => ErrorView::BrowserOpenFailed(s@),
            IssueJumperError::ZedConfigPathNotFound => ErrorView::ZedConfigPathNotFound,
            IssueJumperError::ZedConfigInvalidJson(s) => ErrorView::ZedConfigInvalidJson(s@),
            IssueJumperError::ZedKeyConflict(s) => ErrorView::ZedKeyConflict(s@),
            IssueJumperError::Io(s) => ErrorView::Io(s@),
            IssueJumperError::Usage(s) => ErrorView::Usage(s@),
        }
    }
}

/// The process exit code of each error group: 1 business and usage errors,
/// 2 invalid configuration, 3 Git and repository errors, 4 browser opener
/// failures, 5 Zed configuration failures.
pub open spec fn error_exit_code(e: ErrorView) -> i32 {
    match e {
        ErrorView::NoMatchingRule(_) | ErrorView::UnknownRule(_) | ErrorView::PlatformUnresolved
        | ErrorView::UrlBuildFailed(_) => 1,
        ErrorView::InvalidConfig(_) => 2,
        ErrorView::GitNotFound | ErrorView::RepoPathInvalid(_) | ErrorView::NotGitRepo(_)
        | ErrorView::DetachedHead => 3,
        ErrorView::BrowserOpenFailed(_) => 4,
        ErrorView::ZedConfigPathNotFound | ErrorView::ZedConfigInvalidJson(_)
        | ErrorView::ZedKeyConflict(_) => 5,
        ErrorView::RemoteParseFailed(_) | ErrorView::Io(_) | ErrorView::Usage(_) => 1,
    }
}

/// The user-facing text of each error.
pub open spec fn error_message(e: ErrorView) -> Seq<char> {
    match e {
        ErrorView::GitNotFound => "Git was not found in PATH."@,
        ErrorView::RepoPathInvalid(p) => "Repository path is invalid: "@ + p,
        ErrorView::NotGitRepo(p) => "Current Zed worktree is not a Git repository: "@ + p,
        ErrorView::DetachedHead => "Repository is in detached HEAD state; no branch name is available."@,
        ErrorView::RemoteParseFailed(r) => "Failed to parse Git remote URL: "@ + r,
        ErrorView::NoMatchingRule(b) => "No issue ID matched branch \""@ + b + "\"."@,
        ErrorView::UnknownRule(r) => "Unknown issue rule \""@ + r + "\"."@,
        ErrorView::InvalidConfig(m) => "Invalid Issue Jumper config: "@ + m,
        ErrorView::PlatformUnresolved => "Cannot determine issue platform. Configure fallback_platform or pass --platform."@,
        ErrorView::UrlBuildFailed(m) => "Failed to build issue URL: "@ + m,
        ErrorView::BrowserOpenFailed(m) => "Failed to open browser. "@ + m,
        ErrorView::ZedConfigPathNotFound => "Could not locate the Zed configuration directory."@,
        ErrorView::ZedConfigInvalidJson(p) => "Zed config JSON is invalid: "@ + p,
        ErrorView::ZedKeyConflict(k) => "Key \""@ + k + "\" is already bound in Zed keymap.json."@,
        ErrorView::Io(m) => m,
        ErrorView::Usage(m) => m,
    }
}

impl IssueJumperError {
    /// The process exit code for this error.
    pub fn exit_code(&self) -> (code: i32)
        ensures
            code == error_exit_code(self@),
            1 <= code <= 5,
    {
        match self {
            IssueJumperError::NoMatchingRule(_) | IssueJumperError::UnknownRule(_)
            | IssueJumperError::PlatformUnresolved | IssueJumperError::UrlBuildFailed(_) => 1,
            IssueJumperError::InvalidConfig(_) => 2,
            IssueJumperError::GitNotFound | IssueJumperError::RepoPathInvalid(_)
            | IssueJumperError::NotGitRepo(_) | IssueJumperError::DetachedHead => 3,
            IssueJumperError::BrowserOpenFailed(_) => 4,
            IssueJumperError::ZedConfigPathNotFound | IssueJumperError::ZedConfigInvalidJson(_)
            | IssueJumperError::ZedKeyConflict(_) => 5,
            IssueJumperError::RemoteParseFailed(_) | IssueJumperError::Io(_)
            | IssueJumperError::Usage(_) => 1,
        }
    }

    /// The user-facing text of this error.
    pub fn message(&self) -> (m: String)
        ensures
            m@ == error_message(self@),
    {
        match self {
            IssueJumperError::GitNotFound => owned("Git was not found in PATH."),
            IssueJumperError::RepoPathInvalid(p) => join2("Repository path is invalid: ", p.as_str()),
            IssueJumperError::NotGitRepo(p) => join2(
                "Current Zed worktree is not a Git repository: ",
                p.as_str(),
            ),
            IssueJumperError::DetachedHead => owned("Repository is in detached HEAD state; no branch name is available."),
            IssueJumperError::RemoteParseFailed(r) => join2(
                "Failed to parse Git remote URL: ",
                r.as_str(),
            ),
            IssueJumperError::NoMatchingRule(b) => join3(
                "No issue ID matched branch \"",
                b.as_str(),
                "\".",
            ),
            IssueJumperError::UnknownRule(r) => join3("Unknown issue rule \"", r.as_str(), "\"."),
            IssueJumperError::InvalidConfig(m) => join2("Invalid Issue Jumper config: ", m.as_str()),
            IssueJumperError::PlatformUnresolved => owned("Cannot determine issue platform. Configure fallback_platform or pass --platform."),
            IssueJumperError::UrlBuildFailed(m) => join2("Failed to build issue URL: ", m.as_str()),
            IssueJumperError::BrowserOpenFailed(m) => join2("Failed to open browser. ", m.as_str()),
            IssueJumperError::ZedConfigPathNotFound => owned("Could not locate the Zed configuration directory."),
            IssueJumperError::ZedConfigInvalidJson(p) => join2(
                "Zed config JSON is invalid: ",
                p.as_str(),
            ),
            IssueJumperError::ZedKeyConflict(k) => join3(
                "Key \"",
                k.as_str(),
                "\" is already bound in Zed keymap.json.",
            ),
            IssueJumperError::Io(m) => owned(m.as_str()),
            IssueJumperError::Usage(m) => owned(m.as_str()),
        }
    }
}

/// Law: exit codes come in stable groups: 2 for an invalid configuration;
/// 3 for Git or the repository; 4 for the browser opener; 5 for installing
/// into Zed; 1 for everything else (no matching issue, an unknown rule, an
/// unresolved platform, a URL or remote that cannot be built or parsed, I/O
/// and usage errors).
pub proof fn law_exit_code_groups(e: ErrorView)
    ensures
        error_exit_code(e) == 2 <==> e is InvalidConfig,
        error_exit_code(e) == 3 <==> (e is GitNotFound || e is RepoPathInvalid || e is NotGitRepo
            || e is DetachedHead),
        error_exit_code(e) == 4 <==> e is BrowserOpenFailed,
        error_exit_code(e) == 5 <==> (e is ZedConfigPathNotFound || e is ZedConfigInvalidJson
            || e is ZedKeyConflict),
        error_exit_code(e) == 1 <==> (e is NoMatchingRule || e is UnknownRule || e is PlatformUnresolved
            || e is UrlBuildFailed || e is RemoteParseFailed || e is Io || e is Usage),
{
}

/// `std::io::Error`, carried through as it is.
#[verifier::external_type_specification]
#[verifier::external_body]
pub struct ExIoError(std::io::Error);

/// The text of an I/O error, as its `Display` writes it. Nothing is stated
/// of it: it is whatever the error was made with, which Verus cannot see.
#[verifier::external_body]
fn io_error_text(e: &std::io::Error) -> String {
    e.to_string()
}

/// An I/O error becomes [`IssueJumperError::Io`] with its text.
impl From<std::io::Error> for IssueJumperError {
    fn from(value: std::io::Error) -> (e: Self)
        ensures
            e is Io,
    {
        IssueJumperError::Io(io_error_text(&value))
    }
}

impl vstd::std_specs::convert::FromSpecImpl<std::io::Error> for IssueJumperError {
    /// The text of an I/O error is not visible here, so the conversion is
    /// described by the `ensures` of `from` alone.
    open spec fn obeys_from_spec() -> bool {
        false
    }

    open spec fn from_spec(v: std::io::Error) -> Self {
        vstd::pervasive::arbitrary()
    }
}

} // verus!
