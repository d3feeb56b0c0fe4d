//! Reading the current branch and remote of a Git repository.
//!
//! Running `git` is left to the caller; these functions decide what its
//! output means.

pub mod remote;

use vstd::prelude::*;
use crate::error::{ErrorView, IssueJumperError};
use crate::text::{chars_of, contains_text, has_infix, is_text, lower_chars, lowercase, owned, string_from, trim, trim_chars};

verus! {

/// A configured remote: its name and URL.
#[derive(Debug)]
pub struct RemoteUrl {
    pub name: String,
    pub url: String,
}

/// The remote names that are looked up, in order.
pub open spec fn remote_names() -> Seq<Seq<char>> {
    seq!["origin"@, "upstream"@]
}

/// Git's error output says that the directory is not a repository.
pub open spec fn says_not_git_repo(stderr: Seq<char>) -> bool {
    has_infix(stderr, "not a git repository"@) || has_infix(stderr, "not in a git directory"@)
}

/// What to do after `git branch --show-current`.
pub enum BranchStep {
    /// The current branch.
    Found(String),
    /// Reading the branch failed for good.
    Failed(IssueJumperError),
    /// Ask `git rev-parse --abbrev-ref HEAD` instead.
    TryFallback,
}

/// The decision after `git branch --show-current`: a non-empty trimmed
/// output is the branch; a failure whose (lower-cased) error output says
/// "not a repository" is final; anything else tries the fallback.
pub open spec fn primary_step(
    success: bool,
    stdout: Seq<char>,
    stderr: Seq<char>,
    repo: Seq<char>,
) -> Option<Result<Seq<char>, ErrorView>> {
    if success {
        if trim(stdout).len() > 0 {
            Some(Ok(trim(stdout)))
        } else {
            None
        }
    } else if says_not_git_repo(lowercase(stderr)) {
        Some(Err(ErrorView::NotGitRepo(repo)))
    } else {
        None
    }
}

/// The decision after `git rev-parse --abbrev-ref HEAD`: a failure is "not a
/// repository" or a detached HEAD; an empty output or `HEAD` is a detached HEAD.
pub open spec fn fallback_result(
    success: bool,
    stdout: Seq<char>,
    stderr: Seq<char>,
    repo: Seq<char>,
) -> Result<Seq<char>, ErrorView> {
    if !success {
        if says_not_git_repo(lowercase(stderr)) {
            Err(ErrorView::NotGitRepo(repo))
        } else {
            Err(ErrorView::DetachedHead)
        }
    } else if trim(stdout).len() == 0 || trim(stdout) == "HEAD"@ {
        Err(ErrorView::DetachedHead)
    } else {
        Ok(trim(stdout))
    }
}

/// `stderr_looks_like_not_git_repo`.
pub fn stderr_looks_like_not_git_repo(stderr: &str) -> (r: bool)
    ensures
        r == says_not_git_repo(stderr@),
{
    let cs = chars_of(stderr);
    contains_text(cs.as_slice(), "not a git repository") || contains_text(
        cs.as_slice(),
        "not in a git directory",
    )
}

/// Git's error output, lower-cased, says that the directory is not a repository.
fn output_says_not_git(stderr: &str) -> (r: bool)
    ensures
        r == says_not_git_repo(lowercase(stderr@)),
{
    let l = string_from(lower_chars(chars_of(stderr).as_slice()).as_slice());
    stderr_looks_like_not_git_repo(l.as_str())
}

/// Decides on the output of `git branch --show-current`.
pub fn branch_after_primary(success: bool, stdout: &str, stderr: &str, repo: &str) -> (step:
    BranchStep)
    ensures
        match step {
            BranchStep::Found(b) => primary_step(success, stdout@, stderr@, repo@) == Some(
                Ok::<Seq<char>, ErrorView>(b@),
            ),
            BranchStep::Failed(e) => primary_step(success, stdout@, stderr@, repo@) == Some(
                Err::<Seq<char>, ErrorView>(e@),
            ),
            BranchStep::TryFallback => primary_step(success, stdout@, stderr@, repo@) is None,
        },
{
    if success {
        let branch = trim_chars(chars_of(stdout).as_slice());
        if branch.len() > 0 {
            return BranchStep::Found(string_from(branch.as_slice()));
        }
        BranchStep::TryFallback
    } else if output_says_not_git(stderr) {
        BranchStep::Failed(IssueJumperError::NotGitRepo(owned(repo)))
    } else {
        BranchStep::TryFallback
    }
}

/// Decides on the output of `git rev-parse --abbrev-ref HEAD`.
pub fn branch_after_fallback(success: bool, stdout: &str, stderr: &str, repo: &str) -> (r: Result<
    String,
    IssueJumperError,
>)
    ensures
        match r {
            Ok(b) => fallback_result(success, stdout@, stderr@, repo@) == Ok::<
                Seq<char>,
                ErrorView,
            >(b@),
            Err(e) => fallback_result(success, stdout@, stderr@, repo@) == Err::<
                Seq<char>,
                ErrorView,
            >(e@),
        },
{
    if !success {
        if output_says_not_git(stderr) {
            return Err(IssueJumperError::NotGitRepo(owned(repo)));
        }
        return Err(IssueJumperError::DetachedHead);
    }
    let branch = trim_chars(chars_of(stdout).as_slice());
    if branch.len() == 0 || is_text(branch.as_slice(), "HEAD") {
        return Err(IssueJumperError::DetachedHead);
    }
    Ok(string_from(branch.as_slice()))
}

/// The remote names that are looked up, in order.
pub fn remote_candidates() -> (names: Vec<String>)
    ensures
        names.deep_view() == remote_names(),
{
    let mut names: Vec<String> = Vec::new();
    names.push(owned("origin"));
    names.push(owned("upstream"));
    assert(names.deep_view() =~= remote_names());
    names
}

/// The remote found by `git remote get-url <name>`: a successful call with a
/// non-empty trimmed output.
pub fn remote_from_output(name: &str, success: bool, stdout: &str) -> (r: Option<RemoteUrl>)
    ensures
        match r {
            Some(u) => success && trim(stdout@).len() > 0 && u.name@ == name@ && u.url@ == trim(
                stdout@,
            ),
            None => !success || trim(stdout@).len() == 0,
        },
{
    if !success {
        return None;
    }
    let url = trim_chars(chars_of(stdout).as_slice());
    if url.len() == 0 {
        return None;
    }
    Some(RemoteUrl { name: owned(name), url: string_from(url.as_slice()) })
}

/// Reads the branch and the remote of the repository at `repo` with the Git
/// executable `git_binary`.
#[derive(Debug)]
pub struct GitReader {
    repo: String,
    git_binary: String,
}

/// What a run of `git` gave: whether it exited successfully, and its
/// output and error output as text.
#[derive(Debug)]
pub struct GitOutput {
    pub success: bool,
    pub stdout: String,
    pub stderr: String,
}

impl View for GitReader {
    type V = (Seq<char>, Seq<char>);

    /// The repository and the Git executable.
    closed spec fn view(&self) -> (Seq<char>, Seq<char>) {
        (self.repo@, self.git_binary@)
    }
}

/// The arguments that run `git` in the repository `repo` with `args`.
pub open spec fn git_command_args(repo: Seq<char>, args: Seq<Seq<char>>) -> Seq<Seq<char>> {
    seq!["-C"@, repo] + args
}

impl GitReader {
    /// A reader of the repository at `repo`, which must be a directory,
    /// running `git` from the search path.
    pub fn new(repo: String, repo_is_dir: bool) -> (r: Result<GitReader, IssueJumperError>)
        ensures
            match r {
                Ok(g) => repo_is_dir && g@ == (repo@, "git"@),
                Err(e) => !repo_is_dir && e@ == ErrorView::RepoPathInvalid(repo@),
            },
    {
        GitReader::with_git_binary(repo, owned("git"), repo_is_dir)
    }

    /// A reader of the repository at `repo`, which must be a directory,
    /// running the Git executable `git_binary`.
    pub fn with_git_binary(repo: String, git_binary: String, repo_is_dir: bool) -> (r: Result<
        GitReader,
        IssueJumperError,
    >)
        ensures
            match r {
                Ok(g) => repo_is_dir && g@ == (repo@, git_binary@),
                Err(e) => !repo_is_dir && e@ == ErrorView::RepoPathInvalid(repo@),
            },
    {
        if !repo_is_dir {
            return Err(IssueJumperError::RepoPathInvalid(repo));
        }
        Ok(GitReader { repo, git_binary })
    }

    /// The repository.
    pub fn repo(&self) -> (r: &str)
        ensures
            r@ == self@.0,
    {
        self.repo.as_str()
    }

    /// The Git executable.
    pub fn git_binary(&self) -> (r: &str)
        ensures
            r@ == self@.1,
    {
        self.git_binary.as_str()
    }

    /// The arguments that run `git` in the repository with `args`.
    pub fn command_args(&self, args: &[&str]) -> (out: Vec<String>)
        ensures
            out.deep_view() == git_command_args(self@.0, args@.map_values(|a: &str| a@)),
    {
        let mut out: Vec<String> = Vec::new();
        out.push(owned("-C"));
        out.push(owned(self.repo.as_str()));
        let ghost head = out.deep_view();
        let mut i: usize = 0;
        while i < args.len()
            invariant
                i <= args@.len(),
                head == seq!["-C"@, self@.0],
                out.deep_view() == head + args@.map_values(|a: &str| a@).take(i as int),
            decreases args@.len() - i,
        {
            let ghost before = out.deep_view();
            out.push(owned(args[i]));
            assert(out.deep_view() =~= before.push(args@[i as int]@));
            assert(args@.map_values(|a: &str| a@).take(i + 1) =~= args@.map_values(
                |a: &str| a@,
            ).take(i as int).push(args@[i as int]@));
            i = i + 1;
        }
        assert(args@.map_values(|a: &str| a@).take(args@.len() as int) =~= args@.map_values(
            |a: &str| a@,
        ));
        out
    }

    /// The error for a `git` that could not be run: missing, or another
    /// failure described by `message`.
    pub fn spawn_error(not_found: bool, message: String) -> (e: IssueJumperError)
        ensures
            e@ == if not_found {
                ErrorView::GitNotFound
            } else {
                ErrorView::Io(message@)
            },
    {
        if not_found {
            IssueJumperError::GitNotFound
        } else {
            IssueJumperError::Io(message)
        }
    }

    /// What the output of `git branch --show-current` means.
    pub fn current_branch(&self, primary: &GitOutput) -> (step: BranchStep)
        ensures
            match step {
                BranchStep::Found(b) => primary_step(
                    primary.success,
                    primary.stdout@,
                    primary.stderr@,
                    self@.0,
                ) == Some(Ok::<Seq<char>, ErrorView>(b@)),
                BranchStep::Failed(e) => primary_step(
                    primary.success,
                    primary.stdout@,
                    primary.stderr@,
                    self@.0,
                ) == Some(Err::<Seq<char>, ErrorView>(e@)),
                BranchStep::TryFallback => primary_step(
                    primary.success,
                    primary.stdout@,
                    primary.stderr@,
                    self@.0,
                ) is None,
            },
    {
        branch_after_primary(
            primary.success,
            primary.stdout.as_str(),
            primary.stderr.as_str(),
            self.repo.as_str(),
        )
    }

    /// What the output of `git rev-parse --abbrev-ref HEAD` means.
    pub fn fallback_branch(&self, fallback: &GitOutput) -> (r: Result<String, IssueJumperError>)
        ensures
            match r {
                Ok(b) => fallback_result(
                    fallback.success,
                    fallback.stdout@,
                    fallback.stderr@,
                    self@.0,
                ) == Ok::<Seq<char>, ErrorView>(b@),
                Err(e) => fallback_result(
                    fallback.success,
                    fallback.stdout@,
                    fallback.stderr@,
                    self@.0,
                ) == Err::<Seq<char>, ErrorView>(e@),
            },
    {
        branch_after_fallback(
            fallback.success,
            fallback.stdout.as_str(),
            fallback.stderr.as_str(),
            self.repo.as_str(),
        )
    }

    /// The remote `name`, given the output of `git remote get-url <name>`.
    pub fn remote_url(&self, name: &str, output: &GitOutput) -> (r: Option<RemoteUrl>)
        ensures
            match r {
                Some(u) => output.success && trim(output.stdout@).len() > 0 && u.name@ == name@
                    && u.url@ == trim(output.stdout@),
                None => !output.success || trim(output.stdout@).len() == 0,
            },
    {
        remote_from_output(name, output.success, output.stdout.as_str())
    }
}

/// What to do after asking Git for a remote's URL.
#[derive(Debug)]
pub enum RemoteStep {
    /// This remote is the one.
    Found(RemoteUrl),
    /// Ask for the URL of this remote next.
    Ask(String),
    /// No remote is configured.
    NoRemote,
}

/// The mathematical value of a [`RemoteStep`].
pub enum RemoteStepView {
    Found(Seq<char>, Seq<char>),
    Ask(Seq<char>),
    NoRemote,
}

/// The view of a [`RemoteStep`].
pub open spec fn remote_step_view(s: RemoteStep) -> RemoteStepView {
    match s {
        RemoteStep::Found(u) => RemoteStepView::Found(u.name@, u.url@),
        RemoteStep::Ask(n) => RemoteStepView::Ask(n@),
        RemoteStep::NoRemote => RemoteStepView::NoRemote,
    }
}

/// The remote named `name`, given whether `git remote get-url <name>`
/// succeeded and what it printed: a successful call with a non-blank output.
pub open spec fn remote_found(name: Seq<char>, success: bool, stdout: Seq<char>) -> Option<
    (Seq<char>, Seq<char>),
> {
    if success && trim(stdout).len() > 0 {
        Some((name, trim(stdout)))
    } else {
        None
    }
}

/// The decision after asking for the candidate at `index`: it is the
/// remote if it is configured; otherwise the next candidate is asked for,
/// and after the last there is no remote.
pub open spec fn remote_step_spec(index: int, success: bool, stdout: Seq<char>) -> RemoteStepView {
    match remote_found(remote_names()[index], success, stdout) {
        Some((n, u)) => RemoteStepView::Found(n, u),
        None => if index + 1 < remote_names().len() {
            RemoteStepView::Ask(remote_names()[index + 1])
        } else {
            RemoteStepView::NoRemote
        },
    }
}

/// The remote used, given what Git said of `origin` and of `upstream`:
/// `origin` when it is configured, else `upstream` when it is, else none.
pub open spec fn remote_choice(origin: (bool, Seq<char>), upstream: (bool, Seq<char>)) -> Option<
    (Seq<char>, Seq<char>),
> {
    match remote_found("origin"@, origin.0, origin.1) {
        Some(r) => Some(r),
        None => remote_found("upstream"@, upstream.0, upstream.1),
    }
}

impl GitReader {
    /// The remote asked for first.
    pub fn first_remote(&self) -> (name: String)
        ensures
            name@ == remote_names()[0],
    {
        owned("origin")
    }

    /// What to do once `git remote get-url` has answered for the candidate
    /// at `index`.
    pub fn next_remote(&self, index: usize, output: &GitOutput) -> (step: RemoteStep)
        requires
            index < remote_names().len(),
        ensures
            remote_step_view(step) == remote_step_spec(
                index as int,
                output.success,
                output.stdout@,
            ),
    {
        let names = remote_candidates();
        match remote_from_output(names[index].as_str(), output.success, output.stdout.as_str()) {
            Some(u) => RemoteStep::Found(u),
            None => {
                if index + 1 < names.len() {
                    RemoteStep::Ask(names[index + 1].clone())
                } else {
                    RemoteStep::NoRemote
                }
            },
        }
    }
}

/// Law: asking for `origin` and then, if needed, `upstream`, following
/// [`GitReader::next_remote`], ends with the remote that `remote_choice`
/// picks, and asks for nothing more.
pub proof fn law_remote_lookup(origin: (bool, Seq<char>), upstream: (bool, Seq<char>))
    ensures
        match remote_step_spec(0, origin.0, origin.1) {
            RemoteStepView::Found(n, u) => remote_choice(origin, upstream) == Some((n, u)),
            RemoteStepView::Ask(next) => next == "upstream"@ && match remote_step_spec(
                1,
                upstream.0,
                upstream.1,
            ) {
                RemoteStepView::Found(n, u) => remote_choice(origin, upstream) == Some((n, u)),
                RemoteStepView::NoRemote => remote_choice(origin, upstream) is None,
                RemoteStepView::Ask(_) => false,
            },
            RemoteStepView::NoRemote => false,
        },
{
    assert(remote_names()[0] == "origin"@);
    assert(remote_names()[1] == "upstream"@);
}

} // verus!
