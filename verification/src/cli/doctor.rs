//! `doctor`: show what a jump resolves to, step by step.

use vstd::prelude::*;
use crate::cli::open::jump_request;
use crate::error::IssueJumperError;
use crate::jump::{JumpOptions, JumpResult, JumpView, TargetView};
use crate::platform::platform_name;
use crate::text::{join2, owned, push_str, string_from};
use crate::zed::{task_label, task_label_text};

verus! {

/// The jump that `doctor` examines; the caller resolves it and prints
/// [`report`].
pub fn run(args: &[String]) -> (r: Result<JumpOptions, IssueJumperError>)
    ensures
        jump_request(args.deep_view(), r),
{
    crate::cli::open::run(args)
}

/// The lines about the target: an issue with its rule, or the repository.
pub open spec fn target_lines(t: TargetView) -> Seq<Seq<char>> {
    match t {
        TargetView::Issue { issue_id, matched_rule } => seq![
            "Target: issue"@,
            "Issue ID: "@ + issue_id,
            "Rule: "@ + matched_rule,
        ],
        TargetView::Repository => seq!["Target: repository"@],
    }
}

/// The lines `doctor` prints for a resolved jump.
pub open spec fn report_lines(j: JumpView) -> Seq<Seq<char>> {
    seq!["Issue Jumper doctor"@, "Repo: "@ + j.repo, "Branch: "@ + j.branch, "Platform: "@ + platform_name(j.platform)]
        + target_lines(j.target) + seq![
        match j.remote {
            Some(r) => "Remote: "@ + r.remote_name + " ("@ + r.original_url + ")"@,
            None => "Remote: none"@,
        },
        "URL: "@ + j.url,
        "Zed task label: "@ + task_label_text(),
    ]
}

/// What `doctor` prints about `result`.
pub fn report(result: &JumpResult) -> (lines: Vec<String>)
    ensures
        lines.deep_view() == report_lines(result@),
{
    let mut lines: Vec<String> = Vec::new();
    lines.push(owned("Issue Jumper doctor"));
    lines.push(join2("Repo: ", result.repo.as_str()));
    lines.push(join2("Branch: ", result.branch.as_str()));
    lines.push(join2("Platform: ", result.platform.name()));
    let ghost head = lines.deep_view();
    match &result.target {
        crate::jump::JumpTarget::Issue { issue_id, matched_rule } => {
            lines.push(owned("Target: issue"));
            lines.push(join2("Issue ID: ", issue_id.as_str()));
            lines.push(join2("Rule: ", matched_rule.as_str()));
        },
        crate::jump::JumpTarget::Repository => {
            lines.push(owned("Target: repository"));
        },
    }
    assert(lines.deep_view() =~= head + target_lines(result@.target));
    let ghost middle = lines.deep_view();
    match &result.remote {
        Some(r) => {
            let mut v: Vec<char> = Vec::new();
            push_str(&mut v, "Remote: ");
            push_str(&mut v, r.remote_name.as_str());
            push_str(&mut v, " (");
            push_str(&mut v, r.original_url.as_str());
            push_str(&mut v, ")");
            lines.push(string_from(v.as_slice()));
        },
        None => {
            lines.push(owned("Remote: none"));
        },
    }
    lines.push(join2("URL: ", result.url.as_str()));
    lines.push(join2("Zed task label: ", task_label()));
    assert(lines.deep_view() =~= report_lines(result@));
    lines
}

} // verus!
