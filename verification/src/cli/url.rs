//! `url`: resolve the issue of the current branch and print it.

use vstd::prelude::*;
use crate::cli::{jump_args_from, no_jump_args, parse_jump_args, JumpArgsView};
use crate::cli::open::options_match;
use crate::error::{ErrorView, IssueJumperError};
use crate::jump::{JumpOptions, JumpResult, JumpView, TargetView};
use crate::platform::platform_name;
use crate::text::{join2, owned, push_str, string_from};

verus! {

/// The jump that `url` makes, and whether only the URL is printed.
#[derive(Debug)]
pub struct UrlRequest {
    pub options: JumpOptions,
    pub print_url: bool,
}

/// The request that `url` makes: that of [`parse_jump_args`], or its error.
pub fn run(args: &[String]) -> (r: Result<UrlRequest, IssueJumperError>)
    ensures
        match r {
            Ok(q) => jump_args_from(args.deep_view(), no_jump_args()) matches Ok(p) && options_match(
                q.options,
                p,
            ) && q.print_url == p.print_url,
            Err(e) => jump_args_from(args.deep_view(), no_jump_args()) == Err::<
                JumpArgsView,
                ErrorView,
            >(e@),
        },
{
    let parsed = parse_jump_args(args)?;
    Ok(
        UrlRequest {
            options: JumpOptions {
                repo: parsed.repo,
                rule_name: parsed.rule,
                platform_override: parsed.platform,
            },
            print_url: parsed.print_url,
        },
    )
}

/// The lines `url` prints: the URL alone with `--print-url`; otherwise the
/// URL, then the branch, the issue, the platform, the rule and the remote.
pub open spec fn output_lines(j: JumpView, print_url: bool) -> Seq<Seq<char>> {
    if print_url {
        seq![j.url]
    } else {
        seq![j.url, "branch: "@ + j.branch] + match j.target {
            TargetView::Issue { issue_id, matched_rule } => seq![
                "issue_id: "@ + issue_id,
                "platform: "@ + platform_name(j.platform),
                "rule: "@ + matched_rule,
            ],
            TargetView::Repository => seq!["platform: "@ + platform_name(j.platform)],
        } + match j.remote {
            Some(r) => seq!["remote: "@ + r.remote_name + " "@ + r.original_url],
            None => Seq::empty(),
        }
    }
}

/// What `url` prints about `result`.
pub fn output(result: &JumpResult, print_url: bool) -> (lines: Vec<String>)
    ensures
        lines.deep_view() == output_lines(result@, print_url),
{
    let mut lines: Vec<String> = Vec::new();
    lines.push(owned(result.url.as_str()));
    if print_url {
        assert(lines.deep_view() =~= output_lines(result@, print_url));
        return lines;
    }
    lines.push(join2("branch: ", result.branch.as_str()));
    match &result.target {
        crate::jump::JumpTarget::Issue { issue_id, matched_rule } => {
            lines.push(join2("issue_id: ", issue_id.as_str()));
            lines.push(join2("platform: ", result.platform.name()));
            lines.push(join2("rule: ", matched_rule.as_str()));
        },
        crate::jump::JumpTarget::Repository => {
            lines.push(join2("platform: ", result.platform.name()));
        },
    }
    match &result.remote {
        Some(r) => {
            let mut v: Vec<char> = Vec::new();
            push_str(&mut v, "remote: ");
            push_str(&mut v, r.remote_name.as_str());
            push_str(&mut v, " ");
            push_str(&mut v, r.original_url.as_str());
            lines.push(string_from(v.as_slice()));
        },
        None => {},
    }
    assert(lines.deep_view() =~= output_lines(result@, print_url));
    lines
}

} // verus!
