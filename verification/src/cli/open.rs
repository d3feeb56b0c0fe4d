//! `open`: resolve the issue of the current branch and open it.

use vstd::prelude::*;
use crate::cli::{jump_args_from, no_jump_args, parse_jump_args, JumpArgsView};
use crate::error::{ErrorView, IssueJumperError};
use crate::jump::{override_view, rule_name_view, JumpOptions};

verus! {

/// The jump options carry the parsed repository, rule and platform.
pub open spec fn options_match(o: JumpOptions, p: JumpArgsView) -> bool {
    &&& o.repo.deep_view() == p.repo
    &&& rule_name_view(o) == p.rule
    &&& override_view(o) == p.platform
}

/// The options of the jump that `open`, `url` and `doctor` make: those of
/// [`parse_jump_args`], or its error.
pub open spec fn jump_request(args: Seq<Seq<char>>, r: Result<JumpOptions, IssueJumperError>) -> bool {
    match r {
        Ok(o) => jump_args_from(args, no_jump_args()) matches Ok(p) && options_match(o, p),
        Err(e) => jump_args_from(args, no_jump_args()) == Err::<JumpArgsView, ErrorView>(e@),
    }
}

/// The jump that `open` makes; the caller resolves it, opens the URL and
/// prints it.
pub fn run(args: &[String]) -> (r: Result<JumpOptions, IssueJumperError>)
    ensures
        jump_request(args.deep_view(), r),
{
    let parsed = parse_jump_args(args)?;
    Ok(JumpOptions { repo: parsed.repo, rule_name: parsed.rule, platform_override: parsed.platform })
}

} // verus!
