//! Command-line parsing: which command to run and with which arguments.
//!
//! Running a command (reading the repository, opening the browser, writing
//! files) is left to the caller.

pub mod config_lint;
pub mod install_zed;
pub mod integration;
pub mod open;
pub mod url;
pub mod doctor;

use vstd::prelude::*;
use crate::error::{ErrorView, IssueJumperError};
use crate::platform::{parse_platform, Platform, PlatformView};
use crate::text::{join3, owned, str_eq};

verus! {

/// The command that the arguments ask for, with the arguments after it.
#[derive(Debug)]
pub enum CliCommand {
    Help,
    Version,
    Open(Vec<String>),
    Url(Vec<String>),
    InstallZed(Vec<String>),
    Doctor(Vec<String>),
    Config(Vec<String>),
    Integration(Vec<String>),
}

/// The mathematical value of a [`CliCommand`]: its name and its arguments.
pub open spec fn command_view(c: CliCommand) -> (Seq<char>, Seq<Seq<char>>) {
    match c {
        CliCommand::Help => ("help"@, Seq::empty()),
        CliCommand::Version => ("version"@, Seq::empty()),
        CliCommand::Open(a) => ("open"@, a.deep_view()),
        CliCommand::Url(a) => ("url"@, a.deep_view()),
        CliCommand::InstallZed(a) => ("install-zed"@, a.deep_view()),
        CliCommand::Doctor(a) => ("doctor"@, a.deep_view()),
        CliCommand::Config(a) => ("config"@, a.deep_view()),
        CliCommand::Integration(a) => ("integration"@, a.deep_view()),
    }
}

/// The subcommands that take further arguments.
pub open spec fn is_subcommand(name: Seq<char>) -> bool {
    name == "open"@ || name == "url"@ || name == "install-zed"@ || name == "doctor"@ || name
        == "config"@ || name == "integration"@
}

/// `run`: no argument or a help flag asks for help, `--version` for the
/// version, a subcommand name for that subcommand with the remaining
/// arguments; anything else is an unknown command.
pub open spec fn command_spec(args: Seq<Seq<char>>) -> Result<(Seq<char>, Seq<Seq<char>>), ErrorView> {
    if args.len() == 0 {
        Ok(("help"@, Seq::empty()))
    } else {
        let c = args[0];
        if is_subcommand(c) {
            Ok((c, args.skip(1)))
        } else if c == "-h"@ || c == "--help"@ || c == "help"@ {
            Ok(("help"@, Seq::empty()))
        } else if c == "--version"@ {
            Ok(("version"@, Seq::empty()))
        } else {
            Err(ErrorView::Usage("Unknown command `"@ + c + "`"@))
        }
    }
}

/// The arguments after the first one.
fn rest_of(args: &Vec<String>) -> (rest: Vec<String>)
    requires
        args@.len() > 0,
    ensures
        rest.deep_view() == args.deep_view().skip(1),
{
    let mut rest: Vec<String> = Vec::new();
    let mut i: usize = 1;
    while i < args.len()
        invariant
            1 <= i <= args@.len(),
            rest.deep_view() == args.deep_view().subrange(1, i as int),
        decreases args@.len() - i,
    {
        let ghost before = rest@;
        assert(before.map_values(|s: String| s@) =~= args.deep_view().subrange(1, i as int));
        let a = args[i].clone();
        rest.push(a);
        assert(rest.deep_view() =~= before.map_values(|s: String| s@).push(args.deep_view()[i as int]));
        assert(rest.deep_view() =~= args.deep_view().subrange(1, i + 1));
        i = i + 1;
    }
    assert(args.deep_view().subrange(1, args@.len() as int) =~= args.deep_view().skip(1));
    rest
}

/// Chooses the command to run.
pub fn run(args: &Vec<String>) -> (r: Result<CliCommand, IssueJumperError>)
    ensures
        match r {
            Ok(c) => command_spec(args.deep_view()) == Ok::<
                (Seq<char>, Seq<Seq<char>>),
                ErrorView,
            >(command_view(c)),
            Err(e) => command_spec(args.deep_view()) == Err::<
                (Seq<char>, Seq<Seq<char>>),
                ErrorView,
            >(e@),
        },
{
    if args.len() == 0 {
        return Ok(CliCommand::Help);
    }
    let c = args[0].as_str();
    assert(c@ == args.deep_view()[0]);
    if str_eq(c, "open") {
        Ok(CliCommand::Open(rest_of(args)))
    } else if str_eq(c, "url") {
        Ok(CliCommand::Url(rest_of(args)))
    } else if str_eq(c, "install-zed") {
        Ok(CliCommand::InstallZed(rest_of(args)))
    } else if str_eq(c, "doctor") {
        Ok(CliCommand::Doctor(rest_of(args)))
    } else if str_eq(c, "config") {
        Ok(CliCommand::Config(rest_of(args)))
    } else if str_eq(c, "integration") {
        Ok(CliCommand::Integration(rest_of(args)))
    } else if str_eq(c, "-h") || str_eq(c, "--help") || str_eq(c, "help") {
        Ok(CliCommand::Help)
    } else if str_eq(c, "--version") {
        Ok(CliCommand::Version)
    } else {
        Err(IssueJumperError::Usage(join3("Unknown command `", c, "`")))
    }
}

/// The options of `open`, `url` and `doctor`.
#[derive(Debug)]
pub struct ParsedJumpArgs {
    pub repo: Option<String>,
    pub platform: Option<Platform>,
    pub rule: Option<String>,
    pub print_url: bool,
}

/// The mathematical value of [`ParsedJumpArgs`].
pub struct JumpArgsView {
    pub repo: Option<Seq<char>>,
    pub platform: Option<PlatformView>,
    pub rule: Option<Seq<char>>,
    pub print_url: bool,
}

impl View for ParsedJumpArgs {
    type V = JumpArgsView;

    open spec fn view(&self) -> JumpArgsView {
        JumpArgsView {
            repo: self.repo.deep_view(),
            platform: match self.platform {
                Some(p) => Some(p@),
                None => None,
            },
            rule: self.rule.deep_view(),
            print_url: self.print_url,
        }
    }
}

/// No option set.
pub open spec fn no_jump_args() -> JumpArgsView {
    JumpArgsView { repo: None, platform: None, rule: None, print_url: false }
}

/// `parse_jump_args` from the state `acc`: `--repo`, `--platform` and
/// `--rule` take the next argument as their value (a later one wins);
/// `--print-url` is a flag; anything else is refused.
pub open spec fn jump_args_from(args: Seq<Seq<char>>, acc: JumpArgsView) -> Result<
    JumpArgsView,
    ErrorView,
>
    decreases args.len(),
{
    if args.len() == 0 {
        Ok(acc)
    } else {
        let a = args[0];
        if a == "--repo"@ || a == "--platform"@ || a == "--rule"@ {
            if args.len() < 2 {
                Err(ErrorView::Usage(a + " requires a value"@))
            } else {
                let v = args[1];
                let next = if a == "--repo"@ {
                    JumpArgsView { repo: Some(v), ..acc }
                } else if a == "--platform"@ {
                    JumpArgsView { platform: Some(parse_platform(v)), ..acc }
                } else {
                    JumpArgsView { rule: Some(v), ..acc }
                };
                jump_args_from(args.skip(2), next)
            }
        } else if a == "--print-url"@ {
            jump_args_from(args.skip(1), JumpArgsView { print_url: true, ..acc })
        } else {
            Err(ErrorView::Usage("Unknown argument `"@ + a + "`"@))
        }
    }
}

/// Parses the options of `open`, `url` and `doctor`.
pub fn parse_jump_args(args: &[String]) -> (r: Result<ParsedJumpArgs, IssueJumperError>)
    ensures
        match r {
            Ok(p) => jump_args_from(args.deep_view(), no_jump_args()) == Ok::<
                JumpArgsView,
                ErrorView,
            >(p@),
            Err(e) => jump_args_from(args.deep_view(), no_jump_args()) == Err::<
                JumpArgsView,
                ErrorView,
            >(e@),
        },
{
    let ghost all = args.deep_view();
    let mut parsed = ParsedJumpArgs { repo: None, platform: None, rule: None, print_url: false };
    let mut i: usize = 0;
    assert(all.skip(0) =~= all);
    while i < args.len()
        invariant
            i <= args@.len(),
            all == args.deep_view(),
            jump_args_from(all, no_jump_args()) == jump_args_from(all.skip(i as int), parsed@),
        decreases args@.len() - i,
    {
        let ghost rest = all.skip(i as int);
        let a = args[i].as_str();
        assert(a@ == rest[0]);
        if str_eq(a, "--repo") || str_eq(a, "--platform") || str_eq(a, "--rule") {
            if i + 1 >= args.len() {
                return Err(IssueJumperError::Usage(crate::text::join2(a, " requires a value")));
            }
            let v = args[i + 1].as_str();
            assert(v@ == rest[1]);
            if str_eq(a, "--repo") {
                parsed.repo = Some(owned(v));
            } else if str_eq(a, "--platform") {
                parsed.platform = Some(Platform::parse(v));
            } else {
                parsed.rule = Some(owned(v));
            }
            assert(rest.skip(2) =~= all.skip(i + 2));
            i = i + 2;
        } else if str_eq(a, "--print-url") {
            parsed.print_url = true;
            assert(rest.skip(1) =~= all.skip(i + 1));
            i = i + 1;
        } else {
            return Err(IssueJumperError::Usage(join3("Unknown argument `", a, "`")));
        }
    }
    assert(all.skip(i as int) =~= Seq::<Seq<char>>::empty());
    Ok(parsed)
}

/// Law: `--repo r --platform p --rule n --print-url` sets each option to
/// its value (the platform parsed), whatever the values are; and an
/// argument that is none of the options is refused by name.
pub proof fn law_jump_arguments(r: Seq<char>, p: Seq<char>, n: Seq<char>, other: Seq<char>)
    requires
        other != "--repo"@ && other != "--platform"@ && other != "--rule"@ && other != "--print-url"@,
    ensures
        jump_args_from(seq!["--repo"@, r, "--platform"@, p, "--rule"@, n, "--print-url"@], no_jump_args())
            == Ok::<JumpArgsView, ErrorView>(
            JumpArgsView {
                repo: Some(r),
                platform: Some(parse_platform(p)),
                rule: Some(n),
                print_url: true,
            },
        ),
        jump_args_from(seq![other], no_jump_args()) == Err::<JumpArgsView, ErrorView>(
            ErrorView::Usage("Unknown argument `"@ + other + "`"@),
        ),
{
    reveal_strlit("--repo");
    reveal_strlit("--platform");
    reveal_strlit("--rule");
    reveal_strlit("--print-url");
    assert("--rule"@ != "--repo"@) by {
        assert("--rule"@[3] != "--repo"@[3]);
    }
    assert("--rule"@.len() != "--platform"@.len());
    assert("--print-url"@.len() != "--repo"@.len());
    assert("--print-url"@.len() != "--platform"@.len());
    assert("--print-url"@.len() != "--rule"@.len());
    assert("--platform"@.len() != "--repo"@.len());
    let a = seq!["--repo"@, r, "--platform"@, p, "--rule"@, n, "--print-url"@];
    let a1 = a.skip(2);
    let a2 = a1.skip(2);
    let a3 = a2.skip(2);
    assert(a1 =~= seq!["--platform"@, p, "--rule"@, n, "--print-url"@]);
    assert(a2 =~= seq!["--rule"@, n, "--print-url"@]);
    assert(a3 =~= seq!["--print-url"@]);
    assert(a3.skip(1) =~= Seq::<Seq<char>>::empty());
    let s1 = JumpArgsView { repo: Some(r), ..no_jump_args() };
    let s2 = JumpArgsView { platform: Some(parse_platform(p)), ..s1 };
    let s3 = JumpArgsView { rule: Some(n), ..s2 };
    let s4 = JumpArgsView { print_url: true, ..s3 };
    assert(jump_args_from(a3.skip(1), s4) == Ok::<JumpArgsView, ErrorView>(s4));
    assert(jump_args_from(a3, s3) == jump_args_from(a3.skip(1), s4));
    assert(jump_args_from(a2, s2) == jump_args_from(a3, s3));
    assert(jump_args_from(a1, s1) == jump_args_from(a2, s2));
    assert(jump_args_from(a, no_jump_args()) == jump_args_from(a1, s1));
}

} // verus!
