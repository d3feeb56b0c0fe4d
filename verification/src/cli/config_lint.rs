//! Arguments of `config lint`.

use vstd::prelude::*;
use crate::error::{ErrorView, IssueJumperError};
use crate::config::{lint_errors_view, ConfigLintReport, LintErrorView};
use crate::text::{join2, join3, owned, push_all, push_str, str_eq, string_from};

verus! {

/// The options of `config lint`: the repository and explicit files.
#[derive(Debug)]
pub struct ParsedConfigLintArgs {
    pub repo: Option<String>,
    pub paths: Vec<String>,
}

/// The mathematical value of [`ParsedConfigLintArgs`].
pub struct LintArgsView {
    pub repo: Option<Seq<char>>,
    pub paths: Seq<Seq<char>>,
}

impl View for ParsedConfigLintArgs {
    type V = LintArgsView;

    open spec fn view(&self) -> LintArgsView {
        LintArgsView { repo: self.repo.deep_view(), paths: self.paths.deep_view() }
    }
}

/// `parse_lint_args` from the state `acc`: `--repo <path>` sets the
/// repository (a later one wins), each `--path <file>` adds a file; anything
/// else is refused.
pub open spec fn lint_args_from(args: Seq<Seq<char>>, acc: LintArgsView) -> Result<
    LintArgsView,
    ErrorView,
>
    decreases args.len(),
{
    if args.len() == 0 {
        Ok(acc)
    } else {
        let a = args[0];
        if a == "--repo"@ || a == "--path"@ {
            if args.len() < 2 {
                Err(ErrorView::Usage(a + " requires a value"@))
            } else if a == "--repo"@ {
                lint_args_from(args.skip(2), LintArgsView { repo: Some(args[1]), ..acc })
            } else {
                lint_args_from(args.skip(2), LintArgsView { paths: acc.paths.push(args[1]), ..acc })
            }
        } else {
            Err(ErrorView::Usage("Unknown config lint argument `"@ + a + "`"@))
        }
    }
}

/// Nothing set.
pub open spec fn no_lint_args() -> LintArgsView {
    LintArgsView { repo: None, paths: Seq::empty() }
}

/// Parses the options of `config lint`.
pub fn parse_lint_args(args: &[String]) -> (r: Result<ParsedConfigLintArgs, IssueJumperError>)
    ensures
        match r {
            Ok(p) => lint_args_from(args.deep_view(), no_lint_args()) == Ok::<
                LintArgsView,
                ErrorView,
            >(p@),
            Err(e) => lint_args_from(args.deep_view(), no_lint_args()) == Err::<
                LintArgsView,
                ErrorView,
            >(e@),
        },
{
    let ghost all = args.deep_view();
    let mut parsed = ParsedConfigLintArgs { repo: None, paths: Vec::new() };
    assert(parsed@.paths =~= Seq::<Seq<char>>::empty());
    let mut i: usize = 0;
    assert(all.skip(0) =~= all);
    while i < args.len()
        invariant
            i <= args@.len(),
            all == args.deep_view(),
            lint_args_from(all, no_lint_args()) == lint_args_from(all.skip(i as int), parsed@),
        decreases args@.len() - i,
    {
        let ghost rest = all.skip(i as int);
        let a = args[i].as_str();
        assert(a@ == rest[0]);
        if str_eq(a, "--repo") || str_eq(a, "--path") {
            if i + 1 >= args.len() {
                return Err(IssueJumperError::Usage(join2(a, " requires a value")));
            }
            let v = args[i + 1].as_str();
            assert(v@ == rest[1]);
            let ghost acc = parsed@;
            if str_eq(a, "--repo") {
                parsed.repo = Some(owned(v));
                assert(parsed@ == LintArgsView { repo: Some(rest[1]), ..acc });
            } else {
                let ghost before = parsed.paths@;
                assert(acc.paths =~= before.map_values(|s: String| s@));
                let p = owned(v);
                parsed.paths.push(p);
                assert(parsed.paths.deep_view() =~= before.map_values(|s: String| s@).push(v@));
                assert(parsed@ == LintArgsView { paths: acc.paths.push(rest[1]), ..acc });
            }
            assert(rest.skip(2) =~= all.skip(i + 2));
            i = i + 2;
        } else {
            return Err(IssueJumperError::Usage(join3("Unknown config lint argument `", a, "`")));
        }
    }
    assert(all.skip(i as int) =~= Seq::<Seq<char>>::empty());
    Ok(parsed)
}

/// `run_config_command`: the only subcommand is `lint`.
pub open spec fn config_command_spec(args: Seq<Seq<char>>) -> Result<LintArgsView, ErrorView> {
    if args.len() == 0 {
        Err(ErrorView::Usage("config requires a subcommand: lint"@))
    } else if args[0] == "lint"@ {
        lint_args_from(args.skip(1), no_lint_args())
    } else {
        Err(ErrorView::Usage("Unknown config subcommand `"@ + args[0] + "`"@))
    }
}

/// Parses `config <subcommand> ...`; the caller runs the lint with the result.
pub fn run_config_command(args: &[String]) -> (r: Result<ParsedConfigLintArgs, IssueJumperError>)
    ensures
        match r {
            Ok(p) => config_command_spec(args.deep_view()) == Ok::<LintArgsView, ErrorView>(p@),
            Err(e) => config_command_spec(args.deep_view()) == Err::<LintArgsView, ErrorView>(e@),
        },
{
    if args.len() == 0 {
        return Err(IssueJumperError::Usage(owned("config requires a subcommand: lint")));
    }
    let c = args[0].as_str();
    assert(c@ == args.deep_view()[0]);
    if str_eq(c, "lint") {
        let rest = vstd::slice::slice_subrange(args, 1, args.len());
        assert(rest.deep_view() =~= args.deep_view().skip(1));
        parse_lint_args(rest)
    } else {
        Err(IssueJumperError::Usage(join3("Unknown config subcommand `", c, "`")))
    }
}

// ---------------------------------------------------------------------------
// Reporting
// ---------------------------------------------------------------------------

/// The digit for `d`, below ten.
pub open spec fn digit_char(d: int) -> char {
    if d == 0 {
        '0'
    } else if d == 1 {
        '1'
    } else if d == 2 {
        '2'
    } else if d == 3 {
        '3'
    } else if d == 4 {
        '4'
    } else if d == 5 {
        '5'
    } else if d == 6 {
        '6'
    } else if d == 7 {
        '7'
    } else if d == 8 {
        '8'
    } else {
        '9'
    }
}

/// `n` written in decimal.
pub open spec fn decimal(n: nat) -> Seq<char>
    decreases n,
{
    if n < 10 {
        seq![digit_char(n as int)]
    } else {
        decimal(n / 10).push(digit_char((n % 10) as int))
    }
}

/// The digit for `d`.
fn digit(d: usize) -> (c: char)
    requires
        d < 10,
    ensures
        c == digit_char(d as int),
{
    if d == 0 {
        '0'
    } else if d == 1 {
        '1'
    } else if d == 2 {
        '2'
    } else if d == 3 {
        '3'
    } else if d == 4 {
        '4'
    } else if d == 5 {
        '5'
    } else if d == 6 {
        '6'
    } else if d == 7 {
        '7'
    } else if d == 8 {
        '8'
    } else {
        '9'
    }
}

/// `n` written in decimal.
fn decimal_chars(n: usize) -> (out: Vec<char>)
    ensures
        out@ == decimal(n as nat),
    decreases n,
{
    if n < 10 {
        let mut out: Vec<char> = Vec::new();
        out.push(digit(n));
        assert(out@ =~= seq![digit_char(n as int)]);
        out
    } else {
        let mut out = decimal_chars(n / 10);
        out.push(digit(n % 10));
        out
    }
}

/// What `config lint` prints: the files checked, then `OK` or the problems
/// (each with its file, when it has one), and the error it ends with.
#[derive(Debug)]
pub struct LintOutcome {
    pub lines: Vec<String>,
    pub problems: Vec<String>,
    pub result: Result<(), IssueJumperError>,
}

/// The lines about the files checked.
pub open spec fn checked_lines(paths: Seq<Seq<char>>) -> Seq<Seq<char>> {
    if paths.len() == 0 {
        seq!["No Issue Jumper config files found."@]
    } else {
        paths.map_values(|p: Seq<char>| "Checked: "@ + p)
    }
}

/// How one problem is printed.
pub open spec fn problem_line(e: LintErrorView) -> Seq<char> {
    match e.path {
        Some(p) => p + ": "@ + e.message,
        None => e.message,
    }
}

/// The outcome of a report: success when it holds no problem, otherwise
/// an invalid configuration that counts them.
pub open spec fn lint_outcome_spec(paths: Seq<Seq<char>>, errors: Seq<LintErrorView>) -> (
    Seq<Seq<char>>,
    Seq<Seq<char>>,
    Result<(), ErrorView>,
) {
    if errors.len() == 0 {
        (seq!["Issue Jumper config lint"@] + checked_lines(paths) + seq!["OK"@], Seq::empty(), Ok(()))
    } else {
        (
            seq!["Issue Jumper config lint"@] + checked_lines(paths),
            errors.map_values(|e: LintErrorView| problem_line(e)),
            Err(
                ErrorView::InvalidConfig(
                    "config lint failed with "@ + decimal(errors.len()) + " error(s)"@,
                ),
            ),
        )
    }
}

/// What `config lint` prints for `report`, and how it ends.
pub fn lint_outcome(report: &ConfigLintReport) -> (o: LintOutcome)
    ensures
        (o.lines.deep_view(), o.problems.deep_view(), match o.result {
            Ok(()) => Ok::<(), ErrorView>(()),
            Err(e) => Err::<(), ErrorView>(e@),
        }) == lint_outcome_spec(report.checked_paths.deep_view(), lint_errors_view(report.errors@)),
{
    let ghost paths = report.checked_paths.deep_view();
    let ghost errors = lint_errors_view(report.errors@);
    let mut lines: Vec<String> = Vec::new();
    lines.push(owned("Issue Jumper config lint"));
    let n = report.checked_paths.len();
    if n == 0 {
        lines.push(owned("No Issue Jumper config files found."));
        assert(lines.deep_view() =~= seq!["Issue Jumper config lint"@] + checked_lines(paths));
    } else {
        let mut i: usize = 0;
        while i < n
            invariant
                i <= n,
                n == report.checked_paths@.len(),
                paths == report.checked_paths.deep_view(),
                lines.deep_view() == seq!["Issue Jumper config lint"@] + paths.take(i as int).map_values(
                    |p: Seq<char>| "Checked: "@ + p,
                ),
            decreases n - i,
        {
            let ghost before = lines.deep_view();
            lines.push(join2("Checked: ", report.checked_paths[i].as_str()));
            assert(paths[i as int] == report.checked_paths@[i as int]@);
            assert(paths.take(i + 1).map_values(|p: Seq<char>| "Checked: "@ + p) =~= paths.take(
                i as int,
            ).map_values(|p: Seq<char>| "Checked: "@ + p).push("Checked: "@ + paths[i as int]));
            assert(lines.deep_view() =~= before.push("Checked: "@ + paths[i as int]));
            i = i + 1;
        }
        assert(paths.take(n as int) =~= paths);
        assert(lines.deep_view() =~= seq!["Issue Jumper config lint"@] + checked_lines(paths));
    }
    let m = report.errors.len();
    if m == 0 {
        let ghost before = lines.deep_view();
        lines.push(owned("OK"));
        assert(lines.deep_view() =~= before.push("OK"@));
        let problems: Vec<String> = Vec::new();
        assert(problems.deep_view() =~= Seq::<Seq<char>>::empty());
        return LintOutcome { lines, problems, result: Ok(()) };
    }
    let mut problems: Vec<String> = Vec::new();
    let mut j: usize = 0;
    while j < m
        invariant
            j <= m,
            m == report.errors@.len(),
            errors == lint_errors_view(report.errors@),
            problems.deep_view() == errors.take(j as int).map_values(
                |e: LintErrorView| problem_line(e),
            ),
        decreases m - j,
    {
        let e = &report.errors[j];
        let ghost before = problems.deep_view();
        let line = match &e.path {
            Some(p) => join3(p.as_str(), ": ", e.message.as_str()),
            None => owned(e.message.as_str()),
        };
        assert(line@ == problem_line(errors[j as int]));
        problems.push(line);
        assert(errors.take(j + 1).map_values(|e: LintErrorView| problem_line(e)) =~= errors.take(
            j as int,
        ).map_values(|e: LintErrorView| problem_line(e)).push(problem_line(errors[j as int])));
        assert(problems.deep_view() =~= before.push(problem_line(errors[j as int])));
        j = j + 1;
    }
    assert(errors.take(m as int) =~= errors);
    let count = decimal_chars(m);
    let mut v: Vec<char> = Vec::new();
    push_str(&mut v, "config lint failed with ");
    push_all(&mut v, count.as_slice());
    push_str(&mut v, " error(s)");
    assert(errors.len() == m);
    LintOutcome {
        lines,
        problems,
        result: Err(IssueJumperError::InvalidConfig(string_from(v.as_slice()))),
    }
}

} // verus!
