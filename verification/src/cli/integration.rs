//! `integration`: snippets for other editors and for scripts.

use vstd::prelude::*;
use crate::error::{ErrorView, IssueJumperError};
use crate::text::{chars_of, join2, join3, lowercase, owned, str_eq, string_from, to_ascii_lowercase};

verus! {

/// The editors whose snippets are printed.
#[derive(Debug, Clone, Copy, PartialEq, Eq, Structural)]
pub enum IntegrationTarget {
    All,
    VsCode,
    Cursor,
    Generic,
}

/// `parse_target` on a lower-cased name.
pub open spec fn target_named(v: Seq<char>) -> Option<IntegrationTarget> {
    if v == "all"@ {
        Some(IntegrationTarget::All)
    } else if v == "vscode"@ || v == "vs-code"@ || v == "code"@ {
        Some(IntegrationTarget::VsCode)
    } else if v == "cursor"@ {
        Some(IntegrationTarget::Cursor)
    } else if v == "generic"@ || v == "shell"@ {
        Some(IntegrationTarget::Generic)
    } else {
        None
    }
}

/// `parse_target`: the target named by `value`, ignoring ASCII case.
pub open spec fn target_spec(value: Seq<char>) -> Result<IntegrationTarget, ErrorView> {
    match target_named(lowercase(value)) {
        Some(t) => Ok(t),
        None => Err(ErrorView::Usage("Unknown integration target `"@ + lowercase(value) + "`"@)),
    }
}

/// The target named by `value`, ignoring ASCII case.
pub fn parse_target(value: &str) -> (r: Result<IntegrationTarget, IssueJumperError>)
    ensures
        match r {
            Ok(t) => target_spec(value@) == Ok::<IntegrationTarget, ErrorView>(t),
            Err(e) => target_spec(value@) == Err::<IntegrationTarget, ErrorView>(e@),
        },
{
    let lower = to_ascii_lowercase(value);
    let v = lower.as_str();
    if str_eq(v, "all") {
        Ok(IntegrationTarget::All)
    } else if str_eq(v, "vscode") || str_eq(v, "vs-code") || str_eq(v, "code") {
        Ok(IntegrationTarget::VsCode)
    } else if str_eq(v, "cursor") {
        Ok(IntegrationTarget::Cursor)
    } else if str_eq(v, "generic") || str_eq(v, "shell") {
        Ok(IntegrationTarget::Generic)
    } else {
        Err(IssueJumperError::Usage(join3("Unknown integration target `", v, "`")))
    }
}

/// What `integration` prints: the snippets for `target`, running `command`.
#[derive(Debug)]
pub struct IntegrationRequest {
    pub target: IntegrationTarget,
    pub command: String,
}

/// `run` from the state `acc`: `print` is accepted and changes nothing,
/// `--target` and `--command` take the next argument (a later one wins);
/// anything else is refused.
pub open spec fn integration_args_from(
    args: Seq<Seq<char>>,
    acc: (IntegrationTarget, Seq<char>),
) -> Result<(IntegrationTarget, Seq<char>), ErrorView>
    decreases args.len(),
{
    if args.len() == 0 {
        Ok(acc)
    } else {
        let a = args[0];
        if a == "print"@ {
            integration_args_from(args.skip(1), acc)
        } else if a == "--target"@ || a == "--command"@ {
            if args.len() < 2 {
                Err(ErrorView::Usage(a + " requires a value"@))
            } else if a == "--target"@ {
                match target_spec(args[1]) {
                    Ok(t) => integration_args_from(args.skip(2), (t, acc.1)),
                    Err(e) => Err(e),
                }
            } else {
                integration_args_from(args.skip(2), (acc.0, args[1]))
            }
        } else {
            Err(ErrorView::Usage("Unknown integration argument `"@ + a + "`"@))
        }
    }
}

/// Parses the arguments of `integration`; `default_command` is the command
/// used when `--command` is not given (the running executable).
pub fn run(args: &[String], default_command: &str) -> (r: Result<
    IntegrationRequest,
    IssueJumperError,
>)
    ensures
        match r {
            Ok(q) => integration_args_from(
                args.deep_view(),
                (IntegrationTarget::All, default_command@),
            ) == Ok::<(IntegrationTarget, Seq<char>), ErrorView>((q.target, q.command@)),
            Err(e) => integration_args_from(
                args.deep_view(),
                (IntegrationTarget::All, default_command@),
            ) == Err::<(IntegrationTarget, Seq<char>), ErrorView>(e@),
        },
{
    let ghost all = args.deep_view();
    let mut target = IntegrationTarget::All;
    let mut command = owned(default_command);
    let mut i: usize = 0;
    assert(all.skip(0) =~= all);
    while i < args.len()
        invariant
            i <= args@.len(),
            all == args.deep_view(),
            integration_args_from(all, (IntegrationTarget::All, default_command@))
                == integration_args_from(all.skip(i as int), (target, command@)),
        decreases args@.len() - i,
    {
        let ghost rest = all.skip(i as int);
        let a = args[i].as_str();
        assert(a@ == rest[0]);
        if str_eq(a, "print") {
            assert(rest.skip(1) =~= all.skip(i + 1));
            i = i + 1;
        } else if str_eq(a, "--target") || str_eq(a, "--command") {
            if i + 1 >= args.len() {
                return Err(IssueJumperError::Usage(join2(a, " requires a value")));
            }
            let v = args[i + 1].as_str();
            assert(v@ == rest[1]);
            if str_eq(a, "--target") {
                match parse_target(v) {
                    Ok(t) => {
                        target = t;
                    },
                    Err(e) => {
                        return Err(e);
                    },
                }
            } else {
                command = owned(v);
            }
            assert(rest.skip(2) =~= all.skip(i + 2));
            i = i + 2;
        } else {
            return Err(IssueJumperError::Usage(join3("Unknown integration argument `", a, "`")));
        }
    }
    assert(all.skip(i as int) =~= Seq::<Seq<char>>::empty());
    Ok(IntegrationRequest { target, command })
}

// ---------------------------------------------------------------------------
// Shell quoting
// ---------------------------------------------------------------------------

/// A character that needs no quoting in a POSIX shell word.
pub open spec fn shell_safe(c: char) -> bool {
    ('a' <= c && c <= 'z') || ('A' <= c && c <= 'Z') || ('0' <= c && c <= '9') || c == '/' || c
        == '_' || c == '-' || c == '.'
}

/// `s` with every `'` written as `'\''`, the way to put a quote inside a
/// single-quoted word.
pub open spec fn escape_quotes(s: Seq<char>) -> Seq<char>
    decreases s.len(),
{
    if s.len() == 0 {
        s
    } else if s.last() == '\'' {
        escape_quotes(s.drop_last()) + seq!['\'', '\\', '\'', '\'']
    } else {
        escape_quotes(s.drop_last()).push(s.last())
    }
}

/// `value` as one shell word: as it is when every character is safe,
/// otherwise in single quotes.
pub open spec fn shell_word(value: Seq<char>) -> Seq<char> {
    if forall|i: int| 0 <= i < value.len() ==> shell_safe(#[trigger] value[i]) {
        value
    } else {
        seq!['\''] + escape_quotes(value) + seq!['\'']
    }
}

/// Quotes `value` as one shell word.
pub fn shell_quote(value: &str) -> (q: String)
    ensures
        q@ == shell_word(value@),
{
    let cs = chars_of(value);
    let mut safe = true;
    let mut escaped: Vec<char> = Vec::new();
    escaped.push('\'');
    let mut i: usize = 0;
    while i < cs.len()
        invariant
            i <= cs@.len(),
            cs@ == value@,
            safe == (forall|j: int| 0 <= j < i ==> shell_safe(#[trigger] cs@[j])),
            escaped@ == seq!['\''] + escape_quotes(cs@.take(i as int)),
        decreases cs@.len() - i,
    {
        let c = cs[i];
        let ok = ('a' <= c && c <= 'z') || ('A' <= c && c <= 'Z') || ('0' <= c && c <= '9') || c
            == '/' || c == '_' || c == '-' || c == '.';
        if !ok {
            safe = false;
        }
        assert(cs@.take(i + 1).drop_last() =~= cs@.take(i as int));
        if c == '\'' {
            escaped.push('\'');
            escaped.push('\\');
            escaped.push('\'');
            escaped.push('\'');
        } else {
            escaped.push(c);
        }
        assert(escaped@ =~= seq!['\''] + escape_quotes(cs@.take(i + 1)));
        i = i + 1;
    }
    assert(cs@.take(cs@.len() as int) =~= cs@);
    if safe {
        owned(value)
    } else {
        escaped.push('\'');
        string_from(escaped.as_slice())
    }
}

/// The lines printed for scripts and other editors, running `command`.
pub open spec fn generic_example_lines(command: Seq<char>) -> Seq<Seq<char>> {
    let word = shell_word(command);
    seq![
        "Generic editor integration examples"@,
        "Open current repository issue or repository page:"@,
        word + " open --repo /absolute/path/to/repo"@,
        Seq::empty(),
        "Print the resolved URL for scripts:"@,
        word + " url --repo /absolute/path/to/repo --print-url"@,
    ]
}

/// The lines printed for scripts and other editors.
pub fn generic_examples(command: &str) -> (lines: Vec<String>)
    ensures
        lines.deep_view() == generic_example_lines(command@),
{
    let word = shell_quote(command);
    let mut lines: Vec<String> = Vec::new();
    lines.push(owned("Generic editor integration examples"));
    lines.push(owned("Open current repository issue or repository page:"));
    lines.push(join2(word.as_str(), " open --repo /absolute/path/to/repo"));
    lines.push(String::new());
    lines.push(owned("Print the resolved URL for scripts:"));
    lines.push(join2(word.as_str(), " url --repo /absolute/path/to/repo --print-url"));
    assert(lines.deep_view() =~= generic_example_lines(command@));
    lines
}

// ---------------------------------------------------------------------------
// What is printed
// ---------------------------------------------------------------------------

/// A part of the output of `integration`.
#[derive(Debug, Clone, Copy, PartialEq, Eq, Structural)]
pub enum Section {
    /// The VS Code snippets.
    VsCode,
    /// The same snippets, for Cursor.
    Cursor,
    /// The shell examples for other editors and scripts.
    Generic,
}

/// The parts printed for a target, in order: all of them for `all`.
pub open spec fn sections_for(target: IntegrationTarget) -> Seq<Section> {
    match target {
        IntegrationTarget::All => seq![Section::VsCode, Section::Cursor, Section::Generic],
        IntegrationTarget::VsCode => seq![Section::VsCode],
        IntegrationTarget::Cursor => seq![Section::Cursor],
        IntegrationTarget::Generic => seq![Section::Generic],
    }
}

/// The parts printed for `target`, in order; a blank line separates them.
pub fn sections(target: IntegrationTarget) -> (s: Vec<Section>)
    ensures
        s@ == sections_for(target),
{
    let mut s: Vec<Section> = Vec::new();
    match target {
        IntegrationTarget::All => {
            s.push(Section::VsCode);
            s.push(Section::Cursor);
            s.push(Section::Generic);
        },
        IntegrationTarget::VsCode => {
            s.push(Section::VsCode);
        },
        IntegrationTarget::Cursor => {
            s.push(Section::Cursor);
        },
        IntegrationTarget::Generic => {
            s.push(Section::Generic);
        },
    }
    assert(s@ =~= sections_for(target));
    s
}

/// The VS Code (or Cursor) task that runs `open` on the workspace folder,
/// in a dedicated panel that stays hidden, and the key binding that runs it.
#[derive(Debug)]
pub struct EditorSnippets {
    pub heading: String,
    pub tasks_version: String,
    pub task_label: String,
    pub task_type: String,
    pub command: String,
    pub args: Vec<String>,
    pub reveal: String,
    pub panel: String,
    pub clear: bool,
    pub key: String,
    pub key_command: String,
}

/// The editor that a section is for.
pub open spec fn editor_name(section: Section) -> Seq<char> {
    match section {
        Section::Cursor => "Cursor"@,
        _ => "VS Code"@,
    }
}

/// The snippets for the editor of `section`, running `command`.
pub open spec fn is_editor_snippets(s: EditorSnippets, section: Section, command: Seq<char>) -> bool {
    &&& s.heading@ == editor_name(section) + " integration snippets"@
    &&& s.tasks_version@ == "2.0.0"@
    &&& s.task_label@ == crate::zed::task_label_text()
    &&& s.task_type@ == "shell"@
    &&& s.command@ == command
    &&& s.args.deep_view() == seq!["open"@, "--repo"@, "${workspaceFolder}"@]
    &&& s.reveal@ == "never"@
    &&& s.panel@ == "dedicated"@
    &&& s.clear
    &&& s.key@ == "ctrl+alt+j"@
    &&& s.key_command@ == "workbench.action.tasks.runTask"@
}

/// The snippets for the editor of `section` (VS Code or Cursor), running
/// `command`.
pub fn editor_snippets(section: Section, command: &str) -> (s: EditorSnippets)
    ensures
        is_editor_snippets(s, section, command@),
{
    let name = match section {
        Section::Cursor => "Cursor",
        _ => "VS Code",
    };
    let heading = join2(name, " integration snippets");
    let mut args: Vec<String> = Vec::new();
    args.push(owned("open"));
    args.push(owned("--repo"));
    args.push(owned("${workspaceFolder}"));
    assert(args.deep_view() =~= seq!["open"@, "--repo"@, "${workspaceFolder}"@]);
    EditorSnippets {
        heading,
        tasks_version: owned("2.0.0"),
        task_label: owned(crate::zed::task_label()),
        task_type: owned("shell"),
        command: owned(command),
        args,
        reveal: owned("never"),
        panel: owned("dedicated"),
        clear: true,
        key: owned("ctrl+alt+j"),
        key_command: owned("workbench.action.tasks.runTask"),
    }
}

/// Law: the word `print` in front of the arguments of `integration`
/// changes nothing.
pub proof fn law_print_is_optional(args: Seq<Seq<char>>, acc: (IntegrationTarget, Seq<char>))
    ensures
        integration_args_from(seq!["print"@] + args, acc) == integration_args_from(args, acc),
{
    let with = seq!["print"@] + args;
    assert(with[0] == "print"@);
    assert(with.skip(1) =~= args);
}

} // verus!
