//! The Zed integration: the task and key binding that Issue Jumper installs,
//! and how they are merged into the user's `tasks.json` and `keymap.json`.
//!
//! Reading and writing the files is left to the caller, which hands the
//! entries over as the plain values that the merge looks at and applies the
//! plan that comes back.

use vstd::prelude::*;
use crate::error::{ErrorView, IssueJumperError};
use crate::text::{chars_of, is_text, join_path, join_path_spec, owned, PathStyle, push_str, str_eq, string_from};

verus! {

/// The label of the task that Issue Jumper installs.
pub open spec fn task_label_text() -> Seq<char> {
    "Issue Jumper: Open Current Issue"@
}

/// The label of the task that Issue Jumper installs.
pub fn task_label() -> (s: &'static str)
    ensures
        s@ == task_label_text(),
{
    "Issue Jumper: Open Current Issue"
}

/// How `install-zed` was asked to run.
#[derive(Debug, Clone)]
pub struct InstallOptions {
    pub key: String,
    pub force: bool,
    pub print: bool,
}

// ---------------------------------------------------------------------------
// Recognising Issue Jumper's own entries
// ---------------------------------------------------------------------------

/// A path separator, on Unix or on Windows.
pub open spec fn is_separator(c: char) -> bool {
    c == '/' || c == '\\'
}

/// The last component of a path: what follows its last separator.
pub open spec fn base_name(s: Seq<char>) -> Seq<char>
    decreases s.len(),
{
    if s.len() == 0 {
        s
    } else if is_separator(s.last()) {
        Seq::empty()
    } else {
        base_name(s.drop_last()).push(s.last())
    }
}

/// The executable names Issue Jumper has been installed under, the current
/// ones and the legacy ones.
pub open spec fn binary_names() -> Seq<Seq<char>> {
    seq!["issue-jumper"@, "issue-jumper.exe"@, "zed-issue-jumper"@, "zed-issue-jumper.exe"@]
}

/// A task command runs Issue Jumper: the file it names is one of its
/// executables (a command that only mentions the name, such as a wrapper
/// script, is someone else's).
pub open spec fn runs_issue_jumper(command: Seq<char>) -> bool {
    binary_names().contains(base_name(command))
}

/// The last component of `s`.
fn base_name_of(s: &[char]) -> (out: Vec<char>)
    ensures
        out@ == base_name(s@),
{
    let mut start: usize = 0;
    let mut i: usize = 0;
    while i < s.len()
        invariant
            start <= i <= s@.len(),
            base_name(s@.take(i as int)) == s@.subrange(start as int, i as int),
        decreases s@.len() - i,
    {
        assert(s@.take(i + 1).drop_last() =~= s@.take(i as int));
        if s[i] == '/' || s[i] == '\\' {
            start = i + 1;
            assert(s@.subrange(start as int, i + 1) =~= Seq::<char>::empty());
        } else {
            assert(s@.subrange(start as int, i + 1) =~= s@.subrange(start as int, i as int).push(
                s@[i as int],
            ));
        }
        i = i + 1;
    }
    assert(s@.take(s@.len() as int) =~= s@);
    let mut out: Vec<char> = Vec::new();
    let mut k = start;
    while k < s.len()
        invariant
            start <= k <= s@.len(),
            out@ == s@.subrange(start as int, k as int),
        decreases s@.len() - k,
    {
        out.push(s[k]);
        assert(out@ =~= s@.subrange(start as int, k + 1));
        k = k + 1;
    }
    out
}

/// Whether a task command runs Issue Jumper.
pub fn is_issue_jumper_command(command: &str) -> (r: bool)
    ensures
        r == runs_issue_jumper(command@),
{
    let name = base_name_of(chars_of(command).as_slice());
    let n = name.as_slice();
    let r = is_text(n, "issue-jumper") || is_text(n, "issue-jumper.exe") || is_text(
        n,
        "zed-issue-jumper",
    ) || is_text(n, "zed-issue-jumper.exe");
    proof {
        let names = binary_names();
        assert(names[0] == "issue-jumper"@);
        assert(names[1] == "issue-jumper.exe"@);
        assert(names[2] == "zed-issue-jumper"@);
        assert(names[3] == "zed-issue-jumper.exe"@);
        if names.contains(name@) {
            let j = choose|j: int| 0 <= j < names.len() && names[j] == name@;
            assert(j == 0 || j == 1 || j == 2 || j == 3);
        }
    }
    r
}

/// A key binding runs Issue Jumper's task: its action names the task.
pub open spec fn spawns_issue_jumper(task_name: Option<Seq<char>>) -> bool {
    task_name == Some(task_label_text())
}

/// Whether a key binding whose action names `task_name` (if it names one)
/// runs Issue Jumper's task.
pub fn is_issue_jumper_binding(task_name: &Option<String>) -> (r: bool)
    ensures
        r == spawns_issue_jumper(task_name.deep_view()),
{
    match task_name {
        Some(t) => {
            let cs = chars_of(t.as_str());
            is_text(cs.as_slice(), "Issue Jumper: Open Current Issue")
        },
        None => false,
    }
}

// ---------------------------------------------------------------------------
// What is installed
// ---------------------------------------------------------------------------

/// The Zed task that runs `issue-jumper open` on the current worktree.
#[derive(Debug)]
pub struct ZedTask {
    pub label: String,
    pub command: String,
    pub args: Vec<String>,
    pub cwd: String,
    pub use_new_terminal: bool,
    pub allow_concurrent_runs: bool,
    pub reveal: String,
    pub hide: String,
    pub show_summary: bool,
    pub show_command: bool,
    pub save: String,
}

/// The keymap group that binds `key` to spawning the task.
#[derive(Debug)]
pub struct ZedKeymap {
    pub context: String,
    pub key: String,
    pub action: String,
    pub task_name: String,
    pub use_key_equivalents: bool,
}

/// The worktree root, as Zed substitutes it into a task.
pub open spec fn worktree_root() -> Seq<char> {
    "$ZED_WORKTREE_ROOT"@
}

/// The task's arguments: `open --repo $ZED_WORKTREE_ROOT`.
pub open spec fn task_args() -> Seq<Seq<char>> {
    seq!["open"@, "--repo"@, worktree_root()]
}

/// The task installed for `executable`: it runs `open` on the worktree root,
/// from the worktree root, in the background, and saves nothing.
pub open spec fn is_task_template(t: ZedTask, executable: Seq<char>) -> bool {
    &&& t.label@ == task_label_text()
    &&& t.command@ == executable
    &&& t.args.deep_view() == task_args()
    &&& t.cwd@ == worktree_root()
    &&& !t.use_new_terminal
    &&& !t.allow_concurrent_runs
    &&& t.reveal@ == "never"@
    &&& t.hide@ == "on_success"@
    &&& !t.show_summary
    &&& !t.show_command
    &&& t.save@ == "none"@
}

/// The keymap group installed for `key`: in the editor and the workspace,
/// `key` spawns the task.
pub open spec fn is_keymap_template(k: ZedKeymap, key: Seq<char>) -> bool {
    &&& k.context@ == "Editor || Workspace"@
    &&& k.key@ == key
    &&& k.action@ == "task::Spawn"@
    &&& k.task_name@ == task_label_text()
    &&& k.use_key_equivalents
}

/// The task that runs `executable`.
pub fn task_template(executable: &str) -> (t: ZedTask)
    ensures
        is_task_template(t, executable@),
{
    let mut args: Vec<String> = Vec::new();
    args.push(owned("open"));
    args.push(owned("--repo"));
    args.push(owned("$ZED_WORKTREE_ROOT"));
    assert(args.deep_view() =~= task_args());
    ZedTask {
        label: owned(task_label()),
        command: owned(executable),
        args,
        cwd: owned("$ZED_WORKTREE_ROOT"),
        use_new_terminal: false,
        allow_concurrent_runs: false,
        reveal: owned("never"),
        hide: owned("on_success"),
        show_summary: false,
        show_command: false,
        save: owned("none"),
    }
}

/// The keymap group that binds `key`.
pub fn keymap_template(key: &str) -> (k: ZedKeymap)
    ensures
        is_keymap_template(k, key@),
{
    ZedKeymap {
        context: owned("Editor || Workspace"),
        key: owned(key),
        action: owned("task::Spawn"),
        task_name: owned(task_label()),
        use_key_equivalents: true,
    }
}

// ---------------------------------------------------------------------------
// Where it goes
// ---------------------------------------------------------------------------

/// Zed's configuration directory under the home directory `home`:
/// `$HOME/.config/zed`.
pub open spec fn config_dir_under(home: Seq<char>) -> Seq<char> {
    join_path_spec(join_path_spec(home, ".config"@, PathStyle::Unix), "zed"@, PathStyle::Unix)
}

/// Zed's configuration directory, given the home directory if it is known.
pub fn zed_config_dir(home: Option<String>) -> (dir: Option<String>)
    ensures
        match home {
            Some(h) => dir matches Some(d) && d@ == config_dir_under(h@),
            None => dir is None,
        },
{
    match home {
        Some(h) => {
            let c = join_path(h.as_str(), ".config", PathStyle::Unix);
            Some(join_path(c.as_str(), "zed", PathStyle::Unix))
        },
        None => None,
    }
}

/// What `install-zed` does: print the snippets, or merge them into the
/// configuration in `write_to`.
#[derive(Debug)]
pub struct InstallPlan {
    pub task: ZedTask,
    pub keymap: ZedKeymap,
    pub key: String,
    pub force: bool,
    pub write_to: Option<String>,
}

/// `install_zed` with the executable already known: printing needs nothing
/// more; writing needs Zed's configuration directory.
pub open spec fn install_ok(
    p: InstallPlan,
    options: InstallOptions,
    executable: Seq<char>,
    config_dir: Option<Seq<char>>,
) -> bool {
    &&& is_task_template(p.task, executable)
    &&& is_keymap_template(p.keymap, options.key@)
    &&& p.key@ == options.key@
    &&& p.force == options.force
    &&& if options.print {
        p.write_to is None
    } else {
        p.write_to.deep_view() == config_dir
    }
}

/// Plans `install-zed` for the Issue Jumper executable at `executable`:
/// with `print`, the snippets are printed; otherwise they are merged into
/// Zed's configuration directory, and without one the install fails.
pub fn install_zed(options: InstallOptions, executable: &str, config_dir: Option<String>) -> (r:
    Result<InstallPlan, IssueJumperError>)
    ensures
        match r {
            Ok(p) => (options.print || config_dir is Some) && install_ok(
                p,
                options,
                executable@,
                config_dir.deep_view(),
            ),
            Err(e) => !options.print && config_dir is None && e@ == ErrorView::ZedConfigPathNotFound,
        },
{
    let task = task_template(executable);
    let keymap = keymap_template(options.key.as_str());
    let key = owned(options.key.as_str());
    if options.print {
        return Ok(InstallPlan { task, keymap, key, force: options.force, write_to: None });
    }
    match config_dir {
        Some(dir) => Ok(
            InstallPlan { task, keymap, key, force: options.force, write_to: Some(dir) },
        ),
        None => Err(IssueJumperError::ZedConfigPathNotFound),
    }
}

/// `install_zed` where finding the executable may have failed: that failure
/// comes first.
pub fn install_zed_from(
    options: InstallOptions,
    executable: Result<String, IssueJumperError>,
    config_dir: Option<String>,
) -> (r: Result<InstallPlan, IssueJumperError>)
    ensures
        match executable {
            Err(e) => r matches Err(f) && f@ == e@,
            Ok(x) => match r {
                Ok(p) => (options.print || config_dir is Some) && install_ok(
                    p,
                    options,
                    x@,
                    config_dir.deep_view(),
                ),
                Err(f) => !options.print && config_dir is None && f@
                    == ErrorView::ZedConfigPathNotFound,
            },
        },
{
    match executable {
        Ok(x) => install_zed(options, x.as_str(), config_dir),
        Err(e) => Err(e),
    }
}

// ---------------------------------------------------------------------------
// Merging the task into tasks.json
// ---------------------------------------------------------------------------

/// An entry of `tasks.json`, as far as the merge looks at it: its label and
/// its command, where they are strings.
#[derive(Debug)]
pub struct TaskEntry {
    pub label: Option<String>,
    pub command: Option<String>,
}

/// The mathematical value of a [`TaskEntry`].
pub struct TaskEntryView {
    pub label: Option<Seq<char>>,
    pub command: Option<Seq<char>>,
}

impl View for TaskEntry {
    type V = TaskEntryView;

    open spec fn view(&self) -> TaskEntryView {
        TaskEntryView { label: self.label.deep_view(), command: self.command.deep_view() }
    }
}

/// The entries of `tasks.json`.
pub open spec fn tasks_view(tasks: Seq<TaskEntry>) -> Seq<TaskEntryView> {
    tasks.map_values(|t: TaskEntry| t@)
}

/// Where the task goes.
#[derive(Debug)]
pub enum TaskMerge {
    /// In place of the entry at this index.
    Replace(usize),
    /// After the last entry.
    Append,
}

/// The entry carries Issue Jumper's label.
pub open spec fn has_task_label(t: TaskEntryView) -> bool {
    t.label == Some(task_label_text())
}

/// `i` is the first entry that carries Issue Jumper's label.
pub open spec fn first_labelled(tasks: Seq<TaskEntryView>, i: int) -> bool {
    &&& 0 <= i < tasks.len()
    &&& has_task_label(tasks[i])
    &&& forall|j: int| 0 <= j < i ==> !has_task_label(#[trigger] tasks[j])
}

/// The entry runs a command that is not Issue Jumper.
pub open spec fn foreign_command(t: TaskEntryView) -> bool {
    t.command matches Some(c) && !runs_issue_jumper(c)
}

/// The error text for a labelled task of someone else's in the file `path`.
pub open spec fn different_command_message(path: Seq<char>) -> Seq<char> {
    path + " contains task label `"@ + task_label_text() + "` with a different command"@
}

/// `label` is Issue Jumper's task label.
fn is_task_label(label: &Option<String>) -> (r: bool)
    ensures
        r == (label.deep_view() == Some(task_label_text())),
{
    match label {
        Some(l) => {
            let cs = chars_of(l.as_str());
            is_text(cs.as_slice(), "Issue Jumper: Open Current Issue")
        },
        None => false,
    }
}

/// Decides where the task goes in the entries of the file `path`: in place
/// of the first entry labelled as Issue Jumper's task, unless that entry
/// runs another command, which is refused; after the others when there is
/// none.
pub fn merge_task(path: &str, tasks: &Vec<TaskEntry>) -> (r: Result<TaskMerge, IssueJumperError>)
    ensures
        match r {
            Ok(TaskMerge::Replace(i)) => first_labelled(tasks_view(tasks@), i as int)
                && !foreign_command(tasks_view(tasks@)[i as int]),
            Ok(TaskMerge::Append) => forall|j: int|
                0 <= j < tasks@.len() ==> !has_task_label(#[trigger] tasks_view(tasks@)[j]),
            Err(e) => exists|i: int|
                first_labelled(tasks_view(tasks@), i) && foreign_command(tasks_view(tasks@)[i])
                    && e@ == ErrorView::ZedConfigInvalidJson(different_command_message(path@)),
        },
{
    let ghost tv = tasks_view(tasks@);
    let mut i: usize = 0;
    while i < tasks.len()
        invariant
            i <= tasks@.len(),
            tv == tasks_view(tasks@),
            forall|j: int| 0 <= j < i ==> !has_task_label(#[trigger] tv[j]),
        decreases tasks@.len() - i,
    {
        let t = &tasks[i];
        assert(tv[i as int] == t@);
        if is_task_label(&t.label) {
            assert(first_labelled(tv, i as int));
            match &t.command {
                Some(c) => {
                    if !is_issue_jumper_command(c.as_str()) {
                        let mut v: Vec<char> = Vec::new();
                        push_str(&mut v, path);
                        push_str(&mut v, " contains task label `");
                        push_str(&mut v, task_label());
                        push_str(&mut v, "` with a different command");
                        return Err(IssueJumperError::ZedConfigInvalidJson(string_from(v.as_slice())));
                    }
                },
                None => {},
            }
            return Ok(TaskMerge::Replace(i));
        }
        i = i + 1;
    }
    Ok(TaskMerge::Append)
}

// ---------------------------------------------------------------------------
// Merging the key binding into keymap.json
// ---------------------------------------------------------------------------

/// A binding of a keymap group, as far as the merge looks at it: the key,
/// and the task that its action spawns where it names one.
#[derive(Debug)]
pub struct KeyBinding {
    pub key: String,
    pub task_name: Option<String>,
}

/// The mathematical value of a [`KeyBinding`].
pub struct BindingView {
    pub key: Seq<char>,
    pub task_name: Option<Seq<char>>,
}

impl View for KeyBinding {
    type V = BindingView;

    open spec fn view(&self) -> BindingView {
        BindingView { key: self.key@, task_name: self.task_name.deep_view() }
    }
}

/// A group of `keymap.json`: its bindings, where it has a `bindings` object.
#[derive(Debug)]
pub struct KeymapGroup {
    pub bindings: Option<Vec<KeyBinding>>,
}

/// The bindings of a group.
pub open spec fn bindings_view(bs: Seq<KeyBinding>) -> Seq<BindingView> {
    bs.map_values(|b: KeyBinding| b@)
}

/// The bindings of a group, where it has them.
pub open spec fn group_view(g: Option<Vec<KeyBinding>>) -> Option<Seq<BindingView>> {
    match g {
        Some(bs) => Some(bindings_view(bs@)),
        None => None,
    }
}

/// The groups of `keymap.json`.
pub open spec fn groups_view(gs: Seq<KeymapGroup>) -> Seq<Option<Seq<BindingView>>> {
    gs.map_values(|g: KeymapGroup| group_view(g.bindings))
}

/// A group of the merged `keymap.json`.
#[derive(Debug)]
pub enum KeymapSlot {
    /// The group at `index` of the file as read, keeping these bindings.
    Existing { index: usize, bindings: Option<Vec<KeyBinding>> },
    /// The group of [`keymap_template`].
    Installed,
}

/// The mathematical value of a [`KeymapSlot`].
pub enum SlotView {
    Existing { index: int, bindings: Option<Seq<BindingView>> },
    Installed,
}

/// The groups of the merged `keymap.json`.
pub open spec fn slots_view(slots: Seq<KeymapSlot>) -> Seq<SlotView> {
    slots.map_values(
        |s: KeymapSlot|
            match s {
                KeymapSlot::Existing { index, bindings } => SlotView::Existing {
                    index: index as int,
                    bindings: group_view(bindings),
                },
                KeymapSlot::Installed => SlotView::Installed,
            },
    )
}

/// The first binding of `key` among `bs`.
pub open spec fn binding_for(bs: Seq<BindingView>, key: Seq<char>) -> Option<BindingView>
    decreases bs.len(),
{
    if bs.len() == 0 {
        None
    } else if bs[0].key == key {
        Some(bs[0])
    } else {
        binding_for(bs.drop_first(), key)
    }
}

/// The binding of `key` in a group.
pub open spec fn group_binding(g: Option<Seq<BindingView>>, key: Seq<char>) -> Option<BindingView> {
    match g {
        Some(bs) => binding_for(bs, key),
        None => None,
    }
}

/// The binding of `key` in the first group that binds it.
pub open spec fn existing_binding(groups: Seq<Option<Seq<BindingView>>>, key: Seq<char>) -> Option<
    BindingView,
>
    decreases groups.len(),
{
    if groups.len() == 0 {
        None
    } else {
        match group_binding(groups[0], key) {
            Some(b) => Some(b),
            None => existing_binding(groups.drop_first(), key),
        }
    }
}

/// `key` is taken by a binding of someone else's, and `force` was not given.
pub open spec fn key_conflict(groups: Seq<Option<Seq<BindingView>>>, key: Seq<char>, force: bool) -> bool {
    existing_binding(groups, key) matches Some(b) && !spawns_issue_jumper(b.task_name) && !force
}

/// A binding that stays: one of `key`, or one of someone else's.
pub open spec fn keeps(b: BindingView, key: Seq<char>) -> bool {
    b.key == key || !spawns_issue_jumper(b.task_name)
}

/// The bindings that stay.
pub open spec fn kept_bindings(bs: Seq<BindingView>, key: Seq<char>) -> Seq<BindingView>
    decreases bs.len(),
{
    if bs.len() == 0 {
        bs
    } else if keeps(bs.last(), key) {
        kept_bindings(bs.drop_last(), key).push(bs.last())
    } else {
        kept_bindings(bs.drop_last(), key)
    }
}

/// The bindings other than those of `key`.
pub open spec fn without_key(bs: Seq<BindingView>, key: Seq<char>) -> Seq<BindingView>
    decreases bs.len(),
{
    if bs.len() == 0 {
        bs
    } else if bs.last().key != key {
        without_key(bs.drop_last(), key).push(bs.last())
    } else {
        without_key(bs.drop_last(), key)
    }
}

/// The groups, with their positions, once Issue Jumper's bindings of other
/// keys are taken out: a group left with an empty `bindings` object goes.
pub open spec fn cleaned_groups(groups: Seq<Option<Seq<BindingView>>>, key: Seq<char>) -> Seq<
    (int, Option<Seq<BindingView>>),
>
    decreases groups.len(),
{
    if groups.len() == 0 {
        Seq::empty()
    } else {
        let rest = cleaned_groups(groups.drop_last(), key);
        let i = groups.len() - 1;
        match groups.last() {
            None => rest.push((i, None)),
            Some(bs) => if kept_bindings(bs, key).len() == 0 {
                rest
            } else {
                rest.push((i, Some(kept_bindings(bs, key))))
            },
        }
    }
}

/// The position of the first cleaned group that binds `key`.
pub open spec fn first_holding(cleaned: Seq<(int, Option<Seq<BindingView>>)>, key: Seq<char>) -> Option<
    int,
>
    decreases cleaned.len(),
{
    if cleaned.len() == 0 {
        None
    } else {
        match first_holding(cleaned.drop_last(), key) {
            Some(k) => Some(k),
            None => if group_binding(cleaned.last().1, key) is Some {
                Some(cleaned.len() - 1)
            } else {
                None
            },
        }
    }
}

/// What `first_holding` finds is a cleaned group that binds `key`.
pub proof fn lemma_first_holding(cleaned: Seq<(int, Option<Seq<BindingView>>)>, key: Seq<char>)
    ensures
        first_holding(cleaned, key) matches Some(k) ==> 0 <= k < cleaned.len() && group_binding(
            cleaned[k].1,
            key,
        ) is Some,
    decreases cleaned.len(),
{
    if cleaned.len() > 0 {
        lemma_first_holding(cleaned.drop_last(), key);
    }
}

/// The cleaned groups, each kept as it is.
pub open spec fn as_slots(cleaned: Seq<(int, Option<Seq<BindingView>>)>) -> Seq<SlotView> {
    cleaned.map_values(
        |p: (int, Option<Seq<BindingView>>)| SlotView::Existing { index: p.0, bindings: p.1 },
    )
}

/// Where the new group goes: the group that binds `key` loses that binding;
/// if nothing is left of it, the new group takes its place, otherwise (or
/// when no group binds `key`) the new group comes last.
pub open spec fn placed(cleaned: Seq<(int, Option<Seq<BindingView>>)>, key: Seq<char>) -> Seq<
    SlotView,
> {
    match first_holding(cleaned, key) {
        None => as_slots(cleaned).push(SlotView::Installed),
        Some(k) => match cleaned[k].1 {
            Some(bs) => if without_key(bs, key).len() == 0 {
                as_slots(cleaned).update(k, SlotView::Installed)
            } else {
                as_slots(cleaned).update(
                    k,
                    SlotView::Existing { index: cleaned[k].0, bindings: Some(without_key(bs, key)) },
                ).push(SlotView::Installed)
            },
            None => as_slots(cleaned).push(SlotView::Installed),
        },
    }
}

/// Installing the binding of `key` into `groups`: refused when `key` is
/// taken by someone else's binding (unless `force`); otherwise Issue
/// Jumper's bindings of other keys are removed and the new group placed.
pub open spec fn keymap_merge(groups: Seq<Option<Seq<BindingView>>>, key: Seq<char>, force: bool) -> Result<
    Seq<SlotView>,
    ErrorView,
> {
    if key_conflict(groups, key, force) {
        Err(ErrorView::ZedKeyConflict(key))
    } else {
        Ok(placed(cleaned_groups(groups, key), key))
    }
}

/// Whether the first binding of `key` in `bs` spawns Issue Jumper's task,
/// if `bs` binds `key`.
fn binding_in(bs: &Vec<KeyBinding>, key: &str) -> (r: Option<bool>)
    ensures
        match r {
            Some(o) => binding_for(bindings_view(bs@), key@) matches Some(b) && o
                == spawns_issue_jumper(b.task_name),
            None => binding_for(bindings_view(bs@), key@) is None,
        },
{
    let ghost all = bindings_view(bs@);
    let mut j: usize = 0;
    assert(all.skip(0) =~= all);
    while j < bs.len()
        invariant
            j <= bs@.len(),
            all == bindings_view(bs@),
            binding_for(all, key@) == binding_for(all.skip(j as int), key@),
        decreases bs@.len() - j,
    {
        let b = &bs[j];
        assert(all.skip(j as int)[0] == b@);
        assert(all.skip(j as int).drop_first() =~= all.skip(j + 1));
        if str_eq(b.key.as_str(), key) {
            return Some(is_issue_jumper_binding(&b.task_name));
        }
        j = j + 1;
    }
    None
}

/// Whether the binding of `key` that the groups already hold spawns Issue
/// Jumper's task, if one of them binds `key`.
fn binding_in_groups(groups: &Vec<KeymapGroup>, key: &str) -> (r: Option<bool>)
    ensures
        match r {
            Some(o) => existing_binding(groups_view(groups@), key@) matches Some(b) && o
                == spawns_issue_jumper(b.task_name),
            None => existing_binding(groups_view(groups@), key@) is None,
        },
{
    let ghost all = groups_view(groups@);
    let mut i: usize = 0;
    assert(all.skip(0) =~= all);
    while i < groups.len()
        invariant
            i <= groups@.len(),
            all == groups_view(groups@),
            existing_binding(all, key@) == existing_binding(all.skip(i as int), key@),
        decreases groups@.len() - i,
    {
        assert(all.skip(i as int)[0] == group_view(groups@[i as int].bindings));
        assert(all.skip(i as int).drop_first() =~= all.skip(i + 1));
        match &groups[i].bindings {
            Some(bs) => {
                let found = binding_in(bs, key);
                if found.is_some() {
                    return found;
                }
            },
            None => {},
        }
        i = i + 1;
    }
    None
}

/// A copy of a binding.
fn copy_binding(b: &KeyBinding) -> (c: KeyBinding)
    ensures
        c@ == b@,
{
    let task_name = match &b.task_name {
        Some(t) => Some(t.clone()),
        None => None,
    };
    KeyBinding { key: b.key.clone(), task_name }
}

/// The bindings of `bs` that stay.
fn keep_bindings(bs: &Vec<KeyBinding>, key: &str) -> (out: Vec<KeyBinding>)
    ensures
        bindings_view(out@) == kept_bindings(bindings_view(bs@), key@),
{
    let ghost all = bindings_view(bs@);
    let mut out: Vec<KeyBinding> = Vec::new();
    let mut j: usize = 0;
    while j < bs.len()
        invariant
            j <= bs@.len(),
            all == bindings_view(bs@),
            bindings_view(out@) == kept_bindings(all.take(j as int), key@),
        decreases bs@.len() - j,
    {
        let b = &bs[j];
        assert(all.take(j + 1).drop_last() =~= all.take(j as int));
        assert(all.take(j + 1).last() == b@);
        let ours = is_issue_jumper_binding(&b.task_name);
        if str_eq(b.key.as_str(), key) || !ours {
            let ghost before = out@;
            out.push(copy_binding(b));
            assert(bindings_view(out@) =~= bindings_view(before).push(b@));
        }
        j = j + 1;
    }
    assert(all.take(bs@.len() as int) =~= all);
    out
}

/// The bindings of `bs` other than those of `key`.
fn drop_key(bs: &Vec<KeyBinding>, key: &str) -> (out: Vec<KeyBinding>)
    ensures
        bindings_view(out@) == without_key(bindings_view(bs@), key@),
{
    let ghost all = bindings_view(bs@);
    let mut out: Vec<KeyBinding> = Vec::new();
    let mut j: usize = 0;
    while j < bs.len()
        invariant
            j <= bs@.len(),
            all == bindings_view(bs@),
            bindings_view(out@) == without_key(all.take(j as int), key@),
        decreases bs@.len() - j,
    {
        let b = &bs[j];
        assert(all.take(j + 1).drop_last() =~= all.take(j as int));
        assert(all.take(j + 1).last() == b@);
        if !str_eq(b.key.as_str(), key) {
            let ghost before = out@;
            out.push(copy_binding(b));
            assert(bindings_view(out@) =~= bindings_view(before).push(b@));
        }
        j = j + 1;
    }
    assert(all.take(bs@.len() as int) =~= all);
    out
}

/// A copy of some bindings.
fn copy_bindings(bs: &Vec<KeyBinding>) -> (c: Vec<KeyBinding>)
    ensures
        bindings_view(c@) == bindings_view(bs@),
{
    let mut c: Vec<KeyBinding> = Vec::new();
    let mut j: usize = 0;
    while j < bs.len()
        invariant
            j <= bs@.len(),
            bindings_view(c@) == bindings_view(bs@).take(j as int),
        decreases bs@.len() - j,
    {
        let ghost before = c@;
        c.push(copy_binding(&bs[j]));
        assert(bindings_view(c@) =~= bindings_view(before).push(bs@[j as int]@));
        assert(bindings_view(bs@).take(j + 1) =~= bindings_view(bs@).take(j as int).push(
            bs@[j as int]@,
        ));
        j = j + 1;
    }
    assert(bindings_view(bs@).take(bs@.len() as int) =~= bindings_view(bs@));
    c
}

/// A copy of a group's bindings.
fn copy_group(g: &Option<Vec<KeyBinding>>) -> (c: Option<Vec<KeyBinding>>)
    ensures
        group_view(c) == group_view(*g),
{
    match g {
        Some(bs) => Some(copy_bindings(bs)),
        None => None,
    }
}

/// The cleaned groups, with their positions.
pub open spec fn cleaned_view(c: Seq<(usize, Option<Vec<KeyBinding>>)>) -> Seq<
    (int, Option<Seq<BindingView>>),
> {
    c.map_values(|p: (usize, Option<Vec<KeyBinding>>)| (p.0 as int, group_view(p.1)))
}

/// The groups, with their positions, once Issue Jumper's bindings of other
/// keys are taken out.
fn clean_groups(groups: &Vec<KeymapGroup>, key: &str) -> (cleaned: Vec<(usize, Option<Vec<KeyBinding>>)>)
    ensures
        cleaned_view(cleaned@) == cleaned_groups(groups_view(groups@), key@),
{
    let ghost gv = groups_view(groups@);
    let mut cleaned: Vec<(usize, Option<Vec<KeyBinding>>)> = Vec::new();
    let mut i: usize = 0;
    while i < groups.len()
        invariant
            i <= groups@.len(),
            gv == groups_view(groups@),
            cleaned_view(cleaned@) == cleaned_groups(gv.take(i as int), key@),
        decreases groups@.len() - i,
    {
        assert(gv.take(i + 1).drop_last() =~= gv.take(i as int));
        assert(gv.take(i + 1).last() == group_view(groups@[i as int].bindings));
        let ghost before = cleaned@;
        match &groups[i].bindings {
            None => {
                cleaned.push((i, None));
                assert(cleaned_view(cleaned@) =~= cleaned_view(before).push((i as int, None)));
            },
            Some(bs) => {
                let k = keep_bindings(bs, key);
                if k.len() > 0 {
                    let ghost kv = bindings_view(k@);
                    cleaned.push((i, Some(k)));
                    assert(cleaned_view(cleaned@) =~= cleaned_view(before).push(
                        (i as int, Some(kv)),
                    ));
                }
            },
        }
        i = i + 1;
    }
    assert(gv.take(groups@.len() as int) =~= gv);
    cleaned
}

/// The position of the first cleaned group that binds `key`.
fn find_holding(cleaned: &Vec<(usize, Option<Vec<KeyBinding>>)>, key: &str) -> (found: Option<usize>)
    ensures
        match found {
            Some(k) => first_holding(cleaned_view(cleaned@), key@) == Some(k as int),
            None => first_holding(cleaned_view(cleaned@), key@) is None,
        },
{
    let ghost cv = cleaned_view(cleaned@);
    let mut found: Option<usize> = None;
    let mut i: usize = 0;
    while i < cleaned.len()
        invariant
            i <= cleaned@.len(),
            cv == cleaned_view(cleaned@),
            match found {
                Some(k) => first_holding(cv.take(i as int), key@) == Some(k as int),
                None => first_holding(cv.take(i as int), key@) is None,
            },
        decreases cleaned@.len() - i,
    {
        assert(cv.take(i + 1).drop_last() =~= cv.take(i as int));
        assert(cv.take(i + 1).last() == cv[i as int]);
        if found.is_none() {
            match &cleaned[i].1 {
                Some(bs) => {
                    if binding_in(bs, key).is_some() {
                        found = Some(i);
                    }
                },
                None => {},
            }
        }
        i = i + 1;
    }
    assert(cv.take(cleaned@.len() as int) =~= cv);
    found
}

/// Merges the binding of `key` into the groups of `keymap.json`. A key
/// already bound to something other than Issue Jumper's task is refused
/// unless `force` is given; Issue Jumper's bindings of other keys are
/// removed, and groups left without bindings go; the new group takes the
/// place of the group that bound `key` if nothing else is left of it, and
/// comes last otherwise.
pub fn merge_keymap(groups: &Vec<KeymapGroup>, key: &str, force: bool) -> (r: Result<
    Vec<KeymapSlot>,
    IssueJumperError,
>)
    ensures
        match r {
            Ok(s) => keymap_merge(groups_view(groups@), key@, force) == Ok::<
                Seq<SlotView>,
                ErrorView,
            >(slots_view(s@)),
            Err(e) => keymap_merge(groups_view(groups@), key@, force) == Err::<
                Seq<SlotView>,
                ErrorView,
            >(e@),
        },
{
    match binding_in_groups(groups, key) {
        Some(ours) => {
            if !ours && !force {
                return Err(IssueJumperError::ZedKeyConflict(owned(key)));
            }
        },
        None => {},
    }
    let cleaned = clean_groups(groups, key);
    let ghost cv = cleaned_view(cleaned@);
    let found = find_holding(&cleaned, key);
    proof {
        lemma_first_holding(cv, key@);
    }
    assert(cv.len() == cleaned@.len());
    let mut rest: Vec<KeyBinding> = Vec::new();
    let ghost mut base = as_slots(cv);
    match found {
        Some(k) => {
            match &cleaned[k].1 {
                Some(bs) => {
                    rest = drop_key(bs, key);
                    proof {
                        if rest@.len() == 0 {
                            base = as_slots(cv).update(k as int, SlotView::Installed);
                        } else {
                            base = as_slots(cv).update(
                                k as int,
                                SlotView::Existing {
                                    index: cv[k as int].0,
                                    bindings: Some(bindings_view(rest@)),
                                },
                            );
                        }
                    }
                },
                None => {},
            }
        },
        None => {},
    }
    let mut slots: Vec<KeymapSlot> = Vec::new();
    let mut i: usize = 0;
    while i < cleaned.len()
        invariant
            i <= cleaned@.len(),
            cv == cleaned_view(cleaned@),
            base.len() == cv.len(),
            forall|j: int|
                0 <= j < cv.len() && found != Some(j as usize) ==> #[trigger] base[j]
                    == as_slots(cv)[j],
            found matches Some(k) ==> k < cleaned@.len() && cleaned@[k as int].1 is Some && base[k as int] == if rest@.len() == 0 {
                SlotView::Installed
            } else {
                SlotView::Existing { index: cv[k as int].0, bindings: Some(bindings_view(rest@)) }
            },
            slots_view(slots@) == base.take(i as int),
        decreases cleaned@.len() - i,
    {
        let ghost before = slots@;
        let entry = &cleaned[i];
        if found == Some(i) {
            if rest.len() == 0 {
                slots.push(KeymapSlot::Installed);
            } else {
                slots.push(
                    KeymapSlot::Existing { index: entry.0, bindings: Some(copy_bindings(&rest)) },
                );
            }
        } else {
            slots.push(KeymapSlot::Existing { index: entry.0, bindings: copy_group(&entry.1) });
        }
        assert(slots_view(slots@) =~= slots_view(before).push(base[i as int]));
        assert(base.take(i + 1) =~= base.take(i as int).push(base[i as int]));
        i = i + 1;
    }
    assert(base.take(cleaned@.len() as int) =~= base);
    let ghost before = slots@;
    let append = match found {
        Some(_) => rest.len() > 0,
        None => true,
    };
    if append {
        slots.push(KeymapSlot::Installed);
        assert(slots_view(slots@) =~= slots_view(before).push(SlotView::Installed));
    }
    proof {
        match found {
            Some(k) => {
                assert(base =~= match cv[k as int].1 {
                    Some(bs) => if without_key(bs, key@).len() == 0 {
                        as_slots(cv).update(k as int, SlotView::Installed)
                    } else {
                        as_slots(cv).update(
                            k as int,
                            SlotView::Existing {
                                index: cv[k as int].0,
                                bindings: Some(without_key(bs, key@)),
                            },
                        )
                    },
                    None => as_slots(cv),
                });
            },
            None => {
                assert(base =~= as_slots(cv));
            },
        }
    }
    Ok(slots)
}

// ---------------------------------------------------------------------------
// Laws of the keymap merge
// ---------------------------------------------------------------------------

/// What cleaning makes of a group: its bindings that stay.
pub open spec fn cleaned_entry(g: Option<Seq<BindingView>>, key: Seq<char>) -> Option<Seq<BindingView>> {
    match g {
        Some(bs) => Some(kept_bindings(bs, key)),
        None => None,
    }
}

/// A group survives cleaning: it has no `bindings` object, or some of its
/// bindings stay.
pub open spec fn survives(g: Option<Seq<BindingView>>, key: Seq<char>) -> bool {
    match g {
        Some(bs) => kept_bindings(bs, key).len() > 0,
        None => true,
    }
}

/// The bindings that stay are exactly those that `keeps` admits.
pub proof fn lemma_kept_bindings(bs: Seq<BindingView>, key: Seq<char>)
    ensures
        forall|i: int|
            0 <= i < kept_bindings(bs, key).len() ==> keeps(#[trigger] kept_bindings(bs, key)[i], key),
        forall|j: int|
            0 <= j < bs.len() && keeps(bs[j], key) ==> #[trigger] kept_bindings(bs, key).contains(
                bs[j],
            ),
    decreases bs.len(),
{
    if bs.len() > 0 {
        let init = bs.drop_last();
        lemma_kept_bindings(init, key);
        let rest = kept_bindings(init, key);
        assert forall|j: int| 0 <= j < bs.len() && keeps(bs[j], key) implies #[trigger] kept_bindings(
            bs,
            key,
        ).contains(bs[j]) by {
            if j < bs.len() - 1 {
                assert(init[j] == bs[j]);
                assert(rest.contains(init[j]));
                if keeps(bs.last(), key) {
                    let w = choose|w: int| 0 <= w < rest.len() && rest[w] == init[j];
                    assert(rest.push(bs.last())[w] == bs[j]);
                }
            } else {
                assert(rest.push(bs.last())[rest.len() as int] == bs[j]);
            }
        }
    }
}

/// What is left without `key` are the bindings of other keys, all of them.
pub proof fn lemma_without_key(bs: Seq<BindingView>, key: Seq<char>)
    ensures
        forall|i: int|
            0 <= i < without_key(bs, key).len() ==> (#[trigger] without_key(bs, key)[i]).key != key
                && bs.contains(without_key(bs, key)[i]),
        forall|j: int|
            0 <= j < bs.len() && bs[j].key != key ==> #[trigger] without_key(bs, key).contains(
                bs[j],
            ),
    decreases bs.len(),
{
    if bs.len() > 0 {
        let init = bs.drop_last();
        lemma_without_key(init, key);
        let rest = without_key(init, key);
        assert forall|i: int| 0 <= i < without_key(bs, key).len() implies (#[trigger] without_key(
            bs,
            key,
        )[i]).key != key && bs.contains(without_key(bs, key)[i]) by {
            if i < rest.len() {
                assert(without_key(bs, key)[i] == rest[i]);
                assert(init.contains(rest[i]));
                let w = choose|w: int| 0 <= w < init.len() && init[w] == rest[i];
                assert(bs[w] == init[w]);
            } else {
                assert(without_key(bs, key)[i] == bs.last());
                assert(bs[bs.len() - 1] == bs.last());
            }
        }
        assert forall|j: int| 0 <= j < bs.len() && bs[j].key != key implies #[trigger] without_key(
            bs,
            key,
        ).contains(bs[j]) by {
            if j < bs.len() - 1 {
                assert(init[j] == bs[j]);
                assert(rest.contains(init[j]));
                if bs.last().key != key {
                    let w = choose|w: int| 0 <= w < rest.len() && rest[w] == init[j];
                    assert(rest.push(bs.last())[w] == bs[j]);
                }
            } else {
                assert(rest.push(bs.last())[rest.len() as int] == bs[j]);
            }
        }
    }
}

/// Cleaning keeps the surviving groups, cleaned, in their order.
pub proof fn lemma_cleaned_groups(groups: Seq<Option<Seq<BindingView>>>, key: Seq<char>)
    ensures
        forall|p: int|
            0 <= p < cleaned_groups(groups, key).len() ==> {
                let e = #[trigger] cleaned_groups(groups, key)[p];
                &&& 0 <= e.0 < groups.len()
                &&& survives(groups[e.0], key)
                &&& e.1 == cleaned_entry(groups[e.0], key)
            },
        forall|p: int, q: int|
            0 <= p < q < cleaned_groups(groups, key).len() ==> (#[trigger] cleaned_groups(
                groups,
                key,
            )[p]).0 < (#[trigger] cleaned_groups(groups, key)[q]).0,
        forall|i: int|
            0 <= i < groups.len() && survives(#[trigger] groups[i], key) ==> exists|p: int|
                0 <= p < cleaned_groups(groups, key).len() && (#[trigger] cleaned_groups(
                    groups,
                    key,
                )[p]).0 == i,
    decreases groups.len(),
{
    if groups.len() > 0 {
        let init = groups.drop_last();
        lemma_cleaned_groups(init, key);
        let rest = cleaned_groups(init, key);
        let c = cleaned_groups(groups, key);
        let last = groups.len() - 1;
        assert forall|p: int| 0 <= p < rest.len() implies c[p] == rest[p] by {}
        assert forall|p: int| 0 <= p < c.len() implies {
            let e = #[trigger] c[p];
            &&& 0 <= e.0 < groups.len()
            &&& survives(groups[e.0], key)
            &&& e.1 == cleaned_entry(groups[e.0], key)
        } by {
            if p < rest.len() {
                assert(init[rest[p].0] == groups[rest[p].0]);
            }
        }
        assert forall|p: int, q: int| 0 <= p < q < c.len() implies (#[trigger] c[p]).0 < (
        #[trigger] c[q]).0 by {
            if q >= rest.len() {
                assert(c[q].0 == last);
                assert(c[p] == rest[p]);
            }
        }
        assert forall|i: int| 0 <= i < groups.len() && survives(#[trigger] groups[i], key) implies exists|
            p: int,
        | 0 <= p < c.len() && (#[trigger] c[p]).0 == i by {
            if i < last {
                assert(init[i] == groups[i]);
                assert(survives(init[i], key));
                let p = choose|p: int| 0 <= p < rest.len() && (#[trigger] rest[p]).0 == i;
                assert(c[p] == rest[p]);
            } else {
                assert(c[rest.len() as int].0 == i);
            }
        }
    }
}

/// A group of the merged keymap is in order: it is the new group, has no
/// `bindings` object, or has some bindings, none of which binds another key
/// to Issue Jumper's task.
pub open spec fn slot_in_order(s: SlotView, key: Seq<char>) -> bool {
    match s {
        SlotView::Existing { index, bindings } => match bindings {
            Some(bs) => bs.len() > 0 && forall|i: int| 0 <= i < bs.len() ==> keeps(#[trigger] bs[i], key),
            None => true,
        },
        SlotView::Installed => true,
    }
}

/// The group at `k` is the only new group.
pub open spec fn sole_installed(slots: Seq<SlotView>, k: int) -> bool {
    &&& 0 <= k < slots.len()
    &&& slots[k] is Installed
    &&& forall|j: int| 0 <= j < slots.len() && j != k ==> !(#[trigger] slots[j] is Installed)
}

/// Every cleaned group is in order.
proof fn lemma_cleaned_in_order(groups: Seq<Option<Seq<BindingView>>>, key: Seq<char>)
    ensures
        forall|p: int|
            0 <= p < cleaned_groups(groups, key).len() ==> slot_in_order(
                #[trigger] as_slots(cleaned_groups(groups, key))[p],
                key,
            ),
{
    let c = cleaned_groups(groups, key);
    lemma_cleaned_groups(groups, key);
    assert forall|p: int| 0 <= p < c.len() implies slot_in_order(#[trigger] as_slots(c)[p], key) by {
        let e = c[p];
        assert(as_slots(c)[p] == SlotView::Existing { index: e.0, bindings: e.1 });
        match groups[e.0] {
            Some(bs) => {
                lemma_kept_bindings(bs, key);
            },
            None => {},
        }
    }
}

/// Law: a successful install leaves exactly one new group in the keymap,
/// and no other group left empty or binding another key to Issue Jumper's
/// task.
pub proof fn law_keymap_installs_once(
    groups: Seq<Option<Seq<BindingView>>>,
    key: Seq<char>,
    force: bool,
)
    requires
        !key_conflict(groups, key, force),
    ensures
        keymap_merge(groups, key, force) == Ok::<Seq<SlotView>, ErrorView>(
            placed(cleaned_groups(groups, key), key),
        ),
        exists|k: int| sole_installed(placed(cleaned_groups(groups, key), key), k),
        forall|j: int|
            0 <= j < placed(cleaned_groups(groups, key), key).len() ==> slot_in_order(
                #[trigger] placed(cleaned_groups(groups, key), key)[j],
                key,
            ),
{
    let c = cleaned_groups(groups, key);
    let slots = placed(c, key);
    lemma_cleaned_in_order(groups, key);
    lemma_first_holding(c, key);
    lemma_cleaned_groups(groups, key);
    let base = as_slots(c);
    assert forall|j: int| 0 <= j < base.len() implies !(#[trigger] base[j] is Installed) by {}
    match first_holding(c, key) {
        None => {
            assert(slots[c.len() as int] is Installed);
            assert forall|j: int| 0 <= j < slots.len() && j != c.len() implies !(
            #[trigger] slots[j] is Installed) by {
                assert(slots[j] == base[j]);
            }
            assert(sole_installed(slots, c.len() as int));
            assert forall|j: int| 0 <= j < slots.len() implies slot_in_order(#[trigger] slots[j], key) by {
                if j < c.len() {
                    assert(slots[j] == base[j]);
                }
            }
        },
        Some(k) => {
            let e = c[k];
            match e.1 {
                Some(bs) => {
                    let rem = without_key(bs, key);
                    lemma_without_key(bs, key);
                    assert(slot_in_order(base[k], key));
                    assert forall|i: int| 0 <= i < rem.len() implies keeps(#[trigger] rem[i], key) by {
                        let w = choose|w: int| 0 <= w < bs.len() && bs[w] == rem[i];
                        assert(keeps(bs[w], key));
                    }
                    if rem.len() == 0 {
                        assert(slots[k] is Installed);
                        assert forall|j: int| 0 <= j < slots.len() && j != k implies !(
                        #[trigger] slots[j] is Installed) by {
                            assert(slots[j] == base[j]);
                        }
                        assert(sole_installed(slots, k));
                        assert forall|j: int| 0 <= j < slots.len() implies slot_in_order(
                            #[trigger] slots[j],
                            key,
                        ) by {
                            if j != k {
                                assert(slots[j] == base[j]);
                            }
                        }
                    } else {
                        assert(slots[c.len() as int] is Installed);
                        assert forall|j: int| 0 <= j < slots.len() && j != c.len() implies !(
                        #[trigger] slots[j] is Installed) by {
                            if j != k {
                                assert(slots[j] == base[j]);
                            }
                        }
                        assert(sole_installed(slots, c.len() as int));
                        assert forall|j: int| 0 <= j < slots.len() implies slot_in_order(
                            #[trigger] slots[j],
                            key,
                        ) by {
                            if j < c.len() && j != k {
                                assert(slots[j] == base[j]);
                            }
                        }
                    }
                },
                None => {},
            }
        },
    }
}

/// The merged group at `p` comes from group `i` and still has binding `b`.
pub open spec fn keeps_binding_at(slots: Seq<SlotView>, p: int, i: int, b: BindingView) -> bool {
    &&& 0 <= p < slots.len()
    &&& match slots[p] {
        SlotView::Existing { index, bindings } => index == i && match bindings {
            Some(bs) => bs.contains(b),
            None => false,
        },
        SlotView::Installed => false,
    }
}

/// The merged group at `p` is group `i`, which has no `bindings` object.
pub open spec fn keeps_group_at(slots: Seq<SlotView>, p: int, i: int) -> bool {
    0 <= p < slots.len() && slots[p] == SlotView::Existing { index: i, bindings: None }
}

/// What becomes of the cleaned group at `p`: it stays, but for the one
/// that binds `key` first, which loses that binding, or gives way to the new
/// group when nothing else is left of it.
pub open spec fn slot_for(cleaned: Seq<(int, Option<Seq<BindingView>>)>, key: Seq<char>, p: int) -> SlotView {
    if first_holding(cleaned, key) == Some(p) {
        match cleaned[p].1 {
            Some(bs) => if without_key(bs, key).len() == 0 {
                SlotView::Installed
            } else {
                SlotView::Existing { index: cleaned[p].0, bindings: Some(without_key(bs, key)) }
            },
            None => SlotView::Installed,
        }
    } else {
        SlotView::Existing { index: cleaned[p].0, bindings: cleaned[p].1 }
    }
}

/// Where the cleaned groups stand in the merged keymap.
proof fn lemma_placed_positions(cleaned: Seq<(int, Option<Seq<BindingView>>)>, key: Seq<char>, p: int)
    requires
        0 <= p < cleaned.len(),
    ensures
        placed(cleaned, key)[p] == slot_for(cleaned, key, p),
        first_holding(cleaned, key) == Some(p) ==> cleaned[p].1 is Some,
        placed(cleaned, key).len() >= cleaned.len(),
{
    lemma_first_holding(cleaned, key);
}

/// The merged keymap, once no conflict stops the install.
pub open spec fn merged_slots(groups: Seq<Option<Seq<BindingView>>>, key: Seq<char>) -> Seq<SlotView> {
    placed(cleaned_groups(groups, key), key)
}

/// A binding of someone else's to another key than `key`.
pub open spec fn other_binding(b: BindingView, key: Seq<char>) -> bool {
    b.key != key && !spawns_issue_jumper(b.task_name)
}

/// Group `i` lives on in `slots`: if it has no `bindings` object, as it
/// is; otherwise each binding of someone else's to another key stays in a
/// group that comes from it.
pub open spec fn group_lives_on(
    groups: Seq<Option<Seq<BindingView>>>,
    key: Seq<char>,
    slots: Seq<SlotView>,
    i: int,
) -> bool {
    match groups[i] {
        None => exists|p: int| keeps_group_at(slots, p, i),
        Some(bs) => forall|j: int|
            0 <= j < bs.len() && other_binding(bs[j], key) ==> exists|p: int|
                keeps_binding_at(slots, p, i, #[trigger] bs[j]),
    }
}

/// The groups of `slots` that come from the file as read come in the
/// order they had there, from groups that exist.
pub open spec fn keeps_file_order(slots: Seq<SlotView>, n: int) -> bool {
    forall|p: int, q: int|
        0 <= p < q < slots.len() ==> match (#[trigger] slots[p], #[trigger] slots[q]) {
            (SlotView::Existing { index: a, .. }, SlotView::Existing { index: b, .. }) => 0 <= a < b
                < n,
            _ => true,
        }
}

/// Law: an install keeps every binding of another key that is not Issue
/// Jumper's, in the group it was in, and every group without a `bindings`
/// object.
pub proof fn law_keymap_keeps_other_bindings(
    groups: Seq<Option<Seq<BindingView>>>,
    key: Seq<char>,
    force: bool,
    i: int,
)
    requires
        !key_conflict(groups, key, force),
        0 <= i < groups.len(),
    ensures
        group_lives_on(groups, key, merged_slots(groups, key), i),
{
    let c = cleaned_groups(groups, key);
    let slots = placed(c, key);
    lemma_cleaned_groups(groups, key);
    match groups[i] {
        None => {
            assert(survives(groups[i], key));
            let p = choose|p: int| 0 <= p < c.len() && (#[trigger] c[p]).0 == i;
            lemma_placed_positions(c, key, p);
            lemma_first_holding(c, key);
            assert(keeps_group_at(slots, p, i));
        },
        Some(bs) => {
            let kept = kept_bindings(bs, key);
            lemma_kept_bindings(bs, key);
            lemma_without_key(kept, key);
            assert forall|j: int| 0 <= j < bs.len() && other_binding(bs[j], key) implies exists|p: int|
                keeps_binding_at(slots, p, i, #[trigger] bs[j]) by {
                assert(keeps(bs[j], key));
                assert(kept.contains(bs[j]));
                assert(survives(groups[i], key));
                let p = choose|p: int| 0 <= p < c.len() && (#[trigger] c[p]).0 == i;
                lemma_placed_positions(c, key, p);
                assert(without_key(kept, key).contains(bs[j]));
                assert(keeps_binding_at(slots, p, i, bs[j]));
            }
        },
    }
}

/// Law: an install keeps the groups that stay in the order they had.
pub proof fn law_keymap_keeps_order(groups: Seq<Option<Seq<BindingView>>>, key: Seq<char>, force: bool)
    requires
        !key_conflict(groups, key, force),
    ensures
        keeps_file_order(merged_slots(groups, key), groups.len() as int),
{
    let c = cleaned_groups(groups, key);
    let slots = placed(c, key);
    lemma_cleaned_groups(groups, key);
    lemma_first_holding(c, key);
    assert forall|p: int, q: int| 0 <= p < q < slots.len() implies match (
        #[trigger] slots[p],
        #[trigger] slots[q],
    ) {
        (SlotView::Existing { index: a, .. }, SlotView::Existing { index: b, .. }) => 0 <= a < b
            < groups.len(),
        _ => true,
    } by {
        if q < c.len() {
            lemma_placed_positions(c, key, p);
            lemma_placed_positions(c, key, q);
        } else if p < c.len() {
            lemma_placed_positions(c, key, p);
        }
    }
}

/// Law: a key that is bound to something other than Issue Jumper's task is
/// not taken over without `force`, and is with it.
pub proof fn law_foreign_key_needs_force(groups: Seq<Option<Seq<BindingView>>>, key: Seq<char>)
    requires
        existing_binding(groups, key) matches Some(b) && !spawns_issue_jumper(b.task_name),
    ensures
        keymap_merge(groups, key, false) == Err::<Seq<SlotView>, ErrorView>(
            ErrorView::ZedKeyConflict(key),
        ),
        keymap_merge(groups, key, true) is Ok,
{
}

// ---------------------------------------------------------------------------
// Installing again
// ---------------------------------------------------------------------------

/// The group that [`keymap_template`] adds: `key` spawns Issue Jumper's task.
pub open spec fn installed_group(key: Seq<char>) -> Option<Seq<BindingView>> {
    Some(seq![BindingView { key: key, task_name: Some(task_label_text()) }])
}

/// The keymap once the merge is written: each kept group with its bindings,
/// and the new group.
pub open spec fn applied(slots: Seq<SlotView>, key: Seq<char>) -> Seq<Option<Seq<BindingView>>> {
    slots.map_values(
        |s: SlotView|
            match s {
                SlotView::Existing { bindings, .. } => bindings,
                SlotView::Installed => installed_group(key),
            },
    )
}

/// No kept group binds `key`: only the new group does.
pub open spec fn only_new_group_binds(slots: Seq<SlotView>, key: Seq<char>) -> bool {
    forall|j: int|
        0 <= j < slots.len() ==> match #[trigger] slots[j] {
            SlotView::Existing { bindings, .. } => group_binding(bindings, key) is None,
            SlotView::Installed => true,
        }
}

/// Bindings that all stay are kept as they are.
proof fn lemma_kept_all(bs: Seq<BindingView>, key: Seq<char>)
    requires
        forall|i: int| 0 <= i < bs.len() ==> keeps(#[trigger] bs[i], key),
    ensures
        kept_bindings(bs, key) == bs,
    decreases bs.len(),
{
    if bs.len() > 0 {
        let init = bs.drop_last();
        assert forall|i: int| 0 <= i < init.len() implies keeps(#[trigger] init[i], key) by {
            assert(init[i] == bs[i]);
        }
        lemma_kept_all(init, key);
        assert(keeps(bs[bs.len() - 1], key));
        assert(init.push(bs.last()) =~= bs);
    }
}

/// A group is in order for cleaning: no `bindings` object, or bindings that
/// all stay and are not empty.
pub open spec fn clean_group(g: Option<Seq<BindingView>>, key: Seq<char>) -> bool {
    match g {
        Some(bs) => bs.len() > 0 && forall|i: int| 0 <= i < bs.len() ==> keeps(#[trigger] bs[i], key),
        None => true,
    }
}

/// Cleaning groups that are all in order keeps each of them, in place.
proof fn lemma_cleaned_all(groups: Seq<Option<Seq<BindingView>>>, key: Seq<char>)
    requires
        forall|j: int| 0 <= j < groups.len() ==> clean_group(#[trigger] groups[j], key),
    ensures
        cleaned_groups(groups, key).len() == groups.len(),
        forall|j: int|
            0 <= j < groups.len() ==> #[trigger] cleaned_groups(groups, key)[j] == (j, groups[j]),
    decreases groups.len(),
{
    if groups.len() > 0 {
        let init = groups.drop_last();
        assert forall|j: int| 0 <= j < init.len() implies clean_group(#[trigger] init[j], key) by {
            assert(init[j] == groups[j]);
        }
        lemma_cleaned_all(init, key);
        let last = groups.len() - 1;
        assert(clean_group(groups[last], key));
        match groups.last() {
            Some(bs) => {
                lemma_kept_all(bs, key);
            },
            None => {},
        }
        let c = cleaned_groups(groups, key);
        assert forall|j: int| 0 <= j < groups.len() implies #[trigger] c[j] == (j, groups[j]) by {
            if j < last {
                assert(init[j] == groups[j]);
            }
        }
    }
}

/// `first_holding` finds the only group that binds `key`.
proof fn lemma_first_holding_at(cleaned: Seq<(int, Option<Seq<BindingView>>)>, key: Seq<char>, k: int)
    requires
        0 <= k < cleaned.len(),
        group_binding(cleaned[k].1, key) is Some,
        forall|j: int| 0 <= j < k ==> group_binding((#[trigger] cleaned[j]).1, key) is None,
    ensures
        first_holding(cleaned, key) == Some(k),
    decreases cleaned.len(),
{
    let init = cleaned.drop_last();
    if k < cleaned.len() - 1 {
        assert forall|j: int| 0 <= j < k implies group_binding((#[trigger] init[j]).1, key) is None by {
            assert(init[j] == cleaned[j]);
        }
        assert(init[k] == cleaned[k]);
        lemma_first_holding_at(init, key, k);
    } else {
        assert forall|j: int| 0 <= j < init.len() implies group_binding((#[trigger] init[j]).1, key) is None by {
            assert(init[j] == cleaned[j]);
        }
        lemma_no_holding(init, key);
    }
}

/// No cleaned group binds `key`: `first_holding` finds none.
proof fn lemma_no_holding(cleaned: Seq<(int, Option<Seq<BindingView>>)>, key: Seq<char>)
    requires
        forall|j: int| 0 <= j < cleaned.len() ==> group_binding((#[trigger] cleaned[j]).1, key) is None,
    ensures
        first_holding(cleaned, key) is None,
    decreases cleaned.len(),
{
    if cleaned.len() > 0 {
        let init = cleaned.drop_last();
        assert forall|j: int| 0 <= j < init.len() implies group_binding((#[trigger] init[j]).1, key) is None by {
            assert(init[j] == cleaned[j]);
        }
        lemma_no_holding(init, key);
        assert(group_binding(cleaned[cleaned.len() - 1].1, key) is None);
    }
}

/// The binding of `key` that the groups hold is that of the first group
/// that binds it.
proof fn lemma_existing_binding_at(groups: Seq<Option<Seq<BindingView>>>, key: Seq<char>, k: int)
    requires
        0 <= k < groups.len(),
        group_binding(groups[k], key) is Some,
        forall|j: int| 0 <= j < k ==> group_binding(#[trigger] groups[j], key) is None,
    ensures
        existing_binding(groups, key) == group_binding(groups[k], key),
    decreases k,
{
    if k > 0 {
        let rest = groups.drop_first();
        assert forall|j: int| 0 <= j < k - 1 implies group_binding(#[trigger] rest[j], key) is None by {
            assert(rest[j] == groups[j + 1]);
        }
        assert(rest[k - 1] == groups[k]);
        assert(group_binding(groups[0], key) is None);
        lemma_existing_binding_at(rest, key, k - 1);
    }
}

/// Law: once an install has left only the new group binding the key,
/// installing again finds no conflict, even without `force`, and leaves the
/// keymap as it is.
pub proof fn law_reinstall_changes_nothing(
    groups: Seq<Option<Seq<BindingView>>>,
    key: Seq<char>,
    force: bool,
)
    requires
        !key_conflict(groups, key, force),
        only_new_group_binds(merged_slots(groups, key), key),
    ensures
        !key_conflict(applied(merged_slots(groups, key), key), key, false),
        applied(merged_slots(applied(merged_slots(groups, key), key), key), key) == applied(
            merged_slots(groups, key),
            key,
        ),
{
    let s1 = merged_slots(groups, key);
    law_keymap_installs_once(groups, key, force);
    let k = choose|k: int| sole_installed(s1, k);
    let g1 = applied(s1, key);
    let b0 = BindingView { key: key, task_name: Some(task_label_text()) };
    assert(g1.len() == s1.len());
    assert(g1[k] == installed_group(key));
    assert(binding_for(seq![b0], key) == Some(b0));
    assert(group_binding(g1[k], key) == Some(b0));
    assert forall|j: int| 0 <= j < g1.len() && j != k implies group_binding(#[trigger] g1[j], key) is None by {
        assert(s1[j] is Existing);
    }
    lemma_existing_binding_at(g1, key, k);
    assert(!key_conflict(g1, key, false));

    assert forall|j: int| 0 <= j < g1.len() implies clean_group(#[trigger] g1[j], key) by {
        assert(slot_in_order(s1[j], key));
        if j == k {
            assert(keeps(b0, key));
            assert(seq![b0][0] == b0);
        }
    }
    lemma_cleaned_all(g1, key);
    let c = cleaned_groups(g1, key);
    assert forall|j: int| 0 <= j < k implies group_binding((#[trigger] c[j]).1, key) is None by {
        assert(c[j] == (j, g1[j]));
    }
    assert(c[k] == (k, g1[k]));
    lemma_first_holding_at(c, key, k);
    assert(without_key(seq![b0], key) =~= Seq::<BindingView>::empty()) by {
        let one = seq![b0];
        assert(one.drop_last() =~= Seq::<BindingView>::empty());
        assert(one.last() == b0);
        assert(without_key(one.drop_last(), key) == Seq::<BindingView>::empty());
    }
    let s2 = placed(c, key);
    assert(s2 == as_slots(c).update(k, SlotView::Installed));
    let g2 = applied(s2, key);
    assert forall|j: int| 0 <= j < g1.len() implies #[trigger] g2[j] == g1[j] by {
        if j != k {
            assert(c[j] == (j, g1[j]));
            assert(s2[j] == SlotView::Existing { index: j, bindings: g1[j] });
        }
    }
    assert(g2 =~= g1);
}

} // verus!
