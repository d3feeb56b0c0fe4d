use issue_jumper::error::IssueJumperError;
use issue_jumper::zed::{
    install_zed, install_zed_from, is_issue_jumper_binding, is_issue_jumper_command, keymap_template,
    merge_keymap, merge_task, task_label, task_template, zed_config_dir, InstallOptions, KeyBinding,
    KeymapGroup, KeymapSlot, TaskEntry, TaskMerge,
};

const TASK_LABEL: &str = "Issue Jumper: Open Current Issue";

fn ours(key: &str) -> KeyBinding {
    KeyBinding { key: key.to_string(), task_name: Some(TASK_LABEL.to_string()) }
}

fn foreign(key: &str) -> KeyBinding {
    KeyBinding { key: key.to_string(), task_name: None }
}

fn group(bindings: Vec<KeyBinding>) -> KeymapGroup {
    KeymapGroup { bindings: Some(bindings) }
}

fn task(label: Option<&str>, command: Option<&str>) -> TaskEntry {
    TaskEntry { label: label.map(str::to_string), command: command.map(str::to_string) }
}

fn kept_keys(slot: &KeymapSlot) -> Option<(usize, Vec<String>)> {
    match slot {
        KeymapSlot::Existing { index, bindings: Some(bs) } => {
            Some((*index, bs.iter().map(|b| b.key.clone()).collect()))
        }
        _ => None,
    }
}

#[test]
fn task_label_returns_constant() {
    assert_eq!(task_label(), TASK_LABEL);
}

#[test]
fn zed_config_dir_uses_platform_home() {
    let path = zed_config_dir(Some("/home/someone".to_string())).unwrap();
    assert!(path.ends_with(".config/zed"));
    assert_eq!(path, "/home/someone/.config/zed");
    assert!(zed_config_dir(None).is_none());
}

#[test]
fn install_zed_reports_current_executable_error() {
    let err = install_zed_from(
        InstallOptions { key: "alt-i".to_string(), force: false, print: false },
        Err(IssueJumperError::Io("missing executable".to_string())),
        None,
    )
    .unwrap_err();

    assert!(matches!(err, IssueJumperError::Io(message) if message == "missing executable"));
}

#[test]
fn install_zed_prints_templates_without_config_dir() {
    let plan = install_zed(
        InstallOptions { key: "alt-i".to_string(), force: false, print: true },
        "/usr/local/bin/issue-jumper",
        None,
    )
    .unwrap();
    assert!(plan.write_to.is_none());
    assert_eq!(plan.task.command, "/usr/local/bin/issue-jumper");
}

#[test]
fn install_zed_requires_config_dir_when_not_printing() {
    let err = install_zed(
        InstallOptions { key: "alt-i".to_string(), force: false, print: false },
        "/usr/local/bin/issue-jumper",
        None,
    )
    .unwrap_err();

    assert!(matches!(err, IssueJumperError::ZedConfigPathNotFound));
}

#[test]
fn install_zed_writes_to_injected_config_dir() {
    let plan = install_zed(
        InstallOptions { key: "cmd-i".to_string(), force: false, print: false },
        "/usr/local/bin/issue-jumper",
        Some("/tmp/zed".to_string()),
    )
    .unwrap();
    assert_eq!(plan.write_to.as_deref(), Some("/tmp/zed"));
    assert_eq!(plan.task.command, "/usr/local/bin/issue-jumper");
    assert_eq!(plan.keymap.key, "cmd-i");
    assert_eq!(plan.keymap.task_name, TASK_LABEL);
}

#[test]
fn install_zed_from_writes_to_injected_config_dir() {
    let plan = install_zed_from(
        InstallOptions { key: "cmd-i".to_string(), force: false, print: false },
        Ok("/usr/local/bin/issue-jumper".to_string()),
        Some("/tmp/zed".to_string()),
    )
    .unwrap();
    assert_eq!(plan.task.command, "/usr/local/bin/issue-jumper");
}

#[test]
fn templates_hold_the_task_and_binding() {
    let t = task_template("/usr/local/bin/issue-jumper");
    assert_eq!(t.label, TASK_LABEL);
    assert_eq!(t.args, vec!["open", "--repo", "$ZED_WORKTREE_ROOT"]);
    assert_eq!(t.cwd, "$ZED_WORKTREE_ROOT");
    assert_eq!(t.reveal, "never");
    assert_eq!(t.hide, "on_success");
    assert_eq!(t.save, "none");
    assert!(!t.use_new_terminal && !t.allow_concurrent_runs && !t.show_summary && !t.show_command);
    let k = keymap_template("alt-i");
    assert_eq!(k.context, "Editor || Workspace");
    assert_eq!(k.action, "task::Spawn");
    assert!(k.use_key_equivalents);
}

#[test]
fn installs_task_and_keymap_into_empty_config_dir() {
    assert!(matches!(merge_task("tasks.json", &Vec::new()).unwrap(), TaskMerge::Append));
    let slots = merge_keymap(&Vec::new(), "alt-i", false).unwrap();
    assert_eq!(slots.len(), 1);
    assert!(matches!(slots[0], KeymapSlot::Installed));
}

#[test]
fn refuses_to_overwrite_foreign_key_binding_without_force() {
    let groups = vec![group(vec![foreign("alt-i")])];
    let err = merge_keymap(&groups, "alt-i", false).unwrap_err();
    assert!(matches!(err, IssueJumperError::ZedKeyConflict(key) if key == "alt-i"));
}

#[test]
fn force_overwrites_foreign_key_binding() {
    let groups = vec![group(vec![foreign("alt-i")])];
    let slots = merge_keymap(&groups, "alt-i", true).unwrap();
    assert_eq!(slots.len(), 1);
    assert!(matches!(slots[0], KeymapSlot::Installed));
}

#[test]
fn updates_existing_issue_jumper_binding() {
    let groups = vec![group(vec![ours("alt-i")])];
    let slots = merge_keymap(&groups, "cmd-i", false).unwrap();
    assert_eq!(slots.len(), 1);
    assert!(matches!(slots[0], KeymapSlot::Installed));
}

#[test]
fn updates_existing_workspace_issue_jumper_binding_to_global_context() {
    let groups = vec![group(vec![ours("alt-i")])];
    let slots = merge_keymap(&groups, "alt-i", false).unwrap();
    assert_eq!(slots.len(), 1);
    assert!(matches!(slots[0], KeymapSlot::Installed));
}

#[test]
fn preserves_neighbor_bindings_when_moving_issue_jumper_keymap_context() {
    let groups = vec![group(vec![ours("alt-i"), foreign("cmd-k")])];
    let slots = merge_keymap(&groups, "alt-i", false).unwrap();
    assert_eq!(slots.len(), 2);
    assert_eq!(kept_keys(&slots[0]), Some((0, vec!["cmd-k".to_string()])));
    assert!(matches!(slots[1], KeymapSlot::Installed));
}

#[test]
fn removes_old_issue_jumper_binding_when_installing_new_key() {
    let groups = vec![group(vec![ours("alt-i"), foreign("cmd-k")])];
    let slots = merge_keymap(&groups, "ctrl-i", false).unwrap();
    assert_eq!(slots.len(), 2);
    assert_eq!(kept_keys(&slots[0]), Some((0, vec!["cmd-k".to_string()])));
    assert!(matches!(slots[1], KeymapSlot::Installed));
}

#[test]
fn updates_existing_issue_jumper_task() {
    let tasks = vec![task(Some(TASK_LABEL), Some("/old/issue-jumper"))];
    assert!(matches!(merge_task("tasks.json", &tasks).unwrap(), TaskMerge::Replace(0)));
}

#[test]
fn updates_legacy_zed_issue_jumper_task() {
    let tasks = vec![task(Some(TASK_LABEL), Some("/old/zed-issue-jumper"))];
    assert!(matches!(merge_task("tasks.json", &tasks).unwrap(), TaskMerge::Replace(0)));
}

#[test]
fn updates_existing_task_label_without_command() {
    let tasks = vec![task(Some("npm test"), Some("npm test")), task(Some(TASK_LABEL), None)];
    assert!(matches!(merge_task("tasks.json", &tasks).unwrap(), TaskMerge::Replace(1)));
}

#[test]
fn refuses_existing_task_label_with_foreign_command() {
    let tasks = vec![task(Some(TASK_LABEL), Some("/bin/echo"))];
    let err = merge_task("/cfg/tasks.json", &tasks).unwrap_err();
    assert!(
        matches!(err, IssueJumperError::ZedConfigInvalidJson(message) if message.contains("different command"))
    );
}

#[test]
fn refuses_existing_task_label_with_issue_jumper_substring_command() {
    let tasks = vec![task(Some(TASK_LABEL), Some("/bin/not-issue-jumper-wrapper"))];
    let err = merge_task("/cfg/tasks.json", &tasks).unwrap_err();
    assert!(
        matches!(err, IssueJumperError::ZedConfigInvalidJson(message) if message.contains("different command"))
    );
}

// Further cases of the merge.

#[test]
fn refusal_names_the_file_and_label() {
    let tasks = vec![task(Some(TASK_LABEL), Some("/bin/echo"))];
    let err = merge_task("/cfg/tasks.json", &tasks).unwrap_err();
    assert!(matches!(err, IssueJumperError::ZedConfigInvalidJson(m)
        if m == "/cfg/tasks.json contains task label `Issue Jumper: Open Current Issue` with a different command"));
}

#[test]
fn other_tasks_are_left_alone() {
    let tasks = vec![task(Some("npm test"), Some("npm test")), task(None, None)];
    assert!(matches!(merge_task("tasks.json", &tasks).unwrap(), TaskMerge::Append));
}

#[test]
fn recognises_issue_jumper_commands_by_file_name() {
    assert!(is_issue_jumper_command("issue-jumper"));
    assert!(is_issue_jumper_command("/usr/local/bin/issue-jumper"));
    assert!(is_issue_jumper_command("C:\\Tools\\issue-jumper.exe"));
    assert!(is_issue_jumper_command("/old/zed-issue-jumper"));
    assert!(!is_issue_jumper_command("/bin/issue-jumper-wrapper"));
    assert!(!is_issue_jumper_command("/usr/local/bin/issue-jumper/"));
    assert!(is_issue_jumper_binding(&Some(TASK_LABEL.to_string())));
    assert!(!is_issue_jumper_binding(&Some("npm test".to_string())));
    assert!(!is_issue_jumper_binding(&None));
}

#[test]
fn keeps_groups_without_bindings_and_drops_emptied_groups() {
    let groups = vec![
        KeymapGroup { bindings: None },
        group(vec![ours("alt-x")]),
        group(vec![foreign("cmd-k"), ours("alt-y")]),
    ];
    let slots = merge_keymap(&groups, "alt-i", false).unwrap();
    assert_eq!(slots.len(), 3);
    assert!(matches!(slots[0], KeymapSlot::Existing { index: 0, bindings: None }));
    assert_eq!(kept_keys(&slots[1]), Some((2, vec!["cmd-k".to_string()])));
    assert!(matches!(slots[2], KeymapSlot::Installed));
}

#[test]
fn only_the_first_group_binding_the_key_loses_it() {
    let groups = vec![
        group(vec![foreign("cmd-k"), foreign("alt-i")]),
        group(vec![foreign("alt-i")]),
    ];
    let slots = merge_keymap(&groups, "alt-i", true).unwrap();
    assert_eq!(slots.len(), 3);
    assert_eq!(kept_keys(&slots[0]), Some((0, vec!["cmd-k".to_string()])));
    assert_eq!(kept_keys(&slots[1]), Some((1, vec!["alt-i".to_string()])));
    assert!(matches!(slots[2], KeymapSlot::Installed));
}

fn applied(groups: &[KeymapGroup], slots: &[KeymapSlot], key: &str) -> Vec<KeymapGroup> {
    slots
        .iter()
        .map(|slot| match slot {
            KeymapSlot::Existing { index, bindings } => KeymapGroup {
                bindings: bindings.as_ref().map(|bs| {
                    bs.iter().map(|b| KeyBinding { key: b.key.clone(), task_name: b.task_name.clone() }).collect()
                }),
            },
            KeymapSlot::Installed => {
                let _ = groups;
                group(vec![ours(key)])
            }
        })
        .collect()
}

fn keys_of(groups: &[KeymapGroup]) -> Vec<Option<Vec<(String, bool)>>> {
    groups
        .iter()
        .map(|g| g.bindings.as_ref().map(|bs| bs.iter().map(|b| (b.key.clone(), b.task_name.is_some())).collect()))
        .collect()
}

#[test]
fn installing_again_changes_nothing() {
    let groups = vec![group(vec![foreign("cmd-k"), ours("alt-x")]), KeymapGroup { bindings: None }];
    let first = merge_keymap(&groups, "alt-i", false).unwrap();
    let once = applied(&groups, &first, "alt-i");
    let second = merge_keymap(&once, "alt-i", false).unwrap();
    let twice = applied(&once, &second, "alt-i");
    assert_eq!(keys_of(&once), keys_of(&twice));
    assert_eq!(keys_of(&once), vec![
        Some(vec![("cmd-k".to_string(), false)]),
        None,
        Some(vec![("alt-i".to_string(), true)]),
    ]);
}
