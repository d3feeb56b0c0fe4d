//! The user configuration and how a project configuration overrides an
//! inherited one.

use vstd::prelude::*;
use crate::text::{chars_of, join_path, join_path_spec, PathStyle, listed, lower_chars, lowercase, same, string_from, trim, trim_chars};

verus! {

/// A custom branch rule: a regular expression with a named group `id`.
#[derive(Debug)]
pub struct RawIssueRule {
    pub name: String,
    pub pattern: String,
    pub platform: Option<String>,
}

/// A custom issue tracker with the remote hosts it serves and its URL template.
#[derive(Debug)]
pub struct CustomPlatform {
    pub name: String,
    pub host_patterns: Vec<String>,
    pub url_template: String,
}

/// The configuration read from the global and project configuration files.
#[derive(Debug)]
pub struct UserConfig {
    pub fallback_platform: Option<String>,
    pub redmine_base_url: Option<String>,
    pub clear_inherited_config: bool,
    pub disabled_default_rules: Vec<String>,
    pub disabled_rules: Vec<String>,
    pub issue_rules: Vec<RawIssueRule>,
    pub custom_platforms: Vec<CustomPlatform>,
}

/// One problem found in a configuration file (`path` is `None` for the
/// merged configuration).
#[derive(Debug)]
pub struct ConfigLintError {
    pub path: Option<String>,
    pub message: String,
}

/// The files that were checked and the problems found in them.
#[derive(Debug)]
pub struct ConfigLintReport {
    pub checked_paths: Vec<String>,
    pub errors: Vec<ConfigLintError>,
}

/// The mathematical value of a [`ConfigLintError`].
pub struct LintErrorView {
    pub path: Option<Seq<char>>,
    pub message: Seq<char>,
}

impl View for ConfigLintError {
    type V = LintErrorView;

    open spec fn view(&self) -> LintErrorView {
        LintErrorView { path: self.path.deep_view(), message: self.message@ }
    }
}

/// The views of a list of lint errors.
pub open spec fn lint_errors_view(errors: Seq<ConfigLintError>) -> Seq<LintErrorView> {
    errors.map_values(|e: ConfigLintError| e@)
}

impl ConfigLintReport {
    /// A report with nothing checked and no problems.
    pub fn new() -> (r: Self)
        ensures
            r.checked_paths@.len() == 0,
            r.errors@.len() == 0,
    {
        ConfigLintReport { checked_paths: Vec::new(), errors: Vec::new() }
    }

    /// No problem was found.
    pub fn is_ok(&self) -> (ok: bool)
        ensures
            ok == (self.errors@.len() == 0),
    {
        self.errors.len() == 0
    }
}

/// The mathematical value of a [`RawIssueRule`].
pub struct RuleView {
    pub name: Seq<char>,
    pub pattern: Seq<char>,
    pub platform: Option<Seq<char>>,
}

/// The mathematical value of a [`CustomPlatform`].
pub struct CustomPlatformView {
    pub name: Seq<char>,
    pub host_patterns: Seq<Seq<char>>,
    pub url_template: Seq<char>,
}

/// The mathematical value of a [`UserConfig`].
pub struct ConfigView {
    pub fallback_platform: Option<Seq<char>>,
    pub redmine_base_url: Option<Seq<char>>,
    pub clear_inherited_config: bool,
    pub disabled_default_rules: Seq<Seq<char>>,
    pub disabled_rules: Seq<Seq<char>>,
    pub issue_rules: Seq<RuleView>,
    pub custom_platforms: Seq<CustomPlatformView>,
}

impl View for RawIssueRule {
    type V = RuleView;

    open spec fn view(&self) -> RuleView {
        RuleView { name: self.name@, pattern: self.pattern@, platform: self.platform.deep_view() }
    }
}

impl View for CustomPlatform {
    type V = CustomPlatformView;

    open spec fn view(&self) -> CustomPlatformView {
        CustomPlatformView {
            name: self.name@,
            host_patterns: self.host_patterns.deep_view(),
            url_template: self.url_template@,
        }
    }
}

/// The views of a list of rules.
pub open spec fn rules_view(rules: Seq<RawIssueRule>) -> Seq<RuleView> {
    rules.map_values(|r: RawIssueRule| r@)
}

/// The views of a list of custom platforms.
pub open spec fn platforms_view(ps: Seq<CustomPlatform>) -> Seq<CustomPlatformView> {
    ps.map_values(|p: CustomPlatform| p@)
}

impl View for UserConfig {
    type V = ConfigView;

    open spec fn view(&self) -> ConfigView {
        ConfigView {
            fallback_platform: self.fallback_platform.deep_view(),
            redmine_base_url: self.redmine_base_url.deep_view(),
            clear_inherited_config: self.clear_inherited_config,
            disabled_default_rules: self.disabled_default_rules.deep_view(),
            disabled_rules: self.disabled_rules.deep_view(),
            issue_rules: rules_view(self.issue_rules@),
            custom_platforms: platforms_view(self.custom_platforms@),
        }
    }
}

/// The configuration with every field unset or empty.
pub open spec fn empty_config() -> ConfigView {
    ConfigView {
        fallback_platform: None,
        redmine_base_url: None,
        clear_inherited_config: false,
        disabled_default_rules: Seq::empty(),
        disabled_rules: Seq::empty(),
        issue_rules: Seq::empty(),
        custom_platforms: Seq::empty(),
    }
}

impl Default for UserConfig {
    fn default() -> (c: Self)
        ensures
            c@ == empty_config(),
    {
        let c = UserConfig {
            fallback_platform: None,
            redmine_base_url: None,
            clear_inherited_config: false,
            disabled_default_rules: Vec::new(),
            disabled_rules: Vec::new(),
            issue_rules: Vec::new(),
            custom_platforms: Vec::new(),
        };
        assert(c@.disabled_default_rules =~= Seq::<Seq<char>>::empty());
        assert(c@.disabled_rules =~= Seq::<Seq<char>>::empty());
        assert(c@.issue_rules =~= Seq::<RuleView>::empty());
        assert(c@.custom_platforms =~= Seq::<CustomPlatformView>::empty());
        c
    }
}


// ---------------------------------------------------------------------------
// Merging an override into an inherited configuration
// ---------------------------------------------------------------------------

/// `normalized_platform_name`: trimmed and lower-cased (ASCII).
pub open spec fn normalized_name(v: Seq<char>) -> Seq<char> {
    lowercase(trim(v))
}

/// The rules of `rules` whose names are not in `names`, in order.
pub open spec fn rules_except(rules: Seq<RuleView>, names: Seq<Seq<char>>) -> Seq<RuleView>
    decreases rules.len(),
{
    if rules.len() == 0 {
        Seq::empty()
    } else {
        let rest = rules_except(rules.drop_last(), names);
        if names.contains(rules.last().name) {
            rest
        } else {
            rest.push(rules.last())
        }
    }
}

/// The custom platforms of `ps` whose normalized names are not in `names`, in order.
pub open spec fn platforms_except(ps: Seq<CustomPlatformView>, names: Seq<Seq<char>>) -> Seq<
    CustomPlatformView,
>
    decreases ps.len(),
{
    if ps.len() == 0 {
        Seq::empty()
    } else {
        let rest = platforms_except(ps.drop_last(), names);
        if names.contains(normalized_name(ps.last().name)) {
            rest
        } else {
            rest.push(ps.last())
        }
    }
}

/// The names of a list of rules.
pub open spec fn rule_names(rules: Seq<RuleView>) -> Seq<Seq<char>> {
    rules.map_values(|r: RuleView| r.name)
}

/// The normalized names of a list of custom platforms.
pub open spec fn platform_names(ps: Seq<CustomPlatformView>) -> Seq<Seq<char>> {
    ps.map_values(|p: CustomPlatformView| normalized_name(p.name))
}

/// `merge_override`: a project configuration `o` over the inherited `base`.
/// With `clear_inherited_config` the inherited configuration is dropped
/// first. Set scalar fields of `o` win; lists of disabled rules are joined;
/// the rules and custom platforms of `o` come first and replace inherited
/// ones of the same name (platform names compared normalized). The result
/// never asks to clear again.
pub open spec fn merged(base: ConfigView, o: ConfigView) -> ConfigView {
    let b = if o.clear_inherited_config {
        empty_config()
    } else {
        base
    };
    ConfigView {
        fallback_platform: if o.fallback_platform is Some {
            o.fallback_platform
        } else {
            b.fallback_platform
        },
        redmine_base_url: if o.redmine_base_url is Some {
            o.redmine_base_url
        } else {
            b.redmine_base_url
        },
        clear_inherited_config: false,
        disabled_default_rules: b.disabled_default_rules + o.disabled_default_rules,
        disabled_rules: b.disabled_rules + o.disabled_rules,
        issue_rules: o.issue_rules + rules_except(b.issue_rules, rule_names(o.issue_rules)),
        custom_platforms: o.custom_platforms + platforms_except(
            b.custom_platforms,
            platform_names(o.custom_platforms),
        ),
    }
}

/// `load_config`: the global configuration (or an empty one), overridden by
/// the project configuration when there is one.
pub open spec fn loaded(global: Option<ConfigView>, project: Option<ConfigView>) -> ConfigView {
    let base = match global {
        Some(g) => g,
        None => empty_config(),
    };
    match project {
        Some(p) => merged(base, p),
        None => base,
    }
}

/// Trims and lower-cases a platform name.
pub fn normalized_platform_name(value: &str) -> (out: String)
    ensures
        out@ == normalized_name(value@),
{
    let t = trim_chars(chars_of(value).as_slice());
    string_from(lower_chars(t.as_slice()).as_slice())
}

/// The names of `rules`.
fn names_of_rules(rules: &Vec<RawIssueRule>) -> (names: Vec<String>)
    ensures
        names.deep_view() == rule_names(rules_view(rules@)),
{
    let mut names: Vec<String> = Vec::new();
    let mut i: usize = 0;
    while i < rules.len()
        invariant
            i <= rules@.len(),
            names@.len() == i,
            names.deep_view() == rule_names(rules_view(rules@)).take(i as int),
        decreases rules@.len() - i,
    {
        let ghost before = names@;
        let name = rules[i].name.clone();
        names.push(name);
        assert(names@ == before.push(name));
        assert(names.deep_view()[i as int] == rules@[i as int].name@);
        assert(names.deep_view() =~= rule_names(rules_view(rules@)).take(i + 1));
        i = i + 1;
    }
    assert(rule_names(rules_view(rules@)).take(rules@.len() as int) =~= rule_names(rules_view(rules@)));
    names
}

/// The normalized names of `ps`.
pub(crate) fn names_of_platforms(ps: &Vec<CustomPlatform>) -> (names: Vec<String>)
    ensures
        names.deep_view() == platform_names(platforms_view(ps@)),
{
    let mut names: Vec<String> = Vec::new();
    let mut i: usize = 0;
    while i < ps.len()
        invariant
            i <= ps@.len(),
            names@.len() == i,
            names.deep_view() == platform_names(platforms_view(ps@)).take(i as int),
        decreases ps@.len() - i,
    {
        let ghost before = names@;
        let name = normalized_platform_name(ps[i].name.as_str());
        names.push(name);
        assert(names@ == before.push(name));
        assert(names.deep_view()[i as int] == normalized_name(ps@[i as int].name@));
        assert(names.deep_view() =~= platform_names(platforms_view(ps@)).take(i + 1));
        i = i + 1;
    }
    assert(platform_names(platforms_view(ps@)).take(ps@.len() as int) =~= platform_names(
        platforms_view(ps@),
    ));
    names
}

/// Moves the rules of `rules` whose names are not in `names` to a new list.
fn keep_rules(rules: Vec<RawIssueRule>, names: &Vec<String>) -> (out: Vec<RawIssueRule>)
    ensures
        rules_view(out@) == rules_except(rules_view(rules@), names.deep_view()),
{
    let ghost all = rules_view(rules@);
    let total = rules.len();
    let mut rest = rules;
    let mut out: Vec<RawIssueRule> = Vec::new();
    let mut i: usize = 0;
    let ghost n = all.len();
    assert(all.take(0) =~= Seq::<RuleView>::empty());
    while rest.len() > 0
        invariant
            n == all.len(),
            n == total,
            i + rest@.len() == n,
            rules_view(rest@) == all.skip(i as int),
            rules_view(out@) == rules_except(all.take(i as int), names.deep_view()),
        decreases rest@.len(),
    {
        let ghost before = rest@;
        let r = rest.remove(0);
        assert(rules_view(rest@) =~= all.skip(i + 1)) by {
            assert(rest@ =~= before.drop_first());
            assert(rules_view(rest@) =~= rules_view(before).drop_first());
        }
        assert(r@ == all[i as int]) by {
            assert(rules_view(before)[0] == r@);
        }
        assert(all.take(i + 1).drop_last() =~= all.take(i as int));
        if !listed(names, r.name.as_str()) {
            out.push(r);
            assert(rules_view(out@) =~= rules_except(all.take(i as int), names.deep_view()).push(
                all[i as int],
            ));
        }
        i = i + 1;
    }
    assert(all.take(i as int) =~= all);
    out
}

/// Moves the platforms of `ps` whose normalized names are not in `names` to a new list.
fn keep_platforms(ps: Vec<CustomPlatform>, names: &Vec<String>) -> (out: Vec<CustomPlatform>)
    ensures
        platforms_view(out@) == platforms_except(platforms_view(ps@), names.deep_view()),
{
    let ghost all = platforms_view(ps@);
    let total = ps.len();
    let mut rest = ps;
    let mut out: Vec<CustomPlatform> = Vec::new();
    let mut i: usize = 0;
    let ghost n = all.len();
    assert(all.take(0) =~= Seq::<CustomPlatformView>::empty());
    while rest.len() > 0
        invariant
            n == all.len(),
            n == total,
            i + rest@.len() == n,
            platforms_view(rest@) == all.skip(i as int),
            platforms_view(out@) == platforms_except(all.take(i as int), names.deep_view()),
        decreases rest@.len(),
    {
        let ghost before = rest@;
        let p = rest.remove(0);
        assert(platforms_view(rest@) =~= all.skip(i + 1)) by {
            assert(rest@ =~= before.drop_first());
            assert(platforms_view(rest@) =~= platforms_view(before).drop_first());
        }
        assert(p@ == all[i as int]) by {
            assert(platforms_view(before)[0] == p@);
        }
        assert(all.take(i + 1).drop_last() =~= all.take(i as int));
        let key = normalized_platform_name(p.name.as_str());
        if !listed(names, key.as_str()) {
            out.push(p);
            assert(platforms_view(out@) =~= platforms_except(
                all.take(i as int),
                names.deep_view(),
            ).push(all[i as int]));
        }
        i = i + 1;
    }
    assert(all.take(i as int) =~= all);
    out
}

/// Appends `extra` to `list`.
fn append_strings(list: &mut Vec<String>, extra: Vec<String>)
    ensures
        final(list).deep_view() == old(list).deep_view() + extra.deep_view(),
{
    let mut extra = extra;
    let ghost a = list@;
    let ghost b = extra@;
    list.append(&mut extra);
    assert(list.deep_view() =~= a.map_values(|s: String| s@) + b.map_values(|s: String| s@));
}

impl UserConfig {
    /// Applies the project configuration `override_config` over this
    /// inherited configuration.
    pub fn merge_override(self, override_config: UserConfig) -> (c: UserConfig)
        ensures
            c@ == merged(self@, override_config@),
    {
        let o = override_config;
        let mut base = if o.clear_inherited_config {
            UserConfig::default()
        } else {
            self
        };
        let ghost b = base@;
        let fallback_platform = if o.fallback_platform.is_some() {
            o.fallback_platform
        } else {
            base.fallback_platform
        };
        let redmine_base_url = if o.redmine_base_url.is_some() {
            o.redmine_base_url
        } else {
            base.redmine_base_url
        };
        let mut disabled_default_rules = base.disabled_default_rules;
        append_strings(&mut disabled_default_rules, o.disabled_default_rules);
        let mut disabled_rules = base.disabled_rules;
        append_strings(&mut disabled_rules, o.disabled_rules);
        let rule_name_list = names_of_rules(&o.issue_rules);
        let mut kept_rules = keep_rules(base.issue_rules, &rule_name_list);
        let mut issue_rules = o.issue_rules;
        let ghost r1 = issue_rules@;
        let ghost r2 = kept_rules@;
        issue_rules.append(&mut kept_rules);
        assert(rules_view(issue_rules@) =~= rules_view(r1) + rules_view(r2));
        let platform_name_list = names_of_platforms(&o.custom_platforms);
        let mut kept_platforms = keep_platforms(base.custom_platforms, &platform_name_list);
        let mut custom_platforms = o.custom_platforms;
        let ghost p1 = custom_platforms@;
        let ghost p2 = kept_platforms@;
        custom_platforms.append(&mut kept_platforms);
        assert(platforms_view(custom_platforms@) =~= platforms_view(p1) + platforms_view(p2));
        UserConfig {
            fallback_platform,
            redmine_base_url,
            clear_inherited_config: false,
            disabled_default_rules,
            disabled_rules,
            issue_rules,
            custom_platforms,
        }
    }
}

/// Combines the global and the project configuration as they were read.
pub fn load_config(global: Option<UserConfig>, project: Option<UserConfig>) -> (c: UserConfig)
    ensures
        c@ == loaded(
            match global {
                Some(g) => Some(g@),
                None => None,
            },
            match project {
                Some(p) => Some(p@),
                None => None,
            },
        ),
{
    let base = match global {
        Some(g) => g,
        None => UserConfig::default(),
    };
    match project {
        Some(p) => base.merge_override(p),
        None => base,
    }
}


// ---------------------------------------------------------------------------
// Where the configuration files are
// ---------------------------------------------------------------------------

/// The project configuration files of `repo`, in order of preference:
/// `.zed/issue-jumper.json`, then `.issue-jumper.json`.
pub open spec fn project_paths(repo: Seq<char>, style: PathStyle) -> Seq<Seq<char>> {
    seq![
        join_path_spec(join_path_spec(repo, ".zed"@, style), "issue-jumper.json"@, style),
        join_path_spec(repo, ".issue-jumper.json"@, style),
    ]
}

/// The project configuration files of `repo`, in order of preference.
pub fn project_config_paths(repo: &str, style: PathStyle) -> (paths: Vec<String>)
    ensures
        paths.deep_view() == project_paths(repo@, style),
{
    let zed = join_path(repo, ".zed", style);
    let mut paths: Vec<String> = Vec::new();
    paths.push(join_path(zed.as_str(), "issue-jumper.json", style));
    paths.push(join_path(repo, ".issue-jumper.json", style));
    assert(paths.deep_view() =~= project_paths(repo@, style));
    paths
}

/// `dir/issue-jumper/config.json`.
pub open spec fn config_file_in(dir: Seq<char>, style: PathStyle) -> Seq<char> {
    join_path_spec(join_path_spec(dir, "issue-jumper"@, style), "config.json"@, style)
}

/// The global configuration file: under `%APPDATA%` (given only on
/// Windows), else under `$XDG_CONFIG_HOME`, else under `$HOME/.config`; none
/// when none of them is set.
pub open spec fn global_path(
    appdata: Option<Seq<char>>,
    xdg_config_home: Option<Seq<char>>,
    home: Option<Seq<char>>,
    style: PathStyle,
) -> Option<Seq<char>> {
    match appdata {
        Some(a) => Some(config_file_in(a, style)),
        None => match xdg_config_home {
            Some(x) => Some(config_file_in(x, style)),
            None => match home {
                Some(h) => Some(config_file_in(join_path_spec(h, ".config"@, style), style)),
                None => None,
            },
        },
    }
}

/// `dir/issue-jumper/config.json`.
fn config_file_under(dir: &str, style: PathStyle) -> (p: String)
    ensures
        p@ == config_file_in(dir@, style),
{
    let d = join_path(dir, "issue-jumper", style);
    join_path(d.as_str(), "config.json", style)
}

/// The global configuration file, given the environment variables that
/// locate it.
pub fn global_config_path(
    appdata: Option<String>,
    xdg_config_home: Option<String>,
    home: Option<String>,
    style: PathStyle,
) -> (p: Option<String>)
    ensures
        p.deep_view() == global_path(
            appdata.deep_view(),
            xdg_config_home.deep_view(),
            home.deep_view(),
            style,
        ),
{
    match appdata {
        Some(a) => Some(config_file_under(a.as_str(), style)),
        None => match xdg_config_home {
            Some(x) => Some(config_file_under(x.as_str(), style)),
            None => match home {
                Some(h) => {
                    let c = join_path(h.as_str(), ".config", style);
                    Some(config_file_under(c.as_str(), style))
                },
                None => None,
            },
        },
    }
}

/// The configuration files that are looked for, in the order they apply:
/// the global one (when there is one), then the project ones.
pub fn discovered_config_paths(repo: &str, global: Option<String>, style: PathStyle) -> (paths:
    Vec<String>)
    ensures
        paths.deep_view() == match global {
            Some(g) => seq![g@] + project_paths(repo@, style),
            None => project_paths(repo@, style),
        },
{
    let mut paths: Vec<String> = Vec::new();
    match global {
        Some(g) => {
            paths.push(g);
        },
        None => {},
    }
    let ghost before = paths.deep_view();
    let mut projects = project_config_paths(repo, style);
    let ghost pv = projects.deep_view();
    paths.append(&mut projects);
    assert(paths.deep_view() =~= before + pv);
    paths
}

/// The first of the project configuration files that exists, given which
/// of them exist: only that one is read.
pub fn first_present(present: &[bool]) -> (r: Option<usize>)
    ensures
        match r {
            Some(i) => i < present@.len() && present@[i as int] && forall|j: int|
                0 <= j < i ==> !present@[j],
            None => forall|j: int| 0 <= j < present@.len() ==> !present@[j],
        },
{
    let mut i: usize = 0;
    while i < present.len()
        invariant
            i <= present@.len(),
            forall|j: int| 0 <= j < i ==> !present@[j],
        decreases present@.len() - i,
    {
        if present[i] {
            return Some(i);
        }
        i = i + 1;
    }
    None
}

// ---------------------------------------------------------------------------
// Laws of merging
// ---------------------------------------------------------------------------

/// Removing no names keeps every rule.
pub proof fn lemma_rules_except_nothing(rules: Seq<RuleView>)
    ensures
        rules_except(rules, Seq::empty()) == rules,
    decreases rules.len(),
{
    if rules.len() > 0 {
        lemma_rules_except_nothing(rules.drop_last());
        assert(rules.drop_last().push(rules.last()) =~= rules);
    }
}

/// Removing no names keeps every platform.
pub proof fn lemma_platforms_except_nothing(ps: Seq<CustomPlatformView>)
    ensures
        platforms_except(ps, Seq::empty()) == ps,
    decreases ps.len(),
{
    if ps.len() > 0 {
        lemma_platforms_except_nothing(ps.drop_last());
        assert(ps.drop_last().push(ps.last()) =~= ps);
    }
}

/// No kept rule has one of the removed names, and every kept rule is one of
/// the given rules.
pub proof fn lemma_rules_except_members(rules: Seq<RuleView>, names: Seq<Seq<char>>)
    ensures
        forall|i: int|
            #![trigger rules_except(rules, names)[i]]
            0 <= i < rules_except(rules, names).len() ==> !names.contains(
                rules_except(rules, names)[i].name,
            ) && rules.contains(rules_except(rules, names)[i]),
    decreases rules.len(),
{
    if rules.len() > 0 {
        lemma_rules_except_members(rules.drop_last(), names);
        let rest = rules_except(rules.drop_last(), names);
        assert forall|i: int| #![trigger rules_except(rules, names)[i]] 0 <= i < rules_except(rules, names).len() implies !names.contains(
            rules_except(rules, names)[i].name,
        ) && rules.contains(rules_except(rules, names)[i]) by {
            if i < rest.len() {
                assert(rules_except(rules, names)[i] == rest[i]);
                assert(!names.contains(rest[i].name) && rules.drop_last().contains(rest[i]));
                let k = choose|k: int| 0 <= k < rules.drop_last().len() && rules.drop_last()[k] == rest[i];
                assert(rules.drop_last()[k] == rules[k]);
            } else {
                assert(rules_except(rules, names)[i] == rules.last());
                assert(rules[rules.len() - 1] == rules.last());
            }
        }
    }
}

/// A project configuration with nothing set leaves the inherited
/// configuration as it is (only the request to clear is reset).
pub proof fn law_merge_empty_override(base: ConfigView)
    ensures
        merged(base, empty_config()) == (ConfigView { clear_inherited_config: false, ..base }),
{
    lemma_rules_except_nothing(base.issue_rules);
    lemma_platforms_except_nothing(base.custom_platforms);
    assert(rule_names(Seq::<RuleView>::empty()) =~= Seq::<Seq<char>>::empty());
    assert(platform_names(Seq::<CustomPlatformView>::empty()) =~= Seq::<Seq<char>>::empty());
    assert(Seq::<RuleView>::empty() + base.issue_rules =~= base.issue_rules);
    assert(Seq::<CustomPlatformView>::empty() + base.custom_platforms =~= base.custom_platforms);
    assert(base.disabled_rules + Seq::<Seq<char>>::empty() =~= base.disabled_rules);
    assert(base.disabled_default_rules + Seq::<Seq<char>>::empty() =~= base.disabled_default_rules);
}

/// A project configuration that sets `clear_inherited_config` gives the same
/// result whatever it is merged over.
pub proof fn law_clear_ignores_inherited(a: ConfigView, b: ConfigView, o: ConfigView)
    requires
        o.clear_inherited_config,
    ensures
        merged(a, o) == merged(b, o),
        merged(a, o) == merged(empty_config(), o),
{
}

/// The result of a merge never asks to clear inherited configuration again.
pub proof fn law_merge_result_not_clearing(base: ConfigView, o: ConfigView)
    ensures
        !merged(base, o).clear_inherited_config,
{
}

/// After a merge the project's rules come first, in their order, and every
/// inherited rule that follows has a name that the project does not define
/// and is one of the inherited rules.
pub proof fn law_project_rules_first(base: ConfigView, o: ConfigView)
    requires
        !o.clear_inherited_config,
    ensures
        merged(base, o).issue_rules.take(o.issue_rules.len() as int) == o.issue_rules,
        forall|i: int|
            o.issue_rules.len() <= i < merged(base, o).issue_rules.len() ==> !rule_names(
                o.issue_rules,
            ).contains(#[trigger] merged(base, o).issue_rules[i].name) && base.issue_rules.contains(
                merged(base, o).issue_rules[i],
            ),
{
    let m = merged(base, o).issue_rules;
    let kept = rules_except(base.issue_rules, rule_names(o.issue_rules));
    assert(m.take(o.issue_rules.len() as int) =~= o.issue_rules);
    lemma_rules_except_members(base.issue_rules, rule_names(o.issue_rules));
    assert forall|i: int| o.issue_rules.len() <= i < m.len() implies !rule_names(
        o.issue_rules,
    ).contains(#[trigger] m[i].name) && base.issue_rules.contains(m[i]) by {
        assert(m[i] == kept[i - o.issue_rules.len()]);
    }
}

/// The project's scalar settings win over inherited ones.
pub proof fn law_project_settings_win(base: ConfigView, o: ConfigView)
    ensures
        o.fallback_platform is Some ==> merged(base, o).fallback_platform == o.fallback_platform,
        o.redmine_base_url is Some ==> merged(base, o).redmine_base_url == o.redmine_base_url,
        o.fallback_platform is None && !o.clear_inherited_config ==> merged(base, o).fallback_platform
            == base.fallback_platform,
        o.redmine_base_url is None && !o.clear_inherited_config ==> merged(base, o).redmine_base_url
            == base.redmine_base_url,
{
}

/// Every rule whose name is not removed is kept.
pub proof fn lemma_rules_except_keeps(rules: Seq<RuleView>, names: Seq<Seq<char>>)
    ensures
        forall|j: int|
            0 <= j < rules.len() && !names.contains(rules[j].name) ==> #[trigger] rules_except(
                rules,
                names,
            ).contains(rules[j]),
    decreases rules.len(),
{
    if rules.len() > 0 {
        let init = rules.drop_last();
        lemma_rules_except_keeps(init, names);
        let rest = rules_except(init, names);
        assert forall|j: int| 0 <= j < rules.len() && !names.contains(rules[j].name) implies
            #[trigger] rules_except(rules, names).contains(rules[j]) by {
            if j < rules.len() - 1 {
                assert(init[j] == rules[j]);
                assert(rest.contains(init[j]));
                if !names.contains(rules.last().name) {
                    let w = choose|w: int| 0 <= w < rest.len() && rest[w] == init[j];
                    assert(rest.push(rules.last())[w] == rules[j]);
                }
            } else {
                assert(rest.push(rules.last())[rest.len() as int] == rules[j]);
            }
        }
    }
}

/// Every custom platform whose normalized name is not removed is kept, and
/// every kept one is one of the given platforms, with a name not removed.
pub proof fn lemma_platforms_except_members(ps: Seq<CustomPlatformView>, names: Seq<Seq<char>>)
    ensures
        forall|j: int|
            0 <= j < ps.len() && !names.contains(normalized_name(ps[j].name)) ==> #[trigger] platforms_except(
                ps,
                names,
            ).contains(ps[j]),
        forall|i: int|
            #![trigger platforms_except(ps, names)[i]]
            0 <= i < platforms_except(ps, names).len() ==> !names.contains(
                normalized_name(platforms_except(ps, names)[i].name),
            ) && ps.contains(platforms_except(ps, names)[i]),
    decreases ps.len(),
{
    if ps.len() > 0 {
        let init = ps.drop_last();
        lemma_platforms_except_members(init, names);
        let rest = platforms_except(init, names);
        let all = platforms_except(ps, names);
        assert forall|j: int| 0 <= j < ps.len() && !names.contains(normalized_name(ps[j].name)) implies
            #[trigger] platforms_except(ps, names).contains(ps[j]) by {
            if j < ps.len() - 1 {
                assert(init[j] == ps[j]);
                assert(rest.contains(init[j]));
                if !names.contains(normalized_name(ps.last().name)) {
                    let w = choose|w: int| 0 <= w < rest.len() && rest[w] == init[j];
                    assert(rest.push(ps.last())[w] == ps[j]);
                }
            } else {
                assert(rest.push(ps.last())[rest.len() as int] == ps[j]);
            }
        }
        assert forall|i: int| #![trigger platforms_except(ps, names)[i]] 0 <= i < all.len() implies !names.contains(
            normalized_name(all[i].name),
        ) && ps.contains(all[i]) by {
            if i < rest.len() {
                assert(all[i] == rest[i]);
                assert(!names.contains(normalized_name(rest[i].name)) && init.contains(rest[i]));
                let k = choose|k: int| 0 <= k < init.len() && init[k] == rest[i];
                assert(init[k] == ps[k]);
            } else {
                assert(all[i] == ps.last());
                assert(ps[ps.len() - 1] == ps.last());
            }
        }
    }
}

/// Law: a project that does not clear the inherited configuration keeps
/// every inherited rule whose name it does not define.
pub proof fn law_inherited_rules_kept(base: ConfigView, o: ConfigView)
    requires
        !o.clear_inherited_config,
    ensures
        forall|j: int|
            0 <= j < base.issue_rules.len() && !rule_names(o.issue_rules).contains(
                base.issue_rules[j].name,
            ) ==> #[trigger] merged(base, o).issue_rules.contains(base.issue_rules[j]),
{
    let names = rule_names(o.issue_rules);
    let kept = rules_except(base.issue_rules, names);
    lemma_rules_except_keeps(base.issue_rules, names);
    let m = merged(base, o).issue_rules;
    assert forall|j: int|
        0 <= j < base.issue_rules.len() && !names.contains(base.issue_rules[j].name) implies
        #[trigger] m.contains(base.issue_rules[j]) by {
        assert(kept.contains(base.issue_rules[j]));
        let w = choose|w: int| 0 <= w < kept.len() && kept[w] == base.issue_rules[j];
        assert(m[o.issue_rules.len() + w] == kept[w]);
    }
}

/// Law: after a merge that does not clear the inherited configuration, the
/// project's custom platforms come first, in their order; every inherited
/// platform whose normalized name the project does not define is kept; and
/// every inherited platform that follows is one of those.
pub proof fn law_project_platforms_first(base: ConfigView, o: ConfigView)
    requires
        !o.clear_inherited_config,
    ensures
        merged(base, o).custom_platforms.take(o.custom_platforms.len() as int) == o.custom_platforms,
        forall|j: int|
            0 <= j < base.custom_platforms.len() && !platform_names(o.custom_platforms).contains(
                normalized_name(base.custom_platforms[j].name),
            ) ==> #[trigger] merged(base, o).custom_platforms.contains(base.custom_platforms[j]),
        forall|i: int|
            o.custom_platforms.len() <= i < merged(base, o).custom_platforms.len() ==> !platform_names(
                o.custom_platforms,
            ).contains(normalized_name((#[trigger] merged(base, o).custom_platforms[i]).name))
                && base.custom_platforms.contains(merged(base, o).custom_platforms[i]),
{
    let names = platform_names(o.custom_platforms);
    let kept = platforms_except(base.custom_platforms, names);
    lemma_platforms_except_members(base.custom_platforms, names);
    let m = merged(base, o).custom_platforms;
    assert(m.take(o.custom_platforms.len() as int) =~= o.custom_platforms);
    assert forall|j: int|
        0 <= j < base.custom_platforms.len() && !names.contains(
            normalized_name(base.custom_platforms[j].name),
        ) implies #[trigger] m.contains(base.custom_platforms[j]) by {
        assert(kept.contains(base.custom_platforms[j]));
        let w = choose|w: int| 0 <= w < kept.len() && kept[w] == base.custom_platforms[j];
        assert(m[o.custom_platforms.len() + w] == kept[w]);
    }
    assert forall|i: int| o.custom_platforms.len() <= i < m.len() implies !names.contains(
        normalized_name((#[trigger] m[i]).name),
    ) && base.custom_platforms.contains(m[i]) by {
        assert(m[i] == kept[i - o.custom_platforms.len()]);
    }
}

} // verus!
