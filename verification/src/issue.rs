//! Extracting the issue ID from a branch name with the configured and
//! built-in branch rules.

use vstd::prelude::*;
use regex::Regex;
use crate::config::{empty_config, rules_except, rules_view, ConfigView, RawIssueRule, RuleView, UserConfig};
use crate::error::{ErrorView, IssueJumperError};
use crate::platform::{parse_platform, Platform, PlatformView};
use crate::text::{chars_of, has_infix, join3, listed, owned, str_eq, string_from, trim, trim_chars};

verus! {

// ---------------------------------------------------------------------------
// The regular-expression engine (the `regex` crate)
// ---------------------------------------------------------------------------

#[verifier::external_type_specification]
#[verifier::external_body]
pub struct ExRegex(Regex);

/// A compiled branch pattern, kept with the source text it was compiled from.
pub struct Pattern {
    regex: Regex,
    source: String,
}

impl View for Pattern {
    type V = Seq<char>;

    closed spec fn view(&self) -> Seq<char> {
        self.source@
    }
}

/// What `Regex::new` reports for a pattern it refuses (the `Display` text of
/// its error); `None` for a pattern it compiles.
pub uninterp spec fn regex_error(pattern: Seq<char>) -> Option<Seq<char>>;

/// The names of the capture groups of a compiled pattern, in order
/// (`Regex::capture_names`; unnamed groups are `None`).
pub uninterp spec fn regex_group_names(pattern: Seq<char>) -> Seq<Option<Seq<char>>>;

/// The text that the group `group` captured in the leftmost-first match of
/// `pattern` in `haystack` (`Regex::captures` then `Captures::name`).
pub uninterp spec fn regex_named_capture(
    pattern: Seq<char>,
    haystack: Seq<char>,
    group: Seq<char>,
) -> Option<Seq<char>>;

/// Compiles `pattern` with `Regex::new`. The result is named by
/// `regex_error`: a pattern compiles exactly when it has no error text, and
/// the error text is that of the regex crate's error.
#[verifier::external_body]
pub(crate) fn compile_pattern(pattern: &str) -> (r: Result<Pattern, String>)
    ensures
        match r {
            Ok(p) => p@ == pattern@ && regex_error(pattern@) is None,
            Err(e) => regex_error(pattern@) == Some(e@),
        },
{
    match Regex::new(pattern) {
        Ok(regex) => Ok(Pattern { regex, source: pattern.to_string() }),
        Err(err) => Err(err.to_string()),
    }
}

/// The capture group names of a compiled pattern (`Regex::capture_names`),
/// named by `regex_group_names`.
#[verifier::external_body]
fn group_names(p: &Pattern) -> (names: Vec<Option<String>>)
    ensures
        names.deep_view() == regex_group_names(p@),
{
    p.regex.capture_names().map(|name| name.map(|n| n.to_string())).collect()
}

/// The text captured by the group `group` in the first match of the pattern
/// in `haystack` (`Regex::captures` then `Captures::name`), named by
/// `regex_named_capture`. A capture is a piece of the haystack.
#[verifier::external_body]
fn named_capture(p: &Pattern, haystack: &str, group: &str) -> (r: Option<String>)
    ensures
        r.deep_view() == regex_named_capture(p@, haystack@, group@),
        r matches Some(v) ==> has_infix(haystack@, v@),
{
    p.regex.captures(haystack).and_then(|caps| caps.name(group)).map(|m| m.as_str().to_string())
}

// ---------------------------------------------------------------------------
// Rules
// ---------------------------------------------------------------------------

/// A branch rule ready to be matched.
pub struct IssueRule {
    pub name: String,
    pub pattern: Pattern,
    pub platform_hint: Option<Platform>,
}

/// The issue ID found in a branch, with the rule that found it.
#[derive(Debug)]
pub struct IssueMatch {
    pub issue_id: String,
    pub rule_name: String,
    pub platform_hint: Option<Platform>,
}

/// The mathematical value of an [`IssueMatch`].
pub struct MatchView {
    pub issue_id: Seq<char>,
    pub rule_name: Seq<char>,
    pub platform_hint: Option<PlatformView>,
}

impl View for IssueMatch {
    type V = MatchView;

    open spec fn view(&self) -> MatchView {
        MatchView {
            issue_id: self.issue_id@,
            rule_name: self.rule_name@,
            platform_hint: match self.platform_hint {
                Some(p) => Some(p@),
                None => None,
            },
        }
    }
}

/// The built-in branch rules, in the order in which they are tried.
pub open spec fn default_rule_views() -> Seq<RuleView> {
    seq![
        RuleView { name: "github-gh-prefix"@, pattern: "(?i)\\bGH[-_]?(?P<id>\\d+)\\b"@, platform: None },
        RuleView { name: "issue-prefix"@, pattern: "(?i)\\bissue[-_]?(?P<id>\\d+)\\b"@, platform: None },
        RuleView { name: "hash-number"@, pattern: "#(?P<id>\\d+)\\b"@, platform: None },
        RuleView { name: "leading-number"@, pattern: "^(?P<id>\\d+)[-_]"@, platform: None },
        RuleView { name: "jira-like-key"@, pattern: "\\b(?P<id>[A-Z][A-Z0-9]+-\\d+)\\b"@, platform: None },
        RuleView { name: "trailing-number"@, pattern: "[-_/](?P<id>\\d+)$"@, platform: None },
    ]
}

/// The rules in force: the enabled custom rules, then the enabled built-in ones.
pub open spec fn active_rules(c: ConfigView) -> Seq<RuleView> {
    rules_except(c.issue_rules, c.disabled_rules) + rules_except(default_rule_views(), c.disabled_default_rules)
}

/// Why a rule cannot be used: its pattern does not compile, or it has no
/// group named `id`.
pub open spec fn rule_problem(r: RuleView) -> Option<ErrorView> {
    match regex_error(r.pattern) {
        Some(msg) => Some(
            ErrorView::InvalidConfig("rule `"@ + r.name + "` has invalid regex: "@ + msg),
        ),
        None => if regex_group_names(r.pattern).contains(Some("id"@)) {
            None
        } else {
            Some(
                ErrorView::InvalidConfig(
                    "rule `"@ + r.name + "` must include a named capture group `id`"@,
                ),
            )
        },
    }
}

/// The problem of the first rule that cannot be used.
pub open spec fn first_problem(rules: Seq<RuleView>) -> Option<ErrorView>
    decreases rules.len(),
{
    if rules.len() == 0 {
        None
    } else {
        match rule_problem(rules[0]) {
            Some(e) => Some(e),
            None => first_problem(rules.drop_first()),
        }
    }
}

/// The rules named `name` when a name is given, else all of them.
pub open spec fn selected(rules: Seq<RuleView>, name: Option<Seq<char>>) -> Seq<RuleView>
    decreases rules.len(),
{
    match name {
        None => rules,
        Some(n) => if rules.len() == 0 {
            Seq::empty()
        } else {
            let rest = selected(rules.drop_last(), name);
            if rules.last().name == n {
                rest.push(rules.last())
            } else {
                rest
            }
        },
    }
}

/// The issue ID of the first rule whose `id` group captures text that is not
/// blank once trimmed, with that rule.
pub open spec fn first_match(rules: Seq<RuleView>, branch: Seq<char>) -> Option<(Seq<char>, RuleView)>
    decreases rules.len(),
{
    if rules.len() == 0 {
        None
    } else {
        match regex_named_capture(rules[0].pattern, branch, "id"@) {
            Some(v) => if trim(v).len() > 0 {
                Some((trim(v), rules[0]))
            } else {
                first_match(rules.drop_first(), branch)
            },
            None => first_match(rules.drop_first(), branch),
        }
    }
}

/// `extract_issue`: every rule in force must be usable; with a rule name, only
/// the rules of that name are tried, and a name that no rule has is refused.
pub open spec fn extract_spec(
    branch: Seq<char>,
    c: ConfigView,
    rule_name: Option<Seq<char>>,
) -> Result<MatchView, ErrorView> {
    let rules = active_rules(c);
    match first_problem(rules) {
        Some(e) => Err(e),
        None => {
            let chosen = selected(rules, rule_name);
            if chosen.len() == 0 && rule_name is Some {
                Err(ErrorView::UnknownRule(rule_name->0))
            } else {
                match first_match(chosen, branch) {
                    Some((id, r)) => Ok(
                        MatchView {
                            issue_id: id,
                            rule_name: r.name,
                            platform_hint: match r.platform {
                                Some(p) => Some(parse_platform(p)),
                                None => None,
                            },
                        },
                    ),
                    None => Err(ErrorView::NoMatchingRule(branch)),
                }
            }
        },
    }
}

/// The view of a compiled rule: its name, source pattern and platform hint.
pub open spec fn compiled_view(r: IssueRule) -> (Seq<char>, Seq<char>, Option<PlatformView>) {
    (
        r.name@,
        r.pattern@,
        match r.platform_hint {
            Some(p) => Some(p@),
            None => None,
        },
    )
}

/// The compiled form that a raw rule has.
pub open spec fn raw_compiled_view(r: RuleView) -> (Seq<char>, Seq<char>, Option<PlatformView>) {
    (
        r.name,
        r.pattern,
        match r.platform {
            Some(p) => Some(parse_platform(p)),
            None => None,
        },
    )
}

/// A raw rule with no platform.
fn raw_rule(name: &str, pattern: &str) -> (r: RawIssueRule)
    ensures
        r@ == (RuleView { name: name@, pattern: pattern@, platform: None }),
{
    RawIssueRule { name: owned(name), pattern: owned(pattern), platform: None }
}

/// The built-in branch rules.
fn default_rules() -> (rules: Vec<RawIssueRule>)
    ensures
        rules_view(rules@) == default_rule_views(),
{
    let mut rules: Vec<RawIssueRule> = Vec::new();
    rules.push(raw_rule("github-gh-prefix", "(?i)\\bGH[-_]?(?P<id>\\d+)\\b"));
    rules.push(raw_rule("issue-prefix", "(?i)\\bissue[-_]?(?P<id>\\d+)\\b"));
    rules.push(raw_rule("hash-number", "#(?P<id>\\d+)\\b"));
    rules.push(raw_rule("leading-number", "^(?P<id>\\d+)[-_]"));
    rules.push(raw_rule("jira-like-key", "\\b(?P<id>[A-Z][A-Z0-9]+-\\d+)\\b"));
    rules.push(raw_rule("trailing-number", "[-_/](?P<id>\\d+)$"));
    assert(rules_view(rules@) =~= default_rule_views());
    rules
}

/// The compiled pattern has a capture group named `id`.
pub(crate) fn has_id_group(pattern: &Pattern) -> (r: bool)
    ensures
        r == regex_group_names(pattern@).contains(Some("id"@)),
{
    let names = group_names(pattern);
    let mut found = false;
    let mut i: usize = 0;
    while i < names.len()
        invariant
            i <= names@.len(),
            found == exists|j: int| 0 <= j < i && names.deep_view()[j] == Some("id"@),
        decreases names@.len() - i,
    {
        let here = match &names[i] {
            Some(n) => str_eq(n.as_str(), "id"),
            None => false,
        };
        assert(here == (names.deep_view()[i as int] == Some("id"@)));
        found = found || here;
        i = i + 1;
    }
    assert(found == names.deep_view().contains(Some("id"@)));
    found
}

/// Compiles one raw rule.
fn compile_raw_rule(raw: &RawIssueRule) -> (r: Result<IssueRule, IssueJumperError>)
    ensures
        match r {
            Ok(rule) => rule_problem(raw@) is None && compiled_view(rule) == raw_compiled_view(raw@),
            Err(e) => rule_problem(raw@) == Some(e@),
        },
{
    let pattern = match compile_pattern(raw.pattern.as_str()) {
        Ok(p) => p,
        Err(msg) => {
            let mut m = join3("rule `", raw.name.as_str(), "` has invalid regex: ");
            let text = join3(m.as_str(), msg.as_str(), "");
            proof {
                reveal_strlit("");
            }
            return Err(IssueJumperError::InvalidConfig(text));
        },
    };
    let found = has_id_group(&pattern);
    if !found {
        return Err(
            IssueJumperError::InvalidConfig(
                join3("rule `", raw.name.as_str(), "` must include a named capture group `id`"),
            ),
        );
    }
    let hint = match &raw.platform {
        Some(p) => Some(Platform::parse(p.as_str())),
        None => None,
    };
    Ok(IssueRule { name: raw.name.clone(), pattern, platform_hint: hint })
}

/// The compiled views of a list of rules.
pub open spec fn compiled_views(rules: Seq<IssueRule>) -> Seq<(Seq<char>, Seq<char>, Option<PlatformView>)> {
    rules.map_values(|r: IssueRule| compiled_view(r))
}

/// Compiles the enabled rules of `raws` and appends them to `out`.
fn compile_rules_except(
    raws: &Vec<RawIssueRule>,
    disabled: &Vec<String>,
    out: &mut Vec<IssueRule>,
    Ghost(done): Ghost<Seq<RuleView>>,
) -> (r: Result<(), IssueJumperError>)
    requires
        first_problem(done) is None,
        compiled_views(old(out)@) == done.map_values(|v: RuleView| raw_compiled_view(v)),
    ensures
        match r {
            Ok(()) => {
                let all = done + rules_except(rules_view(raws@), disabled.deep_view());
                &&& first_problem(all) is None
                &&& compiled_views(final(out)@) == all.map_values(|v: RuleView| raw_compiled_view(v))
            },
            Err(e) => first_problem(done + rules_except(rules_view(raws@), disabled.deep_view())) == Some(
                e@,
            ),
        },
{
    let ghost rv = rules_view(raws@);
    let ghost dis = disabled.deep_view();
    let mut i: usize = 0;
    while i < raws.len()
        invariant
            i <= raws@.len(),
            rv == rules_view(raws@),
            dis == disabled.deep_view(),
            first_problem(done + rules_except(rv.take(i as int), dis)) is None,
            compiled_views(out@) == (done + rules_except(rv.take(i as int), dis)).map_values(
                |v: RuleView| raw_compiled_view(v),
            ),
        decreases raws@.len() - i,
    {
        let raw = &raws[i];
        let ghost prev = done + rules_except(rv.take(i as int), dis);
        assert(rv.take(i + 1).drop_last() =~= rv.take(i as int));
        assert(rv.take(i + 1).last() == raw@);
        if !listed(disabled, raw.name.as_str()) {
            assert(done + rules_except(rv.take(i + 1), dis) =~= prev.push(raw@));
            proof {
                lemma_first_problem_push(prev, raw@);
            }
            match compile_raw_rule(raw) {
                Ok(rule) => {
                    proof {
                        lemma_compiled_push(out@, rule);
                        lemma_raw_push(prev, raw@);
                    }
                    out.push(rule);
                },
                Err(e) => {
                    proof {
                        assert(rv =~= rv.take(i + 1) + rv.skip(i + 1));
                        lemma_rules_except_append(rv.take(i + 1), rv.skip(i + 1), dis);
                        assert(done + rules_except(rv, dis) =~= (done + rules_except(rv.take(i + 1), dis))
                            + rules_except(rv.skip(i + 1), dis));
                        lemma_first_problem_prefix(
                            done + rules_except(rv.take(i + 1), dis),
                            rules_except(rv.skip(i + 1), dis),
                        );
                    }
                    return Err(e);
                },
            }
        } else {
            assert(done + rules_except(rv.take(i + 1), dis) =~= prev);
        }
        i = i + 1;
    }
    assert(rv.take(raws@.len() as int) =~= rv);
    Ok(())
}

/// Appending a rule to rules without problems gives the problem of that rule.
proof fn lemma_first_problem_push(rules: Seq<RuleView>, r: RuleView)
    requires
        first_problem(rules) is None,
    ensures
        first_problem(rules.push(r)) == rule_problem(r),
    decreases rules.len(),
{
    if rules.len() > 0 {
        assert(rules.push(r).drop_first() =~= rules.drop_first().push(r));
        assert(rules.push(r)[0] == rules[0]);
        assert(rule_problem(rules[0]) is None);
        lemma_first_problem_push(rules.drop_first(), r);
    } else {
        assert(rules.push(r).drop_first() =~= Seq::<RuleView>::empty());
        assert(rules.push(r)[0] == r);
        assert(first_problem(Seq::<RuleView>::empty()) is None);
    }
}

/// Filtering a concatenation filters each part.
proof fn lemma_rules_except_append(a: Seq<RuleView>, b: Seq<RuleView>, d: Seq<Seq<char>>)
    ensures
        rules_except(a + b, d) == rules_except(a, d) + rules_except(b, d),
    decreases b.len(),
{
    if b.len() == 0 {
        assert(a + b =~= a);
        assert(rules_except(a, d) + rules_except(b, d) =~= rules_except(a, d));
    } else {
        assert((a + b).drop_last() =~= a + b.drop_last());
        assert((a + b).last() == b.last());
        lemma_rules_except_append(a, b.drop_last(), d);
        if !d.contains(b.last().name) {
            assert(rules_except(a, d) + rules_except(b.drop_last(), d).push(b.last()) =~= (rules_except(a, d)
                + rules_except(b.drop_last(), d)).push(b.last()));
        }
    }
}

/// Compiling one more rule extends the compiled views by its view.
proof fn lemma_compiled_push(s: Seq<IssueRule>, x: IssueRule)
    ensures
        compiled_views(s.push(x)) == compiled_views(s).push(compiled_view(x)),
{
    assert(compiled_views(s.push(x)) =~= compiled_views(s).push(compiled_view(x)));
}

/// The raw views of one more rule extend by its compiled form.
proof fn lemma_raw_push(s: Seq<RuleView>, x: RuleView)
    ensures
        s.push(x).map_values(|v: RuleView| raw_compiled_view(v)) == s.map_values(
            |v: RuleView| raw_compiled_view(v),
        ).push(raw_compiled_view(x)),
{
    assert(s.push(x).map_values(|v: RuleView| raw_compiled_view(v)) =~= s.map_values(
        |v: RuleView| raw_compiled_view(v),
    ).push(raw_compiled_view(x)));
}

/// Compiles the rules in force, custom rules first.
fn build_rules(config: &UserConfig) -> (r: Result<Vec<IssueRule>, IssueJumperError>)
    ensures
        match r {
            Ok(rules) => first_problem(active_rules(config@)) is None && compiled_views(rules@)
                == active_rules(config@).map_values(|v: RuleView| raw_compiled_view(v)),
            Err(e) => first_problem(active_rules(config@)) == Some(e@),
        },
{
    let mut rules: Vec<IssueRule> = Vec::new();
    let ghost empty = Seq::<RuleView>::empty();
    assert(compiled_views(rules@) =~= empty.map_values(|v: RuleView| raw_compiled_view(v)));
    let r1 = compile_rules_except(&config.issue_rules, &config.disabled_rules, &mut rules, Ghost(empty));
    let ghost first = empty + rules_except(rules_view(config.issue_rules@), config.disabled_rules.deep_view());
    assert(first =~= rules_except(config@.issue_rules, config@.disabled_rules));
    match r1 {
        Err(e) => {
            proof {
                lemma_first_problem_prefix(first, rules_except(default_rule_views(), config@.disabled_default_rules));
            }
            return Err(e);
        },
        Ok(()) => {},
    }
    let defaults = default_rules();
    let r2 = compile_rules_except(&defaults, &config.disabled_default_rules, &mut rules, Ghost(first));
    match r2 {
        Err(e) => Err(e),
        Ok(()) => Ok(rules),
    }
}

/// A problem in the first part of a list is the first problem of the whole.
proof fn lemma_first_problem_prefix(a: Seq<RuleView>, b: Seq<RuleView>)
    requires
        first_problem(a) is Some,
    ensures
        first_problem(a + b) == first_problem(a),
    decreases a.len(),
{
    if a.len() > 0 {
        assert((a + b).drop_first() =~= a.drop_first() + b);
        if rule_problem(a[0]) is None {
            lemma_first_problem_prefix(a.drop_first(), b);
        }
    }
}

/// Finds the issue ID in `branch`.
pub fn extract_issue(branch: &str, config: &UserConfig, rule_name: Option<&str>) -> (r: Result<
    IssueMatch,
    IssueJumperError,
>)
    ensures
        match r {
            Ok(m) => extract_spec(
                branch@,
                config@,
                match rule_name {
                    Some(n) => Some(n@),
                    None => None,
                },
            ) == Ok::<MatchView, ErrorView>(m@),
            Err(e) => extract_spec(
                branch@,
                config@,
                match rule_name {
                    Some(n) => Some(n@),
                    None => None,
                },
            ) == Err::<MatchView, ErrorView>(e@),
        },
{
    let ghost name_view = match rule_name {
        Some(n) => Some(n@),
        None => None::<Seq<char>>,
    };
    let rules = build_rules(config);
    let rules = match rules {
        Ok(rules) => rules,
        Err(e) => {
            return Err(e);
        },
    };
    let ghost all = active_rules(config@);
    let ghost chosen = selected(all, name_view);
    // Indices of the rules that are tried, in order.
    let mut picked: Vec<usize> = Vec::new();
    let mut i: usize = 0;
    assert(compiled_views(rules@).len() == rules@.len());
    assert(rules@.len() == all.len());
    assert(all.take(0) =~= Seq::<RuleView>::empty());
    while i < rules.len()
        invariant
            i <= rules@.len(),
            compiled_views(rules@) == all.map_values(|v: RuleView| raw_compiled_view(v)),
            rules@.len() == all.len(),
            name_view == match rule_name {
                Some(n) => Some(n@),
                None => None::<Seq<char>>,
            },
            picked@.len() == selected(all.take(i as int), name_view).len(),
            forall|k: int|
                #![trigger picked@[k]]
                0 <= k < picked@.len() ==> picked@[k] < i && all[picked@[k] as int]
                    == selected(all.take(i as int), name_view)[k],
        decreases rules@.len() - i,
    {
        assert(compiled_views(rules@)[i as int] == compiled_view(rules@[i as int]));
        assert(all.take(i + 1).drop_last() =~= all.take(i as int));
        assert(all.take(i + 1).last() == all[i as int]);
        assert(rules@[i as int].name@ == all[i as int].name);
        let take = match rule_name {
            Some(n) => str_eq(rules[i].name.as_str(), n),
            None => true,
        };
        let ghost before = picked@;
        let ghost sel = selected(all.take(i as int), name_view);
        if take {
            picked.push(i);
        }
        proof {
            if name_view is None {
                assert(selected(all.take(i + 1), name_view) == all.take(i + 1));
                assert(selected(all.take(i as int), name_view) == all.take(i as int));
                assert(all.take(i + 1) =~= all.take(i as int).push(all[i as int]));
            }
            let sel2 = selected(all.take(i + 1), name_view);
            if take {
                assert(sel2 == sel.push(all[i as int]));
                assert forall|k: int| #![trigger picked@[k]] 0 <= k < picked@.len() implies picked@[k] < i + 1
                    && all[picked@[k] as int] == sel2[k] by {
                    if k < before.len() {
                        assert(picked@[k] == before[k]);
                        assert(sel2[k] == sel[k]);
                        assert(all[before[k] as int] == sel[k]);
                    } else {
                        assert(picked@[k] == i);
                        assert(sel2[k] == all[i as int]);
                    }
                }
            } else {
                assert(sel2 == sel);
            }
        }
        i = i + 1;
    }
    assert(all.take(rules@.len() as int) =~= all);
    assert(selected(all.take(rules@.len() as int), name_view) == chosen);
    assert(picked@.len() == chosen.len());
    if picked.len() == 0 {
        if let Some(n) = rule_name {
            return Err(IssueJumperError::UnknownRule(owned(n)));
        }
    }
    let mut k: usize = 0;
    assert(chosen.skip(0) =~= chosen);
    assert(first_problem(all) is None);
    while k < picked.len()
        invariant
            k <= picked@.len(),
            picked@.len() == chosen.len(),
            compiled_views(rules@) == all.map_values(|v: RuleView| raw_compiled_view(v)),
            rules@.len() == all.len(),
            forall|j: int|
                #![trigger picked@[j]]
                0 <= j < picked@.len() ==> picked@[j] < rules@.len() && all[picked@[j] as int]
                    == chosen[j],
            first_match(chosen, branch@) == first_match(chosen.skip(k as int), branch@),
            first_problem(all) is None,
            all == active_rules(config@),
            name_view == match rule_name {
                Some(n) => Some(n@),
                None => None::<Seq<char>>,
            },
            chosen == selected(all, name_view),
            !(chosen.len() == 0 && name_view is Some),
        decreases picked@.len() - k,
    {
        let rule = &rules[picked[k]];
        assert(all[picked@[k as int] as int] == chosen[k as int]);
        assert(compiled_views(rules@)[picked@[k as int] as int] == compiled_view(*rule));
        assert(chosen.skip(k as int)[0] == chosen[k as int]);
        assert(chosen.skip(k as int).drop_first() =~= chosen.skip(k + 1));
        proof {
            reveal_strlit("id");
        }
        match named_capture(&rule.pattern, branch, "id") {
            Some(value) => {
                let id = trim_chars(chars_of(value.as_str()).as_slice());
                if id.len() > 0 {
                    let ghost c = chosen[k as int];
                    assert(rule.pattern@ == c.pattern);
                    assert(first_match(chosen.skip(k as int), branch@) == Some((trim(value@), c)));
                    let hint = match &rule.platform_hint {
                        Some(p) => Some(p.clone()),
                        None => None,
                    };
                    assert(match hint {
                        Some(p) => Some(p@),
                        None => None,
                    } == match c.platform {
                        Some(p) => Some(parse_platform(p)),
                        None => None,
                    });
                    let m = IssueMatch {
                        issue_id: string_from(id.as_slice()),
                        rule_name: rule.name.clone(),
                        platform_hint: hint,
                    };
                    return Ok(m);
                }
            },
            None => {},
        }
        k = k + 1;
    }
    assert(chosen.skip(k as int) =~= Seq::<RuleView>::empty());
    Err(IssueJumperError::NoMatchingRule(owned(branch)))
}

// ---------------------------------------------------------------------------
// Laws of matching
// ---------------------------------------------------------------------------

/// A rule in force: a custom rule that is not disabled, or a built-in rule
/// that is not disabled.
pub open spec fn enabled_rule(c: ConfigView, r: RuleView) -> bool {
    ||| c.issue_rules.contains(r) && !c.disabled_rules.contains(r.name)
    ||| default_rule_views().contains(r) && !c.disabled_default_rules.contains(r.name)
}

/// The rules in force are the enabled custom rules and built-in rules.
proof fn lemma_active_rules_enabled(c: ConfigView)
    ensures
        forall|i: int|
            0 <= i < active_rules(c).len() ==> enabled_rule(c, #[trigger] active_rules(c)[i]),
{
    let a = rules_except(c.issue_rules, c.disabled_rules);
    let b = rules_except(default_rule_views(), c.disabled_default_rules);
    crate::config::lemma_rules_except_members(c.issue_rules, c.disabled_rules);
    crate::config::lemma_rules_except_members(default_rule_views(), c.disabled_default_rules);
    assert forall|i: int| 0 <= i < active_rules(c).len() implies enabled_rule(
        c,
        #[trigger] active_rules(c)[i],
    ) by {
        if i < a.len() {
            assert(active_rules(c)[i] == a[i]);
        } else {
            assert(active_rules(c)[i] == b[i - a.len()]);
        }
    }
}

/// The rules chosen by name are rules of the list, with that name.
proof fn lemma_selected(rules: Seq<RuleView>, name: Option<Seq<char>>)
    ensures
        forall|i: int|
            0 <= i < selected(rules, name).len() ==> rules.contains(#[trigger] selected(rules, name)[i])
                && (name matches Some(n) ==> selected(rules, name)[i].name == n),
    decreases rules.len(),
{
    if name is Some && rules.len() > 0 {
        let init = rules.drop_last();
        lemma_selected(init, name);
        let rest = selected(init, name);
        assert forall|i: int| 0 <= i < selected(rules, name).len() implies rules.contains(
            #[trigger] selected(rules, name)[i],
        ) && (name matches Some(n) ==> selected(rules, name)[i].name == n) by {
            if i < rest.len() {
                assert(selected(rules, name)[i] == rest[i]);
                let k = choose|k: int| 0 <= k < init.len() && init[k] == rest[i];
                assert(rules[k] == init[k]);
            } else {
                assert(selected(rules, name)[i] == rules.last());
                assert(rules[rules.len() - 1] == rules.last());
            }
        }
    }
}

/// What `first_match` finds is a non-blank ID captured by one of the rules.
proof fn lemma_first_match(rules: Seq<RuleView>, branch: Seq<char>)
    ensures
        first_match(rules, branch) matches Some(m) ==> rules.contains(m.1) && m.0.len() > 0,
    decreases rules.len(),
{
    if rules.len() > 0 {
        lemma_first_match(rules.drop_first(), branch);
        if let Some(m) = first_match(rules.drop_first(), branch) {
            if rules.drop_first().contains(m.1) {
                let k = choose|k: int| 0 <= k < rules.drop_first().len() && rules.drop_first()[k] == m.1;
                assert(rules[k + 1] == m.1);
            }
        }
        assert(rules[0] == rules[0]);
    }
}

/// Law: an issue ID is only ever found by a rule in force (a custom rule or
/// a built-in rule that is not disabled), by the rule asked for when one is
/// named, and it is never blank.
pub proof fn law_match_comes_from_enabled_rule(
    branch: Seq<char>,
    c: ConfigView,
    rule_name: Option<Seq<char>>,
)
    requires
        extract_spec(branch, c, rule_name) is Ok,
    ensures
        extract_spec(branch, c, rule_name) matches Ok(m) && (exists|r: RuleView|
            enabled_rule(c, r) && r.name == m.rule_name) && m.issue_id.len() > 0 && (
        rule_name matches Some(n) ==> m.rule_name == n),
{
    let rules = active_rules(c);
    let chosen = selected(rules, rule_name);
    lemma_active_rules_enabled(c);
    lemma_selected(rules, rule_name);
    lemma_first_match(chosen, branch);
    if let Some(m) = first_match(chosen, branch) {
        let k = choose|k: int| 0 <= k < chosen.len() && chosen[k] == m.1;
        assert(rules.contains(chosen[k]));
        let j = choose|j: int| 0 <= j < rules.len() && rules[j] == chosen[k];
        assert(enabled_rule(c, rules[j]));
    }
}

/// A rule whose name is not removed comes first when it is first.
proof fn lemma_rules_except_first(rules: Seq<RuleView>, names: Seq<Seq<char>>)
    requires
        rules.len() > 0,
        !names.contains(rules[0].name),
    ensures
        rules_except(rules, names).len() > 0,
        rules_except(rules, names)[0] == rules[0],
    decreases rules.len(),
{
    let init = rules.drop_last();
    let rest = rules_except(init, names);
    if rules.len() == 1 {
        assert(init.len() == 0);
        assert(rest == Seq::<RuleView>::empty());
        assert(rules.last() == rules[0]);
        assert(rest.push(rules.last())[0] == rules[0]);
    } else {
        assert(init[0] == rules[0]);
        lemma_rules_except_first(init, names);
        assert(rest.push(rules.last())[0] == rest[0]);
    }
}

/// The documented built-in branch rules, in the order in which they are
/// tried: GitHub `GH-123`, `issue-456`, `#789`, a leading number, a
/// Jira-like key and a trailing number. The first two ignore ASCII case.
pub open spec fn documented_builtin_rules() -> Seq<RuleView> {
    seq![
        RuleView { name: "github-gh-prefix"@, pattern: "(?i)\\bGH[-_]?(?P<id>\\d+)\\b"@, platform: None },
        RuleView { name: "issue-prefix"@, pattern: "(?i)\\bissue[-_]?(?P<id>\\d+)\\b"@, platform: None },
        RuleView { name: "hash-number"@, pattern: "#(?P<id>\\d+)\\b"@, platform: None },
        RuleView { name: "leading-number"@, pattern: "^(?P<id>\\d+)[-_]"@, platform: None },
        RuleView { name: "jira-like-key"@, pattern: "\\b(?P<id>[A-Z][A-Z0-9]+-\\d+)\\b"@, platform: None },
        RuleView { name: "trailing-number"@, pattern: "[-_/](?P<id>\\d+)$"@, platform: None },
    ]
}

/// Law: with no configuration and no rule named, the issue ID of a branch
/// is the first non-blank `id` capture, trimmed, of the documented built-in
/// patterns tried in their order, found by that rule (with no platform
/// hint); when none captures, the branch names no issue.
pub proof fn law_builtin_rules_without_configuration(branch: Seq<char>)
    requires
        first_problem(documented_builtin_rules()) is None,
    ensures
        extract_spec(branch, empty_config(), None) == match first_match(
            documented_builtin_rules(),
            branch,
        ) {
            Some((id, r)) => Ok::<MatchView, ErrorView>(
                MatchView { issue_id: id, rule_name: r.name, platform_hint: None },
            ),
            None => Err::<MatchView, ErrorView>(ErrorView::NoMatchingRule(branch)),
        },
{
    let c = empty_config();
    crate::config::lemma_rules_except_nothing(default_rule_views());
    assert(rules_except(c.issue_rules, c.disabled_rules) =~= Seq::<RuleView>::empty()) by {
        reveal_with_fuel(rules_except, 1);
    }
    assert(default_rule_views() =~= documented_builtin_rules());
    assert(active_rules(c) =~= documented_builtin_rules());
    lemma_first_match(documented_builtin_rules(), branch);
    if let Some((id, r)) = first_match(documented_builtin_rules(), branch) {
        let k = choose|k: int| 0 <= k < documented_builtin_rules().len() && documented_builtin_rules()[k] == r;
        assert(r.platform is None);
    }
}

/// Law: when no custom rule is in force and the GitHub prefix rule is not
/// disabled, a branch in which the documented case-insensitive pattern
/// `(?i)\\bGH[-_]?(?P<id>\\d+)\\b` captures a non-blank ID (such as `GH-123`
/// or `gh-123`) names that issue, trimmed, found by `github-gh-prefix`.
pub proof fn law_gh_prefix_rule(branch: Seq<char>, c: ConfigView)
    requires
        rules_except(c.issue_rules, c.disabled_rules).len() == 0,
        !c.disabled_default_rules.contains("github-gh-prefix"@),
        first_problem(active_rules(c)) is None,
        regex_named_capture("(?i)\\bGH[-_]?(?P<id>\\d+)\\b"@, branch, "id"@) is Some,
        trim(regex_named_capture("(?i)\\bGH[-_]?(?P<id>\\d+)\\b"@, branch, "id"@)->Some_0).len() > 0,
    ensures
        extract_spec(branch, c, None) == Ok::<MatchView, ErrorView>(
            MatchView {
                issue_id: trim(regex_named_capture("(?i)\\bGH[-_]?(?P<id>\\d+)\\b"@, branch, "id"@)->Some_0),
                rule_name: "github-gh-prefix"@,
                platform_hint: None,
            },
        ),
{
    let defaults = default_rule_views();
    assert(defaults[0].name == "github-gh-prefix"@);
    lemma_rules_except_first(defaults, c.disabled_default_rules);
    let active = active_rules(c);
    let ex = rules_except(defaults, c.disabled_default_rules);
    assert(active =~= ex);
    assert(active[0] == defaults[0]);
    assert(active[0].pattern == "(?i)\\bGH[-_]?(?P<id>\\d+)\\b"@);
}

} // verus!
