//! Checking configuration files for mistakes (`config lint`).

use vstd::prelude::*;
use crate::config::{
    lint_errors_view, names_of_platforms, normalized_name, normalized_platform_name, platform_names, platforms_view,
    rule_names, rules_view, ConfigLintError, ConfigLintReport, ConfigView, CustomPlatform,
    CustomPlatformView, LintErrorView, RawIssueRule, RuleView, UserConfig, loaded,
};
use crate::error::{error_message, ErrorView, IssueJumperError};
use crate::issue::{compile_pattern, has_id_group, regex_error, regex_group_names};
use crate::text::{
    chars_of, contains_text, find_char, first_index, has_infix, is_text, join2, join3, listed,
    owned, push_str, same, slice_of, starts_with_text, str_eq, string_from, trim, trim_chars,
};

verus! {

// ---------------------------------------------------------------------------
// URL template placeholders
// ---------------------------------------------------------------------------

/// The message for a `}` with no `{` before it.
pub open spec fn unmatched_close() -> Seq<char> {
    "contains an unmatched `}`"@
}

/// The message for a `{` with no `}` after it.
pub open spec fn unmatched_open() -> Seq<char> {
    "contains an unmatched `{`"@
}

/// The message for a `{` inside a placeholder.
pub open spec fn nested_open() -> Seq<char> {
    "contains nested `{` before `}`"@
}

/// One step of the placeholder scan.
pub enum Scan {
    /// No brace is left.
    End,
    /// The template is refused with this message.
    Fail(Seq<char>),
    /// The next placeholder name and the text after its `}`.
    Next(Seq<char>, Seq<char>),
}

/// Finds the first placeholder of `t`: a `}` before the first `{`, a `{`
/// without `}` and a `{` inside the placeholder are refused.
pub open spec fn scan(t: Seq<char>) -> Scan {
    match first_index(t, '{') {
        None => if t.contains('}') {
            Scan::Fail(unmatched_close())
        } else {
            Scan::End
        },
        Some(s) => if t.take(s).contains('}') {
            Scan::Fail(unmatched_close())
        } else {
            let after = t.skip(s + 1);
            match first_index(after, '}') {
                None => Scan::Fail(unmatched_open()),
                Some(e) => {
                    let name = after.take(e);
                    if name.contains('{') {
                        Scan::Fail(nested_open())
                    } else {
                        Scan::Next(name, after.skip(e + 1))
                    }
                },
            }
        },
    }
}

/// `template_placeholders`: the placeholder names from left to right, or the
/// message of the first problem.
pub open spec fn placeholders(t: Seq<char>) -> Result<Seq<Seq<char>>, Seq<char>>
    decreases t.len(),
{
    match scan(t) {
        Scan::End => Ok(Seq::empty()),
        Scan::Fail(m) => Err(m),
        Scan::Next(name, rest) => if rest.len() < t.len() {
            match placeholders(rest) {
                Ok(names) => Ok(seq![name] + names),
                Err(m) => Err(m),
            }
        } else {
            Err(unmatched_open())
        },
    }
}

/// The result of one scan step.
enum Step {
    End,
    Fail(String),
    Next(Vec<char>, Vec<char>),
}

/// One step of the placeholder scan.
fn scan_step(t: &[char]) -> (r: Step)
    ensures
        match r {
            Step::End => scan(t@) == Scan::End,
            Step::Fail(m) => scan(t@) == Scan::Fail(m@),
            Step::Next(name, rest) => scan(t@) == Scan::Next(name@, rest@) && rest@.len()
                < t@.len(),
        },
{
    let n = t.len();
    match find_char(t, '{') {
        None => {
            if find_char(t, '}').is_some() {
                Step::Fail(crate::text::owned("contains an unmatched `}`"))
            } else {
                Step::End
            }
        },
        Some(s) => {
            let before = slice_of(t, 0, s);
            assert(before@ =~= t@.take(s as int));
            if find_char(before.as_slice(), '}').is_some() {
                return Step::Fail(crate::text::owned("contains an unmatched `}`"));
            }
            let after = slice_of(t, s + 1, n);
            assert(after@ =~= t@.skip(s + 1));
            let an = after.len();
            match find_char(after.as_slice(), '}') {
                None => Step::Fail(crate::text::owned("contains an unmatched `{`")),
                Some(e) => {
                    let name = slice_of(after.as_slice(), 0, e);
                    assert(name@ =~= after@.take(e as int));
                    if find_char(name.as_slice(), '{').is_some() {
                        return Step::Fail(crate::text::owned("contains nested `{` before `}`"));
                    }
                    let tail = slice_of(after.as_slice(), e + 1, an);
                    assert(tail@ =~= after@.skip(e + 1));
                    Step::Next(name, tail)
                },
            }
        },
    }
}

/// Lists the placeholders of a URL template.
pub fn template_placeholders(template: &str) -> (r: Result<Vec<String>, String>)
    ensures
        match r {
            Ok(names) => placeholders(template@) == Ok::<Seq<Seq<char>>, Seq<char>>(
                names.deep_view(),
            ),
            Err(m) => placeholders(template@) == Err::<Seq<Seq<char>>, Seq<char>>(m@),
        },
{
    let t = chars_of(template);
    placeholders_of(t.as_slice())
}

/// Lists the placeholders of a template given as characters.
fn placeholders_of(t: &[char]) -> (r: Result<Vec<String>, String>)
    ensures
        match r {
            Ok(names) => placeholders(t@) == Ok::<Seq<Seq<char>>, Seq<char>>(names.deep_view()),
            Err(m) => placeholders(t@) == Err::<Seq<Seq<char>>, Seq<char>>(m@),
        },
    decreases t@.len(),
{
    match scan_step(t) {
        Step::End => {
            let names: Vec<String> = Vec::new();
            assert(names.deep_view() =~= Seq::<Seq<char>>::empty());
            Ok(names)
        },
        Step::Fail(m) => Err(m),
        Step::Next(name, tail) => {
            match placeholders_of(tail.as_slice()) {
                Ok(rest) => {
                    let mut names: Vec<String> = Vec::new();
                    names.push(string_from(name.as_slice()));
                    let mut rest = rest;
                    let ghost rd = rest.deep_view();
                    names.append(&mut rest);
                    assert(names.deep_view() =~= seq![name@] + rd);
                    Ok(names)
                },
                Err(m) => Err(m),
            }
        },
    }
}

/// Every placeholder that a template names is free of braces.
pub proof fn law_placeholders_have_no_braces(t: Seq<char>)
    ensures
        placeholders(t) matches Ok(names) ==> forall|i: int|
            0 <= i < names.len() ==> !(#[trigger] names[i]).contains('{') && !names[i].contains(
                '}',
            ),
    decreases t.len(),
{
    if let Scan::Next(name, rest) = scan(t) {
        if rest.len() < t.len() {
            law_placeholders_have_no_braces(rest);
            crate::text::lemma_first_index_bounds(t, '{');
            let s = first_index(t, '{')->Some_0;
            let after = t.skip(s + 1);
            crate::text::lemma_first_index_bounds(after, '}');
            let e = first_index(after, '}')->Some_0;
            assert(name == after.take(e));
            if let Ok(names) = placeholders(t) {
                assert forall|i: int| 0 <= i < names.len() implies !(#[trigger] names[i]).contains(
                    '{',
                ) && !names[i].contains('}') by {
                    if i == 0 {
                        assert(names[0] == name);
                        if name.contains('}') {
                            let k = choose|k: int| 0 <= k < name.len() && name[k] == '}';
                            assert(after[k] == '}');
                        }
                    } else {
                        let more = placeholders(rest)->Ok_0;
                        assert(names[i] == more[i - 1]);
                    }
                }
            }
        }
    }
}


// ---------------------------------------------------------------------------
// Problems of configuration values
// ---------------------------------------------------------------------------

/// `field` holds a blank value.
pub open spec fn list_problems(field: Seq<char>, values: Seq<Seq<char>>) -> Seq<Seq<char>>
    decreases values.len(),
{
    if values.len() == 0 {
        Seq::empty()
    } else {
        let rest = list_problems(field, values.drop_last());
        if trim(values.last()).len() == 0 {
            rest.push(field + " must not contain empty values"@)
        } else {
            rest
        }
    }
}

/// The names of the built-in platforms.
pub open spec fn is_builtin_name(v: Seq<char>) -> bool {
    v == "github"@ || v == "gitlab"@ || v == "bitbucket"@ || v == "gitee"@ || v == "redmine"@
}

/// A platform reference must name a built-in or a custom platform.
pub open spec fn platform_ref_problems(
    field: Seq<char>,
    value: Option<Seq<char>>,
    customs: Seq<Seq<char>>,
) -> Seq<Seq<char>> {
    match value {
        None => Seq::empty(),
        Some(v) => {
            let n = normalized_name(v);
            if n.len() == 0 {
                seq![field + " must not be empty"@]
            } else if !is_builtin_name(n) && !customs.contains(n) {
                seq![field + " references unknown platform `"@ + v + "`"@]
            } else {
                Seq::empty()
            }
        },
    }
}

/// An optional URL must use `http` or `https`.
pub open spec fn http_url_problems(field: Seq<char>, value: Option<Seq<char>>) -> Seq<Seq<char>> {
    match value {
        Some(v) => if !("http://"@).is_prefix_of(v) && !("https://"@).is_prefix_of(v) {
            seq![field + " must start with http:// or https://"@]
        } else {
            Seq::empty()
        },
        None => Seq::empty(),
    }
}

/// The problems of one rule, given the rules before it.
pub open spec fn one_rule_problems(
    r: RuleView,
    earlier: Seq<RuleView>,
    customs: Seq<Seq<char>>,
) -> Seq<Seq<char>> {
    let label = "issue rule `"@ + r.name;
    (if trim(r.name).len() == 0 {
        seq!["issue_rules entries must have a non-empty name"@]
    } else if rule_names(earlier).contains(r.name) {
        seq![label + "` is defined more than once"@]
    } else {
        Seq::empty()
    }) + (if trim(r.pattern).len() == 0 {
        seq![label + "` must have a non-empty pattern"@]
    } else {
        match regex_error(r.pattern) {
            Some(m) => seq![label + "` has invalid regex: "@ + m],
            None => if regex_group_names(r.pattern).contains(Some("id"@)) {
                Seq::empty()
            } else {
                seq![label + "` must include named capture group `id`"@]
            },
        }
    }) + platform_ref_problems(label + "` platform"@, r.platform, customs)
}

/// The problems of a list of rules, in order.
pub open spec fn rule_list_problems(rules: Seq<RuleView>, customs: Seq<Seq<char>>) -> Seq<
    Seq<char>,
>
    decreases rules.len(),
{
    if rules.len() == 0 {
        Seq::empty()
    } else {
        rule_list_problems(rules.drop_last(), customs) + one_rule_problems(
            rules.last(),
            rules.drop_last(),
            customs,
        )
    }
}

/// Placeholders a template may use.
pub open spec fn is_known_placeholder(p: Seq<char>) -> bool {
    p == "id"@ || p == "host"@ || p == "owner"@ || p == "repo"@ || p == "project"@ || p
        == "redmine_base_url"@
}

/// The unsupported placeholders of a template, in order.
pub open spec fn unsupported_problems(name: Seq<char>, ps: Seq<Seq<char>>) -> Seq<Seq<char>>
    decreases ps.len(),
{
    if ps.len() == 0 {
        Seq::empty()
    } else {
        let rest = unsupported_problems(name, ps.drop_last());
        if is_known_placeholder(ps.last()) {
            rest
        } else {
            rest.push(
                "custom platform `"@ + name + "` url_template uses unsupported placeholder `{"@
                    + ps.last() + "}`"@,
            )
        }
    }
}

/// The problems of a custom platform's URL template.
pub open spec fn template_problems(p: CustomPlatformView) -> Seq<Seq<char>> {
    let t = p.url_template;
    let label = "custom platform `"@ + p.name;
    if trim(t).len() == 0 {
        seq![label + "` must have a non-empty url_template"@]
    } else {
        (if !has_infix(t, "{id}"@) {
            seq![label + "` url_template must include `{id}`"@]
        } else {
            Seq::empty()
        }) + (if !("http://"@).is_prefix_of(t) && !("https://"@).is_prefix_of(t) && !(
        "{redmine_base_url}"@).is_prefix_of(t) {
            seq![label + "` url_template must start with http://, https://, or {redmine_base_url}"@]
        } else {
            Seq::empty()
        }) + match placeholders(t) {
            Ok(ps) => unsupported_problems(p.name, ps),
            Err(m) => seq![label + "` url_template "@ + m],
        }
    }
}

/// A template is accepted: it is not blank, names `{id}`, starts with
/// `http://`, `https://` or `{redmine_base_url}`, and its placeholders are
/// well formed and all supported.
pub open spec fn template_accepted(t: Seq<char>) -> bool {
    &&& trim(t).len() > 0
    &&& has_infix(t, "{id}"@)
    &&& (("http://"@).is_prefix_of(t) || ("https://"@).is_prefix_of(t) || (
    "{redmine_base_url}"@).is_prefix_of(t))
    &&& placeholders(t) matches Ok(ps) && forall|i: int|
        0 <= i < ps.len() ==> is_known_placeholder(#[trigger] ps[i])
}

/// No unsupported-placeholder problem exactly when every placeholder is
/// supported.
proof fn lemma_unsupported_empty(name: Seq<char>, ps: Seq<Seq<char>>)
    ensures
        (unsupported_problems(name, ps).len() == 0) == (forall|i: int|
            0 <= i < ps.len() ==> is_known_placeholder(#[trigger] ps[i])),
    decreases ps.len(),
{
    if ps.len() > 0 {
        let init = ps.drop_last();
        lemma_unsupported_empty(name, init);
        if forall|i: int| 0 <= i < ps.len() ==> is_known_placeholder(#[trigger] ps[i]) {
            assert forall|i: int| 0 <= i < init.len() implies is_known_placeholder(#[trigger] init[i]) by {
                assert(init[i] == ps[i]);
            }
            assert(is_known_placeholder(ps[ps.len() - 1]));
        } else {
            let k = choose|k: int| 0 <= k < ps.len() && !is_known_placeholder(#[trigger] ps[k]);
            if k < init.len() {
                assert(init[k] == ps[k]);
            }
        }
    }
}

/// Law: a custom platform's URL template draws no problem exactly when it
/// is accepted.
pub proof fn law_template_problems(p: CustomPlatformView)
    ensures
        (template_problems(p).len() == 0) == template_accepted(p.url_template),
{
    let t = p.url_template;
    if let Ok(ps) = placeholders(t) {
        lemma_unsupported_empty(p.name, ps);
    }
}

/// The problems of one custom platform, given the platforms before it.
pub open spec fn one_platform_problems(p: CustomPlatformView, earlier: Seq<CustomPlatformView>) -> Seq<
    Seq<char>,
> {
    let n = normalized_name(p.name);
    (if n.len() == 0 {
        seq!["custom_platforms entries must have a non-empty name"@]
    } else if platform_names(earlier).contains(n) {
        seq!["custom platform `"@ + p.name + "` is defined more than once"@]
    } else {
        Seq::empty()
    }) + list_problems("custom platform `"@ + p.name + "` host_patterns"@, p.host_patterns)
        + template_problems(p)
}

/// The problems of a list of custom platforms, in order.
pub open spec fn platform_list_problems(ps: Seq<CustomPlatformView>) -> Seq<Seq<char>>
    decreases ps.len(),
{
    if ps.len() == 0 {
        Seq::empty()
    } else {
        platform_list_problems(ps.drop_last()) + one_platform_problems(ps.last(), ps.drop_last())
    }
}

/// `lint_config_values`: the problems of a configuration, in the order in
/// which they are reported. `customs` holds the normalized names of the
/// custom platforms that references may use.
pub open spec fn value_problems(c: ConfigView, customs: Seq<Seq<char>>) -> Seq<Seq<char>> {
    platform_ref_problems("fallback_platform"@, c.fallback_platform, customs) + http_url_problems(
        "redmine_base_url"@,
        c.redmine_base_url,
    ) + list_problems("disabled_default_rules"@, c.disabled_default_rules) + list_problems(
        "disabled_rules"@,
        c.disabled_rules,
    ) + rule_list_problems(c.issue_rules, customs) + platform_list_problems(c.custom_platforms)
}

/// The lint errors for the messages `ms`, all with the same path.
pub open spec fn with_path(path: Option<Seq<char>>, ms: Seq<Seq<char>>) -> Seq<LintErrorView> {
    ms.map_values(|m: Seq<char>| LintErrorView { path: path, message: m })
}

/// Appends `m` to the messages.
fn push_msg(out: &mut Vec<String>, m: String)
    ensures
        final(out).deep_view() == old(out).deep_view().push(m@),
{
    let ghost before = out.deep_view();
    out.push(m);
    assert(out.deep_view() =~= before.push(m@));
}

/// `a`, `b`, `c` and `d` one after another.
fn join4(a: &str, b: &str, c: &str, d: &str) -> (s: String)
    ensures
        s@ == a@ + b@ + c@ + d@,
{
    let mut v: Vec<char> = Vec::new();
    push_str(&mut v, a);
    push_str(&mut v, b);
    push_str(&mut v, c);
    push_str(&mut v, d);
    string_from(v.as_slice())
}

/// `lint_string_list`.
fn lint_string_list(field: &str, values: &Vec<String>, out: &mut Vec<String>)
    ensures
        final(out).deep_view() == old(out).deep_view() + list_problems(field@, values.deep_view()),
{
    let ghost start = out.deep_view();
    let ghost all = values.deep_view();
    let mut i: usize = 0;
    assert(all.take(0) =~= Seq::<Seq<char>>::empty());
    assert(start + Seq::<Seq<char>>::empty() =~= start);
    while i < values.len()
        invariant
            i <= values@.len(),
            all == values.deep_view(),
            out.deep_view() == start + list_problems(field@, all.take(i as int)),
        decreases values@.len() - i,
    {
        assert(all.take(i + 1).drop_last() =~= all.take(i as int));
        assert(all.take(i + 1).last() == values@[i as int]@);
        let t = trim_chars(chars_of(values[i].as_str()).as_slice());
        if t.len() == 0 {
            let ghost before = out.deep_view();
            push_msg(out, join2(field, " must not contain empty values"));
            assert(out.deep_view() =~= start + list_problems(field@, all.take(i + 1)));
        }
        i = i + 1;
    }
    assert(all.take(i as int) =~= all);
}

/// The normalized name is one of the built-in platform names.
fn is_builtin_platform(value: &str) -> (r: bool)
    ensures
        r == is_builtin_name(value@),
{
    str_eq(value, "github") || str_eq(value, "gitlab") || str_eq(value, "bitbucket") || str_eq(
        value,
        "gitee",
    ) || str_eq(value, "redmine")
}

/// `lint_platform_reference`.
fn lint_platform_reference(
    field: &str,
    value: Option<&String>,
    customs: &Vec<String>,
    out: &mut Vec<String>,
)
    ensures
        final(out).deep_view() == old(out).deep_view() + platform_ref_problems(
            field@,
            match value {
                Some(v) => Some(v@),
                None => None,
            },
            customs.deep_view(),
        ),
{
    let ghost start = out.deep_view();
    match value {
        None => {
            assert(start + Seq::<Seq<char>>::empty() =~= start);
        },
        Some(v) => {
            let n = normalized_platform_name(v.as_str());
            if n.as_str().is_empty() {
                push_msg(out, join2(field, " must not be empty"));
                assert(out.deep_view() =~= start + seq![field@ + " must not be empty"@]);
            } else if !is_builtin_platform(n.as_str()) && !listed(customs, n.as_str()) {
                assert(n@.len() != 0);
                push_msg(out, join4(field, " references unknown platform `", v.as_str(), "`"));
                assert(out.deep_view() =~= start + seq![
                    field@ + " references unknown platform `"@ + v@ + "`"@,
                ]);
            } else {
                assert(n@.len() != 0);
                assert(start + Seq::<Seq<char>>::empty() =~= start);
            }
        },
    }
}

/// `lint_optional_http_url`.
fn lint_optional_http_url(field: &str, value: Option<&String>, out: &mut Vec<String>)
    ensures
        final(out).deep_view() == old(out).deep_view() + http_url_problems(
            field@,
            match value {
                Some(v) => Some(v@),
                None => None,
            },
        ),
{
    let ghost start = out.deep_view();
    match value {
        Some(v) => {
            let cs = chars_of(v.as_str());
            if !starts_with_text(cs.as_slice(), "http://") && !starts_with_text(
                cs.as_slice(),
                "https://",
            ) {
                push_msg(out, join2(field, " must start with http:// or https://"));
                assert(out.deep_view() =~= start + seq![
                    field@ + " must start with http:// or https://"@,
                ]);
            } else {
                assert(start + Seq::<Seq<char>>::empty() =~= start);
            }
        },
        None => {
            assert(start + Seq::<Seq<char>>::empty() =~= start);
        },
    }
}


/// The problems of one rule.
fn lint_one_rule(
    rules: &Vec<RawIssueRule>,
    i: usize,
    customs: &Vec<String>,
    out: &mut Vec<String>,
)
    requires
        i < rules@.len(),
    ensures
        final(out).deep_view() == old(out).deep_view() + one_rule_problems(
            rules_view(rules@)[i as int],
            rules_view(rules@).take(i as int),
            customs.deep_view(),
        ),
{
    let ghost start = out.deep_view();
    let ghost all = rules_view(rules@);
    let rule = &rules[i];
    assert(all[i as int] == rule@);
    let label = join2("issue rule `", rule.name.as_str());
    // The name.
    let name_t = trim_chars(chars_of(rule.name.as_str()).as_slice());
    if name_t.len() == 0 {
        push_msg(out, owned("issue_rules entries must have a non-empty name"));
    } else {
        let mut dup = false;
        let mut j: usize = 0;
        while j < i
            invariant
                j <= i < rules@.len(),
                all == rules_view(rules@),
                rule@ == all[i as int],
                dup == exists|k: int| 0 <= k < j && all[k].name == rule@.name,
            decreases i - j,
        {
            assert(all[j as int] == rules@[j as int]@);
            if str_eq(rules[j].name.as_str(), rule.name.as_str()) {
                dup = true;
            }
            j = j + 1;
        }
        proof {
            let names = rule_names(all.take(i as int));
            if dup {
                let k = choose|k: int| 0 <= k < i && all[k].name == rule@.name;
                assert(names[k] == rule@.name);
            } else if names.contains(rule@.name) {
                let k = choose|k: int| 0 <= k < names.len() && names[k] == rule@.name;
                assert(all[k].name == rule@.name);
            }
        }
        if dup {
            push_msg(out, join2(label.as_str(), "` is defined more than once"));
        }
    }
    let ghost mid = out.deep_view();
    // The pattern.
    let pat_t = trim_chars(chars_of(rule.pattern.as_str()).as_slice());
    if pat_t.len() == 0 {
        push_msg(out, join2(label.as_str(), "` must have a non-empty pattern"));
    } else {
        match compile_pattern(rule.pattern.as_str()) {
            Err(m) => {
                push_msg(out, join3(label.as_str(), "` has invalid regex: ", m.as_str()));
            },
            Ok(p) => {
                if !has_id_group(&p) {
                    push_msg(out, join2(label.as_str(), "` must include named capture group `id`"));
                }
            },
        }
    }
    let ghost mid2 = out.deep_view();
    // The platform.
    let field = join2(label.as_str(), "` platform");
    lint_platform_reference(field.as_str(), rule.platform.as_ref(), customs, out);
    assert(out.deep_view() =~= start + one_rule_problems(
        all[i as int],
        all.take(i as int),
        customs.deep_view(),
    ));
}

/// `lint_issue_rules`.
fn lint_issue_rules(rules: &Vec<RawIssueRule>, customs: &Vec<String>, out: &mut Vec<String>)
    ensures
        final(out).deep_view() == old(out).deep_view() + rule_list_problems(
            rules_view(rules@),
            customs.deep_view(),
        ),
{
    let ghost start = out.deep_view();
    let ghost all = rules_view(rules@);
    let mut i: usize = 0;
    assert(all.take(0) =~= Seq::<RuleView>::empty());
    assert(start + Seq::<Seq<char>>::empty() =~= start);
    while i < rules.len()
        invariant
            i <= rules@.len(),
            all == rules_view(rules@),
            out.deep_view() == start + rule_list_problems(all.take(i as int), customs.deep_view()),
        decreases rules@.len() - i,
    {
        assert(all.take(i + 1).drop_last() =~= all.take(i as int));
        assert(all.take(i + 1).last() == all[i as int]);
        lint_one_rule(rules, i, customs, out);
        assert(out.deep_view() =~= start + rule_list_problems(all.take(i + 1), customs.deep_view()));
        i = i + 1;
    }
    assert(all.take(i as int) =~= all);
}


/// The placeholder is one that templates may use.
fn known_placeholder(p: &str) -> (r: bool)
    ensures
        r == is_known_placeholder(p@),
{
    str_eq(p, "id") || str_eq(p, "host") || str_eq(p, "owner") || str_eq(p, "repo") || str_eq(
        p,
        "project",
    ) || str_eq(p, "redmine_base_url")
}

/// Reports each placeholder that templates may not use.
fn lint_placeholders(name: &str, ps: &Vec<String>, out: &mut Vec<String>)
    ensures
        final(out).deep_view() == old(out).deep_view() + unsupported_problems(name@, ps.deep_view()),
{
    let ghost start = out.deep_view();
    let ghost all = ps.deep_view();
    let mut i: usize = 0;
    assert(all.take(0) =~= Seq::<Seq<char>>::empty());
    assert(start + Seq::<Seq<char>>::empty() =~= start);
    while i < ps.len()
        invariant
            i <= ps@.len(),
            all == ps.deep_view(),
            out.deep_view() == start + unsupported_problems(name@, all.take(i as int)),
        decreases ps@.len() - i,
    {
        assert(all.take(i + 1).drop_last() =~= all.take(i as int));
        assert(all.take(i + 1).last() == ps@[i as int]@);
        if !known_placeholder(ps[i].as_str()) {
            let mut v: Vec<char> = Vec::new();
            push_str(&mut v, "custom platform `");
            push_str(&mut v, name);
            push_str(&mut v, "` url_template uses unsupported placeholder `{");
            push_str(&mut v, ps[i].as_str());
            push_str(&mut v, "}`");
            push_msg(out, string_from(v.as_slice()));
        }
        assert(out.deep_view() =~= start + unsupported_problems(name@, all.take(i + 1)));
        i = i + 1;
    }
    assert(all.take(i as int) =~= all);
}

/// The problems of a custom platform's URL template, added to `out`.
pub fn lint_url_template(platform: &CustomPlatform, out: &mut Vec<String>)
    ensures
        final(out).deep_view() == old(out).deep_view() + template_problems(platform@),
{
    let ghost start = out.deep_view();
    let label = join2("custom platform `", platform.name.as_str());
    let t = chars_of(platform.url_template.as_str());
    let tt = trim_chars(t.as_slice());
    if tt.len() == 0 {
        push_msg(out, join2(label.as_str(), "` must have a non-empty url_template"));
        assert(out.deep_view() =~= start + template_problems(platform@));
        return;
    }
    if !contains_text(t.as_slice(), "{id}") {
        push_msg(out, join2(label.as_str(), "` url_template must include `{id}`"));
    }
    let ghost a = out.deep_view();
    if !starts_with_text(t.as_slice(), "http://") && !starts_with_text(t.as_slice(), "https://")
        && !starts_with_text(t.as_slice(), "{redmine_base_url}") {
        push_msg(
            out,
            join2(
                label.as_str(),
                "` url_template must start with http://, https://, or {redmine_base_url}",
            ),
        );
    }
    let ghost b = out.deep_view();
    match template_placeholders(platform.url_template.as_str()) {
        Ok(ps) => {
            lint_placeholders(platform.name.as_str(), &ps, out);
        },
        Err(m) => {
            push_msg(out, join3(label.as_str(), "` url_template ", m.as_str()));
        },
    }
    assert(out.deep_view() =~= start + template_problems(platform@));
}

/// The problems of one custom platform.
fn lint_one_platform(ps: &Vec<CustomPlatform>, i: usize, out: &mut Vec<String>)
    requires
        i < ps@.len(),
    ensures
        final(out).deep_view() == old(out).deep_view() + one_platform_problems(
            platforms_view(ps@)[i as int],
            platforms_view(ps@).take(i as int),
        ),
{
    let ghost start = out.deep_view();
    let ghost all = platforms_view(ps@);
    let p = &ps[i];
    assert(all[i as int] == p@);
    let n = normalized_platform_name(p.name.as_str());
    if n.as_str().is_empty() {
        push_msg(out, owned("custom_platforms entries must have a non-empty name"));
    } else {
        let mut dup = false;
        let mut j: usize = 0;
        while j < i
            invariant
                j <= i < ps@.len(),
                all == platforms_view(ps@),
                p@ == all[i as int],
                n@ == normalized_name(p@.name),
                dup == exists|k: int| 0 <= k < j && normalized_name(all[k].name) == n@,
            decreases i - j,
        {
            assert(all[j as int] == ps@[j as int]@);
            let other = normalized_platform_name(ps[j].name.as_str());
            if str_eq(other.as_str(), n.as_str()) {
                dup = true;
            }
            j = j + 1;
        }
        proof {
            let names = platform_names(all.take(i as int));
            if dup {
                let k = choose|k: int| 0 <= k < i && normalized_name(all[k].name) == n@;
                assert(names[k] == n@);
            } else if names.contains(n@) {
                let k = choose|k: int| 0 <= k < names.len() && names[k] == n@;
                assert(normalized_name(all[k].name) == n@);
            }
        }
        if dup {
            push_msg(out, join3("custom platform `", p.name.as_str(), "` is defined more than once"));
        }
    }
    let ghost mid = out.deep_view();
    let field = join3("custom platform `", p.name.as_str(), "` host_patterns");
    lint_string_list(field.as_str(), &p.host_patterns, out);
    lint_url_template(p, out);
    assert(out.deep_view() =~= start + one_platform_problems(all[i as int], all.take(i as int)));
}

/// `lint_custom_platforms`.
fn lint_custom_platforms(ps: &Vec<CustomPlatform>, out: &mut Vec<String>)
    ensures
        final(out).deep_view() == old(out).deep_view() + platform_list_problems(platforms_view(ps@)),
{
    let ghost start = out.deep_view();
    let ghost all = platforms_view(ps@);
    let mut i: usize = 0;
    assert(all.take(0) =~= Seq::<CustomPlatformView>::empty());
    assert(start + Seq::<Seq<char>>::empty() =~= start);
    while i < ps.len()
        invariant
            i <= ps@.len(),
            all == platforms_view(ps@),
            out.deep_view() == start + platform_list_problems(all.take(i as int)),
        decreases ps@.len() - i,
    {
        assert(all.take(i + 1).drop_last() =~= all.take(i as int));
        assert(all.take(i + 1).last() == all[i as int]);
        lint_one_platform(ps, i, out);
        assert(out.deep_view() =~= start + platform_list_problems(all.take(i + 1)));
        i = i + 1;
    }
    assert(all.take(i as int) =~= all);
}

/// The problems of a configuration, in the order in which they are reported.
fn value_messages(config: &UserConfig, customs: &Vec<String>) -> (out: Vec<String>)
    ensures
        out.deep_view() == value_problems(config@, customs.deep_view()),
{
    let mut out: Vec<String> = Vec::new();
    assert(out.deep_view() =~= Seq::<Seq<char>>::empty());
    lint_platform_reference("fallback_platform", config.fallback_platform.as_ref(), customs, &mut out);
    lint_optional_http_url("redmine_base_url", config.redmine_base_url.as_ref(), &mut out);
    lint_string_list("disabled_default_rules", &config.disabled_default_rules, &mut out);
    lint_string_list("disabled_rules", &config.disabled_rules, &mut out);
    lint_issue_rules(&config.issue_rules, customs, &mut out);
    lint_custom_platforms(&config.custom_platforms, &mut out);
    assert(out.deep_view() =~= value_problems(config@, customs.deep_view()));
    out
}

/// The view of an optional path.
pub open spec fn path_view(path: Option<&str>) -> Option<Seq<char>> {
    match path {
        Some(p) => Some(p@),
        None => None,
    }
}

/// `lint_config_values`: appends the problems of `config` to the report,
/// each with `path`.
pub fn lint_config_values(
    path: Option<&str>,
    config: &UserConfig,
    custom_platforms: &Vec<String>,
    report: &mut ConfigLintReport,
)
    ensures
        final(report).checked_paths == old(report).checked_paths,
        lint_errors_view(final(report).errors@) == lint_errors_view(old(report).errors@) + with_path(
            path_view(path),
            value_problems(config@, custom_platforms.deep_view()),
        ),
{
    let ms = value_messages(config, custom_platforms);
    let ghost start = lint_errors_view(report.errors@);
    let ghost all = ms.deep_view();
    let mut i: usize = 0;
    assert(with_path(path_view(path), all.take(0)) =~= Seq::<LintErrorView>::empty());
    assert(start + Seq::<LintErrorView>::empty() =~= start);
    while i < ms.len()
        invariant
            i <= ms@.len(),
            all == ms.deep_view(),
            lint_errors_view(report.errors@) == start + with_path(path_view(path), all.take(i as int)),
            report.checked_paths == old(report).checked_paths,
        decreases ms@.len() - i,
    {
        let p = match path {
            Some(p) => Some(owned(p)),
            None => None,
        };
        let e = ConfigLintError { path: p, message: ms[i].clone() };
        let ghost before = report.errors@;
        report.errors.push(e);
        assert(lint_errors_view(report.errors@) =~= lint_errors_view(before).push(e@));
        assert(with_path(path_view(path), all.take(i + 1)) =~= with_path(path_view(path), all.take(i as int)).push(e@));
        i = i + 1;
    }
    assert(all.take(i as int) =~= all);
}

/// `custom_platform_names`: the normalized names of the custom platforms.
pub fn custom_platform_names(config: &UserConfig) -> (names: Vec<String>)
    ensures
        names.deep_view() == platform_names(config@.custom_platforms),
{
    names_of_platforms(&config.custom_platforms)
}


// ---------------------------------------------------------------------------
// Reports over configuration files
// ---------------------------------------------------------------------------

/// A configuration file that exists, with what reading it gave.
pub struct ConfigFile {
    pub path: String,
    pub config: Result<UserConfig, IssueJumperError>,
}

/// The mathematical value of a [`ConfigFile`].
pub struct FileView {
    pub path: Seq<char>,
    pub config: Result<ConfigView, ErrorView>,
}

impl View for ConfigFile {
    type V = FileView;

    open spec fn view(&self) -> FileView {
        FileView {
            path: self.path@,
            config: match self.config {
                Ok(c) => Ok(c@),
                Err(e) => Err(e@),
            },
        }
    }
}

/// The views of a list of files.
pub open spec fn files_view(fs: Seq<ConfigFile>) -> Seq<FileView> {
    fs.map_values(|f: ConfigFile| f@)
}

/// The view of an optional file.
pub open spec fn file_opt_view(f: Option<ConfigFile>) -> Option<FileView> {
    match f {
        Some(g) => Some(g@),
        None => None,
    }
}

/// The paths of a list of files.
pub open spec fn file_paths(fs: Seq<FileView>) -> Seq<Seq<char>> {
    fs.map_values(|f: FileView| f.path)
}

/// One error per file that could not be read, with the error's text.
pub open spec fn read_errors(fs: Seq<FileView>) -> Seq<LintErrorView>
    decreases fs.len(),
{
    if fs.len() == 0 {
        Seq::empty()
    } else {
        let rest = read_errors(fs.drop_last());
        match fs.last().config {
            Ok(_) => rest,
            Err(e) => rest.push(
                LintErrorView { path: Some(fs.last().path), message: error_message(e) },
            ),
        }
    }
}

/// The normalized custom platform names of all files that were read.
pub open spec fn discovered_customs(fs: Seq<FileView>) -> Seq<Seq<char>>
    decreases fs.len(),
{
    if fs.len() == 0 {
        Seq::empty()
    } else {
        discovered_customs(fs.drop_last()) + match fs.last().config {
            Ok(c) => platform_names(c.custom_platforms),
            Err(_) => Seq::empty(),
        }
    }
}

/// The value problems of every file that was read, each with its path.
pub open spec fn files_value_errors(fs: Seq<FileView>, customs: Seq<Seq<char>>) -> Seq<LintErrorView>
    decreases fs.len(),
{
    if fs.len() == 0 {
        Seq::empty()
    } else {
        files_value_errors(fs.drop_last(), customs) + match fs.last().config {
            Ok(c) => with_path(Some(fs.last().path), value_problems(c, customs)),
            Err(_) => Seq::empty(),
        }
    }
}

/// The problems of a configuration checked on its own: platform references
/// may use its own custom platforms.
pub open spec fn own_problems(c: ConfigView) -> Seq<Seq<char>> {
    value_problems(c, platform_names(c.custom_platforms))
}

/// `lint_discovered_config` over the files that exist (the global one
/// first, then the project ones in order of precedence): read errors, then
/// the problems of each file with the custom platforms of all files; when
/// nothing is wrong, also the problems of the merged configuration (the
/// global one overridden by the first project one), without a path.
pub open spec fn discovered_errors(global: Option<FileView>, projects: Seq<FileView>) -> Seq<
    LintErrorView,
> {
    let fs = match global {
        Some(g) => seq![g] + projects,
        None => projects,
    };
    let first = read_errors(fs) + files_value_errors(fs, discovered_customs(fs));
    if first.len() == 0 && fs.len() > 0 {
        let g = match global {
            Some(g) => Some(g.config->Ok_0),
            None => None,
        };
        let p = if projects.len() > 0 {
            Some(projects[0].config->Ok_0)
        } else {
            None
        };
        first + with_path(None, own_problems(loaded(g, p)))
    } else {
        first
    }
}

/// `lint_single_config_path` for a file that was looked for (`None`: it does
/// not exist): what it adds to the checked paths and to the errors.
pub open spec fn single_file_result(
    path: Seq<char>,
    contents: Option<Result<ConfigView, ErrorView>>,
    require_exists: bool,
) -> (Seq<Seq<char>>, Seq<LintErrorView>) {
    match contents {
        None => (
            Seq::empty(),
            if require_exists {
                seq![LintErrorView { path: Some(path), message: "file does not exist"@ }]
            } else {
                Seq::empty()
            },
        ),
        Some(Ok(c)) => (seq![path], with_path(Some(path), own_problems(c))),
        Some(Err(e)) => (
            seq![path],
            seq![LintErrorView { path: Some(path), message: error_message(e) }],
        ),
    }
}

/// The view of what reading a file gave.
pub open spec fn contents_view(contents: Option<&Result<UserConfig, IssueJumperError>>) -> Option<
    Result<ConfigView, ErrorView>,
> {
    match contents {
        None => None,
        Some(Ok(c)) => Some(Ok(c@)),
        Some(Err(e)) => Some(Err(e@)),
    }
}

/// The view of what reading a file gave, as stored.
pub open spec fn stored_contents_view(contents: Option<Result<UserConfig, IssueJumperError>>) -> Option<
    Result<ConfigView, ErrorView>,
> {
    match contents {
        None => None,
        Some(Ok(c)) => Some(Ok(c@)),
        Some(Err(e)) => Some(Err(e@)),
    }
}

/// Appends one error to the report.
fn push_error(report: &mut ConfigLintReport, path: Option<&str>, message: String)
    ensures
        final(report).checked_paths == old(report).checked_paths,
        lint_errors_view(final(report).errors@) == lint_errors_view(old(report).errors@).push(
            LintErrorView { path: path_view(path), message: message@ },
        ),
{
    let p = match path {
        Some(p) => Some(owned(p)),
        None => None,
    };
    let e = ConfigLintError { path: p, message };
    let ghost before = report.errors@;
    report.errors.push(e);
    assert(lint_errors_view(report.errors@) =~= lint_errors_view(before).push(e@));
}

/// Appends one checked path to the report.
fn push_checked(report: &mut ConfigLintReport, path: &str)
    ensures
        final(report).checked_paths.deep_view() == old(report).checked_paths.deep_view().push(path@),
        final(report).errors == old(report).errors,
{
    let ghost before = report.checked_paths@;
    let p = owned(path);
    report.checked_paths.push(p);
    assert(report.checked_paths.deep_view() =~= before.map_values(|s: String| s@).push(path@));
}

/// `lint_single_config_path`: checks one file that was looked for.
pub fn lint_single_config_path(
    path: &str,
    contents: Option<&Result<UserConfig, IssueJumperError>>,
    require_exists: bool,
    report: &mut ConfigLintReport,
)
    ensures
        final(report).checked_paths.deep_view() == old(report).checked_paths.deep_view()
            + single_file_result(path@, contents_view(contents), require_exists).0,
        lint_errors_view(final(report).errors@) == lint_errors_view(old(report).errors@)
            + single_file_result(path@, contents_view(contents), require_exists).1,
{
    let ghost c0 = report.checked_paths.deep_view();
    let ghost e0 = lint_errors_view(report.errors@);
    match contents {
        None => {
            if require_exists {
                push_error(report, Some(path), owned("file does not exist"));
            }
            assert(c0 + Seq::<Seq<char>>::empty() =~= c0);
            assert(e0 + Seq::<LintErrorView>::empty() =~= e0);
            assert(e0.push(LintErrorView { path: Some(path@), message: "file does not exist"@ }) =~= e0
                + seq![LintErrorView { path: Some(path@), message: "file does not exist"@ }]);
        },
        Some(Ok(config)) => {
            push_checked(report, path);
            let customs = custom_platform_names(config);
            lint_config_values(Some(path), config, &customs, report);
        },
        Some(Err(e)) => {
            push_checked(report, path);
            push_error(report, Some(path), e.message());
            assert(e0.push(LintErrorView { path: Some(path@), message: error_message(e@) }) =~= e0
                + seq![LintErrorView { path: Some(path@), message: error_message(e@) }]);
        },
    }
}


/// A configuration file that was asked for, with what reading it gave
/// (`None` when it does not exist).
pub struct ExplicitFile {
    pub path: String,
    pub contents: Option<Result<UserConfig, IssueJumperError>>,
}

/// The paths that checking these files adds.
pub open spec fn explicit_checked(fs: Seq<ExplicitFile>) -> Seq<Seq<char>>
    decreases fs.len(),
{
    if fs.len() == 0 {
        Seq::empty()
    } else {
        explicit_checked(fs.drop_last()) + single_file_result(
            fs.last().path@,
            stored_contents_view(fs.last().contents),
            true,
        ).0
    }
}

/// The errors that checking these files adds.
pub open spec fn explicit_errors(fs: Seq<ExplicitFile>) -> Seq<LintErrorView>
    decreases fs.len(),
{
    if fs.len() == 0 {
        Seq::empty()
    } else {
        explicit_errors(fs.drop_last()) + single_file_result(
            fs.last().path@,
            stored_contents_view(fs.last().contents),
            true,
        ).1
    }
}

/// `lint_explicit_config_paths`: checks each named file on its own; a
/// missing one is an error.
pub fn lint_explicit_config_paths(files: &Vec<ExplicitFile>) -> (report: ConfigLintReport)
    ensures
        report.checked_paths.deep_view() == explicit_checked(files@),
        lint_errors_view(report.errors@) == explicit_errors(files@),
{
    let mut report = ConfigLintReport::new();
    let mut i: usize = 0;
    assert(report.checked_paths.deep_view() =~= Seq::<Seq<char>>::empty());
    assert(lint_errors_view(report.errors@) =~= Seq::<LintErrorView>::empty());
    assert(files@.take(0) =~= Seq::<ExplicitFile>::empty());
    while i < files.len()
        invariant
            i <= files@.len(),
            report.checked_paths.deep_view() == explicit_checked(files@.take(i as int)),
            lint_errors_view(report.errors@) == explicit_errors(files@.take(i as int)),
        decreases files@.len() - i,
    {
        assert(files@.take(i + 1).drop_last() =~= files@.take(i as int));
        assert(files@.take(i + 1).last() == files@[i as int]);
        let f = &files[i];
        let contents = f.contents.as_ref();
        assert(contents_view(contents) == stored_contents_view(f.contents));
        lint_single_config_path(f.path.as_str(), contents, true, &mut report);
        i = i + 1;
    }
    assert(files@.take(i as int) =~= files@);
    report
}

/// With no read error every file was read.
proof fn lemma_no_read_errors(fs: Seq<FileView>)
    requires
        read_errors(fs).len() == 0,
    ensures
        forall|i: int| 0 <= i < fs.len() ==> (#[trigger] fs[i]).config is Ok,
    decreases fs.len(),
{
    if fs.len() > 0 {
        lemma_no_read_errors(fs.drop_last());
        assert forall|i: int| 0 <= i < fs.len() implies (#[trigger] fs[i]).config is Ok by {
            if i < fs.len() - 1 {
                assert(fs[i] == fs.drop_last()[i]);
            }
        }
    }
}

/// The configuration of a file that was read.
fn config_of(f: ConfigFile) -> (c: UserConfig)
    requires
        f@.config is Ok,
    ensures
        f@.config == Ok::<ConfigView, ErrorView>(c@),
{
    match f.config {
        Ok(c) => c,
        Err(_) => vstd::pervasive::unreached(),
    }
}

/// Records the path of each file and an error for each one that could not be read.
fn record_reads(files: &Vec<ConfigFile>, report: &mut ConfigLintReport)
    requires
        old(report).checked_paths@.len() == 0,
        old(report).errors@.len() == 0,
    ensures
        final(report).checked_paths.deep_view() == file_paths(files_view(files@)),
        lint_errors_view(final(report).errors@) == read_errors(files_view(files@)),
{
    let ghost fs = files_view(files@);
    let mut i: usize = 0;
    assert(report.checked_paths.deep_view() =~= file_paths(fs.take(0)));
    assert(lint_errors_view(report.errors@) =~= read_errors(fs.take(0)));
    while i < files.len()
        invariant
            i <= files@.len(),
            fs == files_view(files@),
            report.checked_paths.deep_view() == file_paths(fs.take(i as int)),
            lint_errors_view(report.errors@) == read_errors(fs.take(i as int)),
        decreases files@.len() - i,
    {
        assert(fs.take(i + 1).drop_last() =~= fs.take(i as int));
        assert(fs.take(i + 1).last() == files@[i as int]@);
        let f = &files[i];
        push_checked(report, f.path.as_str());
        assert(report.checked_paths.deep_view() =~= file_paths(fs.take(i + 1)));
        match &f.config {
            Err(e) => {
                push_error(report, Some(f.path.as_str()), e.message());
            },
            Ok(_) => {},
        }
        i = i + 1;
    }
    assert(fs.take(i as int) =~= fs);
}

/// The normalized custom platform names of all files that were read.
fn collect_customs(files: &Vec<ConfigFile>) -> (customs: Vec<String>)
    ensures
        customs.deep_view() == discovered_customs(files_view(files@)),
{
    let ghost fs = files_view(files@);
    let mut customs: Vec<String> = Vec::new();
    let mut i: usize = 0;
    assert(customs.deep_view() =~= discovered_customs(fs.take(0)));
    while i < files.len()
        invariant
            i <= files@.len(),
            fs == files_view(files@),
            customs.deep_view() == discovered_customs(fs.take(i as int)),
        decreases files@.len() - i,
    {
        assert(fs.take(i + 1).drop_last() =~= fs.take(i as int));
        assert(fs.take(i + 1).last() == files@[i as int]@);
        match &files[i].config {
            Ok(c) => {
                let mut names = custom_platform_names(c);
                let ghost a = customs.deep_view();
                let ghost b = names.deep_view();
                customs.append(&mut names);
                assert(customs.deep_view() =~= a + b);
            },
            Err(_) => {
                assert(customs.deep_view() =~= customs.deep_view() + Seq::<Seq<char>>::empty());
            },
        }
        i = i + 1;
    }
    assert(fs.take(i as int) =~= fs);
    customs
}

/// Appends the value problems of each file that was read.
fn lint_files(files: &Vec<ConfigFile>, customs: &Vec<String>, report: &mut ConfigLintReport)
    ensures
        final(report).checked_paths == old(report).checked_paths,
        lint_errors_view(final(report).errors@) == lint_errors_view(old(report).errors@)
            + files_value_errors(files_view(files@), customs.deep_view()),
{
    let ghost fs = files_view(files@);
    let ghost cs = customs.deep_view();
    let ghost e0 = lint_errors_view(report.errors@);
    let mut i: usize = 0;
    assert(e0 + files_value_errors(fs.take(0), cs) =~= e0);
    while i < files.len()
        invariant
            i <= files@.len(),
            fs == files_view(files@),
            cs == customs.deep_view(),
            report.checked_paths == old(report).checked_paths,
            lint_errors_view(report.errors@) == e0 + files_value_errors(fs.take(i as int), cs),
        decreases files@.len() - i,
    {
        assert(fs.take(i + 1).drop_last() =~= fs.take(i as int));
        assert(fs.take(i + 1).last() == files@[i as int]@);
        let f = &files[i];
        match &f.config {
            Ok(c) => {
                lint_config_values(Some(f.path.as_str()), c, customs, report);
            },
            Err(_) => {},
        }
        assert(lint_errors_view(report.errors@) =~= e0 + files_value_errors(fs.take(i + 1), cs));
        i = i + 1;
    }
    assert(fs.take(i as int) =~= fs);
}

/// The merged configuration of files that were all read: the first one is
/// the global configuration when `has_global`, the next one the project
/// configuration that takes precedence.
fn merged_of(files: Vec<ConfigFile>, has_global: bool) -> (c: UserConfig)
    requires
        forall|i: int| 0 <= i < files@.len() ==> (#[trigger] files@[i])@.config is Ok,
        has_global ==> files@.len() > 0,
    ensures
        ({
            let fs = files_view(files@);
            let rest = if has_global { fs.drop_first() } else { fs };
            c@ == loaded(
                if has_global { Some(fs[0].config->Ok_0) } else { None },
                if rest.len() > 0 { Some(rest[0].config->Ok_0) } else { None },
            )
        }),
{
    let ghost fs = files_view(files@);
    let mut files = files;
    let ghost before = files@;
    assert(forall|i: int| 0 <= i < fs.len() ==> fs[i] == before[i]@);
    let g = if has_global {
        Some(config_of(files.remove(0)))
    } else {
        None
    };
    let p = if files.len() > 0 {
        let ghost now = files@;
        assert(now[0] == if has_global { before[1] } else { before[0] });
        Some(config_of(files.remove(0)))
    } else {
        None
    };
    crate::config::load_config(g, p)
}

/// `lint_discovered_config` over the configuration files that exist: the
/// global one (if any) and the project ones in order of precedence.
pub fn lint_discovered_config(global: Option<ConfigFile>, projects: Vec<ConfigFile>) -> (report:
    ConfigLintReport)
    ensures
        report.checked_paths.deep_view() == file_paths(
            match global {
                Some(g) => seq![g@] + files_view(projects@),
                None => files_view(projects@),
            },
        ),
        lint_errors_view(report.errors@) == discovered_errors(
            file_opt_view(global),
            files_view(projects@),
        ),
{
    let ghost gv = file_opt_view(global);
    let ghost pv = files_view(projects@);
    let has_global = global.is_some();
    let mut files: Vec<ConfigFile> = Vec::new();
    match global {
        Some(g) => {
            files.push(g);
        },
        None => {},
    }
    let mut projects = projects;
    let ghost g_part = files@;
    files.append(&mut projects);
    let ghost fs = files_view(files@);
    assert(fs =~= match gv {
        Some(g) => seq![g] + pv,
        None => pv,
    }) by {
        assert(files_view(files@) =~= files_view(g_part) + pv);
    }
    let mut report = ConfigLintReport::new();
    record_reads(&files, &mut report);
    let customs = collect_customs(&files);
    lint_files(&files, &customs, &mut report);
    if report.is_ok() && files.len() > 0 {
        proof {
            assert(lint_errors_view(report.errors@).len() == report.errors@.len());
            assert(read_errors(fs).len() == 0);
            lemma_no_read_errors(fs);
            assert forall|i: int| 0 <= i < files@.len() implies (#[trigger] files@[i])@.config is Ok by {
                assert(fs[i] == files@[i]@);
            }
            if has_global {
                assert(fs.drop_first() =~= pv);
            }
        }
        let merged = merged_of(files, has_global);
        let names = custom_platform_names(&merged);
        lint_config_values(None, &merged, &names, &mut report);
    }
    report
}

} // verus!
