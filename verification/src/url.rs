//! Building issue and repository URLs from a platform, a remote and the
//! configuration.

use vstd::prelude::*;
use vstd::utf8::encode_utf8;
use crate::config::{ConfigView, CustomPlatform, CustomPlatformView, UserConfig};
use crate::error::{ErrorView, IssueJumperError};
use crate::git::remote::{RemoteInfo, RemoteView};
use crate::platform::{parse_platform, platform_name, Platform, PlatformView};
use crate::text::{
    chars_of, find_char, first_index, join2, join3, lower_chars, lowercase, owned, push_all,
    push_str, replace, replace_chars, same, slice_of, starts_with_text, string_from,
    strip_trailing, strip_trailing_chars, trim, trim_chars,
};

verus! {

// ---------------------------------------------------------------------------
// Percent-encoding
// ---------------------------------------------------------------------------

/// The bytes that stay as they are in a URL path segment (RFC 3986 unreserved).
pub open spec fn is_unreserved(b: u8) -> bool {
    (65 <= b && b <= 90) || (97 <= b && b <= 122) || (48 <= b && b <= 57) || b == 45 || b == 95
        || b == 46 || b == 126
}

/// The upper-case hexadecimal digit of `n` (`0 <= n < 16`).
pub open spec fn hex_char(n: int) -> char {
    if n < 10 {
        (n + 48) as char
    } else {
        (n + 55) as char
    }
}

/// One byte of a path segment: kept when unreserved, else `%XX`.
pub open spec fn encode_byte(b: u8) -> Seq<char> {
    if is_unreserved(b) {
        seq![b as char]
    } else {
        seq!['%', hex_char((b / 16) as int), hex_char((b % 16) as int)]
    }
}

/// Percent-encoding of a byte sequence.
pub open spec fn encode_bytes(bs: Seq<u8>) -> Seq<char>
    decreases bs.len(),
{
    if bs.len() == 0 {
        Seq::empty()
    } else {
        encode_byte(bs[0]) + encode_bytes(bs.drop_first())
    }
}

/// A path segment percent-encoded byte by byte over its UTF-8 encoding.
pub open spec fn encode_segment(s: Seq<char>) -> Seq<char> {
    encode_bytes(encode_utf8(s))
}

/// A path whose `/`-separated segments are each percent-encoded.
pub open spec fn encode_path(s: Seq<char>) -> Seq<char>
    decreases s.len(),
{
    proof {
        crate::text::lemma_first_index_bounds(s, '/');
    }
    match first_index(s, '/') {
        Some(i) => encode_segment(s.take(i)) + seq!['/'] + encode_path(s.skip(i + 1)),
        None => encode_segment(s),
    }
}

// ---------------------------------------------------------------------------
// URL specifications
// ---------------------------------------------------------------------------

/// The URL starts with `http://` or `https://`.
pub open spec fn is_http_url(u: Seq<char>) -> bool {
    ("https://"@).is_prefix_of(u) || ("http://"@).is_prefix_of(u)
}

/// The error for a platform that needs a remote and has none.
pub open spec fn no_remote_error(platform: Seq<char>) -> ErrorView {
    ErrorView::UrlBuildFailed("Cannot build "@ + platform + " URL without Git remote"@)
}

/// The error for a missing value.
pub open spec fn missing_error(what: Seq<char>) -> ErrorView {
    ErrorView::UrlBuildFailed("missing "@ + what)
}

/// The first custom platform whose trimmed name equals `name`, ignoring ASCII case.
pub open spec fn find_custom(name: Seq<char>, ps: Seq<CustomPlatformView>) -> Option<
    CustomPlatformView,
>
    decreases ps.len(),
{
    if ps.len() == 0 {
        None
    } else if lowercase(trim(ps[0].name)) == lowercase(name) {
        Some(ps[0])
    } else {
        find_custom(name, ps.drop_first())
    }
}

/// A URL of the form `https://<host>/<owner>/<repo>/issues/<id>` for the
/// platforms that address issues by owner and repository; owner, repository
/// and ID are each encoded as a path segment.
pub open spec fn owner_repo_issue_url(
    label: Seq<char>,
    base: Seq<char>,
    id: Seq<char>,
    remote: Option<RemoteView>,
) -> Result<Seq<char>, ErrorView> {
    match remote {
        None => Err(no_remote_error(label)),
        Some(r) => match r.owner {
            None => Err(missing_error(label + " owner"@)),
            Some(owner) => match r.repo {
                None => Err(missing_error(label + " repo"@)),
                Some(repo) => Ok(
                    base + encode_segment(owner) + "/"@ + encode_segment(repo) + "/issues/"@
                        + encode_segment(id),
                ),
            },
        },
    }
}

/// The text of a custom URL template after the substitutions: `{id}`, then
/// from the remote `{host}`, `{owner}`, `{repo}`, `{project}` (those it has),
/// then `{redmine_base_url}` without trailing `/`s when it is configured.
pub open spec fn substitute(
    template: Seq<char>,
    id: Seq<char>,
    remote: Option<RemoteView>,
    config: ConfigView,
) -> Seq<char> {
    let r0 = replace(template, "{id}"@, encode_segment(id));
    let r1 = match remote {
        Some(rm) => {
            let a = replace(r0, "{host}"@, rm.host);
            let b = match rm.owner {
                Some(o) => replace(a, "{owner}"@, encode_segment(o)),
                None => a,
            };
            let c = match rm.repo {
                Some(o) => replace(b, "{repo}"@, encode_segment(o)),
                None => b,
            };
            match rm.project {
                Some(o) => replace(c, "{project}"@, encode_path(o)),
                None => c,
            }
        },
        None => r0,
    };
    match config.redmine_base_url {
        Some(base) => replace(r1, "{redmine_base_url}"@, strip_trailing(base, seq!['/'])),
        None => r1,
    }
}

/// `apply_template`: the substituted template, refused when a brace is left.
pub open spec fn template_url(
    template: Seq<char>,
    id: Seq<char>,
    remote: Option<RemoteView>,
    config: ConfigView,
) -> Result<Seq<char>, ErrorView> {
    let s = substitute(template, id, remote, config);
    if s.contains('{') || s.contains('}') {
        Err(ErrorView::UrlBuildFailed("unresolved placeholder in template `"@ + template + "`"@))
    } else {
        Ok(s)
    }
}

/// The URL for the platform, before the scheme check.
pub open spec fn raw_issue_url(
    id: Seq<char>,
    platform: PlatformView,
    remote: Option<RemoteView>,
    config: ConfigView,
) -> Result<Seq<char>, ErrorView> {
    match platform {
        PlatformView::GitHub => owner_repo_issue_url("GitHub"@, "https://github.com/"@, id, remote),
        PlatformView::GitLab => match remote {
            None => Err(no_remote_error("GitLab"@)),
            Some(r) => match r.project {
                None => Err(missing_error("GitLab project"@)),
                Some(project) => Ok(
                    "https://"@ + r.host + "/"@ + encode_path(project) + "/-/issues/"@
                        + encode_segment(id),
                ),
            },
        },
        PlatformView::Bitbucket => owner_repo_issue_url(
            "Bitbucket"@,
            "https://bitbucket.org/"@,
            id,
            remote,
        ),
        PlatformView::Gitee => owner_repo_issue_url("Gitee"@, "https://gitee.com/"@, id, remote),
        PlatformView::Redmine => match config.redmine_base_url {
            None => Err(missing_error("Redmine requires redmine_base_url"@)),
            Some(base) => Ok(strip_trailing(base, seq!['/']) + "/issues/"@ + encode_segment(id)),
        },
        PlatformView::Custom(name) => match find_custom(name, config.custom_platforms) {
            None => Err(
                ErrorView::UrlBuildFailed(
                    "custom platform `"@ + name + "` requires a custom_platforms entry"@,
                ),
            ),
            Some(cp) => template_url(cp.url_template, id, remote, config),
        },
    }
}

/// A built URL is accepted only with an `http` or `https` scheme.
pub open spec fn checked_url(built: Result<Seq<char>, ErrorView>) -> Result<Seq<char>, ErrorView> {
    match built {
        Ok(u) => if is_http_url(u) {
            Ok(u)
        } else {
            Err(ErrorView::UrlBuildFailed("URL must start with http:// or https://: "@ + u))
        },
        Err(e) => Err(e),
    }
}

/// `build_issue_url`.
pub open spec fn issue_url(
    id: Seq<char>,
    platform: PlatformView,
    remote: Option<RemoteView>,
    config: ConfigView,
) -> Result<Seq<char>, ErrorView> {
    checked_url(raw_issue_url(id, platform, remote, config))
}

/// `build_repository_url`: only GitHub and GitLab have a repository page.
pub open spec fn repository_url(platform: PlatformView, remote: Option<RemoteView>) -> Result<
    Seq<char>,
    ErrorView,
> {
    checked_url(
        match platform {
            PlatformView::GitHub => match remote {
                None => Err(no_remote_error("GitHub"@)),
                Some(r) => match r.owner {
                    None => Err(missing_error("GitHub owner"@)),
                    Some(owner) => match r.repo {
                        None => Err(missing_error("GitHub repo"@)),
                        Some(repo) => Ok(
                            "https://github.com/"@ + encode_segment(owner) + "/"@ + encode_segment(
                                repo,
                            ),
                        ),
                    },
                },
            },
            PlatformView::GitLab => match remote {
                None => Err(no_remote_error("GitLab"@)),
                Some(r) => match r.project {
                    None => Err(missing_error("GitLab project"@)),
                    Some(project) => Ok("https://"@ + r.host + "/"@ + encode_path(project)),
                },
            },
            _ => Err(
                ErrorView::UrlBuildFailed(
                    "Cannot build repository URL for "@ + platform_name(platform),
                ),
            ),
        },
    )
}

/// `resolve_platform`: the command-line override, else the rule's platform,
/// else the remote's, else the configured fallback.
pub open spec fn platform_choice(
    platform_override: Option<PlatformView>,
    rule_platform: Option<PlatformView>,
    remote: Option<RemoteView>,
    config: ConfigView,
) -> Result<PlatformView, ErrorView> {
    match platform_override {
        Some(p) => Ok(p),
        None => match rule_platform {
            Some(p) => Ok(p),
            None => match remote {
                Some(r) => Ok(r.platform),
                None => match config.fallback_platform {
                    Some(f) => Ok(parse_platform(f)),
                    None => Err(ErrorView::PlatformUnresolved),
                },
            },
        },
    }
}

/// The view of an optional remote.
pub open spec fn remote_view(remote: Option<&RemoteInfo>) -> Option<RemoteView> {
    match remote {
        Some(r) => Some(r@),
        None => None,
    }
}

/// The view of an optional platform.
pub open spec fn platform_view(p: Option<Platform>) -> Option<PlatformView> {
    match p {
        Some(x) => Some(x@),
        None => None,
    }
}

/// The view of a URL result.
pub open spec fn url_result_view(r: Result<String, IssueJumperError>) -> Result<
    Seq<char>,
    ErrorView,
> {
    match r {
        Ok(u) => Ok(u@),
        Err(e) => Err(e@),
    }
}

// ---------------------------------------------------------------------------
// Implementation
// ---------------------------------------------------------------------------

/// The hexadecimal digit of `n`.
fn hex(n: u8) -> (c: char)
    requires
        n < 16,
    ensures
        c == hex_char(n as int),
{
    if n < 10 {
        (n + 48) as char
    } else {
        (n + 55) as char
    }
}

/// Percent-encodes `bytes`.
fn encode_byte_seq(bytes: &[u8]) -> (out: Vec<char>)
    ensures
        out@ == encode_bytes(bytes@),
{
    let mut out: Vec<char> = Vec::new();
    let mut i: usize = 0;
    assert(bytes@.skip(0) =~= bytes@);
    while i < bytes.len()
        invariant
            i <= bytes@.len(),
            out@ + encode_bytes(bytes@.skip(i as int)) == encode_bytes(bytes@),
        decreases bytes@.len() - i,
    {
        let b = bytes[i];
        let ghost rest = bytes@.skip(i as int);
        assert(rest.drop_first() =~= bytes@.skip(i + 1));
        assert(rest[0] == b);
        let ghost before = out@;
        if (65 <= b && b <= 90) || (97 <= b && b <= 122) || (48 <= b && b <= 57) || b == 45 || b
            == 95 || b == 46 || b == 126 {
            out.push(b as char);
        } else {
            out.push('%');
            out.push(hex(b / 16));
            out.push(hex(b % 16));
        }
        assert(out@ =~= before + encode_byte(b));
        assert(before + encode_byte(b) + encode_bytes(bytes@.skip(i + 1)) =~= before + (
        encode_byte(rest[0]) + encode_bytes(rest.drop_first())));
        i = i + 1;
    }
    assert(bytes@.skip(i as int) =~= Seq::<u8>::empty());
    assert(out@ + Seq::<char>::empty() =~= out@);
    out
}

/// Percent-encodes one path segment.
fn encode_segment_str(value: &str) -> (out: Vec<char>)
    ensures
        out@ == encode_segment(value@),
{
    let bytes = value.as_bytes();
    encode_byte_seq(bytes)
}

/// Percent-encodes one path segment given as characters.
fn encode_segment_chars(value: &[char]) -> (out: Vec<char>)
    ensures
        out@ == encode_segment(value@),
{
    let s = string_from(value);
    encode_segment_str(s.as_str())
}

/// Percent-encodes every segment of a `/`-separated path.
fn encode_path_chars(value: &[char]) -> (out: Vec<char>)
    ensures
        out@ == encode_path(value@),
    decreases value@.len(),
{
    let n = value.len();
    match find_char(value, '/') {
        Some(i) => {
            assert(i < n);
            let head = slice_of(value, 0, i);
            let tail = slice_of(value, i + 1, n);
            let mut out = encode_segment_chars(head.as_slice());
            out.push('/');
            let rest = encode_path_chars(tail.as_slice());
            push_all(&mut out, rest.as_slice());
            out
        },
        None => encode_segment_chars(value),
    }
}

/// Appends the percent-encoding of `value` to `out`.
fn push_segment(out: &mut Vec<char>, value: &str)
    ensures
        final(out)@ == old(out)@ + encode_segment(value@),
{
    let e = encode_segment_str(value);
    push_all(out, e.as_slice());
}

/// Appends the percent-encoding of the path `value` to `out`.
fn push_path(out: &mut Vec<char>, value: &str)
    ensures
        final(out)@ == old(out)@ + encode_path(value@),
{
    let cs = chars_of(value);
    let e = encode_path_chars(cs.as_slice());
    push_all(out, e.as_slice());
}

/// The error for a platform that needs a remote and has none.
fn no_remote(platform: &str) -> (e: IssueJumperError)
    ensures
        e@ == no_remote_error(platform@),
{
    IssueJumperError::UrlBuildFailed(join3("Cannot build ", platform, " URL without Git remote"))
}

/// The error for a missing value.
fn missing(what: &str) -> (e: IssueJumperError)
    ensures
        e@ == missing_error(what@),
{
    IssueJumperError::UrlBuildFailed(join2("missing ", what))
}

/// An owner/repository issue URL.
fn owner_repo_url(label: &str, base: &str, issue_id: &str, remote: Option<&RemoteInfo>) -> (r:
    Result<String, IssueJumperError>)
    ensures
        url_result_view(r) == owner_repo_issue_url(label@, base@, issue_id@, remote_view(remote)),
{
    let remote = match remote {
        Some(r) => r,
        None => {
            return Err(no_remote(label));
        },
    };
    let owner = match &remote.owner {
        Some(o) => o,
        None => {
            return Err(missing(join2(label, " owner").as_str()));
        },
    };
    let repo = match &remote.repo {
        Some(o) => o,
        None => {
            return Err(missing(join2(label, " repo").as_str()));
        },
    };
    let mut out: Vec<char> = Vec::new();
    push_str(&mut out, base);
    push_segment(&mut out, owner.as_str());
    push_str(&mut out, "/");
    push_segment(&mut out, repo.as_str());
    push_str(&mut out, "/issues/");
    push_segment(&mut out, issue_id);
    Ok(string_from(out.as_slice()))
}

/// Rejects a URL without an `http` or `https` scheme.
fn validate_http_url(url: String) -> (r: Result<String, IssueJumperError>)
    ensures
        url_result_view(r) == checked_url(Ok(url@)),
{
    let cs = chars_of(url.as_str());
    if starts_with_text(cs.as_slice(), "https://") || starts_with_text(cs.as_slice(), "http://") {
        Ok(url)
    } else {
        Err(
            IssueJumperError::UrlBuildFailed(
                join2("URL must start with http:// or https://: ", url.as_str()),
            ),
        )
    }
}

/// Replaces every `{name}` placeholder spelled by `pattern` in `s` with `value`.
fn replace_text(s: Vec<char>, pattern: &str, value: &[char]) -> (out: Vec<char>)
    requires
        pattern@.len() > 0,
    ensures
        out@ == replace(s@, pattern@, value@),
{
    let p = chars_of(pattern);
    replace_chars(s.as_slice(), p.as_slice(), value)
}

/// Substitutes the placeholders of a custom URL template and refuses a
/// result that still holds a brace.
fn apply_template(
    template: &str,
    issue_id: &str,
    remote: Option<&RemoteInfo>,
    config: &UserConfig,
) -> (r: Result<String, IssueJumperError>)
    ensures
        url_result_view(r) == template_url(template@, issue_id@, remote_view(remote), config@),
{
    proof {
        reveal_strlit("{id}");
        reveal_strlit("{host}");
        reveal_strlit("{owner}");
        reveal_strlit("{repo}");
        reveal_strlit("{project}");
        reveal_strlit("{redmine_base_url}");
    }
    let mut result = chars_of(template);
    let id = encode_segment_str(issue_id);
    result = replace_text(result, "{id}", id.as_slice());
    match remote {
        Some(rm) => {
            let host = chars_of(rm.host.as_str());
            result = replace_text(result, "{host}", host.as_slice());
            match &rm.owner {
                Some(o) => {
                    let e = encode_segment_str(o.as_str());
                    result = replace_text(result, "{owner}", e.as_slice());
                },
                None => {},
            }
            match &rm.repo {
                Some(o) => {
                    let e = encode_segment_str(o.as_str());
                    result = replace_text(result, "{repo}", e.as_slice());
                },
                None => {},
            }
            match &rm.project {
                Some(o) => {
                    let cs = chars_of(o.as_str());
                    let e = encode_path_chars(cs.as_slice());
                    result = replace_text(result, "{project}", e.as_slice());
                },
                None => {},
            }
        },
        None => {},
    }
    match &config.redmine_base_url {
        Some(base) => {
            let cs = chars_of(base.as_str());
            let slash = vec!['/'];
            assert(slash@ == seq!['/']);
            let trimmed = strip_trailing_chars(cs.as_slice(), slash.as_slice());
            result = replace_text(result, "{redmine_base_url}", trimmed.as_slice());
        },
        None => {},
    }
    if find_char(result.as_slice(), '{').is_some() || find_char(result.as_slice(), '}').is_some() {
        return Err(
            IssueJumperError::UrlBuildFailed(
                join3("unresolved placeholder in template `", template, "`"),
            ),
        );
    }
    Ok(string_from(result.as_slice()))
}

/// The first custom platform whose trimmed name equals `name`, ignoring ASCII case.
fn lookup_custom<'a>(name: &str, platforms: &'a Vec<CustomPlatform>) -> (r: Option<
    &'a CustomPlatform,
>)
    ensures
        match r {
            Some(p) => find_custom(name@, platforms_view_of(platforms@)) == Some(p@),
            None => find_custom(name@, platforms_view_of(platforms@)) is None,
        },
{
    let ghost ps = platforms_view_of(platforms@);
    let want = lower_chars(chars_of(name).as_slice());
    let mut i: usize = 0;
    assert(ps.skip(0) =~= ps);
    while i < platforms.len()
        invariant
            i <= platforms@.len(),
            ps == platforms_view_of(platforms@),
            ps.len() == platforms@.len(),
            want@ == lowercase(name@),
            find_custom(name@, ps) == find_custom(name@, ps.skip(i as int)),
        decreases platforms@.len() - i,
    {
        let p = &platforms[i];
        assert(ps.skip(i as int)[0] == p@);
        assert(ps.skip(i as int).drop_first() =~= ps.skip(i + 1));
        let t = trim_chars(chars_of(p.name.as_str()).as_slice());
        let l = lower_chars(t.as_slice());
        if same(l.as_slice(), want.as_slice()) {
            return Some(p);
        }
        i = i + 1;
    }
    None
}

/// The views of a list of custom platforms.
pub open spec fn platforms_view_of(ps: Seq<CustomPlatform>) -> Seq<CustomPlatformView> {
    crate::config::platforms_view(ps)
}

/// Builds the issue URL of `issue_id` on `platform`.
pub fn build_issue_url(
    issue_id: &str,
    platform: &Platform,
    remote: Option<&RemoteInfo>,
    config: &UserConfig,
) -> (r: Result<String, IssueJumperError>)
    ensures
        url_result_view(r) == issue_url(issue_id@, platform@, remote_view(remote), config@),
        r matches Ok(u) ==> is_http_url(u@),
{
    let built = match platform {
        Platform::GitHub => owner_repo_url("GitHub", "https://github.com/", issue_id, remote),
        Platform::GitLab => {
            match remote {
                None => Err(no_remote("GitLab")),
                Some(r) => match &r.project {
                    None => Err(missing("GitLab project")),
                    Some(project) => {
                        let mut out: Vec<char> = Vec::new();
                        push_str(&mut out, "https://");
                        push_str(&mut out, r.host.as_str());
                        push_str(&mut out, "/");
                        push_path(&mut out, project.as_str());
                        push_str(&mut out, "/-/issues/");
                        push_segment(&mut out, issue_id);
                        Ok(string_from(out.as_slice()))
                    },
                },
            }
        },
        Platform::Bitbucket => owner_repo_url(
            "Bitbucket",
            "https://bitbucket.org/",
            issue_id,
            remote,
        ),
        Platform::Gitee => owner_repo_url("Gitee", "https://gitee.com/", issue_id, remote),
        Platform::Redmine => {
            match &config.redmine_base_url {
                None => Err(missing("Redmine requires redmine_base_url")),
                Some(base) => {
                    let cs = chars_of(base.as_str());
                    let slash = vec!['/'];
                    assert(slash@ == seq!['/']);
                    let mut out = strip_trailing_chars(cs.as_slice(), slash.as_slice());
                    push_str(&mut out, "/issues/");
                    push_segment(&mut out, issue_id);
                    Ok(string_from(out.as_slice()))
                },
            }
        },
        Platform::Custom(name) => {
            match lookup_custom(name.as_str(), &config.custom_platforms) {
                None => Err(
                    IssueJumperError::UrlBuildFailed(
                        join3(
                            "custom platform `",
                            name.as_str(),
                            "` requires a custom_platforms entry",
                        ),
                    ),
                ),
                Some(cp) => apply_template(cp.url_template.as_str(), issue_id, remote, config),
            }
        },
    };
    assert(url_result_view(built) == raw_issue_url(
        issue_id@,
        platform@,
        remote_view(remote),
        config@,
    ));
    match built {
        Ok(u) => validate_http_url(u),
        Err(e) => Err(e),
    }
}

/// Builds the repository page URL (GitHub and GitLab only).
pub fn build_repository_url(platform: &Platform, remote: Option<&RemoteInfo>) -> (r: Result<
    String,
    IssueJumperError,
>)
    ensures
        url_result_view(r) == repository_url(platform@, remote_view(remote)),
        r matches Ok(u) ==> is_http_url(u@),
{
    let built = match platform {
        Platform::GitHub => {
            match remote {
                None => Err(no_remote("GitHub")),
                Some(r) => match &r.owner {
                    None => Err(missing("GitHub owner")),
                    Some(owner) => match &r.repo {
                        None => Err(missing("GitHub repo")),
                        Some(repo) => {
                            let mut out: Vec<char> = Vec::new();
                            push_str(&mut out, "https://github.com/");
                            push_segment(&mut out, owner.as_str());
                            push_str(&mut out, "/");
                            push_segment(&mut out, repo.as_str());
                            Ok(string_from(out.as_slice()))
                        },
                    },
                },
            }
        },
        Platform::GitLab => {
            match remote {
                None => Err(no_remote("GitLab")),
                Some(r) => match &r.project {
                    None => Err(missing("GitLab project")),
                    Some(project) => {
                        let mut out: Vec<char> = Vec::new();
                        push_str(&mut out, "https://");
                        push_str(&mut out, r.host.as_str());
                        push_str(&mut out, "/");
                        push_path(&mut out, project.as_str());
                        Ok(string_from(out.as_slice()))
                    },
                },
            }
        },
        _ => Err(
            IssueJumperError::UrlBuildFailed(
                join2("Cannot build repository URL for ", platform.name()),
            ),
        ),
    };
    match built {
        Ok(u) => validate_http_url(u),
        Err(e) => Err(e),
    }
}

/// Chooses the platform: override, rule hint, remote, configured fallback.
pub fn resolve_platform(
    platform_override: Option<Platform>,
    rule_platform: Option<Platform>,
    remote: Option<&RemoteInfo>,
    config: &UserConfig,
) -> (r: Result<Platform, IssueJumperError>)
    ensures
        match r {
            Ok(p) => platform_choice(
                platform_view(platform_override),
                platform_view(rule_platform),
                remote_view(remote),
                config@,
            ) == Ok::<PlatformView, ErrorView>(p@),
            Err(e) => platform_choice(
                platform_view(platform_override),
                platform_view(rule_platform),
                remote_view(remote),
                config@,
            ) == Err::<PlatformView, ErrorView>(e@),
        },
{
    if let Some(platform) = platform_override {
        return Ok(platform);
    }
    if let Some(platform) = rule_platform {
        return Ok(platform);
    }
    if let Some(remote) = remote {
        return Ok(remote.platform.clone());
    }
    if let Some(fallback) = &config.fallback_platform {
        return Ok(Platform::parse(fallback.as_str()));
    }
    Err(IssueJumperError::PlatformUnresolved)
}

// ---------------------------------------------------------------------------
// Laws of the built-in URLs
// ---------------------------------------------------------------------------

/// A prefix of `a` is a prefix of `a + b`.
proof fn lemma_prefix_extends(p: Seq<char>, a: Seq<char>, b: Seq<char>)
    requires
        p.is_prefix_of(a),
    ensures
        p.is_prefix_of(a + b),
{
    assert((a + b).subrange(0, p.len() as int) =~= a.subrange(0, p.len() as int));
}

/// `b` ends `a + b`.
proof fn lemma_suffix_of_concat(a: Seq<char>, b: Seq<char>)
    ensures
        b.is_suffix_of(a + b),
{
    assert((a + b).subrange(a.len() as int, (a + b).len() as int) =~= b);
}

/// A URL that starts with the literal base `base` is an `https` URL.
proof fn lemma_https_base(base: Seq<char>, rest: Seq<char>)
    requires
        ("https://"@).is_prefix_of(base),
    ensures
        is_http_url(base + rest),
{
    lemma_prefix_extends("https://"@, base, rest);
}

/// Building a GitHub, Bitbucket or Gitee issue URL fails.
pub open spec fn owner_repo_urls_fail(id: Seq<char>, remote: Option<RemoteView>, c: ConfigView) -> bool {
    &&& issue_url(id, PlatformView::GitHub, remote, c) is Err
    &&& issue_url(id, PlatformView::Bitbucket, remote, c) is Err
    &&& issue_url(id, PlatformView::Gitee, remote, c) is Err
}

/// Law: on GitHub, Bitbucket and Gitee the issue URL is
/// `https://<site>/<owner>/<repo>/issues/<id>`, owner, repository and ID each
/// encoded as a path segment, where `<site>` is github.com, bitbucket.org
/// or gitee.com; without a remote, an owner or a repository, building fails.
pub proof fn law_owner_repo_issue_urls(id: Seq<char>, remote: Option<RemoteView>, c: ConfigView)
    ensures
        match remote {
            Some(r) => match (r.owner, r.repo) {
                (Some(o), Some(p)) => {
                    &&& issue_url(id, PlatformView::GitHub, remote, c) == Ok::<Seq<char>, ErrorView>(
                        "https://github.com/"@ + encode_segment(o) + "/"@ + encode_segment(p)
                            + "/issues/"@ + encode_segment(id),
                    )
                    &&& issue_url(id, PlatformView::Bitbucket, remote, c) == Ok::<
                        Seq<char>,
                        ErrorView,
                    >(
                        "https://bitbucket.org/"@ + encode_segment(o) + "/"@ + encode_segment(p)
                            + "/issues/"@ + encode_segment(id),
                    )
                    &&& issue_url(id, PlatformView::Gitee, remote, c) == Ok::<Seq<char>, ErrorView>(
                        "https://gitee.com/"@ + encode_segment(o) + "/"@ + encode_segment(p)
                            + "/issues/"@ + encode_segment(id),
                    )
                },
                _ => owner_repo_urls_fail(id, remote, c),
            },
            None => owner_repo_urls_fail(id, remote, c),
        },
{
    reveal_strlit("https://");
    reveal_strlit("https://github.com/");
    reveal_strlit("https://bitbucket.org/");
    reveal_strlit("https://gitee.com/");
    if let Some(r) = remote {
        if let Some(o) = r.owner {
            if let Some(p) = r.repo {
                let tail = encode_segment(o) + "/"@ + encode_segment(p) + "/issues/"@ + encode_segment(
                    id,
                );
                assert("https://github.com/"@ + encode_segment(o) + "/"@ + encode_segment(p)
                    + "/issues/"@ + encode_segment(id) =~= "https://github.com/"@ + tail);
                assert("https://bitbucket.org/"@ + encode_segment(o) + "/"@ + encode_segment(p)
                    + "/issues/"@ + encode_segment(id) =~= "https://bitbucket.org/"@ + tail);
                assert("https://gitee.com/"@ + encode_segment(o) + "/"@ + encode_segment(p)
                    + "/issues/"@ + encode_segment(id) =~= "https://gitee.com/"@ + tail);
                lemma_https_base("https://github.com/"@, tail);
                lemma_https_base("https://bitbucket.org/"@, tail);
                lemma_https_base("https://gitee.com/"@, tail);
            }
        }
    }
}

/// Law: on GitLab the issue URL is
/// `https://<remote host>/<project>/-/issues/<id>`, the project encoded
/// segment by segment and the ID as a segment: the URL's host is the
/// remote's; without a remote or a project, building fails.
pub proof fn law_gitlab_issue_url(id: Seq<char>, remote: Option<RemoteView>, c: ConfigView)
    ensures
        match remote {
            Some(r) => match r.project {
                Some(p) => issue_url(id, PlatformView::GitLab, remote, c) == Ok::<
                    Seq<char>,
                    ErrorView,
                >("https://"@ + r.host + "/"@ + encode_path(p) + "/-/issues/"@ + encode_segment(id)),
                None => issue_url(id, PlatformView::GitLab, remote, c) is Err,
            },
            None => issue_url(id, PlatformView::GitLab, remote, c) is Err,
        },
{
    if let Some(r) = remote {
        if let Some(p) = r.project {
            let tail = r.host + "/"@ + encode_path(p) + "/-/issues/"@ + encode_segment(id);
            assert("https://"@ + r.host + "/"@ + encode_path(p) + "/-/issues/"@ + encode_segment(id)
                =~= "https://"@ + tail);
            lemma_https_base("https://"@, tail);
        }
    }
}

/// Law: on Redmine the issue URL needs `redmine_base_url`, and ends with
/// `/issues/` and the encoded ID.
pub proof fn law_redmine_issue_url(id: Seq<char>, remote: Option<RemoteView>, c: ConfigView)
    ensures
        c.redmine_base_url is None ==> issue_url(id, PlatformView::Redmine, remote, c) is Err,
        issue_url(id, PlatformView::Redmine, remote, c) matches Ok(u) ==> ("/issues/"@
            + encode_segment(id)).is_suffix_of(u),
{
    if let Some(b) = c.redmine_base_url {
        let base = strip_trailing(b, seq!['/']);
        assert(base + "/issues/"@ + encode_segment(id) =~= base + ("/issues/"@ + encode_segment(id)));
        lemma_suffix_of_concat(base, "/issues/"@ + encode_segment(id));
    }
}

/// Law: the repository page is `https://github.com/<owner>/<repo>` on
/// GitHub and `https://<remote host>/<project>` on GitLab (each part
/// encoded); with any other platform, or without what it needs, there is
/// none.
pub proof fn law_repository_urls(platform: PlatformView, remote: Option<RemoteView>)
    ensures
        match (platform, remote) {
            (PlatformView::GitHub, Some(r)) => match (r.owner, r.repo) {
                (Some(o), Some(p)) => repository_url(platform, remote) == Ok::<Seq<char>, ErrorView>(
                    "https://github.com/"@ + encode_segment(o) + "/"@ + encode_segment(p),
                ),
                _ => repository_url(platform, remote) is Err,
            },
            (PlatformView::GitLab, Some(r)) => match r.project {
                Some(p) => repository_url(platform, remote) == Ok::<Seq<char>, ErrorView>(
                    "https://"@ + r.host + "/"@ + encode_path(p),
                ),
                None => repository_url(platform, remote) is Err,
            },
            _ => repository_url(platform, remote) is Err,
        },
{
    reveal_strlit("https://");
    reveal_strlit("https://github.com/");
    if let Some(r) = remote {
        if platform is GitHub {
            if let (Some(o), Some(p)) = (r.owner, r.repo) {
                let tail = encode_segment(o) + "/"@ + encode_segment(p);
                assert("https://github.com/"@ + encode_segment(o) + "/"@ + encode_segment(p)
                    =~= "https://github.com/"@ + tail);
                lemma_https_base("https://github.com/"@, tail);
            }
        }
        if platform is GitLab {
            if let Some(p) = r.project {
                let tail = r.host + "/"@ + encode_path(p);
                assert("https://"@ + r.host + "/"@ + encode_path(p) =~= "https://"@ + tail);
                lemma_https_base("https://"@, tail);
            }
        }
    }
}

/// Law: the platform is the one given on the command line; else the one of
/// the matched rule; else the remote's; else the configured fallback; with
/// none of them it cannot be resolved.
pub proof fn law_platform_precedence(
    platform_override: Option<PlatformView>,
    rule_platform: Option<PlatformView>,
    remote: Option<RemoteView>,
    c: ConfigView,
)
    ensures
        platform_choice(platform_override, rule_platform, remote, c) == match platform_override {
            Some(p) => Ok::<PlatformView, ErrorView>(p),
            None => match rule_platform {
                Some(p) => Ok::<PlatformView, ErrorView>(p),
                None => match remote {
                    Some(r) => Ok::<PlatformView, ErrorView>(r.platform),
                    None => match c.fallback_platform {
                        Some(f) => Ok::<PlatformView, ErrorView>(parse_platform(f)),
                        None => Err::<PlatformView, ErrorView>(ErrorView::PlatformUnresolved),
                    },
                },
            },
        },
{
}

/// A character that a path segment keeps as it is: an ASCII letter or digit,
/// `-`, `_`, `.` or `~`.
pub open spec fn plain_char(c: char) -> bool {
    ('a' <= c && c <= 'z') || ('A' <= c && c <= 'Z') || ('0' <= c && c <= '9') || c == '-' || c
        == '_' || c == '.' || c == '~'
}

/// Bytes that are all unreserved are written as they are.
proof fn lemma_encode_plain_bytes(bs: Seq<u8>)
    requires
        forall|i: int| 0 <= i < bs.len() ==> is_unreserved(#[trigger] bs[i]),
    ensures
        encode_bytes(bs) == bs.map_values(|b: u8| b as char),
    decreases bs.len(),
{
    if bs.len() > 0 {
        let rest = bs.drop_first();
        assert forall|i: int| 0 <= i < rest.len() implies is_unreserved(#[trigger] rest[i]) by {
            assert(rest[i] == bs[i + 1]);
        }
        lemma_encode_plain_bytes(rest);
        assert(is_unreserved(bs[0]));
        assert(encode_bytes(bs) =~= bs.map_values(|b: u8| b as char));
    }
}

/// Law: a path segment made only of ASCII letters, digits, `-`, `_`, `.`
/// and `~` is written as it is, and a space is written `%20`.
pub proof fn law_plain_segments_unchanged(s: Seq<char>)
    requires
        forall|i: int| 0 <= i < s.len() ==> plain_char(#[trigger] s[i]),
    ensures
        encode_segment(s) == s,
        encode_segment(seq![' ']) == seq!['%', '2', '0'],
{
    assert(vstd::utf8::is_ascii_chars(s));
    vstd::utf8::is_ascii_chars_encode_utf8(s);
    let bs = encode_utf8(s);
    assert forall|i: int| 0 <= i < bs.len() implies is_unreserved(#[trigger] bs[i]) by {
        assert(s[i] as u8 == bs[i]);
    }
    lemma_encode_plain_bytes(bs);
    assert forall|i: int| 0 <= i < s.len() implies bs.map_values(|b: u8| b as char)[i] == s[i] by {
        assert(s[i] as u8 == bs[i]);
    }
    assert(bs.map_values(|b: u8| b as char) =~= s);
    let sp = seq![' '];
    assert(vstd::utf8::is_ascii_chars(sp));
    vstd::utf8::is_ascii_chars_encode_utf8(sp);
    let b1 = encode_utf8(sp);
    assert(b1[0] == 32);
    assert(b1.drop_first().len() == 0);
    assert(encode_bytes(b1.drop_first()) == Seq::<char>::empty());
    assert(hex_char(2) == '2');
    assert(hex_char(0) == '0');
    assert(encode_bytes(b1) =~= seq!['%', '2', '0']);
}

} // verus!
