//! Parsing of Git remote URLs into host, project path and platform.

use vstd::prelude::*;
use crate::config::{CustomPlatform, CustomPlatformView, UserConfig};
use crate::error::{ErrorView, IssueJumperError};
use crate::platform::{Platform, PlatformView};
use crate::text::{
    after_last, after_last_chars, before_first, before_first_chars, chars_of, contains_text, find,
    find_char, first_index, first_occurrence, has_infix, is_text, lower_chars, lowercase, owned,
    same, slice_of, starts_with_text, string_from, strip_leading, strip_leading_chars,
    strip_trailing, strip_trailing_chars, last_index, lemma_first_index_bounds, lemma_last_index_bounds,
    lemma_strip_leading, lemma_strip_trailing, lemma_first_index, lemma_first_occurrence, occurs_at,
};

verus! {

/// What a Git remote URL says about the repository it points to.
#[derive(Debug)]
pub struct RemoteInfo {
    pub remote_name: String,
    pub original_url: String,
    pub host: String,
    pub path: String,
    pub platform: Platform,
    pub owner: Option<String>,
    pub repo: Option<String>,
    pub project: Option<String>,
}

/// The mathematical value of a [`RemoteInfo`].
pub struct RemoteView {
    pub remote_name: Seq<char>,
    pub original_url: Seq<char>,
    pub host: Seq<char>,
    pub path: Seq<char>,
    pub platform: PlatformView,
    pub owner: Option<Seq<char>>,
    pub repo: Option<Seq<char>>,
    pub project: Option<Seq<char>>,
}

impl View for RemoteInfo {
    type V = RemoteView;

    open spec fn view(&self) -> RemoteView {
        RemoteView {
            remote_name: self.remote_name@,
            original_url: self.original_url@,
            host: self.host@,
            path: self.path@,
            platform: self.platform@,
            owner: self.owner.deep_view(),
            repo: self.repo.deep_view(),
            project: self.project.deep_view(),
        }
    }
}

/// The URL schemes that name a Git transport.
pub open spec fn is_remote_scheme(scheme: Seq<char>) -> bool {
    scheme == "http"@ || scheme == "https"@ || scheme == "ssh"@ || scheme == "git"@
}

/// An SCP-like remote `user@host:path`: the host is what follows the last `@`
/// before the first `:`; the path must not start with `//`.
pub open spec fn split_scp_like(v: Seq<char>) -> Option<(Seq<char>, Seq<char>)> {
    match first_index(v, ':') {
        Some(i) => {
            let left = v.take(i);
            let path = v.skip(i + 1);
            if left.contains('@') && !("//"@).is_prefix_of(path) {
                Some((after_last(left, '@'), path))
            } else {
                None
            }
        },
        None => None,
    }
}

/// Host and raw path of a remote URL. A URL with `://` needs a `/` after the
/// authority (else there is no result); with a Git scheme the host is the
/// authority without user and port. Otherwise the SCP-like form is tried.
pub open spec fn split_remote(v: Seq<char>) -> Option<(Seq<char>, Seq<char>)> {
    match first_occurrence(v, "://"@) {
        Some(i) => {
            let scheme = v.take(i);
            let rest = v.skip(i + ("://"@).len());
            match first_index(rest, '/') {
                None => None,
                Some(slash) => {
                    if is_remote_scheme(scheme) {
                        Some(
                            (
                                before_first(after_last(rest.take(slash), '@'), ':'),
                                rest.skip(slash + 1),
                            ),
                        )
                    } else {
                        split_scp_like(v)
                    }
                },
            }
        },
        None => split_scp_like(v),
    }
}

/// The project path: leading `/`s, trailing `.git`s and then trailing `/`s removed.
pub open spec fn clean_path(p: Seq<char>) -> Seq<char> {
    strip_trailing(strip_trailing(strip_leading(p, '/'), ".git"@), seq!['/'])
}

/// The name of the first custom platform one of whose host patterns equals
/// the (lower-case) host, ignoring ASCII case.
pub open spec fn matching_custom(host_lower: Seq<char>, ps: Seq<CustomPlatformView>) -> Option<Seq<char>>
    decreases ps.len(),
{
    if ps.len() == 0 {
        None
    } else if exists|j: int|
        0 <= j < ps[0].host_patterns.len() && #[trigger] lowercase(ps[0].host_patterns[j])
            == host_lower {
        Some(ps[0].name)
    } else {
        matching_custom(host_lower, ps.drop_first())
    }
}

/// A host that follows the naming convention of self-hosted GitLab.
pub open spec fn private_gitlab_host(h: Seq<char>) -> bool {
    ("gitlab."@).is_prefix_of(h) || has_infix(h, ".gitlab."@)
}

/// The platform of a remote host: custom host patterns first, then the
/// well-known hosts, then the self-hosted GitLab convention; any other host
/// is a custom platform named by the host itself.
pub open spec fn detect_platform(host: Seq<char>, ps: Seq<CustomPlatformView>) -> PlatformView {
    let h = lowercase(host);
    match matching_custom(h, ps) {
        Some(name) => PlatformView::Custom(name),
        None => if h == "github.com"@ {
            PlatformView::GitHub
        } else if h == "gitlab.com"@ {
            PlatformView::GitLab
        } else if h == "bitbucket.org"@ {
            PlatformView::Bitbucket
        } else if h == "gitee.com"@ {
            PlatformView::Gitee
        } else if private_gitlab_host(h) {
            PlatformView::GitLab
        } else {
            PlatformView::Custom(host)
        },
    }
}

/// `parse_remote`: the remote is refused when it has neither form, or when
/// the host or the cleaned path is empty. The owner is the first segment of
/// the path, the repository its last segment, the project the whole path.
pub open spec fn parse_remote_spec(
    name: Seq<char>,
    url: Seq<char>,
    ps: Seq<CustomPlatformView>,
) -> Result<RemoteView, ErrorView> {
    match split_remote(url) {
        Some((host, raw)) => {
            let path = clean_path(raw);
            if host.len() == 0 || path.len() == 0 {
                Err(ErrorView::RemoteParseFailed(url))
            } else {
                Ok(
                    RemoteView {
                        remote_name: name,
                        original_url: url,
                        host: host,
                        path: path,
                        platform: detect_platform(host, ps),
                        owner: Some(before_first(path, '/')),
                        repo: Some(after_last(path, '/')),
                        project: Some(path),
                    },
                )
            }
        },
        None => Err(ErrorView::RemoteParseFailed(url)),
    }
}

/// `left` is one of the Git URL schemes.
fn scheme_is_git(left: &[char]) -> (r: bool)
    ensures
        r == is_remote_scheme(left@),
{
    is_text(left, "http") || is_text(left, "https") || is_text(left, "ssh") || is_text(left, "git")
}

/// The SCP-like form `user@host:path`.
fn split_scp(v: &[char]) -> (r: Option<(Vec<char>, Vec<char>)>)
    ensures
        match r {
            Some((h, p)) => split_scp_like(v@) == Some((h@, p@)),
            None => split_scp_like(v@) is None,
        },
{
    let n = v.len();
    match find_char(v, ':') {
        Some(i) => {
            assert(i < n);
            let left = slice_of(v, 0, i);
            let path = slice_of(v, i + 1, n);
            let at = find_char(left.as_slice(), '@');
            let slashes = starts_with_text(path.as_slice(), "//");
            if at.is_some() && !slashes {
                let host = after_last_chars(left.as_slice(), '@');
                Some((host, path))
            } else {
                None
            }
        },
        None => None,
    }
}

/// Host and raw path of a remote URL.
fn split_remote_url(v: &[char]) -> (r: Option<(Vec<char>, Vec<char>)>)
    ensures
        match r {
            Some((h, p)) => split_remote(v@) == Some((h@, p@)),
            None => split_remote(v@) is None,
        },
{
    let sep = chars_of("://");
    let n = v.len();
    match find(v, sep.as_slice()) {
        Some(i) => {
            assert(i + sep@.len() <= n);
            let left = slice_of(v, 0, i);
            let right = slice_of(v, i + sep.len(), n);
            match find_char(right.as_slice(), '/') {
                None => {
                    return None;
                },
                Some(slash) => {
                    if scheme_is_git(left.as_slice()) {
                        let authority = slice_of(right.as_slice(), 0, slash);
                        let path = slice_of(right.as_slice(), slash + 1, right.len());
                        let host_port = after_last_chars(authority.as_slice(), '@');
                        let host = before_first_chars(host_port.as_slice(), ':');
                        return Some((host, path));
                    }
                },
            }
        },
        None => {},
    }
    split_scp(v)
}

/// The project path of a raw remote path.
fn clean(p: &[char]) -> (out: Vec<char>)
    ensures
        out@ == clean_path(p@),
{
    let a = strip_leading_chars(p, '/');
    let git = chars_of(".git");
    proof {
        reveal_strlit(".git");
    }
    let b = strip_trailing_chars(a.as_slice(), git.as_slice());
    let slash = vec!['/'];
    assert(slash@ == seq!['/']);
    strip_trailing_chars(b.as_slice(), slash.as_slice())
}

/// Some host pattern of `p` equals the lower-case host, ignoring ASCII case.
fn serves_host(p: &CustomPlatform, host_lower: &[char]) -> (r: bool)
    ensures
        r == exists|j: int|
            0 <= j < p@.host_patterns.len() && #[trigger] lowercase(p@.host_patterns[j])
                == host_lower@,
{
    let mut k: usize = 0;
    while k < p.host_patterns.len()
        invariant
            k <= p.host_patterns@.len(),
            p@.host_patterns.len() == p.host_patterns@.len(),
            forall|j: int| 0 <= j < k ==> #[trigger] lowercase(p@.host_patterns[j]) != host_lower@,
        decreases p.host_patterns@.len() - k,
    {
        let pat = chars_of(p.host_patterns[k].as_str());
        let low = lower_chars(pat.as_slice());
        assert(p@.host_patterns[k as int] == p.host_patterns@[k as int]@);
        if same(low.as_slice(), host_lower) {
            return true;
        }
        k = k + 1;
    }
    false
}

/// The platform of a remote host.
fn platform_of_host(host: &[char], config: &UserConfig) -> (p: Platform)
    ensures
        p@ == detect_platform(host@, config@.custom_platforms),
{
    let h = lower_chars(host);
    let ghost ps = config@.custom_platforms;
    let mut i: usize = 0;
    assert(ps.skip(0) =~= ps);
    while i < config.custom_platforms.len()
        invariant
            i <= config.custom_platforms@.len(),
            ps == config@.custom_platforms,
            ps.len() == config.custom_platforms@.len(),
            h@ == lowercase(host@),
            matching_custom(h@, ps) == matching_custom(h@, ps.skip(i as int)),
        decreases config.custom_platforms@.len() - i,
    {
        let cp = &config.custom_platforms[i];
        assert(ps.skip(i as int)[0] == cp@);
        assert(ps.skip(i as int).drop_first() =~= ps.skip(i + 1));
        if serves_host(cp, h.as_slice()) {
            return Platform::Custom(cp.name.clone());
        }
        i = i + 1;
    }
    if is_text(h.as_slice(), "github.com") {
        Platform::GitHub
    } else if is_text(h.as_slice(), "gitlab.com") {
        Platform::GitLab
    } else if is_text(h.as_slice(), "bitbucket.org") {
        Platform::Bitbucket
    } else if is_text(h.as_slice(), "gitee.com") {
        Platform::Gitee
    } else if starts_with_text(h.as_slice(), "gitlab.") || contains_text(h.as_slice(), ".gitlab.") {
        Platform::GitLab
    } else {
        Platform::Custom(string_from(host))
    }
}

/// Parses a Git remote URL.
pub fn parse_remote(remote_name: &str, remote_url: &str, config: &UserConfig) -> (r: Result<
    RemoteInfo,
    IssueJumperError,
>)
    ensures
        match r {
            Ok(info) => parse_remote_spec(remote_name@, remote_url@, config@.custom_platforms)
                == Ok::<RemoteView, ErrorView>(info@),
            Err(e) => parse_remote_spec(remote_name@, remote_url@, config@.custom_platforms)
                == Err::<RemoteView, ErrorView>(e@),
        },
{
    let url = chars_of(remote_url);
    let (host, raw) = match split_remote_url(url.as_slice()) {
        Some(parts) => parts,
        None => {
            return Err(IssueJumperError::RemoteParseFailed(owned(remote_url)));
        },
    };
    let path = clean(raw.as_slice());
    if host.len() == 0 || path.len() == 0 {
        return Err(IssueJumperError::RemoteParseFailed(owned(remote_url)));
    }
    let platform = platform_of_host(host.as_slice(), config);
    let owner = before_first_chars(path.as_slice(), '/');
    let repo = after_last_chars(path.as_slice(), '/');
    Ok(
        RemoteInfo {
            remote_name: owned(remote_name),
            original_url: owned(remote_url),
            host: string_from(host.as_slice()),
            path: string_from(path.as_slice()),
            platform,
            owner: Some(string_from(owner.as_slice())),
            repo: Some(string_from(repo.as_slice())),
            project: Some(string_from(path.as_slice())),
        },
    )
}

/// One segment of a path: not empty, with no `/`.
pub open spec fn is_segment(s: Seq<char>) -> bool {
    s.len() > 0 && !s.contains('/')
}

/// The shape of a parsed remote: what a successful parse gives.
pub open spec fn well_shaped(r: RemoteView, name: Seq<char>, url: Seq<char>) -> bool {
    &&& r.remote_name == name
    &&& r.original_url == url
    &&& r.host.len() > 0
    &&& r.path.len() > 0
    &&& r.path[0] != '/'
    &&& r.path.last() != '/'
    &&& r.project == Some(r.path)
    &&& r.owner matches Some(o) && is_segment(o) && o.is_prefix_of(r.path) && (o == r.path
        || r.path[o.len() as int] == '/')
    &&& r.repo matches Some(p) && is_segment(p) && p.is_suffix_of(r.path) && (p == r.path
        || r.path[r.path.len() - p.len() - 1] == '/')
}

/// A cleaned path neither starts nor ends with `/`.
proof fn lemma_clean_path_ends(raw: Seq<char>)
    ensures
        clean_path(raw).len() > 0 ==> clean_path(raw)[0] != '/' && clean_path(raw).last() != '/',
{
    let l = strip_leading(raw, '/');
    let a = strip_trailing(l, ".git"@);
    let path = strip_trailing(a, seq!['/']);
    lemma_strip_leading(raw, '/');
    reveal_strlit(".git");
    lemma_strip_trailing(l, ".git"@);
    lemma_strip_trailing(a, seq!['/']);
    if path.len() > 0 {
        let k1 = choose|k: int| 0 <= k <= l.len() && a == l.take(k);
        let k2 = choose|k: int| 0 <= k <= a.len() && path == a.take(k);
        assert(path[0] == l[0]);
        if path.last() == '/' {
            assert(seq!['/'].is_suffix_of(path)) by {
                assert(path.subrange(path.len() - 1, path.len() as int) =~= seq!['/']);
            }
        }
    }
}

/// Law: a parsed remote keeps its name and URL, has a host and a path that
/// neither starts nor ends with `/`, and its owner and repository are the
/// first and last segments of that path, which is also the project.
pub proof fn law_parsed_remote_shape(name: Seq<char>, url: Seq<char>, ps: Seq<CustomPlatformView>)
    requires
        parse_remote_spec(name, url, ps) is Ok,
    ensures
        parse_remote_spec(name, url, ps) matches Ok(r) && well_shaped(r, name, url),
{
    let (host, raw) = split_remote(url)->Some_0;
    let path = clean_path(raw);
    lemma_clean_path_ends(raw);
    lemma_first_index_bounds(path, '/');
    lemma_last_index_bounds(path, '/');
    let o = before_first(path, '/');
    let p = after_last(path, '/');
    match first_index(path, '/') {
        Some(i) => {
            assert(i > 0);
            assert(!o.contains('/')) by {
                if o.contains('/') {
                    let j = choose|j: int| 0 <= j < o.len() && o[j] == '/';
                    assert(path[j] == '/');
                }
            }
            assert(o.is_prefix_of(path));
            assert(path[o.len() as int] == '/');
        },
        None => {
            assert(o == path);
        },
    }
    match last_index(path, '/') {
        Some(i) => {
            assert(i < path.len() - 1);
            assert(!p.contains('/')) by {
                if p.contains('/') {
                    let j = choose|j: int| 0 <= j < p.len() && p[j] == '/';
                    assert(path[i + 1 + j] == '/');
                }
            }
            assert(p =~= path.subrange(path.len() - p.len(), path.len() as int));
            assert(p.is_suffix_of(path));
            assert(path.len() - p.len() - 1 == i);
        },
        None => {
            assert(p == path);
            assert(p.is_suffix_of(path)) by {
                assert(path.subrange(0, path.len() as int) =~= path);
            }
        },
    }
}

/// A host as it can stand in a remote URL: not empty, with no user part,
/// port or path.
pub open spec fn plain_host(h: Seq<char>) -> bool {
    h.len() > 0 && !h.contains('@') && !h.contains(':') && !h.contains('/')
}

/// Law: a remote URL `<scheme>://<host>/<path>` with one of the Git schemes
/// (`http`, `https`, `ssh`, `git`), a plain host and a path that is not
/// empty once cleaned is parsed with that host and that cleaned path.
pub proof fn law_scheme_urls_parse(
    name: Seq<char>,
    scheme: Seq<char>,
    host: Seq<char>,
    path: Seq<char>,
    ps: Seq<CustomPlatformView>,
)
    requires
        scheme == "http"@ || scheme == "https"@ || scheme == "ssh"@ || scheme == "git"@,
        plain_host(host),
        clean_path(path).len() > 0,
    ensures
        parse_remote_spec(name, scheme + "://"@ + host + "/"@ + path, ps) is Ok,
        parse_remote_spec(name, scheme + "://"@ + host + "/"@ + path, ps)->Ok_0.host == host,
        parse_remote_spec(name, scheme + "://"@ + host + "/"@ + path, ps)->Ok_0.path == clean_path(
            path,
        ),
{
    reveal_strlit("http");
    reveal_strlit("https");
    reveal_strlit("ssh");
    reveal_strlit("git");
    reveal_strlit("://");
    reveal_strlit("/");
    let sep = "://"@;
    let v = scheme + sep + host + "/"@ + path;
    let sl = scheme.len() as int;
    assert(forall|j: int| 0 <= j < sl ==> scheme[j] != ':');
    assert(v.subrange(sl, sl + 3) =~= sep);
    assert(occurs_at(v, sep, sl));
    assert forall|j: int| 0 <= j < sl implies !occurs_at(v, sep, j) by {
        if occurs_at(v, sep, j) {
            assert(v.subrange(j, j + 3)[0] == v[j]);
            assert(v[j] == scheme[j]);
        }
    }
    lemma_first_occurrence(v, sep, sl);
    let rest = v.skip(sl + sep.len());
    assert(rest =~= host + "/"@ + path);
    let hl = host.len() as int;
    assert(rest[hl] == '/');
    assert forall|j: int| 0 <= j < hl implies rest[j] != '/' by {
        assert(rest[j] == host[j]);
    }
    lemma_first_index(rest, '/', hl);
    assert(rest.take(hl) =~= host);
    assert(after_last(host, '@') == host);
    assert(before_first(host, ':') == host);
    assert(rest.skip(hl + 1) =~= path);
    assert(v.take(sl) =~= scheme);
}

/// Law: the well-known hosts, in any ASCII case, are their platforms, and
/// hosts named `gitlab.<...>` or `<...>.gitlab.<...>` are GitLab, unless a
/// custom platform claims the host; a custom platform that claims the host
/// wins; any other host is a custom platform named by the host.
pub proof fn law_host_platforms(host: Seq<char>, ps: Seq<CustomPlatformView>)
    ensures
        detect_platform(host, ps) == match matching_custom(lowercase(host), ps) {
            Some(n) => PlatformView::Custom(n),
            None => if lowercase(host) == "github.com"@ {
                PlatformView::GitHub
            } else if lowercase(host) == "gitlab.com"@ {
                PlatformView::GitLab
            } else if lowercase(host) == "bitbucket.org"@ {
                PlatformView::Bitbucket
            } else if lowercase(host) == "gitee.com"@ {
                PlatformView::Gitee
            } else if ("gitlab."@).is_prefix_of(lowercase(host)) || has_infix(
                lowercase(host),
                ".gitlab."@,
            ) {
                PlatformView::GitLab
            } else {
                PlatformView::Custom(host)
            },
        },
{
}

} // verus!
