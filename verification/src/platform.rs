//! Issue tracker platforms.

use vstd::prelude::*;
use crate::text::{chars_of, is_text, lower_chars, lowercase, string_from};

verus! {

/// A supported issue tracker, or a custom one by name.
#[derive(Debug)]
pub enum Platform {
    GitHub,
    GitLab,
    Bitbucket,
    Gitee,
    Redmine,
    Custom(String),
}

/// The mathematical value of a [`Platform`]: custom names are character sequences.
pub enum PlatformView {
    GitHub,
    GitLab,
    Bitbucket,
    Gitee,
    Redmine,
    Custom(Seq<char>),
}

impl View for Platform {
    type V = PlatformView;

    open spec fn view(&self) -> PlatformView {
        match self {
            Platform::GitHub => PlatformView::GitHub,
            Platform::GitLab => PlatformView::GitLab,
            Platform::Bitbucket => PlatformView::Bitbucket,
            Platform::Gitee => PlatformView::Gitee,
            Platform::Redmine => PlatformView::Redmine,
            Platform::Custom(name) => PlatformView::Custom(name@),
        }
    }
}

/// The platform that a (lower-case) name denotes.
pub open spec fn platform_named(v: Seq<char>) -> PlatformView {
    if v == "github"@ {
        PlatformView::GitHub
    } else if v == "gitlab"@ {
        PlatformView::GitLab
    } else if v == "bitbucket"@ {
        PlatformView::Bitbucket
    } else if v == "gitee"@ {
        PlatformView::Gitee
    } else if v == "redmine"@ {
        PlatformView::Redmine
    } else {
        PlatformView::Custom(v)
    }
}

/// `Platform::parse`: names are compared ignoring ASCII case; an unknown name
/// becomes a custom platform with the lower-cased name.
pub open spec fn parse_platform(value: Seq<char>) -> PlatformView {
    platform_named(lowercase(value))
}

/// The name under which a platform is written.
pub open spec fn platform_name(p: PlatformView) -> Seq<char> {
    match p {
        PlatformView::GitHub => "github"@,
        PlatformView::GitLab => "gitlab"@,
        PlatformView::Bitbucket => "bitbucket"@,
        PlatformView::Gitee => "gitee"@,
        PlatformView::Redmine => "redmine"@,
        PlatformView::Custom(name) => name,
    }
}

impl PartialEq for Platform {
    fn eq(&self, other: &Self) -> (r: bool) {
        let r = match self {
            Platform::GitHub => match other {
                Platform::GitHub => true,
                _ => false,
            },
            Platform::GitLab => match other {
                Platform::GitLab => true,
                _ => false,
            },
            Platform::Bitbucket => match other {
                Platform::Bitbucket => true,
                _ => false,
            },
            Platform::Gitee => match other {
                Platform::Gitee => true,
                _ => false,
            },
            Platform::Redmine => match other {
                Platform::Redmine => true,
                _ => false,
            },
            Platform::Custom(a) => match other {
                Platform::Custom(b) => a.eq(b),
                _ => false,
            },
        };
        r
    }
}

impl Clone for Platform {
    fn clone(&self) -> (r: Self)
        ensures
            r@ == self@,
    {
        match self {
            Platform::GitHub => Platform::GitHub,
            Platform::GitLab => Platform::GitLab,
            Platform::Bitbucket => Platform::Bitbucket,
            Platform::Gitee => Platform::Gitee,
            Platform::Redmine => Platform::Redmine,
            Platform::Custom(name) => Platform::Custom(name.clone()),
        }
    }
}

impl vstd::std_specs::cmp::PartialEqSpecImpl for Platform {
    open spec fn obeys_eq_spec() -> bool {
        true
    }

    open spec fn eq_spec(&self, other: &Self) -> bool {
        self@ == other@
    }
}

impl Eq for Platform {
}

impl Platform {
    /// Parses a platform name, ignoring ASCII case.
    pub fn parse(value: &str) -> (p: Platform)
        ensures
            p@ == parse_platform(value@),
    {
        let cs = chars_of(value);
        let l = lower_chars(cs.as_slice());
        if is_text(l.as_slice(), "github") {
            Platform::GitHub
        } else if is_text(l.as_slice(), "gitlab") {
            Platform::GitLab
        } else if is_text(l.as_slice(), "bitbucket") {
            Platform::Bitbucket
        } else if is_text(l.as_slice(), "gitee") {
            Platform::Gitee
        } else if is_text(l.as_slice(), "redmine") {
            Platform::Redmine
        } else {
            Platform::Custom(string_from(l.as_slice()))
        }
    }

    /// The name of the platform.
    pub fn name(&self) -> (n: &str)
        ensures
            n@ == platform_name(self@),
    {
        match self {
            Platform::GitHub => "github",
            Platform::GitLab => "gitlab",
            Platform::Bitbucket => "bitbucket",
            Platform::Gitee => "gitee",
            Platform::Redmine => "redmine",
            Platform::Custom(name) => name.as_str(),
        }
    }
}

/// Law: the name of a parsed platform is the input, lower-cased.
pub proof fn law_name_of_parsed_platform(value: Seq<char>)
    ensures
        platform_name(parse_platform(value)) == lowercase(value),
{
}

} // verus!
