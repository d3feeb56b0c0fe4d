//! Opening a URL in the default browser.
//!
//! Only `http` and `https` URLs are opened. The command that opens one
//! depends on the operating system; running it is left to the caller, which
//! reports how it went back to [`opener_result`].

use vstd::prelude::*;
use crate::error::{ErrorView, IssueJumperError};
use crate::text::{chars_of, owned, push_str, starts_with_text, string_from};
use crate::url::is_http_url;

verus! {

/// The operating system whose opener is used.
#[derive(Debug, Clone, Copy, PartialEq, Eq, Structural)]
pub enum HostOs {
    MacOs,
    Windows,
    Other,
}

/// A program and its arguments.
#[derive(Debug)]
pub struct BrowserCommand {
    pub program: String,
    pub args: Vec<String>,
}

/// The opener of each system: `open` on macOS, `cmd /C start` on Windows
/// (with an empty window title), `xdg-open` elsewhere.
pub open spec fn opener_for(url: Seq<char>, os: HostOs) -> (Seq<char>, Seq<Seq<char>>) {
    match os {
        HostOs::MacOs => ("open"@, seq![url]),
        HostOs::Windows => ("cmd"@, seq!["/C"@, "start"@, Seq::empty(), url]),
        HostOs::Other => ("xdg-open"@, seq![url]),
    }
}

impl BrowserCommand {
    /// The command that opens `url` on `os`.
    pub fn new(url: &str, os: HostOs) -> (c: BrowserCommand)
        ensures
            (c.program@, c.args.deep_view()) == opener_for(url@, os),
    {
        let mut args: Vec<String> = Vec::new();
        let program = match os {
            HostOs::MacOs => {
                args.push(owned(url));
                owned("open")
            },
            HostOs::Windows => {
                args.push(owned("/C"));
                args.push(owned("start"));
                args.push(String::new());
                args.push(owned(url));
                owned("cmd")
            },
            HostOs::Other => {
                args.push(owned(url));
                owned("xdg-open")
            },
        };
        assert(args.deep_view() =~= opener_for(url@, os).1);
        BrowserCommand { program, args }
    }
}

/// The message for a URL that is not opened.
pub open spec fn refused_message(url: Seq<char>) -> Seq<char> {
    "Refusing to open non-http URL: "@ + url
}

/// The command that opens `url`, which must be an `http` or `https` URL.
pub fn open_url(url: &str, os: HostOs) -> (r: Result<BrowserCommand, IssueJumperError>)
    ensures
        match r {
            Ok(c) => is_http_url(url@) && (c.program@, c.args.deep_view()) == opener_for(url@, os),
            Err(e) => !is_http_url(url@) && e@ == ErrorView::BrowserOpenFailed(
                refused_message(url@),
            ),
        },
{
    let cs = chars_of(url);
    if !(starts_with_text(cs.as_slice(), "https://") || starts_with_text(cs.as_slice(), "http://")) {
        let mut v: Vec<char> = Vec::new();
        push_str(&mut v, "Refusing to open non-http URL: ");
        push_str(&mut v, url);
        return Err(IssueJumperError::BrowserOpenFailed(string_from(v.as_slice())));
    }
    Ok(BrowserCommand::new(url, os))
}

/// How running the opener went.
#[derive(Debug)]
pub enum OpenerOutcome {
    /// It ran and exited; `status` describes the exit status.
    Exited { success: bool, status: String },
    /// It could not be run; `error` describes why.
    Failed { error: String },
}

/// The result of opening `url`: a successful exit is success; any other
/// outcome is reported with the URL.
pub open spec fn outcome_result(url: Seq<char>, outcome: OpenerOutcome) -> Result<(), ErrorView> {
    match outcome {
        OpenerOutcome::Exited { success, status } => if success {
            Ok(())
        } else {
            Err(
                ErrorView::BrowserOpenFailed(
                    "URL: "@ + url + "; opener exit status: "@ + status@,
                ),
            )
        },
        OpenerOutcome::Failed { error } => Err(
            ErrorView::BrowserOpenFailed("URL: "@ + url + "; "@ + error@),
        ),
    }
}

/// The result of opening `url`, given how running the opener went.
pub fn opener_result(url: &str, outcome: &OpenerOutcome) -> (r: Result<(), IssueJumperError>)
    ensures
        match r {
            Ok(()) => outcome_result(url@, *outcome) == Ok::<(), ErrorView>(()),
            Err(e) => outcome_result(url@, *outcome) == Err::<(), ErrorView>(e@),
        },
{
    match outcome {
        OpenerOutcome::Exited { success, status } => {
            if *success {
                Ok(())
            } else {
                let mut v: Vec<char> = Vec::new();
                push_str(&mut v, "URL: ");
                push_str(&mut v, url);
                push_str(&mut v, "; opener exit status: ");
                push_str(&mut v, status.as_str());
                Err(IssueJumperError::BrowserOpenFailed(string_from(v.as_slice())))
            }
        },
        OpenerOutcome::Failed { error } => {
            let mut v: Vec<char> = Vec::new();
            push_str(&mut v, "URL: ");
            push_str(&mut v, url);
            push_str(&mut v, "; ");
            push_str(&mut v, error.as_str());
            Err(IssueJumperError::BrowserOpenFailed(string_from(v.as_slice())))
        },
    }
}

} // verus!
