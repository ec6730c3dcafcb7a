//! Errors of the library and the process exit codes they map to.

use vstd::prelude::*;

verus! {

/// Process exit code: success.
pub const EXIT_OK: u8 = 0;
/// Process exit code: bad usage or input.
pub const EXIT_USAGE: u8 = 1;
/// Process exit code: the session is dead or credentials are missing.
pub const EXIT_AUTH: u8 = 2;
/// Process exit code: some assets failed.
pub const EXIT_PARTIAL: u8 = 3;
/// Process exit code: anything else.
pub const EXIT_UNEXPECTED: u8 = 10;

/// Every failure the library reports. `Io` carries the text of the
/// underlying I/O error.
#[derive(Debug)]
pub enum ImagoError {
    Usage(String),
    Auth(String),
    SessionDead,
    RateLimited(String),
    NotFound(String),
    Network(String),
    Parse(String),
    Io(String),
    Other(String),
}

/// An error as a mathematical value: its variant and its text.
pub enum ErrorView {
    Usage(Seq<char>),
    Auth(Seq<char>),
    SessionDead,
    RateLimited(Seq<char>),
    NotFound(Seq<char>),
    Network(Seq<char>),
    Parse(Seq<char>),
    Io(Seq<char>),
    Other(Seq<char>),
}

impl View for ImagoError {
    type V = ErrorView;

    open spec fn view(&self) -> ErrorView {
        match self {
            ImagoError::Usage(s) => ErrorView::Usage(s@),
            ImagoError::Auth(s) => ErrorView::Auth(s@),
            ImagoError::SessionDead => ErrorView::SessionDead,
            ImagoError::RateLimited(s) => ErrorView::RateLimited(s@),
            ImagoError::NotFound(s) => ErrorView::NotFound(s@),
            ImagoError::Network(s) => ErrorView::Network(s@),
            ImagoError::Parse(s) => ErrorView::Parse(s@),
            ImagoError::Io(s) => ErrorView::Io(s@),
            ImagoError::Other(s) => ErrorView::Other(s@),
        }
    }
}

/// The exit code an error maps to.
pub open spec fn exit_code_of(e: ErrorView) -> u8 {
    match e {
        ErrorView::Usage(_) => EXIT_USAGE,
        ErrorView::Auth(_) | ErrorView::SessionDead => EXIT_AUTH,
        _ => EXIT_UNEXPECTED,
    }
}

/// The human-readable text of an error.
pub open spec fn message_of(e: ErrorView) -> Seq<char> {
    match e {
        ErrorView::Usage(s) => s,
        ErrorView::Auth(s) => "authentication failed: "@ + s,
        ErrorView::SessionDead => "session expired or invalid — run: imago auth login"@,
        ErrorView::RateLimited(s) => "rate limited by Instagram: "@ + s,
        ErrorView::NotFound(s) => "profile not found: "@ + s,
        ErrorView::Network(s) => "network error: "@ + s,
        ErrorView::Parse(s) => "parse error: "@ + s,
        ErrorView::Io(s) => "io error: "@ + s,
        ErrorView::Other(s) => s,
    }
}

fn prefixed(prefix: &str, s: &String) -> (res: String)
    ensures
        res@ == prefix@ + s@,
{
    let mut out = String::from_str(prefix);
    out.append(s.as_str());
    out
}

impl ImagoError {
    /// The process exit code for this error: usage errors give 1, dead
    /// sessions and authentication failures 2, everything else 10.
    pub fn exit_code(&self) -> (c: u8)
        ensures
            c == exit_code_of(self@),
    {
        match self {
            ImagoError::Usage(_) => EXIT_USAGE,
            ImagoError::Auth(_) | ImagoError::SessionDead => EXIT_AUTH,
            ImagoError::RateLimited(_)
            | ImagoError::NotFound(_)
            | ImagoError::Network(_)
            | ImagoError::Parse(_)
            | ImagoError::Io(_)
            | ImagoError::Other(_) => EXIT_UNEXPECTED,
        }
    }

    /// The text shown to the user for this error.
    pub fn message(&self) -> (res: String)
        ensures
            res@ == message_of(self@),
    {
        match self {
            ImagoError::Usage(s) => s.clone(),
            ImagoError::Auth(s) => prefixed("authentication failed: ", s),
            ImagoError::SessionDead => String::from_str(
                "session expired or invalid — run: imago auth login",
            ),
            ImagoError::RateLimited(s) => prefixed("rate limited by Instagram: ", s),
            ImagoError::NotFound(s) => prefixed("profile not found: ", s),
            ImagoError::Network(s) => prefixed("network error: ", s),
            ImagoError::Parse(s) => prefixed("parse error: ", s),
            ImagoError::Io(s) => prefixed("io error: ", s),
            ImagoError::Other(s) => s.clone(),
        }
    }
}

} // verus!

verus! {

/// Whether a session probe failed because the session is unusable (a dead
/// session or an authentication failure), as opposed to another error.
pub fn probe_says_dead(e: &ImagoError) -> (r: bool)
    ensures
        r == (e@ is SessionDead || e@ is Auth),
{
    match e {
        ImagoError::SessionDead | ImagoError::Auth(_) => true,
        _ => false,
    }
}

} // verus!
