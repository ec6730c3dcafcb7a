//! Instagram session credentials and the order in which their sources are
//! consulted.

use vstd::prelude::*;
use crate::error::ImagoError;

verus! {

/// A session: the `sessionid` and `csrftoken` cookies, and optionally the
/// user agent the session was created with.
#[derive(Debug)]
pub struct Credentials {
    pub session_id: String,
    pub csrf_token: String,
    pub user_agent: Option<String>,
}

/// The length in UTF-8 bytes of a string held in memory (`str::len`).
pub open spec fn byte_len(s: Seq<char>) -> usize {
    vstd::utf8::encode_utf8(s).len() as usize
}

/// Plausible credentials: a non-empty session id longer than 20 bytes and
/// a non-empty CSRF token of at least 8 bytes.
pub open spec fn valid_shape(session_id: Seq<char>, csrf_token: Seq<char>) -> bool {
    session_id.len() > 0 && byte_len(session_id) > 20 && csrf_token.len() > 0 && byte_len(
        csrf_token,
    ) >= 8
}

/// Credentials made of an optional pair of values, kept only when both are
/// present and have a plausible shape.
pub open spec fn pair_spec(
    session: Option<Seq<char>>,
    csrf: Option<Seq<char>>,
) -> Option<(Seq<char>, Seq<char>)> {
    match (session, csrf) {
        (Some(s), Some(c)) => if valid_shape(s, c) {
            Some((s, c))
        } else {
            None
        },
        _ => None,
    }
}

impl Credentials {
    pub open spec fn shape_ok(&self) -> bool {
        valid_shape(self.session_id@, self.csrf_token@)
    }

    /// Whether the credentials look usable: a non-empty session id longer
    /// than 20 bytes and a non-empty CSRF token of at least 8 bytes.
    pub fn is_valid_shape(&self) -> (r: bool)
        ensures
            r == self.shape_ok(),
    {
        !self.session_id.as_str().is_empty() && self.session_id.as_str().len() > 20
            && !self.csrf_token.as_str().is_empty() && self.csrf_token.as_str().len() >= 8
    }
}

/// Credentials from one explicit source (command-line flags or a pair of
/// environment variables): present only when both values are given and
/// the pair has a plausible shape.
pub fn from_pair(session: Option<String>, csrf: Option<String>, user_agent: Option<String>) -> (r:
    Option<Credentials>)
    ensures
        match pair_spec(
            match session {
                Some(s) => Some(s@),
                None => None,
            },
            match csrf {
                Some(c) => Some(c@),
                None => None,
            },
        ) {
            Some((s, c)) => (r matches Some(cr) && cr.session_id@ == s && cr.csrf_token@ == c
                && cr.user_agent == user_agent),
            None => r is None,
        },
{
    match (session, csrf) {
        (Some(s), Some(c)) => {
            let creds = Credentials { session_id: s, csrf_token: c, user_agent: user_agent };
            if creds.is_valid_shape() {
                Some(creds)
            } else {
                None
            }
        },
        _ => None,
    }
}

/// Stored credentials (file or keyring) are used only when their shape is
/// plausible.
pub fn accept_stored(creds: Credentials) -> (r: Option<Credentials>)
    ensures
        creds.shape_ok() ==> r == Some(creds),
        !creds.shape_ok() ==> r is None,
{
    if creds.is_valid_shape() {
        Some(creds)
    } else {
        None
    }
}

/// The first usable credentials among the explicit sources, in order:
/// flags (both given; the flags carry no user agent), then
/// `IMAGO_SESSION_ID`/`IMAGO_CSRF_TOKEN` (with `IMAGO_USER_AGENT`), then
/// the legacy `IGSCRAPER_*` variables. Stored credentials are consulted
/// only when this gives `None`.
pub fn explicit_credentials(
    flag_session: Option<String>,
    flag_csrf: Option<String>,
    env_session: Option<String>,
    env_csrf: Option<String>,
    env_user_agent: Option<String>,
    legacy_session: Option<String>,
    legacy_csrf: Option<String>,
    legacy_user_agent: Option<String>,
) -> (r: Option<Credentials>)
    ensures
        ({
            let f = pair_spec(
                match flag_session { Some(s) => Some(s@), None => None },
                match flag_csrf { Some(c) => Some(c@), None => None },
            );
            let e = pair_spec(
                match env_session { Some(s) => Some(s@), None => None },
                match env_csrf { Some(c) => Some(c@), None => None },
            );
            let l = pair_spec(
                match legacy_session { Some(s) => Some(s@), None => None },
                match legacy_csrf { Some(c) => Some(c@), None => None },
            );
            match (f, e, l) {
                (Some((s, c)), _, _) => (r matches Some(cr) && cr.session_id@ == s
                    && cr.csrf_token@ == c && cr.user_agent is None),
                (None, Some((s, c)), _) => (r matches Some(cr) && cr.session_id@ == s
                    && cr.csrf_token@ == c && cr.user_agent == env_user_agent),
                (None, None, Some((s, c))) => (r matches Some(cr) && cr.session_id@ == s
                    && cr.csrf_token@ == c && cr.user_agent == legacy_user_agent),
                (None, None, None) => r is None,
            }
        }),
{
    if let Some(c) = from_pair(flag_session, flag_csrf, None) {
        return Some(c);
    }
    if let Some(c) = from_pair(env_session, env_csrf, env_user_agent) {
        return Some(c);
    }
    from_pair(legacy_session, legacy_csrf, legacy_user_agent)
}

/// The error when no source gave usable credentials.
pub fn no_credentials() -> (e: ImagoError)
    ensures
        e@ == crate::error::ErrorView::Auth(
            "no credentials — set IMAGO_SESSION_ID/IMAGO_CSRF_TOKEN or run: imago auth login"@,
        ),
{
    ImagoError::Auth(
        String::from_str(
            "no credentials — set IMAGO_SESSION_ID/IMAGO_CSRF_TOKEN or run: imago auth login",
        ),
    )
}

/// Credentials are stored only when their shape is plausible.
pub fn check_storable(creds: &Credentials) -> (r: Result<(), ImagoError>)
    ensures
        creds.shape_ok() ==> r is Ok,
        !creds.shape_ok() ==> (r matches Err(e) && e@ == crate::error::ErrorView::Usage(
            "session_id and csrf_token look invalid"@,
        )),
{
    if !creds.is_valid_shape() {
        return Err(ImagoError::Usage(String::from_str("session_id and csrf_token look invalid")));
    }
    Ok(())
}

} // verus!
