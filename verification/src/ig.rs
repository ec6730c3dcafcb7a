//! The Instagram client without its transport: request URLs and bodies,
//! the reading of API responses into pages, and the parsing of profile
//! input.

use vstd::prelude::*;
use crate::auth::{Credentials, byte_len};
use crate::error::{ErrorView, ImagoError};
use crate::httpx::CurlHttp;
use crate::json::{Json, bool_of, get_spec, json_string, json_string_spec, path_spec, str_of, u64_of};
use crate::media::{
    Page, assets_view, connection_spec, expand_connection, feed_cursor_spec,
    id_spec, is_feed_cursor, opt_view, stringify_id, strings_view,
};
use crate::text::{
    append_chars, ascii_lower, ascii_lower_chars, chars_of, contains_spec, contains_str,
    is_ascii_alnum, is_ascii_upper, is_ws, starts_with_chars, starts_with_spec,
    string_of, trim_chars, trim_spec, trim_end_spec, trim_start_spec,
};

verus! {

/// The web origin of every request.
pub const BASE: &'static str = "https://www.instagram.com";
/// GraphQL document for a profile's timeline when a username is known.
pub const DOC_ID_LOGGED_IN: &'static str = "7898261790222653";
/// GraphQL document for a profile's timeline by numeric id.
pub const DOC_ID_LOGGED_OUT: &'static str = "7950326061742207";

/// The Instagram client: an HTTP identity.
#[derive(Debug)]
pub struct IgClient {
    pub http: CurlHttp,
}

impl IgClient {
    /// A client for the given session (never fails).
    pub fn new(creds: &Credentials, user_agent: &str) -> (r: Result<IgClient, ImagoError>)
        ensures
            r matches Ok(c) && c.http.user_agent@ == (match creds.user_agent {
                Some(u) => u@,
                None => user_agent@,
            }) && c.http.session_id@ == creds.session_id@ && c.http.csrf_token@
                == creds.csrf_token@,
    {
        Ok(IgClient { http: CurlHttp::new(creds, user_agent) })
    }

    /// A copy of the client's HTTP identity, for a request on another thread.
    pub fn http(&self) -> (r: CurlHttp)
        ensures
            r.user_agent@ == self.http.user_agent@,
            r.session_id@ == self.http.session_id@,
            r.csrf_token@ == self.http.csrf_token@,
    {
        self.http.duplicate()
    }
}

// ---------------------------------------------------------------------
// Request URLs and bodies
// ---------------------------------------------------------------------

/// The profile-info endpoint for a username.
pub fn profile_url(username: &str) -> (r: String)
    ensures
        r@ == BASE@ + "/api/v1/users/web_profile_info/?username="@ + username@,
{
    let mut u = String::from_str(BASE);
    u.append("/api/v1/users/web_profile_info/?username=");
    u.append(username);
    u
}

/// The feed endpoint for a user id, continuing after a non-empty cursor.
pub fn feed_url(user_id: &str, after: Option<&str>) -> (r: String)
    ensures
        r@ == BASE@ + "/api/v1/feed/user/"@ + user_id@ + "/?count=12"@ + (match after {
            Some(a) => if a@.len() > 0 {
                "&max_id="@ + a@
            } else {
                Seq::empty()
            },
            None => Seq::empty(),
        }),
{
    let mut u = String::from_str(BASE);
    u.append("/api/v1/feed/user/");
    u.append(user_id);
    u.append("/?count=12");
    let ghost before = u@;
    match after {
        Some(a) => {
            if !a.is_empty() {
                u.append("&max_id=");
                u.append(a);
            } else {
                assert(u@ =~= before + Seq::<char>::empty());
            }
        },
        None => {
            assert(u@ =~= before + Seq::<char>::empty());
        },
    }
    u
}

/// The GraphQL endpoint.
pub fn graphql_url() -> (r: String)
    ensures
        r@ == BASE@ + "/graphql/query"@,
{
    let mut u = String::from_str(BASE);
    u.append("/graphql/query");
    u
}

/// Whether a media page is first tried through the feed API: at the start
/// (no cursor) or with a feed cursor.
pub fn tries_feed_first(after: Option<&str>) -> (r: bool)
    ensures
        r == (match after {
            Some(a) => feed_cursor_spec(a@),
            None => true,
        }),
{
    match after {
        Some(a) => is_feed_cursor(a),
        None => true,
    }
}

/// The `data` member of the GraphQL variables.
pub open spec fn data_member() -> Seq<char> {
    "\"data\":{\"count\":12,\"include_relationship_info\":true,\"latest_besties_reel_media\":true,\"latest_reel_media\":true}"@
}

/// The relay-provider member of the GraphQL variables.
pub open spec fn relay_member() -> Seq<char> {
    "\"__relay_internal__pv__PolarisFeedShareMenurelayprovider\":false"@
}

/// The GraphQL variables of a timeline page as compact JSON text, members
/// in key order (as `serde_json` writes an object): the relay flag, with a
/// cursor the pagination members `after`, `before`, `first` and `last`
/// around the `data` member, and the profile by `username` when one is
/// known, else by `id`.
pub open spec fn variables_text_spec(
    user_id: Seq<char>,
    username: Seq<char>,
    after: Option<Seq<char>>,
) -> Seq<char> {
    let by_name = username.len() > 0;
    let who = if by_name {
        "\"username\":"@ + json_string_spec(username)
    } else {
        "\"id\":"@ + json_string_spec(user_id)
    };
    match after {
        None => "{"@ + relay_member() + ","@ + data_member() + ","@ + who + "}"@,
        Some(a) => {
            let head = "{"@ + relay_member() + ",\"after\":"@ + json_string_spec(a)
                + ",\"before\":null,"@ + data_member() + ",\"first\":12,"@;
            if by_name {
                head + "\"last\":null,"@ + who + "}"@
            } else {
                head + who + ",\"last\":null}"@
            }
        },
    }
}

/// The GraphQL variables for a timeline page, as the JSON text sent, and
/// the document to query: by username when one is known, else by id.
pub fn doc_id_variables(user_id: &str, username: &str, after: Option<&str>) -> (r: (
    String,
    &'static str,
))
    ensures
        r.0@ == variables_text_spec(
            user_id@,
            username@,
            match after {
                Some(a) => Some(a@),
                None => None,
            },
        ),
        username@.len() > 0 ==> r.1 == DOC_ID_LOGGED_IN,
        username@.len() == 0 ==> r.1 == DOC_ID_LOGGED_OUT,
{
    let by_name = !username.is_empty();
    let who = if by_name {
        let mut w = String::from_str("\"username\":");
        let q = json_string(username);
        w.append(q.as_str());
        w
    } else {
        let mut w = String::from_str("\"id\":");
        let q = json_string(user_id);
        w.append(q.as_str());
        w
    };
    let mut t = String::from_str("{");
    t.append("\"__relay_internal__pv__PolarisFeedShareMenurelayprovider\":false");
    match after {
        None => {
            t.append(",");
            t.append(
                "\"data\":{\"count\":12,\"include_relationship_info\":true,\"latest_besties_reel_media\":true,\"latest_reel_media\":true}",
            );
            t.append(",");
            t.append(who.as_str());
            t.append("}");
        },
        Some(a) => {
            t.append(",\"after\":");
            let q = json_string(a);
            t.append(q.as_str());
            t.append(",\"before\":null,");
            t.append(
                "\"data\":{\"count\":12,\"include_relationship_info\":true,\"latest_besties_reel_media\":true,\"latest_reel_media\":true}",
            );
            t.append(",\"first\":12,");
            if by_name {
                t.append("\"last\":null,");
                t.append(who.as_str());
                t.append("}");
            } else {
                t.append(who.as_str());
                t.append(",\"last\":null}");
            }
        },
    }
    let doc_id = if by_name {
        DOC_ID_LOGGED_IN
    } else {
        DOC_ID_LOGGED_OUT
    };
    proof {
        let spec_after = match after {
            Some(a) => Some(a@),
            None => None,
        };
        assert(t@ =~= variables_text_spec(user_id@, username@, spec_after));
    }
    (t, doc_id)
}

/// The form of a GraphQL timeline query.
pub fn doc_id_form(variables: String, doc_id: &str) -> (r: Vec<(&'static str, String)>)
    ensures
        r@.len() == 3,
        r@[0].0 == "variables" && r@[0].1@ == variables@,
        r@[1].0 == "doc_id" && r@[1].1@ == doc_id@,
        r@[2].0 == "server_timestamps" && r@[2].1@ == "true"@,
{
    let mut form: Vec<(&'static str, String)> = Vec::new();
    form.push(("variables", variables));
    form.push(("doc_id", String::from_str(doc_id)));
    form.push(("server_timestamps", String::from_str("true")));
    form
}

} // verus!

verus! {

// ---------------------------------------------------------------------
// Reading responses into pages
// ---------------------------------------------------------------------

/// A page holds the given identity and the expansion of a connection.
pub open spec fn page_is(
    p: Page,
    user_id: Seq<char>,
    username: Seq<char>,
    media_count: Option<u64>,
    conn: Json,
) -> bool {
    let c = connection_spec(conn);
    &&& p.user_id@ == user_id
    &&& p.username@ == username
    &&& p.media_count == media_count
    &&& assets_view(p.assets@) == c.0
    &&& strings_view(p.post_keys@) == c.1
    &&& p.has_next == c.2
    &&& opt_view(p.end_cursor) == c.3
}

fn page_of(user_id: String, username: String, media_count: Option<u64>, conn: &Json) -> (p: Page)
    ensures
        page_is(p, user_id@, username@, media_count, *conn),
{
    let (assets, post_keys, has_next, end_cursor) = expand_connection(conn);
    Page { user_id, username, media_count, assets, post_keys, has_next, end_cursor }
}

/// The timeline connection of a profile's user object (`null` when
/// absent).
pub open spec fn timeline_of(user: Json) -> Json {
    match get_spec(user, "edge_owner_to_timeline_media"@) {
        Some(m) => m,
        None => Json::Null,
    }
}

/// How a profile-info response becomes the first page of a profile.
pub open spec fn profile_page_ok(username: Seq<char>, v: Json, p: Page) -> bool {
    let user = path_spec(v, seq!["data"@, "user"@]).unwrap();
    let media = timeline_of(user);
    page_is(
        p,
        id_spec(get_spec(user, "id"@)).unwrap(),
        match str_of(get_spec(user, "username"@)) {
            Some(u) => u,
            None => username,
        },
        u64_of(get_spec(media, "count"@)),
        media,
    )
}

/// Read a profile-info response: a login wall is a dead session, a missing
/// user means the profile was not found, a user without id is a parse
/// error; otherwise the first page of the profile's timeline.
pub fn profile_page_from_json(username: &str, v: &Json) -> (r: Result<Page, ImagoError>)
    ensures
        bool_of(get_spec(*v, "requires_to_login"@)) == Some(true) ==> (r matches Err(e) && e@
            == ErrorView::SessionDead),
        bool_of(get_spec(*v, "requires_to_login"@)) != Some(true) ==> {
            match path_spec(*v, seq!["data"@, "user"@]) {
                None => (r matches Err(e) && e@ == ErrorView::NotFound(username@)),
                Some(user) => match id_spec(get_spec(user, "id"@)) {
                    None => (r matches Err(e) && e@ == ErrorView::Parse("profile missing id"@)),
                    Some(_) => (r matches Ok(p) && profile_page_ok(username@, *v, p)),
                },
            }
        },
{
    let login_wall = match v.get("requires_to_login") {
        Some(b) => b.as_bool(),
        None => None,
    };
    if login_wall == Some(true) {
        return Err(ImagoError::SessionDead);
    }
    let user = match v.get2("data", "user") {
        Some(u) => u,
        None => return Err(ImagoError::NotFound(String::from_str(username))),
    };
    let user_id = match user.get("id") {
        Some(i) => stringify_id(i),
        None => None,
    };
    let user_id = match user_id {
        Some(i) => i,
        None => return Err(ImagoError::Parse(String::from_str("profile missing id"))),
    };
    let uname = match user.get("username") {
        Some(u) => match u.as_str() {
            Some(s) => s.clone(),
            None => String::from_str(username),
        },
        None => String::from_str(username),
    };
    let null = Json::Null;
    let media: &Json = match user.get("edge_owner_to_timeline_media") {
        Some(m) => m,
        None => &null,
    };
    let count = match media.get("count") {
        Some(c) => c.as_u64(),
        None => None,
    };
    Ok(page_of(user_id, uname, count, media))
}

/// Read a feed response into a page of the given user (no username, no
/// media count).
pub fn feed_page_from_json(user_id: &str, v: &Json) -> (p: Page)
    ensures
        page_is(p, user_id@, Seq::empty(), None, *v),
{
    page_of(String::from_str(user_id), String::new(), None, v)
}

/// The media connection inside a GraphQL response: the feed timeline
/// connection, else the user's timeline media, else the user object when
/// it holds edges itself.
pub open spec fn connection_in(raw: Json) -> Option<Json> {
    match get_spec(raw, "data"@) {
        None => None,
        Some(data) => match get_spec(data, "xdt_api__v1__feed__user_timeline_graphql_connection"@) {
            Some(c) => Some(c),
            None => match get_spec(data, "user"@) {
                Some(user) => match get_spec(user, "edge_owner_to_timeline_media"@) {
                    Some(m) => Some(m),
                    None => if get_spec(user, "edges"@) is Some {
                        Some(user)
                    } else {
                        None
                    },
                },
                None => None,
            },
        },
    }
}

/// Find the media connection inside a GraphQL response.
pub fn extract_connection(raw: &Json) -> (r: Option<&Json>)
    ensures
        r matches Some(c) ==> connection_in(*raw) == Some(*c),
        r is None ==> connection_in(*raw) is None,
{
    let data = match raw.get("data") {
        Some(d) => d,
        None => return None,
    };
    match data.get("xdt_api__v1__feed__user_timeline_graphql_connection") {
        Some(c) => return Some(c),
        None => {},
    }
    match data.get("user") {
        Some(user) => {
            match user.get("edge_owner_to_timeline_media") {
                Some(m) => return Some(m),
                None => {},
            }
            if user.get("edges").is_some() {
                return Some(user);
            }
            None
        },
        None => None,
    }
}

/// The logged-in timeline connection comes first: whenever a GraphQL
/// response's `data` holds
/// `xdt_api__v1__feed__user_timeline_graphql_connection`, that member is
/// the media connection read, whatever else `data` holds.
pub proof fn lemma_timeline_connection_first(raw: Json, data: Json, c: Json)
    requires
        get_spec(raw, "data"@) == Some(data),
        get_spec(data, "xdt_api__v1__feed__user_timeline_graphql_connection"@) == Some(c),
    ensures
        connection_in(raw) == Some(c),
{
}

/// Read a GraphQL timeline response into a page; a response without a
/// media connection is a parse error.
pub fn doc_id_page_from_json(user_id: &str, username: &str, raw: &Json) -> (r: Result<
    Page,
    ImagoError,
>)
    ensures
        match connection_in(*raw) {
            None => (r matches Err(e) && e@ == ErrorView::Parse(
                "GraphQL response missing media connection"@,
            )),
            Some(c) => (r matches Ok(p) && page_is(p, user_id@, username@, None, c)),
        },
{
    match extract_connection(raw) {
        Some(c) => Ok(page_of(String::from_str(user_id), String::from_str(username), None, c)),
        None => Err(
            ImagoError::Parse(String::from_str("GraphQL response missing media connection")),
        ),
    }
}

} // verus!

verus! {

// ---------------------------------------------------------------------
// Profile input
// ---------------------------------------------------------------------

/// What `url::Url::parse` makes of an input: the URL's path, or the text
/// of the parse error.
pub uninterp spec fn url_path_of(input: Seq<char>) -> Result<Seq<char>, Seq<char>>;

/// `url::Url::parse` followed by `Url::path`: the result (path or error
/// text) is named by `url_path_of`, a function of the input alone; the
/// WHATWG parsing rules themselves are left unsaid.
#[verifier::external_body]
fn parse_url_path(input: &str) -> (r: Result<String, String>)
    ensures
        match (r, url_path_of(input@)) {
            (Ok(p), Ok(q)) => p@ == q,
            (Err(e), Err(f)) => e@ == f,
            _ => false,
        },
{
    match url::Url::parse(input) {
        Ok(u) => Ok(u.path().to_string()),
        Err(e) => Err(e.to_string()),
    }
}

/// `s` without trailing `/` (`trim_end_matches('/')`).
pub open spec fn trim_slashes(s: Seq<char>) -> Seq<char>
    decreases s.len(),
{
    if s.len() > 0 && s.last() == '/' {
        trim_slashes(s.drop_last())
    } else {
        s
    }
}

/// Characters allowed in a username.
pub open spec fn username_char(c: char) -> bool {
    is_ascii_alnum(c) || c == '.' || c == '_'
}

/// How a username candidate is checked: trimmed of whitespace and trailing
/// slashes, 1 to 30 bytes of ASCII letters, digits, `.` and `_`, then
/// lowercased.
pub open spec fn username_spec(s: Seq<char>) -> Result<Seq<char>, ErrorView> {
    let t = trim_slashes(trim_spec(s));
    if t.len() == 0 || byte_len(t) > 30 || !(forall|i: int|
        0 <= i < t.len() ==> username_char(#[trigger] t[i])) {
        Err(ErrorView::Usage("invalid username: "@ + t))
    } else {
        Ok(ascii_lower(t))
    }
}

/// The text up to the first `/`.
pub open spec fn segment_spec(r: Seq<char>) -> Seq<char>
    decreases r.len(),
{
    if r.len() == 0 || r[0] == '/' {
        Seq::empty()
    } else {
        seq![r[0]] + segment_spec(r.drop_first())
    }
}

/// The first non-empty `/`-separated segment.
pub open spec fn first_segment_in(r: Seq<char>) -> Option<Seq<char>>
    decreases r.len(),
{
    if r.len() == 0 {
        None
    } else if r[0] == '/' {
        first_segment_in(r.drop_first())
    } else {
        Some(segment_spec(r))
    }
}

/// The first non-empty segment of a URL path (none unless the path starts
/// with `/`, as `Url::path_segments` requires).
pub open spec fn first_path_segment(path: Seq<char>) -> Option<Seq<char>> {
    if path.len() > 0 && path[0] == '/' {
        first_segment_in(path.drop_first())
    } else {
        None
    }
}

/// Path segments that name a post, reel, story or TV item, not a profile.
pub open spec fn non_profile_segment(s: Seq<char>) -> bool {
    s == "p"@ || s == "reel"@ || s == "reels"@ || s == "stories"@ || s == "tv"@
}

/// How profile input (a URL, `@user` or a bare username) becomes a
/// username.
pub open spec fn profile_input_spec(input: Seq<char>) -> Result<Seq<char>, ErrorView> {
    let s = trim_spec(input);
    if s.len() == 0 {
        Err(ErrorView::Usage("empty profile input"@))
    } else {
        let s2 = if s[0] == '@' {
            s.drop_first()
        } else {
            s
        };
        if contains_spec(s2, "instagram.com"@) {
            let url = if starts_with_spec(s2, "http"@) {
                s2
            } else {
                "https://"@ + s2
            };
            match url_path_of(url) {
                Err(e) => Err(ErrorView::Usage("invalid URL: "@ + e)),
                Ok(path) => match first_path_segment(path) {
                    None => Err(
                        ErrorView::Usage(
                            "URL has no username path — expected https://instagram.com/<user>/"@,
                        ),
                    ),
                    Some(first) => if non_profile_segment(first) {
                        Err(
                            ErrorView::Usage(
                                "post/reel/story URLs are not supported — pass a profile URL"@,
                            ),
                        )
                    } else {
                        username_spec(first)
                    },
                },
            }
        } else {
            username_spec(s2)
        }
    }
}

/// An executable result of a string agrees with a specified one.
pub open spec fn text_result(r: Result<String, ImagoError>, s: Result<Seq<char>, ErrorView>) -> bool {
    match (r, s) {
        (Ok(a), Ok(b)) => a@ == b,
        (Err(e), Err(f)) => e@ == f,
        _ => false,
    }
}

proof fn lemma_trim_slashes_step(s: Seq<char>, j: int)
    requires
        0 < j <= s.len(),
        s[j - 1] == '/',
    ensures
        trim_slashes(s.take(j)) == trim_slashes(s.take(j - 1)),
{
    assert(s.take(j).drop_last() =~= s.take(j - 1));
}

/// Check and normalise a username: trimmed, without trailing slashes, 1 to
/// 30 bytes of ASCII letters, digits, `.` and `_`, returned in lowercase.
pub fn validate_username(s: &str) -> (r: Result<String, ImagoError>)
    ensures
        text_result(r, username_spec(s@)),
{
    let cs = chars_of(s);
    let t0 = trim_chars(cs.as_slice());
    let mut j: usize = t0.len();
    assert(t0@.take(t0.len() as int) =~= t0@);
    while j > 0 && t0[j - 1] == '/'
        invariant
            j <= t0.len(),
            trim_slashes(t0@) == trim_slashes(t0@.take(j as int)),
        decreases j,
    {
        proof {
            lemma_trim_slashes_step(t0@, j as int);
        }
        j -= 1;
    }
    assert(trim_slashes(t0@.take(j as int)) == t0@.take(j as int));
    let t = string_of_prefix(t0.as_slice(), j);
    let tc = chars_of(t.as_str());
    let mut bad = tc.len() == 0 || t.as_str().len() > 30;
    let mut i: usize = 0;
    while i < tc.len()
        invariant
            i <= tc.len(),
            !bad ==> forall|k: int| 0 <= k < i ==> username_char(#[trigger] tc@[k]),
            !bad ==> tc@.len() > 0 && byte_len(tc@) <= 30,
            bad ==> (tc@.len() == 0 || byte_len(tc@) > 30 || exists|k: int|
                0 <= k < tc@.len() && !username_char(#[trigger] tc@[k])),
        decreases tc.len() - i,
    {
        let c = tc[i];
        if !(('A' <= c && c <= 'Z') || ('a' <= c && c <= 'z') || ('0' <= c && c <= '9') || c
            == '.' || c == '_') {
            bad = true;
        }
        i += 1;
    }
    if bad {
        let mut msg = String::from_str("invalid username: ");
        msg.append(t.as_str());
        return Err(ImagoError::Usage(msg));
    }
    let lower = ascii_lower_chars(tc.as_slice());
    assert(tc@ == trim_slashes(trim_spec(s@)));
    assert(byte_len(tc@) <= 30);
    assert(forall|k: int| 0 <= k < tc@.len() ==> username_char(#[trigger] tc@[k]));
    Ok(string_of(lower.as_slice()))
}

/// The first `n` characters as a string.
fn string_of_prefix(cs: &[char], n: usize) -> (r: String)
    requires
        n <= cs.len(),
    ensures
        r@ == cs@.take(n as int),
{
    let r = crate::text::string_of_range(cs, 0, n);
    assert(cs@.subrange(0, n as int) =~= cs@.take(n as int));
    r
}

/// The first non-empty segment of a URL path.
fn first_path_segment_exec(path: &[char]) -> (r: Option<Vec<char>>)
    ensures
        match first_path_segment(path@) {
            Some(s) => (r matches Some(v) && v@ == s),
            None => r is None,
        },
{
    if path.len() == 0 || path[0] != '/' {
        return None;
    }
    let ghost rest = path@.drop_first();
    let mut i: usize = 1;
    assert(path@.skip(1) =~= rest);
    while i < path.len() && path[i] == '/'
        invariant
            1 <= i <= path.len(),
            rest == path@.drop_first(),
            first_segment_in(rest) == first_segment_in(path@.skip(i as int)),
        decreases path.len() - i,
    {
        assert(path@.skip(i as int).drop_first() =~= path@.skip(i + 1));
        i += 1;
    }
    if i == path.len() {
        assert(path@.skip(i as int) =~= Seq::<char>::empty());
        return None;
    }
    let start = i;
    let mut seg: Vec<char> = Vec::new();
    assert(path@.skip(start as int).len() > 0 && path@.skip(start as int)[0] != '/');
    while i < path.len() && path[i] != '/'
        invariant
            start <= i <= path.len(),
            segment_spec(path@.skip(start as int)) == seg@ + segment_spec(path@.skip(i as int)),
        decreases path.len() - i,
    {
        assert(path@.skip(i as int).drop_first() =~= path@.skip(i + 1));
        assert(path@.skip(i as int)[0] == path@[i as int]);
        let ghost before = seg@;
        seg.push(path[i]);
        assert(before + (seq![path@[i as int]] + segment_spec(path@.skip(i + 1))) =~= seg@
            + segment_spec(path@.skip(i + 1)));
        i += 1;
    }
    assert(segment_spec(path@.skip(i as int)) =~= Seq::<char>::empty());
    assert(seg@ + Seq::<char>::empty() =~= seg@);
    Some(seg)
}

fn is_non_profile(s: &[char]) -> (r: bool)
    ensures
        r == non_profile_segment(s@),
{
    crate::httpx::same_chars(s, chars_of("p").as_slice()) || crate::httpx::same_chars(
        s,
        chars_of("reel").as_slice(),
    ) || crate::httpx::same_chars(s, chars_of("reels").as_slice()) || crate::httpx::same_chars(
        s,
        chars_of("stories").as_slice(),
    ) || crate::httpx::same_chars(s, chars_of("tv").as_slice())
}

/// Parse a profile URL, `@user` or bare username into a username. Post,
/// reel and story URLs are refused, as are URLs without a path.
pub fn parse_profile_input(input: &str) -> (r: Result<String, ImagoError>)
    ensures
        text_result(r, profile_input_spec(input@)),
{
    let cs = chars_of(input);
    let s = trim_chars(cs.as_slice());
    if s.len() == 0 {
        return Err(ImagoError::Usage(String::from_str("empty profile input")));
    }
    let s2: Vec<char> = if s[0] == '@' {
        let mut v: Vec<char> = Vec::new();
        let mut i: usize = 1;
        while i < s.len()
            invariant
                1 <= i <= s.len(),
                v@ == s@.subrange(1, i as int),
            decreases s.len() - i,
        {
            v.push(s[i]);
            assert(s@.subrange(1, i as int).push(s@[i as int]) =~= s@.subrange(1, i + 1));
            i += 1;
        }
        assert(v@ =~= s@.drop_first());
        v
    } else {
        s
    };
    if contains_str(s2.as_slice(), "instagram.com") {
        let url = if starts_with_chars(s2.as_slice(), chars_of("http").as_slice()) {
            string_of(s2.as_slice())
        } else {
            let mut u = String::from_str("https://");
            append_chars(&mut u, s2.as_slice());
            u
        };
        let path = match parse_url_path(url.as_str()) {
            Ok(p) => p,
            Err(e) => {
                let mut msg = String::from_str("invalid URL: ");
                msg.append(e.as_str());
                return Err(ImagoError::Usage(msg));
            },
        };
        let pc = chars_of(path.as_str());
        let first = match first_path_segment_exec(pc.as_slice()) {
            Some(f) => f,
            None => return Err(
                ImagoError::Usage(
                    String::from_str(
                        "URL has no username path — expected https://instagram.com/<user>/",
                    ),
                ),
            ),
        };
        if is_non_profile(first.as_slice()) {
            return Err(
                ImagoError::Usage(
                    String::from_str("post/reel/story URLs are not supported — pass a profile URL"),
                ),
            );
        }
        let f = string_of(first.as_slice());
        return validate_username(f.as_str());
    }
    let u = string_of(s2.as_slice());
    validate_username(u.as_str())
}

} // verus!

verus! {

/// A checked username's characters: lowercase ASCII letters, digits, `.`
/// and `_`.
pub open spec fn normal_username(u: Seq<char>) -> bool {
    &&& u.len() > 0
    &&& forall|i: int| 0 <= i < u.len() ==> username_char(#[trigger] u[i]) && !is_ascii_upper(u[i])
}

proof fn lemma_username_result(s: Seq<char>)
    requires
        username_spec(s) is Ok,
    ensures
        normal_username(username_spec(s)->Ok_0),
        byte_len(username_spec(s)->Ok_0) <= 30,
        vstd::utf8::is_ascii_chars(username_spec(s)->Ok_0),
{
    let t = trim_slashes(trim_spec(s));
    let u = ascii_lower(t);
    assert(u.len() == t.len());
    assert forall|i: int| 0 <= i < u.len() implies username_char(#[trigger] u[i]) && !is_ascii_upper(
        u[i],
    ) by {
        assert(username_char(t[i]));
    }
    assert(vstd::utf8::is_ascii_chars(t)) by {
        assert forall|i: int| 0 <= i < t.len() implies '\0' <= #[trigger] t[i] <= '\u{7f}' by {
            assert(username_char(t[i]));
        }
    }
    assert(vstd::utf8::is_ascii_chars(u)) by {
        assert forall|i: int| 0 <= i < u.len() implies '\0' <= #[trigger] u[i] <= '\u{7f}' by {
            assert(username_char(u[i]));
        }
    }
    vstd::utf8::is_ascii_chars_encode_utf8(t);
    vstd::utf8::is_ascii_chars_encode_utf8(u);
}

proof fn lemma_trim_fixed(u: Seq<char>)
    requires
        normal_username(u),
    ensures
        trim_spec(u) == u,
        trim_slashes(u) == u,
{
    assert(!is_ws(u.last())) by {
        assert(username_char(u[u.len() - 1]));
    }
    assert(trim_end_spec(u) == u);
    assert(!is_ws(u[0])) by {
        assert(username_char(u[0]));
    }
    assert(trim_start_spec(u) == u);
    assert(u.last() != '/') by {
        assert(username_char(u[u.len() - 1]));
    }
}

proof fn lemma_username_fixed(u: Seq<char>)
    requires
        normal_username(u),
        byte_len(u) <= 30,
    ensures
        username_spec(u) == Ok::<Seq<char>, ErrorView>(u),
{
    lemma_trim_fixed(u);
    assert(ascii_lower(u) =~= u) by {
        assert forall|i: int| 0 <= i < u.len() implies ascii_lower(u)[i] == u[i] by {
            assert(!is_ascii_upper(u[i]));
        }
    }
}

/// Parsing is idempotent on its results: a username that parsing
/// produced parses to itself (when it does not itself contain
/// `instagram.com`, which would be taken for a URL).
pub proof fn lemma_profile_input_idempotent(input: Seq<char>)
    requires
        profile_input_spec(input) is Ok,
        !contains_spec(profile_input_spec(input)->Ok_0, "instagram.com"@),
    ensures
        profile_input_spec(profile_input_spec(input)->Ok_0) == profile_input_spec(input),
{
    let u = profile_input_spec(input)->Ok_0;
    let s = trim_spec(input);
    let s2 = if s[0] == '@' {
        s.drop_first()
    } else {
        s
    };
    if contains_spec(s2, "instagram.com"@) {
        let url = if starts_with_spec(s2, "http"@) {
            s2
        } else {
            "https://"@ + s2
        };
        let first = first_path_segment(url_path_of(url)->Ok_0)->Some_0;
        lemma_username_result(first);
    } else {
        lemma_username_result(s2);
    }
    lemma_trim_fixed(u);
    assert(u[0] != '@') by {
        assert(username_char(u[0]));
    }
    lemma_username_fixed(u);
}


/// A URL naming a post, reel, reels page, story or TV item (its first path
/// segment is `p`, `reel`, `reels`, `stories` or `tv`) is refused with the
/// post/reel/story usage error rather than read as a username. The
/// requirements spell out how the input becomes a URL: trimmed, a leading
/// `@` dropped, mentioning `instagram.com`, `https://` added unless it
/// starts with `http`.
pub proof fn lemma_post_urls_refused(input: Seq<char>, path: Seq<char>, segment: Seq<char>)
    requires
        ({
            let s = trim_spec(input);
            let s2 = if s.len() > 0 && s[0] == '@' {
                s.drop_first()
            } else {
                s
            };
            let url = if starts_with_spec(s2, "http"@) {
                s2
            } else {
                "https://"@ + s2
            };
            &&& s.len() > 0
            &&& contains_spec(s2, "instagram.com"@)
            &&& url_path_of(url) == Ok::<Seq<char>, Seq<char>>(path)
        }),
        first_path_segment(path) == Some(segment),
        segment == "p"@ || segment == "reel"@ || segment == "reels"@ || segment == "stories"@
            || segment == "tv"@,
    ensures
        profile_input_spec(input) == Err::<Seq<char>, ErrorView>(
            ErrorView::Usage("post/reel/story URLs are not supported — pass a profile URL"@),
        ),
{
}


/// A character a parsed username may hold.
pub open spec fn username_result_char(c: char) -> bool {
    ('a' <= c && c <= 'z') || ('0' <= c && c <= '9') || c == '.' || c == '_'
}

proof fn lemma_username_shape(s: Seq<char>)
    ensures
        username_spec(s) matches Ok(u) ==> u.len() > 0 && forall|i: int|
            0 <= i < u.len() ==> username_result_char(#[trigger] u[i]),
{
    if username_spec(s) is Ok {
        let t = trim_slashes(trim_spec(s));
        let u = ascii_lower(t);
        assert forall|i: int| 0 <= i < u.len() implies username_result_char(#[trigger] u[i]) by {
            assert(username_char(t[i]));
            assert(u[i] == crate::text::lower_char(t[i]));
        }
    }
}

/// Whatever the input, a username that parsing gives is non-empty and
/// made only of lowercase ASCII letters, digits, `.` and `_`.
pub proof fn lemma_parsed_username_shape(input: Seq<char>)
    ensures
        profile_input_spec(input) matches Ok(u) ==> u.len() > 0 && forall|i: int|
            0 <= i < u.len() ==> username_result_char(#[trigger] u[i]),
{
    let s = trim_spec(input);
    if s.len() > 0 {
        let s2 = if s[0] == '@' {
            s.drop_first()
        } else {
            s
        };
        lemma_username_shape(s2);
        if contains_spec(s2, "instagram.com"@) {
            let url = if starts_with_spec(s2, "http"@) {
                s2
            } else {
                "https://"@ + s2
            };
            if url_path_of(url) is Ok {
                if first_path_segment(url_path_of(url)->Ok_0) is Some {
                    lemma_username_shape(first_path_segment(url_path_of(url)->Ok_0)->Some_0);
                }
            }
        }
    }
}

} // verus!
