//! The HTTP side of the client, without the transport: request headers,
//! form encoding, response-header parsing, the classification of a
//! response into a JSON document or an error, and the chunked download
//! protocol.

use vstd::prelude::*;
use crate::auth::Credentials;
use crate::error::{ErrorView, ImagoError};
use crate::json::{Json, bool_of, get_spec, same_text, str_of};
use crate::text::{
    append_chars, decimal_chars, decimal_spec, lossy_text, prefix_chars, prefix_spec,
    to_lowercase, unicode_lower, utf8_lossy, ascii_lower, ascii_lower_chars, chars_of, contains_spec, contains_str, eq_ignore_case,
    eq_ignore_case_spec, find_char, first_index_of, is_ascii_digit, parse_u64, parse_u64_spec,
    push_char, string_of, string_of_range, trim_chars, trim_spec, utf8_text,
};

verus! {

// ---------------------------------------------------------------------
// Response headers
// ---------------------------------------------------------------------

/// The name and value of a header line: the text before and after the
/// first `:` (`str::split_once`).
pub open spec fn split_header(t: Seq<char>) -> Option<(Seq<char>, Seq<char>)> {
    match first_index_of(t, ':') {
        Some(k) => Some((t.take(k), t.skip(k + 1))),
        None => None,
    }
}

/// The target of a `Location:` header line, if the line is one and names a
/// non-empty target.
pub open spec fn location_spec(line: Seq<u8>) -> Option<Seq<char>> {
    if !vstd::utf8::valid_utf8(line) {
        None
    } else {
        match split_header(vstd::utf8::decode_utf8(line)) {
            Some((name, value)) => if eq_ignore_case_spec(trim_spec(name), "location"@)
                && trim_spec(value).len() > 0 {
                Some(trim_spec(value))
            } else {
                None
            },
            None => None,
        }
    }
}

/// The full size an HTTP response header announces.
#[derive(Debug, PartialEq, Eq, Structural)]
pub enum SizeHeader {
    /// The total after the `/` of `Content-Range: bytes S-E/TOTAL`.
    ContentRangeTotal(u64),
    /// The value of `Content-Length`.
    ContentLength(u64),
}

/// What follows the last `/` of `s`, or all of `s` (`rsplit('/').next()`).
pub open spec fn after_last_slash(s: Seq<char>) -> Seq<char> {
    if exists|i: int| 0 <= i < s.len() && s[i] == '/' {
        let k = choose|i: int|
            0 <= i < s.len() && s[i] == '/' && forall|j: int| i < j < s.len() ==> s[j] != '/';
        s.skip(k + 1)
    } else {
        s
    }
}

/// The size a header line announces, if it is a `Content-Range` whose
/// total parses or a `Content-Length` whose value parses.
pub open spec fn size_header_spec(line: Seq<u8>) -> Option<SizeHeader> {
    if !vstd::utf8::valid_utf8(line) {
        None
    } else {
        match split_header(vstd::utf8::decode_utf8(line)) {
            Some((name, value)) => {
                let n = ascii_lower(trim_spec(name));
                let v = trim_spec(value);
                if n == "content-range"@ {
                    match parse_u64_spec(trim_spec(after_last_slash(v))) {
                        Some(t) => Some(SizeHeader::ContentRangeTotal(t)),
                        None => None,
                    }
                } else if n == "content-length"@ {
                    match parse_u64_spec(v) {
                        Some(l) => Some(SizeHeader::ContentLength(l)),
                        None => None,
                    }
                } else {
                    None
                }
            },
            None => None,
        }
    }
}

/// The characters of a header line split at its first `:`.
fn header_parts(line: &[u8]) -> (r: Option<(Vec<char>, Vec<char>)>)
    ensures
        !vstd::utf8::valid_utf8(line@) ==> r is None,
        vstd::utf8::valid_utf8(line@) ==> match split_header(vstd::utf8::decode_utf8(line@)) {
            Some((n, v)) => (r matches Some((a, b)) && a@ == n && b@ == v),
            None => r is None,
        },
{
    let text = match utf8_text(line) {
        Some(t) => t,
        None => return None,
    };
    let cs = chars_of(text.as_str());
    match find_char(cs.as_slice(), ':') {
        Some(k) => {
            let mut name: Vec<char> = Vec::new();
            let mut i: usize = 0;
            while i < k
                invariant
                    k < cs.len(),
                    i <= k,
                    name@ == cs@.take(i as int),
                decreases k - i,
            {
                name.push(cs[i]);
                assert(cs@.take(i as int).push(cs@[i as int]) =~= cs@.take(i + 1));
                i += 1;
            }
            let mut value: Vec<char> = Vec::new();
            let mut j: usize = k + 1;
            assert(cs@.subrange(k + 1, k + 1) =~= Seq::<char>::empty());
            while j < cs.len()
                invariant
                    k < cs.len(),
                    k + 1 <= j <= cs.len(),
                    value@ == cs@.subrange(k + 1, j as int),
                decreases cs.len() - j,
            {
                value.push(cs[j]);
                assert(cs@.subrange(k + 1, j as int).push(cs@[j as int]) =~= cs@.subrange(
                    k + 1,
                    j + 1,
                ));
                j += 1;
            }
            assert(cs@.subrange(k + 1, cs.len() as int) =~= cs@.skip(k + 1));
            Some((name, value))
        },
        None => None,
    }
}

/// Parse a `Location:` response header line (present on redirects): the
/// trimmed target, if the line names a non-empty one.
pub fn parse_location(line: &[u8]) -> (r: Option<String>)
    ensures
        match location_spec(line@) {
            Some(v) => (r matches Some(s) && s@ == v),
            None => r is None,
        },
{
    let (name, value) = match header_parts(line) {
        Some(p) => p,
        None => return None,
    };
    let tn = trim_chars(name.as_slice());
    let loc = chars_of("location");
    if eq_ignore_case(tn.as_slice(), loc.as_slice()) {
        let tv = trim_chars(value.as_slice());
        if tv.len() == 0 {
            return None;
        }
        return Some(string_of(tv.as_slice()));
    }
    None
}

/// What follows the last `/`, or everything.
fn after_last_slash_chars(s: &[char]) -> (r: Vec<char>)
    ensures
        r@ == after_last_slash(s@),
{
    let mut k: usize = s.len();
    while k > 0 && s[k - 1] != '/'
        invariant
            k <= s.len(),
            forall|j: int| k <= j < s.len() ==> s@[j] != '/',
        decreases k,
    {
        k -= 1;
    }
    let mut out: Vec<char> = Vec::new();
    let start = k;
    let mut i = start;
    while i < s.len()
        invariant
            start <= i <= s.len(),
            out@ == s@.subrange(start as int, i as int),
        decreases s.len() - i,
    {
        out.push(s[i]);
        assert(s@.subrange(start as int, i as int).push(s@[i as int]) =~= s@.subrange(
            start as int,
            i + 1,
        ));
        i += 1;
    }
    if k == 0 {
        assert(!exists|i: int| 0 <= i < s@.len() && s@[i] == '/');
        assert(out@ =~= s@);
    } else {
        let ghost w = choose|i: int|
            0 <= i < s@.len() && s@[i] == '/' && forall|j: int| i < j < s@.len() ==> s@[j] != '/';
        assert(0 <= k - 1 < s@.len() && s@[k - 1] == '/');
        assert(w == k - 1) by {
            if w < k - 1 {
                assert(s@[k - 1] != '/');
            } else if w > k - 1 {
            }
        }
        assert(out@ =~= s@.skip(k as int));
    }
    out
}

/// Read the full size of an asset from a `Content-Range: bytes S-E/TOTAL`
/// header (the total) or a `Content-Length` header; header names are
/// matched without regard to ASCII case.
pub fn parse_size_header(line: &[u8]) -> (r: Option<SizeHeader>)
    ensures
        r == size_header_spec(line@),
{
    let (name, value) = match header_parts(line) {
        Some(p) => p,
        None => return None,
    };
    let n = ascii_lower_chars(trim_chars(name.as_slice()).as_slice());
    let v = trim_chars(value.as_slice());
    let range_name = chars_of("content-range");
    let length_name = chars_of("content-length");
    if same_chars(n.as_slice(), range_name.as_slice()) {
        let t = trim_chars(after_last_slash_chars(v.as_slice()).as_slice());
        match parse_u64(t.as_slice()) {
            Some(x) => Some(SizeHeader::ContentRangeTotal(x)),
            None => None,
        }
    } else if same_chars(n.as_slice(), length_name.as_slice()) {
        match parse_u64(v.as_slice()) {
            Some(x) => Some(SizeHeader::ContentLength(x)),
            None => None,
        }
    } else {
        None
    }
}

/// Whether two character sequences are equal.
pub fn same_chars(a: &[char], b: &[char]) -> (r: bool)
    ensures
        r == (a@ == b@),
{
    if a.len() != b.len() {
        return false;
    }
    let mut i: usize = 0;
    while i < a.len()
        invariant
            a.len() == b.len(),
            i <= a.len(),
            forall|k: int| 0 <= k < i ==> a@[k] == b@[k],
        decreases a.len() - i,
    {
        if a[i] != b[i] {
            return false;
        }
        i += 1;
    }
    assert(a@ =~= b@);
    true
}

// ---------------------------------------------------------------------
// Session id, redirects, form encoding
// ---------------------------------------------------------------------

/// The leading ASCII digits of `s`.
pub open spec fn leading_digits(s: Seq<char>) -> Seq<char>
    decreases s.len(),
{
    if s.len() > 0 && is_ascii_digit(s[0]) {
        seq![s[0]] + leading_digits(s.drop_first())
    } else {
        Seq::empty()
    }
}

proof fn lemma_leading_digits_step(s: Seq<char>, i: int)
    requires
        0 <= i < s.len(),
        is_ascii_digit(s[i]),
    ensures
        leading_digits(s.skip(i)) == seq![s[i]] + leading_digits(s.skip(i + 1)),
{
    assert(s.skip(i).drop_first() =~= s.skip(i + 1));
}

/// The account id (`ds_user_id`) encoded at the start of a session id:
/// Instagram's `sessionid` is `<user_id>%3A<token>...`, so the leading
/// ASCII digits are the id; `None` when there are none.
pub fn ds_user_id(session_id: &str) -> (r: Option<String>)
    ensures
        leading_digits(session_id@).len() == 0 ==> r is None,
        leading_digits(session_id@).len() > 0 ==> (r matches Some(u) && u@ == leading_digits(
            session_id@,
        )),
{
    let cs = chars_of(session_id);
    let mut i: usize = 0;
    assert(cs@.skip(0) =~= cs@);
    assert(cs@.take(0) + leading_digits(cs@.skip(0)) =~= leading_digits(cs@));
    while i < cs.len() && '0' <= cs[i] && cs[i] <= '9'
        invariant
            i <= cs.len(),
            cs@ == session_id@,
            leading_digits(cs@) == cs@.take(i as int) + leading_digits(cs@.skip(i as int)),
        decreases cs.len() - i,
    {
        proof {
            lemma_leading_digits_step(cs@, i as int);
            assert(cs@.take(i as int) + seq![cs@[i as int]] =~= cs@.take(i + 1));
            assert(cs@.take(i as int) + (seq![cs@[i as int]] + leading_digits(cs@.skip(i + 1)))
                =~= cs@.take(i + 1) + leading_digits(cs@.skip(i + 1)));
        }
        i += 1;
    }
    assert(leading_digits(cs@.skip(i as int)) =~= Seq::<char>::empty());
    assert(leading_digits(cs@) =~= cs@.take(i as int));
    if i == 0 {
        None
    } else {
        Some(string_of_range(cs.as_slice(), 0, i))
    }
}

/// A redirect target (already lowercased) that means the session must
/// re-authenticate: it mentions `login`, `/challenge`, `/checkpoint` or
/// `/accounts/`.
pub open spec fn checkpoint_spec(loc: Seq<char>) -> bool {
    contains_spec(loc, "login"@) || contains_spec(loc, "/challenge"@) || contains_spec(
        loc,
        "/checkpoint"@,
    ) || contains_spec(loc, "/accounts/"@)
}

/// Whether a lowercased redirect target means the session must
/// re-authenticate (expired, logged out or checkpointed).
pub fn is_checkpoint_target(loc: &str) -> (r: bool)
    ensures
        r == checkpoint_spec(loc@),
{
    let cs = chars_of(loc);
    contains_str(cs.as_slice(), "login") || contains_str(cs.as_slice(), "/challenge")
        || contains_str(cs.as_slice(), "/checkpoint") || contains_str(cs.as_slice(), "/accounts/")
}

/// Bytes left as they are by URL encoding: ASCII letters, digits, `-`,
/// `_`, `.` and `~`.
pub open spec fn unreserved(b: u8) -> bool {
    (65 <= b && b <= 90) || (97 <= b && b <= 122) || (48 <= b && b <= 57) || b == 45 || b == 95
        || b == 46 || b == 126
}

/// An upper-case hexadecimal digit.
pub open spec fn hex_digit(d: nat) -> char {
    if d < 10 {
        (('0' as nat) + d) as char
    } else {
        (('A' as nat) + d - 10) as char
    }
}

/// How one byte is URL-encoded.
pub open spec fn encode_byte(b: u8) -> Seq<char> {
    if unreserved(b) {
        seq![b as char]
    } else {
        seq!['%', hex_digit((b / 16) as nat), hex_digit((b % 16) as nat)]
    }
}

/// URL encoding of a byte sequence: unreserved bytes as they are, every
/// other byte as `%XX` in upper-case hexadecimal.
pub open spec fn url_encode_spec(bytes: Seq<u8>) -> Seq<char>
    decreases bytes.len(),
{
    if bytes.len() == 0 {
        Seq::empty()
    } else {
        url_encode_spec(bytes.drop_last()) + encode_byte(bytes.last())
    }
}

fn hex_char(d: u8) -> (c: char)
    requires
        d < 16,
    ensures
        c == hex_digit(d as nat),
{
    if d < 10 {
        (48u8 + d) as char
    } else {
        (55u8 + d) as char
    }
}

/// Percent-encode the UTF-8 bytes of `s` (`application/x-www-form-urlencoded`
/// style, without turning spaces into `+`).
pub fn urlencoding_encode(s: &str) -> (r: String)
    ensures
        r@ == url_encode_spec(vstd::utf8::encode_utf8(s@)),
{
    let bytes = s.as_bytes();
    let mut out = String::new();
    let mut i: usize = 0;
    while i < bytes.len()
        invariant
            i <= bytes.len(),
            bytes@ == vstd::utf8::encode_utf8(s@),
            out@ == url_encode_spec(bytes@.take(i as int)),
        decreases bytes.len() - i,
    {
        let b = bytes[i];
        assert(bytes@.take(i + 1).drop_last() =~= bytes@.take(i as int));
        if (65 <= b && b <= 90) || (97 <= b && b <= 122) || (48 <= b && b <= 57) || b == 45 || b
            == 95 || b == 46 || b == 126 {
            push_char(&mut out, b as char);
            assert(out@ =~= url_encode_spec(bytes@.take(i + 1)));
        } else {
            push_char(&mut out, '%');
            push_char(&mut out, hex_char(b / 16));
            push_char(&mut out, hex_char(b % 16));
            assert(out@ =~= url_encode_spec(bytes@.take(i + 1)));
        }
        i += 1;
    }
    assert(bytes@.take(bytes.len() as int) =~= bytes@);
    out
}

} // verus!

verus! {

// ---------------------------------------------------------------------
// Response classification
// ---------------------------------------------------------------------

/// The `message` of a failed API response, `"fail"` when it has none.
pub open spec fn fail_message(v: Json) -> Seq<char> {
    match str_of(get_spec(v, "message"@)) {
        Some(m) => m,
        None => "fail"@,
    }
}

/// Lowercased text that asks the client to slow down.
pub open spec fn says_wait(lower: Seq<char>) -> bool {
    contains_spec(lower, "please wait"@) || contains_spec(lower, "rate"@) || contains_spec(
        lower,
        "try again"@,
    )
}

/// Lowercased text that says the session must log in again.
pub open spec fn says_relogin(lower: Seq<char>) -> bool {
    contains_spec(lower, "login_required"@) || contains_spec(lower, "checkpoint"@)
        || contains_spec(lower, "challenge"@)
}

/// How a response is classified, from its status, its redirect target,
/// its body and what the JSON parser made of the body (the document or
/// the parser's error text).
pub open spec fn decode_spec(
    status: u32,
    location: Option<Seq<char>>,
    body: Seq<u8>,
    parsed: Result<Json, Seq<char>>,
) -> Result<Json, ErrorView> {
    let text = lossy_text(body);
    let st = decimal_spec(status as nat);
    if status == 301 || status == 302 {
        let loc = unicode_lower(
            match location {
                Some(l) => l,
                None => Seq::empty(),
            },
        );
        if checkpoint_spec(loc) || contains_spec(unicode_lower(text), "login"@) {
            Err(ErrorView::SessionDead)
        } else {
            Err(ErrorView::RateLimited("redirect HTTP "@ + st))
        }
    } else if status == 429 {
        Err(ErrorView::RateLimited("HTTP 429"@))
    } else if status == 401 || status == 403 {
        let lower = unicode_lower(text);
        if says_wait(lower) || lower.len() == 0 {
            Err(ErrorView::RateLimited("HTTP "@ + st))
        } else if says_relogin(lower) {
            Err(ErrorView::SessionDead)
        } else {
            Err(ErrorView::RateLimited("HTTP "@ + st + " (treating as temporary block)"@))
        }
    } else if !(200 <= status && status < 300) {
        Err(ErrorView::Network("HTTP "@ + st + ": "@ + prefix_spec(text, 200)))
    } else {
        match parsed {
            Err(e) => Err(ErrorView::Parse("json: "@ + e + "; body="@ + prefix_spec(text, 200))),
            Ok(v) => if str_of(get_spec(v, "status"@)) == Some("fail"@) {
                let msg = fail_message(v);
                let lower = unicode_lower(msg);
                if says_wait(lower) {
                    Err(ErrorView::RateLimited(msg))
                } else if bool_of(get_spec(v, "require_login"@)) == Some(true) || says_relogin(
                    lower,
                ) {
                    Err(ErrorView::SessionDead)
                } else {
                    Err(ErrorView::RateLimited(msg))
                }
            } else {
                Ok(v)
            },
        }
    }
}

/// An executable result agrees with a specified one.
pub open spec fn agrees<T>(r: Result<T, ImagoError>, s: Result<T, ErrorView>) -> bool {
    match (r, s) {
        (Ok(a), Ok(b)) => a == b,
        (Err(e), Err(f)) => e@ == f,
        _ => false,
    }
}

fn lower_chars(s: &str) -> (r: Vec<char>)
    ensures
        r@ == unicode_lower(s@),
{
    let l = to_lowercase(s);
    chars_of(l.as_str())
}

fn says_wait_exec(lower: &[char]) -> (r: bool)
    ensures
        r == says_wait(lower@),
{
    contains_str(lower, "please wait") || contains_str(lower, "rate") || contains_str(
        lower,
        "try again",
    )
}

fn says_relogin_exec(lower: &[char]) -> (r: bool)
    ensures
        r == says_relogin(lower@),
{
    contains_str(lower, "login_required") || contains_str(lower, "checkpoint") || contains_str(
        lower,
        "challenge",
    )
}

/// `"HTTP " + status`, optionally followed by more text.
fn http_status_text(lead: &str, status: u32, tail: &str) -> (r: String)
    ensures
        r@ == lead@ + decimal_spec(status as nat) + tail@,
{
    let mut out = String::from_str(lead);
    let d = decimal_chars(status as u64);
    append_chars(&mut out, d.as_slice());
    out.append(tail);
    out
}

/// Classify an HTTP response. Redirects to a login, challenge or
/// checkpoint page (or whose body mentions login) mean a dead session,
/// other redirects and 429 a rate limit; 401/403 are a rate limit unless
/// the body asks to log in again; other non-2xx statuses are network
/// errors; a 2xx body must be JSON (`parsed`, what the JSON parser made of
/// `body`), and an API `"status": "fail"` is a rate limit or a dead
/// session according to its message.
pub fn decode_status_body(
    status: u32,
    location: Option<&str>,
    body: &[u8],
    parsed: Result<Json, String>,
) -> (r: Result<Json, ImagoError>)
    ensures
        agrees(
            r,
            decode_spec(
                status,
                match location {
                    Some(l) => Some(l@),
                    None => None,
                },
                body@,
                match parsed {
                    Ok(v) => Ok(v),
                    Err(e) => Err(e@),
                },
            ),
        ),
{
    proof {
        reveal_strlit("");
    }
    let text = utf8_lossy(body);
    let text_chars = chars_of(text.as_str());
    if status == 301 || status == 302 {
        let loc = match location {
            Some(l) => l,
            None => "",
        };
        proof {
            if location is None {
                assert(loc@ =~= Seq::<char>::empty());
            }
        }
        let loc_lower = to_lowercase(loc);
        if is_checkpoint_target(loc_lower.as_str()) || contains_str(
            lower_chars(text.as_str()).as_slice(),
            "login",
        ) {
            return Err(ImagoError::SessionDead);
        }
        return Err(ImagoError::RateLimited(http_status_text("redirect HTTP ", status, "")));
    }
    if status == 429 {
        return Err(ImagoError::RateLimited(String::from_str("HTTP 429")));
    }
    if status == 401 || status == 403 {
        let lower = lower_chars(text.as_str());
        if says_wait_exec(lower.as_slice()) || lower.len() == 0 {
            return Err(ImagoError::RateLimited(http_status_text("HTTP ", status, "")));
        }
        if says_relogin_exec(lower.as_slice()) {
            return Err(ImagoError::SessionDead);
        }
        return Err(
            ImagoError::RateLimited(
                http_status_text("HTTP ", status, " (treating as temporary block)"),
            ),
        );
    }
    if !(200 <= status && status < 300) {
        let mut msg = http_status_text("HTTP ", status, ": ");
        append_chars(&mut msg, prefix_chars(text_chars.as_slice(), 200).as_slice());
        return Err(ImagoError::Network(msg));
    }
    let v = match parsed {
        Ok(v) => v,
        Err(e) => {
            let mut msg = String::from_str("json: ");
            msg.append(e.as_str());
            msg.append("; body=");
            append_chars(&mut msg, prefix_chars(text_chars.as_slice(), 200).as_slice());
            return Err(ImagoError::Parse(msg));
        },
    };
    let failed = match v.get("status") {
        Some(s) => match s.as_str() {
            Some(t) => same_text(t.as_str(), chars_of("fail").as_slice()),
            None => false,
        },
        None => false,
    };
    if failed {
        let msg: String = match v.get("message") {
            Some(m) => match m.as_str() {
                Some(t) => t.clone(),
                None => String::from_str("fail"),
            },
            None => String::from_str("fail"),
        };
        let lower = lower_chars(msg.as_str());
        if says_wait_exec(lower.as_slice()) {
            return Err(ImagoError::RateLimited(msg));
        }
        let require_login = match v.get("require_login") {
            Some(b) => b.as_bool(),
            None => None,
        };
        if require_login == Some(true) || says_relogin_exec(lower.as_slice()) {
            return Err(ImagoError::SessionDead);
        }
        return Err(ImagoError::RateLimited(msg));
    }
    Ok(v)
}

} // verus!

verus! {

// ---------------------------------------------------------------------
// Client identity and requests
// ---------------------------------------------------------------------

/// What the HTTP client sends with every request: the user agent and the
/// session cookies.
#[derive(Debug)]
pub struct CurlHttp {
    pub user_agent: String,
    pub session_id: String,
    pub csrf_token: String,
}

/// The `Cookie` header value for a session: `sessionid` and `csrftoken`,
/// plus `ds_user_id` when the session id starts with digits.
pub open spec fn cookie_spec(session: Seq<char>, csrf: Seq<char>) -> Seq<char> {
    let base = "sessionid="@ + session + "; csrftoken="@ + csrf;
    if leading_digits(session).len() > 0 {
        base + "; ds_user_id="@ + leading_digits(session)
    } else {
        base
    }
}

/// The headers of a request, in order; the content type is added when the
/// request carries a form body.
pub open spec fn headers_spec(csrf: Seq<char>, cookie: Seq<char>, form_body: bool) -> Seq<
    Seq<char>,
> {
    let base = seq![
        "Accept: */*"@,
        "Accept-Language: en-US,en;q=0.9"@,
        "X-IG-App-ID: 936619743392459"@,
        "X-Requested-With: XMLHttpRequest"@,
        "Referer: https://www.instagram.com/"@,
        "X-CSRFToken: "@ + csrf,
        "Cookie: "@ + cookie,
    ];
    if form_body {
        base.push("Content-Type: application/x-www-form-urlencoded"@)
    } else {
        base
    }
}

/// A copy of a string.
pub fn copy_string(s: &String) -> (r: String)
    ensures
        r@ == s@,
{
    s.clone()
}

impl CurlHttp {
    /// A client for the given session; the session's own user agent wins
    /// over the configured one.
    pub fn new(creds: &Credentials, user_agent: &str) -> (r: CurlHttp)
        ensures
            r.user_agent@ == (match creds.user_agent {
                Some(u) => u@,
                None => user_agent@,
            }),
            r.session_id@ == creds.session_id@,
            r.csrf_token@ == creds.csrf_token@,
    {
        let ua = match &creds.user_agent {
            Some(u) => copy_string(u),
            None => String::from_str(user_agent),
        };
        CurlHttp {
            user_agent: ua,
            session_id: copy_string(&creds.session_id),
            csrf_token: copy_string(&creds.csrf_token),
        }
    }

    /// A client with the same identity.
    pub fn duplicate(&self) -> (r: CurlHttp)
        ensures
            r.user_agent@ == self.user_agent@,
            r.session_id@ == self.session_id@,
            r.csrf_token@ == self.csrf_token@,
    {
        CurlHttp {
            user_agent: copy_string(&self.user_agent),
            session_id: copy_string(&self.session_id),
            csrf_token: copy_string(&self.csrf_token),
        }
    }

    /// The logged-in account id (`ds_user_id`), read from the session id.
    pub fn account_id(&self) -> (r: Option<String>)
        ensures
            leading_digits(self.session_id@).len() == 0 ==> r is None,
            leading_digits(self.session_id@).len() > 0 ==> (r matches Some(u) && u@
                == leading_digits(self.session_id@)),
    {
        ds_user_id(self.session_id.as_str())
    }

    /// The value of the `Cookie` header.
    pub fn cookie(&self) -> (r: String)
        ensures
            r@ == cookie_spec(self.session_id@, self.csrf_token@),
    {
        let mut out = String::from_str("sessionid=");
        out.append(self.session_id.as_str());
        out.append("; csrftoken=");
        out.append(self.csrf_token.as_str());
        match ds_user_id(self.session_id.as_str()) {
            Some(uid) => {
                out.append("; ds_user_id=");
                out.append(uid.as_str());
            },
            None => {},
        }
        out
    }

    /// The headers sent with every request.
    pub fn request_headers(&self, form_body: bool) -> (r: Vec<String>)
        ensures
            r@.map_values(|h: String| h@) == headers_spec(
                self.csrf_token@,
                cookie_spec(self.session_id@, self.csrf_token@),
                form_body,
            ),
    {
        let mut v: Vec<String> = Vec::new();
        v.push(String::from_str("Accept: */*"));
        v.push(String::from_str("Accept-Language: en-US,en;q=0.9"));
        v.push(String::from_str("X-IG-App-ID: 936619743392459"));
        v.push(String::from_str("X-Requested-With: XMLHttpRequest"));
        v.push(String::from_str("Referer: https://www.instagram.com/"));
        let mut csrf = String::from_str("X-CSRFToken: ");
        csrf.append(self.csrf_token.as_str());
        v.push(csrf);
        let mut cookie = String::from_str("Cookie: ");
        let c = self.cookie();
        cookie.append(c.as_str());
        v.push(cookie);
        if form_body {
            v.push(String::from_str("Content-Type: application/x-www-form-urlencoded"));
        }
        assert(v@.map_values(|h: String| h@) =~= headers_spec(
            self.csrf_token@,
            cookie_spec(self.session_id@, self.csrf_token@),
            form_body,
        ));
        v
    }
}

/// One `key=value` pair of a form, both sides URL-encoded.
pub open spec fn form_pair_spec(k: Seq<char>, v: Seq<char>) -> Seq<char> {
    url_encode_spec(vstd::utf8::encode_utf8(k)) + "="@ + url_encode_spec(
        vstd::utf8::encode_utf8(v),
    )
}

/// The encoded pairs joined with `&`.
pub open spec fn form_spec(pairs: Seq<(Seq<char>, Seq<char>)>) -> Seq<char>
    decreases pairs.len(),
{
    if pairs.len() == 0 {
        Seq::empty()
    } else if pairs.len() == 1 {
        form_pair_spec(pairs[0].0, pairs[0].1)
    } else {
        form_spec(pairs.drop_last()) + "&"@ + form_pair_spec(pairs.last().0, pairs.last().1)
    }
}

/// The body of a form POST: each pair as `key=value`, URL-encoded, joined
/// with `&`.
pub fn encode_form(form: &[(&str, String)]) -> (r: String)
    ensures
        r@ == form_spec(form@.map_values(|p: (&str, String)| (p.0@, p.1@))),
{
    let ghost pairs = form@.map_values(|p: (&str, String)| (p.0@, p.1@));
    let mut out = String::new();
    let mut i: usize = 0;
    while i < form.len()
        invariant
            i <= form.len(),
            pairs == form@.map_values(|p: (&str, String)| (p.0@, p.1@)),
            out@ == form_spec(pairs.take(i as int)),
        decreases form.len() - i,
    {
        assert(pairs.take(i + 1).drop_last() =~= pairs.take(i as int));
        assert(pairs.take(i + 1).last() == (form@[i as int].0@, form@[i as int].1@));
        if i > 0 {
            out.append("&");
        }
        let k = urlencoding_encode(form[i].0);
        let v = urlencoding_encode(form[i].1.as_str());
        out.append(k.as_str());
        out.append("=");
        out.append(v.as_str());
        proof {
            if i == 0 {
                assert(out@ =~= form_spec(pairs.take(1)));
            } else {
                assert(out@ =~= form_spec(pairs.take(i + 1)));
            }
        }
        i += 1;
    }
    assert(pairs.take(form.len() as int) =~= pairs);
    out
}

// ---------------------------------------------------------------------
// Chunked download
// ---------------------------------------------------------------------

/// Bytes asked for in one range request.
pub const CHUNK: u64 = 1048576;

/// A download stops growing once it is larger than this.
pub const MAX_BYTES: u64 = 536870912;

/// The state of a download that pulls an asset in bounded byte ranges
/// (Instagram's video CDN stalls open-ended GETs after about 512 KB but
/// serves range requests at once).
#[derive(Debug)]
pub struct Download {
    buf: Vec<u8>,
    total: Option<u64>,
    done: bool,
}

impl Download {
    /// The bytes received so far.
    pub closed spec fn bytes(&self) -> Seq<u8> {
        self.buf@
    }

    /// The full size announced by the server, if any.
    pub closed spec fn announced(&self) -> Option<u64> {
        self.total
    }

    /// Whether the transfer has ended.
    pub closed spec fn finished(&self) -> bool {
        self.done || match self.total {
            Some(t) => self.buf@.len() >= t,
            None => false,
        }
    }

    /// The state's invariant: while more is wanted, the bytes are within
    /// the download limit.
    #[verifier::type_invariant]
    spec fn within_limit(self) -> bool {
        !self.finished() ==> self.buf@.len() <= MAX_BYTES
    }

    /// A download that has received nothing.
    pub fn new() -> (d: Download)
        ensures
            d.bytes() == Seq::<u8>::empty(),
            d.announced() is None,
            !d.finished(),
    {
        Download { buf: Vec::new(), total: None, done: false }
    }

    /// The next byte range to request (inclusive bounds), or `None` when
    /// the transfer has ended.
    pub fn next_range(&self) -> (r: Option<(u64, u64)>)
        ensures
            self.finished() ==> r is None,
            !self.finished() ==> r == Some(
                (self.bytes().len() as u64, (self.bytes().len() + CHUNK - 1) as u64),
            ),
    {
        proof {
            use_type_invariant(self);
        }
        if self.done {
            return None;
        }
        let start = self.buf.len() as u64;
        match self.total {
            Some(t) => if start >= t {
                return None;
            },
            None => {},
        }
        Some((start, start + CHUNK - 1))
    }

    /// Absorb the response to the range request `next_range` gave. A 416
    /// ends the transfer; 429/401/403 are a rate limit and other non-2xx
    /// statuses a network error; a full 200 answer to a resumed request
    /// replaces what was received; otherwise the chunk is appended, and
    /// the transfer ends on an empty chunk, on a short chunk when no size
    /// is known, or past the download limit.
    pub fn absorb(&mut self, status: u32, content_total: Option<u64>, chunk: Vec<u8>) -> (r:
        Result<(), ImagoError>)
        requires
            !old(self).finished(),
        ensures
            status == 416 ==> r is Ok && final(self).finished() && final(self).bytes() == old(
                self,
            ).bytes(),
            (status == 429 || status == 401 || status == 403) ==> (r matches Err(e) && e@
                == ErrorView::RateLimited("download HTTP "@ + decimal_spec(status as nat))),
            (status != 416 && status != 429 && status != 401 && status != 403 && !(200 <= status
                < 300)) ==> (r matches Err(e) && e@ == ErrorView::Network(
                "download HTTP "@ + decimal_spec(status as nat),
            )),
            (status == 200 && old(self).bytes().len() > 0) ==> r is Ok && final(self).finished()
                && final(self).bytes() == chunk@,
            (200 <= status < 300 && !(status == 200 && old(self).bytes().len() > 0)) ==> {
                let total = match content_total {
                    Some(t) => Some(t),
                    None => old(self).announced(),
                };
                &&& r is Ok
                &&& final(self).bytes() == old(self).bytes() + chunk@
                &&& final(self).announced() == total
                &&& (chunk@.len() == 0 || (total is None && chunk@.len() < CHUNK)
                    || final(self).bytes().len() > MAX_BYTES) ==> final(self).finished()
                &&& !(chunk@.len() == 0 || (total is None && chunk@.len() < CHUNK)
                    || final(self).bytes().len() > MAX_BYTES) ==> (final(self).finished()
                    <==> (total matches Some(t) && final(self).bytes().len() >= t))
            },
    {
        proof {
            reveal_strlit("");
        }
        if status == 416 {
            self.done = true;
            return Ok(());
        }
        if status == 429 || status == 401 || status == 403 {
            return Err(ImagoError::RateLimited(http_status_text("download HTTP ", status, "")));
        }
        if !(200 <= status && status < 300) {
            return Err(ImagoError::Network(http_status_text("download HTTP ", status, "")));
        }
        if status == 200 && self.buf.len() > 0 {
            *self = Download { buf: chunk, total: self.total, done: true };
            return Ok(());
        }
        let total = match content_total {
            Some(t) => Some(t),
            None => self.total,
        };
        let got = chunk.len();
        let mut buf: Vec<u8> = Vec::new();
        std::mem::swap(&mut buf, &mut self.buf);
        let mut chunk = chunk;
        buf.append(&mut chunk);
        let done = got == 0 || (total.is_none() && (got as u64) < CHUNK) || buf.len() as u64
            > MAX_BYTES;
        *self = Download { buf, total, done };
        Ok(())
    }

    /// The downloaded bytes; an empty download is a network error.
    pub fn into_body(self) -> (r: Result<Vec<u8>, ImagoError>)
        ensures
            self.bytes().len() > 0 ==> (r matches Ok(b) && b@ == self.bytes()),
            self.bytes().len() == 0 ==> (r matches Err(e) && e@ == ErrorView::Network(
                "empty download body"@,
            )),
    {
        if self.buf.len() == 0 {
            return Err(ImagoError::Network(String::from_str("empty download body")));
        }
        Ok(self.buf)
    }
}

} // verus!

verus! {

/// Only a 2xx response whose JSON is not an API failure is accepted, and
/// then as the parsed document.
pub proof fn lemma_decode_ok_only_2xx(
    status: u32,
    location: Option<Seq<char>>,
    body: Seq<u8>,
    parsed: Result<Json, Seq<char>>,
)
    ensures
        decode_spec(status, location, body, parsed) is Ok ==> 200 <= status < 300 && parsed is Ok
            && decode_spec(status, location, body, parsed)->Ok_0 == parsed->Ok_0 && str_of(
            get_spec(parsed->Ok_0, "status"@),
        ) != Some("fail"@),
{
}

/// Text that asks to log in again (`login_required`, `checkpoint` or
/// `challenge`, case ignored) means a dead session, unless it asks to wait
/// (`please wait`, `rate`, `try again`) or is empty, in a 401 or 403
/// response body.
pub proof fn lemma_relogin_text_is_dead_session(
    status: u32,
    location: Option<Seq<char>>,
    body: Seq<u8>,
    parsed: Result<Json, Seq<char>>,
)
    ensures
        ({
            let lower = unicode_lower(lossy_text(body));
            &&& status == 401 || status == 403
            &&& lower.len() > 0
            &&& !contains_spec(lower, "please wait"@)
            &&& !contains_spec(lower, "rate"@)
            &&& !contains_spec(lower, "try again"@)
            &&& (contains_spec(lower, "login_required"@) || contains_spec(lower, "checkpoint"@)
                || contains_spec(lower, "challenge"@))
        }) ==> decode_spec(status, location, body, parsed) == Err::<Json, ErrorView>(
            ErrorView::SessionDead,
        ),
{
}

/// The message of a 2xx API failure that asks to log in again
/// (`login_required`, `checkpoint` or `challenge`, case ignored) and does
/// not ask to wait means a dead session.
pub proof fn lemma_relogin_failure_is_dead_session(
    status: u32,
    location: Option<Seq<char>>,
    body: Seq<u8>,
    v: Json,
    message: Seq<char>,
)
    requires
        200 <= status < 300,
        str_of(get_spec(v, "status"@)) == Some("fail"@),
        str_of(get_spec(v, "message"@)) == Some(message),
        !contains_spec(unicode_lower(message), "please wait"@),
        !contains_spec(unicode_lower(message), "rate"@),
        !contains_spec(unicode_lower(message), "try again"@),
        contains_spec(unicode_lower(message), "login_required"@) || contains_spec(
            unicode_lower(message),
            "checkpoint"@,
        ) || contains_spec(unicode_lower(message), "challenge"@),
    ensures
        decode_spec(status, location, body, Ok(v)) == Err::<Json, ErrorView>(
            ErrorView::SessionDead,
        ),
{
}

/// A redirect whose target (case ignored) goes to a login, challenge,
/// checkpoint or accounts page means a dead session.
pub proof fn lemma_login_redirect_is_dead_session(
    status: u32,
    location: Seq<char>,
    body: Seq<u8>,
    parsed: Result<Json, Seq<char>>,
)
    requires
        status == 301 || status == 302,
        contains_spec(unicode_lower(location), "login"@) || contains_spec(
            unicode_lower(location),
            "/challenge"@,
        ) || contains_spec(unicode_lower(location), "/checkpoint"@) || contains_spec(
            unicode_lower(location),
            "/accounts/"@,
        ),
    ensures
        decode_spec(status, Some(location), body, parsed) == Err::<Json, ErrorView>(
            ErrorView::SessionDead,
        ),
{
}

/// A 401 or 403 whose body is empty or asks to wait (`please wait`,
/// `rate`, `try again`, case ignored) is a rate limit, and 429 always is.
pub proof fn lemma_wait_text_is_rate_limit(
    status: u32,
    location: Option<Seq<char>>,
    body: Seq<u8>,
    parsed: Result<Json, Seq<char>>,
)
    ensures
        status == 429 ==> decode_spec(status, location, body, parsed) == Err::<Json, ErrorView>(
            ErrorView::RateLimited("HTTP 429"@),
        ),
        ({
            let lower = unicode_lower(lossy_text(body));
            &&& status == 401 || status == 403
            &&& (lower.len() == 0 || contains_spec(lower, "please wait"@) || contains_spec(
                lower,
                "rate"@,
            ) || contains_spec(lower, "try again"@))
        }) ==> decode_spec(status, location, body, parsed) == Err::<Json, ErrorView>(
            ErrorView::RateLimited("HTTP "@ + decimal_spec(status as nat)),
        ),
{
}

/// A redirect is never accepted: it is a dead session or a rate limit.
pub proof fn lemma_redirect_never_accepted(
    status: u32,
    location: Option<Seq<char>>,
    body: Seq<u8>,
    parsed: Result<Json, Seq<char>>,
)
    requires
        status == 301 || status == 302,
    ensures
        decode_spec(status, location, body, parsed) matches Err(e) && (e is SessionDead
            || e is RateLimited),
{
}

/// A character that may appear in URL-encoded text: an unreserved one,
/// `%`, or an upper-case hexadecimal digit.
pub open spec fn url_safe(c: char) -> bool {
    ('A' <= c && c <= 'Z') || ('a' <= c && c <= 'z') || ('0' <= c && c <= '9') || c == '-' || c
        == '_' || c == '.' || c == '~' || c == '%'
}

/// URL encoding only ever writes unreserved characters, `%` and
/// hexadecimal digits (so an encoded key or value never holds `&` or `=`),
/// and never shortens its input.
pub proof fn lemma_url_encode_safe(bytes: Seq<u8>)
    ensures
        forall|i: int|
            0 <= i < url_encode_spec(bytes).len() ==> url_safe(#[trigger] url_encode_spec(bytes)[i]),
        url_encode_spec(bytes).len() >= bytes.len(),
    decreases bytes.len(),
{
    if bytes.len() > 0 {
        lemma_url_encode_safe(bytes.drop_last());
        let b = bytes.last();
        let prev = url_encode_spec(bytes.drop_last());
        let e = encode_byte(b);
        assert(url_encode_spec(bytes) == prev + e);
        assert forall|i: int| 0 <= i < e.len() implies url_safe(#[trigger] e[i]) by {
            if !unreserved(b) {
                assert(b / 16 < 16 && b % 16 < 16);
            }
        }
        assert forall|i: int|
            0 <= i < url_encode_spec(bytes).len() implies url_safe(
            #[trigger] url_encode_spec(bytes)[i],
        ) by {
            if i < prev.len() {
                assert(url_encode_spec(bytes)[i] == prev[i]);
            } else {
                assert(url_encode_spec(bytes)[i] == e[i - prev.len()]);
            }
        }
    }
}

} // verus!
