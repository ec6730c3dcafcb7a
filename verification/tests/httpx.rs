use imago::error::ImagoError;
use imago::httpx::{
    decode_status_body, ds_user_id, encode_form, is_checkpoint_target, parse_location,
    parse_size_header, urlencoding_encode, CurlHttp, Download, SizeHeader,
};
use imago::auth::Credentials;
use imago::json::Json;

fn parse_err(body: &[u8]) -> Result<Json, String> {
    match serde_json::from_slice::<serde_json::Value>(body) {
        Ok(_) => panic!("expected a parse error"),
        Err(e) => Err(e.to_string()),
    }
}

fn obj(members: Vec<(&str, Json)>) -> Json {
    Json::Object(members.into_iter().map(|(k, v)| (k.to_string(), v)).collect())
}

fn s(v: &str) -> Json {
    Json::Str(v.to_string())
}

#[test]
fn checkpoint_redirect_is_session_dead() {
    let loc = "https://www.instagram.com/accounts/login/?next=/x/";
    assert!(matches!(
        decode_status_body(302, Some(loc), b"", parse_err(b"")),
        Err(ImagoError::SessionDead)
    ));
    assert!(matches!(
        decode_status_body(302, Some("https://i.instagram.com/challenge/"), b"", parse_err(b"")),
        Err(ImagoError::SessionDead)
    ));
    assert!(matches!(
        decode_status_body(302, Some("https://www.instagram.com/"), b"", parse_err(b"")),
        Err(ImagoError::RateLimited(_))
    ));
}

#[test]
fn classifies_checkpoint_targets() {
    assert!(is_checkpoint_target("/accounts/login/"));
    assert!(is_checkpoint_target("https://i.instagram.com/challenge/"));
    assert!(is_checkpoint_target("/checkpoint/"));
    assert!(!is_checkpoint_target("https://www.instagram.com/natgeo/"));
}

#[test]
fn parses_location_header() {
    assert_eq!(
        parse_location(b"location: https://x.com/y\r\n").as_deref(),
        Some("https://x.com/y")
    );
    assert!(parse_location(b"Content-Type: text/html\r\n").is_none());
}

#[test]
fn parses_size_headers() {
    assert!(matches!(
        parse_size_header(b"Content-Range: bytes 0-1048575/6352563\r\n"),
        Some(SizeHeader::ContentRangeTotal(6352563))
    ));
    assert!(matches!(
        parse_size_header(b"content-length: 200000\r\n"),
        Some(SizeHeader::ContentLength(200000))
    ));
    assert!(parse_size_header(b"Content-Type: video/mp4\r\n").is_none());
}

#[test]
fn derives_ds_user_id() {
    assert_eq!(
        ds_user_id("192008031%3A4CSxhQTRiiyCEG%3A1%3AABC").as_deref(),
        Some("192008031")
    );
    assert_eq!(ds_user_id("192008031:token:1").as_deref(), Some("192008031"));
    assert_eq!(ds_user_id(""), None);
    assert_eq!(ds_user_id("%3Anope"), None);
}

#[test]
fn size_header_edge_cases() {
    // No slash: the whole value is the total; invalid numbers give nothing.
    assert_eq!(
        parse_size_header(b"content-range: 42\r\n"),
        Some(SizeHeader::ContentRangeTotal(42))
    );
    assert_eq!(parse_size_header(b"Content-Range: bytes 0-1/*\r\n"), None);
    assert_eq!(parse_size_header(b"Content-Length: +7"), Some(SizeHeader::ContentLength(7)));
    assert_eq!(parse_size_header(b"Content-Length: 18446744073709551616"), None);
    assert_eq!(parse_size_header(b"no colon here"), None);
    assert_eq!(parse_size_header(&[0xff, 0x3a, 0x31]), None);
}

#[test]
fn location_edge_cases() {
    assert_eq!(parse_location(b"LOCATION:   /a/b  ").as_deref(), Some("/a/b"));
    assert_eq!(parse_location(b"Location:   \r\n"), None);
    assert_eq!(parse_location(b"Location: a:b").as_deref(), Some("a:b"));
}

#[test]
fn url_encoding_is_exact() {
    assert_eq!(urlencoding_encode("aZ09-_.~"), "aZ09-_.~");
    assert_eq!(urlencoding_encode("a b&c=d"), "a%20b%26c%3Dd");
    assert_eq!(urlencoding_encode("é"), "%C3%A9");
    assert_eq!(urlencoding_encode("{\"k\":1}"), "%7B%22k%22%3A1%7D");
}

#[test]
fn form_body_joins_encoded_pairs() {
    let form = vec![("variables", "{\"a\":1}".to_string()), ("doc_id", "77".to_string())];
    assert_eq!(encode_form(&form), "variables=%7B%22a%22%3A1%7D&doc_id=77");
    let empty: Vec<(&str, String)> = Vec::new();
    assert_eq!(encode_form(&empty), "");
}

#[test]
fn status_classification_covers_each_error() {
    assert!(matches!(
        decode_status_body(429, None, b"", parse_err(b"")),
        Err(ImagoError::RateLimited(m)) if m == "HTTP 429"
    ));
    assert!(matches!(
        decode_status_body(403, None, b"", parse_err(b"")),
        Err(ImagoError::RateLimited(m)) if m == "HTTP 403"
    ));
    assert!(matches!(
        decode_status_body(401, None, b"{\"message\":\"login_required\"}", parse_err(b"{")),
        Err(ImagoError::SessionDead)
    ));
    assert!(matches!(
        decode_status_body(403, None, b"nope", parse_err(b"nope")),
        Err(ImagoError::RateLimited(m)) if m == "HTTP 403 (treating as temporary block)"
    ));
    assert!(matches!(
        decode_status_body(301, None, b"please LOGIN", parse_err(b"please LOGIN")),
        Err(ImagoError::SessionDead)
    ));
    assert!(matches!(
        decode_status_body(301, None, b"", parse_err(b"")),
        Err(ImagoError::RateLimited(m)) if m == "redirect HTTP 301"
    ));
    assert!(matches!(
        decode_status_body(500, None, b"oops", parse_err(b"oops")),
        Err(ImagoError::Network(m)) if m == "HTTP 500: oops"
    ));
    let long = "x".repeat(300);
    match decode_status_body(404, None, long.as_bytes(), parse_err(long.as_bytes())) {
        Err(ImagoError::Network(m)) => assert_eq!(m, format!("HTTP 404: {}", "x".repeat(200))),
        other => panic!("unexpected {other:?}"),
    }
    match decode_status_body(200, None, b"nope", Err("bad json".to_string())) {
        Err(ImagoError::Parse(m)) => assert_eq!(m, "json: bad json; body=nope"),
        other => panic!("unexpected {other:?}"),
    }
}

#[test]
fn api_failures_are_classified() {
    let fail = |msg: Option<&str>, require_login: bool| {
        let mut m = vec![("status", s("fail"))];
        if let Some(t) = msg {
            m.push(("message", s(t)));
        }
        if require_login {
            m.push(("require_login", Json::Bool(true)));
        }
        obj(m)
    };
    assert!(matches!(
        decode_status_body(200, None, b"{}", Ok(fail(Some("Please wait a few minutes"), false))),
        Err(ImagoError::RateLimited(m)) if m == "Please wait a few minutes"
    ));
    assert!(matches!(
        decode_status_body(200, None, b"{}", Ok(fail(Some("x"), true))),
        Err(ImagoError::SessionDead)
    ));
    assert!(matches!(
        decode_status_body(200, None, b"{}", Ok(fail(Some("checkpoint_required"), false))),
        Err(ImagoError::SessionDead)
    ));
    assert!(matches!(
        decode_status_body(200, None, b"{}", Ok(fail(None, false))),
        Err(ImagoError::RateLimited(m)) if m == "fail"
    ));
    let ok = obj(vec![("status", s("ok"))]);
    match decode_status_body(200, None, b"{}", Ok(ok)) {
        Ok(Json::Object(m)) => assert_eq!(m[0].0, "status"),
        other => panic!("unexpected {other:?}"),
    }
}

#[test]
fn client_identity_and_headers() {
    let creds = Credentials {
        session_id: "123%3Aabc".to_string(),
        csrf_token: "tok".to_string(),
        user_agent: None,
    };
    let http = CurlHttp::new(&creds, "UA/1");
    assert_eq!(http.user_agent, "UA/1");
    assert_eq!(http.account_id().as_deref(), Some("123"));
    assert_eq!(http.cookie(), "sessionid=123%3Aabc; csrftoken=tok; ds_user_id=123");
    let h = http.request_headers(true);
    assert_eq!(h.len(), 8);
    assert_eq!(h[5], "X-CSRFToken: tok");
    assert_eq!(h[6], "Cookie: sessionid=123%3Aabc; csrftoken=tok; ds_user_id=123");
    assert_eq!(h[7], "Content-Type: application/x-www-form-urlencoded");
    assert_eq!(http.request_headers(false).len(), 7);
    let with_ua = Credentials {
        session_id: "x".to_string(),
        csrf_token: "y".to_string(),
        user_agent: Some("Mine".to_string()),
    };
    let http2 = CurlHttp::new(&with_ua, "UA/1");
    assert_eq!(http2.user_agent, "Mine");
    assert_eq!(http2.cookie(), "sessionid=x; csrftoken=y");
    assert_eq!(http2.account_id(), None);
}

#[test]
fn chunked_download_protocol() {
    // Two full chunks and a short tail, with a known total.
    let mut d = Download::new();
    assert_eq!(d.next_range(), Some((0, 1048575)));
    d.absorb(206, Some(2_500_000), vec![1u8; 1_048_576]).unwrap();
    assert_eq!(d.next_range(), Some((1_048_576, 2_097_151)));
    d.absorb(206, None, vec![2u8; 1_048_576]).unwrap();
    d.absorb(206, None, vec![3u8; 402_848]).unwrap();
    assert_eq!(d.next_range(), None);
    let body = d.into_body().unwrap();
    assert_eq!(body.len(), 2_500_000);
    assert_eq!(body[2_499_999], 3);

    // A small image in one request without a size.
    let mut d = Download::new();
    d.absorb(200, None, vec![9u8; 10]).unwrap();
    assert_eq!(d.next_range(), None);
    assert_eq!(d.into_body().unwrap(), vec![9u8; 10]);

    // A full answer to a resumed request replaces what came before.
    let mut d = Download::new();
    d.absorb(206, Some(5_000_000), vec![1u8; 1_048_576]).unwrap();
    d.absorb(200, None, vec![7u8; 5]).unwrap();
    assert_eq!(d.next_range(), None);
    assert_eq!(d.into_body().unwrap(), vec![7u8; 5]);

    // Errors.
    let mut d = Download::new();
    assert!(matches!(
        d.absorb(429, None, Vec::new()),
        Err(ImagoError::RateLimited(m)) if m == "download HTTP 429"
    ));
    assert!(matches!(
        d.absorb(404, None, Vec::new()),
        Err(ImagoError::Network(m)) if m == "download HTTP 404"
    ));
    d.absorb(416, None, Vec::new()).unwrap();
    assert_eq!(d.next_range(), None);
    assert!(matches!(
        d.into_body(),
        Err(ImagoError::Network(m)) if m == "empty download body"
    ));
}
