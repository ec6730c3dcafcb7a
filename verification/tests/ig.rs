use imago::auth::Credentials;
use imago::error::ImagoError;
use imago::ig::{
    doc_id_form, doc_id_page_from_json, doc_id_variables, extract_connection,
    feed_page_from_json, feed_url, graphql_url, parse_profile_input, profile_page_from_json,
    profile_url, tries_feed_first, validate_username, IgClient, DOC_ID_LOGGED_IN,
    DOC_ID_LOGGED_OUT,
};
use imago::json::{Json, JsonNumber};

fn to_json(v: &serde_json::Value) -> Json {
    match v {
        serde_json::Value::Null => Json::Null,
        serde_json::Value::Bool(b) => Json::Bool(*b),
        serde_json::Value::Number(n) => Json::Number(JsonNumber {
            text: n.to_string(),
            as_u64: n.as_u64(),
            truncated: n.as_f64().map(|f| f as i64).unwrap_or(0),
        }),
        serde_json::Value::String(s) => Json::Str(s.clone()),
        serde_json::Value::Array(a) => Json::Array(a.iter().map(to_json).collect()),
        serde_json::Value::Object(o) => {
            Json::Object(o.iter().map(|(k, v)| (k.clone(), to_json(v))).collect())
        }
    }
}

fn parse(text: &str) -> Json {
    to_json(&serde_json::from_str::<serde_json::Value>(text).unwrap())
}

#[test]
fn parse_urls() {
    assert_eq!(
        parse_profile_input("https://www.instagram.com/zuck/").unwrap(),
        "zuck"
    );
    assert_eq!(parse_profile_input("@NatGeo").unwrap(), "natgeo");
    assert_eq!(parse_profile_input("instagram.com/foo").unwrap(), "foo");
    assert!(parse_profile_input("https://instagram.com/p/ABC/").is_err());
}

#[test]
fn profile_input_errors() {
    assert!(matches!(parse_profile_input("   "), Err(ImagoError::Usage(_))));
    assert!(matches!(
        parse_profile_input("https://www.instagram.com/"),
        Err(ImagoError::Usage(_))
    ));
    assert!(matches!(parse_profile_input("bad name"), Err(ImagoError::Usage(_))));
    assert!(matches!(
        parse_profile_input("instagram.com/reel/xyz"),
        Err(ImagoError::Usage(_))
    ));
    assert_eq!(parse_profile_input("  Some.User_1/ ").unwrap(), "some.user_1");
}

#[test]
fn parsing_twice_gives_the_same() {
    for input in ["https://www.instagram.com/zuck/", "@NatGeo", "instagram.com/foo", "a.b_c"] {
        let once = parse_profile_input(input).unwrap();
        assert_eq!(parse_profile_input(&once).unwrap(), once);
    }
}

#[test]
fn username_rules() {
    assert_eq!(validate_username("Zuck/").unwrap(), "zuck");
    assert!(validate_username("").is_err());
    assert!(validate_username(&"a".repeat(31)).is_err());
    assert!(validate_username(&"a".repeat(30)).is_ok());
    assert!(validate_username("no-dash").is_err());
}

#[test]
fn urls() {
    assert_eq!(
        profile_url("zuck"),
        "https://www.instagram.com/api/v1/users/web_profile_info/?username=zuck"
    );
    assert_eq!(feed_url("42", None), "https://www.instagram.com/api/v1/feed/user/42/?count=12");
    assert_eq!(feed_url("42", Some("")), "https://www.instagram.com/api/v1/feed/user/42/?count=12");
    assert_eq!(
        feed_url("42", Some("9_1")),
        "https://www.instagram.com/api/v1/feed/user/42/?count=12&max_id=9_1"
    );
    assert_eq!(graphql_url(), "https://www.instagram.com/graphql/query");
    assert!(tries_feed_first(None));
    assert!(tries_feed_first(Some("1_2")));
    assert!(!tries_feed_first(Some("QVFabc")));
}

fn compact(text: &str) -> String {
    serde_json::to_string(&serde_json::from_str::<serde_json::Value>(text).unwrap()).unwrap()
}

#[test]
fn doc_id_variables_by_username_and_id() {
    let (v, doc) = doc_id_variables("42", "zuck", None);
    assert_eq!(doc, DOC_ID_LOGGED_IN);
    assert_eq!(
        v,
        compact(
            r#"{"data": {"count": 12, "include_relationship_info": true,
            "latest_besties_reel_media": true, "latest_reel_media": true},
            "__relay_internal__pv__PolarisFeedShareMenurelayprovider": false,
            "username": "zuck"}"#
        )
    );

    let (v, doc) = doc_id_variables("42", "", Some("CUR"));
    assert_eq!(doc, DOC_ID_LOGGED_OUT);
    assert_eq!(
        v,
        compact(
            r#"{"data": {"count": 12, "include_relationship_info": true,
            "latest_besties_reel_media": true, "latest_reel_media": true},
            "__relay_internal__pv__PolarisFeedShareMenurelayprovider": false,
            "id": "42", "after": "CUR", "before": null, "first": 12, "last": null}"#
        )
    );

    let (v, _) = doc_id_variables("42", "zuck", Some("C"));
    assert_eq!(
        v,
        compact(
            r#"{"data": {"count": 12, "include_relationship_info": true,
            "latest_besties_reel_media": true, "latest_reel_media": true},
            "__relay_internal__pv__PolarisFeedShareMenurelayprovider": false,
            "username": "zuck", "after": "C", "before": null, "first": 12, "last": null}"#
        )
    );
    let (v, _) = doc_id_variables("1", "", None);
    assert_eq!(
        v,
        compact(
            r#"{"data": {"count": 12, "include_relationship_info": true,
            "latest_besties_reel_media": true, "latest_reel_media": true},
            "__relay_internal__pv__PolarisFeedShareMenurelayprovider": false, "id": "1"}"#
        )
    );
}

#[test]
fn variables_escape_strings_as_serde_json_does() {
    let odd = "a\"b\\c\n\t\r\u{8}\u{c}\u{1}\u{1f}é/\u{7f}";
    let (v, _) = doc_id_variables("42", odd, Some(odd));
    let quoted = serde_json::to_string(odd).unwrap();
    assert!(v.contains(&format!("\"after\":{quoted},")));
    assert!(v.ends_with(&format!("\"username\":{quoted}}}")));
    let back: serde_json::Value = serde_json::from_str(&v).unwrap();
    assert_eq!(v, serde_json::to_string(&back).unwrap());
    assert_eq!(back["after"].as_str(), Some(odd));
}

#[test]
fn doc_id_form_fields() {
    let form = doc_id_form("{}".to_string(), DOC_ID_LOGGED_IN);
    assert_eq!(form.len(), 3);
    assert_eq!(form[0], ("variables", "{}".to_string()));
    assert_eq!(form[1], ("doc_id", DOC_ID_LOGGED_IN.to_string()));
    assert_eq!(form[2], ("server_timestamps", "true".to_string()));
}

#[test]
fn profile_page_outcomes() {
    let wall = parse(r#"{"requires_to_login": true}"#);
    assert!(matches!(profile_page_from_json("x", &wall), Err(ImagoError::SessionDead)));
    let missing = parse(r#"{"data": {}}"#);
    assert!(matches!(profile_page_from_json("x", &missing), Err(ImagoError::NotFound(n)) if n == "x"));
    let no_id = parse(r#"{"data": {"user": {"username": "x"}}}"#);
    assert!(matches!(profile_page_from_json("x", &no_id), Err(ImagoError::Parse(_))));
    let ok = parse(
        r#"{"data": {"user": {"id": 42, "username": "Real",
            "edge_owner_to_timeline_media": {"count": 7,
                "edges": [{"node": {"code": "A", "display_url": "u"}}],
                "page_info": {"has_next_page": false}}}}}"#,
    );
    let page = profile_page_from_json("x", &ok).unwrap();
    assert_eq!(page.user_id, "42");
    assert_eq!(page.username, "Real");
    assert_eq!(page.media_count, Some(7));
    assert_eq!(page.assets.len(), 1);
    assert_eq!(page.post_keys, vec!["A".to_string()]);
    assert!(!page.has_next);
}

#[test]
fn feed_and_graphql_pages() {
    let feed = parse(
        r#"{"items": [{"code": "F", "image_versions2": {"candidates": [{"url": "u"}]}}],
            "more_available": true, "next_max_id": 55}"#,
    );
    let page = feed_page_from_json("42", &feed);
    assert_eq!(page.user_id, "42");
    assert_eq!(page.username, "");
    assert_eq!(page.media_count, None);
    assert!(page.has_next);
    assert_eq!(page.end_cursor.as_deref(), Some("55"));

    let raw = parse(r#"{"data": {"user": {"edges": [], "page_info": {}}}}"#);
    assert!(extract_connection(&raw).is_some());
    let page = doc_id_page_from_json("42", "zuck", &raw).unwrap();
    assert_eq!(page.username, "zuck");
    let raw = parse(r#"{"data": {"user": {}}}"#);
    assert!(extract_connection(&raw).is_none());
    assert!(matches!(doc_id_page_from_json("42", "zuck", &raw), Err(ImagoError::Parse(_))));
}

#[test]
fn client_takes_the_credentials() {
    let creds = Credentials {
        session_id: "1%3Aa".to_string(),
        csrf_token: "tok".to_string(),
        user_agent: None,
    };
    let client = IgClient::new(&creds, "UA").unwrap();
    assert_eq!(client.http.user_agent, "UA");
    assert_eq!(client.http.session_id, "1%3Aa");
    let copy = client.http();
    assert_eq!(copy.csrf_token, "tok");
}
