use imago::json::{Json, JsonNumber};
use imago::media::{
    asset_from_node, best_image_url, best_video_url, caption_of, expand_connection, expand_post,
    is_feed_cursor, is_video_node, shortcode_of, stringify_id, taken_at_of,
};

fn to_json(v: &serde_json::Value) -> Json {
    match v {
        serde_json::Value::Null => Json::Null,
        serde_json::Value::Bool(b) => Json::Bool(*b),
        serde_json::Value::Number(n) => Json::Number(JsonNumber {
            text: n.to_string(),
            as_u64: n.as_u64(),
            truncated: n.as_f64().map(|f| f as i64).unwrap_or(0),
        }),
        serde_json::Value::String(s) => Json::Str(s.clone()),
        serde_json::Value::Array(a) => Json::Array(a.iter().map(to_json).collect()),
        serde_json::Value::Object(o) => {
            Json::Object(o.iter().map(|(k, v)| (k.clone(), to_json(v))).collect())
        }
    }
}

fn parse(text: &str) -> Json {
    to_json(&serde_json::from_str::<serde_json::Value>(text).unwrap())
}

#[test]
fn expand_image() {
    let node = parse(
        r#"{
            "code": "ABC",
            "media_type": 1,
            "image_versions2": {
                "candidates": [
                    {"url": "https://cdn/small.jpg", "width": 100, "height": 100},
                    {"url": "https://cdn/big.jpg", "width": 1080, "height": 1080}
                ]
            }
        }"#,
    );
    let assets = expand_post(&node);
    assert_eq!(assets.len(), 1);
    assert_eq!(assets[0].key, "ABC");
    assert_eq!(assets[0].url, "https://cdn/big.jpg");
    assert!(!assets[0].is_video);
}

#[test]
fn expand_video() {
    let node = parse(
        r#"{
            "shortcode": "VID1",
            "is_video": true,
            "video_versions": [
                {"url": "https://cdn/a.mp4"},
                {"url": "https://cdn/best.mp4"}
            ]
        }"#,
    );
    let assets = expand_post(&node);
    assert_eq!(assets.len(), 1);
    assert!(assets[0].is_video);
    assert_eq!(assets[0].ext, "mp4");
    assert_eq!(assets[0].url, "https://cdn/best.mp4");
}

#[test]
fn expand_carousel() {
    let node = parse(
        r#"{
            "code": "CAR",
            "media_type": 8,
            "carousel_media": [
                {
                    "media_type": 1,
                    "image_versions2": {"candidates": [{"url": "https://cdn/0.jpg", "width": 10, "height": 10}]}
                },
                {
                    "media_type": 2,
                    "video_versions": [{"url": "https://cdn/1.mp4"}]
                }
            ]
        }"#,
    );
    let assets = expand_post(&node);
    assert_eq!(assets.len(), 2);
    assert_eq!(assets[0].key, "CAR_00");
    assert_eq!(assets[1].key, "CAR_01");
    assert!(assets[1].is_video);
}

#[test]
fn equal_candidates_keep_the_last() {
    let node = parse(
        r#"{"image_versions2": {"candidates": [
            {"url": "first", "width": 10, "height": 10},
            {"url": "second", "width": 10, "height": 10},
            {"url": "small", "width": 1, "height": 1}
        ]}}"#,
    );
    assert_eq!(best_image_url(&node).as_deref(), Some("second"));
}

#[test]
fn candidate_without_url_gives_none() {
    let node = parse(
        r#"{"display_url": "d", "image_versions2": {"candidates": [
            {"url": "a", "width": 10, "height": 10},
            {"width": 20, "height": 20}
        ]}}"#,
    );
    assert_eq!(best_image_url(&node), None);
}

#[test]
fn empty_candidates_fall_back_to_display_url() {
    let node = parse(r#"{"display_src": "src", "image_versions2": {"candidates": []}}"#);
    assert_eq!(best_image_url(&node).as_deref(), Some("src"));
    let node = parse(r#"{"display_url": "u", "display_uri": "i"}"#);
    assert_eq!(best_image_url(&node).as_deref(), Some("u"));
}

#[test]
fn video_url_falls_back() {
    let node = parse(r#"{"video_versions": [{"url": "a"}, {"nourl": 1}], "video_url": "v"}"#);
    assert_eq!(best_video_url(&node).as_deref(), Some("a"));
    let node = parse(r#"{"video_versions": [], "video_url": "v"}"#);
    assert_eq!(best_video_url(&node).as_deref(), Some("v"));
    let node = parse(r#"{}"#);
    assert_eq!(best_video_url(&node), None);
}

#[test]
fn reads_caption_time_and_kind() {
    let node = parse(r#"{"caption": {"text": "hello"}, "taken_at": 1700000000}"#);
    assert_eq!(caption_of(&node).as_deref(), Some("hello"));
    assert_eq!(taken_at_of(&node), Some(1700000000));
    let node = parse(
        r#"{"edge_media_to_caption": {"edges": [{"node": {"text": "edge"}}]},
            "taken_at_timestamp": 12.9}"#,
    );
    assert_eq!(caption_of(&node).as_deref(), Some("edge"));
    assert_eq!(taken_at_of(&node), Some(12));
    assert!(is_video_node(&parse(r#"{"media_type": 2}"#)));
    assert!(is_video_node(&parse(r#"{"is_video": true}"#)));
    assert!(!is_video_node(&parse(r#"{"media_type": 1}"#)));
}

#[test]
fn reads_ids_and_shortcodes() {
    assert_eq!(stringify_id(&parse("123")).as_deref(), Some("123"));
    assert_eq!(stringify_id(&parse(r#""9_1""#)).as_deref(), Some("9_1"));
    assert_eq!(stringify_id(&parse("true")), None);
    assert_eq!(shortcode_of(&parse(r#"{"code": "C", "shortcode": "S"}"#)).as_deref(), Some("C"));
    assert_eq!(shortcode_of(&parse(r#"{"shortcode": "S"}"#)).as_deref(), Some("S"));
    assert_eq!(shortcode_of(&parse(r#"{}"#)), None);
}

#[test]
fn asset_keys_for_single_and_multi() {
    let node = parse(r#"{"image_versions2": {"candidates": [{"url": "https://cdn/x.jpg"}]}}"#);
    let single = asset_from_node(&node, "SC", 0, false).unwrap();
    assert_eq!(single.key, "SC");
    assert_eq!(single.ext, "jpg");
    let multi = asset_from_node(&node, "SC", 3, true).unwrap();
    assert_eq!(multi.key, "SC_03");
    assert!(asset_from_node(&parse("{}"), "SC", 0, false).is_none());
}

#[test]
fn post_without_shortcode_gives_nothing() {
    let node = parse(r#"{"image_versions2": {"candidates": [{"url": "u"}]}}"#);
    assert!(expand_post(&node).is_empty());
}

#[test]
fn expands_a_connection_page() {
    let data = parse(
        r#"{
            "edges": [
                {"node": {"code": "A", "display_url": "https://cdn/a.jpg"}},
                {"node": {"code": "B", "is_video": true, "video_url": "https://cdn/b.mp4"}}
            ],
            "page_info": {"has_next_page": true, "end_cursor": "CUR"}
        }"#,
    );
    let (assets, keys, has_next, cursor) = expand_connection(&data);
    assert_eq!(assets.len(), 2);
    assert_eq!(keys, vec!["A".to_string(), "B".to_string()]);
    assert!(has_next);
    assert_eq!(cursor.as_deref(), Some("CUR"));
}

#[test]
fn feed_cursors_are_digits_and_underscores() {
    assert!(is_feed_cursor("3141592653_123"));
    assert!(!is_feed_cursor("3141592653"));
    assert!(!is_feed_cursor("QVFE_abc"));
}
