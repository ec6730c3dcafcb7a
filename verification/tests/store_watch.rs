use imago::archive::ArchiveReport;
use imago::error::{ImagoError, EXIT_OK, EXIT_PARTIAL};
use imago::media::Asset;
use imago::store::{choose_store_dir, media_key_of, store_dirs, ArchiveMetadata, Store};
use imago::watch::{sync_exit_code, sync_report, sync_targets, sync_username, SyncTally, Watchlist};

fn asset(key: &str) -> Asset {
    Asset {
        key: key.to_string(),
        shortcode: "SC".to_string(),
        index: 0,
        url: "https://cdn/x.jpg".to_string(),
        is_video: false,
        ext: "jpg".to_string(),
        taken_at: Some(5),
        caption: Some("cap".to_string()),
        media_id: Some("77".to_string()),
    }
}

fn report(username: &str, downloaded: u64, failed: u64) -> ArchiveReport {
    ArchiveReport {
        ok: failed == 0,
        command: "get",
        username: username.to_string(),
        user_id: "1".to_string(),
        assets_downloaded: downloaded,
        assets_skipped: 0,
        assets_failed: failed,
        output_dir: "/o".to_string(),
        duration_ms: 1,
        early_stopped: false,
    }
}

#[test]
fn store_tracks_present_keys() {
    let mut s = Store::empty("/a/zuck".to_string());
    assert!(!s.has("A"));
    s.mark_saved("A".to_string());
    s.mark_saved("A".to_string());
    assert!(s.has("A"));
    assert!(!s.has("B"));
    let s2 = Store::from_keys("/a/zuck".to_string(), vec!["X".into(), "Y".into(), "X".into()]);
    assert!(s2.has("X") && s2.has("Y"));
    assert_eq!(s.path_for(&asset("A_01")), "/a/zuck/A_01.jpg");
    assert_eq!(s.metadata_path(), "/a/zuck/metadata.json");
}

#[test]
fn store_directories() {
    let (modern, legacy) = store_dirs("/out", "zuck");
    assert_eq!(modern, "/out/zuck");
    assert_eq!(legacy, "/out/zuck_photos");
    assert_eq!(choose_store_dir("m".into(), "l".into(), true, true), "m");
    assert_eq!(choose_store_dir("m".into(), "l".into(), false, true), "l");
    assert_eq!(choose_store_dir("m".into(), "l".into(), false, false), "m");
}

#[test]
fn media_file_names() {
    assert_eq!(media_key_of("ABC.jpg").as_deref(), Some("ABC"));
    assert_eq!(media_key_of("CAR_01.MP4").as_deref(), Some("CAR_01"));
    assert_eq!(media_key_of("a.b.webp").as_deref(), Some("a.b"));
    assert_eq!(media_key_of("x.jpeg").as_deref(), Some("x"));
    assert_eq!(media_key_of("p.png").as_deref(), Some("p"));
    assert_eq!(media_key_of("metadata.json"), None);
    assert_eq!(media_key_of("noext"), None);
    assert_eq!(media_key_of(".jpg").as_deref(), Some(""));
}

#[test]
fn metadata_records_each_asset_once() {
    let mut m = ArchiveMetadata::new("zuck", "42");
    assert_eq!(m.version, 1);
    assert_eq!(m.downloaded, 0);
    m.record(&asset("A"), "/a/zuck/A.jpg");
    m.record(&asset("B"), "/a/zuck/B.jpg");
    m.record(&asset("A"), "/elsewhere.jpg");
    assert_eq!(m.downloaded, 2);
    assert_eq!(m.assets.len(), 2);
    assert_eq!(m.assets[0].file, "/a/zuck/A.jpg");
    assert_eq!(m.assets[1].key, "B");
    assert_eq!(m.assets[1].media_id.as_deref(), Some("77"));
    assert_eq!(m.assets[1].caption.as_deref(), Some("cap"));
    assert_eq!(m.assets[1].taken_at, Some(5));
}

#[test]
fn watchlist_add_and_remove() {
    let mut w = Watchlist::new("t0".to_string());
    assert!(w.add_at("zuck", "founder", "t1".to_string()));
    assert!(w.add_at("natgeo", "", "t2".to_string()));
    w.entries[0].enabled = false;
    assert!(!w.add_at("zuck", "", "t3".to_string()));
    assert_eq!(w.entries.len(), 2);
    assert!(w.entries[0].enabled);
    assert_eq!(w.entries[0].note, "founder");
    assert_eq!(w.entries[0].added_at, "t1");
    assert!(!w.add_at("zuck", "new note", "t4".to_string()));
    assert_eq!(w.entries[0].note, "new note");
    assert!(w.remove("zuck"));
    assert!(!w.remove("zuck"));
    assert_eq!(w.entries.len(), 1);
    assert_eq!(w.entries[0].username, "natgeo");
    w.touch("t9".to_string());
    assert_eq!(w.updated_at, "t9");
}

#[test]
fn remove_then_add_starts_fresh() {
    let mut w = Watchlist::new("t0".to_string());
    w.add_at("zuck", "n", "t1".to_string());
    w.record_synced("zuck", &report("zuck", 3, 0), "t2".to_string());
    w.remove("zuck");
    assert!(w.add_at("zuck", "", "t3".to_string()));
    assert_eq!(w.entries[0].last_synced_at, None);
    assert_eq!(w.entries[0].added_at, "t3");
}

#[test]
fn sync_targets_and_records() {
    let mut w = Watchlist::new("t0".to_string());
    assert!(matches!(sync_targets(None, &w), Err(ImagoError::Usage(_))));
    w.add_at("a", "", "t".to_string());
    w.add_at("b", "", "t".to_string());
    w.add_at("c", "", "t".to_string());
    w.entries[1].enabled = false;
    assert_eq!(sync_targets(None, &w).unwrap(), vec!["a".to_string(), "c".to_string()]);
    assert_eq!(
        sync_targets(Some(vec!["x".to_string()]), &w).unwrap(),
        vec!["x".to_string()]
    );
    assert!(sync_targets(Some(vec![]), &w).is_err());

    w.record_synced("a", &report("a", 4, 0), "t5".to_string());
    assert_eq!(w.entries[0].last_status.as_deref(), Some("ok"));
    assert_eq!(w.entries[0].last_new_count, 4);
    assert_eq!(w.entries[0].last_synced_at.as_deref(), Some("t5"));
    w.record_synced("c", &report("c", 1, 2), "t6".to_string());
    assert_eq!(w.entries[2].last_status.as_deref(), Some("partial"));
    w.record_session_dead("a");
    assert_eq!(w.entries[0].last_status.as_deref(), Some("auth"));
    assert_eq!(w.entries[0].last_error.as_deref(), Some("session dead"));
    assert_eq!(w.entries[0].last_new_count, 4);
    w.record_failure("c", &ImagoError::Network("down".into()));
    assert_eq!(w.entries[2].last_status.as_deref(), Some("error"));
    assert_eq!(w.entries[2].last_error.as_deref(), Some("network error: down"));
    w.record_failure("nobody", &ImagoError::Network("down".into()));
    assert_eq!(w.entries.len(), 3);
}

#[test]
fn sync_reports() {
    let mut tally = SyncTally::new();
    tally.archived("a".to_string(), report("a", 2, 0));
    let ok = SyncTally::new().finish();
    assert!(ok.ok);
    assert_eq!(sync_exit_code(&ok), EXIT_OK);
    tally.archived("b".to_string(), report("b", 2, 1));
    tally.errored("c".to_string());
    let r = tally.finish();
    assert!(!r.ok);
    assert_eq!(r.command, "watch sync");
    assert_eq!(r.results.len(), 2);
    assert_eq!(r.failed, vec!["b".to_string(), "c".to_string()]);
    assert_eq!(sync_exit_code(&r), EXIT_PARTIAL);
    let r2 = sync_report(vec![], vec![]);
    assert!(r2.ok);
}

#[test]
fn sync_usernames() {
    assert_eq!(sync_username("@Zuck".to_string()), "zuck");
    assert_eq!(sync_username("https://instagram.com/p/X/".to_string()), "https://instagram.com/p/X/");
}

#[test]
fn add_stamps_the_current_time() {
    let mut w = Watchlist::default();
    assert_eq!(w.version, 1);
    assert!(w.entries.is_empty());
    assert!(w.add("zuck", "n"));
    assert!(!w.add("zuck", ""));
    assert_eq!(w.entries.len(), 1);
    assert!(!w.entries[0].added_at.is_empty());
    assert_eq!(w.entries[0].note, "n");
}

#[test]
fn store_opened_on_a_listing_knows_media_files_and_saves() {
    let names = vec![
        "A.jpg".to_string(),
        "B_01.MP4".to_string(),
        "metadata.json".to_string(),
        "C.jpg.tmp".to_string(),
        "noext".to_string(),
    ];
    let mut s = Store::from_file_names("/a/zuck".to_string(), &names);
    assert!(s.has("A"));
    assert!(s.has("B_01"));
    assert!(!s.has("metadata"));
    assert!(!s.has("C"));
    assert!(!s.has("C.jpg"));
    assert!(!s.has("D"));
    s.mark_saved("D".to_string());
    assert!(s.has("D"));
    assert_eq!(s.dir(), "/a/zuck");
}

#[test]
fn store_keeps_listing_and_every_save() {
    let names = vec!["A.webp".to_string(), "x.txt".to_string()];
    let mut s = Store::from_file_names("/d".to_string(), &names);
    for k in ["B", "C", "A", "D_00"] {
        s.mark_saved(k.to_string());
    }
    for k in ["A", "B", "C", "D_00"] {
        assert!(s.has(k));
    }
    assert!(!s.has("x"));
    assert!(!s.has("D"));
}
