use imago::archive::{
    backoff_delay, classify_download, exit_code_for, fetch_plan, page_delay, page_retry,
    update_media_count, ArchiveOpts, ArchiveRun, DownloadRetry, DownloadStep, FetchPlan,
    SaveDecision, MAX_NON_RATE_FAILURES,
};
use imago::error::{ImagoError, EXIT_OK, EXIT_PARTIAL};
use imago::media::{Asset, Page};
use imago::store::{ArchiveMetadata, JobState, Store};

fn asset(key: &str, shortcode: &str) -> Asset {
    Asset {
        key: key.to_string(),
        shortcode: shortcode.to_string(),
        index: 0,
        url: format!("https://cdn/{key}.jpg"),
        is_video: false,
        ext: "jpg".to_string(),
        taken_at: None,
        caption: None,
        media_id: None,
    }
}

fn page(post_keys: &[&str], assets: Vec<Asset>) -> Page {
    Page {
        user_id: "42".to_string(),
        username: "zuck".to_string(),
        media_count: None,
        assets,
        post_keys: post_keys.iter().map(|s| s.to_string()).collect(),
        has_next: true,
        end_cursor: Some("next".to_string()),
    }
}

fn job(completed: bool) -> JobState {
    JobState {
        version: 1,
        username: "zuck".to_string(),
        user_id: "42".to_string(),
        end_cursor: Some("CUR".to_string()),
        pages_done: 4,
        assets_downloaded: 40,
        assets_skipped: 2,
        completed,
        updated_at: "t0".to_string(),
    }
}

#[test]
fn backoff_doubles_and_caps() {
    let rate = ImagoError::RateLimited("429".into());
    assert_eq!(backoff_delay(&rate, 0), 120);
    assert_eq!(backoff_delay(&rate, 1), 240);
    assert_eq!(backoff_delay(&rate, 3), 960);
    assert_eq!(backoff_delay(&rate, 4), 1800);
    assert_eq!(backoff_delay(&rate, 100), 1800);
    let auth = ImagoError::Auth("soft".into());
    assert_eq!(backoff_delay(&auth, 0), 180);
    let net = ImagoError::Network("down".into());
    assert_eq!(backoff_delay(&net, 0), 15);
    assert_eq!(backoff_delay(&net, 5), 480);
    assert_eq!(backoff_delay(&net, 6), 600);
    let other = ImagoError::Parse("x".into());
    assert_eq!(backoff_delay(&other, 2), 80);
    assert_eq!(backoff_delay(&other, u32::MAX), 600);
}

#[test]
fn backoff_never_shrinks() {
    let errs = [
        ImagoError::RateLimited("r".into()),
        ImagoError::Auth("a".into()),
        ImagoError::Network("n".into()),
        ImagoError::Other("o".into()),
    ];
    for e in &errs {
        let mut prev = 0;
        for attempt in 0..12 {
            let d = backoff_delay(e, attempt);
            assert!(d >= prev);
            prev = d;
        }
    }
}

#[test]
fn page_pacing() {
    assert_eq!(page_delay(30), 2000);
    assert_eq!(page_delay(0), 60000);
    assert_eq!(page_delay(1), 60000);
    assert_eq!(page_delay(120), 500);
    assert_eq!(page_delay(1000), 500);
}

#[test]
fn page_retries() {
    assert_eq!(page_retry(&ImagoError::SessionDead, 0), None);
    assert_eq!(page_retry(&ImagoError::NotFound("x".into()), 0), None);
    assert_eq!(page_retry(&ImagoError::Usage("x".into()), 0), None);
    assert_eq!(page_retry(&ImagoError::RateLimited("x".into()), 0), Some((1, 240)));
    assert_eq!(page_retry(&ImagoError::Network("x".into()), 2), Some((3, 120)));
    assert_eq!(page_retry(&ImagoError::Network("x".into()), u32::MAX), Some((u32::MAX, 600)));
}

#[test]
fn fetch_plans() {
    assert_eq!(fetch_plan(true, true, true), FetchPlan::Profile);
    assert_eq!(fetch_plan(true, true, false), FetchPlan::Profile);
    assert_eq!(fetch_plan(true, false, true), FetchPlan::ProfileThenMedia);
    assert_eq!(fetch_plan(false, false, true), FetchPlan::ProfileThenMedia);
    assert_eq!(fetch_plan(false, true, true), FetchPlan::Profile);
    assert_eq!(fetch_plan(false, true, false), FetchPlan::Media);
    assert_eq!(fetch_plan(true, false, false), FetchPlan::Media);
}

#[test]
fn download_retry_steps() {
    let mut r = DownloadRetry::new();
    match r.step("K", Ok(vec![1, 2, 3])) {
        DownloadStep::Done(d) => assert_eq!(d, vec![1, 2, 3]),
        other => panic!("unexpected {other:?}"),
    }
    assert_eq!(r.non_rate_failures, 0);
    assert!(matches!(r.step("K", Err(ImagoError::SessionDead)), DownloadStep::GiveUp(ImagoError::SessionDead)));
    assert!(matches!(r.step("K", Err(ImagoError::RateLimited("x".into()))), DownloadStep::Wait(240)));
    assert_eq!(r.attempt, 1);
    assert!(matches!(r.step("K", Ok(vec![])), DownloadStep::Wait(5)));
    assert_eq!(r.non_rate_failures, 1);
    assert!(matches!(r.step("K", Err(ImagoError::Network("x".into()))), DownloadStep::Wait(60)));
    assert_eq!(r.non_rate_failures, 2);
}

#[test]
fn download_retry_gives_up_after_fifteen() {
    let mut r = DownloadRetry::new();
    let mut last = None;
    while r.non_rate_failures < MAX_NON_RATE_FAILURES {
        last = Some(r.step("K", Ok(vec![])));
    }
    match last {
        Some(DownloadStep::GiveUp(ImagoError::Network(msg))) => {
            assert_eq!(msg, "empty body for K after 15 tries")
        }
        other => panic!("unexpected {other:?}"),
    }
    let mut r = DownloadRetry::new();
    let mut last = None;
    while r.non_rate_failures < MAX_NON_RATE_FAILURES {
        last = Some(r.step("K", Err(ImagoError::Parse("bad".into()))));
    }
    assert!(matches!(last, Some(DownloadStep::GiveUp(ImagoError::Parse(_)))));
}

#[test]
fn download_outcomes() {
    assert!(matches!(classify_download(Ok(vec![1])), SaveDecision::Save(b) if b == vec![1]));
    assert!(matches!(classify_download(Ok(vec![])), SaveDecision::Failed));
    assert!(matches!(classify_download(Err(ImagoError::SessionDead)), SaveDecision::Abort));
    assert!(matches!(classify_download(Err(ImagoError::Network("x".into()))), SaveDecision::Failed));
}

#[test]
fn resuming_jobs() {
    let fresh = ArchiveRun::resume(None, false);
    assert_eq!(fresh.user_id, "");
    assert!(fresh.cursor.is_none());
    assert!(fresh.seeds_profile());

    let unfinished = job(false);
    let r = ArchiveRun::resume(Some(&unfinished), false);
    assert_eq!(r.cursor.as_deref(), Some("CUR"));
    assert_eq!(r.pages_done, 4);
    assert_eq!(r.downloaded, 40);
    assert_eq!(r.skipped, 2);
    assert!(!r.seeds_profile());

    let done = job(true);
    let r = ArchiveRun::resume(Some(&done), false);
    assert_eq!(r.user_id, "42");
    assert!(r.cursor.is_none());
    assert_eq!(r.downloaded, 0);
    let forced = ArchiveRun::resume(Some(&done), true);
    assert_eq!(forced.cursor.as_deref(), Some("CUR"));
    assert_eq!(forced.downloaded, 40);
}

#[test]
fn run_bookkeeping() {
    let mut run = ArchiveRun::resume(None, false);
    assert!(run.wants_page(None));
    assert!(run.wants_page(Some(1)));
    run.adopt_user_id(&"42".to_string());
    assert_eq!(run.user_id, "42");
    run.adopt_user_id(&"99".to_string());
    assert_eq!(run.user_id, "42");
    run.note_saved();
    run.note_saved();
    run.note_failed();
    run.finish_page(Some("c1".to_string()));
    assert_eq!(run.pages_done, 1);
    assert!(!run.wants_page(Some(1)));
    assert!(run.continues(true));
    assert!(!run.continues(false));
    let j = run.job_state("zuck", "t1".to_string());
    assert_eq!(j.pages_done, 1);
    assert_eq!(j.assets_downloaded, 2);
    assert!(!j.completed);
    let c = run.complete_job(j, "t2".to_string());
    assert!(c.completed);
    assert_eq!(c.updated_at, "t2");
    let report = run.report("zuck", "/out".to_string(), 7);
    assert!(!report.ok);
    assert_eq!(report.command, "get");
    assert_eq!(report.assets_downloaded, 2);
    assert_eq!(report.assets_failed, 1);
    assert_eq!(exit_code_for(&report), EXIT_PARTIAL);
    run.finish_page(None);
    assert!(!run.continues(true));
    let clean = ArchiveRun::resume(None, false).report("z", "/o".to_string(), 0);
    assert!(clean.ok);
    assert_eq!(exit_code_for(&clean), EXIT_OK);
}

#[test]
fn selects_only_missing_assets() {
    let store = Store::from_keys("/a/zuck".to_string(), vec!["A".to_string(), "C".to_string()]);
    let mut run = ArchiveRun::resume(None, false);
    let chosen = run.select_downloads(&store, vec![asset("A", "A"), asset("B", "B"), asset("C", "C"), asset("D", "D")]);
    let keys: Vec<&str> = chosen.iter().map(|a| a.key.as_str()).collect();
    assert_eq!(keys, vec!["B", "D"]);
    assert_eq!(run.skipped, 2);
}

#[test]
fn early_stop_after_known_posts() {
    let store = Store::from_keys(
        "/a/zuck".to_string(),
        vec!["P1".to_string(), "P2_00".to_string(), "P3_00".to_string(), "P3_01".to_string()],
    );
    let mut run = ArchiveRun::resume(None, false);
    let p = page(&["P1", "P2", "P3"], vec![asset("P3_00", "P3"), asset("P3_01", "P3")]);
    run.scan_known(&store, &p, 0);
    assert_eq!(run.consecutive_known, 0);
    run.scan_known(&store, &p, 5);
    assert_eq!(run.consecutive_known, 3);
    assert!(!run.early_stopped);
    run.scan_known(&store, &p, 5);
    assert_eq!(run.consecutive_known, 6);
    assert!(run.early_stopped);

    let mut run = ArchiveRun::resume(None, false);
    let mixed = page(&["P1", "NEW"], vec![asset("NEW", "NEW")]);
    run.scan_known(&store, &mixed, 1);
    assert_eq!(run.consecutive_known, 0);
    assert!(!run.early_stopped);
}

#[test]
fn media_count_follows_pages() {
    let mut meta = ArchiveMetadata::new("zuck", "42");
    update_media_count(&mut meta, Some(12));
    assert_eq!(meta.media_count, Some(12));
    update_media_count(&mut meta, None);
    assert_eq!(meta.media_count, Some(12));
}

#[test]
fn default_options() {
    let o = ArchiveOpts::default();
    assert!(!o.force);
    assert!(!o.json);
    assert!(o.output.is_none());
    assert_eq!(o.early_stop_known_posts, 0);
    assert!(o.max_pages.is_none());
}

#[test]
fn saved_assets_are_not_fetched_again() {
    let mut store = Store::from_keys("/a/zuck".to_string(), vec!["A".to_string()]);
    let mut run = ArchiveRun::resume(None, false);
    let first = run.select_downloads(&store, vec![asset("A", "A"), asset("B", "B"), asset("C", "C")]);
    assert_eq!(first.len(), 2);
    for a in &first {
        store.mark_saved(a.key.clone());
    }
    let second = run.select_downloads(&store, vec![asset("A", "A"), asset("B", "B"), asset("C", "C")]);
    assert!(second.is_empty());
    assert_eq!(run.skipped, 1 + 3);
}

#[test]
fn resuming_a_saved_job_continues_the_run() {
    let mut run = ArchiveRun::resume(None, false);
    run.adopt_user_id(&"42".to_string());
    run.note_saved();
    run.finish_page(Some("c1".to_string()));
    let saved = run.job_state("zuck", "t1".to_string());
    let again = ArchiveRun::resume(Some(&saved), false);
    assert_eq!(again.user_id, run.user_id);
    assert_eq!(again.cursor, run.cursor);
    assert_eq!(again.pages_done, run.pages_done);
    assert_eq!(again.downloaded, run.downloaded);
    assert_eq!(again.skipped, run.skipped);

    let done = run.complete_job(saved, "t2".to_string());
    let next = ArchiveRun::resume(Some(&done), false);
    assert_eq!(next.user_id, "42");
    assert!(next.cursor.is_none());
    assert_eq!(next.pages_done, 0);
    assert_eq!(next.downloaded, 0);
}

#[test]
fn options_of_get_and_sync() {
    let g = ArchiveOpts::for_get(true, false, Some("/o".to_string()));
    assert!(g.force);
    assert_eq!(g.early_stop_known_posts, 0);
    assert_eq!(g.output.as_deref(), Some("/o"));
    let s = ArchiveOpts::for_sync(true, false, None);
    assert!(!s.force && s.json);
    assert_eq!(s.early_stop_known_posts, 12);
    assert_eq!(ArchiveOpts::for_sync(false, true, None).early_stop_known_posts, 0);
    assert!(s.max_pages.is_none());
}
