use imago::appdata::{
    app_config_dir, app_data_dir, config_file_path, credentials_path, job_path, join_path,
    jobs_dir, log_file_path, logs_dir, watchlist_path, APP,
};
use imago::auth::{
    accept_stored, check_storable, explicit_credentials, from_pair, no_credentials, Credentials,
};
use imago::config::{
    default_concurrency, default_output, default_rpm, default_user_agent, Config,
};
use imago::error::{
    probe_says_dead, ImagoError, EXIT_AUTH, EXIT_OK, EXIT_PARTIAL, EXIT_UNEXPECTED, EXIT_USAGE,
};

const SESSION: &str = "192008031%3AabcdefghijklmnopQR";
const CSRF: &str = "csrf1234";

fn some(s: &str) -> Option<String> {
    Some(s.to_string())
}

#[test]
fn exit_codes_by_error_kind() {
    assert_eq!(EXIT_OK, 0);
    assert_eq!(EXIT_PARTIAL, 3);
    assert_eq!(ImagoError::Usage("x".into()).exit_code(), EXIT_USAGE);
    assert_eq!(ImagoError::Auth("x".into()).exit_code(), EXIT_AUTH);
    assert_eq!(ImagoError::SessionDead.exit_code(), EXIT_AUTH);
    assert_eq!(ImagoError::RateLimited("x".into()).exit_code(), EXIT_UNEXPECTED);
    assert_eq!(ImagoError::NotFound("x".into()).exit_code(), EXIT_UNEXPECTED);
    assert_eq!(ImagoError::Io("x".into()).exit_code(), 10);
}

#[test]
fn error_messages() {
    assert_eq!(ImagoError::Usage("bad".into()).message(), "bad");
    assert_eq!(ImagoError::Auth("no".into()).message(), "authentication failed: no");
    assert_eq!(
        ImagoError::SessionDead.message(),
        "session expired or invalid — run: imago auth login"
    );
    assert_eq!(ImagoError::RateLimited("429".into()).message(), "rate limited by Instagram: 429");
    assert_eq!(ImagoError::NotFound("zuck".into()).message(), "profile not found: zuck");
    assert_eq!(ImagoError::Network("down".into()).message(), "network error: down");
    assert_eq!(ImagoError::Parse("eof".into()).message(), "parse error: eof");
    assert_eq!(ImagoError::Io("disk".into()).message(), "io error: disk");
    assert_eq!(ImagoError::Other("misc".into()).message(), "misc");
}

#[test]
fn probe_failures_that_mean_dead() {
    assert!(probe_says_dead(&ImagoError::SessionDead));
    assert!(probe_says_dead(&ImagoError::Auth("x".into())));
    assert!(!probe_says_dead(&ImagoError::Network("x".into())));
}

#[test]
fn credential_shape() {
    let good = Credentials { session_id: SESSION.into(), csrf_token: CSRF.into(), user_agent: None };
    assert!(good.is_valid_shape());
    let short = Credentials { session_id: "short".into(), csrf_token: CSRF.into(), user_agent: None };
    assert!(!short.is_valid_shape());
    let short_csrf =
        Credentials { session_id: SESSION.into(), csrf_token: "1234567".into(), user_agent: None };
    assert!(!short_csrf.is_valid_shape());
    assert!(check_storable(&good).is_ok());
    assert!(matches!(check_storable(&short), Err(ImagoError::Usage(_))));
    assert!(accept_stored(short).is_none());
    assert_eq!(accept_stored(good).unwrap().session_id, SESSION);
}

#[test]
fn explicit_sources_in_order() {
    let flags = explicit_credentials(
        some(SESSION), some(CSRF), some("E_____________________x"), some("ecsrf123"), some("UA"),
        None, None, None,
    )
    .unwrap();
    assert_eq!(flags.session_id, SESSION);
    assert_eq!(flags.user_agent, None);

    let env = explicit_credentials(
        some(SESSION), None, some("E_____________________x"), some("ecsrf123"), some("UA"),
        some(SESSION), some(CSRF), some("LUA"),
    )
    .unwrap();
    assert_eq!(env.session_id, "E_____________________x");
    assert_eq!(env.user_agent.as_deref(), Some("UA"));

    let legacy = explicit_credentials(
        None, None, some("short"), some("ecsrf123"), None, some(SESSION), some(CSRF), some("LUA"),
    )
    .unwrap();
    assert_eq!(legacy.csrf_token, CSRF);
    assert_eq!(legacy.user_agent.as_deref(), Some("LUA"));

    assert!(explicit_credentials(None, None, None, None, None, None, None, None).is_none());
    assert!(from_pair(some(SESSION), None, None).is_none());
    assert!(matches!(no_credentials(), ImagoError::Auth(_)));
}

#[test]
fn application_paths() {
    assert_eq!(APP, "imago");
    assert_eq!(join_path("/a", "b"), "/a/b");
    assert_eq!(join_path("/a/", "b"), "/a/b");
    assert_eq!(join_path("", "b"), "b");
    assert_eq!(join_path("/a", "/abs"), "/abs");
    assert_eq!(app_config_dir("/home/u/.config"), "/home/u/.config/imago");
    assert_eq!(app_data_dir("/home/u/.local/share"), "/home/u/.local/share/imago");
    let data = app_data_dir("/d");
    assert_eq!(logs_dir(&data), "/d/imago/logs");
    assert_eq!(jobs_dir(&data), "/d/imago/jobs");
    assert_eq!(watchlist_path(&data), "/d/imago/watchlist.json");
    assert_eq!(credentials_path("/c/imago"), "/c/imago/credentials.json");
    assert_eq!(config_file_path("/c/imago"), "/c/imago/config.yaml");
    assert_eq!(job_path("/d/imago/jobs", "zuck"), "/d/imago/jobs/zuck.json");
    assert_eq!(log_file_path("/d/imago/logs"), "/d/imago/logs/imago.log");
}

#[test]
fn config_defaults() {
    let c = Config::default();
    assert_eq!(c.output_dir, default_output());
    assert_eq!(c.output_dir, "./downloads");
    assert_eq!(c.requests_per_minute, default_rpm());
    assert_eq!(default_rpm(), 30);
    assert_eq!(c.concurrent_downloads, default_concurrency());
    assert_eq!(default_concurrency(), 3);
    assert_eq!(c.user_agent, default_user_agent());
    assert!(c.user_agent.starts_with("Mozilla/5.0"));
}

#[test]
fn download_concurrency_is_at_least_one() {
    let mut c = Config::default();
    assert_eq!(c.download_concurrency(), 3);
    c.concurrent_downloads = 0;
    assert_eq!(c.download_concurrency(), 1);
    c.concurrent_downloads = 8;
    assert_eq!(c.download_concurrency(), 8);
}
