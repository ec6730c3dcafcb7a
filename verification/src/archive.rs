//! The decisions of the archive loop: resuming a job, pacing and retrying
//! requests, the early-stop heuristic, which assets to download, the
//! bookkeeping of outcomes, and the final report. The caller performs the
//! requests, downloads, file writes and sleeps.

use vstd::prelude::*;
use crate::error::{ErrorView, ImagoError};
use crate::media::{Asset, AssetView, Page, assets_view, opt_view};
use crate::store::{JobState, JobView, Store};
use crate::text::{append_chars, decimal_chars, decimal_spec};

verus! {

/// What one archive run did.
#[derive(Debug)]
pub struct ArchiveReport {
    pub ok: bool,
    pub command: &'static str,
    pub username: String,
    pub user_id: String,
    pub assets_downloaded: u64,
    pub assets_skipped: u64,
    pub assets_failed: u64,
    pub output_dir: String,
    pub duration_ms: u64,
    pub early_stopped: bool,
}

/// How an archive run is asked for.
#[derive(Debug)]
pub struct ArchiveOpts {
    pub force: bool,
    pub json: bool,
    pub output: Option<String>,
    /// Stop after this many consecutive already-known posts (0 = never).
    pub early_stop_known_posts: u32,
    pub max_pages: Option<u32>,
}

impl Default for ArchiveOpts {
    fn default() -> (r: ArchiveOpts)
        ensures
            !r.force,
            !r.json,
            r.output is None,
            r.early_stop_known_posts == 0,
            r.max_pages is None,
    {
        ArchiveOpts {
            force: false,
            json: false,
            output: None,
            early_stop_known_posts: 0,
            max_pages: None,
        }
    }
}

impl ArchiveOpts {
    /// The options of `imago get`: forced or not, no early stop, no page
    /// limit.
    pub fn for_get(force: bool, json: bool, output: Option<String>) -> (r: ArchiveOpts)
        ensures
            r.force == force,
            r.json == json,
            r.output == output,
            r.early_stop_known_posts == 0,
            r.max_pages is None,
    {
        ArchiveOpts { force, json, output, early_stop_known_posts: 0, max_pages: None }
    }

    /// The options of each archive run of a watch sync: never forced, and
    /// stopping after 12 consecutive known posts unless a full re-scan is
    /// asked for.
    pub fn for_sync(json: bool, full: bool, output: Option<String>) -> (r: ArchiveOpts)
        ensures
            !r.force,
            r.json == json,
            r.output == output,
            r.early_stop_known_posts == (if full {
                0u32
            } else {
                12u32
            }),
            r.max_pages is None,
    {
        let early: u32 = if full {
            0
        } else {
            12
        };
        ArchiveOpts { force: false, json, output, early_stop_known_posts: early, max_pages: None }
    }
}

// ---------------------------------------------------------------------
// Pacing and retries
// ---------------------------------------------------------------------

/// The base and cap (seconds) of the backoff for an error: patient for
/// rate limits and authentication-looking soft blocks, shorter for network
/// errors and anything else.
pub open spec fn backoff_bounds(e: ErrorView) -> (u64, u64) {
    match e {
        ErrorView::RateLimited(_) => (120, 1800),
        ErrorView::Auth(_) => (180, 1800),
        ErrorView::Network(_) => (15, 600),
        _ => (20, 600),
    }
}

/// The wait before the next attempt, in seconds: the base doubled once per
/// attempt (at most six doublings), capped.
pub open spec fn backoff_spec(e: ErrorView, attempt: u32) -> u64 {
    let (base, cap) = backoff_bounds(e);
    let exp: nat = vstd::arithmetic::power2::pow2(if attempt < 6 {
        attempt as nat
    } else {
        6
    });
    if base * exp < cap {
        (base * exp) as u64
    } else {
        cap
    }
}

/// Exponential backoff in seconds (1, 2, 4, … times the base, capped at 30
/// minutes for rate limits and 10 minutes otherwise); retries never stop.
pub fn backoff_delay(err: &ImagoError, attempt: u32) -> (secs: u64)
    ensures
        secs == backoff_spec(err@, attempt),
{
    let (base_secs, cap_secs): (u64, u64) = match err {
        ImagoError::RateLimited(_) => (120, 1800),
        ImagoError::Auth(_) => (180, 1800),
        ImagoError::Network(_) => (15, 600),
        _ => (20, 600),
    };
    let shift: u32 = if attempt < 6 {
        attempt
    } else {
        6
    };
    let mut exp: u64 = 1;
    let mut k: u32 = 0;
    proof {
        vstd::arithmetic::power2::lemma2_to64();
    }
    while k < shift
        invariant
            k <= shift <= 6,
            exp as nat == vstd::arithmetic::power2::pow2(k as nat),
        decreases shift - k,
    {
        proof {
            vstd::arithmetic::power2::lemma_pow2_unfold((k + 1) as nat);
            vstd::arithmetic::power2::lemma_pow2_strictly_increases(k as nat, 6);
            vstd::arithmetic::power2::lemma2_to64();
        }
        exp = exp * 2;
        k += 1;
    }
    proof {
        vstd::arithmetic::power2::lemma2_to64();
        if shift < 6 {
            vstd::arithmetic::power2::lemma_pow2_strictly_increases(shift as nat, 6);
        }
    }
    assert(base_secs * exp <= 180 * 64) by (nonlinear_arith)
        requires
            base_secs <= 180,
            exp <= 64,
    ;
    let secs = base_secs * exp;
    if secs < cap_secs {
        secs
    } else {
        cap_secs
    }
}

/// The pause between pages, in milliseconds: a minute spread over the
/// requests per minute (at least one), never under half a second.
pub open spec fn page_delay_spec(rpm: u32) -> u64 {
    let r: u64 = if rpm < 1 {
        1
    } else {
        rpm as u64
    };
    if 60000u64 / r > 500 {
        60000u64 / r
    } else {
        500
    }
}

/// The polite pause between pages, in milliseconds.
pub fn page_delay(rpm: u32) -> (ms: u64)
    ensures
        ms == page_delay_spec(rpm),
        ms >= 500,
{
    let r: u64 = if rpm < 1 {
        1
    } else {
        rpm as u64
    };
    let q = 60000 / r;
    if q > 500 {
        q
    } else {
        500
    }
}

/// Errors a page fetch cannot wait out: a dead session, a missing profile,
/// bad input.
pub open spec fn fatal_for_pages(e: ErrorView) -> bool {
    e is SessionDead || e is NotFound || e is Usage
}

/// After a failed page fetch: either give up (the error is returned) or
/// wait the given number of seconds before attempt `attempt + 1`.
pub fn page_retry(err: &ImagoError, attempt: u32) -> (r: Option<(u32, u64)>)
    ensures
        fatal_for_pages(err@) ==> r is None,
        !fatal_for_pages(err@) ==> ({
            let next: u32 = if attempt == u32::MAX {
                u32::MAX
            } else {
                (attempt + 1) as u32
            };
            r == Some((next, backoff_spec(err@, next)))
        }),
{
    match err {
        ImagoError::SessionDead | ImagoError::NotFound(_) | ImagoError::Usage(_) => None,
        _ => {
            let next = attempt.saturating_add(1);
            Some((next, backoff_delay(err, next)))
        },
    }
}

/// Which requests fetch a page.
#[derive(Debug, PartialEq, Eq, Structural)]
pub enum FetchPlan {
    /// Only the profile page.
    Profile,
    /// The profile page for the user id, then the media page after the
    /// cursor.
    ProfileThenMedia,
    /// The media page of the known user id (after the cursor, if any).
    Media,
}

/// How a page is fetched: the profile seeds the first page; without a
/// user id the profile supplies it (and is the page itself when there is
/// no cursor); otherwise the media endpoint.
pub fn fetch_plan(seed_profile: bool, cursor_is_none: bool, user_id_empty: bool) -> (p: FetchPlan)
    ensures
        cursor_is_none && (seed_profile || user_id_empty) ==> p == FetchPlan::Profile,
        !cursor_is_none && user_id_empty ==> p == FetchPlan::ProfileThenMedia,
        !(seed_profile && cursor_is_none) && !user_id_empty ==> p == FetchPlan::Media,
{
    if seed_profile && cursor_is_none {
        FetchPlan::Profile
    } else if user_id_empty {
        if cursor_is_none {
            FetchPlan::Profile
        } else {
            FetchPlan::ProfileThenMedia
        }
    } else {
        FetchPlan::Media
    }
}

/// What to do after one download attempt.
#[derive(Debug)]
pub enum DownloadStep {
    /// The bytes arrived.
    Done(Vec<u8>),
    /// Stop trying this asset with this error.
    GiveUp(ImagoError),
    /// Wait this many seconds, then try again.
    Wait(u64),
}

/// Attempts so far for one asset: soft blocks (rate limits and
/// authentication-looking errors) are retried without limit; other
/// failures at most 15 times.
#[derive(Debug)]
pub struct DownloadRetry {
    pub attempt: u32,
    pub non_rate_failures: u32,
}

/// The most failures other than soft blocks an asset may have.
pub const MAX_NON_RATE_FAILURES: u32 = 15;

impl DownloadRetry {
    /// No attempts yet.
    pub fn new() -> (r: DownloadRetry)
        ensures
            r.attempt == 0,
            r.non_rate_failures == 0,
    {
        DownloadRetry { attempt: 0, non_rate_failures: 0 }
    }

    /// Decide after one download attempt of the asset keyed `key`.
    pub fn step(&mut self, key: &str, result: Result<Vec<u8>, ImagoError>) -> (r: DownloadStep)
        requires
            old(self).non_rate_failures < MAX_NON_RATE_FAILURES,
        ensures
            final(self).non_rate_failures <= MAX_NON_RATE_FAILURES,
            (r is Wait) ==> final(self).non_rate_failures < MAX_NON_RATE_FAILURES,
            match result {
                Ok(data) => if data@.len() > 0 {
                    (r matches DownloadStep::Done(d) && d@ == data@) && *final(self) == *old(self)
                } else {
                    &&& final(self).non_rate_failures == old(self).non_rate_failures + 1
                    &&& final(self).attempt == old(self).attempt
                    &&& if final(self).non_rate_failures >= MAX_NON_RATE_FAILURES {
                        r matches DownloadStep::GiveUp(e) && e@ == ErrorView::Network(
                            "empty body for "@ + key@ + " after "@ + decimal_spec(
                                final(self).non_rate_failures as nat,
                            ) + " tries"@,
                        )
                    } else {
                        r matches DownloadStep::Wait(s) && s == 5
                    }
                },
                Err(e) => match e@ {
                    ErrorView::SessionDead => (r matches DownloadStep::GiveUp(g) && g@
                        == ErrorView::SessionDead) && *final(self) == *old(self),
                    ErrorView::RateLimited(_) | ErrorView::Auth(_) => {
                        let next: u32 = if old(self).attempt == u32::MAX {
                            u32::MAX
                        } else {
                            (old(self).attempt + 1) as u32
                        };
                        &&& final(self).attempt == next
                        &&& final(self).non_rate_failures == old(self).non_rate_failures
                        &&& r matches DownloadStep::Wait(s) && s == backoff_spec(e@, next)
                    },
                    _ => {
                        &&& final(self).non_rate_failures == old(self).non_rate_failures + 1
                        &&& final(self).attempt == old(self).attempt
                        &&& if final(self).non_rate_failures >= MAX_NON_RATE_FAILURES {
                            r matches DownloadStep::GiveUp(g) && g@ == e@
                        } else {
                            r matches DownloadStep::Wait(s) && s == backoff_spec(
                                e@,
                                final(self).non_rate_failures,
                            )
                        }
                    },
                },
            },
    {
        match result {
            Ok(data) => {
                if data.len() > 0 {
                    return DownloadStep::Done(data);
                }
                self.non_rate_failures = self.non_rate_failures + 1;
                if self.non_rate_failures >= MAX_NON_RATE_FAILURES {
                    let mut msg = String::from_str("empty body for ");
                    msg.append(key);
                    msg.append(" after ");
                    let d = decimal_chars(self.non_rate_failures as u64);
                    append_chars(&mut msg, d.as_slice());
                    msg.append(" tries");
                    return DownloadStep::GiveUp(ImagoError::Network(msg));
                }
                DownloadStep::Wait(5)
            },
            Err(e) => {
                match e {
                    ImagoError::SessionDead => DownloadStep::GiveUp(ImagoError::SessionDead),
                    ImagoError::RateLimited(_) | ImagoError::Auth(_) => {
                        self.attempt = self.attempt.saturating_add(1);
                        DownloadStep::Wait(backoff_delay(&e, self.attempt))
                    },
                    _ => {
                        self.non_rate_failures = self.non_rate_failures + 1;
                        if self.non_rate_failures >= MAX_NON_RATE_FAILURES {
                            return DownloadStep::GiveUp(e);
                        }
                        let w = backoff_delay(&e, self.non_rate_failures);
                        DownloadStep::Wait(w)
                    },
                }
            },
        }
    }
}

} // verus!

verus! {

// ---------------------------------------------------------------------
// The run
// ---------------------------------------------------------------------

/// The progress of an archive run.
#[derive(Debug)]
pub struct ArchiveRun {
    pub user_id: String,
    pub cursor: Option<String>,
    pub pages_done: u32,
    pub downloaded: u64,
    pub skipped: u64,
    pub failed: u64,
    pub early_stopped: bool,
    pub consecutive_known: u32,
}

/// The progress of a run as a mathematical value.
pub struct RunView {
    pub user_id: Seq<char>,
    pub cursor: Option<Seq<char>>,
    pub pages_done: u32,
    pub downloaded: u64,
    pub skipped: u64,
    pub failed: u64,
    pub early_stopped: bool,
    pub consecutive_known: u32,
}

impl View for ArchiveRun {
    type V = RunView;

    open spec fn view(&self) -> RunView {
        RunView {
            user_id: self.user_id@,
            cursor: opt_view(self.cursor),
            pages_done: self.pages_done,
            downloaded: self.downloaded,
            skipped: self.skipped,
            failed: self.failed,
            early_stopped: self.early_stopped,
            consecutive_known: self.consecutive_known,
        }
    }
}

/// Where a run starts: a completed job (unless forced) restarts from the
/// newest posts with its user id and fresh counts; another job resumes at
/// its cursor with its page count and asset counts; without a job, from
/// scratch. Nothing has failed, stopped early or been seen yet.
pub open spec fn resumed(job: Option<JobView>, force: bool) -> RunView {
    match job {
        Some(j) => if j.completed && !force {
            RunView {
                user_id: j.user_id,
                cursor: None,
                pages_done: 0,
                downloaded: 0,
                skipped: 0,
                failed: 0,
                early_stopped: false,
                consecutive_known: 0,
            }
        } else {
            RunView {
                user_id: j.user_id,
                cursor: j.end_cursor,
                pages_done: j.pages_done,
                downloaded: j.assets_downloaded,
                skipped: j.assets_skipped,
                failed: 0,
                early_stopped: false,
                consecutive_known: 0,
            }
        },
        None => RunView {
            user_id: Seq::empty(),
            cursor: None,
            pages_done: 0,
            downloaded: 0,
            skipped: 0,
            failed: 0,
            early_stopped: false,
            consecutive_known: 0,
        },
    }
}

/// The job state saved after a page: version 1, not completed, with the
/// run's user id, cursor and counts.
pub open spec fn saved_job(run: RunView, username: Seq<char>, updated_at: Seq<char>) -> JobView {
    JobView {
        version: 1,
        username: username,
        user_id: run.user_id,
        end_cursor: run.cursor,
        pages_done: run.pages_done,
        assets_downloaded: run.downloaded,
        assets_skipped: run.skipped,
        completed: false,
        updated_at: updated_at,
    }
}

/// The last job state of a run: the saved job marked completed, with the
/// run's final asset counts.
pub open spec fn completed_job(run: RunView, job: JobView, updated_at: Seq<char>) -> JobView {
    JobView {
        completed: true,
        assets_downloaded: run.downloaded,
        assets_skipped: run.skipped,
        updated_at: updated_at,
        ..job
    }
}

/// A post counts as known when its shortcode, or its first carousel key,
/// is present, or when every asset of the page with that shortcode is.
pub open spec fn post_known(keys: Set<Seq<char>>, pk: Seq<char>, assets: Seq<AssetView>) -> bool {
    keys.contains(pk) || keys.contains(pk + "_00"@) || forall|i: int|
        0 <= i < assets.len() && assets[i].shortcode == pk ==> keys.contains(
            #[trigger] assets[i].key,
        )
}

/// Scanning post keys in order: the run of consecutive known posts and
/// whether all were known.
pub open spec fn scan_posts(
    keys: Set<Seq<char>>,
    pks: Seq<Seq<char>>,
    assets: Seq<AssetView>,
    run: nat,
    all_known: bool,
) -> (nat, bool)
    decreases pks.len(),
{
    if pks.len() == 0 {
        (run, all_known)
    } else {
        let k = post_known(keys, pks[0], assets);
        scan_posts(
            keys,
            pks.drop_first(),
            assets,
            if k {
                run + 1
            } else {
                0
            },
            all_known && k,
        )
    }
}

/// The assets whose keys are not present, in order.
pub open spec fn missing_assets(keys: Set<Seq<char>>, assets: Seq<AssetView>) -> Seq<AssetView>
    decreases assets.len(),
{
    if assets.len() == 0 {
        Seq::empty()
    } else {
        let rest = missing_assets(keys, assets.drop_last());
        if keys.contains(assets.last().key) {
            rest
        } else {
            rest.push(assets.last())
        }
    }
}

/// What to do with one download result.
#[derive(Debug)]
pub enum SaveDecision {
    /// Write these bytes to the archive.
    Save(Vec<u8>),
    /// Count the asset as failed and go on.
    Failed,
    /// The session is dead: stop the run.
    Abort,
}

/// A download result becomes a file to save (non-empty bytes), a failure
/// (empty bytes or any error but a dead session) or the end of the run.
pub fn classify_download(result: Result<Vec<u8>, ImagoError>) -> (d: SaveDecision)
    ensures
        match result {
            Ok(data) => if data@.len() > 0 {
                d matches SaveDecision::Save(b) && b@ == data@
            } else {
                d is Failed
            },
            Err(e) => if e@ is SessionDead {
                d is Abort
            } else {
                d is Failed
            },
        },
{
    match result {
        Ok(data) => if data.len() > 0 {
            SaveDecision::Save(data)
        } else {
            SaveDecision::Failed
        },
        Err(ImagoError::SessionDead) => SaveDecision::Abort,
        Err(_) => SaveDecision::Failed,
    }
}

impl ArchiveRun {
    /// Where a run starts: a completed job restarts incrementally from the
    /// newest posts with its user id; an unfinished one resumes at its
    /// cursor with its counts; without a job (or when forced) from scratch.
    pub fn resume(job: Option<&JobState>, force: bool) -> (r: ArchiveRun)
        ensures
            r@ == resumed(
                match job {
                    Some(j) => Some(j@),
                    None => None,
                },
                force,
            ),
    {
        match job {
            Some(j) => {
                if j.completed && !force {
                    ArchiveRun {
                        user_id: j.user_id.clone(),
                        cursor: None,
                        pages_done: 0,
                        downloaded: 0,
                        skipped: 0,
                        failed: 0,
                        early_stopped: false,
                        consecutive_known: 0,
                    }
                } else {
                    let cursor = match &j.end_cursor {
                        Some(c) => Some(c.clone()),
                        None => None,
                    };
                    ArchiveRun {
                        user_id: j.user_id.clone(),
                        cursor: cursor,
                        pages_done: j.pages_done,
                        downloaded: j.assets_downloaded,
                        skipped: j.assets_skipped,
                        failed: 0,
                        early_stopped: false,
                        consecutive_known: 0,
                    }
                }
            },
            None => ArchiveRun {
                user_id: String::new(),
                cursor: None,
                pages_done: 0,
                downloaded: 0,
                skipped: 0,
                failed: 0,
                early_stopped: false,
                consecutive_known: 0,
            },
        }
    }

    /// Whether another page may be fetched under the page limit.
    pub fn wants_page(&self, max_pages: Option<u32>) -> (r: bool)
        ensures
            r == (match max_pages {
                Some(m) => self.pages_done < m,
                None => true,
            }),
    {
        match max_pages {
            Some(m) => self.pages_done < m,
            None => true,
        }
    }

    /// Whether the next page is seeded from the profile (first page, no
    /// cursor).
    pub fn seeds_profile(&self) -> (r: bool)
        ensures
            r == (self.pages_done == 0 && self.cursor is None),
    {
        self.pages_done == 0 && self.cursor.is_none()
    }

    /// Take the user id from a page when the run has none yet.
    pub fn adopt_user_id(&mut self, page_user_id: &String)
        ensures
            old(self).user_id@.len() == 0 ==> final(self).user_id@ == page_user_id@,
            old(self).user_id@.len() > 0 ==> final(self).user_id == old(self).user_id,
            final(self).cursor == old(self).cursor,
            final(self).pages_done == old(self).pages_done,
            final(self).downloaded == old(self).downloaded,
            final(self).skipped == old(self).skipped,
            final(self).failed == old(self).failed,
            final(self).early_stopped == old(self).early_stopped,
            final(self).consecutive_known == old(self).consecutive_known,
    {
        if self.user_id.as_str().is_empty() {
            self.user_id = page_user_id.clone();
        }
    }

    /// The early-stop heuristic (for incremental syncs): count consecutive
    /// known posts across pages; when every post of a non-empty page is
    /// known and the run reaches `threshold`, the run stops after this
    /// page. A threshold of 0 disables it.
    pub fn scan_known(&mut self, store: &Store, page: &Page, threshold: u32)
        requires
            old(self).consecutive_known + page.post_keys@.len() <= u32::MAX,
        ensures
            threshold == 0 ==> *final(self) == *old(self),
            threshold > 0 ==> {
                let (run, all) = scan_posts(
                    store.keys(),
                    crate::media::strings_view(page.post_keys@),
                    assets_view(page.assets@),
                    old(self).consecutive_known as nat,
                    page.post_keys@.len() > 0,
                );
                &&& final(self).consecutive_known == run
                &&& final(self).early_stopped == (old(self).early_stopped || (all && run
                    >= threshold))
                &&& final(self).user_id == old(self).user_id
                &&& final(self).cursor == old(self).cursor
                &&& final(self).pages_done == old(self).pages_done
                &&& final(self).downloaded == old(self).downloaded
                &&& final(self).skipped == old(self).skipped
                &&& final(self).failed == old(self).failed
            },
    {
        if threshold == 0 {
            return;
        }
        let ghost keys = store.keys();
        let ghost pks = crate::media::strings_view(page.post_keys@);
        let ghost av = assets_view(page.assets@);
        let mut all_known = page.post_keys.len() > 0;
        let mut run: u32 = self.consecutive_known;
        let mut i: usize = 0;
        assert(pks.skip(0) =~= pks);
        while i < page.post_keys.len()
            invariant
                keys == store.keys(),
                pks == crate::media::strings_view(page.post_keys@),
                av == assets_view(page.assets@),
                i <= page.post_keys.len(),
                run <= old(self).consecutive_known + i,
                old(self).consecutive_known + page.post_keys@.len() <= u32::MAX,
                scan_posts(keys, pks, av, old(self).consecutive_known as nat, page.post_keys@.len() > 0)
                    == scan_posts(keys, pks.skip(i as int), av, run as nat, all_known),
            decreases page.post_keys.len() - i,
        {
            assert(pks.skip(i as int).drop_first() =~= pks.skip(i + 1));
            assert(pks.skip(i as int)[0] == page.post_keys@[i as int]@);
            let known = self.post_is_known(store, page, &page.post_keys[i]);
            if known {
                run = run + 1;
            } else {
                run = 0;
                all_known = false;
            }
            i += 1;
        }
        assert(pks.skip(i as int) =~= Seq::<Seq<char>>::empty());
        self.consecutive_known = run;
        if all_known && run >= threshold {
            self.early_stopped = true;
        }
    }

    fn post_is_known(&self, store: &Store, page: &Page, pk: &String) -> (r: bool)
        ensures
            r == post_known(store.keys(), pk@, assets_view(page.assets@)),
    {
        if store.has(pk.as_str()) {
            return true;
        }
        let mut first = pk.clone();
        first.append("_00");
        if store.has(first.as_str()) {
            return true;
        }
        let ghost av = assets_view(page.assets@);
        let mut i: usize = 0;
        while i < page.assets.len()
            invariant
                av == assets_view(page.assets@),
                i <= page.assets.len(),
                !store.keys().contains(pk@),
                !store.keys().contains(pk@ + "_00"@),
                forall|j: int|
                    0 <= j < i && av[j].shortcode == pk@ ==> store.keys().contains(
                        #[trigger] av[j].key,
                    ),
            decreases page.assets.len() - i,
        {
            let a = &page.assets[i];
            assert(av[i as int] == a@);
            if crate::json::same_text(a.shortcode.as_str(), crate::text::chars_of(pk.as_str()).as_slice()) {
                if !store.has(a.key.as_str()) {
                    assert(av[i as int].shortcode == pk@ && !store.keys().contains(av[i as int].key));
                    return false;
                }
            }
            i += 1;
        }
        true
    }

    /// Split a page's assets into those to download (keys not present, in
    /// order) and skipped ones, which are counted.
    pub fn select_downloads(&mut self, store: &Store, assets: Vec<Asset>) -> (r: Vec<Asset>)
        requires
            old(self).skipped + assets@.len() <= u64::MAX,
        ensures
            assets_view(r@) == missing_assets(store.keys(), assets_view(assets@)),
            final(self).skipped == old(self).skipped + (assets@.len() - r@.len()),
            final(self).user_id == old(self).user_id,
            final(self).cursor == old(self).cursor,
            final(self).pages_done == old(self).pages_done,
            final(self).downloaded == old(self).downloaded,
            final(self).failed == old(self).failed,
            final(self).early_stopped == old(self).early_stopped,
            final(self).consecutive_known == old(self).consecutive_known,
    {
        let ghost av = assets_view(assets@);
        let ghost keys = store.keys();
        let mut out: Vec<Asset> = Vec::new();
        let mut rest = assets;
        let ghost all = rest@;
        let n = rest.len();
        let mut skipped: u64 = 0;
        let mut i: usize = 0;
        assert(av.take(0) =~= Seq::<AssetView>::empty());
        while i < n
            invariant
                keys == store.keys(),
                n == all.len(),
                av == assets_view(all),
                i <= n,
                rest@.len() == n - i,
                forall|k: int| 0 <= k < rest@.len() ==> rest@[k] == all[k + i],
                assets_view(out@) == missing_assets(keys, av.take(i as int)),
                skipped + out@.len() == i,
                old(self).skipped + n <= u64::MAX,
            decreases n - i,
        {
            let a = rest.remove(0);
            assert(a == all[i as int]);
            assert(av.take(i + 1).drop_last() =~= av.take(i as int));
            assert(av.take(i + 1).last() == a@);
            if store.has(a.key.as_str()) {
                skipped = skipped + 1;
            } else {
                out.push(a);
                assert(assets_view(out@) =~= missing_assets(keys, av.take(i + 1)));
            }
            i += 1;
        }
        assert(av.take(n as int) =~= av);
        self.skipped = self.skipped + skipped;
        out
    }

    /// Count a saved asset.
    pub fn note_saved(&mut self)
        requires
            old(self).downloaded < u64::MAX,
        ensures
            final(self).downloaded == old(self).downloaded + 1,
            final(self).skipped == old(self).skipped,
            final(self).failed == old(self).failed,
            final(self).pages_done == old(self).pages_done,
            final(self).user_id == old(self).user_id,
            final(self).cursor == old(self).cursor,
            final(self).early_stopped == old(self).early_stopped,
            final(self).consecutive_known == old(self).consecutive_known,
    {
        self.downloaded = self.downloaded + 1;
    }

    /// Count a failed asset.
    pub fn note_failed(&mut self)
        requires
            old(self).failed < u64::MAX,
        ensures
            final(self).failed == old(self).failed + 1,
            final(self).downloaded == old(self).downloaded,
            final(self).skipped == old(self).skipped,
            final(self).pages_done == old(self).pages_done,
            final(self).user_id == old(self).user_id,
            final(self).cursor == old(self).cursor,
            final(self).early_stopped == old(self).early_stopped,
            final(self).consecutive_known == old(self).consecutive_known,
    {
        self.failed = self.failed + 1;
    }

    /// A page is done: count it and move the cursor to its end.
    pub fn finish_page(&mut self, end_cursor: Option<String>)
        requires
            old(self).pages_done < u32::MAX,
        ensures
            final(self).pages_done == old(self).pages_done + 1,
            final(self).cursor == end_cursor,
            final(self).downloaded == old(self).downloaded,
            final(self).skipped == old(self).skipped,
            final(self).failed == old(self).failed,
            final(self).user_id == old(self).user_id,
            final(self).early_stopped == old(self).early_stopped,
            final(self).consecutive_known == old(self).consecutive_known,
    {
        self.pages_done = self.pages_done + 1;
        self.cursor = end_cursor;
    }

    /// Whether the run goes on after a page: not early-stopped, the page
    /// says more follow, and there is a cursor.
    pub fn continues(&self, has_next: bool) -> (r: bool)
        ensures
            r == (!self.early_stopped && has_next && self.cursor is Some),
    {
        !(self.early_stopped || !has_next || self.cursor.is_none())
    }

    /// The job state persisted after each page (not completed).
    pub fn job_state(&self, username: &str, updated_at: String) -> (j: JobState)
        ensures
            j@ == saved_job(self@, username@, updated_at@),
    {
        let cursor = match &self.cursor {
            Some(c) => Some(c.clone()),
            None => None,
        };
        JobState {
            version: 1,
            username: String::from_str(username),
            user_id: self.user_id.clone(),
            end_cursor: cursor,
            pages_done: self.pages_done,
            assets_downloaded: self.downloaded,
            assets_skipped: self.skipped,
            completed: false,
            updated_at: updated_at,
        }
    }

    /// The last job state of the run, marked completed with the final
    /// counts.
    pub fn complete_job(&self, job: JobState, updated_at: String) -> (j: JobState)
        ensures
            j@ == completed_job(self@, job@, updated_at@),
    {
        let mut j = job;
        j.completed = true;
        j.assets_downloaded = self.downloaded;
        j.assets_skipped = self.skipped;
        j.updated_at = updated_at;
        j
    }

    /// The report of the run: ok exactly when no asset failed.
    pub fn report(&self, username: &str, output_dir: String, duration_ms: u64) -> (r: ArchiveReport)
        ensures
            r.ok == (self.failed == 0),
            r.command@ == "get"@,
            r.username@ == username@,
            r.user_id@ == self.user_id@,
            r.assets_downloaded == self.downloaded,
            r.assets_skipped == self.skipped,
            r.assets_failed == self.failed,
            r.output_dir == output_dir,
            r.duration_ms == duration_ms,
            r.early_stopped == self.early_stopped,
    {
        ArchiveReport {
            ok: self.failed == 0,
            command: "get",
            username: String::from_str(username),
            user_id: self.user_id.clone(),
            assets_downloaded: self.downloaded,
            assets_skipped: self.skipped,
            assets_failed: self.failed,
            output_dir: output_dir,
            duration_ms: duration_ms,
            early_stopped: self.early_stopped,
        }
    }
}

/// The media count of the metadata follows the page's when it has one.
pub fn update_media_count(meta: &mut crate::store::ArchiveMetadata, count: Option<u64>)
    ensures
        count is Some ==> final(meta).media_count == count,
        count is None ==> final(meta).media_count == old(meta).media_count,
        final(meta).assets == old(meta).assets,
        final(meta).downloaded == old(meta).downloaded,
        final(meta).version == old(meta).version,
        final(meta).username == old(meta).username,
        final(meta).user_id == old(meta).user_id,
{
    if count.is_some() {
        meta.media_count = count;
    }
}

} // verus!

verus! {

/// The backoff never shrinks as attempts grow.
pub proof fn lemma_backoff_monotone(e: ErrorView, a: u32, b: u32)
    requires
        a <= b,
    ensures
        backoff_spec(e, a) <= backoff_spec(e, b),
{
    let ea: nat = if a < 6 {
        a as nat
    } else {
        6
    };
    let eb: nat = if b < 6 {
        b as nat
    } else {
        6
    };
    if ea < eb {
        vstd::arithmetic::power2::lemma_pow2_strictly_increases(ea, eb);
    }
    let (base, cap) = backoff_bounds(e);
    let pa = vstd::arithmetic::power2::pow2(ea);
    let pb = vstd::arithmetic::power2::pow2(eb);
    assert(base * pa <= base * pb) by (nonlinear_arith)
        requires
            pa <= pb,
    ;
}

/// The backoff lies between the base delay and the cap of its error.
pub proof fn lemma_backoff_bounded(e: ErrorView, attempt: u32)
    ensures
        backoff_bounds(e).0 <= backoff_spec(e, attempt) <= backoff_bounds(e).1,
{
    let ex: nat = if attempt < 6 {
        attempt as nat
    } else {
        6
    };
    vstd::arithmetic::power2::lemma_pow2_pos(ex);
    let (base, cap) = backoff_bounds(e);
    let p = vstd::arithmetic::power2::pow2(ex);
    assert(base * 1 <= base * p) by (nonlinear_arith)
        requires
            1 <= p,
    ;
}

/// Every asset chosen for download is missing from the archive and comes
/// from the page; no more are chosen than the page holds.
pub proof fn lemma_missing_assets_absent(keys: Set<Seq<char>>, assets: Seq<AssetView>)
    ensures
        forall|i: int|
            0 <= i < missing_assets(keys, assets).len() ==> !keys.contains(
                #[trigger] missing_assets(keys, assets)[i].key,
            ) && assets.contains(missing_assets(keys, assets)[i]),
        missing_assets(keys, assets).len() <= assets.len(),
    decreases assets.len(),
{
    if assets.len() > 0 {
        lemma_missing_assets_absent(keys, assets.drop_last());
        let rest = missing_assets(keys, assets.drop_last());
        assert forall|i: int| 0 <= i < missing_assets(keys, assets).len() implies !keys.contains(
            #[trigger] missing_assets(keys, assets)[i].key,
        ) && assets.contains(missing_assets(keys, assets)[i]) by {
            if i < rest.len() {
                assert(missing_assets(keys, assets)[i] == rest[i]);
                assert(!keys.contains(rest[i].key));
                assert(assets.drop_last().contains(rest[i]));
                let j = choose|j: int| 0 <= j < assets.drop_last().len() && assets.drop_last()[j]
                    == rest[i];
                assert(assets[j] == rest[i]);
            } else {
                assert(missing_assets(keys, assets)[i] == assets.last());
                assert(assets[assets.len() - 1] == assets.last());
            }
        }
    }
}

/// Resuming from the job saved after a page goes on exactly where the
/// run stood: the same user id, cursor, page count and asset counts.
pub proof fn lemma_resume_continues(run: RunView, username: Seq<char>, updated_at: Seq<char>)
    ensures
        ({
            let r = resumed(Some(saved_job(run, username, updated_at)), false);
            &&& r.user_id == run.user_id
            &&& r.cursor == run.cursor
            &&& r.pages_done == run.pages_done
            &&& r.downloaded == run.downloaded
            &&& r.skipped == run.skipped
        }),
{
}

/// After a run has completed, the next one starts again from the newest
/// posts, with the same user id and fresh counts.
pub proof fn lemma_completed_restarts_from_head(run: RunView, job: JobView, updated_at: Seq<char>)
    ensures
        ({
            let r = resumed(Some(completed_job(run, job, updated_at)), false);
            &&& r.user_id == job.user_id
            &&& r.cursor is None
            &&& r.pages_done == 0
            &&& r.downloaded == 0
            &&& r.skipped == 0
        }),
{
}

/// The keys of some assets.
pub open spec fn asset_keys(assets: Seq<AssetView>) -> Set<Seq<char>> {
    assets.map_values(|a: AssetView| a.key).to_set()
}

/// An asset whose key is not present is chosen for download.
proof fn lemma_absent_is_missing(keys: Set<Seq<char>>, assets: Seq<AssetView>, i: int)
    requires
        0 <= i < assets.len(),
        !keys.contains(assets[i].key),
    ensures
        missing_assets(keys, assets).contains(assets[i]),
    decreases assets.len(),
{
    let rest = missing_assets(keys, assets.drop_last());
    if i == assets.len() - 1 {
        assert(missing_assets(keys, assets) == rest.push(assets[i]));
        assert(missing_assets(keys, assets)[rest.len() as int] == assets[i]);
    } else {
        assert(assets.drop_last()[i] == assets[i]);
        lemma_absent_is_missing(keys, assets.drop_last(), i);
        let j = choose|j: int| 0 <= j < rest.len() && rest[j] == assets[i];
        if !keys.contains(assets.last().key) {
            assert(missing_assets(keys, assets)[j] == rest[j]);
        }
    }
}

/// When every asset's key is present, nothing is chosen for download.
proof fn lemma_all_present_none_missing(keys: Set<Seq<char>>, assets: Seq<AssetView>)
    requires
        forall|i: int| 0 <= i < assets.len() ==> keys.contains(#[trigger] assets[i].key),
    ensures
        missing_assets(keys, assets).len() == 0,
    decreases assets.len(),
{
    if assets.len() > 0 {
        assert(keys.contains(assets[assets.len() - 1].key));
        assert forall|i: int| 0 <= i < assets.drop_last().len() implies keys.contains(
            #[trigger] assets.drop_last()[i].key,
        ) by {
            assert(assets.drop_last()[i] == assets[i]);
        }
        lemma_all_present_none_missing(keys, assets.drop_last());
    }
}

/// Once every asset chosen for download has been saved, the same page
/// chooses nothing more: no asset is downloaded twice.
pub proof fn lemma_rerun_fetches_nothing(keys: Set<Seq<char>>, assets: Seq<AssetView>)
    ensures
        missing_assets(keys.union(asset_keys(missing_assets(keys, assets))), assets).len() == 0,
{
    let m = missing_assets(keys, assets);
    let saved = keys.union(asset_keys(m));
    assert forall|i: int| 0 <= i < assets.len() implies saved.contains(#[trigger] assets[i].key) by {
        if !keys.contains(assets[i].key) {
            lemma_absent_is_missing(keys, assets, i);
            let j = choose|j: int| 0 <= j < m.len() && m[j] == assets[i];
            assert(m.map_values(|a: AssetView| a.key)[j] == assets[i].key);
            assert(asset_keys(m).contains(assets[i].key));
        }
    }
    lemma_all_present_none_missing(saved, assets);
}

/// The early-stop scan: the page counts as wholly known exactly when it
/// started so and every post on it is known; a wholly known page extends
/// the run of known posts by its length, and the run never grows by more.
pub proof fn lemma_scan_known_posts(
    keys: Set<Seq<char>>,
    pks: Seq<Seq<char>>,
    assets: Seq<AssetView>,
    run: nat,
    all_known: bool,
)
    ensures
        scan_posts(keys, pks, assets, run, all_known).1 <==> (all_known && forall|i: int|
            0 <= i < pks.len() ==> post_known(keys, #[trigger] pks[i], assets)),
        scan_posts(keys, pks, assets, run, all_known).1 ==> scan_posts(
            keys,
            pks,
            assets,
            run,
            all_known,
        ).0 == run + pks.len(),
        scan_posts(keys, pks, assets, run, all_known).0 <= run + pks.len(),
    decreases pks.len(),
{
    if pks.len() > 0 {
        let k = post_known(keys, pks[0], assets);
        let next_run: nat = if k {
            run + 1
        } else {
            0
        };
        lemma_scan_known_posts(keys, pks.drop_first(), assets, next_run, all_known && k);
        if all_known && forall|i: int|
            0 <= i < pks.len() ==> post_known(keys, #[trigger] pks[i], assets) {
            assert(k);
            assert forall|i: int| 0 <= i < pks.drop_first().len() implies post_known(
                keys,
                #[trigger] pks.drop_first()[i],
                assets,
            ) by {
                assert(pks.drop_first()[i] == pks[i + 1]);
            }
        }
        if scan_posts(keys, pks, assets, run, all_known).1 {
            assert forall|i: int| 0 <= i < pks.len() implies post_known(
                keys,
                #[trigger] pks[i],
                assets,
            ) by {
                if i > 0 {
                    assert(pks.drop_first()[i - 1] == pks[i]);
                }
            }
        }
    }
}

} // verus!

verus! {

/// The exit code after archiving a profile: partial failure when some
/// asset failed.
pub fn exit_code_for(report: &ArchiveReport) -> (c: u8)
    ensures
        report.assets_failed > 0 ==> c == crate::error::EXIT_PARTIAL,
        report.assets_failed == 0 ==> c == crate::error::EXIT_OK,
{
    if report.assets_failed > 0 {
        crate::error::EXIT_PARTIAL
    } else {
        crate::error::EXIT_OK
    }
}

} // verus!
