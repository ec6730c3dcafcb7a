//! The watchlist of profiles and the bookkeeping of a watch sync.

use vstd::prelude::*;
use crate::archive::ArchiveReport;
use crate::error::{ErrorView, ImagoError};
use crate::json::same_text;
use crate::media::opt_view;
use crate::text::chars_of;

verus! {

/// A watched profile and the outcome of its last sync.
#[derive(Debug)]
pub struct WatchEntry {
    pub username: String,
    pub enabled: bool,
    pub added_at: String,
    pub last_synced_at: Option<String>,
    pub last_status: Option<String>,
    pub last_new_count: u64,
    pub last_error: Option<String>,
    pub note: String,
}

/// The watched profiles.
#[derive(Debug)]
pub struct Watchlist {
    pub version: u32,
    pub updated_at: String,
    pub entries: Vec<WatchEntry>,
}

/// The usernames of entries, in order.
pub open spec fn usernames(entries: Seq<WatchEntry>) -> Seq<Seq<char>> {
    entries.map_values(|e: WatchEntry| e.username@)
}

/// The position of the first entry for a username.
pub open spec fn position_of(entries: Seq<WatchEntry>, username: Seq<char>) -> Option<int> {
    if usernames(entries).contains(username) {
        Some(
            choose|i: int|
                0 <= i < entries.len() && entries[i].username@ == username && forall|j: int|
                    0 <= j < i ==> entries[j].username@ != username,
        )
    } else {
        None
    }
}

/// The entries without those for a username, in order.
pub open spec fn without(entries: Seq<WatchEntry>, username: Seq<char>) -> Seq<WatchEntry>
    decreases entries.len(),
{
    if entries.len() == 0 {
        Seq::empty()
    } else {
        let rest = without(entries.drop_last(), username);
        if entries.last().username@ == username {
            rest
        } else {
            rest.push(entries.last())
        }
    }
}

fn find_entry(entries: &Vec<WatchEntry>, username: &str) -> (r: Option<usize>)
    ensures
        r matches Some(k) ==> position_of(entries@, username@) == Some(k as int),
        r is None ==> position_of(entries@, username@) is None,
        r matches Some(i) ==> i < entries@.len() && entries@[i as int].username@ == username@,
{
    let u = chars_of(username);
    let mut i: usize = 0;
    while i < entries.len()
        invariant
            i <= entries.len(),
            u@ == username@,
            forall|j: int| 0 <= j < i ==> entries@[j].username@ != username@,
        decreases entries.len() - i,
    {
        if same_text(entries[i].username.as_str(), u.as_slice()) {
            assert(usernames(entries@)[i as int] == username@);
            let ghost w = choose|k: int|
                0 <= k < entries@.len() && entries@[k].username@ == username@ && forall|j: int|
                    0 <= j < k ==> entries@[j].username@ != username@;
            assert(w == i) by {
                if w < i {
                } else if w > i {
                }
            }
            return Some(i);
        }
        i += 1;
    }
    assert(!usernames(entries@).contains(username@)) by {
        if usernames(entries@).contains(username@) {
            let k = choose|k: int| 0 <= k < usernames(entries@).len() && usernames(entries@)[k]
                == username@;
            assert(entries@[k].username@ == username@);
        }
    }
    None
}

fn clone_opt(o: &Option<String>) -> (r: Option<String>)
    ensures
        r == *o,
{
    match o {
        Some(s) => Some(s.clone()),
        None => None,
    }
}

/// A copy of an entry with new sync fields.
fn with_sync_fields(
    e: &WatchEntry,
    enabled: bool,
    note: String,
    last_synced_at: Option<String>,
    last_status: Option<String>,
    last_new_count: u64,
    last_error: Option<String>,
) -> (r: WatchEntry)
    ensures
        r.username == e.username,
        r.added_at == e.added_at,
        r.enabled == enabled,
        r.note == note,
        r.last_synced_at == last_synced_at,
        r.last_status == last_status,
        r.last_new_count == last_new_count,
        r.last_error == last_error,
{
    WatchEntry {
        username: e.username.clone(),
        enabled: enabled,
        added_at: e.added_at.clone(),
        last_synced_at: last_synced_at,
        last_status: last_status,
        last_new_count: last_new_count,
        last_error: last_error,
        note: note,
    }
}

/// `chrono::Utc::now()` as RFC 3339 text. Nothing is claimed of the
/// value: it is whatever the clock says.
#[verifier::external_body]
fn now_rfc3339() -> (r: String) {
    chrono::Utc::now().to_rfc3339()
}

impl Default for Watchlist {
    /// An empty watchlist (version 1) updated now.
    fn default() -> (w: Watchlist)
        ensures
            w.version == 1,
            w.entries@.len() == 0,
    {
        Watchlist::new(now_rfc3339())
    }
}

impl Watchlist {
    /// An empty watchlist (version 1) updated at `now`.
    pub fn new(now: String) -> (w: Watchlist)
        ensures
            w.version == 1,
            w.updated_at == now,
            w.entries@.len() == 0,
    {
        Watchlist { version: 1, updated_at: now, entries: Vec::new() }
    }

    /// Note the time of a save.
    pub fn touch(&mut self, now: String)
        ensures
            final(self).updated_at == now,
            final(self).version == old(self).version,
            final(self).entries == old(self).entries,
    {
        self.updated_at = now;
    }

    /// Watch a profile, stamping a new entry with the current time; see
    /// [`Watchlist::add_at`].
    pub fn add(&mut self, username: &str, note: &str) -> (created: bool)
        ensures
            created == !usernames(old(self).entries@).contains(username@),
            final(self).version == old(self).version,
            final(self).updated_at == old(self).updated_at,
            usernames(final(self).entries@).contains(username@),
            usernames(old(self).entries@).no_duplicates() ==> usernames(
                final(self).entries@,
            ).no_duplicates(),
            !created ==> ({
                let i = position_of(old(self).entries@, username@).unwrap();
                let e = final(self).entries@[i];
                let o = old(self).entries@[i];
                &&& final(self).entries@ == old(self).entries@.update(i, e)
                &&& e.enabled
                &&& e.username == o.username
                &&& e.added_at == o.added_at
                &&& e.last_synced_at == o.last_synced_at
                &&& e.last_status == o.last_status
                &&& e.last_new_count == o.last_new_count
                &&& e.last_error == o.last_error
                &&& (note@.len() > 0 ==> e.note@ == note@)
                &&& (note@.len() == 0 ==> e.note == o.note)
            }),
            created ==> ({
                let e = final(self).entries@.last();
                &&& final(self).entries@.len() == old(self).entries@.len() + 1
                &&& final(self).entries@.take(old(self).entries@.len() as int) == old(
                    self,
                ).entries@
                &&& e.username@ == username@
                &&& e.enabled
                &&& e.last_synced_at is None
                &&& e.last_status is None
                &&& e.last_new_count == 0
                &&& e.last_error is None
                &&& e.note@ == note@
            }),
    {
        self.add_at(username, note, now_rfc3339())
    }

    /// Watch a profile: an existing entry is re-enabled (and its note
    /// replaced by a non-empty one) and `false` is returned; otherwise a new
    /// enabled entry added at `now` is appended and `true` is returned.
    pub fn add_at(&mut self, username: &str, note: &str, now: String) -> (created: bool)
        ensures
            created == !usernames(old(self).entries@).contains(username@),
            final(self).version == old(self).version,
            final(self).updated_at == old(self).updated_at,
            usernames(final(self).entries@).contains(username@),
            usernames(old(self).entries@).no_duplicates() ==> usernames(
                final(self).entries@,
            ).no_duplicates(),
            !created ==> ({
                let i = position_of(old(self).entries@, username@).unwrap();
                let e = final(self).entries@[i];
                let o = old(self).entries@[i];
                &&& final(self).entries@ == old(self).entries@.update(i, e)
                &&& e.enabled
                &&& e.username == o.username
                &&& e.added_at == o.added_at
                &&& e.last_synced_at == o.last_synced_at
                &&& e.last_status == o.last_status
                &&& e.last_new_count == o.last_new_count
                &&& e.last_error == o.last_error
                &&& (note@.len() > 0 ==> e.note@ == note@)
                &&& (note@.len() == 0 ==> e.note == o.note)
            }),
            created ==> ({
                let e = final(self).entries@.last();
                &&& final(self).entries@.len() == old(self).entries@.len() + 1
                &&& final(self).entries@.take(old(self).entries@.len() as int) == old(
                    self,
                ).entries@
                &&& e.username@ == username@
                &&& e.enabled
                &&& e.added_at == now
                &&& e.last_synced_at is None
                &&& e.last_status is None
                &&& e.last_new_count == 0
                &&& e.last_error is None
                &&& e.note@ == note@
            }),
    {
        match find_entry(&self.entries, username) {
            Some(i) => {
                let cur = &self.entries[i];
                let new_note = if !note.is_empty() {
                    String::from_str(note)
                } else {
                    cur.note.clone()
                };
                let e = with_sync_fields(
                    cur,
                    true,
                    new_note,
                    clone_opt(&cur.last_synced_at),
                    clone_opt(&cur.last_status),
                    cur.last_new_count,
                    clone_opt(&cur.last_error),
                );
                let ghost before = self.entries@;
                self.entries.set(i, e);
                assert(usernames(self.entries@)[i as int] == username@);
                assert(usernames(self.entries@) =~= usernames(before));
                false
            },
            None => {
                self.entries.push(
                    WatchEntry {
                        username: String::from_str(username),
                        enabled: true,
                        added_at: now,
                        last_synced_at: None,
                        last_status: None,
                        last_new_count: 0,
                        last_error: None,
                        note: String::from_str(note),
                    },
                );
                assert(usernames(self.entries@)[self.entries@.len() - 1] == username@);
                assert(self.entries@.take(self.entries@.len() - 1) =~= old(self).entries@);
                proof {
                    let a = usernames(old(self).entries@);
                    let b = usernames(self.entries@);
                    assert(b =~= a.push(username@));
                    if a.no_duplicates() {
                        assert forall|x: int, y: int|
                            0 <= x < b.len() && 0 <= y < b.len() && x != y implies b[x] != b[y] by {
                            if x == a.len() as int {
                                assert(b[y] == a[y]);
                            } else if y == a.len() as int {
                                assert(b[x] == a[x]);
                            }
                        }
                    }
                }
                true
            },
        }
    }

    /// Stop watching a profile: every entry for the username is removed,
    /// the others keep their order; `true` when something was removed.
    pub fn remove(&mut self, username: &str) -> (removed: bool)
        ensures
            final(self).entries@ == without(old(self).entries@, username@),
            removed == usernames(old(self).entries@).contains(username@),
            final(self).version == old(self).version,
            final(self).updated_at == old(self).updated_at,
    {
        let u = chars_of(username);
        let ghost all = self.entries@;
        let mut kept: Vec<WatchEntry> = Vec::new();
        let mut old_entries: Vec<WatchEntry> = Vec::new();
        std::mem::swap(&mut old_entries, &mut self.entries);
        let n = old_entries.len();
        let mut found = false;
        let mut i: usize = 0;
        assert(all.take(0) =~= Seq::<WatchEntry>::empty());
        while i < n
            invariant
                u@ == username@,
                n == all.len(),
                i <= n,
                old_entries@.len() == n - i,
                forall|k: int| 0 <= k < old_entries@.len() ==> old_entries@[k] == all[k + i],
                kept@ == without(all.take(i as int), username@),
                found == usernames(all.take(i as int)).contains(username@),
            decreases n - i,
        {
            let e = old_entries.remove(0);
            assert(e == all[i as int]);
            assert(all.take(i + 1).drop_last() =~= all.take(i as int));
            assert(all.take(i + 1).last() == e);
            proof {
                let a = usernames(all.take(i as int));
                let b = usernames(all.take(i + 1));
                assert(b =~= a.push(e.username@));
                if b.contains(username@) && !a.contains(username@) {
                    let k = choose|k: int| 0 <= k < b.len() && b[k] == username@;
                    if k < a.len() {
                        assert(a[k] == username@);
                    }
                }
                if a.contains(username@) {
                    let k = choose|k: int| 0 <= k < a.len() && a[k] == username@;
                    assert(b[k] == username@);
                }
                if e.username@ == username@ {
                    assert(b[i as int] == username@);
                }
            }
            if same_text(e.username.as_str(), u.as_slice()) {
                found = true;
            } else {
                kept.push(e);
            }
            i += 1;
        }
        assert(all.take(n as int) =~= all);
        self.entries = kept;
        found
    }
}

// ---------------------------------------------------------------------
// Sync
// ---------------------------------------------------------------------

/// The outcome of syncing the watchlist.
#[derive(Debug)]
pub struct SyncReport {
    pub ok: bool,
    pub command: &'static str,
    pub results: Vec<ArchiveReport>,
    pub failed: Vec<String>,
}

/// The usernames of the enabled entries, in order.
pub open spec fn enabled_usernames(entries: Seq<WatchEntry>) -> Seq<Seq<char>>
    decreases entries.len(),
{
    if entries.len() == 0 {
        Seq::empty()
    } else {
        let rest = enabled_usernames(entries.drop_last());
        if entries.last().enabled {
            rest.push(entries.last().username@)
        } else {
            rest
        }
    }
}

/// The profiles a sync covers: those asked for, else the enabled entries;
/// none at all is a usage error.
pub fn sync_targets(requested: Option<Vec<String>>, list: &Watchlist) -> (r: Result<
    Vec<String>,
    ImagoError,
>)
    ensures
        ({
            let t = match requested {
                Some(u) => u@.map_values(|s: String| s@),
                None => enabled_usernames(list.entries@),
            };
            if t.len() == 0 {
                r matches Err(e) && e@ == ErrorView::Usage(
                    "watchlist empty — imago watch add <user>"@,
                )
            } else {
                r matches Ok(v) && v@.map_values(|s: String| s@) == t
            }
        }),
{
    let targets: Vec<String> = match requested {
        Some(u) => u,
        None => {
            let mut out: Vec<String> = Vec::new();
            let mut i: usize = 0;
            assert(list.entries@.take(0) =~= Seq::<WatchEntry>::empty());
            while i < list.entries.len()
                invariant
                    i <= list.entries.len(),
                    out@.map_values(|s: String| s@) == enabled_usernames(
                        list.entries@.take(i as int),
                    ),
                decreases list.entries.len() - i,
            {
                assert(list.entries@.take(i + 1).drop_last() =~= list.entries@.take(i as int));
                assert(list.entries@.take(i + 1).last() == list.entries@[i as int]);
                if list.entries[i].enabled {
                    let ghost before = out@;
                    out.push(list.entries[i].username.clone());
                    assert(out@.map_values(|s: String| s@) =~= before.map_values(|s: String| s@).push(
                        list.entries@[i as int].username@,
                    ));
                }
                i += 1;
            }
            assert(list.entries@.take(list.entries.len() as int) =~= list.entries@);
            out
        },
    };
    if targets.len() == 0 {
        return Err(ImagoError::Usage(String::from_str("watchlist empty — imago watch add <user>")));
    }
    Ok(targets)
}

/// An entry is updated in place; everything else stays.
pub open spec fn updated_at_index(
    old_list: Watchlist,
    new_list: Watchlist,
    i: int,
) -> bool {
    &&& new_list.version == old_list.version
    &&& new_list.updated_at == old_list.updated_at
    &&& new_list.entries@ == old_list.entries@.update(i, new_list.entries@[i])
    &&& new_list.entries@[i].username == old_list.entries@[i].username
    &&& new_list.entries@[i].enabled == old_list.entries@[i].enabled
    &&& new_list.entries@[i].added_at == old_list.entries@[i].added_at
    &&& new_list.entries@[i].note == old_list.entries@[i].note
}

impl Watchlist {
    /// Record a successful archive of a watched profile: synced at `now`,
    /// status `ok` or `partial`, the number of new assets, no error. A
    /// profile that is not watched leaves the list unchanged.
    pub fn record_synced(&mut self, username: &str, report: &ArchiveReport, now: String)
        ensures
            match position_of(old(self).entries@, username@) {
                None => *final(self) == *old(self),
                Some(i) => {
                    let e = final(self).entries@[i];
                    &&& updated_at_index(*old(self), *final(self), i)
                    &&& e.last_synced_at == Some(now)
                    &&& opt_view(e.last_status) == Some(
                        if report.ok {
                            "ok"@
                        } else {
                            "partial"@
                        },
                    )
                    &&& e.last_new_count == report.assets_downloaded
                    &&& e.last_error is None
                },
            },
    {
        match find_entry(&self.entries, username) {
            Some(i) => {
                let cur = &self.entries[i];
                let status = if report.ok {
                    String::from_str("ok")
                } else {
                    String::from_str("partial")
                };
                let e = with_sync_fields(
                    cur,
                    cur.enabled,
                    cur.note.clone(),
                    Some(now),
                    Some(status),
                    report.assets_downloaded,
                    None,
                );
                self.entries.set(i, e);
            },
            None => {},
        }
    }

    /// Record that a watched profile's session is dead: status `auth`,
    /// error `session dead`.
    pub fn record_session_dead(&mut self, username: &str)
        ensures
            match position_of(old(self).entries@, username@) {
                None => *final(self) == *old(self),
                Some(i) => {
                    let e = final(self).entries@[i];
                    let o = old(self).entries@[i];
                    &&& updated_at_index(*old(self), *final(self), i)
                    &&& opt_view(e.last_status) == Some("auth"@)
                    &&& opt_view(e.last_error) == Some("session dead"@)
                    &&& e.last_synced_at == o.last_synced_at
                    &&& e.last_new_count == o.last_new_count
                },
            },
    {
        match find_entry(&self.entries, username) {
            Some(i) => {
                let cur = &self.entries[i];
                let e = with_sync_fields(
                    cur,
                    cur.enabled,
                    cur.note.clone(),
                    clone_opt(&cur.last_synced_at),
                    Some(String::from_str("auth")),
                    cur.last_new_count,
                    Some(String::from_str("session dead")),
                );
                self.entries.set(i, e);
            },
            None => {},
        }
    }

    /// Record that archiving a watched profile failed: status `error` and
    /// the error's text.
    pub fn record_failure(&mut self, username: &str, err: &ImagoError)
        ensures
            match position_of(old(self).entries@, username@) {
                None => *final(self) == *old(self),
                Some(i) => {
                    let e = final(self).entries@[i];
                    let o = old(self).entries@[i];
                    &&& updated_at_index(*old(self), *final(self), i)
                    &&& opt_view(e.last_status) == Some("error"@)
                    &&& opt_view(e.last_error) == Some(crate::error::message_of(err@))
                    &&& e.last_synced_at == o.last_synced_at
                    &&& e.last_new_count == o.last_new_count
                },
            },
    {
        match find_entry(&self.entries, username) {
            Some(i) => {
                let cur = &self.entries[i];
                let e = with_sync_fields(
                    cur,
                    cur.enabled,
                    cur.note.clone(),
                    clone_opt(&cur.last_synced_at),
                    Some(String::from_str("error")),
                    cur.last_new_count,
                    Some(err.message()),
                );
                self.entries.set(i, e);
            },
            None => {},
        }
    }
}

/// The report of a sync: ok exactly when no profile failed.
pub fn sync_report(results: Vec<ArchiveReport>, failed: Vec<String>) -> (r: SyncReport)
    ensures
        r.ok == (failed@.len() == 0),
        r.command@ == "watch sync"@,
        r.results == results,
        r.failed == failed,
{
    let ok = failed.len() == 0;
    SyncReport { ok: ok, command: "watch sync", results: results, failed: failed }
}

} // verus!

verus! {

proof fn lemma_push_contains<A>(s: Seq<A>, x: A, v: A)
    ensures
        s.push(x).contains(v) <==> (s.contains(v) || x == v),
{
    if s.push(x).contains(v) {
        let k = choose|k: int| 0 <= k < s.push(x).len() && s.push(x)[k] == v;
        if k < s.len() {
            assert(s[k] == v);
        }
    }
    if s.contains(v) {
        let k = choose|k: int| 0 <= k < s.len() && s[k] == v;
        assert(s.push(x)[k] == v);
    }
    if x == v {
        assert(s.push(x)[s.len() as int] == v);
    }
}

/// Removing a profile leaves no entry for it, keeps every other profile,
/// and never adds entries.
pub proof fn lemma_remove_exact(entries: Seq<WatchEntry>, username: Seq<char>)
    ensures
        !usernames(without(entries, username)).contains(username),
        forall|v: Seq<char>|
            v != username ==> (#[trigger] usernames(without(entries, username)).contains(v)
                <==> usernames(entries).contains(v)),
        without(entries, username).len() <= entries.len(),
        usernames(entries).contains(username) ==> without(entries, username).len()
            < entries.len(),
    decreases entries.len(),
{
    if entries.len() > 0 {
        let init = entries.drop_last();
        lemma_remove_exact(init, username);
        let r = without(init, username);
        let last = entries.last();
        assert(usernames(entries) =~= usernames(init).push(last.username@));
        let w = usernames(without(entries, username));
        if last.username@ == username {
            assert(without(entries, username) == r);
        } else {
            assert(without(entries, username) == r.push(last));
            assert(w =~= usernames(r).push(last.username@));
        }
        assert forall|v: Seq<char>|
            v != username implies (#[trigger] usernames(without(entries, username)).contains(v)
            <==> usernames(entries).contains(v)) by {
            lemma_push_contains(usernames(init), last.username@, v);
            assert(usernames(r).contains(v) <==> usernames(init).contains(v));
            if last.username@ != username {
                lemma_push_contains(usernames(r), last.username@, v);
            }
        }
        lemma_push_contains(usernames(init), last.username@, username);
        if last.username@ != username {
            lemma_push_contains(usernames(r), last.username@, username);
        }
    }
}

} // verus!

verus! {

/// The username a sync uses for a watched name: its parse when it parses,
/// else the name as stored.
pub fn sync_username(raw: String) -> (r: String)
    ensures
        match crate::ig::profile_input_spec(raw@) {
            Ok(u) => r@ == u,
            Err(_) => r == raw,
        },
{
    match crate::ig::parse_profile_input(raw.as_str()) {
        Ok(u) => u,
        Err(_) => raw,
    }
}

/// The results gathered by a sync so far.
#[derive(Debug)]
pub struct SyncTally {
    pub results: Vec<ArchiveReport>,
    pub failed: Vec<String>,
}

impl SyncTally {
    /// Nothing gathered yet.
    pub fn new() -> (t: SyncTally)
        ensures
            t.results@.len() == 0,
            t.failed@.len() == 0,
    {
        SyncTally { results: Vec::new(), failed: Vec::new() }
    }

    /// A profile was archived: its report is kept, and the profile counts
    /// as failed when some of its assets failed.
    pub fn archived(&mut self, username: String, report: ArchiveReport)
        ensures
            final(self).results@ == old(self).results@.push(report),
            report.assets_failed > 0 ==> final(self).failed@ == old(self).failed@.push(username),
            report.assets_failed == 0 ==> final(self).failed@ == old(self).failed@,
    {
        if report.assets_failed > 0 {
            self.failed.push(username);
        }
        self.results.push(report);
    }

    /// Archiving a profile failed.
    pub fn errored(&mut self, username: String)
        ensures
            final(self).results@ == old(self).results@,
            final(self).failed@ == old(self).failed@.push(username),
    {
        self.failed.push(username);
    }

    /// The sync report: ok exactly when no profile failed.
    pub fn finish(self) -> (r: SyncReport)
        ensures
            r.ok == (self.failed@.len() == 0),
            r.command@ == "watch sync"@,
            r.results == self.results,
            r.failed == self.failed,
    {
        sync_report(self.results, self.failed)
    }
}

/// The exit code after a sync: partial failure when some profile failed.
pub fn sync_exit_code(report: &SyncReport) -> (c: u8)
    ensures
        report.ok ==> c == crate::error::EXIT_OK,
        !report.ok ==> c == crate::error::EXIT_PARTIAL,
{
    if report.ok {
        crate::error::EXIT_OK
    } else {
        crate::error::EXIT_PARTIAL
    }
}

} // verus!
