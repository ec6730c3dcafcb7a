//! The on-disk archive of a profile as the logic sees it: which asset keys
//! are present, where files go, the resumable job state and the archive's
//! metadata.

use vstd::prelude::*;
use crate::appdata::{join_path, join_spec};
use crate::json::same_text;
use crate::media::{Asset, opt_view};
use crate::text::{ascii_lower, ascii_lower_chars, chars_of, string_of_range};

verus! {

/// Pushing onto a sequence inserts into its set.
proof fn lemma_push_to_set<A>(s: Seq<A>, x: A)
    ensures
        s.push(x).to_set() == s.to_set().insert(x),
{
    assert forall|a: A| #[trigger] s.push(x).to_set().contains(a) <==> s.to_set().insert(x).contains(a) by {
        assert(s.push(x).to_set().contains(a) == s.push(x).contains(a));
        assert(s.to_set().contains(a) == s.contains(a));
        if s.push(x).contains(a) {
            let i = choose|i: int| 0 <= i < s.len() + 1 && s.push(x)[i] == a;
            if i < s.len() {
                assert(s[i] == a);
            }
        }
        if s.contains(a) {
            let i = choose|i: int| 0 <= i < s.len() && s[i] == a;
            assert(s.push(x)[i] == a);
        }
        if a == x {
            assert(s.push(x)[s.len() as int] == x);
        }
    }
    assert(s.push(x).to_set() =~= s.to_set().insert(x));
}

/// The extensions of media files counted as present in an archive.
pub open spec fn media_exts() -> Seq<Seq<char>> {
    seq!["jpg"@, "jpeg"@, "png"@, "mp4"@, "webp"@]
}

/// The views of strings.
pub open spec fn keys_view(v: Seq<String>) -> Seq<Seq<char>> {
    v.map_values(|s: String| s@)
}

/// The asset keys present in a profile's directory, and that directory.
/// The keys are held in a `Vec` without repeats rather than a `HashSet`:
/// vstd specifies `HashSet` only for key types it models (integers, `bool`),
/// and a `String` key would need an assumed model, which this crate does not
/// make.
pub struct Store {
    dir: String,
    present: Vec<String>,
    /// The directory listing the store was opened on.
    listing: Ghost<Seq<Seq<char>>>,
    /// The keys saved since, in order.
    saved: Ghost<Seq<Seq<char>>>,
}

impl Store {
    /// The set of present keys.
    pub closed spec fn keys(&self) -> Set<Seq<char>> {
        keys_view(self.present@).to_set()
    }

    /// The archive directory.
    pub closed spec fn directory(&self) -> Seq<char> {
        self.dir@
    }

    /// The directory listing the store was opened on (empty for a store
    /// built from nothing or from keys).
    pub closed spec fn listing(&self) -> Seq<Seq<char>> {
        self.listing@
    }

    /// The keys saved since the store was opened, in order.
    pub closed spec fn saved(&self) -> Seq<Seq<char>> {
        self.saved@
    }

    /// The present keys are held once each, and they are those of the
    /// media files listed when the store was opened and those saved since.
    #[verifier::type_invariant]
    spec fn keys_unique(self) -> bool {
        &&& keys_view(self.present@).no_duplicates()
        &&& keys_view(self.present@).to_set() == keys_after_saves(self.listing@, self.saved@)
    }

    /// An archive in `dir` with nothing present yet.
    pub fn empty(dir: String) -> (s: Store)
        ensures
            s.directory() == dir@,
            s.keys() == Set::<Seq<char>>::empty(),
            s.listing() == Seq::<Seq<char>>::empty(),
            s.saved() == Seq::<Seq<char>>::empty(),
    {
        let present: Vec<String> = Vec::new();
        assert(keys_view(present@) =~= Seq::<Seq<char>>::empty());
        assert(keys_view(present@).to_set() =~= Set::<Seq<char>>::empty());
        assert(scanned_keys(Seq::<Seq<char>>::empty()) =~= Set::<Seq<char>>::empty());
        let s = Store {
            dir,
            present,
            listing: Ghost(Seq::empty()),
            saved: Ghost(Seq::empty()),
        };
        s
    }

    /// An archive in `dir` holding the given keys (from a directory scan).
    pub fn from_keys(dir: String, keys: Vec<String>) -> (s: Store)
        ensures
            s.directory() == dir@,
            s.keys() == keys_view(keys@).to_set(),
            s.listing() == Seq::<Seq<char>>::empty(),
            s.saved() == keys_view(keys@),
    {
        let mut s = Store::empty(dir);
        let mut i: usize = 0;
        let mut keys = keys;
        let ghost all = keys_view(keys@);
        while i < keys.len()
            invariant
                i <= keys.len(),
                all == keys_view(keys@),
                s.directory() == dir@,
                s.keys() == all.take(i as int).to_set(),
                s.listing() == Seq::<Seq<char>>::empty(),
                s.saved() == all.take(i as int),
            decreases keys.len() - i,
        {
            let k = keys[i].clone();
            s.mark_saved(k);
            assert(all.take(i + 1) =~= all.take(i as int).push(all[i as int]));
            proof {
                lemma_push_to_set(all.take(i as int), all[i as int]);
            }
            i += 1;
        }
        assert(all.take(keys.len() as int) =~= all);
        s
    }

    /// Whether an asset key is present.
    pub fn has(&self, key: &str) -> (r: bool)
        ensures
            r == self.keys().contains(key@),
            r == ((exists|i: int|
                0 <= i < self.listing().len() && media_key_spec(#[trigger] self.listing()[i])
                    == Some(key@)) || self.saved().contains(key@)),
    {
        proof {
            use_type_invariant(self);
            lemma_store_keys_across_saves(self.listing(), self.saved(), key@);
        }
        let k = chars_of(key);
        let mut i: usize = 0;
        while i < self.present.len()
            invariant
                i <= self.present.len(),
                k@ == key@,
                forall|j: int| 0 <= j < i ==> self.present@[j]@ != key@,
                self.keys() == keys_after_saves(self.listing(), self.saved()),
                keys_after_saves(self.listing(), self.saved()).contains(key@) <==> ((exists|
                    j: int,
                |
                    0 <= j < self.listing().len() && media_key_spec(#[trigger] self.listing()[j])
                        == Some(key@)) || self.saved().contains(key@)),
            decreases self.present.len() - i,
        {
            if same_text(self.present[i].as_str(), k.as_slice()) {
                assert(keys_view(self.present@)[i as int] == key@);
                assert(self.keys().contains(key@));
                return true;
            }
            i += 1;
        }
        assert(!keys_view(self.present@).contains(key@)) by {
            if keys_view(self.present@).contains(key@) {
                let j = choose|j: int| 0 <= j < keys_view(self.present@).len() && keys_view(
                    self.present@,
                )[j] == key@;
                assert(self.present@[j]@ == key@);
            }
        }
        false
    }

    /// Record that an asset key is now present.
    pub fn mark_saved(&mut self, key: String)
        ensures
            final(self).directory() == old(self).directory(),
            final(self).keys() == old(self).keys().insert(key@),
            final(self).listing() == old(self).listing(),
            final(self).saved() == old(self).saved().push(key@),
    {
        proof {
            use_type_invariant(&*self);
        }
        let ghost listing = self.listing@;
        let ghost saved = self.saved@.push(key@);
        assert(saved.drop_last() =~= self.saved@);
        if self.has(key.as_str()) {
            assert(self.keys().insert(key@) =~= self.keys());
            self.saved = Ghost(saved);
            return;
        }
        let mut whole = Store::empty(String::new());
        std::mem::swap(&mut whole, self);
        proof {
            use_type_invariant(&whole);
        }
        let Store { dir, present, .. } = whole;
        let mut present = present;
        let ghost before = keys_view(present@);
        present.push(key);
        assert(keys_view(present@) =~= before.push(key@));
        proof {
            lemma_push_to_set(before, key@);
        }
        assert(!before.contains(key@));
        assert(keys_view(present@).no_duplicates()) by {
            assert forall|a: int, b: int|
                0 <= a < keys_view(present@).len() && 0 <= b < keys_view(present@).len()
                    && a != b implies keys_view(present@)[a] != keys_view(present@)[b] by {
                if a == before.len() as int {
                    assert(before[b] == keys_view(present@)[b]);
                } else if b == before.len() as int {
                    assert(before[a] == keys_view(present@)[a]);
                }
            }
        }
        *self = Store { dir, present, listing: Ghost(listing), saved: Ghost(saved) };
    }

    /// The archive directory.
    pub fn dir(&self) -> (r: &String)
        ensures
            r@ == self.directory(),
    {
        &self.dir
    }

    /// Where an asset is saved: `<dir>/<key>.<ext>`.
    pub fn path_for(&self, asset: &Asset) -> (r: String)
        ensures
            r@ == join_spec(self.directory(), asset.key@ + "."@ + asset.ext@),
    {
        let mut name = asset.key.clone();
        name.append(".");
        name.append(asset.ext.as_str());
        join_path(self.dir.as_str(), name.as_str())
    }

    /// Where the archive's metadata is kept.
    pub fn metadata_path(&self) -> (r: String)
        ensures
            r@ == join_spec(self.directory(), "metadata.json"@),
    {
        join_path(self.dir.as_str(), "metadata.json")
    }
}

/// The two directories a profile's archive may live in under a base
/// directory: `<base>/<username>` and the legacy `<base>/<username>_photos`.
pub fn store_dirs(base: &str, username: &str) -> (r: (String, String))
    ensures
        r.0@ == join_spec(base@, username@),
        r.1@ == join_spec(base@, username@ + "_photos"@),
{
    let modern = join_path(base, username);
    let mut legacy_name = String::from_str(username);
    legacy_name.append("_photos");
    let legacy = join_path(base, legacy_name.as_str());
    (modern, legacy)
}

/// The directory an archive uses: the modern one if it exists, else the
/// legacy one if it exists, else the modern one.
pub fn choose_store_dir(modern: String, legacy: String, modern_exists: bool, legacy_exists: bool) -> (r:
    String)
    ensures
        r == (if !modern_exists && legacy_exists {
            legacy
        } else {
            modern
        }),
{
    if modern_exists {
        modern
    } else if legacy_exists {
        legacy
    } else {
        modern
    }
}

/// The stem and extension of a file name, split at its last `.`.
pub open spec fn split_ext(name: Seq<char>) -> Option<(Seq<char>, Seq<char>)> {
    if exists|i: int| 0 <= i < name.len() && name[i] == '.' {
        let k = choose|i: int|
            0 <= i < name.len() && name[i] == '.' && forall|j: int| i < j < name.len() ==> name[j]
                != '.';
        Some((name.take(k), name.skip(k + 1)))
    } else {
        None
    }
}

/// The asset key a file name stands for: its stem, when its extension is a
/// media extension (ASCII case ignored).
pub open spec fn media_key_spec(name: Seq<char>) -> Option<Seq<char>> {
    match split_ext(name) {
        Some((stem, ext)) => if media_exts().contains(ascii_lower(ext)) {
            Some(stem)
        } else {
            None
        },
        None => None,
    }
}

/// The asset key a file in an archive directory stands for.
pub fn media_key_of(file_name: &str) -> (r: Option<String>)
    ensures
        opt_view(r) == media_key_spec(file_name@),
{
    let cs = chars_of(file_name);
    let mut k: usize = cs.len();
    while k > 0 && cs[k - 1] != '.'
        invariant
            k <= cs.len(),
            forall|j: int| k <= j < cs.len() ==> cs@[j] != '.',
        decreases k,
    {
        k -= 1;
    }
    if k == 0 {
        assert(!exists|i: int| 0 <= i < cs@.len() && cs@[i] == '.');
        return None;
    }
    let dot = k - 1;
    let ghost w = choose|i: int|
        0 <= i < cs@.len() && cs@[i] == '.' && forall|j: int| i < j < cs@.len() ==> cs@[j] != '.';
    assert(0 <= dot < cs@.len() && cs@[dot as int] == '.');
    assert(w == dot) by {
        if w < dot {
            assert(cs@[dot as int] != '.');
        } else if w > dot {
        }
    }
    let stem = string_of_range(cs.as_slice(), 0, dot);
    let ext = string_of_range(cs.as_slice(), dot + 1, cs.len());
    assert(stem@ =~= cs@.take(dot as int));
    assert(ext@ =~= cs@.skip(dot + 1));
    let lower = ascii_lower_chars(chars_of(ext.as_str()).as_slice());
    let l = lower.as_slice();
    if same_text("jpg", l) || same_text("jpeg", l) || same_text("png", l) || same_text("mp4", l)
        || same_text("webp", l) {
        assert(media_exts().contains(lower@)) by {
            if lower@ == "jpg"@ {
                assert(media_exts()[0] == lower@);
            } else if lower@ == "jpeg"@ {
                assert(media_exts()[1] == lower@);
            } else if lower@ == "png"@ {
                assert(media_exts()[2] == lower@);
            } else if lower@ == "mp4"@ {
                assert(media_exts()[3] == lower@);
            } else {
                assert(media_exts()[4] == lower@);
            }
        }
        return Some(stem);
    }
    assert(!media_exts().contains(lower@)) by {
        if media_exts().contains(lower@) {
            let j = choose|j: int| 0 <= j < 5 && media_exts()[j] == lower@;
            if j == 0 {
            } else if j == 1 {
            } else if j == 2 {
            } else if j == 3 {
            } else {
            }
        }
    }
    None
}

/// The keys of the media files among a directory's file names.
pub open spec fn scanned_keys(names: Seq<Seq<char>>) -> Set<Seq<char>> {
    Set::new(|k: Seq<char>| exists|i: int| 0 <= i < names.len() && media_key_spec(#[trigger] names[i]) == Some(k))
}

/// The keys of a store opened on a directory listing, after saving the
/// given keys in order (each save inserts one key).
pub open spec fn keys_after_saves(names: Seq<Seq<char>>, saved: Seq<Seq<char>>) -> Set<Seq<char>>
    decreases saved.len(),
{
    if saved.len() == 0 {
        scanned_keys(names)
    } else {
        keys_after_saves(names, saved.drop_last()).insert(saved.last())
    }
}

impl Store {
    /// The archive in `dir`, given the names of the files it holds: the
    /// keys present are those of its media files.
    pub fn from_file_names(dir: String, names: &Vec<String>) -> (s: Store)
        ensures
            s.directory() == dir@,
            s.keys() == scanned_keys(names@.map_values(|n: String| n@)),
            s.listing() == names@.map_values(|n: String| n@),
            s.saved() == Seq::<Seq<char>>::empty(),
    {
        let ghost ns = names@.map_values(|n: String| n@);
        let mut s = Store::empty(dir);
        let mut i: usize = 0;
        while i < names.len()
            invariant
                i <= names.len(),
                ns == names@.map_values(|n: String| n@),
                s.directory() == dir@,
                s.keys() == scanned_keys(ns.take(i as int)),
            decreases names.len() - i,
        {
            let ghost before = s.keys();
            let k = media_key_of(names[i].as_str());
            assert(ns[i as int] == names@[i as int]@);
            match k {
                Some(key) => {
                    let ghost kv = key@;
                    s.mark_saved(key);
                    assert(s.keys() =~= scanned_keys(ns.take(i + 1))) by {
                        assert forall|x: Seq<char>| #[trigger] s.keys().contains(x) <==> scanned_keys(
                            ns.take(i + 1),
                        ).contains(x) by {
                            if x == kv {
                                assert(ns.take(i + 1)[i as int] == ns[i as int]);
                            } else if scanned_keys(ns.take(i + 1)).contains(x) {
                                let j = choose|j: int|
                                    0 <= j < ns.take(i + 1).len() && media_key_spec(#[trigger] ns.take(i + 1)[j],
                                    ) == Some(x);
                                if j < i {
                                    assert(ns.take(i as int)[j] == ns.take(i + 1)[j]);
                                }
                            } else if before.contains(x) {
                                let j = choose|j: int|
                                    0 <= j < ns.take(i as int).len() && media_key_spec(#[trigger] ns.take(i as int)[j],
                                    ) == Some(x);
                                assert(ns.take(i as int)[j] == ns.take(i + 1)[j]);
                            }
                        }
                    }
                },
                None => {
                    assert(s.keys() =~= scanned_keys(ns.take(i + 1))) by {
                        assert forall|x: Seq<char>| #[trigger] s.keys().contains(x) <==> scanned_keys(
                            ns.take(i + 1),
                        ).contains(x) by {
                            if scanned_keys(ns.take(i + 1)).contains(x) {
                                let j = choose|j: int|
                                    0 <= j < ns.take(i + 1).len() && media_key_spec(#[trigger] ns.take(i + 1)[j],
                                    ) == Some(x);
                                if j < i {
                                    assert(ns.take(i as int)[j] == ns.take(i + 1)[j]);
                                } else {
                                    assert(ns.take(i + 1)[j] == ns[i as int]);
                                }
                            }
                            if before.contains(x) {
                                let j = choose|j: int|
                                    0 <= j < ns.take(i as int).len() && media_key_spec(#[trigger] ns.take(i as int)[j],
                                    ) == Some(x);
                                assert(ns.take(i as int)[j] == ns.take(i + 1)[j]);
                            }
                        }
                    }
                },
            }
            i += 1;
        }
        assert(ns.take(names.len() as int) =~= ns);
        proof {
            use_type_invariant(&s);
        }
        let Store { dir, present, .. } = s;
        Store { dir, present, listing: Ghost(ns), saved: Ghost(Seq::empty()) }
    }
}

/// A file named `<key>.<ext>`, where the extension holds no `.` and is
/// (ASCII case ignored) `jpg`, `jpeg`, `png`, `mp4` or `webp`, stands for
/// the asset `key`.
pub proof fn lemma_media_file_key(key: Seq<char>, ext: Seq<char>)
    requires
        forall|j: int| 0 <= j < ext.len() ==> ext[j] != '.',
        ascii_lower(ext) == "jpg"@ || ascii_lower(ext) == "jpeg"@ || ascii_lower(ext) == "png"@
            || ascii_lower(ext) == "mp4"@ || ascii_lower(ext) == "webp"@,
    ensures
        media_key_spec(key + seq!['.'] + ext) == Some(key),
{
    let name = key + seq!['.'] + ext;
    let d = key.len() as int;
    assert(name[d] == '.');
    assert forall|j: int| d < j < name.len() implies name[j] != '.' by {
        assert(name[j] == ext[j - d - 1]);
    }
    let k = choose|i: int|
        0 <= i < name.len() && name[i] == '.' && forall|j: int| i < j < name.len() ==> name[j]
            != '.';
    assert(k == d);
    assert(name.take(d) =~= key);
    assert(name.skip(d + 1) =~= ext);
    assert(media_exts().contains(ascii_lower(ext))) by {
        if ascii_lower(ext) == "jpg"@ {
            assert(media_exts()[0] == "jpg"@);
        } else if ascii_lower(ext) == "jpeg"@ {
            assert(media_exts()[1] == "jpeg"@);
        } else if ascii_lower(ext) == "png"@ {
            assert(media_exts()[2] == "png"@);
        } else if ascii_lower(ext) == "mp4"@ {
            assert(media_exts()[3] == "mp4"@);
        } else {
            assert(media_exts()[4] == "webp"@);
        }
    }
}

/// What a store knows across runs: opened on a directory listing and then
/// given any number of saves, it holds exactly the keys of the media files
/// listed (a `jpg`, `jpeg`, `png`, `mp4` or `webp` extension, any case) and
/// the keys saved since. Every `Store` keeps its listing and its saves
/// ([`Store::listing`], [`Store::saved`]), and [`Store::has`] states this
/// of them.
pub proof fn lemma_store_keys_across_saves(
    names: Seq<Seq<char>>,
    saved: Seq<Seq<char>>,
    key: Seq<char>,
)
    ensures
        keys_after_saves(names, saved).contains(key) <==> ((exists|i: int|
            0 <= i < names.len() && media_key_spec(#[trigger] names[i]) == Some(key))
            || saved.contains(key)),
    decreases saved.len(),
{
    if saved.len() > 0 {
        lemma_store_keys_across_saves(names, saved.drop_last(), key);
        if saved.contains(key) && key != saved.last() {
            let j = choose|j: int| 0 <= j < saved.len() && saved[j] == key;
            assert(saved.drop_last()[j] == key);
        }
        if saved.drop_last().contains(key) {
            let j = choose|j: int| 0 <= j < saved.drop_last().len() && saved.drop_last()[j] == key;
            assert(saved[j] == key);
        }
        if key == saved.last() {
            assert(saved[saved.len() - 1] == key);
        }
    }
}

} // verus!

verus! {

/// The resumable state of an archive job.
#[derive(Debug)]
pub struct JobState {
    pub version: u32,
    pub username: String,
    pub user_id: String,
    pub end_cursor: Option<String>,
    pub pages_done: u32,
    pub assets_downloaded: u64,
    pub assets_skipped: u64,
    pub completed: bool,
    pub updated_at: String,
}

/// A job state as a mathematical value.
pub struct JobView {
    pub version: u32,
    pub username: Seq<char>,
    pub user_id: Seq<char>,
    pub end_cursor: Option<Seq<char>>,
    pub pages_done: u32,
    pub assets_downloaded: u64,
    pub assets_skipped: u64,
    pub completed: bool,
    pub updated_at: Seq<char>,
}

impl View for JobState {
    type V = JobView;

    open spec fn view(&self) -> JobView {
        JobView {
            version: self.version,
            username: self.username@,
            user_id: self.user_id@,
            end_cursor: opt_view(self.end_cursor),
            pages_done: self.pages_done,
            assets_downloaded: self.assets_downloaded,
            assets_skipped: self.assets_skipped,
            completed: self.completed,
            updated_at: self.updated_at@,
        }
    }
}

/// What the archive's metadata says of one saved asset.
#[derive(Debug)]
pub struct AssetRecord {
    pub key: String,
    pub shortcode: String,
    pub is_video: bool,
    pub file: String,
    pub taken_at: Option<i64>,
    pub caption: Option<String>,
    /// Instagram's stable media id, absent in archives written before it
    /// was recorded.
    pub media_id: Option<String>,
}

/// The metadata kept beside an archive.
#[derive(Debug)]
pub struct ArchiveMetadata {
    pub version: u32,
    pub username: String,
    pub user_id: String,
    pub media_count: Option<u64>,
    pub downloaded: u64,
    pub assets: Vec<AssetRecord>,
}

/// The keys of the recorded assets, in order.
pub open spec fn record_keys(v: Seq<AssetRecord>) -> Seq<Seq<char>> {
    v.map_values(|r: AssetRecord| r.key@)
}

/// A record describes an asset saved as `file`.
pub open spec fn describes(r: AssetRecord, a: Asset, file: Seq<char>) -> bool {
    &&& r.key@ == a.key@
    &&& r.shortcode@ == a.shortcode@
    &&& r.is_video == a.is_video
    &&& r.file@ == file
    &&& r.taken_at == a.taken_at
    &&& opt_view(r.caption) == opt_view(a.caption)
    &&& opt_view(r.media_id) == opt_view(a.media_id)
}

fn copy_opt_string(o: &Option<String>) -> (r: Option<String>)
    ensures
        opt_view(r) == opt_view(*o),
{
    match o {
        Some(s) => Some(s.clone()),
        None => None,
    }
}

impl ArchiveMetadata {
    /// Well-formed metadata: each asset recorded once, and the download
    /// count equal to the number of records.
    pub open spec fn wf(&self) -> bool {
        &&& record_keys(self.assets@).no_duplicates()
        &&& self.downloaded == self.assets@.len()
    }

    /// Fresh metadata for a profile (version 1, nothing recorded).
    pub fn new(username: &str, user_id: &str) -> (m: ArchiveMetadata)
        ensures
            m.wf(),
            m.version == 1,
            m.username@ == username@,
            m.user_id@ == user_id@,
            m.media_count is None,
            m.downloaded == 0,
            m.assets@.len() == 0,
    {
        let m = ArchiveMetadata {
            version: 1,
            username: String::from_str(username),
            user_id: String::from_str(user_id),
            media_count: None,
            downloaded: 0,
            assets: Vec::new(),
        };
        assert(record_keys(m.assets@) =~= Seq::<Seq<char>>::empty());
        m
    }

    /// Record a saved asset, once: an asset whose key is already recorded
    /// leaves the metadata unchanged; otherwise its record is appended and
    /// the download count follows the number of records.
    pub fn record(&mut self, asset: &Asset, file: &str)
        ensures
            record_keys(old(self).assets@).contains(asset.key@) ==> *final(self) == *old(self),
            !record_keys(old(self).assets@).contains(asset.key@) ==> {
                &&& final(self).assets@.len() == old(self).assets@.len() + 1
                &&& final(self).assets@.take(old(self).assets@.len() as int) == old(self).assets@
                &&& describes(final(self).assets@.last(), *asset, file@)
                &&& final(self).downloaded == final(self).assets@.len()
                &&& final(self).version == old(self).version
                &&& final(self).username == old(self).username
                &&& final(self).user_id == old(self).user_id
                &&& final(self).media_count == old(self).media_count
            },
            old(self).wf() ==> final(self).wf(),
            record_keys(final(self).assets@).contains(asset.key@),
    {
        let k = chars_of(asset.key.as_str());
        let mut i: usize = 0;
        while i < self.assets.len()
            invariant
                i <= self.assets.len(),
                k@ == asset.key@,
                forall|j: int| 0 <= j < i ==> record_keys(self.assets@)[j] != asset.key@,
            decreases self.assets.len() - i,
        {
            if same_text(self.assets[i].key.as_str(), k.as_slice()) {
                assert(record_keys(self.assets@)[i as int] == asset.key@);
                return;
            }
            i += 1;
        }
        assert(!record_keys(self.assets@).contains(asset.key@));
        let ghost before = self.assets@;
        self.assets.push(
            AssetRecord {
                key: asset.key.clone(),
                shortcode: asset.shortcode.clone(),
                is_video: asset.is_video,
                file: String::from_str(file),
                taken_at: asset.taken_at,
                caption: copy_opt_string(&asset.caption),
                media_id: copy_opt_string(&asset.media_id),
            },
        );
        self.downloaded = self.assets.len() as u64;
        assert(self.assets@.take(before.len() as int) =~= before);
        assert(record_keys(self.assets@) =~= record_keys(before).push(asset.key@));
        assert(record_keys(self.assets@)[before.len() as int] == asset.key@);
        proof {
            if record_keys(before).no_duplicates() {
                let ks = record_keys(self.assets@);
                assert forall|a: int, b: int|
                    0 <= a < ks.len() && 0 <= b < ks.len() && a != b implies ks[a] != ks[b] by {
                    if a == before.len() as int {
                        assert(record_keys(before)[b] == ks[b]);
                    } else if b == before.len() as int {
                        assert(record_keys(before)[a] == ks[a]);
                    }
                }
            }
        }
    }
}

} // verus!
