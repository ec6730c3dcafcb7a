//! Reading an Instagram session out of a Chromium browser's cookie store:
//! the browser table, and the decryption of `v10`/`v11` cookie values
//! (AES-128-CBC under a PBKDF2-HMAC-SHA1 key).

use vstd::prelude::*;
use cbc::cipher::{BlockDecryptMut, KeyIvInit};
use cbc::cipher::block_padding::Pkcs7;
use crate::appdata::join_path;
use crate::auth::Credentials;
use crate::error::{ErrorView, ImagoError};
use crate::text::{
    chars_of, contains_spec, contains_str, eq_ignore_case, eq_ignore_case_spec, lossy_text,
    starts_with_chars, starts_with_spec, string_of, trim_chars, trim_spec, utf8_lossy,
};

verus! {

// ---------------------------------------------------------------------
// Browsers
// ---------------------------------------------------------------------

/// A Chromium-family browser: its label, where its profiles live under the
/// configuration directory on Linux and macOS, and its macOS keychain
/// entry.
#[derive(Debug)]
pub struct Browser {
    pub label: &'static str,
    pub linux_roots: Vec<&'static str>,
    pub macos_roots: Vec<&'static str>,
    pub macos_keychain_service: &'static str,
    pub macos_keychain_account: &'static str,
}

/// A browser as a mathematical value.
#[verifier::ext_equal]
pub struct BrowserView {
    pub label: Seq<char>,
    pub linux_roots: Seq<Seq<char>>,
    pub macos_roots: Seq<Seq<char>>,
    pub macos_keychain_service: Seq<char>,
    pub macos_keychain_account: Seq<char>,
}

/// The views of string slices.
pub open spec fn strs_view(v: Seq<&'static str>) -> Seq<Seq<char>> {
    v.map_values(|s: &'static str| s@)
}

impl View for Browser {
    type V = BrowserView;

    open spec fn view(&self) -> BrowserView {
        BrowserView {
            label: self.label@,
            linux_roots: strs_view(self.linux_roots@),
            macos_roots: strs_view(self.macos_roots@),
            macos_keychain_service: self.macos_keychain_service@,
            macos_keychain_account: self.macos_keychain_account@,
        }
    }
}

/// A table entry.
pub open spec fn entry(
    label: &'static str,
    linux: Seq<&'static str>,
    macos: Seq<&'static str>,
    service: &'static str,
    account: &'static str,
) -> BrowserView {
    BrowserView {
        label: label@,
        linux_roots: strs_view(linux),
        macos_roots: strs_view(macos),
        macos_keychain_service: service@,
        macos_keychain_account: account@,
    }
}

/// The supported browsers, in the order they are searched.
pub open spec fn table_spec() -> Seq<BrowserView> {
    seq![
        entry("Vivaldi", seq!["vivaldi", "vivaldi-snapshot"], seq!["Vivaldi", "Vivaldi Snapshot"],
            "Vivaldi Safe Storage", "Vivaldi"),
        entry("Chrome", seq!["google-chrome", "google-chrome-beta", "google-chrome-unstable"],
            seq!["Google/Chrome", "Google/Chrome Beta", "Google/Chrome Dev", "Google/Chrome Canary"],
            "Chrome Safe Storage", "Chrome"),
        entry("Chromium", seq!["chromium"], seq!["Chromium"], "Chromium Safe Storage", "Chromium"),
        entry("Brave", seq!["BraveSoftware/Brave-Browser", "BraveSoftware/Brave-Browser-Beta",
            "BraveSoftware/Brave-Browser-Nightly"], seq!["BraveSoftware/Brave-Browser",
            "BraveSoftware/Brave-Browser-Beta", "BraveSoftware/Brave-Browser-Nightly"],
            "Brave Safe Storage", "Brave"),
        entry("Microsoft Edge", seq!["microsoft-edge", "microsoft-edge-beta", "microsoft-edge-dev",
            "microsoft-edge-canary"], seq!["Microsoft Edge", "Microsoft Edge Beta",
            "Microsoft Edge Dev", "Microsoft Edge Canary"], "Microsoft Edge Safe Storage",
            "Microsoft Edge"),
        entry("Opera", seq!["opera"], seq!["com.operasoftware.Opera",
            "com.operasoftware.OperaDeveloper", "com.operasoftware.OperaNext"],
            "Opera Safe Storage", "Opera"),
    ]
}

/// The labels of the supported browsers.
pub open spec fn labels_spec() -> Seq<Seq<char>> {
    table_spec().map_values(|b: BrowserView| b.label)
}

/// A browser claims a path when one of its profile roots (on either
/// platform) occurs in it.
pub open spec fn claims(b: BrowserView, path: Seq<char>) -> bool {
    exists|k: int|
        0 <= k < (b.linux_roots + b.macos_roots).len() && contains_spec(
            path,
            #[trigger] (b.linux_roots + b.macos_roots)[k],
        )
}

/// The position of the browser a path belongs to: the first that claims
/// it, else the first browser.
pub open spec fn inferred_index(path: Seq<char>) -> int {
    if exists|i: int| 0 <= i < 6 && claims(table_spec()[i], path) {
        choose|i: int|
            0 <= i < 6 && claims(table_spec()[i], path) && forall|j: int|
                0 <= j < i ==> !claims(table_spec()[j], path)
    } else {
        0
    }
}

fn list1(a: &'static str) -> (r: Vec<&'static str>)
    ensures
        r@ == seq![a],
{
    let mut v: Vec<&'static str> = Vec::new();
    v.push(a);
    assert(v@ =~= seq![a]);
    v
}

fn list2(a: &'static str, b: &'static str) -> (r: Vec<&'static str>)
    ensures
        r@ == seq![a, b],
{
    let mut v = list1(a);
    v.push(b);
    assert(v@ =~= seq![a, b]);
    v
}

fn list3(a: &'static str, b: &'static str, c: &'static str) -> (r: Vec<&'static str>)
    ensures
        r@ == seq![a, b, c],
{
    let mut v = list2(a, b);
    v.push(c);
    assert(v@ =~= seq![a, b, c]);
    v
}

fn list4(a: &'static str, b: &'static str, c: &'static str, d: &'static str) -> (r: Vec<
    &'static str,
>)
    ensures
        r@ == seq![a, b, c, d],
{
    let mut v = list3(a, b, c);
    v.push(d);
    assert(v@ =~= seq![a, b, c, d]);
    v
}

/// The supported browsers.
pub fn browsers() -> (r: Vec<Browser>)
    ensures
        r@.map_values(|b: Browser| b@) == table_spec(),
{
    let mut v: Vec<Browser> = Vec::new();
    v.push(
        Browser {
            label: "Vivaldi",
            linux_roots: list2("vivaldi", "vivaldi-snapshot"),
            macos_roots: list2("Vivaldi", "Vivaldi Snapshot"),
            macos_keychain_service: "Vivaldi Safe Storage",
            macos_keychain_account: "Vivaldi",
        },
    );
    v.push(
        Browser {
            label: "Chrome",
            linux_roots: list3("google-chrome", "google-chrome-beta", "google-chrome-unstable"),
            macos_roots: list4("Google/Chrome", "Google/Chrome Beta", "Google/Chrome Dev", "Google/Chrome Canary"),
            macos_keychain_service: "Chrome Safe Storage",
            macos_keychain_account: "Chrome",
        },
    );
    v.push(
        Browser {
            label: "Chromium",
            linux_roots: list1("chromium"),
            macos_roots: list1("Chromium"),
            macos_keychain_service: "Chromium Safe Storage",
            macos_keychain_account: "Chromium",
        },
    );
    v.push(
        Browser {
            label: "Brave",
            linux_roots: list3("BraveSoftware/Brave-Browser", "BraveSoftware/Brave-Browser-Beta", "BraveSoftware/Brave-Browser-Nightly"),
            macos_roots: list3("BraveSoftware/Brave-Browser", "BraveSoftware/Brave-Browser-Beta", "BraveSoftware/Brave-Browser-Nightly"),
            macos_keychain_service: "Brave Safe Storage",
            macos_keychain_account: "Brave",
        },
    );
    v.push(
        Browser {
            label: "Microsoft Edge",
            linux_roots: list4("microsoft-edge", "microsoft-edge-beta", "microsoft-edge-dev", "microsoft-edge-canary"),
            macos_roots: list4("Microsoft Edge", "Microsoft Edge Beta", "Microsoft Edge Dev", "Microsoft Edge Canary"),
            macos_keychain_service: "Microsoft Edge Safe Storage",
            macos_keychain_account: "Microsoft Edge",
        },
    );
    v.push(
        Browser {
            label: "Opera",
            linux_roots: list1("opera"),
            macos_roots: list3("com.operasoftware.Opera", "com.operasoftware.OperaDeveloper", "com.operasoftware.OperaNext"),
            macos_keychain_service: "Opera Safe Storage",
            macos_keychain_account: "Opera",
        },
    );
    assert(v@.map_values(|b: Browser| b@) =~~= table_spec());
    v
}

/// The labels of the supported browsers.
pub fn browser_labels() -> (r: Vec<&'static str>)
    ensures
        r@.map_values(|l: &'static str| l@) == labels_spec(),
{
    let bs = browsers();
    let ghost t = bs@.map_values(|b: Browser| b@);
    assert(table_spec().len() == 6);
    assert(t.len() == bs@.len());
    let mut out: Vec<&'static str> = Vec::new();
    let mut i: usize = 0;
    while i < bs.len()
        invariant
            t == bs@.map_values(|b: Browser| b@),
            t == table_spec(),
            bs@.len() == 6,
            i <= bs.len(),
            out@.map_values(|l: &'static str| l@) == labels_spec().take(i as int),
        decreases bs.len() - i,
    {
        assert(t[i as int] == bs@[i as int]@);
        assert(labels_spec()[i as int] == bs@[i as int].label@);
        let ghost before = out@;
        out.push(bs[i].label);
        assert(out@.map_values(|l: &'static str| l@) =~= before.map_values(
            |l: &'static str| l@,
        ).push(bs@[i as int].label@));
        assert(labels_spec().take(i + 1) =~= labels_spec().take(i as int).push(
            labels_spec()[i as int],
        ));
        i += 1;
    }
    assert(labels_spec().take(bs.len() as int) =~= labels_spec());
    out
}

/// The profile roots of a browser on the running platform.
pub fn browser_roots(browser: &Browser, macos: bool) -> (r: &Vec<&'static str>)
    ensures
        macos ==> r == &browser.macos_roots,
        !macos ==> r == &browser.linux_roots,
{
    if macos {
        &browser.macos_roots
    } else {
        &browser.linux_roots
    }
}

fn claims_exec(b: &Browser, path: &[char]) -> (r: bool)
    ensures
        r == claims(b@, path@),
{
    let ghost roots = b@.linux_roots + b@.macos_roots;
    let mut i: usize = 0;
    while i < b.linux_roots.len()
        invariant
            i <= b.linux_roots.len(),
            roots == b@.linux_roots + b@.macos_roots,
            forall|k: int| 0 <= k < i ==> !contains_spec(path@, #[trigger] roots[k]),
        decreases b.linux_roots.len() - i,
    {
        assert(roots[i as int] == b.linux_roots@[i as int]@);
        if contains_str(path, b.linux_roots[i]) {
            return true;
        }
        i += 1;
    }
    let mut j: usize = 0;
    while j < b.macos_roots.len()
        invariant
            j <= b.macos_roots.len(),
            roots == b@.linux_roots + b@.macos_roots,
            forall|k: int| 0 <= k < b.linux_roots.len() + j ==> !contains_spec(path@, #[trigger] roots[k]),
        decreases b.macos_roots.len() - j,
    {
        assert(roots[b.linux_roots.len() + j] == b.macos_roots@[j as int]@);
        if contains_str(path, b.macos_roots[j]) {
            return true;
        }
        j += 1;
    }
    false
}

/// The browser a cookie-store path belongs to: the first whose profile
/// root (for either platform) occurs in the path, else the first browser.
pub fn infer_browser(path: &str) -> (r: Browser)
    ensures
        r@ == table_spec()[inferred_index(path@)],
{
    let p = chars_of(path);
    let mut bs = browsers();
    let ghost t = table_spec();
    assert(table_spec().len() == 6);
    assert(bs@.map_values(|b: Browser| b@).len() == bs@.len());
    let mut i: usize = 0;
    while i < bs.len()
        invariant
            bs@.map_values(|b: Browser| b@) == t,
            t == table_spec(),
            bs@.len() == 6,
            p@ == path@,
            i <= bs.len(),
            forall|j: int| 0 <= j < i ==> !claims(t[j], path@),
        decreases bs.len() - i,
    {
        assert(t[i as int] == bs@[i as int]@);
        let b = &bs[i];
        let found = claims_exec(b, p.as_slice());
        assert(p@ == path@);
        assert(found == claims(b@, p@));
        assert(b@ == bs@[i as int]@);
        assert(found == claims(t[i as int], path@));
        if found {
            let ghost w = choose|k: int|
                0 <= k < 6 && claims(table_spec()[k], path@) && forall|j: int|
                    0 <= j < k ==> !claims(table_spec()[j], path@);
            assert(0 <= i < 6 && claims(table_spec()[i as int], path@));
            assert(w == i) by {
                if w < i {
                } else if w > i {
                }
            }
            let b = bs.remove(i);
            return b;
        }
        i += 1;
    }
    assert(t[0] == bs@[0]@);
    bs.remove(0)
}

/// Whether the cookie rows hold both session cookies.
pub open spec fn has_session_spec(names: Seq<Seq<char>>) -> bool {
    names.contains("sessionid"@) && names.contains("csrftoken"@)
}

/// The names of cookie rows.
pub open spec fn row_names(rows: Seq<(String, Vec<u8>)>) -> Seq<Seq<char>> {
    rows.map_values(|r: (String, Vec<u8>)| r.0@)
}

fn has_name(rows: &[(String, Vec<u8>)], name: &str) -> (r: bool)
    ensures
        r == row_names(rows@).contains(name@),
{
    let n = chars_of(name);
    let mut i: usize = 0;
    while i < rows.len()
        invariant
            i <= rows.len(),
            n@ == name@,
            forall|k: int| 0 <= k < i ==> row_names(rows@)[k] != name@,
        decreases rows.len() - i,
    {
        if crate::json::same_text(rows[i].0.as_str(), n.as_slice()) {
            assert(row_names(rows@)[i as int] == name@);
            return true;
        }
        i += 1;
    }
    false
}

/// Whether a cookie store holds both `sessionid` and `csrftoken`.
pub fn has_session(rows: &[(String, Vec<u8>)]) -> (r: bool)
    ensures
        r == has_session_spec(row_names(rows@)),
{
    has_name(rows, "sessionid") && has_name(rows, "csrftoken")
}

} // verus!

verus! {

// ---------------------------------------------------------------------
// Cookie decryption
// ---------------------------------------------------------------------

/// How a platform encrypts cookie values: the version prefixes it writes
/// and the PBKDF2 iteration count of its key.
#[derive(Debug)]
pub struct CookieScheme {
    pub prefixes: Vec<Vec<u8>>,
    pub iterations: u32,
}

/// The views of byte vectors.
pub open spec fn bytes_view(v: Seq<Vec<u8>>) -> Seq<Seq<u8>> {
    v.map_values(|b: Vec<u8>| b@)
}

/// `v10`.
pub open spec fn v10() -> Seq<u8> {
    seq![118u8, 49u8, 48u8]
}

/// `v11`.
pub open spec fn v11() -> Seq<u8> {
    seq![118u8, 49u8, 49u8]
}

fn prefix_bytes(last: u8) -> (r: Vec<u8>)
    ensures
        r@ == seq![118u8, 49u8, last],
{
    let mut v: Vec<u8> = Vec::new();
    v.push(118u8);
    v.push(49u8);
    v.push(last);
    assert(v@ =~= seq![118u8, 49u8, last]);
    v
}

impl CookieScheme {
    /// Linux and other non-macOS systems: `v10` (the "peanuts" password) or
    /// `v11` (a keyring secret), one PBKDF2 iteration.
    pub fn linux() -> (r: CookieScheme)
        ensures
            bytes_view(r.prefixes@) == seq![v10(), v11()],
            r.iterations == 1,
    {
        let mut p: Vec<Vec<u8>> = Vec::new();
        p.push(prefix_bytes(48u8));
        p.push(prefix_bytes(49u8));
        assert(bytes_view(p@) =~= seq![v10(), v11()]);
        CookieScheme { prefixes: p, iterations: 1 }
    }

    /// macOS: `v10` under a keychain secret, 1003 PBKDF2 iterations.
    pub fn macos() -> (r: CookieScheme)
        ensures
            bytes_view(r.prefixes@) == seq![v10()],
            r.iterations == 1003,
    {
        let mut p: Vec<Vec<u8>> = Vec::new();
        p.push(prefix_bytes(48u8));
        assert(bytes_view(p@) =~= seq![v10()]);
        CookieScheme { prefixes: p, iterations: 1003 }
    }
}

/// The profile directories of a browser root: the root itself, its
/// `Default` profile, then each entry named `Profile …` among `names`, in
/// order.
pub open spec fn profile_dirs_spec(root: Seq<char>, names: Seq<Seq<char>>) -> Seq<Seq<char>>
    decreases names.len(),
{
    if names.len() == 0 {
        seq![root, crate::appdata::join_spec(root, "Default"@)]
    } else if starts_with_spec(names.last(), "Profile "@) {
        profile_dirs_spec(root, names.drop_last()).push(crate::appdata::join_spec(root, names.last()))
    } else {
        profile_dirs_spec(root, names.drop_last())
    }
}

/// The profile directories under a browser root, given the names of the
/// root's entries.
pub fn profile_dirs(root: &str, names: &Vec<String>) -> (r: Vec<String>)
    ensures
        r@.map_values(|s: String| s@) == profile_dirs_spec(root@, names@.map_values(|s: String| s@)),
{
    let ghost ns = names@.map_values(|s: String| s@);
    let mut out: Vec<String> = Vec::new();
    out.push(String::from_str(root));
    out.push(join_path(root, "Default"));
    assert(ns.take(0) =~= Seq::<Seq<char>>::empty());
    assert(out@.map_values(|s: String| s@) =~= profile_dirs_spec(root@, ns.take(0)));
    let mut i: usize = 0;
    while i < names.len()
        invariant
            i <= names.len(),
            ns == names@.map_values(|s: String| s@),
            out@.map_values(|s: String| s@) == profile_dirs_spec(root@, ns.take(i as int)),
        decreases names.len() - i,
    {
        assert(ns.take(i + 1).drop_last() =~= ns.take(i as int));
        assert(ns.take(i + 1).last() == names@[i as int]@);
        let cs = chars_of(names[i].as_str());
        if starts_with_chars(cs.as_slice(), chars_of("Profile ").as_slice()) {
            let ghost before = out@;
            out.push(join_path(root, names[i].as_str()));
            assert(out@.map_values(|s: String| s@) =~= before.map_values(|s: String| s@).push(
                crate::appdata::join_spec(root@, names@[i as int]@),
            ));
        }
        i += 1;
    }
    assert(ns.take(names.len() as int) =~= ns);
    out
}

/// The cookie databases a profile directory may hold: the current
/// `Network/Cookies`, then the older `Cookies`.
pub fn cookie_db_paths(profile: &str) -> (r: Vec<String>)
    ensures
        r@.len() == 2,
        r@[0]@ == crate::appdata::join_spec(profile@, "Network/Cookies"@),
        r@[1]@ == crate::appdata::join_spec(profile@, "Cookies"@),
{
    let mut v: Vec<String> = Vec::new();
    v.push(join_path(profile, "Network/Cookies"));
    v.push(join_path(profile, "Cookies"));
    v
}

/// Whether a login-keyring item may hold a browser's cookie key: its label
/// mentions "Safe Storage" or starts with "xdg-desktop-portal" (browsers
/// cross-name their keys, and KDE routes them through the desktop portal).
pub fn is_cookie_key_label(label: &str) -> (r: bool)
    ensures
        r == (contains_spec(label@, "Safe Storage"@) || starts_with_spec(
            label@,
            "xdg-desktop-portal"@,
        )),
{
    let cs = chars_of(label);
    contains_str(cs.as_slice(), "Safe Storage") || starts_with_chars(
        cs.as_slice(),
        chars_of("xdg-desktop-portal").as_slice(),
    )
}

/// The password Chromium uses on Linux when no keyring is available.
pub open spec fn peanuts() -> Seq<u8> {
    seq![112u8, 101u8, 97u8, 110u8, 117u8, 116u8, 115u8]
}

/// The non-empty byte strings among `v`, in order.
pub open spec fn non_empty(v: Seq<Seq<u8>>) -> Seq<Seq<u8>>
    decreases v.len(),
{
    if v.len() == 0 {
        Seq::empty()
    } else if v.last().len() > 0 {
        non_empty(v.drop_last()).push(v.last())
    } else {
        non_empty(v.drop_last())
    }
}

/// The passwords to try on Linux: the non-empty keyring secrets found, in
/// order, then the fixed fallback password.
pub fn linux_passwords(secrets: Vec<Vec<u8>>) -> (r: Vec<Vec<u8>>)
    ensures
        bytes_view(r@) == non_empty(bytes_view(secrets@)).push(peanuts()),
{
    let ghost all = bytes_view(secrets@);
    let mut out: Vec<Vec<u8>> = Vec::new();
    let mut rest = secrets;
    let n = rest.len();
    let mut i: usize = 0;
    while i < n
        invariant
            n == all.len(),
            i <= n,
            rest@.len() == n - i,
            forall|k: int| 0 <= k < rest@.len() ==> rest@[k]@ == all[k + i],
            bytes_view(out@) == non_empty(all.take(i as int)),
        decreases n - i,
    {
        let s = rest.remove(0);
        assert(all.take(i + 1).drop_last() =~= all.take(i as int));
        assert(all.take(i + 1).last() == s@);
        if s.len() > 0 {
            let ghost before = out@;
            out.push(s);
            assert(bytes_view(out@) =~= bytes_view(before).push(s@));
        }
        i += 1;
    }
    assert(all.take(n as int) =~= all);
    let mut fallback: Vec<u8> = Vec::new();
    fallback.push(112u8);
    fallback.push(101u8);
    fallback.push(97u8);
    fallback.push(110u8);
    fallback.push(117u8);
    fallback.push(116u8);
    fallback.push(115u8);
    assert(fallback@ =~= peanuts());
    let ghost before = out@;
    out.push(fallback);
    assert(bytes_view(out@) =~= bytes_view(before).push(peanuts()));
    out
}

/// The PBKDF2 salt Chromium uses (`saltysalt`).
pub open spec fn salt_spec() -> Seq<u8> {
    seq![115u8, 97u8, 108u8, 116u8, 121u8, 115u8, 97u8, 108u8, 116u8]
}

/// The AES-CBC initialisation vector Chromium uses: sixteen spaces.
pub open spec fn iv_spec() -> Seq<u8> {
    Seq::new(16, |i: int| 32u8)
}

/// The 16-byte key PBKDF2-HMAC-SHA1 derives from a password, salt and
/// iteration count.
pub uninterp spec fn pbkdf2_sha1_key(password: Seq<u8>, salt: Seq<u8>, rounds: u32) -> Seq<u8>;

/// `pbkdf2::pbkdf2::<Hmac<Sha1>>` into a 16-byte buffer. The key is named
/// by `pbkdf2_sha1_key`; the call never fails, since HMAC accepts keys of
/// any length (as the crate's source notes). The algorithm is left unsaid.
#[verifier::external_body]
fn pbkdf2_hmac_sha1(password: &[u8], salt: &[u8], rounds: u32) -> (r: Option<[u8; 16]>)
    ensures
        r is Some,
        r matches Some(k) ==> k@ == pbkdf2_sha1_key(password@, salt@, rounds),
{
    let mut key = [0u8; 16];
    match pbkdf2::pbkdf2::<hmac::Hmac<sha1::Sha1>>(password, salt, rounds, &mut key) {
        Ok(()) => Some(key),
        Err(_) => None,
    }
}

/// The plaintext AES-128-CBC with PKCS#7 padding recovers from a
/// ciphertext, or `None` when the padding is malformed.
pub uninterp spec fn aes_cbc_plain(key: Seq<u8>, iv: Seq<u8>, ct: Seq<u8>) -> Option<Seq<u8>>;

/// `cbc::Decryptor::<Aes128>::new(key, iv).decrypt_padded_mut::<Pkcs7>`: the
/// outcome is named by `aes_cbc_plain`; the cipher is left unsaid.
#[verifier::external_body]
fn aes_cbc_decrypt(key: &[u8; 16], iv: &[u8; 16], body: &[u8]) -> (r: Option<Vec<u8>>)
    ensures
        match aes_cbc_plain(key@, iv@, body@) {
            Some(p) => (r matches Some(v) && v@ == p),
            None => r is None,
        },
{
    let mut buf = body.to_vec();
    match cbc::Decryptor::<aes::Aes128>::new(key.into(), iv.into()).decrypt_padded_mut::<Pkcs7>(
        &mut buf,
    ) {
        Ok(p) => Some(p.to_vec()),
        Err(_) => None,
    }
}

/// Derive a cookie key from a keyring password (PBKDF2-HMAC-SHA1 over the
/// `saltysalt` salt, 16 bytes).
pub fn derive_key(password: &[u8], iterations: u32) -> (r: Option<[u8; 16]>)
    ensures
        r matches Some(k) && k@ == pbkdf2_sha1_key(password@, salt_spec(), iterations),
{
    let salt: [u8; 9] = [115u8, 97u8, 108u8, 116u8, 121u8, 115u8, 97u8, 108u8, 116u8];
    assert(salt@ =~= salt_spec());
    pbkdf2_hmac_sha1(password, &salt, iterations)
}

/// The body of a cookie value after the first version prefix it starts
/// with.
pub open spec fn strip_version(ct: Seq<u8>, prefixes: Seq<Seq<u8>>) -> Option<Seq<u8>>
    decreases prefixes.len(),
{
    if prefixes.len() == 0 {
        None
    } else if prefixes[0].len() <= ct.len() && ct.take(prefixes[0].len() as int) == prefixes[0] {
        Some(ct.skip(prefixes[0].len() as int))
    } else {
        strip_version(ct, prefixes.drop_first())
    }
}

/// What AES decryption of a cookie value gives.
pub open spec fn aes_spec(ct: Seq<u8>, key: Seq<u8>, prefixes: Seq<Seq<u8>>) -> Result<
    Seq<u8>,
    ErrorView,
> {
    match strip_version(ct, prefixes) {
        None => Err(ErrorView::Auth("cookie missing version prefix"@)),
        Some(body) => if body.len() == 0 || body.len() % 16 != 0 {
            Err(ErrorView::Auth("ciphertext length not a multiple of 16"@))
        } else {
            match aes_cbc_plain(key, iv_spec(), body) {
                None => Err(ErrorView::Auth("AES-CBC/PKCS7 decrypt failed"@)),
                Some(p) => Ok(p),
            }
        },
    }
}

/// Printable cookie bytes: tab, newline, carriage return or visible ASCII.
pub open spec fn printable(b: Seq<u8>) -> bool {
    forall|i: int|
        0 <= i < b.len() ==> (#[trigger] b[i] == 9 || b[i] == 10 || b[i] == 13 || (32 <= b[i]
            && b[i] < 127))
}

/// Length of the integrity hash newer Chromium versions prepend.
pub const INTEGRITY_PREFIX_LEN: usize = 32;

/// What decrypting one cookie value with a key gives: the printable
/// plaintext, else the printable text after a 32-byte integrity prefix.
pub open spec fn value_spec(ct: Seq<u8>, key: Seq<u8>, prefixes: Seq<Seq<u8>>) -> Result<
    Seq<char>,
    ErrorView,
> {
    match aes_spec(ct, key, prefixes) {
        Err(e) => Err(e),
        Ok(plain) => if plain.len() > 0 && printable(plain) {
            Ok(lossy_text(plain))
        } else if plain.len() > 32 && printable(plain.skip(32)) {
            Ok(lossy_text(plain.skip(32)))
        } else {
            Err(ErrorView::Auth("decrypted bytes are not a printable cookie"@))
        },
    }
}

fn strip_version_exec(ct: &[u8], prefixes: &Vec<Vec<u8>>) -> (r: Option<Vec<u8>>)
    ensures
        match strip_version(ct@, bytes_view(prefixes@)) {
            Some(b) => (r matches Some(v) && v@ == b),
            None => r is None,
        },
{
    let ghost ps = bytes_view(prefixes@);
    let mut i: usize = 0;
    assert(ps.skip(0) =~= ps);
    while i < prefixes.len()
        invariant
            i <= prefixes.len(),
            ps == bytes_view(prefixes@),
            strip_version(ct@, ps) == strip_version(ct@, ps.skip(i as int)),
        decreases prefixes.len() - i,
    {
        assert(ps.skip(i as int).drop_first() =~= ps.skip(i + 1));
        assert(ps.skip(i as int)[0] == prefixes@[i as int]@);
        let p = &prefixes[i];
        if p.len() <= ct.len() {
            let mut k: usize = 0;
            let mut same = true;
            while k < p.len()
                invariant
                    p.len() <= ct.len(),
                    k <= p.len(),
                    same <==> forall|m: int| 0 <= m < k ==> ct@[m] == p@[m],
                decreases p.len() - k,
            {
                if ct[k] != p[k] {
                    same = false;
                }
                k += 1;
            }
            if same {
                assert(ct@.take(p.len() as int) =~= p@);
                let mut body: Vec<u8> = Vec::new();
                let mut j: usize = p.len();
                while j < ct.len()
                    invariant
                        p.len() <= j <= ct.len(),
                        body@ == ct@.subrange(p.len() as int, j as int),
                    decreases ct.len() - j,
                {
                    body.push(ct[j]);
                    assert(ct@.subrange(p.len() as int, j as int).push(ct@[j as int])
                        =~= ct@.subrange(p.len() as int, j + 1));
                    j += 1;
                }
                assert(body@ =~= ct@.skip(p.len() as int));
                return Some(body);
            } else {
                assert(ct@.take(p.len() as int) != p@) by {
                    let m = choose|m: int| 0 <= m < p.len() && ct@[m] != p@[m];
                    assert(ct@.take(p.len() as int)[m] != p@[m]);
                }
            }
        }
        i += 1;
    }
    assert(ps.skip(i as int) =~= Seq::<Seq<u8>>::empty());
    None
}

/// Decrypt a cookie value: strip its version prefix, check the length,
/// AES-128-CBC decrypt with PKCS#7 unpadding.
pub fn decrypt_aes_cbc(encrypted: &[u8], key: &[u8; 16], scheme: &CookieScheme) -> (r: Result<
    Vec<u8>,
    ImagoError,
>)
    ensures
        match (r, aes_spec(encrypted@, key@, bytes_view(scheme.prefixes@))) {
            (Ok(a), Ok(b)) => a@ == b,
            (Err(e), Err(f)) => e@ == f,
            _ => false,
        },
{
    let body = match strip_version_exec(encrypted, &scheme.prefixes) {
        Some(b) => b,
        None => return Err(ImagoError::Auth(String::from_str("cookie missing version prefix"))),
    };
    if body.len() == 0 || body.len() % 16 != 0 {
        return Err(ImagoError::Auth(String::from_str("ciphertext length not a multiple of 16")));
    }
    let iv: [u8; 16] = [32u8; 16];
    assert(iv@ =~= iv_spec());
    match aes_cbc_decrypt(key, &iv, body.as_slice()) {
        Some(p) => Ok(p),
        None => Err(ImagoError::Auth(String::from_str("AES-CBC/PKCS7 decrypt failed"))),
    }
}

/// Whether all bytes from `start` on are printable.
pub fn is_printable_from(bytes: &[u8], start: usize) -> (r: bool)
    requires
        start <= bytes.len(),
    ensures
        r == printable(bytes@.skip(start as int)),
{
    let mut i: usize = start;
    while i < bytes.len()
        invariant
            start <= i <= bytes.len(),
            forall|k: int|
                start <= k < i ==> (#[trigger] bytes@[k] == 9 || bytes@[k] == 10 || bytes@[k]
                    == 13 || (32 <= bytes@[k] && bytes@[k] < 127)),
        decreases bytes.len() - i,
    {
        let b = bytes[i];
        if !(b == 9 || b == 10 || b == 13 || (32 <= b && b < 127)) {
            assert(bytes@.skip(start as int)[i - start] == b);
            return false;
        }
        i += 1;
    }
    assert forall|k: int| 0 <= k < bytes@.skip(start as int).len() implies (#[trigger] bytes@.skip(
        start as int,
    )[k] == 9 || bytes@.skip(start as int)[k] == 10 || bytes@.skip(start as int)[k] == 13 || (32
        <= bytes@.skip(start as int)[k] && bytes@.skip(start as int)[k] < 127)) by {
        assert(bytes@.skip(start as int)[k] == bytes@[start + k]);
    }
    true
}

/// Whether bytes are a printable cookie value.
pub fn is_printable(bytes: &[u8]) -> (r: bool)
    ensures
        r == printable(bytes@),
{
    assert(bytes@.skip(0) =~= bytes@);
    is_printable_from(bytes, 0)
}

/// Decrypt one cookie value with a key: the printable plaintext, or the
/// printable text after a 32-byte integrity prefix.
pub fn decrypt_value(encrypted: &[u8], key: &[u8; 16], scheme: &CookieScheme) -> (r: Result<
    String,
    ImagoError,
>)
    ensures
        match (r, value_spec(encrypted@, key@, bytes_view(scheme.prefixes@))) {
            (Ok(a), Ok(b)) => a@ == b,
            (Err(e), Err(f)) => e@ == f,
            _ => false,
        },
{
    let plain = decrypt_aes_cbc(encrypted, key, scheme)?;
    if plain.len() > 0 && is_printable(plain.as_slice()) {
        return Ok(utf8_lossy(plain.as_slice()));
    }
    if plain.len() > INTEGRITY_PREFIX_LEN && is_printable_from(plain.as_slice(), INTEGRITY_PREFIX_LEN) {
        let mut rest: Vec<u8> = Vec::new();
        let mut j: usize = INTEGRITY_PREFIX_LEN;
        while j < plain.len()
            invariant
                32 <= j <= plain.len(),
                rest@ == plain@.subrange(32, j as int),
            decreases plain.len() - j,
        {
            rest.push(plain[j]);
            assert(plain@.subrange(32, j as int).push(plain@[j as int]) =~= plain@.subrange(
                32,
                j + 1,
            ));
            j += 1;
        }
        assert(rest@ =~= plain@.skip(32));
        return Ok(utf8_lossy(rest.as_slice()));
    }
    Err(ImagoError::Auth(String::from_str("decrypted bytes are not a printable cookie")))
}

} // verus!

verus! {

/// The key a password yields under a scheme.
pub open spec fn key_spec(password: Seq<u8>, iterations: u32) -> Seq<u8> {
    pbkdf2_sha1_key(password, salt_spec(), iterations)
}

/// Trying the passwords in order: the first key that decrypts the value
/// and the text, else the last decryption error (`last` when there are
/// no passwords left).
pub open spec fn try_from(
    ct: Seq<u8>,
    passwords: Seq<Seq<u8>>,
    prefixes: Seq<Seq<u8>>,
    iterations: u32,
    last: ErrorView,
) -> Result<(Seq<u8>, Seq<char>), ErrorView>
    decreases passwords.len(),
{
    if passwords.len() == 0 {
        Err(last)
    } else {
        let key = key_spec(passwords[0], iterations);
        match value_spec(ct, key, prefixes) {
            Ok(t) => Ok((key, t)),
            Err(e) => try_from(ct, passwords.drop_first(), prefixes, iterations, e),
        }
    }
}

/// What `try_all` gives.
pub open spec fn try_all_spec(
    ct: Seq<u8>,
    passwords: Seq<Seq<u8>>,
    prefixes: Seq<Seq<u8>>,
    iterations: u32,
) -> Result<(Seq<u8>, Seq<char>), ErrorView> {
    try_from(
        ct,
        passwords,
        prefixes,
        iterations,
        ErrorView::Auth("no candidate key decrypted the cookie"@),
    )
}

/// Try every candidate password on one cookie value under a scheme; the
/// key that worked and the text, else the last error.
pub fn try_all_with(encrypted: &[u8], passwords: &[Vec<u8>], scheme: &CookieScheme) -> (r: Result<
    ([u8; 16], String),
    ImagoError,
>)
    ensures
        match (r, try_all_spec(
            encrypted@,
            bytes_view(passwords@),
            bytes_view(scheme.prefixes@),
            scheme.iterations,
        )) {
            (Ok((k, t)), Ok((k2, t2))) => k@ == k2 && t@ == t2,
            (Err(e), Err(f)) => e@ == f,
            _ => false,
        },
{
    let ghost pws = bytes_view(passwords@);
    let ghost pre = bytes_view(scheme.prefixes@);
    let mut last = ImagoError::Auth(String::from_str("no candidate key decrypted the cookie"));
    let mut i: usize = 0;
    assert(pws.skip(0) =~= pws);
    while i < passwords.len()
        invariant
            i <= passwords.len(),
            pws == bytes_view(passwords@),
            pre == bytes_view(scheme.prefixes@),
            try_all_spec(encrypted@, pws, pre, scheme.iterations) == try_from(
                encrypted@,
                pws.skip(i as int),
                pre,
                scheme.iterations,
                last@,
            ),
        decreases passwords.len() - i,
    {
        assert(pws.skip(i as int).drop_first() =~= pws.skip(i + 1));
        assert(pws.skip(i as int)[0] == passwords@[i as int]@);
        let key = match derive_key(passwords[i].as_slice(), scheme.iterations) {
            Some(k) => k,
            None => {
                i += 1;
                continue;
            },
        };
        match decrypt_value(encrypted, &key, scheme) {
            Ok(text) => {
                return Ok((key, text));
            },
            Err(e) => {
                last = e;
            },
        }
        i += 1;
    }
    assert(pws.skip(i as int) =~= Seq::<Seq<u8>>::empty());
    Err(last)
}

/// [`try_all_with`] under the Linux scheme.
pub fn try_all(encrypted: &[u8], passwords: &[Vec<u8>]) -> (r: Result<([u8; 16], String), ImagoError>)
    ensures
        match (r, try_all_spec(encrypted@, bytes_view(passwords@), seq![v10(), v11()], 1)) {
            (Ok((k, t)), Ok((k2, t2))) => k@ == k2 && t@ == t2,
            (Err(e), Err(f)) => e@ == f,
            _ => false,
        },
{
    let scheme = CookieScheme::linux();
    try_all_with(encrypted, passwords, &scheme)
}

/// What has been read from the cookie rows so far: the key that worked
/// last, the session id and the CSRF token.
pub type SessionProgress = (Option<Seq<u8>>, Option<Seq<char>>, Option<Seq<char>>);

/// Reading one more cookie row: a value that the remembered key decrypts
/// is taken as it is; otherwise all passwords are tried and the key that
/// worked is remembered; a failure of all of them ends the reading.
pub open spec fn session_step(
    state: Result<SessionProgress, ErrorView>,
    name: Seq<char>,
    ct: Seq<u8>,
    passwords: Seq<Seq<u8>>,
    prefixes: Seq<Seq<u8>>,
    iterations: u32,
) -> Result<SessionProgress, ErrorView> {
    match state {
        Err(e) => Err(e),
        Ok((wk, sid, csrf)) => {
            let reused = match wk {
                Some(k) => match value_spec(ct, k, prefixes) {
                    Ok(p) => Some(p),
                    Err(_) => None,
                },
                None => None,
            };
            let got: Result<(Option<Seq<u8>>, Seq<char>), ErrorView> = match reused {
                Some(p) => Ok((wk, p)),
                None => match try_all_spec(ct, passwords, prefixes, iterations) {
                    Ok((k, p)) => Ok((Some(k), p)),
                    Err(e) => Err(e),
                },
            };
            match got {
                Err(e) => Err(e),
                Ok((wk2, p)) => if name == "sessionid"@ {
                    Ok((wk2, Some(p), csrf))
                } else if name == "csrftoken"@ {
                    Ok((wk2, sid, Some(p)))
                } else {
                    Ok((wk2, sid, csrf))
                },
            }
        },
    }
}

/// Reading all cookie rows in order.
pub open spec fn session_fold(
    rows: Seq<(Seq<char>, Seq<u8>)>,
    passwords: Seq<Seq<u8>>,
    prefixes: Seq<Seq<u8>>,
    iterations: u32,
) -> Result<SessionProgress, ErrorView>
    decreases rows.len(),
{
    if rows.len() == 0 {
        Ok((None, None, None))
    } else {
        session_step(
            session_fold(rows.drop_last(), passwords, prefixes, iterations),
            rows.last().0,
            rows.last().1,
            passwords,
            prefixes,
            iterations,
        )
    }
}

/// The views of cookie rows.
pub open spec fn rows_view(rows: Seq<(String, Vec<u8>)>) -> Seq<(Seq<char>, Seq<u8>)> {
    rows.map_values(|r: (String, Vec<u8>)| (r.0@, r.1@))
}

/// What decrypting a cookie store gives: the session when both cookies
/// were read.
pub open spec fn session_spec(
    rows: Seq<(Seq<char>, Seq<u8>)>,
    passwords: Seq<Seq<u8>>,
    prefixes: Seq<Seq<u8>>,
    iterations: u32,
) -> Result<(Seq<char>, Seq<char>), ErrorView> {
    match session_fold(rows, passwords, prefixes, iterations) {
        Err(e) => Err(e),
        Ok((_, Some(s), Some(c))) => Ok((s, c)),
        Ok(_) => Err(ErrorView::Auth("cookie store missing sessionid/csrftoken"@)),
    }
}

/// Decrypt the `sessionid` and `csrftoken` rows of a cookie store under a
/// scheme, trying the candidate passwords and reusing the key that worked.
pub fn decrypt_session_with(
    rows: &[(String, Vec<u8>)],
    passwords: &[Vec<u8>],
    scheme: &CookieScheme,
) -> (r: Result<Credentials, ImagoError>)
    ensures
        match (r, session_spec(
            rows_view(rows@),
            bytes_view(passwords@),
            bytes_view(scheme.prefixes@),
            scheme.iterations,
        )) {
            (Ok(c), Ok((s, t))) => c.session_id@ == s && c.csrf_token@ == t && c.user_agent is None,
            (Err(e), Err(f)) => e@ == f,
            _ => false,
        },
{
    let ghost rv = rows_view(rows@);
    let ghost pws = bytes_view(passwords@);
    let ghost pre = bytes_view(scheme.prefixes@);
    let mut winning_key: Option<[u8; 16]> = None;
    let mut session_id: Option<String> = None;
    let mut csrf_token: Option<String> = None;
    let mut i: usize = 0;
    let sid_name = chars_of("sessionid");
    let csrf_name = chars_of("csrftoken");
    assert(rv.take(0) =~= Seq::<(Seq<char>, Seq<u8>)>::empty());
    while i < rows.len()
        invariant
            i <= rows.len(),
            rv == rows_view(rows@),
            pws == bytes_view(passwords@),
            pre == bytes_view(scheme.prefixes@),
            sid_name@ == "sessionid"@,
            csrf_name@ == "csrftoken"@,
            session_fold(rv.take(i as int), pws, pre, scheme.iterations) == Ok::<
                SessionProgress,
                ErrorView,
            >(
                (
                    match winning_key {
                        Some(k) => Some(k@),
                        None => None,
                    },
                    crate::media::opt_view(session_id),
                    crate::media::opt_view(csrf_token),
                ),
            ),
        decreases rows.len() - i,
    {
        assert(rv.take(i + 1).drop_last() =~= rv.take(i as int));
        assert(rv.take(i + 1).last() == (rows@[i as int].0@, rows@[i as int].1@));
        let ct = rows[i].1.as_slice();
        let reused: Option<String> = match winning_key {
            Some(k) => match decrypt_value(ct, &k, scheme) {
                Ok(p) => Some(p),
                Err(_) => None,
            },
            None => None,
        };
        let plain = match reused {
            Some(p) => p,
            None => match try_all_with(ct, passwords, scheme) {
                Ok((key, p)) => {
                    winning_key = Some(key);
                    p
                },
                Err(e) => {
                    proof {
                        lemma_session_fold_fails(rv, pws, pre, scheme.iterations, i + 1);
                    }
                    return Err(e);
                },
            },
        };
        if crate::json::same_text(rows[i].0.as_str(), sid_name.as_slice()) {
            session_id = Some(plain);
        } else if crate::json::same_text(rows[i].0.as_str(), csrf_name.as_slice()) {
            csrf_token = Some(plain);
        }
        i += 1;
    }
    assert(rv.take(rows.len() as int) =~= rv);
    match (session_id, csrf_token) {
        (Some(s), Some(c)) => Ok(Credentials { session_id: s, csrf_token: c, user_agent: None }),
        _ => Err(ImagoError::Auth(String::from_str("cookie store missing sessionid/csrftoken"))),
    }
}

/// Once reading a prefix of the rows fails, reading all of them fails the
/// same way.
proof fn lemma_session_fold_fails(
    rows: Seq<(Seq<char>, Seq<u8>)>,
    pws: Seq<Seq<u8>>,
    pre: Seq<Seq<u8>>,
    iterations: u32,
    k: int,
)
    requires
        0 <= k <= rows.len(),
        session_fold(rows.take(k), pws, pre, iterations) is Err,
    ensures
        session_fold(rows, pws, pre, iterations) == session_fold(rows.take(k), pws, pre, iterations),
    decreases rows.len() - k,
{
    if k < rows.len() {
        assert(rows.take(k + 1).drop_last() =~= rows.take(k));
        lemma_session_fold_fails(rows, pws, pre, iterations, k + 1);
    } else {
        assert(rows.take(k) =~= rows);
    }
}

/// [`decrypt_session_with`] under the Linux scheme.
pub fn decrypt_session(rows: &[(String, Vec<u8>)], passwords: &[Vec<u8>]) -> (r: Result<
    Credentials,
    ImagoError,
>)
    ensures
        match (r, session_spec(rows_view(rows@), bytes_view(passwords@), seq![v10(), v11()], 1)) {
            (Ok(c), Ok((s, t))) => c.session_id@ == s && c.csrf_token@ == t && c.user_agent is None,
            (Err(e), Err(f)) => e@ == f,
            _ => false,
        },
{
    let scheme = CookieScheme::linux();
    decrypt_session_with(rows, passwords, &scheme)
}

} // verus!

verus! {

// ---------------------------------------------------------------------
// Choosing a browser
// ---------------------------------------------------------------------

/// Items joined with a separator.
pub open spec fn join_spec(items: Seq<Seq<char>>, sep: Seq<char>) -> Seq<char>
    decreases items.len(),
{
    if items.len() == 0 {
        Seq::empty()
    } else if items.len() == 1 {
        items[0]
    } else {
        join_spec(items.drop_last(), sep) + sep + items.last()
    }
}

/// The supported labels joined with `, `.
pub fn labels_joined() -> (r: String)
    ensures
        r@ == join_spec(labels_spec(), ", "@),
{
    let labels = browser_labels();
    let ghost ls = labels@.map_values(|l: &'static str| l@);
    let mut out = String::new();
    let mut i: usize = 0;
    assert(ls.len() == 6);
    while i < labels.len()
        invariant
            i <= labels.len(),
            ls == labels@.map_values(|l: &'static str| l@),
            ls == labels_spec(),
            out@ == join_spec(ls.take(i as int), ", "@),
        decreases labels.len() - i,
    {
        assert(ls.take(i + 1).drop_last() =~= ls.take(i as int));
        assert(ls.take(i + 1).last() == labels@[i as int]@);
        if i > 0 {
            out.append(", ");
        }
        out.append(labels[i]);
        proof {
            if i == 0 {
                assert(out@ =~= join_spec(ls.take(1), ", "@));
            }
        }
        i += 1;
    }
    assert(ls.take(labels.len() as int) =~= ls);
    out
}

/// The browser pin: the flag if it is non-blank, else the environment
/// value if non-blank, trimmed.
pub open spec fn pin_spec(flag: Option<Seq<char>>, env: Option<Seq<char>>) -> Option<Seq<char>> {
    match flag {
        Some(f) if trim_spec(f).len() > 0 => Some(trim_spec(f)),
        _ => match env {
            Some(e) if trim_spec(e).len() > 0 => Some(trim_spec(e)),
            _ => None,
        },
    }
}

fn trimmed_nonblank(s: &str) -> (r: Option<String>)
    ensures
        trim_spec(s@).len() > 0 ==> (r matches Some(t) && t@ == trim_spec(s@)),
        trim_spec(s@).len() == 0 ==> r is None,
{
    let cs = chars_of(s);
    let t = trim_chars(cs.as_slice());
    if t.len() == 0 {
        None
    } else {
        Some(string_of(t.as_slice()))
    }
}

/// Which browser extraction is restricted to: the `--browser` flag, else
/// `IMAGO_BROWSER`, trimmed; blank values do not count.
pub fn normalize_pin(flag: Option<&str>, env: Option<String>) -> (r: Option<String>)
    ensures
        crate::media::opt_view(r) == pin_spec(
            match flag {
                Some(f) => Some(f@),
                None => None,
            },
            crate::media::opt_view(env),
        ),
{
    match flag {
        Some(f) => match trimmed_nonblank(f) {
            Some(t) => {
                return Some(t);
            },
            None => {},
        },
        None => {},
    }
    match env {
        Some(e) => trimmed_nonblank(e.as_str()),
        None => None,
    }
}

/// A pin names a browser by its label, ASCII case ignored; Microsoft Edge
/// may also be pinned as `Edge`, the name the `--browser` help lists.
pub open spec fn pin_matches(label: Seq<char>, pin: Seq<char>) -> bool {
    eq_ignore_case_spec(label, pin) || (label == "Microsoft Edge"@ && eq_ignore_case_spec(
        pin,
        "Edge"@,
    ))
}

/// Whether a browser's label matches a pin; everything matches no pin.
pub fn pin_allows(label: &str, pin: Option<&str>) -> (r: bool)
    ensures
        r == (match pin {
            Some(p) => pin_matches(label@, p@),
            None => true,
        }),
{
    match pin {
        Some(p) => {
            let lc = chars_of(label);
            let pc = chars_of(p);
            eq_ignore_case(lc.as_slice(), pc.as_slice()) || (crate::json::same_text(
                "Microsoft Edge",
                lc.as_slice(),
            ) && eq_ignore_case(pc.as_slice(), chars_of("Edge").as_slice()))
        },
        None => true,
    }
}

/// A pin must name a supported browser.
pub fn check_pin(pin: &str) -> (r: Result<(), ImagoError>)
    ensures
        (exists|i: int| 0 <= i < 6 && pin_matches(labels_spec()[i], pin@)) ==> r is Ok,
        !(exists|i: int| 0 <= i < 6 && pin_matches(labels_spec()[i], pin@)) ==> (r matches Err(
            e,
        ) && e@ == ErrorView::Usage(
            "unknown browser \""@ + pin@ + "\" — choose one of: "@ + join_spec(labels_spec(), ", "@),
        )),
{
    let labels = browser_labels();
    let ghost ls = labels@.map_values(|l: &'static str| l@);
    let mut i: usize = 0;
    while i < labels.len()
        invariant
            i <= labels.len(),
            ls == labels@.map_values(|l: &'static str| l@),
            ls == labels_spec(),
            forall|k: int| 0 <= k < i ==> !pin_matches(labels_spec()[k], pin@),
        decreases labels.len() - i,
    {
        assert(ls[i as int] == labels@[i as int]@);
        if pin_allows(labels[i], Some(pin)) {
            assert(labels_spec().len() == 6);
            assert(pin_matches(labels_spec()[i as int], pin@));
            return Ok(());
        }
        i += 1;
    }
    let mut msg = String::from_str("unknown browser \"");
    msg.append(pin);
    msg.append("\" — choose one of: ");
    let joined = labels_joined();
    msg.append(joined.as_str());
    Err(ImagoError::Usage(msg))
}

/// The error when extraction found no usable session: a session that
/// could not be decrypted in a named browser, or none at all.
pub fn extract_failure(found_in: Option<&str>) -> (e: ImagoError)
    ensures
        found_in matches Some(b) ==> e@ == ErrorView::Auth(
            "found an Instagram session in "@ + b@
                + " but could not decrypt it (keyring locked?) — unlock your keyring or pass --session-id/--csrf-token"@,
        ),
        found_in is None ==> e@ == ErrorView::Auth(
            "no logged-in Instagram session found in any supported browser ("@ + join_spec(
                labels_spec(),
                ", "@,
            )
                + "). Log into instagram.com in your browser, or pass --session-id/--csrf-token"@,
        ),
{
    match found_in {
        Some(b) => {
            let mut msg = String::from_str("found an Instagram session in ");
            msg.append(b);
            msg.append(
                " but could not decrypt it (keyring locked?) — unlock your keyring or pass --session-id/--csrf-token",
            );
            ImagoError::Auth(msg)
        },
        None => {
            let mut msg = String::from_str(
                "no logged-in Instagram session found in any supported browser (",
            );
            let joined = labels_joined();
            msg.append(joined.as_str());
            msg.append(
                "). Log into instagram.com in your browser, or pass --session-id/--csrf-token",
            );
            ImagoError::Auth(msg)
        },
    }
}

} // verus!

verus! {

/// A decrypted cookie value keeps the whole plaintext whenever the
/// plaintext is non-empty and printable; the 32-byte integrity prefix is
/// dropped only from a plaintext that is not printable as a whole, and
/// then only when what follows it is.
pub proof fn lemma_printable_plaintext_kept_whole(
    ct: Seq<u8>,
    key: Seq<u8>,
    prefixes: Seq<Seq<u8>>,
    plain: Seq<u8>,
)
    requires
        aes_spec(ct, key, prefixes) == Ok::<Seq<u8>, ErrorView>(plain),
    ensures
        plain.len() > 0 && printable(plain) ==> value_spec(ct, key, prefixes) == Ok::<
            Seq<char>,
            ErrorView,
        >(lossy_text(plain)),
        value_spec(ct, key, prefixes) is Ok && !(plain.len() > 0 && printable(plain)) ==> {
            &&& plain.len() > 32
            &&& printable(plain.skip(32))
            &&& value_spec(ct, key, prefixes) == Ok::<Seq<char>, ErrorView>(
                lossy_text(plain.skip(32)),
            )
        },
{
}


/// Under the Linux scheme a cookie value written as `v10` or `v11`
/// followed by a body is read as that body.
pub proof fn lemma_linux_version_prefixes(version: Seq<u8>, body: Seq<u8>)
    requires
        version == v10() || version == v11(),
    ensures
        strip_version(version + body, seq![v10(), v11()]) == Some(body),
{
    let ct = version + body;
    let ps = seq![v10(), v11()];
    assert(ps[0] == v10() && ps[1] == v11());
    assert(v10().len() == 3 && v11().len() == 3);
    assert(ct.take(3) =~= version);
    assert(ct.skip(3) =~= body);
    if version == v11() {
        assert(ct.take(3) != v10()) by {
            assert(ct.take(3)[2] != v10()[2]);
        }
        let rest = ps.drop_first();
        assert(rest =~= seq![v11()]);
        assert(rest[0] == v11());
        assert(strip_version(ct, rest) == Some(body));
        assert(strip_version(ct, ps) == strip_version(ct, rest));
    } else {
        assert(strip_version(ct, ps) == Some(ct.skip(3)));
    }
}

} // verus!

