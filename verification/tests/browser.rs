use aes::Aes128;
use cbc::cipher::{block_padding::Pkcs7, BlockEncryptMut, KeyIvInit};

use imago::browser::{
    browser_labels, browser_roots, browsers, check_pin, decrypt_session, decrypt_session_with,
    decrypt_value, derive_key, extract_failure, has_session, infer_browser, is_cookie_key_label,
    is_printable, labels_joined, linux_passwords, normalize_pin, pin_allows, try_all,
    try_all_with, CookieScheme, cookie_db_paths, profile_dirs,
    INTEGRITY_PREFIX_LEN,
};
use imago::error::ImagoError;

type Aes128CbcEnc = cbc::Encryptor<Aes128>;

fn encrypt_with(prefix: &[u8], password: &[u8], iterations: u32, plaintext: &[u8]) -> Vec<u8> {
    let key = derive_key(password, iterations).unwrap();
    let iv = [0x20u8; 16];
    let ct = Aes128CbcEnc::new(&key.into(), &iv.into()).encrypt_padded_vec_mut::<Pkcs7>(plaintext);
    let mut out = prefix.to_vec();
    out.extend_from_slice(&ct);
    out
}

fn encrypt(prefix: &[u8], password: &[u8], plaintext: &[u8]) -> Vec<u8> {
    encrypt_with(prefix, password, 1, plaintext)
}

#[test]
fn infers_browser_from_override_path() {
    assert_eq!(infer_browser("/home/a/.config/vivaldi/Default/Cookies").label, "Vivaldi");
    assert_eq!(
        infer_browser("/home/a/.config/google-chrome/Default/Cookies").label,
        "Chrome"
    );
    assert_eq!(infer_browser("/tmp/random.db").label, browsers()[0].label);
}

#[test]
fn has_session_needs_both_cookies() {
    let both = vec![("sessionid".to_string(), vec![]), ("csrftoken".to_string(), vec![])];
    assert!(has_session(&both));
    assert!(!has_session(&[("sessionid".to_string(), vec![])]));
}

#[test]
fn decrypts_v10_and_v11_session() {
    let keyring = b"keyring-secret".to_vec();
    let rows = vec![
        (
            "sessionid".to_string(),
            encrypt(b"v11", &keyring, b"192008031%3Atoken"),
        ),
        ("csrftoken".to_string(), encrypt(b"v10", b"peanuts", b"abc123")),
    ];
    let creds = decrypt_session(&rows, &[keyring, b"peanuts".to_vec()]).unwrap();
    assert_eq!(creds.session_id, "192008031%3Atoken");
    assert_eq!(creds.csrf_token, "abc123");
}

#[test]
fn strips_32_byte_integrity_prefix() {
    let pw = b"k".to_vec();
    let mut value = vec![0u8; INTEGRITY_PREFIX_LEN];
    value.extend_from_slice(b"realcsrf");
    let blob = encrypt(b"v10", &pw, &value);
    let (_, text) = try_all(&blob, &[pw]).unwrap();
    assert_eq!(text, "realcsrf");
}

#[test]
fn derived_key_depends_on_password_and_rounds() {
    let a = derive_key(b"peanuts", 1).unwrap();
    let b = derive_key(b"peanuts", 1003).unwrap();
    let c = derive_key(b"walnuts", 1).unwrap();
    assert_ne!(a, b);
    assert_ne!(a, c);
    assert_eq!(a, derive_key(b"peanuts", 1).unwrap());
}

#[test]
fn decrypt_value_rejects_unknown_prefix_and_wrong_key() {
    let scheme = CookieScheme::linux();
    let key = derive_key(b"peanuts", 1).unwrap();
    let blob = encrypt(b"v10", b"peanuts", b"hello");
    assert_eq!(decrypt_value(&blob, &key, &scheme).unwrap(), "hello");
    let raw = encrypt(b"", b"peanuts", b"hello");
    assert!(decrypt_value(&raw, &key, &scheme).is_err());
    let other = derive_key(b"walnuts", 1).unwrap();
    let wrong = decrypt_value(&blob, &other, &scheme);
    assert!(wrong.is_err() || wrong.unwrap() != "hello");
}

#[test]
fn try_all_reports_the_working_key() {
    let blob = encrypt(b"v11", b"second", b"value");
    let passwords = vec![b"first".to_vec(), b"second".to_vec()];
    let (key, text) = try_all(&blob, &passwords).unwrap();
    assert_eq!(text, "value");
    assert_eq!(key, derive_key(b"second", 1).unwrap());
    assert!(try_all(&blob, &[b"nope".to_vec()]).is_err());
    assert!(try_all(&blob, &[]).is_err());
}

#[test]
fn macos_scheme_uses_its_rounds() {
    let scheme = CookieScheme::macos();
    let blob = encrypt_with(b"v10", b"mac-secret", scheme.iterations, b"csrfvalue");
    let (_, text) = try_all_with(&blob, &[b"mac-secret".to_vec()], &scheme).unwrap();
    assert_eq!(text, "csrfvalue");
    let rows = vec![
        ("sessionid".to_string(), encrypt_with(b"v10", b"mac-secret", scheme.iterations, b"s")),
        ("csrftoken".to_string(), blob),
    ];
    let creds = decrypt_session_with(&rows, &[b"mac-secret".to_vec()], &scheme).unwrap();
    assert_eq!(creds.session_id, "s");
    assert_eq!(creds.csrf_token, "csrfvalue");
}

#[test]
fn session_without_both_cookies_fails() {
    let rows = vec![("sessionid".to_string(), encrypt(b"v10", b"peanuts", b"abc"))];
    assert!(decrypt_session(&rows, &[b"peanuts".to_vec()]).is_err());
}

#[test]
fn printable_text_only() {
    assert!(is_printable(b"abc 123"));
    assert!(!is_printable(b"ab\x01"));
    assert!(is_printable(b""));
}

#[test]
fn browser_table_and_labels() {
    let table = browsers();
    let labels = browser_labels();
    assert_eq!(table.len(), labels.len());
    for (b, l) in table.iter().zip(labels.iter()) {
        assert_eq!(b.label, *l);
    }
    assert!(labels.contains(&"Chrome"));
    assert!(!browser_roots(&table[0], false).is_empty());
    let joined = labels_joined();
    assert!(joined.contains("Chrome"));
}

#[test]
fn pins_and_failures() {
    assert_eq!(normalize_pin(Some("  "), None), None);
    assert_eq!(normalize_pin(Some("Chrome"), Some("Brave".to_string())).as_deref(), Some("Chrome"));
    assert_eq!(normalize_pin(None, Some("Brave".to_string())).as_deref(), Some("Brave"));
    assert!(pin_allows("Chrome", None));
    assert!(pin_allows("Chrome", Some("chrome")));
    assert!(!pin_allows("Chrome", Some("Brave")));
    assert!(check_pin("chrome").is_ok());
    assert!(matches!(check_pin("netscape"), Err(ImagoError::Usage(_))));
    assert!(matches!(extract_failure(None), ImagoError::Auth(_)));
    assert!(matches!(extract_failure(Some("Chrome")), ImagoError::Auth(_)));
}

#[test]
fn keyring_items_and_passwords() {
    assert!(is_cookie_key_label("Chrome Safe Storage"));
    assert!(is_cookie_key_label("xdg-desktop-portal-kde"));
    assert!(!is_cookie_key_label("portal xdg-desktop-portal"));
    assert!(!is_cookie_key_label("Wi-Fi password"));
    let pw = linux_passwords(vec![b"a".to_vec(), vec![], b"b".to_vec()]);
    assert_eq!(pw, vec![b"a".to_vec(), b"b".to_vec(), b"peanuts".to_vec()]);
    assert_eq!(linux_passwords(vec![]), vec![b"peanuts".to_vec()]);
}

#[test]
fn profile_and_cookie_locations() {
    let names = vec!["Profile 1".to_string(), "Crashpad".to_string(), "Profile 2".to_string()];
    assert_eq!(
        profile_dirs("/c/google-chrome", &names),
        vec![
            "/c/google-chrome".to_string(),
            "/c/google-chrome/Default".to_string(),
            "/c/google-chrome/Profile 1".to_string(),
            "/c/google-chrome/Profile 2".to_string(),
        ]
    );
    assert_eq!(
        cookie_db_paths("/c/chromium/Default"),
        vec!["/c/chromium/Default/Network/Cookies".to_string(), "/c/chromium/Default/Cookies".to_string()]
    );
}

#[test]
fn edge_may_be_pinned_by_its_short_name() {
    assert!(check_pin("Edge").is_ok());
    assert!(check_pin("edge").is_ok());
    assert!(pin_allows("Microsoft Edge", Some("Edge")));
    assert!(pin_allows("Microsoft Edge", Some("microsoft edge")));
    assert!(!pin_allows("Chrome", Some("Edge")));
    assert!(!pin_allows("Opera", Some("Edge")));
}
