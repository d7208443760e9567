//! Cookies out of a browser's store.
use omniget::browser_cookies::{
    ciphertext_of, cookie_header, cookie_query, cookie_text, decrypt_cookie, extract_cookie_header,
    hex_decode, is_header_safe, key_failure, keychain_aes_key, known_browsers, parse_rows,
    read_browser_cookies, sqlite_rows, strip_newlines, BrowserRead, CookieRow, CookieSearch,
};

/// The key that belongs to the password `peanuts`.
const KEY: [u8; 16] =
    [217, 160, 157, 73, 155, 78, 27, 116, 97, 242, 142, 103, 151, 44, 109, 189];

fn pair(name: &str, value: &str) -> (String, String) {
    (name.to_string(), value.to_string())
}

fn row(name: &str, enc_hex: &str, plain: &str) -> CookieRow {
    CookieRow { name: name.to_string(), enc_hex: enc_hex.to_string(), plain: plain.to_string() }
}

#[test]
fn hex_roundtrip() {
    assert_eq!(hex_decode("763130").unwrap(), b"v10");
    assert_eq!(hex_decode("").unwrap(), Vec::<u8>::new());
    assert!(hex_decode("xyz").is_none());
    assert!(hex_decode("abc").is_none());
}

#[test]
fn non_v10_returns_none() {
    let key = [0u8; 16];
    assert!(decrypt_cookie("68656c6c6f", &key).is_none());
}

#[test]
fn hex_in_either_case_and_with_blanks_around() {
    assert_eq!(hex_decode(" aAfF09\n").unwrap(), vec![0xaa, 0xff, 0x09]);
    assert!(hex_decode("zz").is_none());
    let bytes: Vec<u8> = (0u8..=255).collect();
    let written: String = bytes.iter().map(|b| format!("{:02x}", b)).collect();
    assert_eq!(hex_decode(&written).unwrap(), bytes);
    let dumped: String = bytes.iter().map(|b| format!("{:02X}", b)).collect();
    assert_eq!(hex_decode(&format!(" \t\u{3000}{}\r\n", dumped)).unwrap(), bytes);
    assert_eq!(hex_decode(" \n").unwrap(), Vec::<u8>::new());
    assert!(hex_decode("a a").is_none());
}

#[test]
fn keychain_password_makes_the_key() {
    assert_eq!(keychain_aes_key("Chrome", true, b"peanuts\r\n".to_vec()), Ok(KEY));
    assert_eq!(
        keychain_aes_key("Chrome", false, Vec::new()),
        Err("keychain entry 'Chrome' not found".to_string())
    );
    assert_eq!(
        keychain_aes_key("Chrome", true, b"\n\n".to_vec()),
        Err("empty keychain password for 'Chrome'".to_string())
    );
    assert_eq!(strip_newlines(b"a\nb\r\n".to_vec()), b"a\nb".to_vec());
    assert_eq!(key_failure("Edge"), "keychain key for Edge");
}

#[test]
fn encrypted_cookies_are_read() {
    assert_eq!(
        decrypt_cookie("763130514597f000f65d0e0a94b09381481145", &KEY).as_deref(),
        Some("secret-value")
    );
    // The same behind the digest of the domain.
    assert_eq!(
        decrypt_cookie(
            "763130d248c70e62911fee2670f5a8ce3a04a13f3398625a54465aa9737f50410d80e7c63214f86b04053b742901e006b51024",
            &KEY
        )
        .as_deref(),
        Some("secret-value")
    );
    assert_eq!(
        decrypt_cookie("7631302fd5f907be11538808c3ffd8738d85be", &KEY).as_deref(),
        Some("")
    );
    assert_eq!(
        decrypt_cookie("763130db587499d66b8e4127771dea850e9854", &KEY).as_deref(),
        Some("\u{fffd}\u{fffd}")
    );
    assert!(decrypt_cookie("763130514597f000f65d0e0a94b09381481145", &[0u8; 16]).is_none());
}

#[test]
fn undecryptable_values_are_told() {
    assert!(decrypt_cookie("", &KEY).is_none());
    assert!(decrypt_cookie("763130", &KEY).is_none());
    assert!(decrypt_cookie("76313000", &KEY).is_none());
    assert!(ciphertext_of("763131514597f000f65d0e0a94b09381481145").is_none());
    assert_eq!(ciphertext_of("763130514597f000f65d0e0a94b09381481145").unwrap().len(), 16);
}

#[test]
fn domain_digest_is_dropped_only_before_unprintable_text() {
    let mut long = vec![b'a'; 40];
    assert_eq!(cookie_text(long.clone()), "a".repeat(40));
    long[2] = 0x07;
    assert_eq!(cookie_text(long), "a".repeat(8));
    assert_eq!(cookie_text(vec![0x07, b'x']), "\u{7}x");
}

#[test]
fn question_is_asked_for_one_domain() {
    assert_eq!(
        cookie_query("quark.cn"),
        "SELECT name, hex(encrypted_value), value FROM cookies WHERE host_key LIKE '%quark.cn%';"
    );
    assert_eq!(
        cookie_query("x'; --"),
        "SELECT name, hex(encrypted_value), value FROM cookies WHERE host_key LIKE '%x; --%';"
    );
}

#[test]
fn rows_come_out_of_the_listing() {
    let rows = sqlite_rows(true, b"a\x1f7631\x1fp\x1e\n\x1eb\x1f\x1f\x1e\x1fno name\x1f\x1ec", b"").unwrap();
    let seen: Vec<(&str, &str, &str)> =
        rows.iter().map(|r| (r.name.as_str(), r.enc_hex.as_str(), r.plain.as_str())).collect();
    assert_eq!(seen, vec![("a", "7631", "p"), ("b", "", ""), ("c", "", "")]);
    let e = sqlite_rows(false, b"", b"locked").err();
    assert_eq!(e, Some("sqlite3 failed: locked".to_string()));
    assert_eq!(parse_rows("").len(), 0);
}

#[test]
fn jar_keeps_the_last_value_of_a_name() {
    let rows = vec![
        row("a", "", "one"),
        row("b", "763130514597f000f65d0e0a94b09381481145", "ignored"),
        row("a", "", "two"),
        row("c", "", ""),
    ];
    let jar = read_browser_cookies(&rows, &KEY);
    assert_eq!(jar, vec![pair("a", "two"), pair("b", "secret-value")]);
}

#[test]
fn header_leaves_out_what_cannot_stand_in_it() {
    let jar = vec![pair("a", "1"), pair("b", "x\ny"), pair("c", ""), pair("d", "é"), pair("e", "2 3")];
    assert_eq!(cookie_header(&jar), "a=1; e=2 3");
    assert!(is_header_safe("a b~"));
    assert!(!is_header_safe(""));
    assert!(!is_header_safe("\u{7f}"));
}

#[test]
fn first_browser_with_a_login_counts() {
    let reads = vec![
        BrowserRead::Missing,
        BrowserRead::Failed("broken".to_string()),
        BrowserRead::Jar(vec![pair("__pus", "1")]),
        BrowserRead::Jar(vec![pair("__pus", "1"), pair("__puus", "2")]),
    ];
    assert_eq!(
        extract_cookie_header("quark.cn", &["__pus", "__puus"], &reads),
        Ok("__pus=1; __puus=2".to_string())
    );
}

#[test]
fn search_says_why_nothing_was_found() {
    let keys = ["__pus"];
    assert_eq!(
        extract_cookie_header("quark.cn", &keys, &Vec::new()),
        Err("Automatic browser cookie extraction is only supported on macOS for now".to_string())
    );
    assert_eq!(
        extract_cookie_header("quark.cn", &keys, &vec![BrowserRead::Missing]),
        Err("No supported browser found. Install/login in Edge or Chrome.".to_string())
    );
    let reads = vec![
        BrowserRead::Failed("first".to_string()),
        BrowserRead::Failed("second".to_string()),
        BrowserRead::Jar(Vec::new()),
    ];
    assert_eq!(extract_cookie_header("quark.cn", &keys, &reads), Err("second".to_string()));
    let reads = vec![BrowserRead::Jar(vec![pair("other", "1")])];
    assert_eq!(
        extract_cookie_header("quark.cn", &keys, &reads),
        Err("Not logged in to quark.cn in any browser — please log in first".to_string())
    );
}

#[test]
fn search_goes_on_browser_by_browser() {
    let mut search = CookieSearch::start();
    assert_eq!(search.look(&BrowserRead::Missing, &["k"]), None);
    let hit = search.look(&BrowserRead::Jar(vec![pair("k", "v")]), &["k"]);
    assert_eq!(hit, Some("k=v".to_string()));
    assert_eq!(
        CookieSearch::start().fail("quark.cn"),
        "Automatic browser cookie extraction is only supported on macOS for now"
    );
}

#[test]
fn browsers_are_looked_at_in_order() {
    let browsers = known_browsers(true, true);
    let names: Vec<&str> = browsers.iter().map(|b| b.name.as_str()).collect();
    assert_eq!(names, vec!["Edge", "Chrome", "Brave", "Chromium"]);
    assert_eq!(
        browsers[1].cookies_db,
        "Library/Application Support/Google/Chrome/Default/Cookies"
    );
    assert_eq!(browsers[2].keychain_service, "Brave Safe Storage");
}

#[test]
fn no_browser_is_looked_at_on_other_systems() {
    assert!(known_browsers(false, true).is_empty());
    assert!(known_browsers(false, false).is_empty());
    assert!(known_browsers(true, false).is_empty());
}
