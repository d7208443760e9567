//! Documents, texts and file names.
use omniget::json::Json;
use omniget::platforms::quark::download::target_steps;
use omniget::platforms::quark::QuarkFile;
use omniget::text::{
    contains, decimal_text, ends_with, join_with, last_break, nonempty_parts, parse_number,
    replace_char, same, signed_decimal_text, split_on, starts_with, strip_prefix, strip_tails,
    trim, trim_line_ends,
};

fn object(fields: Vec<(&str, Json)>) -> Json {
    Json::Object(fields.into_iter().map(|(k, v)| (k.to_string(), v)).collect())
}

/// What a name becomes on its way to the disk.
fn safe(name: &str, windows: bool) -> String {
    let file = QuarkFile {
        fid: String::new(),
        share_fid_token: String::new(),
        pwd_id: String::new(),
        stoken: String::new(),
        name: name.to_string(),
        rel_path: String::new(),
        size: 0,
    };
    target_steps(&file, windows).pop().unwrap()
}

#[test]
fn documents_are_read_by_name_and_position() {
    let doc = object(vec![
        ("a", Json::List(vec![Json::Null, object(vec![("b", Json::Bool(true))])])),
        ("0", Json::Whole(5)),
    ]);
    assert_eq!(doc.pointer(&["a", "1", "b"]).and_then(|v| v.as_bool()), Some(true));
    assert_eq!(doc.pointer(&["0"]).and_then(|v| v.as_u64()), Some(5));
    assert!(doc.pointer(&["a", "01", "b"]).is_none());
    assert!(doc.pointer(&["a", "+1"]).is_none());
    assert!(doc.pointer(&["a", "2"]).is_none());
    assert!(doc.pointer(&["a", "0", "x"]).is_none());
    assert!(doc.pointer(&[]).is_some());
    assert!(doc.get("missing").is_none());
    assert!(Json::Null.get("a").is_none());
    assert_eq!(doc.get("a").and_then(|v| v.as_array()).map(|v| v.len()), Some(2));
}

#[test]
fn numbers_are_read_as_what_they_are() {
    assert_eq!(Json::Whole(u64::MAX).as_i64(), None);
    assert_eq!(Json::Whole(i64::MAX as u64).as_i64(), Some(i64::MAX));
    assert_eq!(Json::Negative(-3).as_i64(), Some(-3));
    assert_eq!(Json::Negative(-3).as_u64(), None);
    assert_eq!(Json::Fraction.as_u64(), None);
    assert_eq!(Json::Fraction.as_i64(), None);
    assert_eq!(Json::Bool(true).as_str(), None);
    assert_eq!(object(vec![("k", Json::Text("v".to_string()))]).text_or("k", "x"), "v");
    assert_eq!(object(vec![("k", Json::Whole(1))]).text_or("k", "x"), "x");
}

#[test]
fn texts_are_cut_and_joined() {
    assert_eq!(split_on("a,,b", ','), vec!["a", "", "b"]);
    assert_eq!(split_on("", ','), vec![""]);
    assert_eq!(nonempty_parts("/a//b/", '/'), vec!["a", "b"]);
    assert_eq!(last_break("a--b---c", "--"), "-c");
    assert_eq!(last_break("abc", "--"), "abc");
    assert_eq!(join_with(&vec!["a".to_string(), "b".to_string()], "; "), "a; b");
    assert_eq!(join_with(&Vec::new(), "; "), "");
    assert_eq!(replace_char("a'b'", '\'', ""), "ab");
    assert_eq!(trim("\u{2003} a b\t\n"), "a b");
    assert_eq!(trim_line_ends("\r\n a \n"), " a ");
    assert_eq!(strip_tails("x.html.html", ".html"), "x");
    assert_eq!(strip_prefix("quark://x", "quark://").as_deref(), Some("x"));
    assert_eq!(strip_prefix("x", "xy"), None);
}

#[test]
fn texts_are_compared() {
    assert!(starts_with("héllo", "hé") && !starts_with("h", "he"));
    assert!(ends_with("a.torrent", ".torrent") && !ends_with("t", ".t"));
    assert!(contains("abcabd", "abd") && !contains("abc", "abd") && contains("abc", ""));
    assert!(same("é", "é") && !same("e", "é"));
}

#[test]
fn numbers_are_written_and_read() {
    assert_eq!(decimal_text(0), "0");
    assert_eq!(decimal_text(u64::MAX), "18446744073709551615");
    assert_eq!(signed_decimal_text(i64::MIN), "-9223372036854775808");
    assert_eq!(signed_decimal_text(42), "42");
    assert_eq!(parse_number("18446744073709551615", u64::MAX), Some(u64::MAX));
    assert_eq!(parse_number("18446744073709551616", u64::MAX), None);
    assert_eq!(parse_number("+007", u64::MAX), Some(7));
    assert_eq!(parse_number("256", 255), None);
    for bad in ["", "+", "-1", "1a", " 1", "٣"] {
        assert_eq!(parse_number(bad, u64::MAX), None);
    }
}

#[test]
fn names_are_made_safe() {
    assert_eq!(safe("a/b\\c:d*e?f\"g<h>i|j", false), "abcdefghij");
    assert_eq!(safe("a\u{0}b\u{1f}c\u{85}d\u{9f}e", false), "abcde");
    assert_eq!(safe("...", false), "");
    assert_eq!(safe("/..", false), "");
    assert_eq!(safe(".a.", false), ".a.");
    assert_eq!(safe("résumé 夸克", false), "résumé 夸克");
}

#[test]
fn names_are_made_safe_for_windows() {
    for name in ["CON", "con.txt", "Prn", "aux.", "NUL", "com0", "LPT9.tar.gz"] {
        assert_eq!(safe(name, true), "", "{}", name);
        assert_eq!(safe(name, false), name);
    }
    assert_eq!(safe("console", true), "console");
    assert_eq!(safe("com", true), "com");
    assert_eq!(safe("com10", true), "com10");
    assert_eq!(safe("com٣", true), "com٣");
    assert_eq!(safe("a. . ", true), "a");
    assert_eq!(safe(" con", true), " con");
}

#[test]
fn long_names_are_cut_between_characters() {
    assert_eq!(safe(&"a".repeat(300), false).len(), 255);
    let long = safe(&"夸".repeat(100), false);
    assert_eq!(long, "夸".repeat(85));
    let odd = safe(&format!("a{}", "夸".repeat(100)), false);
    assert_eq!(odd.len(), 253);
    assert_eq!(safe(&"b".repeat(255), false).len(), 255);
}
