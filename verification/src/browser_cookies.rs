//! Cookies out of the cookie stores of browsers.
//!
//! A Chromium browser keeps its cookies in a table. A value is encrypted with
//! AES-128 in CBC mode under a key that is derived from a password in the
//! keychain; the encrypted bytes start with `v10`, and newer browsers put a
//! digest of the domain, thirty-two bytes, before the text.
use vstd::prelude::*;
use vstd::utf8::{decode_utf8, valid_utf8};

use crate::text::{
    chars_of, is_hex_digit, join, join_with, opt_view, replace, replace_char,
    same, split, split_on, trim, trim_line_ends, trimmed, views, without_line_ends,
};

verus! {

// ---------------------------------------------------------------------------
// Outside functions
// ---------------------------------------------------------------------------
/// What `String::from_utf8_lossy` makes of bytes that are not UTF-8.
pub uninterp spec fn utf8_repaired(data: Seq<u8>) -> Seq<char>;

/// `String::from_utf8_lossy`: the text that the bytes write where they are
/// UTF-8, else the text that [`utf8_repaired`] names.
#[verifier::external_body]
fn utf8_lossy(data: &[u8]) -> (r: String)
    ensures
        r@ == (if valid_utf8(data@) {
            decode_utf8(data@)
        } else {
            utf8_repaired(data@)
        }),
{
    String::from_utf8_lossy(data).into_owned()
}

/// The sixteen bytes that PBKDF2 with HMAC-SHA1 derives from a password.
pub uninterp spec fn pbkdf2_sha1_key(password: Seq<u8>, salt: Seq<u8>, rounds: u32) -> Seq<u8>;

/// `pbkdf2::pbkdf2_hmac` with `sha1::Sha1`, into sixteen bytes: the key that
/// [`pbkdf2_sha1_key`] names.
#[verifier::external_body]
fn derive_key(password: &[u8], salt: &[u8], rounds: u32) -> (r: [u8; 16])
    ensures
        r@ == pbkdf2_sha1_key(password@, salt@, rounds),
{
    let mut key = [0u8; 16];
    pbkdf2::pbkdf2_hmac::<sha1::Sha1>(password, salt, rounds, &mut key);
    key
}

/// The text that AES-128 in CBC mode decrypts to, without its PKCS #7 padding;
/// none where the padding is wrong.
pub uninterp spec fn aes128_cbc_plain(key: Seq<u8>, iv: Seq<u8>, data: Seq<u8>) -> Option<Seq<u8>>;

/// `cbc::Decryptor` over `aes::Aes128`, with `decrypt_padded_mut` and the
/// padding `Pkcs7`: the plain text, named by [`aes128_cbc_plain`]. It is
/// shorter than the data by one to sixteen bytes.
#[verifier::external_body]
fn decrypt(key: &[u8; 16], iv: &[u8; 16], data: &[u8]) -> (r: Option<Vec<u8>>)
    ensures
        match r {
            Some(p) => aes128_cbc_plain(key@, iv@, data@) == Some(p@) && p@.len() < data@.len()
                <= p@.len() + 16,
            None => aes128_cbc_plain(key@, iv@, data@) is None,
        },
{
    let mut buf = data.to_vec();
    let cipher = <cbc::Decryptor<aes::Aes128> as aes::cipher::KeyIvInit>::new(
        key.into(),
        iv.into(),
    );
    aes::cipher::BlockDecryptMut::decrypt_padded_mut::<aes::cipher::block_padding::Pkcs7>(
        cipher,
        &mut buf,
    ).ok().map(|p| p.to_vec())
}

// ---------------------------------------------------------------------------
// Browsers
// ---------------------------------------------------------------------------
/// A browser whose cookie store can be read.
#[derive(Debug, Clone)]
pub struct ChromiumBrowser {
    /// What the browser is called.
    pub name: String,
    /// The cookie store, below the home directory.
    pub cookies_db: String,
    /// The keychain entry that holds the password.
    pub keychain_service: String,
}

/// `b` is the browser that keeps its files in the directory `sub`.
pub open spec fn is_browser(b: ChromiumBrowser, sub: Seq<char>, service: Seq<char>, name: Seq<char>) -> bool {
    &&& b.name@ == name
    &&& b.keychain_service@ == service
    &&& b.cookies_db@ == "Library/Application Support/"@ + sub + "/Default/Cookies"@
}

fn browser(sub: &str, service: &str, name: &str) -> (r: ChromiumBrowser)
    ensures
        is_browser(r, sub@, service@, name@),
{
    let mut cookies_db = "Library/Application Support/".to_string();
    cookies_db.append(sub);
    cookies_db.append("/Default/Cookies");
    ChromiumBrowser { name: name.to_string(), cookies_db, keychain_service: service.to_string() }
}

/// The browsers to look at, in order. Only on macOS are cookies kept in a form
/// that can be read, below the user's home directory: elsewhere, or where that
/// directory is not known, there are none.
pub fn known_browsers(macos: bool, has_home: bool) -> (r: Vec<ChromiumBrowser>)
    ensures
        r.len() == (if macos && has_home {
            4int
        } else {
            0
        }),
        macos && has_home ==> {
            &&& is_browser(r[0], "Microsoft Edge"@, "Microsoft Edge Safe Storage"@, "Edge"@)
            &&& is_browser(r[1], "Google/Chrome"@, "Chrome Safe Storage"@, "Chrome"@)
            &&& is_browser(r[2], "BraveSoftware/Brave-Browser"@, "Brave Safe Storage"@, "Brave"@)
            &&& is_browser(r[3], "Chromium"@, "Chromium Safe Storage"@, "Chromium"@)
        },
{
    if !(macos && has_home) {
        return Vec::new();
    }
    vec![
        browser("Microsoft Edge", "Microsoft Edge Safe Storage", "Edge"),
        browser("Google/Chrome", "Chrome Safe Storage", "Chrome"),
        browser("BraveSoftware/Brave-Browser", "Brave Safe Storage", "Brave"),
        browser("Chromium", "Chromium Safe Storage", "Chromium"),
    ]
}

// ---------------------------------------------------------------------------
// The key
// ---------------------------------------------------------------------------
/// The bytes without the line ends behind them.
pub open spec fn without_newlines(data: Seq<u8>) -> Seq<u8>
    decreases data.len(),
{
    if data.len() > 0 && (data.last() == 10 || data.last() == 13) {
        without_newlines(data.drop_last())
    } else {
        data
    }
}

/// The bytes `saltysalt`.
pub open spec fn salt() -> Seq<u8> {
    seq![115u8, 97, 108, 116, 121, 115, 97, 108, 116]
}

/// Rounds of the key derivation.
pub const KEY_ROUNDS: u32 = 1003;

/// The password that the keychain printed.
pub fn strip_newlines(output: Vec<u8>) -> (r: Vec<u8>)
    ensures
        r@ == without_newlines(output@),
{
    let mut password = output;
    while password.len() > 0 && (password[password.len() - 1] == 10 || password[password.len() - 1]
        == 13)
        invariant
            without_newlines(password@) == without_newlines(output@),
        decreases password.len(),
    {
        assert(password@.drop_last() == password@.take(password@.len() - 1));
        password.pop();
    }
    password
}

/// The key of a browser, out of what the keychain printed.
pub fn keychain_aes_key(service: &str, found: bool, output: Vec<u8>) -> (r: Result<[u8; 16], String>)
    ensures
        match r {
            Ok(key) => found && without_newlines(output@).len() > 0 && key@ == pbkdf2_sha1_key(
                without_newlines(output@),
                salt(),
                KEY_ROUNDS,
            ),
            Err(e) => if found {
                without_newlines(output@).len() == 0 && e@ == "empty keychain password for '"@
                    + service@ + "'"@
            } else {
                e@ == "keychain entry '"@ + service@ + "' not found"@
            },
        },
{
    if !found {
        let mut e = "keychain entry '".to_string();
        e.append(service);
        e.append("' not found");
        return Err(e);
    }
    let password = strip_newlines(output);
    if password.len() == 0 {
        let mut e = "empty keychain password for '".to_string();
        e.append(service);
        e.append("'");
        return Err(e);
    }
    let salt_bytes: [u8; 9] = [115u8, 97, 108, 116, 121, 115, 97, 108, 116];
    assert(salt_bytes@ =~= salt());
    Ok(derive_key(password.as_slice(), &salt_bytes, KEY_ROUNDS))
}

/// What is said of a browser whose key cannot be had.
pub fn key_failure(browser: &str) -> (r: String)
    ensures
        r@ == "keychain key for "@ + browser@,
{
    let mut r = "keychain key for ".to_string();
    r.append(browser);
    r
}

// ---------------------------------------------------------------------------
// The table
// ---------------------------------------------------------------------------
/// A row of the cookie table.
#[derive(Debug, Clone)]
pub struct CookieRow {
    /// The name of the cookie.
    pub name: String,
    /// Its encrypted value in hexadecimal digits.
    pub enc_hex: String,
    /// Its value, where it is not encrypted.
    pub plain: String,
}

/// A row of the cookie table as characters.
pub struct RowView {
    /// The name of the cookie.
    pub name: Seq<char>,
    /// Its encrypted value in hexadecimal digits.
    pub enc_hex: Seq<char>,
    /// Its value, where it is not encrypted.
    pub plain: Seq<char>,
}

impl View for CookieRow {
    type V = RowView;

    open spec fn view(&self) -> RowView {
        RowView { name: self.name@, enc_hex: self.enc_hex@, plain: self.plain@ }
    }
}

/// The rows as characters.
pub open spec fn row_views(rows: Seq<CookieRow>) -> Seq<RowView> {
    rows.map_values(|r: CookieRow| r@)
}

/// The question for the cookies of a domain. Quotation marks in the domain are
/// left out, so that the text of the question stays one text.
pub open spec fn query_text(root_domain: Seq<char>) -> Seq<char> {
    "SELECT name, hex(encrypted_value), value FROM cookies WHERE host_key LIKE '%"@ + replace(
        root_domain,
        '\'',
        ""@,
    ) + "%';"@
}

/// The question for the cookies of a domain.
pub fn cookie_query(root_domain: &str) -> (r: String)
    ensures
        r@ == query_text(root_domain@),
{
    let mut sql = "SELECT name, hex(encrypted_value), value FROM cookies WHERE host_key LIKE '%".to_string();
    sql.append(replace_char(root_domain, '\'', "").as_str());
    sql.append("%';");
    sql
}

/// Piece `i`, or nothing.
pub open spec fn piece(parts: Seq<Seq<char>>, i: int) -> Seq<char> {
    if 0 <= i < parts.len() {
        parts[i]
    } else {
        Seq::empty()
    }
}

/// The row that a record writes: its fields stand between unit separators. A
/// record without a name is no row.
pub open spec fn row_of(record: Seq<char>) -> Option<RowView> {
    let line = without_line_ends(record);
    let parts = split(line, '\u{1f}');
    if piece(parts, 0).len() == 0 {
        None
    } else {
        Some(
            RowView { name: piece(parts, 0), enc_hex: piece(parts, 1), plain: piece(parts, 2) },
        )
    }
}

/// The rows that a text writes: records end with record separators.
pub open spec fn rows_of(text: Seq<char>) -> Seq<RowView> {
    split(text, '\u{1e}').filter_map(|record: Seq<char>| row_of(record))
}

fn piece_at(parts: &Vec<String>, i: usize) -> (r: String)
    ensures
        r@ == piece(views(parts@), i as int),
{
    if i < parts.len() {
        parts[i].clone()
    } else {
        String::new()
    }
}

/// The row that a record writes.
pub fn parse_row(record: &str) -> (r: Option<CookieRow>)
    ensures
        match r {
            Some(row) => row_of(record@) == Some(row@),
            None => row_of(record@) is None,
        },
{
    let line = trim_line_ends(record);
    let parts = split_on(line.as_str(), '\u{1f}');
    let name = piece_at(&parts, 0);
    if name.as_str().is_empty() {
        return None;
    }
    Some(CookieRow { name, enc_hex: piece_at(&parts, 1), plain: piece_at(&parts, 2) })
}

/// The rows that a text writes.
pub fn parse_rows(text: &str) -> (r: Vec<CookieRow>)
    ensures
        row_views(r@) == rows_of(text@),
{
    let records = split_on(text, '\u{1e}');
    let ghost all = views(records@);
    let ghost f = |record: Seq<char>| row_of(record);
    let mut rows: Vec<CookieRow> = Vec::new();
    let mut i: usize = 0;
    assert(all.take(0).filter_map(f) =~= Seq::empty()) by {
        reveal(Seq::filter_map);
    }
    while i < records.len()
        invariant
            i <= records.len(),
            all == views(records@),
            f == (|record: Seq<char>| row_of(record)),
            row_views(rows@) == all.take(i as int).filter_map(f),
        decreases records.len() - i,
    {
        let ghost before = row_views(rows@);
        proof {
            all.lemma_filter_map_take_succ(f, i as int);
        }
        if let Some(row) = parse_row(records[i].as_str()) {
            rows.push(row);
            assert(row_views(rows@) =~= before.push(row@));
        }
        i += 1;
    }
    assert(all.take(all.len() as int) == all);
    rows
}

/// The rows, out of what the reader of the table printed.
pub fn sqlite_rows(success: bool, stdout: &[u8], stderr: &[u8]) -> (r: Result<
    Vec<CookieRow>,
    String,
>)
    ensures
        match r {
            Ok(rows) => success && row_views(rows@) == rows_of(lossy(stdout@)),
            Err(e) => !success && e@ == "sqlite3 failed: "@ + lossy(stderr@),
        },
{
    if !success {
        let mut e = "sqlite3 failed: ".to_string();
        e.append(utf8_lossy(stderr).as_str());
        return Err(e);
    }
    let text = utf8_lossy(stdout);
    Ok(parse_rows(text.as_str()))
}

/// The text that bytes write, repaired where they are not UTF-8.
pub open spec fn lossy(data: Seq<u8>) -> Seq<char> {
    if valid_utf8(data) {
        decode_utf8(data)
    } else {
        utf8_repaired(data)
    }
}

// ---------------------------------------------------------------------------
// Values
// ---------------------------------------------------------------------------
/// The value of a hexadecimal digit.
pub open spec fn nibble(c: char) -> int {
    if '0' <= c <= '9' {
        c as u32 - '0' as u32
    } else if 'a' <= c <= 'f' {
        c as u32 - 'a' as u32 + 10
    } else {
        c as u32 - 'A' as u32 + 10
    }
}

/// Every character is a hexadecimal digit.
pub open spec fn all_hex(s: Seq<char>) -> bool {
    forall|i: int| 0 <= i < s.len() ==> is_hex_digit(#[trigger] s[i])
}

/// The bytes that hexadecimal digits write, two for each; white space around
/// the digits is left out.
pub open spec fn hex_bytes(s: Seq<char>) -> Option<Seq<u8>> {
    let t = trimmed(s);
    if t.len() % 2 == 0 && all_hex(t) {
        Some(
            Seq::new(
                t.len() / 2,
                |i: int| (nibble(t[2 * i]) * 16 + nibble(t[2 * i + 1])) as u8,
            ),
        )
    } else {
        None
    }
}

fn nibble_of(c: char) -> (r: Option<u8>)
    ensures
        match r {
            Some(n) => is_hex_digit(c) && n == nibble(c) && n < 16,
            None => !is_hex_digit(c),
        },
{
    if '0' <= c && c <= '9' {
        Some((c as u32 - '0' as u32) as u8)
    } else if 'a' <= c && c <= 'f' {
        Some((c as u32 - 'a' as u32 + 10) as u8)
    } else if 'A' <= c && c <= 'F' {
        Some((c as u32 - 'A' as u32 + 10) as u8)
    } else {
        None
    }
}

/// The bytes that hexadecimal digits write.
pub fn hex_decode(s: &str) -> (r: Option<Vec<u8>>)
    ensures
        match r {
            Some(b) => hex_bytes(s@) == Some(b@),
            None => hex_bytes(s@) is None,
        },
{
    let t = trim(s);
    let chars = chars_of(t.as_str());
    if chars.len() % 2 != 0 {
        return None;
    }
    let ghost whole = Seq::new(
        chars@.len() / 2,
        |i: int| (nibble(chars@[2 * i]) * 16 + nibble(chars@[2 * i + 1])) as u8,
    );
    let mut out: Vec<u8> = Vec::new();
    let mut i: usize = 0;
    while i < chars.len()
        invariant
            chars@ == trimmed(s@),
            chars.len() % 2 == 0,
            i % 2 == 0,
            i <= chars.len(),
            whole == Seq::new(
                chars@.len() / 2,
                |i: int| (nibble(chars@[2 * i]) * 16 + nibble(chars@[2 * i + 1])) as u8,
            ),
            out@ == whole.take(i as int / 2),
            forall|k: int| 0 <= k < i ==> is_hex_digit(#[trigger] chars@[k]),
        decreases chars.len() - i,
    {
        let high = match nibble_of(chars[i]) {
            Some(n) => n,
            None => {
                assert(!is_hex_digit(chars@[i as int]));
                return None;
            },
        };
        let low = match nibble_of(chars[i + 1]) {
            Some(n) => n,
            None => {
                assert(!is_hex_digit(chars@[i + 1]));
                return None;
            },
        };
        assert(2 * (i as int / 2) == i);
        assert(whole[i as int / 2] == high * 16 + low);
        out.push(high * 16 + low);
        assert(out@ =~= whole.take((i + 2) as int / 2));
        i += 2;
    }
    assert(whole.take(whole.len() as int) == whole);
    Some(out)
}

/// The bytes `v10`.
pub open spec fn version_mark() -> Seq<u8> {
    seq![118u8, 49, 48]
}

/// The encrypted part of a value: what stands behind the mark of the version,
/// in whole blocks of sixteen bytes.
pub open spec fn encrypted_part(enc_hex: Seq<char>) -> Option<Seq<u8>> {
    match hex_bytes(enc_hex) {
        Some(b) => if version_mark().is_prefix_of(b) && b.len() > 3 && (b.len() - 3) % 16 == 0 {
            Some(b.skip(3))
        } else {
            None
        },
        None => None,
    }
}

/// The encrypted part of a value.
pub fn ciphertext_of(enc_hex: &str) -> (r: Option<Vec<u8>>)
    ensures
        match r {
            Some(ct) => encrypted_part(enc_hex@) == Some(ct@),
            None => encrypted_part(enc_hex@) is None,
        },
{
    let bytes = match hex_decode(enc_hex) {
        Some(b) => b,
        None => {
            return None;
        },
    };
    if bytes.len() < 3 || bytes[0] != 118 || bytes[1] != 49 || bytes[2] != 48 {
        proof {
            if version_mark().is_prefix_of(bytes@) {
                assert(bytes@.subrange(0, 3)[0] == bytes@[0]);
                assert(bytes@.subrange(0, 3)[1] == bytes@[1]);
                assert(bytes@.subrange(0, 3)[2] == bytes@[2]);
            }
        }
        return None;
    }
    assert(bytes@.subrange(0, 3) =~= version_mark());
    if bytes.len() == 3 || (bytes.len() - 3) % 16 != 0 {
        return None;
    }
    let mut ct = bytes;
    let rest = ct.split_off(3);
    assert(rest@ =~= bytes@.skip(3));
    Some(rest)
}

/// A byte that prints: a visible ASCII character or a blank.
pub open spec fn printable(b: u8) -> bool {
    0x20 <= b <= 0x7e
}

/// The plain bytes without the digest of the domain, which is there where one
/// of the first three bytes does not print.
pub open spec fn without_domain_digest(plain: Seq<u8>) -> Seq<u8> {
    if plain.len() >= 32 && !(printable(plain[0]) && printable(plain[1]) && printable(plain[2])) {
        plain.skip(32)
    } else {
        plain
    }
}

fn prints(b: u8) -> (r: bool)
    ensures
        r == printable(b),
{
    0x20 <= b && b <= 0x7e
}

/// The value that plain bytes write.
pub fn cookie_text(plain: Vec<u8>) -> (r: String)
    ensures
        r@ == lossy(without_domain_digest(plain@)),
{
    if plain.len() >= 32 && !(prints(plain[0]) && prints(plain[1]) && prints(plain[2])) {
        let mut head = plain;
        let rest = head.split_off(32);
        assert(rest@ =~= plain@.skip(32));
        utf8_lossy(rest.as_slice())
    } else {
        utf8_lossy(plain.as_slice())
    }
}

/// Sixteen blanks.
pub open spec fn blank_iv() -> Seq<u8> {
    Seq::new(16, |i: int| 0x20u8)
}

/// The value that an encrypted value stands for; none where it has another form
/// or does not decrypt.
pub open spec fn decrypted(enc_hex: Seq<char>, key: Seq<u8>) -> Option<Seq<char>> {
    match encrypted_part(enc_hex) {
        Some(ct) => match aes128_cbc_plain(key, blank_iv(), ct) {
            Some(p) => Some(lossy(without_domain_digest(p))),
            None => None,
        },
        None => None,
    }
}

/// The value that an encrypted value stands for.
pub fn decrypt_cookie(enc_hex: &str, key: &[u8; 16]) -> (r: Option<String>)
    ensures
        opt_view(r) == decrypted(enc_hex@, key@),
{
    let ct = match ciphertext_of(enc_hex) {
        Some(ct) => ct,
        None => {
            return None;
        },
    };
    let iv: [u8; 16] = [0x20u8; 16];
    assert(iv@ =~= blank_iv());
    match decrypt(key, &iv, ct.as_slice()) {
        Some(p) => Some(cookie_text(p)),
        None => None,
    }
}

// ---------------------------------------------------------------------------
// The jar
// ---------------------------------------------------------------------------
/// Names and values of cookies; a name occurs once.
pub type Jar = Seq<(Seq<char>, Seq<char>)>;

/// The jar as characters.
pub open spec fn jar_view(jar: Seq<(String, String)>) -> Jar {
    jar.map_values(|c: (String, String)| (c.0@, c.1@))
}

/// The place of a name in the jar.
pub open spec fn place_of(jar: Jar, name: Seq<char>, i: int) -> Option<int>
    decreases jar.len() - i,
{
    if i >= jar.len() {
        None
    } else if jar[i].0 == name {
        Some(i)
    } else {
        place_of(jar, name, i + 1)
    }
}

/// The value of a name in the jar.
pub open spec fn value_in(jar: Jar, name: Seq<char>) -> Option<Seq<char>> {
    match place_of(jar, name, 0) {
        Some(i) => Some(jar[i].1),
        None => None,
    }
}

/// The jar with a value for `name`: a value that is there is replaced.
pub open spec fn put(jar: Jar, name: Seq<char>, value: Seq<char>) -> Jar {
    match place_of(jar, name, 0) {
        Some(i) => jar.update(i, (name, value)),
        None => jar.push((name, value)),
    }
}

/// The value of a row: the decrypted one, else the plain one if there is one.
pub open spec fn row_value(row: RowView, key: Seq<u8>) -> Option<Seq<char>> {
    match decrypted(row.enc_hex, key) {
        Some(v) => Some(v),
        None => if row.plain.len() > 0 {
            Some(row.plain)
        } else {
            None
        },
    }
}

/// The jar that rows fill, one after the other.
pub open spec fn jar_of(rows: Seq<RowView>, key: Seq<u8>) -> Jar
    decreases rows.len(),
{
    if rows.len() == 0 {
        Seq::empty()
    } else {
        let before = jar_of(rows.drop_last(), key);
        match row_value(rows.last(), key) {
            Some(v) => put(before, rows.last().name, v),
            None => before,
        }
    }
}

/// The place of a name in the jar.
fn find_name(jar: &Vec<(String, String)>, name: &str) -> (r: Option<usize>)
    ensures
        match r {
            Some(i) => place_of(jar_view(jar@), name@, 0) == Some(i as int) && i < jar.len(),
            None => place_of(jar_view(jar@), name@, 0) is None,
        },
{
    let mut i: usize = 0;
    while i < jar.len()
        invariant
            i <= jar.len(),
            place_of(jar_view(jar@), name@, 0) == place_of(jar_view(jar@), name@, i as int),
        decreases jar.len() - i,
    {
        if same(jar[i].0.as_str(), name) {
            return Some(i);
        }
        i += 1;
    }
    None
}

/// The cookies of one browser, out of the rows of its table.
pub fn read_browser_cookies(rows: &Vec<CookieRow>, key: &[u8; 16]) -> (r: Vec<(String, String)>)
    ensures
        jar_view(r@) == jar_of(row_views(rows@), key@),
{
    let mut jar: Vec<(String, String)> = Vec::new();
    let ghost all = row_views(rows@);
    let mut i: usize = 0;
    assert(jar_view(jar@) =~= jar_of(all.take(0), key@));
    while i < rows.len()
        invariant
            i <= rows.len(),
            all == row_views(rows@),
            jar_view(jar@) == jar_of(all.take(i as int), key@),
        decreases rows.len() - i,
    {
        let ghost before = jar_view(jar@);
        proof {
            assert(all.take(i + 1).drop_last() == all.take(i as int));
            assert(all.take(i + 1).last() == rows@[i as int]@);
        }
        let value = match decrypt_cookie(rows[i].enc_hex.as_str(), key) {
            Some(v) => Some(v),
            None => if !rows[i].plain.as_str().is_empty() {
                Some(rows[i].plain.clone())
            } else {
                None
            },
        };
        if let Some(v) = value {
            let name = rows[i].name.clone();
            let ghost n = name@;
            let ghost w = v@;
            match find_name(&jar, name.as_str()) {
                Some(k) => {
                    jar.set(k, (name, v));
                    assert(jar_view(jar@) =~= before.update(k as int, (n, w)));
                },
                None => {
                    jar.push((name, v));
                    assert(jar_view(jar@) =~= before.push((n, w)));
                },
            }
        }
        i += 1;
    }
    assert(all.take(all.len() as int) == all);
    jar
}

/// A text that can stand in a header: visible ASCII characters and blanks, at
/// least one.
pub open spec fn header_safe(s: Seq<char>) -> bool {
    s.len() > 0 && forall|i: int| 0 <= i < s.len() ==> ' ' <= #[trigger] s[i] <= '~'
}

/// Whether a text can stand in a header.
pub fn is_header_safe(s: &str) -> (r: bool)
    ensures
        r == header_safe(s@),
{
    let chars = chars_of(s);
    if chars.len() == 0 {
        return false;
    }
    let mut i: usize = 0;
    while i < chars.len()
        invariant
            chars@ == s@,
            i <= chars.len(),
            forall|k: int| 0 <= k < i ==> ' ' <= #[trigger] s@[k] <= '~',
        decreases chars.len() - i,
    {
        let c = chars[i];
        if !(' ' <= c && c <= '~') {
            assert(!(' ' <= s@[i as int] <= '~'));
            return false;
        }
        i += 1;
    }
    true
}

/// A cookie as `name=value`, where it can stand in a header.
pub open spec fn cookie_part(c: (Seq<char>, Seq<char>)) -> Option<Seq<char>> {
    if header_safe(c.0) && header_safe(c.1) {
        Some(c.0 + "="@ + c.1)
    } else {
        None
    }
}

/// The cookies that can stand in a header, as `name=value`.
pub open spec fn header_parts(jar: Jar) -> Seq<Seq<char>> {
    jar.filter_map(|c: (Seq<char>, Seq<char>)| cookie_part(c))
}

/// The header that carries the cookies of a jar.
pub open spec fn header_of(jar: Jar) -> Seq<char> {
    join(header_parts(jar), "; "@)
}

/// The header that carries the cookies of a jar; those that cannot stand in a
/// header are left out.
pub fn cookie_header(jar: &Vec<(String, String)>) -> (r: String)
    ensures
        r@ == header_of(jar_view(jar@)),
{
    let ghost all = jar_view(jar@);
    let ghost f = |c: (Seq<char>, Seq<char>)| cookie_part(c);
    let mut parts: Vec<String> = Vec::new();
    let mut i: usize = 0;
    assert(all.take(0).filter_map(f) =~= Seq::empty()) by {
        reveal(Seq::filter_map);
    }
    while i < jar.len()
        invariant
            i <= jar.len(),
            all == jar_view(jar@),
            f == (|c: (Seq<char>, Seq<char>)| cookie_part(c)),
            views(parts@) == all.take(i as int).filter_map(f),
        decreases jar.len() - i,
    {
        let ghost before = views(parts@);
        proof {
            all.lemma_filter_map_take_succ(f, i as int);
        }
        if is_header_safe(jar[i].0.as_str()) && is_header_safe(jar[i].1.as_str()) {
            let mut part = jar[i].0.clone();
            part.append("=");
            part.append(jar[i].1.as_str());
            let ghost p = part@;
            parts.push(part);
            assert(views(parts@) =~= before.push(p));
        }
        i += 1;
    }
    assert(all.take(all.len() as int) == all);
    join_with(&parts, "; ")
}

// ---------------------------------------------------------------------------
// The search
// ---------------------------------------------------------------------------
/// What became of looking into one browser.
#[derive(Debug, Clone)]
pub enum BrowserRead {
    /// The browser has no cookie store.
    Missing,
    /// The cookie store could not be read.
    Failed(String),
    /// The cookies of the domain.
    Jar(Vec<(String, String)>),
}

/// The names as characters.
pub open spec fn key_views(keys: Seq<&str>) -> Seq<Seq<char>> {
    keys.map_values(|k: &str| k@)
}

/// The jar holds cookies, and a value for each of the names.
pub open spec fn logged_in(jar: Jar, keys: Seq<Seq<char>>) -> bool {
    &&& jar.len() > 0
    &&& forall|i: int| 0 <= i < keys.len() ==> place_of(jar, #[trigger] keys[i], 0) is Some
}

/// The header that a browser gives, where its user is logged in.
pub open spec fn header_from(read: BrowserRead, keys: Seq<Seq<char>>) -> Option<Seq<char>> {
    match read {
        BrowserRead::Jar(jar) => if logged_in(jar_view(jar@), keys) {
            Some(header_of(jar_view(jar@)))
        } else {
            None
        },
        _ => None,
    }
}

/// The header of the first browser whose user is logged in.
pub open spec fn first_login(reads: Seq<BrowserRead>, keys: Seq<Seq<char>>) -> Option<Seq<char>>
    decreases reads.len(),
{
    if reads.len() == 0 {
        None
    } else {
        match header_from(reads[0], keys) {
            Some(h) => Some(h),
            None => first_login(reads.drop_first(), keys),
        }
    }
}

/// The message of the last store that could not be read.
pub open spec fn last_failure(reads: Seq<BrowserRead>) -> Option<Seq<char>>
    decreases reads.len(),
{
    if reads.len() == 0 {
        None
    } else {
        match reads.last() {
            BrowserRead::Failed(e) => Some(e@),
            _ => last_failure(reads.drop_last()),
        }
    }
}

/// Some browser has a cookie store.
pub open spec fn any_store(reads: Seq<BrowserRead>) -> bool {
    exists|i: int| 0 <= i < reads.len() && !(#[trigger] reads[i] is Missing)
}

/// Why no header was found.
pub open spec fn search_fault(reads: Seq<BrowserRead>, root_domain: Seq<char>) -> Seq<char> {
    if reads.len() == 0 {
        "Automatic browser cookie extraction is only supported on macOS for now"@
    } else if !any_store(reads) {
        "No supported browser found. Install/login in Edge or Chrome."@
    } else {
        match last_failure(reads) {
            Some(e) => e,
            None => "Not logged in to "@ + root_domain
                + " in any browser — please log in first"@,
        }
    }
}

/// A search through the browsers, one at a time, up to the first whose user is
/// logged in.
#[derive(Debug, Clone)]
pub struct CookieSearch {
    /// Whether there was a browser to look into.
    pub found_browser: bool,
    /// Whether one of them has a cookie store.
    pub found_any_db: bool,
    /// What went wrong last.
    pub last_err: Option<String>,
}

impl CookieSearch {
    /// The search has looked into the browsers of `reads`.
    pub open spec fn after(self, reads: Seq<BrowserRead>) -> bool {
        &&& self.found_browser == (reads.len() > 0)
        &&& self.found_any_db == any_store(reads)
        &&& opt_view(self.last_err) == last_failure(reads)
    }

    /// A search that has looked into no browser.
    pub fn start() -> (r: CookieSearch)
        ensures
            r.after(Seq::empty()),
    {
        CookieSearch { found_browser: false, found_any_db: false, last_err: None }
    }

    /// Looks into the next browser, and returns the header that it gives.
    pub fn look(&mut self, read: &BrowserRead, required_keys: &[&str]) -> (r: Option<String>)
        ensures
            opt_view(r) == header_from(*read, key_views(required_keys@)),
            forall|reads: Seq<BrowserRead>| #[trigger]
                old(self).after(reads) ==> final(self).after(reads.push(*read)),
    {
        proof {
            assert forall|reads: Seq<BrowserRead>| #[trigger] old(self).after(reads) implies {
                &&& reads.push(*read).drop_last() == reads
                &&& any_store(reads.push(*read)) == (any_store(reads) || !(read is Missing))
            } by {
                lemma_any_store_push(reads, *read);
                assert(reads.push(*read).drop_last() =~= reads);
            }
        }
        self.found_browser = true;
        match read {
            BrowserRead::Missing => None,
            BrowserRead::Failed(e) => {
                self.found_any_db = true;
                self.last_err = Some(e.clone());
                None
            },
            BrowserRead::Jar(jar) => {
                self.found_any_db = true;
                if is_logged_in(jar, required_keys) {
                    Some(cookie_header(jar))
                } else {
                    None
                }
            },
        }
    }

    /// Why no browser gave a header.
    pub fn fail(self, root_domain: &str) -> (r: String)
        ensures
            forall|reads: Seq<BrowserRead>| #[trigger]
                self.after(reads) ==> r@ == search_fault(reads, root_domain@),
    {
        if !self.found_browser {
            return "Automatic browser cookie extraction is only supported on macOS for now".to_string();
        }
        if !self.found_any_db {
            return "No supported browser found. Install/login in Edge or Chrome.".to_string();
        }
        match self.last_err {
            Some(e) => e,
            None => {
                let mut e = "Not logged in to ".to_string();
                e.append(root_domain);
                e.append(" in any browser — please log in first");
                e
            },
        }
    }
}

proof fn lemma_any_store_push(reads: Seq<BrowserRead>, read: BrowserRead)
    ensures
        any_store(reads.push(read)) == (any_store(reads) || !(read is Missing)),
{
    let more = reads.push(read);
    if any_store(reads) {
        let k = choose|i: int| 0 <= i < reads.len() && !(#[trigger] reads[i] is Missing);
        assert(!(more[k] is Missing));
    }
    if !(read is Missing) {
        assert(!(more[reads.len() as int] is Missing));
    }
    if any_store(more) && read is Missing {
        let k = choose|i: int| 0 <= i < more.len() && !(#[trigger] more[i] is Missing);
        assert(more[k] == reads[k]);
    }
}

proof fn lemma_first_login_push(reads: Seq<BrowserRead>, read: BrowserRead, keys: Seq<Seq<char>>)
    ensures
        first_login(reads, keys) is None ==> first_login(reads.push(read), keys) == header_from(
            read,
            keys,
        ),
    decreases reads.len(),
{
    if reads.len() > 0 {
        lemma_first_login_push(reads.drop_first(), read, keys);
        assert(reads.push(read).drop_first() == reads.drop_first().push(read));
        assert(reads.push(read)[0] == reads[0]);
    } else {
        assert(first_login(reads.push(read).drop_first(), keys) is None);
        assert(reads.push(read)[0] == read);
    }
}

/// Whether the jar shows a login.
pub fn is_logged_in(jar: &Vec<(String, String)>, required_keys: &[&str]) -> (r: bool)
    ensures
        r == logged_in(jar_view(jar@), key_views(required_keys@)),
{
    let ghost keys = key_views(required_keys@);
    if jar.len() == 0 {
        return false;
    }
    let mut i: usize = 0;
    while i < required_keys.len()
        invariant
            i <= required_keys.len(),
            keys == key_views(required_keys@),
            forall|k: int| 0 <= k < i ==> place_of(jar_view(jar@), #[trigger] keys[k], 0) is Some,
        decreases required_keys.len() - i,
    {
        if find_name(jar, required_keys[i]).is_none() {
            assert(place_of(jar_view(jar@), keys[i as int], 0) is None);
            return false;
        }
        i += 1;
    }
    true
}

/// The header that carries the cookies of the first browser whose user is logged
/// in: whose cookies include all of `required_keys`.
pub fn extract_cookie_header(
    root_domain: &str,
    required_keys: &[&str],
    reads: &Vec<BrowserRead>,
) -> (r: Result<String, String>)
    ensures
        match r {
            Ok(h) => first_login(reads@, key_views(required_keys@)) == Some(h@),
            Err(e) => first_login(reads@, key_views(required_keys@)) is None && e@ == search_fault(
                reads@,
                root_domain@,
            ),
        },
{
    let ghost keys = key_views(required_keys@);
    let mut search = CookieSearch::start();
    let mut i: usize = 0;
    assert(reads@.take(0) =~= Seq::empty());
    while i < reads.len()
        invariant
            i <= reads.len(),
            keys == key_views(required_keys@),
            search.after(reads@.take(i as int)),
            first_login(reads@.take(i as int), keys) is None,
        decreases reads.len() - i,
    {
        let ghost seen = reads@.take(i as int);
        assert(reads@.take(i + 1) =~= seen.push(reads@[i as int]));
        proof {
            lemma_first_login_push(seen, reads@[i as int], keys);
        }
        if let Some(h) = search.look(&reads[i], required_keys) {
            proof {
                lemma_first_login_prefix(reads@, i + 1, keys);
            }
            return Ok(h);
        }
        i += 1;
    }
    assert(reads@.take(reads@.len() as int) == reads@);
    Err(search.fail(root_domain))
}

proof fn lemma_first_login_prefix(reads: Seq<BrowserRead>, n: int, keys: Seq<Seq<char>>)
    requires
        0 <= n <= reads.len(),
        first_login(reads.take(n), keys) is Some,
    ensures
        first_login(reads, keys) == first_login(reads.take(n), keys),
    decreases reads.len(),
{
    if n > 0 {
        assert(reads.take(n)[0] == reads[0]);
        assert(reads.take(n).drop_first() == reads.drop_first().take(n - 1));
        if header_from(reads[0], keys) is None {
            lemma_first_login_prefix(reads.drop_first(), n - 1, keys);
        }
    }
}

} // verus!
