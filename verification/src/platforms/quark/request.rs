//! What is asked of the drive's interface: links, headers and bodies.
use vstd::prelude::*;
use vstd::utf8::encode_utf8;

use crate::browser_cookies::{
    extract_cookie_header, first_login, header_of, key_views, search_fault, BrowserRead, Jar,
};
use crate::cookie_laws::law_header_is_visible;
use crate::json::Json;
use crate::link::pair_views;
use crate::text::{capital_hex, decimal, decimal_text, is_digit};

use super::QuarkFile;

verus! {

/// The name under which the desktop client of the drive presents itself. The
/// interface hands out download links under this name only.
pub const QUARK_UA: &'static str = "Mozilla/5.0 (Windows NT 10.0; Win64; x64) AppleWebKit/537.36 (KHTML, like Gecko) quark-cloud-drive/3.20.0 Chrome/112.0.5615.165 Electron/24.1.3.8 Safari/537.36 Channel/pckk_other_ch";

/// The page that requests are said to come from.
pub const REFERER: &'static str = "https://pan.quark.cn/";

/// How long the listing rests between two requests, in milliseconds.
pub const LIST_THROTTLE_MS: u64 = 300;

/// How long an answer of the interface may take, in seconds.
pub const API_TIMEOUT_SECS: u64 = 30;

// ---------------------------------------------------------------------------
// The login
// ---------------------------------------------------------------------------
/// The domain whose cookies the drive reads.
pub const LOGIN_DOMAIN: &'static str = "quark.cn";

/// The cookies that tell that the user is logged in.
pub fn login_cookies() -> (r: [&'static str; 2])
    ensures
        key_views(r@) == seq!["__pus"@, "__puus"@],
{
    let r = ["__pus", "__puus"];
    assert(key_views(r@) =~= seq!["__pus"@, "__puus"@]);
    r
}

/// The cookie header for the drive, out of what the browsers hold.
pub fn login_header(reads: &Vec<BrowserRead>) -> (r: Result<String, String>)
    ensures
        match r {
            Ok(header) => first_login(reads@, seq!["__pus"@, "__puus"@]) == Some(header@),
            Err(e) => first_login(reads@, seq!["__pus"@, "__puus"@]) is None && e@ == search_fault(
                reads@,
                LOGIN_DOMAIN@,
            ),
        },
{
    extract_cookie_header(LOGIN_DOMAIN, &login_cookies(), reads)
}

// ---------------------------------------------------------------------------
// Headers
// ---------------------------------------------------------------------------
/// A character that may stand in the value of a header: no control character,
/// but for the tab.
pub open spec fn header_char(c: char) -> bool {
    (c >= ' ' && c != '\u{7f}') || c == '\t'
}

/// A text that may be the value of a header.
pub open spec fn header_value(s: Seq<char>) -> bool {
    forall|i: int| 0 <= i < s.len() ==> header_char(#[trigger] s[i])
}

/// `HeaderValue::from_str`, as `reqwest` hands it on from the `http` crate: it
/// takes a text whose every byte is a tab or at least 32, and not 127. The
/// bytes of a character outside ASCII are all above 127, so this is said of
/// the characters.
#[verifier::external_body]
fn makes_header_value(s: &str) -> (r: bool)
    ensures
        r == header_value(s@),
{
    reqwest::header::HeaderValue::from_str(s).is_ok()
}

/// The headers of every request: the name of the client, the page it comes
/// from, and the cookie where it can stand in a header.
pub open spec fn headers_for(cookie: Seq<char>) -> Seq<(Seq<char>, Seq<char>)> {
    let always = seq![("user-agent"@, QUARK_UA@), ("referer"@, REFERER@)];
    if header_value(cookie) {
        always.push(("cookie"@, cookie))
    } else {
        always
    }
}

/// The headers of every request.
pub fn headers(cookie: &str) -> (r: Vec<(String, String)>)
    ensures
        pair_views(r@) == headers_for(cookie@),
{
    let mut r: Vec<(String, String)> = Vec::new();
    r.push(("user-agent".to_owned(), QUARK_UA.to_owned()));
    r.push(("referer".to_owned(), REFERER.to_owned()));
    if makes_header_value(cookie) {
        r.push(("cookie".to_owned(), cookie.to_owned()));
    }
    assert(pair_views(r@) =~= headers_for(cookie@));
    r
}

/// The cookies that a browser yields always reach the drive: their header can
/// stand in a request, whatever the cookies hold.
pub proof fn law_browser_cookies_are_sent(jar: Jar)
    ensures
        headers_for(header_of(jar)).last() == ("cookie"@, header_of(jar)),
{
    law_header_is_visible(jar);
}

// ---------------------------------------------------------------------------
// Percent-encoding
// ---------------------------------------------------------------------------
/// A byte that stands for itself in the query of a link: an ASCII letter, a
/// digit, `-`, `_`, `.` or `~`.
pub open spec fn plain_byte(b: u8) -> bool {
    ||| 'a' as u8 <= b <= 'z' as u8
    ||| 'A' as u8 <= b <= 'Z' as u8
    ||| '0' as u8 <= b <= '9' as u8
    ||| b == '-' as u8
    ||| b == '_' as u8
    ||| b == '.' as u8
    ||| b == '~' as u8
}

/// A byte as it stands in the query of a link.
pub open spec fn percent_byte(b: u8) -> Seq<char> {
    if plain_byte(b) {
        seq![b as char]
    } else {
        seq!['%', capital_hex(b as int / 16), capital_hex(b as int % 16)]
    }
}

/// Bytes as they stand in the query of a link.
pub open spec fn percent_encoded(data: Seq<u8>) -> Seq<char>
    decreases data.len(),
{
    if data.len() == 0 {
        Seq::empty()
    } else {
        percent_encoded(data.drop_last()) + percent_byte(data.last())
    }
}

/// `urlencoding::encode`: each byte of the UTF-8 form of the text as
/// [`percent_byte`] says.
#[verifier::external_body]
fn percent_encode(s: &str) -> (r: String)
    ensures
        r@ == percent_encoded(encode_utf8(s@)),
{
    urlencoding::encode(s).into_owned()
}

/// A character that [`percent_encoded`] writes.
pub open spec fn query_char(c: char) -> bool {
    ||| 'a' <= c <= 'z'
    ||| 'A' <= c <= 'Z'
    ||| is_digit(c)
    ||| c == '-'
    ||| c == '_'
    ||| c == '.'
    ||| c == '~'
    ||| c == '%'
}

/// Percent-encoded text holds nothing that ends a value in a query: no `&`, no
/// `=`, no `#`, only letters, digits, `-`, `_`, `.`, `~` and `%`.
pub proof fn law_percent_encoded_stays_in_value(data: Seq<u8>)
    ensures
        forall|i: int|
            0 <= i < percent_encoded(data).len() ==> query_char(
                #[trigger] percent_encoded(data)[i],
            ),
    decreases data.len(),
{
    if data.len() > 0 {
        law_percent_encoded_stays_in_value(data.drop_last());
        let before = percent_encoded(data.drop_last());
        let last = percent_byte(data.last());
        assert forall|i: int| 0 <= i < last.len() implies query_char(#[trigger] last[i]) by {}
        assert forall|i: int| 0 <= i < percent_encoded(data).len() implies query_char(
            #[trigger] percent_encoded(data)[i],
        ) by {
            if i < before.len() {
                assert(percent_encoded(data)[i] == before[i]);
            } else {
                assert(percent_encoded(data)[i] == last[i - before.len()]);
            }
        }
    }
}

// ---------------------------------------------------------------------------
// Links and bodies
// ---------------------------------------------------------------------------
/// Where the token of a share is asked for.
pub fn token_url() -> (r: String)
    ensures
        r@
            == "https://drive-pc.quark.cn/1/clouddrive/share/sharepage/token?pr=ucpro&fr=pc"@,
{
    "https://drive-pc.quark.cn/1/clouddrive/share/sharepage/token?pr=ucpro&fr=pc".to_owned()
}

/// Where the download link of a file is asked for.
pub fn download_url() -> (r: String)
    ensures
        r@ == "https://drive-pc.quark.cn/1/clouddrive/file/download?entry=ft&fr=pc&pr=ucpro"@,
{
    "https://drive-pc.quark.cn/1/clouddrive/file/download?entry=ft&fr=pc&pr=ucpro".to_owned()
}

/// Where one page of a folder's listing is asked for.
pub open spec fn page_link(
    pwd_id: Seq<char>,
    stoken: Seq<char>,
    folder: Seq<char>,
    page: nat,
) -> Seq<char> {
    "https://drive-pc.quark.cn/1/clouddrive/share/sharepage/detail?pr=ucpro&fr=pc&pwd_id="@
        + pwd_id + "&stoken="@ + percent_encoded(encode_utf8(stoken)) + "&pdir_fid="@ + folder
        + "&force=0&_page="@ + decimal(page)
        + "&_size=50&_fetch_banner=0&_fetch_share=0&_fetch_total=1&_sort=file_type:asc,updated_at:desc"@
}

/// Where one page of a folder's listing is asked for.
pub fn page_url(pwd_id: &str, stoken: &str, folder: &str, page: usize) -> (r: String)
    ensures
        r@ == page_link(pwd_id@, stoken@, folder@, page as nat),
{
    let mut r = "https://drive-pc.quark.cn/1/clouddrive/share/sharepage/detail?pr=ucpro&fr=pc&pwd_id=".to_owned();
    r.append(pwd_id);
    r.append("&stoken=");
    r.append(percent_encode(stoken).as_str());
    r.append("&pdir_fid=");
    r.append(folder);
    r.append("&force=0&_page=");
    r.append(decimal_text(page as u64).as_str());
    r.append(
        "&_size=50&_fetch_banner=0&_fetch_share=0&_fetch_total=1&_sort=file_type:asc,updated_at:desc",
    );
    r
}

/// A body that asks for the token of a share: its identifier and an empty
/// passcode.
pub open spec fn asks_token(body: Json, pwd_id: Seq<char>) -> bool {
    &&& body matches Json::Object(fields) && fields@.len() == 2
    &&& body.chars_of("pwd_id"@) == Some(pwd_id)
    &&& body.chars_of("passcode"@) == Some(""@)
}

/// The body that asks for the token of a share.
pub fn token_body(pwd_id: &str) -> (r: Json)
    ensures
        asks_token(r, pwd_id@),
{
    proof {
        reveal_strlit("pwd_id");
        reveal_strlit("passcode");
        reveal_with_fuel(crate::json::field, 3);
    }
    assert("pwd_id"@.len() != "passcode"@.len());
    let mut fields: Vec<(String, Json)> = Vec::new();
    fields.push(("pwd_id".to_owned(), Json::Text(pwd_id.to_owned())));
    fields.push(("passcode".to_owned(), Json::Text("".to_owned())));
    assert(fields@.drop_first()[0] == fields@[1]);
    Json::Object(fields)
}

/// A list that holds one text.
pub open spec fn one_text(v: Option<Json>, text: Seq<char>) -> bool {
    &&& v matches Some(list)
    &&& list.items() matches Some(items)
    &&& items.len() == 1
    &&& items[0].chars() == Some(text)
}

/// A body that asks for the download link of a file: the file with its token,
/// and the share with its own.
pub open spec fn asks_download(body: Json, file: super::FileView) -> bool {
    &&& body matches Json::Object(fields) && fields@.len() == 4
    &&& one_text(body.named("fids"@), file.fid)
    &&& one_text(body.named("fids_token"@), file.share_fid_token)
    &&& body.chars_of("pwd_id"@) == Some(file.pwd_id)
    &&& body.chars_of("stoken"@) == Some(file.stoken)
}

/// A list that holds one text.
fn list_of_one(text: &str) -> (r: Json)
    ensures
        one_text(Some(r), text@),
{
    let mut items: Vec<Json> = Vec::new();
    items.push(Json::Text(text.to_owned()));
    Json::List(items)
}

/// The body that asks for the download link of a file.
pub fn download_body(file: &QuarkFile) -> (r: Json)
    ensures
        asks_download(r, file@),
{
    proof {
        reveal_strlit("fids");
        reveal_strlit("fids_token");
        reveal_strlit("pwd_id");
        reveal_strlit("stoken");
        reveal_with_fuel(crate::json::field, 5);
    }
    assert("fids"@.len() == 4 && "fids_token"@.len() == 10 && "pwd_id"@.len() == 6
        && "stoken"@.len() == 6);
    assert("pwd_id"@[0] == 'p' && "stoken"@[0] == 's');
    let mut fields: Vec<(String, Json)> = Vec::new();
    fields.push(("fids".to_owned(), list_of_one(file.fid.as_str())));
    fields.push(("fids_token".to_owned(), list_of_one(file.share_fid_token.as_str())));
    fields.push(("pwd_id".to_owned(), Json::Text(file.pwd_id.clone())));
    fields.push(("stoken".to_owned(), Json::Text(file.stoken.clone())));
    let ghost all = fields@;
    assert(all.drop_first()[0] == all[1]);
    assert(all.drop_first().drop_first()[0] == all[2]);
    assert(all.drop_first().drop_first().drop_first()[0] == all[3]);
    Json::Object(fields)
}

} // verus!
