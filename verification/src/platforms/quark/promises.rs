//! What the drive is asked, what its answers mean, and what becomes of a file.
use vstd::prelude::*;
use vstd::utf8::encode_utf8;

use crate::filename::safe_name;
use crate::json::Json;
use crate::link::{first_value, UrlView};
use crate::media::MediaType;
use crate::text::{
    after_prefix, decimal, is_hex_digit, join, lowercase, nonempty, occurs_in, signed_decimal,
    split,
};
use crate::text_laws::{
    law_join_in_two, law_joined_pieces_split, law_nonempty_pieces, law_pieces_make_the_text,
    law_prefix_comes_off, lemma_last_piece, lemma_one_piece, lemma_split_in_two, without,
};

use super::download::{
    cookie_in, expired, file_asked_for, follows_attempt, quark_config, steps_to, LinkStep,
    QUARK_MIN_CHUNKED, QUARK_SEGMENTS,
};
use super::entry::{listed_entry, listed_folder};
use super::reply::{code, download_link, listed, more_pages, refusal, share_token};
use super::request::{
    asks_download, asks_token, header_char, headers_for, page_link, percent_byte, percent_encoded,
    API_TIMEOUT_SECS, LIST_THROTTLE_MS, LOGIN_DOMAIN, QUARK_UA, REFERER,
};
use super::{
    at_key, folder_id, held, item_link, known_size, media_of, resolved, share_id, start_folder,
    type_of_name, FileView, QuarkFile,
};

verus! {

// ---------------------------------------------------------------------------
// What is asked
// ---------------------------------------------------------------------------
/// Under which name, from which page and how fast the drive is asked.
pub proof fn law_how_the_drive_is_asked()
    ensures
        QUARK_UA@
            == "Mozilla/5.0 (Windows NT 10.0; Win64; x64) AppleWebKit/537.36 (KHTML, like Gecko) quark-cloud-drive/3.20.0 Chrome/112.0.5615.165 Electron/24.1.3.8 Safari/537.36 Channel/pckk_other_ch"@,
        REFERER@ == "https://pan.quark.cn/"@,
        LOGIN_DOMAIN@ == "quark.cn"@,
        LIST_THROTTLE_MS == 300,
        API_TIMEOUT_SECS == 30,
        QUARK_SEGMENTS == 16,
        QUARK_MIN_CHUNKED == 5 * 1024 * 1024,
{
}

/// The headers of a request: always the name of the client and the page it
/// comes from, and the cookie behind them exactly where it can stand in one.
pub proof fn law_headers_of_a_request(cookie: Seq<char>)
    ensures
        headers_for(cookie).len() >= 2,
        headers_for(cookie)[0] == ("user-agent"@, QUARK_UA@),
        headers_for(cookie)[1] == ("referer"@, "https://pan.quark.cn/"@),
        (forall|i: int|
            0 <= i < cookie.len() ==> (#[trigger] cookie[i] >= ' ' && cookie[i] != '\u{7f}')
                || cookie[i] == '\t') ==> headers_for(cookie).len() == 3
                    && headers_for(cookie)[2] == (
            "cookie"@,
            cookie,
        ),
        (exists|i: int| 0 <= i < cookie.len() && (#[trigger] cookie[i] < ' ' && cookie[i] != '\t'))
            ==> headers_for(cookie).len() == 2,
        (exists|i: int| 0 <= i < cookie.len() && #[trigger] cookie[i] == '\u{7f}') ==> headers_for(
            cookie,
        ).len() == 2,
{
    if exists|i: int| 0 <= i < cookie.len() && (#[trigger] cookie[i] < ' ' && cookie[i] != '\t') {
        let i = choose|i: int|
            0 <= i < cookie.len() && (#[trigger] cookie[i] < ' ' && cookie[i] != '\t');
        assert(!header_char(cookie[i]));
    }
    if exists|i: int| 0 <= i < cookie.len() && #[trigger] cookie[i] == '\u{7f}' {
        let i = choose|i: int| 0 <= i < cookie.len() && #[trigger] cookie[i] == '\u{7f}';
        assert(!header_char(cookie[i]));
    }
}

/// Percent-encoding goes byte by byte: letters, digits, `-`, `_`, `.` and `~`
/// stay, every other byte becomes a percent sign and its two capital digits.
pub proof fn law_percent_encoding(a: Seq<u8>, b: Seq<u8>, byte: u8)
    ensures
        percent_encoded(a + b) == percent_encoded(a) + percent_encoded(b),
        percent_encoded(Seq::empty()) == Seq::<char>::empty(),
        (48 <= byte <= 57 || 65 <= byte <= 90 || 97 <= byte <= 122 || byte == 45 || byte == 46
            || byte == 95 || byte == 126) ==> percent_encoded(seq![byte]) == seq![byte as char],
        !(48 <= byte <= 57 || 65 <= byte <= 90 || 97 <= byte <= 122 || byte == 45 || byte == 46
            || byte == 95 || byte == 126) ==> percent_encoded(seq![byte]) == seq![
            '%',
            "0123456789ABCDEF"@[byte as int / 16],
            "0123456789ABCDEF"@[byte as int % 16],
        ],
    decreases b.len(),
{
    reveal_strlit("0123456789ABCDEF");
    assert(seq![byte].drop_last() =~= Seq::empty());
    assert(percent_encoded(Seq::empty()) =~= Seq::<char>::empty());
    assert(percent_encoded(seq![byte]) =~= percent_byte(byte));
    if b.len() == 0 {
        assert(a + b =~= a);
        assert(percent_encoded(a + b) =~= percent_encoded(a) + percent_encoded(b));
    } else {
        law_percent_encoding(a, b.drop_last(), byte);
        assert((a + b).drop_last() =~= a + b.drop_last());
        assert((a + b).last() == b.last());
        assert(percent_encoded(a + b) =~= percent_encoded(a) + percent_encoded(b));
    }
}

/// The link for a page of a folder names the share, its token, the folder and
/// the page, fifty entries to a page.
pub proof fn law_page_link(pwd_id: Seq<char>, stoken: Seq<char>, folder: Seq<char>, page: nat)
    ensures
        page_link(pwd_id, stoken, folder, page)
            == "https://drive-pc.quark.cn/1/clouddrive/share/sharepage/detail?pr=ucpro&fr=pc&pwd_id="@
            + pwd_id + "&stoken="@ + percent_encoded(encode_utf8(stoken)) + "&pdir_fid="@ + folder
            + "&force=0&_page="@ + decimal(page)
            + "&_size=50&_fetch_banner=0&_fetch_share=0&_fetch_total=1&_sort=file_type:asc,updated_at:desc"@,
{
}

/// A token is asked for with the identifier of the share and an empty passcode,
/// and nothing else.
pub proof fn law_asking_for_a_token(body: Json, pwd_id: Seq<char>)
    requires
        asks_token(body, pwd_id),
    ensures
        body.chars_of("pwd_id"@) == Some(pwd_id),
        body.chars_of("passcode"@) == Some(""@),
        body matches Json::Object(fields) && fields@.len() == 2,
{
}

/// A download link is asked for with the file and its token, the share and its
/// token, and nothing else.
pub proof fn law_asking_for_a_link(body: Json, file: FileView)
    requires
        asks_download(body, file),
    ensures
        body.named("fids"@) matches Some(list) && (list.items() matches Some(items) && items.len()
            == 1 && items[0].chars() == Some(file.fid)),
        body.named("fids_token"@) matches Some(list) && (list.items() matches Some(items)
            && items.len() == 1 && items[0].chars() == Some(file.share_fid_token)),
        body.chars_of("pwd_id"@) == Some(file.pwd_id),
        body.chars_of("stoken"@) == Some(file.stoken),
        body matches Json::Object(fields) && fields@.len() == 4,
{
}

// ---------------------------------------------------------------------------
// What the answers mean
// ---------------------------------------------------------------------------
/// The code of an answer decides whether it is used; one without a code counts
/// as -1. A refusal names the code.
pub proof fn law_code_of_an_answer(answer: Json, what: Seq<char>)
    ensures
        answer.signed_of("code"@) matches Some(n) ==> code(answer) == n,
        answer.signed_of("code"@) is None ==> code(answer) == -1,
        refusal(what, answer) == what + signed_decimal(code(answer)) + ")"@,
{
}

/// The token of a share is read from a good answer that has one, with the title
/// or a stand-in for it.
pub proof fn law_share_token(answer: Json)
    ensures
        code(answer) != 0 ==> share_token(answer) == Err::<(Seq<char>, Seq<char>), _>(
            "Quark token failed (code "@ + signed_decimal(code(answer)) + ")"@,
        ),
        code(answer) == 0 && answer.chars_at(seq!["data"@, "stoken"@]) is None ==> share_token(
            answer,
        ) == Err::<(Seq<char>, Seq<char>), _>("no stoken in response"@),
        code(answer) == 0 && answer.chars_at(seq!["data"@, "stoken"@]) is Some ==> (share_token(
            answer,
        ) matches Ok(pair) && pair.0 == answer.chars_at(seq!["data"@, "stoken"@])->0 && pair.1 == (
        match answer.chars_at(seq!["data"@, "title"@]) {
            Some(title) => title,
            None => "Quark Share"@,
        })),
{
}

/// The download link is read from a good answer that has one; an expired login
/// and the limit for guests are told by their codes.
pub proof fn law_download_link(answer: Json)
    ensures
        code(answer) == 31001 ==> download_link(answer) == Err::<Seq<char>, _>(
            "Not logged in to Quark (cookie expired)"@,
        ),
        code(answer) == 23018 ==> download_link(answer) == Err::<Seq<char>, _>(
            "Quark guest size limit — login required"@,
        ),
        code(answer) != 0 && code(answer) != 31001 && code(answer) != 23018
            ==> download_link(answer)
            == Err::<Seq<char>, _>(
            "Quark download link failed (code "@ + signed_decimal(code(answer)) + ")"@,
        ),
        code(answer) == 0 ==> download_link(answer) == (match answer.chars_at(
            seq!["data"@, "0"@, "download_url"@],
        ) {
            Some(url) => Ok::<_, Seq<char>>(url),
            None => Err::<Seq<char>, _>("no download_url in response"@),
        }),
{
}

/// A listed value says what it is: a folder where `dir` says so, or where `dir`
/// says nothing and `file` says no; else a file.
pub proof fn law_listed_value(v: Json)
    ensures
        v.truth_of("dir"@) matches Some(d) ==> listed_folder(v) == d,
        v.truth_of("dir"@) is None ==> (listed_folder(v) <==> v.truth_of("file"@) == Some(false)),
        listed_entry(v).is_dir == listed_folder(v),
        v.chars_of("fid"@) matches Some(s) ==> listed_entry(v).fid == s,
        v.chars_of("fid"@) is None ==> listed_entry(v).fid == ""@,
        v.chars_of("file_name"@) matches Some(s) ==> listed_entry(v).name == s,
        v.chars_of("file_name"@) is None ==> listed_entry(v).name == "unnamed"@,
        v.whole_of("size"@) matches Some(n) ==> listed_entry(v).size == n,
        v.whole_of("size"@) is None ==> listed_entry(v).size == 0,
        v.chars_of("share_fid_token"@) matches Some(s) ==> listed_entry(v).share_fid_token == s,
        v.chars_of("share_fid_token"@) is None ==> listed_entry(v).share_fid_token == ""@,
{
}

/// A page lists every value of its list, each as its entry, in order.
pub proof fn law_listed_page(answer: Json, i: int)
    ensures
        answer.items_at(seq!["data"@, "list"@]) matches Some(items) ==> listed(answer).len()
            == items.len() && (0 <= i < items.len() ==> listed(answer)[i] == listed_entry(
            items[i],
        )),
        answer.items_at(seq!["data"@, "list"@]) is None ==> listed(answer).len() == 0,
{
}

/// Another page is asked for exactly if the page listed something and says that
/// the folder has more entries than were read.
pub proof fn law_another_page(answer: Json, before: Seq<super::entry::EntryView>)
    ensures
        more_pages(answer, before) <==> listed(answer).len() > 0 && (answer.whole_at(
            seq!["metadata"@, "_total"@],
        ) matches Some(n) && before.len() + listed(answer).len() < n),
{
    assert((before + listed(answer)).len() == before.len() + listed(answer).len());
}

// ---------------------------------------------------------------------------
// Links
// ---------------------------------------------------------------------------
/// A link to a share names it behind `/s/` or `/share/`; what follows another
/// slash does not matter.
pub proof fn law_share_link(parts: UrlView, word: Seq<char>, id: Seq<char>, more: Seq<char>)
    requires
        word == "s"@ || word == "share"@,
        without(id, '/'),
        parts.path == "/"@ + word + "/"@ + id
            || parts.path == "/"@ + word + "/"@ + id + "/"@ + more,
    ensures
        share_id(parts) == Some(id),
{
    reveal_strlit("/");
    reveal_strlit("s");
    reveal_strlit("share");
    assert(without(word, '/'));
    lemma_one_piece(word, '/');
    lemma_one_piece(id, '/');
    assert("/"@ =~= seq!['/']);
    let short = word + seq!['/'] + id;
    let long = word + seq!['/'] + (id + seq!['/'] + more);
    let rest = if parts.path == "/"@ + word + "/"@ + id {
        short
    } else {
        long
    };
    assert("/"@ + word + "/"@ + id =~= "/"@ + short);
    assert("/"@ + word + "/"@ + id + "/"@ + more =~= "/"@ + long);
    law_prefix_comes_off(rest, "/"@);
    lemma_last_piece(word, id, '/');
    lemma_split_in_two(id, more, '/');
    lemma_split_in_two(word, id + seq!['/'] + more, '/');
    let pieces = split(rest, '/');
    assert(pieces[0] == word && pieces[1] == id);
}

/// A text starts with its first two pieces.
proof fn lemma_starts_with_pieces(s: Seq<char>, sep: char)
    requires
        split(s, sep).len() > 1,
    ensures
        (split(s, sep)[0] + seq![sep] + split(s, sep)[1]).is_prefix_of(s),
        without(split(s, sep)[1], sep),
{
    let pieces = split(s, sep);
    law_pieces_make_the_text(s, sep);
    let a = pieces.take(2);
    let b = pieces.skip(2);
    assert(a.drop_last() =~= seq![pieces[0]]);
    let head = pieces[0] + seq![sep] + pieces[1];
    assert(join(a, seq![sep]) == head) by {
        reveal_with_fuel(join, 2);
    }
    if b.len() > 0 {
        law_join_in_two(a, b, seq![sep]);
        assert(a + b =~= pieces);
    } else {
        assert(a =~= pieces);
    }
    assert(s.subrange(0, head.len() as int) =~= head);
}

/// Only such a link names a share.
pub proof fn law_share_links_only(parts: UrlView)
    requires
        share_id(parts) is Some,
    ensures
        without(share_id(parts)->0, '/'),
        ("/"@ + "s"@ + "/"@ + share_id(parts)->0).is_prefix_of(parts.path) || ("/"@ + "share"@
            + "/"@ + share_id(parts)->0).is_prefix_of(parts.path),
{
    reveal_strlit("/");
    law_prefix_comes_off(parts.path, "/"@);
    assert("/"@.len() == 1);
    let rest = parts.path.skip(1);
    assert(after_prefix(parts.path, "/"@) == Some(rest));
    let pieces = split(rest, '/');
    assert(pieces.len() > 1 && (pieces[0] == "s"@ || pieces[0] == "share"@));
    assert(share_id(parts) == Some(pieces[1]));
    lemma_starts_with_pieces(rest, '/');
    let head = pieces[0] + seq!['/'] + pieces[1];
    let whole = "/"@ + pieces[0] + "/"@ + pieces[1];
    assert(whole =~= seq!['/'] + head);
    assert(parts.path == "/"@ + rest);
    assert(rest.subrange(0, head.len() as int) == head);
    assert(parts.path.subrange(0, whole.len() as int) =~= whole);
}

/// The listing starts at the folder whose identifier, thirty-two hexadecimal
/// digits, ends the fragment of the link, also before slashes.
pub proof fn law_start_of_a_listing(parts: UrlView, front: Seq<char>, id: Seq<char>)
    requires
        id.len() == 32,
        forall|i: int|
            0 <= i < id.len() ==> '0' <= #[trigger] id[i] <= '9' || 'a' <= id[i] <= 'f' || 'A'
                <= id[i] <= 'F',
        parts.fragment == Some(id) || parts.fragment == Some(front + "/"@ + id) || parts.fragment
            == Some(front + "/"@ + id + "/"@),
    ensures
        start_folder(Some(parts)) == id,
{
    reveal_strlit("/");
    assert(without(id, '/'));
    lemma_one_piece(id, '/');
    lemma_last_piece(front, id, '/');
    let one = front + seq!['/'] + id;
    let two = one + seq!['/'] + Seq::<char>::empty();
    lemma_last_piece(one, Seq::empty(), '/');
    let before = split(front, '/');
    law_nonempty_pieces(before, seq![id], id);
    law_nonempty_pieces(split(one, '/'), seq![Seq::<char>::empty()], Seq::empty());
    assert(before.push(id) =~= before + seq![id]);
    assert(split(one, '/').push(Seq::empty()) =~= split(one, '/') + seq![Seq::<char>::empty()]);
    assert(nonempty(before + seq![id]).last() == id);
    assert(nonempty(split(one, '/')).last() == id);
    assert(nonempty(split(two, '/')) =~= nonempty(split(one, '/')));
    let fragment = parts.fragment->0;
    assert(front + "/"@ + id =~= one);
    assert(front + "/"@ + id + "/"@ =~= two);
    assert(nonempty(split(id, '/')).last() == id);
    assert(folder_id(id));
}

/// Only the end of the fragment counts: where it is no identifier, the listing
/// starts at the root, whatever stands before it.
pub proof fn law_only_the_end_counts(parts: UrlView, front: Seq<char>, end: Seq<char>)
    requires
        without(end, '/'),
        end.len() > 0,
        end.len() != 32 || exists|i: int|
            0 <= i < 32 && !('0' <= #[trigger] end[i] <= '9' || 'a' <= end[i] <= 'f'
                || 'A' <= end[i]
                <= 'F'),
        parts.fragment == Some(end) || parts.fragment == Some(front + "/"@ + end),
    ensures
        start_folder(Some(parts)) == "0"@,
{
    reveal_strlit("/");
    lemma_one_piece(end, '/');
    lemma_last_piece(front, end, '/');
    let before = split(front, '/');
    law_nonempty_pieces(before, seq![end], end);
    assert(before.push(end) =~= before + seq![end]);
    assert(nonempty(before + seq![end]).last() == end);
    assert(nonempty(split(end, '/')).last() == end);
    assert(front + "/"@ + end =~= front + seq!['/'] + end);
    if end.len() == 32 {
        let i = choose|i: int|
            0 <= i < 32 && !('0' <= #[trigger] end[i] <= '9' || 'a' <= end[i] <= 'f'
                || 'A' <= end[i]
                <= 'F');
        assert(!is_hex_digit(end[i]));
    }
    assert(!folder_id(end));
}

/// It starts at the root where the link says nothing else, and otherwise at an
/// identifier of that form out of the fragment.
pub proof fn law_root_of_a_listing(parts: UrlView)
    ensures
        start_folder(None) == "0"@,
        parts.fragment is None ==> start_folder(Some(parts)) == "0"@,
        start_folder(Some(parts)) != "0"@ ==> {
            let id = start_folder(Some(parts));
            &&& id.len() == 32
            &&& forall|i: int|
                0 <= i < id.len() ==> '0' <= #[trigger] id[i] <= '9' || 'a' <= id[i] <= 'f' || 'A'
                    <= id[i] <= 'F'
        },
{
    if start_folder(Some(parts)) != "0"@ {
        let id = start_folder(Some(parts));
        assert forall|i: int| 0 <= i < id.len() implies '0' <= #[trigger] id[i] <= '9' || 'a'
            <= id[i] <= 'f' || 'A' <= id[i] <= 'F' by {
            assert(is_hex_digit(id[i]));
        }
    }
}

/// The link of a waiting file is the prefix and its identifier; it leads to the
/// file that waits there, and other links lead to none.
pub proof fn law_waiting_file(
    pending: Map<Seq<char>, FileView>,
    id: Seq<char>,
    file: FileView,
    url: Seq<char>,
)
    ensures
        item_link(id) == "quark://download/"@ + id,
        resolved(pending.insert(id, file), "quark://download/"@ + id) == Ok::<_, Seq<char>>(file),
        !pending.dom().contains(id) ==> resolved(pending, "quark://download/"@ + id) == Err::<
            FileView,
            _,
        >("quark file not found (stale download?)"@),
        !"quark://download/"@.is_prefix_of(url) ==> resolved(pending, url) == Err::<FileView, _>(
            "invalid quark url: "@ + url,
        ),
        file_asked_for(pending, Some(url)) == resolved(pending, url),
        file_asked_for(pending, None) == Err::<FileView, _>("quark download missing page_url"@),
{
    law_prefix_comes_off(id, "quark://download/"@);
    assert(at_key(pending.insert(id, file), id) == Some(file));
}

/// What is held under a key is the file that was put there last.
pub proof fn law_last_file_is_held(
    entries: Seq<(String, QuarkFile)>,
    key: String,
    file: QuarkFile,
    other: Seq<char>,
)
    ensures
        held(Seq::empty()) == Map::<Seq<char>, FileView>::empty(),
        at_key(held(entries.push((key, file))), key@) == Some(file@),
        other != key@ ==> at_key(held(entries.push((key, file))), other) == at_key(
            held(entries),
            other,
        ),
{
    assert(entries.push((key, file)).drop_last() =~= entries);
}

// ---------------------------------------------------------------------------
// What is known of a file
// ---------------------------------------------------------------------------
/// The kind of a file shows by what follows its last point, in either case.
pub proof fn law_kind_of_a_file(stem: Seq<char>, ext: Seq<char>)
    requires
        without(ext, '.'),
    ensures
        ({
            let e = lowercase(ext);
            let sound = e == "mp3"@ || e == "flac"@ || e == "wav"@ || e == "aac"@ || e == "m4a"@
                || e == "ogg"@;
            let image = e == "jpg"@ || e == "jpeg"@ || e == "png"@ || e == "gif"@ || e == "webp"@
                || e == "bmp"@ || e == "heic"@;
            &&& type_of_name(stem + "."@ + ext) == MediaType::Audio <==> sound
            &&& type_of_name(stem + "."@ + ext) == MediaType::Photo <==> image
            &&& type_of_name(stem + "."@ + ext) == MediaType::Video <==> !sound && !image
            &&& type_of_name(ext) == type_of_name(stem + "."@ + ext)
        }),
{
    reveal_strlit(".");
    lemma_one_piece(ext, '.');
    lemma_last_piece(stem, ext, '.');
    assert(stem + "."@ + ext =~= stem + seq!['.'] + ext);
    reveal_strlit("mp3");
    reveal_strlit("flac");
    reveal_strlit("wav");
    reveal_strlit("aac");
    reveal_strlit("m4a");
    reveal_strlit("ogg");
    reveal_strlit("jpg");
    reveal_strlit("jpeg");
    reveal_strlit("png");
    reveal_strlit("gif");
    reveal_strlit("webp");
    reveal_strlit("bmp");
    reveal_strlit("heic");
    assert("mp3"@[0] == 'm' && "flac"@[0] == 'f' && "wav"@[0] == 'w' && "aac"@[0] == 'a'
        && "m4a"@[0] == 'm' && "ogg"@[0] == 'o');
    assert("jpg"@[0] == 'j' && "jpeg"@[0] == 'j' && "png"@[0] == 'p' && "gif"@[0] == 'g'
        && "webp"@[0] == 'w' && "bmp"@[0] == 'b' && "heic"@[0] == 'h');
    assert("wav"@.len() == 3 && "webp"@.len() == 4);
}

/// What is shown of a waiting file: its name, its kind and its size, where the
/// size is not zero.
pub proof fn law_shown_of_a_file(file: FileView)
    ensures
        media_of(file).title == file.name,
        media_of(file).author == "Quark"@,
        media_of(file).platform == "quark"@,
        media_of(file).media_type == type_of_name(file.name),
        media_of(file).thumbnail_url is None,
        media_of(file).available_qualities.len() == 0,
        file.size > 0 ==> media_of(file).file_size_bytes == Some(file.size),
        file.size == 0 ==> media_of(file).file_size_bytes is None,
        known_size(file.size) == media_of(file).file_size_bytes,
{
}

// ---------------------------------------------------------------------------
// The download
// ---------------------------------------------------------------------------
/// A file of the drive is fetched in sixteen segments from five mebibytes on,
/// with the size that the listing gave, and otherwise as any file.
pub proof fn law_settings_for_the_drive(size: u64)
    ensures
        quark_config(size).concurrent_segments == 16,
        quark_config(size).min_size_for_chunked == 5_242_880,
        size > 0 ==> quark_config(size).known_total_bytes == Some(size),
        size == 0 ==> quark_config(size).known_total_bytes is None,
        quark_config(size).segment_size_hint == 4_194_304,
        quark_config(size).max_retries_per_segment == 3,
        quark_config(size).use_sidecar_resume,
{
}

/// The cookie that comes with a download is the value of its first header of
/// that name.
pub proof fn law_cookie_of_a_download(headers: Seq<(Seq<char>, Seq<char>)>)
    ensures
        cookie_in(Some(headers)) == first_value(headers, "Cookie"@),
        cookie_in(None) is None,
{
}

proof fn lemma_all_stay(parts: Seq<Seq<char>>)
    requires
        forall|i: int| 0 <= i < parts.len() ==> (#[trigger] parts[i]).len() > 0,
    ensures
        nonempty(parts) == parts,
    decreases parts.len(),
{
    law_nonempty_pieces(Seq::empty(), Seq::empty(), Seq::empty());
    if parts.len() > 0 {
        let rest = parts.drop_last();
        assert forall|i: int| 0 <= i < rest.len() implies (#[trigger] rest[i]).len() > 0 by {
            assert(rest[i] == parts[i]);
        }
        lemma_all_stay(rest);
        assert(parts[parts.len() - 1].len() > 0);
        law_nonempty_pieces(rest, seq![parts.last()], parts.last());
        assert(parts =~= rest + seq![parts.last()]);
    } else {
        assert(parts =~= Seq::empty());
    }
}

/// A file goes below the folders of its path, one step for each, under its own
/// name, every name made safe.
pub proof fn law_where_a_file_goes(file: FileView, names: Seq<Seq<char>>, windows: bool)
    requires
        forall|i: int|
            0 <= i < names.len() ==> (#[trigger] names[i]).len() > 0 && without(names[i], '/'),
        file.rel_path == join(names, seq!['/']),
    ensures
        steps_to(file, windows).len() == names.len() + 1,
        forall|i: int|
            0 <= i < names.len() ==> #[trigger] steps_to(file, windows)[i] == safe_name(
                names[i],
                windows,
            ),
        steps_to(file, windows).last() == safe_name(file.name, windows),
{
    if names.len() > 0 {
        assert forall|i: int| 0 <= i < names.len() implies without(#[trigger] names[i], '/') by {}
        law_joined_pieces_split(names, '/');
        lemma_all_stay(names);
    } else {
        assert(file.rel_path =~= Seq::empty());
        assert(split(file.rel_path, '/') =~= seq![Seq::<char>::empty()]);
        law_nonempty_pieces(Seq::empty(), Seq::empty(), Seq::empty());
        assert(nonempty(split(file.rel_path, '/')) =~= Seq::<Seq<char>>::empty());
    }
}

/// A failure is put down to an expired link exactly if it names 403, 412 or says
/// so itself.
pub proof fn law_expired_links(failure: Seq<char>)
    ensures
        expired(failure) <==> occurs_in(failure, "403"@) || occurs_in(failure, "412"@) || occurs_in(
            failure,
            "expired"@,
        ),
{
}

/// After an attempt: what was fetched is done, an expired link is replaced once,
/// and any other failure is told as it is.
pub proof fn law_after_an_attempt(again: bool, bytes: u64, failure: Seq<char>, step: LinkStep)
    ensures
        follows_attempt(again, Ok(bytes), step) <==> step == (LinkStep::Done { bytes }),
        follows_attempt(again, Err(failure), step) && !again && (occurs_in(failure, "403"@)
            || occurs_in(failure, "412"@) || occurs_in(failure, "expired"@))
                ==> step is ResolveAgain,
        follows_attempt(again, Err(failure), step) && (again || !(occurs_in(failure, "403"@)
            || occurs_in(failure, "412"@) || occurs_in(failure, "expired"@)))
                ==> (step matches LinkStep::Fail(
            m,
        ) && m@ == failure),
{
}

} // verus!
