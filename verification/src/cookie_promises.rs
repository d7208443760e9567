//! What the cookies of a browser mean, from the keychain to the header.
use vstd::prelude::*;
use vstd::utf8::{decode_utf8, valid_utf8};

use crate::browser_cookies::{
    aes128_cbc_plain, any_store, blank_iv, cookie_part, decrypted, encrypted_part, first_login,
    header_from, header_of, header_parts, header_safe, hex_bytes, is_browser, jar_of, jar_view,
    last_failure,
    logged_in, lossy, nibble, place_of, query_text, row_of, row_value, rows_of, salt,
    search_fault, utf8_repaired, without_domain_digest, without_newlines, BrowserRead,
    ChromiumBrowser, Jar, RowView, KEY_ROUNDS,
};
use crate::cookie_laws::{blank, law_hex_digits_read_back, writes};
use crate::text::{
    drop_end, drop_start, is_hex_digit, join, line_end, split, trimmed, without_line_ends,
};
use crate::text_laws::{
    law_join_of_few, law_replace_joins_pieces, lemma_one_piece, lemma_split_in_two, without,
};

verus! {

// ---------------------------------------------------------------------------
// The key
// ---------------------------------------------------------------------------
/// The key comes out of 1003 rounds over the salt `saltysalt`.
pub proof fn law_key_derivation(i: int)
    ensures
        KEY_ROUNDS == 1003,
        salt().len() == "saltysalt"@.len(),
        0 <= i < salt().len() ==> salt()[i] == "saltysalt"@[i] as u32,
{
    reveal_strlit("saltysalt");
}

/// Every byte ends a line.
pub open spec fn line_ends(data: Seq<u8>) -> bool {
    forall|i: int| 0 <= i < data.len() ==> #[trigger] data[i] == 10 || data[i] == 13
}

/// The password is what the keychain printed without the line ends behind it,
/// however many there are; those in its middle stay.
pub proof fn law_password(password: Seq<u8>, ends: Seq<u8>)
    requires
        line_ends(ends),
        password.len() > 0 ==> password.last() != 10 && password.last() != 13,
    ensures
        without_newlines(password + ends) == password,
    decreases ends.len(),
{
    let all = password + ends;
    if ends.len() == 0 {
        assert(all =~= password);
    } else {
        let fewer = ends.drop_last();
        assert forall|i: int| 0 <= i < fewer.len() implies #[trigger] fewer[i] == 10 || fewer[i]
            == 13 by {
            assert(fewer[i] == ends[i]);
        }
        law_password(password, fewer);
        assert(all.last() == ends[ends.len() - 1]);
        assert(all.drop_last() =~= password + fewer);
    }
}

/// Where a browser keeps its cookies and its password.
pub proof fn law_browser(b: ChromiumBrowser, sub: Seq<char>, service: Seq<char>, name: Seq<char>)
    requires
        is_browser(b, sub, service, name),
    ensures
        b.name@ == name,
        b.keychain_service@ == service,
        b.cookies_db@ == "Library/Application Support/"@ + sub + "/Default/Cookies"@,
{
}

// ---------------------------------------------------------------------------
// Values
// ---------------------------------------------------------------------------
/// Bytes that are UTF-8 are read as the text that they write.
pub proof fn law_text_of_bytes(data: Seq<u8>)
    ensures
        valid_utf8(data) ==> lossy(data) == decode_utf8(data),
        !valid_utf8(data) ==> lossy(data) == utf8_repaired(data),
{
}

/// The digest of the domain, thirty-two bytes of which one of the first three
/// does not print, is no part of the value, however long the value is.
pub proof fn law_digest_is_no_part_of_the_value(digest: Seq<u8>, value: Seq<u8>, i: int)
    requires
        digest.len() == 32,
        0 <= i < 3,
        digest[i] < 32 || digest[i] > 126,
    ensures
        without_domain_digest(digest + value) == value,
        lossy(without_domain_digest(digest + value)) == lossy(value),
{
    let plain = digest + value;
    assert(plain[0] == digest[0] && plain[1] == digest[1] && plain[2] == digest[2]);
    assert(plain.skip(32) =~= value);
}

/// A text whose first three bytes print is the whole value, however long it is;
/// so is one that is shorter than a digest.
pub proof fn law_text_is_the_whole_value(plain: Seq<u8>)
    requires
        plain.len() < 32 || (32 <= plain[0] <= 126 && 32 <= plain[1] <= 126 && 32 <= plain[2]
            <= 126),
    ensures
        without_domain_digest(plain) == plain,
        lossy(without_domain_digest(plain)) == lossy(plain),
{
}

/// The bytes of an encrypted value: the mark `v10` and the encrypted text.
pub open spec fn marked(ct: Seq<u8>) -> Seq<u8> {
    seq!['v' as u8, '1' as u8, '0' as u8] + ct
}

proof fn lemma_marked(enc_hex: Seq<char>, ct: Seq<u8>)
    requires
        hex_bytes(enc_hex) == Some(marked(ct)),
    ensures
        ct.len() > 0 && ct.len() % 16 == 0 ==> encrypted_part(enc_hex) == Some(ct),
        ct.len() == 0 || ct.len() % 16 != 0 ==> encrypted_part(enc_hex) is None,
{
    let b = marked(ct);
    assert(b.subrange(0, 3) =~= seq![118u8, 49, 48]);
    assert(b.skip(3) =~= ct);
}

/// An encrypted value, in hexadecimal digits of either case and with white space
/// around them, is decrypted under sixteen blanks where it is of whole blocks:
/// the value behind the digest is read, or the whole where there is none.
pub proof fn law_encrypted_value(
    before: Seq<char>,
    digits: Seq<char>,
    behind: Seq<char>,
    ct: Seq<u8>,
    key: Seq<u8>,
    iv: Seq<u8>,
)
    requires
        blank(before),
        blank(behind),
        writes(digits, marked(ct)),
        iv.len() == 16,
        forall|i: int| 0 <= i < 16 ==> #[trigger] iv[i] == ' ' as u8,
    ensures
        ct.len() > 0 && ct.len() % 16 == 0 ==> (match aes128_cbc_plain(key, iv, ct) {
            Some(plain) => decrypted(before + digits + behind, key) == Some(
                lossy(without_domain_digest(plain)),
            ),
            None => decrypted(before + digits + behind, key) is None,
        }),
        ct.len() == 0 || ct.len() % 16 != 0 ==> decrypted(before + digits + behind, key) is None,
{
    law_hex_digits_read_back(before, digits, behind, marked(ct));
    lemma_marked(before + digits + behind, ct);
    assert(iv =~= blank_iv());
}

/// Only values that start with `v10` are decrypted.
pub proof fn law_only_marked_values(enc_hex: Seq<char>, key: Seq<u8>)
    requires
        decrypted(enc_hex, key) is Some,
    ensures
        hex_bytes(enc_hex) matches Some(b) && b.len() > 3 && (b.len() - 3) % 16 == 0 && b[0]
            == 'v' as u8 && b[1] == '1' as u8 && b[2] == '0' as u8,
{
    let b = hex_bytes(enc_hex)->0;
    let head = b.subrange(0, 3);
    assert(head[0] == b[0] && head[1] == b[1] && head[2] == b[2]);
}

/// What each hexadecimal digit is worth.
pub proof fn law_worth_of_digits(n: int)
    requires
        0 <= n < 16,
    ensures
        nibble("0123456789abcdef"@[n]) == n,
        nibble("0123456789ABCDEF"@[n]) == n,
        is_hex_digit("0123456789abcdef"@[n]),
        is_hex_digit("0123456789ABCDEF"@[n]),
{
    reveal_strlit("0123456789abcdef");
    reveal_strlit("0123456789ABCDEF");
}

/// Bytes are read from an even number of digits only, and from nothing else but
/// the white space around them.
pub proof fn law_only_digits_are_bytes(s: Seq<char>, i: int)
    requires
        hex_bytes(s) is Some,
    ensures
        trimmed(s).len() == 2 * (hex_bytes(s)->0).len(),
        0 <= i < trimmed(s).len() ==> '0' <= trimmed(s)[i] <= '9' || 'a' <= trimmed(s)[i] <= 'f'
            || 'A' <= trimmed(s)[i] <= 'F',
{
    let t = trimmed(s);
    if 0 <= i < t.len() {
        assert(is_hex_digit(t[i]));
    }
}

// ---------------------------------------------------------------------------
// The table
// ---------------------------------------------------------------------------
/// The question names the domain, without its quotation marks.
pub proof fn law_question(root_domain: Seq<char>)
    ensures
        query_text(root_domain)
            == "SELECT name, hex(encrypted_value), value FROM cookies WHERE host_key LIKE '%"@
            + join(split(root_domain, '\''), ""@) + "%';"@,
        without(root_domain, '\'') ==> query_text(root_domain)
            == "SELECT name, hex(encrypted_value), value FROM cookies WHERE host_key LIKE '%"@
            + root_domain + "%';"@,
{
    law_replace_joins_pieces(root_domain, '\'', ""@);
    if without(root_domain, '\'') {
        lemma_one_piece(root_domain, '\'');
        law_join_of_few(root_domain, ""@);
    }
}

/// No character ends a line.
pub open spec fn one_line(s: Seq<char>) -> bool {
    without(s, '\n') && without(s, '\r')
}

/// Every character ends a line.
pub open spec fn line_breaks(s: Seq<char>) -> bool {
    forall|i: int| 0 <= i < s.len() ==> #[trigger] s[i] == '\n' || s[i] == '\r'
}

proof fn lemma_breaks_before(before: Seq<char>, s: Seq<char>)
    requires
        line_breaks(before),
    ensures
        drop_start(before + s, |c: char| line_end(c)) == drop_start(
            s,
            |c: char| line_end(c),
        ),
    decreases before.len(),
{
    if before.len() == 0 {
        assert(before + s =~= s);
    } else {
        let rest = before.drop_first();
        assert forall|i: int| 0 <= i < rest.len() implies #[trigger] rest[i] == '\n' || rest[i]
            == '\r' by {
            assert(rest[i] == before[i + 1]);
        }
        lemma_breaks_before(rest, s);
        assert((before + s).drop_first() =~= rest + s);
        assert((before + s).first() == before[0]);
    }
}

proof fn lemma_breaks_behind(s: Seq<char>, behind: Seq<char>)
    requires
        line_breaks(behind),
    ensures
        drop_end(s + behind, |c: char| line_end(c)) == drop_end(
            s,
            |c: char| line_end(c),
        ),
    decreases behind.len(),
{
    if behind.len() == 0 {
        assert(s + behind =~= s);
    } else {
        let rest = behind.drop_last();
        assert forall|i: int| 0 <= i < rest.len() implies #[trigger] rest[i] == '\n' || rest[i]
            == '\r' by {
            assert(rest[i] == behind[i]);
        }
        lemma_breaks_behind(s, rest);
        assert((s + behind).drop_last() =~= s + rest);
        assert((s + behind).last() == behind[behind.len() - 1]);
    }
}

/// Line ends around a record are no part of it.
pub proof fn law_line_of_a_record(before: Seq<char>, line: Seq<char>, behind: Seq<char>)
    requires
        line_breaks(before),
        line_breaks(behind),
        line.len() > 0,
        line[0] != '\n' && line[0] != '\r',
        line.last() != '\n' && line.last() != '\r',
    ensures
        without_line_ends(before + line + behind) == line,
{
    assert(before + line + behind =~= before + (line + behind));
    lemma_breaks_before(before, line + behind);
    lemma_breaks_behind(line, behind);
    assert((line + behind).first() == line[0]);
    assert(drop_start(line + behind, |c: char| line_end(c)) == line + behind);
    assert(drop_end(line, |c: char| line_end(c)) == line);
}

/// A record of name, encrypted value and plain value between unit separators is
/// a row of these three, whatever line ends are around it.
pub proof fn law_row_reads_back(
    before: Seq<char>,
    name: Seq<char>,
    enc_hex: Seq<char>,
    plain: Seq<char>,
    behind: Seq<char>,
)
    requires
        line_breaks(before),
        line_breaks(behind),
        name.len() > 0,
        without(name, '\u{1f}') && without(enc_hex, '\u{1f}') && without(plain, '\u{1f}'),
        one_line(name) && one_line(enc_hex) && one_line(plain),
    ensures
        row_of(before + (name + seq!['\u{1f}'] + enc_hex + seq!['\u{1f}'] + plain) + behind) == Some(
            RowView { name, enc_hex, plain },
        ),
{
    let sep = '\u{1f}';
    let line = name + seq![sep] + enc_hex + seq![sep] + plain;
    assert(line[0] == name[0]);
    assert(name[0] != '\n' && name[0] != '\r');
    if plain.len() > 0 {
        assert(line.last() == plain[plain.len() - 1]);
    } else {
        assert(line.last() == sep);
    }
    law_line_of_a_record(before, line, behind);
    lemma_one_piece(name, sep);
    lemma_one_piece(enc_hex, sep);
    lemma_one_piece(plain, sep);
    lemma_split_in_two(name, enc_hex, sep);
    lemma_split_in_two(name + seq![sep] + enc_hex, plain, sep);
    let parts = split(line, sep);
    assert(parts =~= seq![name, enc_hex, plain]);
}

/// A record of fewer fields has nothing in place of those that are missing, and
/// what stands behind the third field does not matter.
pub proof fn law_rows_of_other_lengths(
    name: Seq<char>,
    enc_hex: Seq<char>,
    plain: Seq<char>,
    more: Seq<char>,
)
    requires
        name.len() > 0,
        without(name, '\u{1f}') && without(enc_hex, '\u{1f}') && without(plain, '\u{1f}'),
        one_line(name) && one_line(enc_hex) && one_line(plain) && one_line(more),
    ensures
        row_of(name) == Some(
            RowView { name, enc_hex: Seq::<char>::empty(), plain: Seq::<char>::empty() },
        ),
        row_of(name + seq!['\u{1f}'] + enc_hex) == Some(
            RowView { name, enc_hex, plain: Seq::<char>::empty() },
        ),
        row_of(
            name + seq!['\u{1f}'] + enc_hex + seq!['\u{1f}'] + plain + seq!['\u{1f}'] + more,
        ) == Some(RowView { name, enc_hex, plain }),
{
    let sep = '\u{1f}';
    let none = Seq::<char>::empty();
    let two = name + seq![sep] + enc_hex;
    let three = two + seq![sep] + plain;
    let all = three + seq![sep] + more;
    lemma_one_piece(name, sep);
    lemma_one_piece(enc_hex, sep);
    lemma_one_piece(plain, sep);
    lemma_split_in_two(name, enc_hex, sep);
    lemma_split_in_two(two, plain, sep);
    lemma_split_in_two(three, more, sep);
    lemma_ends_whole(name, none);
    lemma_ends_whole(name, seq![sep] + enc_hex);
    lemma_ends_whole(name, seq![sep] + enc_hex + seq![sep] + plain + seq![sep] + more);
    assert(name + none =~= name);
    assert(name + (seq![sep] + enc_hex) =~= two);
    assert(name + (seq![sep] + enc_hex + seq![sep] + plain + seq![sep] + more) =~= all);
    assert(split(two, sep) =~= seq![name, enc_hex]);
    assert(split(three, sep) =~= seq![name, enc_hex, plain]);
    assert(split(all, sep)[0] == name && split(all, sep)[1] == enc_hex && split(all, sep)[2]
        == plain);
}

proof fn lemma_ends_whole(name: Seq<char>, behind: Seq<char>)
    requires
        name.len() > 0,
        one_line(name),
        one_line(behind),
    ensures
        without_line_ends(name + behind) == name + behind,
{
    let line = name + behind;
    let none = Seq::<char>::empty();
    assert(line[0] == name[0]);
    assert(name[0] != '\n' && name[0] != '\r');
    if behind.len() > 0 {
        assert(line.last() == behind[behind.len() - 1]);
    } else {
        assert(line.last() == name[name.len() - 1]);
    }
    law_line_of_a_record(none, line, none);
    assert(none + line + none =~= line);
}

/// A record without a name is no row.
pub proof fn law_record_without_a_name(record: Seq<char>)
    ensures
        without_line_ends(record).len() == 0 ==> row_of(record) is None,
        without_line_ends(record).len() > 0 && without_line_ends(record)[0] == '\u{1f}' ==> row_of(
            record,
        ) is None,
{
    let line = without_line_ends(record);
    let sep = '\u{1f}';
    if line.len() == 0 {
        lemma_one_piece(line, sep);
    } else if line[0] == sep {
        let none = Seq::<char>::empty();
        lemma_one_piece(none, sep);
        lemma_split_in_two(none, line.skip(1), sep);
        assert(line =~= none + seq![sep] + line.skip(1));
        assert(split(line, sep)[0] == none);
    }
}

proof fn lemma_rows_in_two(a: Seq<Seq<char>>, b: Seq<Seq<char>>)
    ensures
        (a + b).filter_map(|record: Seq<char>| row_of(record)) == a.filter_map(
            |record: Seq<char>| row_of(record),
        ) + b.filter_map(|record: Seq<char>| row_of(record)),
    decreases b.len(),
{
    reveal(Seq::filter_map);
    let f = |record: Seq<char>| row_of(record);
    if b.len() == 0 {
        assert(a + b =~= a);
    } else {
        lemma_rows_in_two(a, b.drop_last());
        assert((a + b).drop_last() =~= a + b.drop_last());
        assert((a + b).last() == b.last());
        assert((a + b).filter_map(f) =~= a.filter_map(f) + b.filter_map(f));
    }
}

/// The rows of two texts with a record separator between them are those of the
/// first and then those of the second; a text without one is one record.
pub proof fn law_rows_of_a_table(a: Seq<char>, b: Seq<char>, record: Seq<char>)
    ensures
        rows_of(a + seq!['\u{1e}'] + b) == rows_of(a) + rows_of(b),
        without(record, '\u{1e}') ==> (match row_of(record) {
            Some(row) => rows_of(record) == seq![row],
            None => rows_of(record).len() == 0,
        }),
{
    let sep = '\u{1e}';
    lemma_split_in_two(a, b, sep);
    lemma_rows_in_two(split(a, sep), split(b, sep));
    if without(record, sep) {
        reveal(Seq::filter_map);
        lemma_one_piece(record, sep);
        let one = seq![record];
        assert(one.drop_last() =~= Seq::empty());
        assert(one.last() == record);
        let f = |record: Seq<char>| row_of(record);
        assert(one.drop_last().filter_map(f) =~= Seq::empty());
        if let Some(row) = row_of(record) {
            assert(rows_of(record) =~= seq![row]);
        }
    }
}

// ---------------------------------------------------------------------------
// The jar and the header
// ---------------------------------------------------------------------------
/// A row is worth its decrypted value, else its plain one, else nothing.
pub proof fn law_value_of_a_row(row: RowView, key: Seq<u8>)
    ensures
        decrypted(row.enc_hex, key) matches Some(v) ==> row_value(row, key) == Some(v),
        decrypted(row.enc_hex, key) is None && row.plain.len() > 0 ==> row_value(row, key) == Some(
            row.plain,
        ),
        decrypted(row.enc_hex, key) is None && row.plain.len() == 0 ==> row_value(row, key) is None,
{
}

proof fn lemma_place(jar: Jar, name: Seq<char>, i: int)
    requires
        0 <= i,
    ensures
        place_of(jar, name, i) matches Some(k) ==> i <= k < jar.len() && jar[k].0 == name && (
        forall|j: int| i <= j < k ==> (#[trigger] jar[j]).0 != name),
        place_of(jar, name, i) is None ==> forall|j: int|
            i <= j < jar.len() ==> (#[trigger] jar[j]).0 != name,
    decreases jar.len() - i,
{
    if i < jar.len() && jar[i].0 != name {
        lemma_place(jar, name, i + 1);
    }
}

/// A row with a value replaces the value of its name where the jar has one, at
/// its place, and comes last where it has none; nothing else changes.
pub proof fn law_one_more_row(rows: Seq<RowView>, row: RowView, key: Seq<u8>, i: int)
    requires
        0 <= i < jar_of(rows, key).len(),
        forall|j: int| 0 <= j < i ==> (#[trigger] jar_of(rows, key)[j]).0 != row.name,
    ensures
        row_value(row, key) is None ==> jar_of(rows.push(row), key) == jar_of(rows, key),
        row_value(row, key) matches Some(v) ==> jar_of(rows, key)[i].0 == row.name ==> jar_of(
            rows.push(row),
            key,
        ) == jar_of(rows, key).update(i, (row.name, v)),
{
    assert(rows.push(row).drop_last() =~= rows);
    lemma_place(jar_of(rows, key), row.name, 0);
}

/// A row with a name that the jar does not have comes last; a jar of no rows is
/// empty.
pub proof fn law_one_new_row(rows: Seq<RowView>, row: RowView, key: Seq<u8>)
    requires
        forall|j: int|
            0 <= j < jar_of(rows, key).len() ==> (#[trigger] jar_of(rows, key)[j]).0 != row.name,
    ensures
        jar_of(Seq::empty(), key).len() == 0,
        row_value(row, key) is None ==> jar_of(rows.push(row), key) == jar_of(rows, key),
        row_value(row, key) matches Some(v) ==> jar_of(rows.push(row), key) == jar_of(
            rows,
            key,
        ).push((row.name, v)),
{
    assert(rows.push(row).drop_last() =~= rows);
    lemma_place(jar_of(rows, key), row.name, 0);
}

/// Every character is visible ASCII or a blank, and there is one.
pub open spec fn can_stand(s: Seq<char>) -> bool {
    s.len() > 0 && forall|i: int| 0 <= i < s.len() ==> ' ' <= #[trigger] s[i] <= '~'
}

/// The cookies of a header come one by one and in order: a cookie whose name and
/// value can stand in it as `name=value`, any other not at all.
pub proof fn law_cookies_of_a_header(a: Jar, b: Jar, name: Seq<char>, value: Seq<char>)
    ensures
        header_parts(a + b) == header_parts(a) + header_parts(b),
        header_parts(Seq::empty()).len() == 0,
        can_stand(name) && can_stand(value) ==> header_parts(seq![(name, value)]) == seq![
            name + "="@ + value,
        ],
        !can_stand(name) || !can_stand(value) ==> header_parts(seq![(name, value)]).len() == 0,
        header_of(a) == join(header_parts(a), "; "@),
    decreases b.len(),
{
    reveal(Seq::filter_map);
    let f = |c: (Seq<char>, Seq<char>)| cookie_part(c);
    let one = seq![(name, value)];
    assert(one.drop_last() =~= Seq::empty());
    assert(one.last() == (name, value));
    assert(header_safe(name) == can_stand(name));
    assert(header_safe(value) == can_stand(value));
    assert(one.drop_last().filter_map(f) =~= Seq::empty());
    if can_stand(name) && can_stand(value) {
        assert(one.filter_map(f) =~= seq![name + "="@ + value]);
    }
    if b.len() == 0 {
        assert(a + b =~= a);
        assert(header_parts(a + b) =~= header_parts(a) + header_parts(b));
    } else {
        law_cookies_of_a_header(a, b.drop_last(), name, value);
        assert((a + b).drop_last() =~= a + b.drop_last());
        assert((a + b).last() == b.last());
        assert(header_parts(a + b) =~= header_parts(a) + header_parts(b));
    }
}

// ---------------------------------------------------------------------------
// The search
// ---------------------------------------------------------------------------
/// A user is logged in exactly if there are cookies, one of each of the names
/// among them.
pub proof fn law_login(jar: Jar, keys: Seq<Seq<char>>)
    ensures
        logged_in(jar, keys) <==> jar.len() > 0 && forall|i: int|
            0 <= i < keys.len() ==> exists|j: int|
                0 <= j < jar.len() && (#[trigger] jar[j]).0 == #[trigger] keys[i],
{
    assert forall|i: int| 0 <= i < keys.len() implies (place_of(jar, #[trigger] keys[i], 0) is Some
        <==> exists|j: int| 0 <= j < jar.len() && (#[trigger] jar[j]).0 == keys[i]) by {
        lemma_place(jar, keys[i], 0);
    }
}

/// The header is that of the first browser whose user is logged in.
pub proof fn law_first_browser_counts(
    reads: Seq<BrowserRead>,
    keys: Seq<Seq<char>>,
    i: int,
    jar: Vec<(String, String)>,
)
    requires
        0 <= i < reads.len(),
        reads[i] == BrowserRead::Jar(jar),
        logged_in(jar_view(jar@), keys),
        forall|j: int|
            0 <= j < i ==> (#[trigger] reads[j] matches BrowserRead::Jar(other) ==> !logged_in(
                jar_view(other@),
                keys,
            )),
    ensures
        first_login(reads, keys) == Some(header_of(jar_view(jar@))),
    decreases i,
{
    if i > 0 {
        let rest = reads.drop_first();
        assert(rest[i - 1] == reads[i]);
        assert(header_from(reads[0], keys) is None);
        assert forall|j: int| 0 <= j < i - 1 implies (#[trigger] rest[j] matches BrowserRead::Jar(
            other,
        ) ==> !logged_in(jar_view(other@), keys)) by {
            assert(rest[j] == reads[j + 1]);
        }
        law_first_browser_counts(rest, keys, i - 1, jar);
    }
}

/// The message is that of the last store that could not be read.
pub proof fn law_last_failure_counts(reads: Seq<BrowserRead>, i: int, e: String)
    requires
        0 <= i < reads.len(),
        reads[i] == BrowserRead::Failed(e),
        forall|j: int| i < j < reads.len() ==> !(#[trigger] reads[j] is Failed),
    ensures
        last_failure(reads) == Some(e@),
    decreases reads.len(),
{
    if i < reads.len() - 1 {
        let rest = reads.drop_last();
        assert(!(reads[reads.len() - 1] is Failed));
        assert(rest[i] == reads[i]);
        assert forall|j: int| i < j < rest.len() implies !(#[trigger] rest[j] is Failed) by {
            assert(rest[j] == reads[j]);
        }
        law_last_failure_counts(rest, i, e);
    }
}

/// There is no such message where every store could be read.
pub proof fn law_no_failure(reads: Seq<BrowserRead>)
    requires
        forall|j: int| 0 <= j < reads.len() ==> !(#[trigger] reads[j] is Failed),
    ensures
        last_failure(reads) is None,
    decreases reads.len(),
{
    if reads.len() > 0 {
        let rest = reads.drop_last();
        assert(!(reads[reads.len() - 1] is Failed));
        assert forall|j: int| 0 <= j < rest.len() implies !(#[trigger] rest[j] is Failed) by {
            assert(rest[j] == reads[j]);
        }
        law_no_failure(rest);
    }
}

/// Why a search found no login: there is no browser, none has a store, a store
/// could not be read, or nobody is logged in.
pub proof fn law_why_no_login(reads: Seq<BrowserRead>, domain: Seq<char>, i: int)
    ensures
        search_fault(Seq::empty(), domain)
            == "Automatic browser cookie extraction is only supported on macOS for now"@,
        reads.len() > 0 && (forall|j: int|
            0 <= j < reads.len() ==> #[trigger] reads[j] is Missing) ==> search_fault(reads, domain)
            == "No supported browser found. Install/login in Edge or Chrome."@,
        0 <= i < reads.len() && !(reads[i] is Missing) ==> (match last_failure(reads) {
            Some(e) => search_fault(reads, domain) == e,
            None => search_fault(reads, domain) == "Not logged in to "@ + domain
                + " in any browser — please log in first"@,
        }),
{
    if 0 <= i < reads.len() && !(reads[i] is Missing) {
        assert(any_store(reads));
    }
}

} // verus!
