//! What holds of the cookies that are read out of a browser.
use vstd::prelude::*;

use crate::browser_cookies::{
    all_hex, cookie_part, decrypted, encrypted_part, first_login, header_from, header_of,
    header_parts, header_safe, hex_bytes, jar_of, jar_view, logged_in, nibble, place_of, put,
    row_value, value_in, version_mark, BrowserRead, Jar, RowView,
};
use crate::http_fetcher::fetch::{hex_char, hex_text};
use crate::text::{
    capital_hex, drop_end, drop_start, is_hex_digit, join, occurs_at, occurs_in, replace, trimmed,
    white_space,
};

verus! {

/// Every character is visible ASCII or a blank.
pub open spec fn visible(s: Seq<char>) -> bool {
    forall|i: int| 0 <= i < s.len() ==> ' ' <= #[trigger] s[i] <= '~'
}

proof fn lemma_join_visible(parts: Seq<Seq<char>>, sep: Seq<char>)
    requires
        forall|i: int| 0 <= i < parts.len() ==> visible(#[trigger] parts[i]),
        visible(sep),
    ensures
        visible(join(parts, sep)),
    decreases parts.len(),
{
    if parts.len() > 1 {
        let before = parts.drop_last();
        assert forall|i: int| 0 <= i < before.len() implies visible(#[trigger] before[i]) by {
            assert(before[i] == parts[i]);
        }
        lemma_join_visible(before, sep);
        let j = join(before, sep);
        let s = join(parts, sep);
        let l = parts[parts.len() - 1];
        assert forall|i: int| 0 <= i < s.len() implies ' ' <= #[trigger] s[i] <= '~' by {
            if i < j.len() {
                assert(s[i] == j[i]);
            } else if i < j.len() + sep.len() {
                assert(s[i] == sep[i - j.len()]);
            } else {
                assert(s[i] == l[i - j.len() - sep.len()]);
            }
        }
    }
}

proof fn lemma_join_holds(parts: Seq<Seq<char>>, sep: Seq<char>, i: int)
    requires
        0 <= i < parts.len(),
    ensures
        occurs_in(join(parts, sep), parts[i]),
    decreases parts.len(),
{
    let s = join(parts, sep);
    if parts.len() == 1 {
        assert(s.subrange(0, s.len() as int) =~= parts[i]);
        assert(occurs_at(s, parts[i], 0));
    } else if i == parts.len() - 1 {
        let at = s.len() - parts[i].len();
        assert(s.subrange(at, s.len() as int) =~= parts[i]);
        assert(occurs_at(s, parts[i], at));
    } else {
        let before = parts.drop_last();
        lemma_join_holds(before, sep, i);
        let j = join(before, sep);
        let k = choose|k: int| #[trigger] occurs_at(j, before[i], k);
        assert(s.subrange(k, k + parts[i].len()) =~= j.subrange(k, k + parts[i].len()));
        assert(occurs_at(s, parts[i], k));
    }
}

/// The header that carries cookies holds visible ASCII characters and blanks
/// only, whatever the cookies hold: no cookie makes the header unusable.
pub proof fn law_header_is_visible(jar: Jar)
    ensures
        visible(header_of(jar)),
{
    reveal_strlit("=");
    reveal_strlit("; ");
    let f = |c: (Seq<char>, Seq<char>)| cookie_part(c);
    let parts = header_parts(jar);
    assert forall|i: int| 0 <= i < parts.len() implies visible(#[trigger] parts[i]) by {
        assert(parts.contains(parts[i]));
        jar.lemma_filter_map_contains(f, parts[i]);
        let c = choose|c: (Seq<char>, Seq<char>)| #[trigger]
            jar.contains(c) && f(c) == Some(parts[i]);
        assert(parts[i] == c.0 + "="@ + c.1);
    }
    lemma_join_visible(parts, "; "@);
}

/// A cookie that can stand in a header is carried by the header; in particular
/// the login cookies are.
pub proof fn law_header_carries(jar: Jar, i: int)
    requires
        0 <= i < jar.len(),
        header_safe(jar[i].0),
        header_safe(jar[i].1),
    ensures
        occurs_in(header_of(jar), jar[i].0 + "="@ + jar[i].1),
{
    lemma_part_is_kept(jar, i);
    let parts = header_parts(jar);
    let part = jar[i].0 + "="@ + jar[i].1;
    let k = choose|k: int| 0 <= k < parts.len() && parts[k] == part;
    lemma_join_holds(parts, "; "@, k);
}

proof fn lemma_part_is_kept(jar: Jar, i: int)
    requires
        0 <= i < jar.len(),
        cookie_part(jar[i]) is Some,
    ensures
        header_parts(jar).contains(cookie_part(jar[i])->0),
    decreases jar.len(),
{
    let f = |c: (Seq<char>, Seq<char>)| cookie_part(c);
    let rest = jar.drop_last();
    let parts = jar.filter_map(f);
    let before = rest.filter_map(f);
    if i < jar.len() - 1 {
        lemma_part_is_kept(rest, i);
        assert(rest[i] == jar[i]);
        let k = choose|k: int| 0 <= k < before.len() && before[k] == cookie_part(jar[i])->0;
        assert(parts[k] == before[k]);
    } else {
        assert(parts[before.len() as int] == cookie_part(jar[i])->0);
    }
}

/// No name occurs twice.
pub open spec fn names_once(jar: Jar) -> bool {
    forall|i: int, j: int|
        #![trigger jar[i], jar[j]]
        0 <= i < jar.len() && 0 <= j < jar.len() && i != j ==> jar[i].0 != jar[j].0
}

/// The value of the last row with this name that has a value.
pub open spec fn last_value(rows: Seq<RowView>, key: Seq<u8>, name: Seq<char>) -> Option<Seq<char>>
    decreases rows.len(),
{
    if rows.len() == 0 {
        None
    } else if rows.last().name == name && row_value(rows.last(), key) is Some {
        row_value(rows.last(), key)
    } else {
        last_value(rows.drop_last(), key, name)
    }
}

proof fn lemma_place(jar: Jar, name: Seq<char>, i: int)
    requires
        0 <= i,
    ensures
        place_of(jar, name, i) matches Some(k) ==> i <= k < jar.len() && jar[k].0 == name && (
        forall|j: int| i <= j < k ==> (#[trigger] jar[j]).0 != name),
        place_of(jar, name, i) is None ==> forall|j: int|
            i <= j < jar.len() ==> (#[trigger] jar[j]).0 != name,
    decreases jar.len() - i,
{
    if i < jar.len() && jar[i].0 != name {
        lemma_place(jar, name, i + 1);
    }
}

proof fn lemma_value_at(jar: Jar, name: Seq<char>, k: int)
    requires
        names_once(jar),
        0 <= k < jar.len(),
        jar[k].0 == name,
    ensures
        value_in(jar, name) == Some(jar[k].1),
{
    lemma_place(jar, name, 0);
}

proof fn lemma_put(jar: Jar, name: Seq<char>, value: Seq<char>, other: Seq<char>)
    requires
        names_once(jar),
    ensures
        names_once(put(jar, name, value)),
        value_in(put(jar, name, value), name) == Some(value),
        other != name ==> value_in(put(jar, name, value), other) == value_in(jar, other),
{
    let after = put(jar, name, value);
    lemma_place(jar, name, 0);
    lemma_place(jar, other, 0);
    lemma_place(after, other, 0);
    match place_of(jar, name, 0) {
        Some(k) => {
            assert(after[k] == (name, value));
            lemma_value_at(after, name, k);
            if other != name {
                match place_of(jar, other, 0) {
                    Some(j) => {
                        assert(after[j] == jar[j]);
                        lemma_value_at(after, other, j);
                    },
                    None => {
                        assert forall|j: int| 0 <= j < after.len() implies (#[trigger] after[j]).0
                            != other by {
                            if j != k {
                                assert(after[j] == jar[j]);
                            }
                        }
                    },
                }
            }
        },
        None => {
            assert forall|i: int, j: int|
                #![trigger after[i], after[j]]
                0 <= i < after.len() && 0 <= j < after.len() && i != j implies after[i].0
                != after[j].0 by {
                if i < jar.len() {
                    assert(after[i] == jar[i]);
                }
                if j < jar.len() {
                    assert(after[j] == jar[j]);
                }
            }
            assert(after[jar.len() as int] == (name, value));
            lemma_value_at(after, name, jar.len() as int);
            if other != name {
                match place_of(jar, other, 0) {
                    Some(j) => {
                        assert(after[j] == jar[j]);
                        lemma_value_at(after, other, j);
                    },
                    None => {
                        assert forall|j: int| 0 <= j < after.len() implies (#[trigger] after[j]).0
                            != other by {
                            if j < jar.len() {
                                assert(after[j] == jar[j]);
                            }
                        }
                    },
                }
            }
        },
    }
}

/// The jar holds each name once, with the value of its last row.
pub proof fn law_jar_holds_last_values(rows: Seq<RowView>, key: Seq<u8>, name: Seq<char>)
    ensures
        names_once(jar_of(rows, key)),
        value_in(jar_of(rows, key), name) == last_value(rows, key, name),
    decreases rows.len(),
{
    if rows.len() > 0 {
        law_jar_holds_last_values(rows.drop_last(), key, name);
        if let Some(v) = row_value(rows.last(), key) {
            lemma_put(jar_of(rows.drop_last(), key), rows.last().name, v, name);
        }
    }
}

/// A header is found only in a browser whose cookies include all the names that
/// show a login.
pub proof fn law_header_needs_login(reads: Seq<BrowserRead>, keys: Seq<Seq<char>>)
    requires
        first_login(reads, keys) is Some,
    ensures
        exists|i: int|
            0 <= i < reads.len() && (#[trigger] reads[i] matches BrowserRead::Jar(jar) && logged_in(
                jar_view(jar@),
                keys,
            ) && first_login(reads, keys) == Some(header_of(jar_view(jar@)))),
    decreases reads.len(),
{
    if header_from(reads[0], keys) is None {
        let rest = reads.drop_first();
        law_header_needs_login(rest, keys);
        let i = choose|i: int|
            0 <= i < rest.len() && (#[trigger] rest[i] matches BrowserRead::Jar(jar) && logged_in(
                jar_view(jar@),
                keys,
            ) && first_login(rest, keys) == Some(header_of(jar_view(jar@))));
        assert(reads[i + 1] == rest[i]);
    } else {
        assert(reads[0] is Jar);
    }
}

/// The domain cannot end the text in the question for its cookies: no quotation
/// mark is left in it.
pub proof fn law_question_stays_whole(root_domain: Seq<char>)
    ensures
        forall|i: int|
            0 <= i < replace(root_domain, '\'', ""@).len() ==> (#[trigger] replace(
                root_domain,
                '\'',
                ""@,
            )[i]) != '\'',
    decreases root_domain.len(),
{
    reveal_strlit("");
    if root_domain.len() > 0 {
        law_question_stays_whole(root_domain.drop_last());
        assert(replace(root_domain.drop_last(), '\'', ""@) + ""@ =~= replace(
            root_domain.drop_last(),
            '\'',
            ""@,
        ));
    }
}

/// A value that does not start with the mark of the version is not decrypted,
/// whatever the key.
pub proof fn law_other_versions_stay(enc_hex: Seq<char>, key: Seq<u8>)
    requires
        hex_bytes(enc_hex) matches Some(b) ==> !version_mark().is_prefix_of(b),
    ensures
        decrypted(enc_hex, key) is None,
{
    assert(encrypted_part(enc_hex) is None);
}

/// Bytes in capital hexadecimal digits, two for each, as the cookie store dumps
/// them.
pub open spec fn capital_hex_text(data: Seq<u8>) -> Seq<char>
    decreases data.len(),
{
    if data.len() == 0 {
        Seq::empty()
    } else {
        capital_hex_text(data.drop_last()).push(capital_hex(data.last() as int / 16)).push(
            capital_hex(data.last() as int % 16),
        )
    }
}

/// The hexadecimal digits, in whichever case each of them is, write the bytes.
pub open spec fn writes(digits: Seq<char>, data: Seq<u8>) -> bool {
    &&& digits.len() == 2 * data.len()
    &&& all_hex(digits)
    &&& forall|i: int|
        0 <= i < data.len() ==> nibble(digits[2 * i]) * 16 + nibble(digits[2 * i + 1])
            == #[trigger] data[i]
}

/// Every character is white space.
pub open spec fn blank(s: Seq<char>) -> bool {
    forall|i: int| 0 <= i < s.len() ==> white_space(#[trigger] s[i])
}

proof fn lemma_one_more_byte(digits: Seq<char>, data: Seq<u8>, high: char, low: char, b: u8)
    requires
        writes(digits, data),
        is_hex_digit(high),
        is_hex_digit(low),
        nibble(high) * 16 + nibble(low) == b,
    ensures
        writes(digits.push(high).push(low), data.push(b)),
{
    let s = digits.push(high).push(low);
    let all = data.push(b);
    assert forall|i: int| 0 <= i < s.len() implies is_hex_digit(#[trigger] s[i]) by {
        if i < digits.len() {
            assert(s[i] == digits[i]);
        }
    }
    assert forall|i: int| 0 <= i < all.len() implies nibble(s[2 * i]) * 16 + nibble(s[2 * i + 1])
        == #[trigger] all[i] by {
        if i < data.len() {
            assert(all[i] == data[i]);
            assert(s[2 * i] == digits[2 * i]);
            assert(s[2 * i + 1] == digits[2 * i + 1]);
        }
    }
}

proof fn lemma_hex_texts(data: Seq<u8>)
    ensures
        writes(hex_text(data), data),
        writes(capital_hex_text(data), data),
    decreases data.len(),
{
    if data.len() > 0 {
        let rest = data.drop_last();
        let b = data.last();
        lemma_hex_texts(rest);
        assert(rest.push(b) =~= data);
        lemma_one_more_byte(
            hex_text(rest),
            rest,
            hex_char(b as int / 16),
            hex_char(b as int % 16),
            b,
        );
        lemma_one_more_byte(
            capital_hex_text(rest),
            rest,
            capital_hex(b as int / 16),
            capital_hex(b as int % 16),
            b,
        );
    }
}

proof fn lemma_blank_before(before: Seq<char>, s: Seq<char>)
    requires
        blank(before),
    ensures
        drop_start(before + s, |c: char| white_space(c)) == drop_start(
            s,
            |c: char| white_space(c),
        ),
    decreases before.len(),
{
    if before.len() == 0 {
        assert(before + s =~= s);
    } else {
        let rest = before.drop_first();
        assert forall|i: int| 0 <= i < rest.len() implies white_space(#[trigger] rest[i]) by {
            assert(rest[i] == before[i + 1]);
        }
        lemma_blank_before(rest, s);
        assert((before + s).drop_first() =~= rest + s);
        assert((before + s).first() == before[0]);
    }
}

proof fn lemma_blank_behind(s: Seq<char>, behind: Seq<char>)
    requires
        blank(behind),
    ensures
        drop_end(s + behind, |c: char| white_space(c)) == drop_end(s, |c: char| white_space(c)),
    decreases behind.len(),
{
    if behind.len() == 0 {
        assert(s + behind =~= s);
    } else {
        let rest = behind.drop_last();
        lemma_blank_behind(s, rest);
        assert((s + behind).drop_last() =~= s + rest);
        assert((s + behind).last() == behind[behind.len() - 1]);
    }
}

/// Bytes read back from the hexadecimal digits that write them, in whichever
/// case each digit is and whatever white space is around them.
pub proof fn law_hex_digits_read_back(
    before: Seq<char>,
    digits: Seq<char>,
    behind: Seq<char>,
    data: Seq<u8>,
)
    requires
        blank(before),
        blank(behind),
        writes(digits, data),
    ensures
        hex_bytes(before + digits + behind) == Some(data),
{
    let s = before + digits + behind;
    let cut = |c: char| white_space(c);
    assert(s =~= before + (digits + behind));
    lemma_blank_before(before, digits + behind);
    lemma_blank_behind(digits, behind);
    if digits.len() > 0 {
        assert(is_hex_digit(digits[0]));
        assert(is_hex_digit(digits[digits.len() - 1]));
        assert((digits + behind).first() == digits[0]);
        assert(trimmed(s) == digits);
    } else {
        lemma_blank_before(behind, Seq::empty());
        assert(digits + behind =~= behind + Seq::<char>::empty());
        assert(trimmed(s) =~= digits);
    }
    assert(hex_bytes(s)->0 =~= data);
}

/// Bytes that are written in hexadecimal digits, small or capital, read back as
/// themselves, whatever white space is around the digits.
pub proof fn law_hex_round_trip(before: Seq<char>, data: Seq<u8>, behind: Seq<char>)
    requires
        blank(before),
        blank(behind),
    ensures
        hex_bytes(before + hex_text(data) + behind) == Some(data),
        hex_bytes(before + capital_hex_text(data) + behind) == Some(data),
{
    lemma_hex_texts(data);
    law_hex_digits_read_back(before, hex_text(data), behind, data);
    law_hex_digits_read_back(before, capital_hex_text(data), behind, data);
}

} // verus!
