//! What holds of the text functions, whatever text they are given.
use vstd::prelude::*;
use vstd::utf8::is_ascii_chars;

use crate::link::first_value;
use crate::text::{
    after_last_break, after_prefix, ascii_lowercase, decimal, digits_value, first_from, is_digit,
    is_hex_digit, join, lemma_decimal, lemma_first_from, line_end, lowercase, nonempty, number_in,
    occurs_at, occurs_in, replace, signed_decimal, split, trimmed, unicode_lowercase, white_space,
    without_line_ends, without_tails,
};

verus! {

// ---------------------------------------------------------------------------
// Parts of a text
// ---------------------------------------------------------------------------
/// A text stands somewhere in another one exactly if that one is something
/// before it, the text, and something behind it.
pub proof fn law_occurrence_is_a_part(hay: Seq<char>, needle: Seq<char>)
    ensures
        occurs_in(hay, needle) <==> exists|before: Seq<char>, behind: Seq<char>|
            hay == #[trigger] (before + needle + behind),
{
    if occurs_in(hay, needle) {
        let i = choose|i: int| #[trigger] occurs_at(hay, needle, i);
        let before = hay.take(i);
        let behind = hay.skip(i + needle.len());
        assert forall|k: int| 0 <= k < needle.len() implies #[trigger] needle[k] == hay[i + k] by {
            assert(hay.subrange(i, i + needle.len())[k] == hay[i + k]);
        }
        assert(hay =~= before + needle + behind);
    }
    if exists|before: Seq<char>, behind: Seq<char>| hay == #[trigger] (before + needle + behind) {
        let (before, behind) = choose|before: Seq<char>, behind: Seq<char>|
            hay == #[trigger] (before + needle + behind);
        let i = before.len() as int;
        assert(hay.subrange(i, i + needle.len()) =~= needle);
        assert(occurs_at(hay, needle, i));
    }
}

/// What follows a prefix is the rest of the text, and only a text that starts
/// with the prefix has such a rest.
pub proof fn law_prefix_comes_off(s: Seq<char>, prefix: Seq<char>)
    ensures
        after_prefix(prefix + s, prefix) == Some(s),
        after_prefix(s, prefix) matches Some(rest) ==> s == prefix + rest,
{
    assert((prefix + s).subrange(0, prefix.len() as int) =~= prefix);
    assert((prefix + s).skip(prefix.len() as int) =~= s);
    if prefix.is_prefix_of(s) {
        assert(s =~= s.subrange(0, prefix.len() as int) + s.skip(prefix.len() as int));
    }
}

// ---------------------------------------------------------------------------
// Splitting and joining
// ---------------------------------------------------------------------------
/// The character does not occur in the text.
pub open spec fn without(s: Seq<char>, c: char) -> bool {
    forall|i: int| 0 <= i < s.len() ==> #[trigger] s[i] != c
}

/// The pieces of a text, put together again with the separator between them,
/// are the text; no piece holds the separator; and there is at least one piece.
pub proof fn law_pieces_make_the_text(s: Seq<char>, sep: char)
    ensures
        join(split(s, sep), seq![sep]) == s,
        split(s, sep).len() > 0,
        forall|i: int| 0 <= i < split(s, sep).len() ==> without(#[trigger] split(s, sep)[i], sep),
    decreases s.len(),
{
    let parts = split(s, sep);
    if s.len() == 0 {
        assert(join(parts, seq![sep]) =~= s);
    } else {
        let rest = s.drop_last();
        let before = split(rest, sep);
        law_pieces_make_the_text(rest, sep);
        assert(rest.push(s.last()) =~= s);
        if s.last() == sep {
            assert(parts.drop_last() =~= before);
            assert(join(parts, seq![sep]) =~= s);
        } else {
            let piece = before.last().push(s.last());
            assert(parts.drop_last() =~= before.drop_last());
            assert(without(before[before.len() - 1], sep));
            assert(without(piece, sep));
            if parts.len() > 1 {
                assert(join(parts, seq![sep]) =~= join(before, seq![sep]).push(s.last()));
            } else {
                assert(join(before, seq![sep]) == before[0]);
                assert(join(parts, seq![sep]) =~= s);
            }
            assert forall|i: int| 0 <= i < parts.len() implies without(#[trigger] parts[i],
            sep) by {
                if i < parts.len() - 1 {
                    assert(parts[i] == before[i]);
                }
            }
        }
    }
}

/// A text that does not hold the separator is one piece.
pub proof fn lemma_one_piece(s: Seq<char>, sep: char)
    requires
        without(s, sep),
    ensures
        split(s, sep) == seq![s],
    decreases s.len(),
{
    if s.len() > 0 {
        let rest = s.drop_last();
        assert forall|i: int| 0 <= i < rest.len() implies #[trigger] rest[i] != sep by {
            assert(rest[i] == s[i]);
        }
        lemma_one_piece(rest, sep);
        assert(s[s.len() - 1] != sep);
        assert(rest.push(s.last()) =~= s);
        assert(split(s, sep) =~= seq![s]);
    } else {
        assert(s =~= Seq::empty());
        assert(split(s, sep) =~= seq![s]);
    }
}

/// What stands behind a separator and holds none itself is the last piece.
pub proof fn lemma_last_piece(a: Seq<char>, b: Seq<char>, sep: char)
    requires
        without(b, sep),
    ensures
        split(a + seq![sep] + b, sep) == split(a, sep).push(b),
    decreases b.len(),
{
    let s = a + seq![sep] + b;
    if b.len() == 0 {
        assert(s.drop_last() =~= a);
        assert(s.last() == sep);
        assert(b =~= Seq::empty());
        assert(split(s, sep) =~= split(a, sep).push(b));
    } else {
        let rest = b.drop_last();
        assert forall|i: int| 0 <= i < rest.len() implies #[trigger] rest[i] != sep by {
            assert(rest[i] == b[i]);
        }
        lemma_last_piece(a, rest, sep);
        assert(s.drop_last() =~= a + seq![sep] + rest);
        assert(s.last() == b[b.len() - 1]);
        assert(rest.push(b.last()) =~= b);
        assert(split(s, sep) =~= split(a, sep).push(b));
    }
}

/// A text is split on each side of a separator by itself.
pub proof fn lemma_split_in_two(a: Seq<char>, b: Seq<char>, sep: char)
    ensures
        split(a + seq![sep] + b, sep) == split(a, sep) + split(b, sep),
    decreases b.len(),
{
    let s = a + seq![sep] + b;
    if b.len() == 0 {
        assert(s.drop_last() =~= a);
        assert(s.last() == sep);
        assert(split(s, sep) =~= split(a, sep) + split(b, sep));
    } else {
        let rest = b.drop_last();
        lemma_split_in_two(a, rest, sep);
        law_pieces_make_the_text(rest, sep);
        assert(s.drop_last() =~= a + seq![sep] + rest);
        assert(s.last() == b.last());
        let before = split(a, sep) + split(rest, sep);
        assert(before.last() == split(rest, sep).last());
        assert(before.drop_last() =~= split(a, sep) + split(rest, sep).drop_last());
        assert(split(s, sep) =~= split(a, sep) + split(b, sep));
    }
}

/// Pieces that hold no separator, put together with it, are split into the same
/// pieces again.
pub proof fn law_joined_pieces_split(parts: Seq<Seq<char>>, sep: char)
    requires
        parts.len() > 0,
        forall|i: int| 0 <= i < parts.len() ==> without(#[trigger] parts[i], sep),
    ensures
        split(join(parts, seq![sep]), sep) == parts,
    decreases parts.len(),
{
    if parts.len() == 1 {
        lemma_one_piece(parts[0], sep);
        assert(seq![parts[0]] =~= parts);
    } else {
        let rest = parts.drop_last();
        assert forall|i: int| 0 <= i < rest.len() implies without(#[trigger] rest[i], sep) by {
            assert(rest[i] == parts[i]);
        }
        law_joined_pieces_split(rest, sep);
        assert(without(parts[parts.len() - 1], sep));
        lemma_last_piece(join(rest, seq![sep]), parts.last(), sep);
        assert(rest.push(parts.last()) =~= parts);
    }
}

/// Putting pieces together works on each side of a cut by itself.
pub proof fn law_join_in_two(a: Seq<Seq<char>>, b: Seq<Seq<char>>, sep: Seq<char>)
    requires
        a.len() > 0,
        b.len() > 0,
    ensures
        join(a + b, sep) == join(a, sep) + sep + join(b, sep),
    decreases b.len(),
{
    assert((a + b).drop_last() =~= a + b.drop_last());
    if b.len() == 1 {
        assert(a + b.drop_last() =~= a);
    } else {
        law_join_in_two(a, b.drop_last(), sep);
        assert(join(a + b, sep) =~= join(a, sep) + sep + join(b, sep));
    }
}

/// Nothing put together is nothing, and one piece is itself.
pub proof fn law_join_of_few(part: Seq<char>, sep: Seq<char>)
    ensures
        join(Seq::empty(), sep) == Seq::<char>::empty(),
        join(seq![part], sep) == part,
{
}

/// Writing a character as something else puts that between the pieces in place
/// of the character.
pub proof fn law_replace_joins_pieces(s: Seq<char>, from: char, to: Seq<char>)
    ensures
        replace(s, from, to) == join(split(s, from), to),
    decreases s.len(),
{
    if s.len() > 0 {
        let rest = s.drop_last();
        let before = split(rest, from);
        let parts = split(s, from);
        law_replace_joins_pieces(rest, from, to);
        law_pieces_make_the_text(rest, from);
        if s.last() == from {
            assert(parts.drop_last() =~= before);
            assert(join(parts, to) =~= replace(s, from, to));
        } else {
            assert(parts.drop_last() =~= before.drop_last());
            if parts.len() > 1 {
                assert(join(parts, to) =~= join(before, to).push(s.last()));
            } else {
                assert(join(before, to) == before[0]);
            }
        }
    } else {
        assert(replace(s, from, to) =~= join(split(s, from), to));
    }
}

/// The pieces that are not empty: each side of a cut by itself, and a single
/// piece stays exactly if it is not empty.
pub proof fn law_nonempty_pieces(a: Seq<Seq<char>>, b: Seq<Seq<char>>, piece: Seq<char>)
    ensures
        nonempty(a + b) == nonempty(a) + nonempty(b),
        piece.len() > 0 ==> nonempty(seq![piece]) == seq![piece],
        piece.len() == 0 ==> nonempty(seq![piece]) == Seq::<Seq<char>>::empty(),
        nonempty(Seq::empty()) == Seq::<Seq<char>>::empty(),
    decreases b.len(),
{
    let f = |p: Seq<char>| p.len() > 0;
    reveal(Seq::filter);
    assert(seq![piece].drop_last() =~= Seq::<Seq<char>>::empty());
    assert(nonempty(seq![piece].drop_last()) =~= Seq::empty());
    assert(nonempty(seq![piece]) =~= if piece.len() > 0 {
        seq![piece]
    } else {
        Seq::empty()
    });
    if b.len() == 0 {
        assert(a + b =~= a);
        assert(nonempty(a + b) =~= nonempty(a) + nonempty(b));
    } else {
        law_nonempty_pieces(a, b.drop_last(), piece);
        assert((a + b).drop_last() =~= a + b.drop_last());
        assert((a + b).last() == b.last());
        assert(nonempty(a + b) =~= nonempty(a) + nonempty(b));
    }
}

// ---------------------------------------------------------------------------
// Taking off what is around a text
// ---------------------------------------------------------------------------
/// White space, by number.
pub proof fn law_white_space_by_number(c: char)
    ensures
        white_space(c) <==> {
            let n = c as u32;
            9 <= n <= 13 || n == 32 || n == 0x85 || n == 0xa0 || n == 0x1680 || 0x2000 <= n
                <= 0x200a || n == 0x2028 || n == 0x2029 || n == 0x202f || n == 0x205f || n == 0x3000
        },
        line_end(c) <==> c as u32 == 10 || c as u32 == 13,
        is_digit(c) <==> 48 <= c as u32 <= 57,
        is_hex_digit(c) <==> 48 <= c as u32 <= 57 || 97 <= c as u32 <= 102 || 65 <= c as u32 <= 70,
{
}

proof fn lemma_drop_start(s: Seq<char>, cut: spec_fn(char) -> bool)
    ensures
        crate::text::drop_start(s, cut).len() <= s.len(),
        crate::text::drop_start(s, cut) == s.skip(s.len() - crate::text::drop_start(s, cut).len()),
        forall|i: int|
            0 <= i < s.len() - crate::text::drop_start(s, cut).len() ==> cut(#[trigger] s[i]),
        crate::text::drop_start(s, cut).len() > 0 ==> !cut(crate::text::drop_start(s, cut)[0]),
    decreases s.len(),
{
    let r = crate::text::drop_start(s, cut);
    if s.len() > 0 && cut(s.first()) {
        let rest = s.drop_first();
        lemma_drop_start(rest, cut);
        assert(r =~= s.skip(s.len() - r.len()));
        assert forall|i: int| 0 <= i < s.len() - r.len() implies cut(#[trigger] s[i]) by {
            if i > 0 {
                assert(rest[i - 1] == s[i]);
            }
        }
    } else {
        assert(r =~= s.skip(s.len() - r.len()));
    }
}

proof fn lemma_drop_end(s: Seq<char>, cut: spec_fn(char) -> bool)
    ensures
        crate::text::drop_end(s, cut).len() <= s.len(),
        crate::text::drop_end(s, cut) == s.take(crate::text::drop_end(s, cut).len() as int),
        forall|i: int|
            crate::text::drop_end(s, cut).len() <= i < s.len() ==> cut(#[trigger] s[i]),
        crate::text::drop_end(s, cut).len() > 0 ==> !cut(crate::text::drop_end(s, cut).last()),
    decreases s.len(),
{
    let r = crate::text::drop_end(s, cut);
    if s.len() > 0 && cut(s.last()) {
        let rest = s.drop_last();
        lemma_drop_end(rest, cut);
        assert(r =~= s.take(r.len() as int));
        assert forall|i: int| r.len() <= i < s.len() implies cut(#[trigger] s[i]) by {
            if i < s.len() - 1 {
                assert(rest[i] == s[i]);
            }
        }
    } else {
        assert(r =~= s.take(r.len() as int));
    }
}

/// `middle` is the text without what `cut` picks at both ends: only that is
/// taken off, and nothing of it is left at either end.
pub open spec fn bared(middle: Seq<char>, s: Seq<char>, cut: spec_fn(char) -> bool) -> bool {
    &&& exists|before: Seq<char>, behind: Seq<char>|
        s == #[trigger] (before + middle + behind) && before.all(cut) && behind.all(cut)
    &&& middle.len() > 0 ==> !cut(middle[0]) && !cut(middle[middle.len() - 1])
}

proof fn lemma_bared(s: Seq<char>, cut: spec_fn(char) -> bool)
    ensures
        bared(crate::text::drop_end(crate::text::drop_start(s, cut), cut), s, cut),
{
    let right = crate::text::drop_start(s, cut);
    let middle = crate::text::drop_end(right, cut);
    lemma_drop_start(s, cut);
    lemma_drop_end(right, cut);
    let before = s.take(s.len() - right.len());
    let behind = right.skip(middle.len() as int);
    assert(s =~= before + middle + behind);
    assert forall|i: int| 0 <= i < behind.len() implies cut(#[trigger] behind[i]) by {
        assert(behind[i] == right[middle.len() + i]);
    }
    assert forall|i: int| 0 <= i < before.len() implies cut(#[trigger] before[i]) by {
        assert(before[i] == s[i]);
    }
    if middle.len() > 0 {
        assert(middle[0] == right[0]);
    }
}

/// Trimming takes off the white space at both ends, all of it and nothing else.
pub proof fn law_trimming(s: Seq<char>)
    ensures
        bared(trimmed(s), s, |c: char| white_space(c)),
        bared(without_line_ends(s), s, |c: char| c == '\n' || c == '\r'),
{
    lemma_bared(s, |c: char| white_space(c));
    let cut = |c: char| line_end(c);
    lemma_bared(s, cut);
    assert(cut =~= (|c: char| c == '\n' || c == '\r'));
}

/// The text `n` times.
pub open spec fn repeated(s: Seq<char>, n: nat) -> Seq<char>
    decreases n,
{
    if n == 0 {
        Seq::empty()
    } else {
        repeated(s, (n - 1) as nat) + s
    }
}

/// Taking off an ending takes off every copy of it at the end, and nothing else.
pub proof fn law_endings_come_off(s: Seq<char>, tail: Seq<char>)
    requires
        tail.len() > 0,
    ensures
        !tail.is_suffix_of(without_tails(s, tail)),
        exists|n: nat| s == without_tails(s, tail) + #[trigger] repeated(tail, n),
    decreases s.len(),
{
    if tail.is_suffix_of(s) {
        let rest = s.take(s.len() - tail.len());
        law_endings_come_off(rest, tail);
        let n = choose|n: nat| rest == without_tails(rest, tail) + #[trigger] repeated(tail, n);
        assert(s =~= rest + tail);
        assert(s =~= without_tails(s, tail) + repeated(tail, n + 1));
    } else {
        assert(s =~= s + repeated(tail, 0));
    }
}

/// What stands behind the last break holds no break; before it stands a break,
/// unless it is the whole text.
pub proof fn law_last_break(s: Seq<char>, mark: Seq<char>)
    requires
        mark.len() > 0,
    ensures
        !occurs_in(after_last_break(s, mark), mark),
        after_last_break(s, mark) == s || (mark + after_last_break(s, mark)).is_suffix_of(s),
    decreases s.len(),
{
    lemma_first_from(s, mark, 0);
    let r = after_last_break(s, mark);
    match first_from(s, mark, 0) {
        Some(i) => {
            let rest = s.subrange(i + mark.len(), s.len() as int);
            law_last_break(rest, mark);
            assert(s.subrange(i, i + mark.len()) == mark);
            let whole = mark + r;
            if r == rest {
                assert forall|k: int| 0 <= k < mark.len() implies #[trigger] mark[k] == s[i + k] by {
                    assert(s.subrange(i, i + mark.len())[k] == s[i + k]);
                }
                assert(s.subrange(s.len() - whole.len(), s.len() as int) =~= whole);
            } else {
                assert(s.subrange(s.len() - whole.len(), s.len() as int) =~= rest.subrange(
                    rest.len() - whole.len(),
                    rest.len() as int,
                ));
            }
        },
        None => {
            assert forall|j: int| !#[trigger] occurs_at(s, mark, j) by {}
        },
    }
}

/// A text is broken at the first mark, and what is behind it is broken in turn;
/// without a mark it stays whole.
pub proof fn law_breaks_from_the_left(s: Seq<char>, mark: Seq<char>, i: int)
    requires
        mark.len() > 0,
        occurs_at(s, mark, i),
        forall|j: int| 0 <= j < i ==> !#[trigger] occurs_at(s, mark, j),
    ensures
        after_last_break(s, mark) == after_last_break(s.skip(i + mark.len()), mark),
{
    lemma_first_from(s, mark, 0);
    let k = first_from(s, mark, 0);
    assert(k == Some(i));
    assert(s.subrange(i + mark.len(), s.len() as int) =~= s.skip(i + mark.len()));
}

/// A text without a mark is not broken.
pub proof fn law_no_break(s: Seq<char>, mark: Seq<char>)
    requires
        !occurs_in(s, mark),
    ensures
        after_last_break(s, mark) == s,
{
    lemma_first_from(s, mark, 0);
}

// ---------------------------------------------------------------------------
// Numbers and letters
// ---------------------------------------------------------------------------
/// Each further digit counts its own worth, and what stood before it ten times.
pub proof fn law_digits_are_positional(s: Seq<char>, d: nat)
    requires
        d < 10,
    ensures
        digits_value(s.push("0123456789"@[d as int])) == 10 * digits_value(s) + d,
        digits_value(Seq::empty()) == 0,
{
    reveal_strlit("0123456789");
    let more = s.push("0123456789"@[d as int]);
    assert(more.drop_last() =~= s);
    assert("0123456789"@[d as int] as u32 == 48 + d);
}

/// A number in decimal digits reads back as itself where it is small enough,
/// also behind a plus sign; it has no digit too many in front.
pub proof fn law_decimal_reads_back(n: nat, max: nat)
    ensures
        n <= max ==> number_in(decimal(n), max) == Some(n) && number_in(seq!['+'] + decimal(n), max)
            == Some(n),
        n > max ==> number_in(decimal(n), max) is None,
        decimal(n)[0] == '0' ==> n == 0 && decimal(n).len() == 1,
    decreases n,
{
    lemma_decimal(n);
    let s = decimal(n);
    assert(is_digit(s[0]));
    let plus = seq!['+'] + s;
    assert(plus.drop_first() =~= s);
    if n >= 10 {
        law_decimal_reads_back(n / 10, max);
        lemma_decimal(n / 10);
        assert(s[0] == decimal(n / 10)[0]);
    }
}

/// Only digits, at least one, with at most one plus sign in front, are a
/// number, and only up to the limit.
pub proof fn law_numbers_are_digits(s: Seq<char>, max: nat)
    requires
        number_in(s, max) is Some,
    ensures
        number_in(s, max)->0 <= max,
        s.len() > 0,
        forall|i: int| 0 < i < s.len() ==> '0' <= #[trigger] s[i] <= '9',
        '0' <= s[0] <= '9' || s[0] == '+' && s.len() > 1,
{
    if s[0] == '+' {
        let d = s.drop_first();
        assert forall|i: int| 0 < i < s.len() implies '0' <= #[trigger] s[i] <= '9' by {
            assert(d[i - 1] == s[i]);
            assert(is_digit(d[i - 1]));
        }
    } else {
        assert(is_digit(s[0]));
        assert forall|i: int| 0 < i < s.len() implies '0' <= #[trigger] s[i] <= '9' by {
            assert(is_digit(s[i]));
        }
    }
}

/// Every run of digits is a number, whatever zeros stand before it and with or
/// without a plus sign, up to the greatest that is asked for.
pub proof fn law_runs_of_digits(s: Seq<char>, max: nat)
    requires
        s.len() > 0,
        forall|i: int| 0 <= i < s.len() ==> '0' <= #[trigger] s[i] <= '9',
    ensures
        digits_value(s) <= max ==> number_in(s, max) == Some(digits_value(s)) && number_in(
            seq!['+'] + s,
            max,
        ) == Some(digits_value(s)),
        digits_value(s) > max ==> number_in(s, max) is None && number_in(seq!['+'] + s, max)
            is None,
        digits_value(seq!['0'] + s) == digits_value(s),
{
    assert((seq!['+'] + s).drop_first() =~= s);
    assert((seq!['+'] + s)[0] == '+');
    assert(s[0] != '+');
    lemma_leading_zero(s);
}

proof fn lemma_leading_zero(s: Seq<char>)
    ensures
        digits_value(seq!['0'] + s) == digits_value(s),
    decreases s.len(),
{
    let all = seq!['0'] + s;
    if s.len() == 0 {
        assert(all =~= seq!['0']);
        assert(all.drop_last() =~= Seq::empty());
        assert(digits_value(Seq::empty()) == 0);
    } else {
        lemma_leading_zero(s.drop_last());
        assert(all.drop_last() =~= seq!['0'] + s.drop_last());
        assert(all.last() == s.last());
    }
}

/// A negative number has a minus sign before its digits, another one has none.
pub proof fn law_sign_shows(n: nat)
    ensures
        signed_decimal(n as int) == decimal(n),
        n > 0 ==> signed_decimal(-n) == seq!['-'] + decimal(n),
{
}

/// Lower case of ASCII text: the letters `A` to `Z` become `a` to `z`, each other
/// character stays, and none is added or left out.
pub proof fn law_lower_case(s: Seq<char>, i: int)
    requires
        is_ascii_chars(s),
        0 <= i < s.len(),
    ensures
        lowercase(s).len() == s.len(),
        65 <= s[i] as u32 <= 90 ==> lowercase(s)[i] as u32 == s[i] as u32 + 32,
        !(65 <= s[i] as u32 <= 90) ==> lowercase(s)[i] == s[i],
{
}

/// The letters `A` to `Z` are written small one by one, and nothing else
/// changes; a text that holds other characters than ASCII is left to Unicode.
pub proof fn law_small_letters(s: Seq<char>, i: int)
    requires
        0 <= i < s.len(),
    ensures
        ascii_lowercase(s).len() == s.len(),
        !('A' <= s[i] <= 'Z') ==> ascii_lowercase(s)[i] == s[i],
        'A' <= s[i] <= 'Z' ==> ascii_lowercase(s)[i] as u32 == s[i] as u32 + 32,
        !is_ascii_chars(s) ==> lowercase(s) == unicode_lowercase(s),
        is_ascii_chars(s) ==> lowercase(s) == ascii_lowercase(s),
{
}

/// The value of a name in a query is that of its first place; there is none
/// exactly if the name does not occur.
pub proof fn law_first_value_counts(query: Seq<(Seq<char>, Seq<char>)>, key: Seq<char>, i: int)
    requires
        0 <= i < query.len(),
        query[i].0 == key,
        forall|j: int| 0 <= j < i ==> (#[trigger] query[j]).0 != key,
    ensures
        first_value(query, key) == Some(query[i].1),
    decreases i,
{
    if i > 0 {
        let rest = query.drop_first();
        assert(query[0].0 != key);
        assert forall|j: int| 0 <= j < i - 1 implies (#[trigger] rest[j]).0 != key by {
            assert(rest[j] == query[j + 1]);
        }
        law_first_value_counts(rest, key, i - 1);
    }
}

/// A name that does not occur in a query has no value.
pub proof fn law_missing_name_has_no_value(query: Seq<(Seq<char>, Seq<char>)>, key: Seq<char>)
    requires
        forall|j: int| 0 <= j < query.len() ==> (#[trigger] query[j]).0 != key,
    ensures
        first_value(query, key) is None,
    decreases query.len(),
{
    if query.len() > 0 {
        let rest = query.drop_first();
        assert(query[0].0 != key);
        assert forall|j: int| 0 <= j < rest.len() implies (#[trigger] rest[j]).0 != key by {
            assert(rest[j] == query[j + 1]);
        }
        law_missing_name_has_no_value(rest, key);
    }
}

} // verus!
