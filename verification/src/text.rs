//! Text handling over the characters of a string.
//!
//! Every function here speaks of a string as the sequence of its characters
//! (its view). The specification functions of this module are the vocabulary
//! in which the contracts of the other modules are written.
use vstd::prelude::*;
use vstd::utf8::is_ascii_chars;

verus! {

// ---------------------------------------------------------------------------
// Outside functions
// ---------------------------------------------------------------------------
/// `String::push` adds one character at the end of the string.
pub assume_specification[ String::push ](s: &mut String, c: char)
    ensures
        final(s)@ == old(s)@.push(c),
;

/// What `str::to_lowercase` makes of a text: the mapping of the Unicode
/// database, which has no short statement.
pub uninterp spec fn unicode_lowercase(s: Seq<char>) -> Seq<char>;

/// `str::to_lowercase`: on ASCII text the letters `A` to `Z` become `a` to `z`
/// and nothing else changes; of other text it gives what
/// [`unicode_lowercase`] names.
#[verifier::external_body]
pub(crate) fn to_lowercase(s: &str) -> (r: String)
    ensures
        r@ == (if is_ascii_chars(s@) {
            ascii_lowercase(s@)
        } else {
            unicode_lowercase(s@)
        }),
{
    s.to_lowercase()
}

// ---------------------------------------------------------------------------
// Vocabulary
// ---------------------------------------------------------------------------
/// The characters of each string of a list.
pub open spec fn views(v: Seq<String>) -> Seq<Seq<char>> {
    v.map_values(|s: String| s@)
}

/// The characters of a string that may be absent.
pub open spec fn opt_view(o: Option<String>) -> Option<Seq<char>> {
    match o {
        Some(s) => Some(s@),
        None => None,
    }
}

/// `needle` stands in `hay` at position `i`.
pub open spec fn occurs_at(hay: Seq<char>, needle: Seq<char>, i: int) -> bool {
    &&& 0 <= i
    &&& i + needle.len() <= hay.len()
    &&& hay.subrange(i, i + needle.len()) == needle
}

/// `needle` stands somewhere in `hay`.
pub open spec fn occurs_in(hay: Seq<char>, needle: Seq<char>) -> bool {
    exists|i: int| #[trigger] occurs_at(hay, needle, i)
}

/// The first position from `i` on at which `needle` stands in `hay`.
pub open spec fn first_from(hay: Seq<char>, needle: Seq<char>, i: int) -> Option<int>
    decreases hay.len() + 1 - i,
{
    if i + needle.len() > hay.len() {
        None
    } else if occurs_at(hay, needle, i) {
        Some(i)
    } else {
        first_from(hay, needle, i + 1)
    }
}

/// The pieces of a text between the occurrences of `sep`: one more piece than
/// there are separators.
pub open spec fn split(s: Seq<char>, sep: char) -> Seq<Seq<char>>
    decreases s.len(),
{
    if s.len() == 0 {
        seq![Seq::<char>::empty()]
    } else {
        let before = split(s.drop_last(), sep);
        if s.last() == sep {
            before.push(Seq::empty())
        } else {
            before.drop_last().push(before.last().push(s.last()))
        }
    }
}

/// The pieces of a text that are not empty.
pub open spec fn nonempty(parts: Seq<Seq<char>>) -> Seq<Seq<char>> {
    parts.filter(|p: Seq<char>| p.len() > 0)
}

/// The last piece when a text is broken at `mark`, from left to right and
/// without overlap.
pub open spec fn after_last_break(s: Seq<char>, mark: Seq<char>) -> Seq<char>
    decreases s.len(),
{
    match first_from(s, mark, 0) {
        Some(i) => if 0 <= i && mark.len() > 0 && i + mark.len() <= s.len() {
            after_last_break(s.subrange(i + mark.len(), s.len() as int), mark)
        } else {
            s
        },
        None => s,
    }
}

/// The pieces, with `sep` between each two of them.
pub open spec fn join(parts: Seq<Seq<char>>, sep: Seq<char>) -> Seq<char>
    decreases parts.len(),
{
    if parts.len() == 0 {
        Seq::empty()
    } else if parts.len() == 1 {
        parts[0]
    } else {
        join(parts.drop_last(), sep) + sep + parts.last()
    }
}

/// The text with each `from` written as `to`.
pub open spec fn replace(s: Seq<char>, from: char, to: Seq<char>) -> Seq<char>
    decreases s.len(),
{
    if s.len() == 0 {
        Seq::empty()
    } else if s.last() == from {
        replace(s.drop_last(), from, to) + to
    } else {
        replace(s.drop_last(), from, to).push(s.last())
    }
}

/// A character with the Unicode property White_Space.
pub open spec fn white_space(c: char) -> bool {
    ||| '\u{9}' <= c <= '\u{d}'
    ||| c == ' '
    ||| c == '\u{85}'
    ||| c == '\u{a0}'
    ||| c == '\u{1680}'
    ||| '\u{2000}' <= c <= '\u{200a}'
    ||| c == '\u{2028}'
    ||| c == '\u{2029}'
    ||| c == '\u{202f}'
    ||| c == '\u{205f}'
    ||| c == '\u{3000}'
}

/// The text without the characters at its start that `cut` picks.
pub open spec fn drop_start(s: Seq<char>, cut: spec_fn(char) -> bool) -> Seq<char>
    decreases s.len(),
{
    if s.len() > 0 && cut(s.first()) {
        drop_start(s.drop_first(), cut)
    } else {
        s
    }
}

/// The text without the characters at its end that `cut` picks.
pub open spec fn drop_end(s: Seq<char>, cut: spec_fn(char) -> bool) -> Seq<char>
    decreases s.len(),
{
    if s.len() > 0 && cut(s.last()) {
        drop_end(s.drop_last(), cut)
    } else {
        s
    }
}

/// The text without the white space around it.
pub open spec fn trimmed(s: Seq<char>) -> Seq<char> {
    drop_end(drop_start(s, |c: char| white_space(c)), |c: char| white_space(c))
}

/// The text without the carriage returns and line feeds around it.
pub open spec fn without_line_ends(s: Seq<char>) -> Seq<char> {
    drop_end(drop_start(s, |c: char| line_end(c)), |c: char| line_end(c))
}

/// A carriage return or a line feed.
pub open spec fn line_end(c: char) -> bool {
    c == '\n' || c == '\r'
}

/// The text without the copies of `tail` at its end.
pub open spec fn without_tails(s: Seq<char>, tail: Seq<char>) -> Seq<char>
    decreases s.len(),
{
    if tail.len() > 0 && tail.is_suffix_of(s) {
        without_tails(s.take(s.len() - tail.len()), tail)
    } else {
        s
    }
}

/// What follows `prefix`, where the text starts with it.
pub open spec fn after_prefix(s: Seq<char>, prefix: Seq<char>) -> Option<Seq<char>> {
    if prefix.is_prefix_of(s) {
        Some(s.skip(prefix.len() as int))
    } else {
        None
    }
}

/// The letters `A` to `Z` written small.
pub open spec fn ascii_lower(c: char) -> char {
    if 'A' <= c <= 'Z' {
        (c as u32 + 32) as char
    } else {
        c
    }
}

/// The text with the letters `A` to `Z` written small.
pub open spec fn ascii_lowercase(s: Seq<char>) -> Seq<char> {
    s.map_values(|c: char| ascii_lower(c))
}

/// The text in lower case.
pub open spec fn lowercase(s: Seq<char>) -> Seq<char> {
    if is_ascii_chars(s) {
        ascii_lowercase(s)
    } else {
        unicode_lowercase(s)
    }
}

/// A digit `0` to `9`.
pub open spec fn is_digit(c: char) -> bool {
    '0' <= c <= '9'
}

/// A hexadecimal digit in either case.
pub open spec fn is_hex_digit(c: char) -> bool {
    is_digit(c) || 'a' <= c <= 'f' || 'A' <= c <= 'F'
}

/// Every character is a digit.
pub open spec fn all_digits(s: Seq<char>) -> bool {
    forall|i: int| 0 <= i < s.len() ==> is_digit(#[trigger] s[i])
}

/// The number that a run of digits writes.
pub open spec fn digits_value(s: Seq<char>) -> nat
    decreases s.len(),
{
    if s.len() == 0 {
        0
    } else {
        (digits_value(s.drop_last()) * 10 + (s.last() as u32 - '0' as u32)) as nat
    }
}

/// The number that a text writes: an optional `+`, then digits only, at least
/// one, with a value of at most `max`.
pub open spec fn number_in(s: Seq<char>, max: nat) -> Option<nat> {
    let digits = if s.len() > 0 && s[0] == '+' {
        s.drop_first()
    } else {
        s
    };
    if digits.len() > 0 && all_digits(digits) && digits_value(digits) <= max {
        Some(digits_value(digits))
    } else {
        None
    }
}

/// The capital hexadecimal digit that writes `n`.
pub open spec fn capital_hex(n: int) -> char {
    if n < 10 {
        ('0' as u32 + n) as char
    } else {
        ('A' as u32 + n - 10) as char
    }
}

/// The digit that writes `d`.
pub open spec fn digit_char(d: nat) -> char {
    ('0' as u32 + d) as char
}

/// A number in decimal digits, without leading zeros.
pub open spec fn decimal(n: nat) -> Seq<char>
    decreases n,
{
    if n < 10 {
        seq![digit_char(n)]
    } else {
        decimal(n / 10).push(digit_char(n % 10))
    }
}

/// A number in decimal digits, with a `-` in front where it is negative.
pub open spec fn signed_decimal(n: int) -> Seq<char> {
    if n < 0 {
        seq!['-'] + decimal((-n) as nat)
    } else {
        decimal(n as nat)
    }
}

// ---------------------------------------------------------------------------
// Lemmas
// ---------------------------------------------------------------------------
/// [`first_from`] gives the first occurrence, or none where there is none.
pub proof fn lemma_first_from(hay: Seq<char>, needle: Seq<char>, i: int)
    requires
        0 <= i,
    ensures
        first_from(hay, needle, i) matches Some(k) ==> i <= k && occurs_at(hay, needle, k) && (
        forall|j: int| i <= j < k ==> !#[trigger] occurs_at(hay, needle, j)),
        first_from(hay, needle, i) is None ==> forall|j: int|
            i <= j ==> !#[trigger] occurs_at(hay, needle, j),
    decreases hay.len() + 1 - i,
{
    if i + needle.len() <= hay.len() && !occurs_at(hay, needle, i) {
        lemma_first_from(hay, needle, i + 1);
    }
}

/// The decimal digits of a number are digits, and they write that number.
pub proof fn lemma_decimal(n: nat)
    ensures
        decimal(n).len() > 0,
        all_digits(decimal(n)),
        digits_value(decimal(n)) == n,
    decreases n,
{
    reveal_with_fuel(digits_value, 2);
    if n < 10 {
        assert(decimal(n).drop_last() == Seq::<char>::empty());
    } else {
        lemma_decimal(n / 10);
        assert(decimal(n).drop_last() == decimal(n / 10));
    }
}

/// The value of a run of digits does not shrink when digits are added.
pub proof fn lemma_digits_value_grows(s: Seq<char>, i: int)
    requires
        all_digits(s),
        0 <= i <= s.len(),
    ensures
        digits_value(s.take(i)) <= digits_value(s),
    decreases s.len() - i,
{
    if i < s.len() {
        lemma_digits_value_grows(s, i + 1);
        assert(s.take(i + 1).drop_last() == s.take(i));
        assert(is_digit(s[i]));
        assert(s.take(i + 1).last() == s[i]);
    } else {
        assert(s.take(i) == s);
    }
}

/// Text in small ASCII letters, digits and signs is its own lower case.
pub proof fn lemma_lowercase_of_lower(s: Seq<char>)
    requires
        is_ascii_chars(s),
        forall|i: int| 0 <= i < s.len() ==> !('A' <= #[trigger] s[i] <= 'Z'),
    ensures
        lowercase(s) == s,
{
    assert(ascii_lowercase(s) =~= s);
}

// ---------------------------------------------------------------------------
// Executable functions
// ---------------------------------------------------------------------------
/// Collects the characters of a string.
pub fn chars_of(s: &str) -> (r: Vec<char>)
    ensures
        r@ == s@,
{
    let mut r: Vec<char> = Vec::new();
    for c in it: s.chars()
        invariant
            it.seq() == s@,
            r@ == s@.take(it.index()),
    {
        r.push(c);
    }
    assert(s@.take(s@.len() as int) == s@);
    r
}

/// Builds a string out of the characters from `from` up to `to`.
pub fn text_between(chars: &[char], from: usize, to: usize) -> (r: String)
    requires
        from <= to <= chars.len(),
    ensures
        r@ == chars@.subrange(from as int, to as int),
{
    let mut r = String::new();
    let mut i: usize = from;
    while i < to
        invariant
            from <= i <= to <= chars.len(),
            r@ == chars@.subrange(from as int, i as int),
        decreases to - i,
    {
        r.push(chars[i]);
        i += 1;
    }
    r
}

/// Whether two strings hold the same characters.
pub fn same(a: &str, b: &str) -> (r: bool)
    ensures
        r == (a@ == b@),
{
    a.to_owned() == b.to_owned()
}

/// Whether `needle` stands in `hay` at position `at`.
fn matches_at(hay: &[char], needle: &[char], at: usize) -> (r: bool)
    requires
        at + needle.len() <= hay.len(),
    ensures
        r == occurs_at(hay@, needle@, at as int),
{
    let mut i: usize = 0;
    while i < needle.len()
        invariant
            i <= needle.len(),
            at + needle.len() <= hay.len(),
            forall|j: int| 0 <= j < i ==> hay@[at + j] == needle@[j],
        decreases needle.len() - i,
    {
        if hay[at + i] != needle[i] {
            assert(hay@.subrange(at as int, at + needle@.len())[i as int] == hay@[at + i]);
            return false;
        }
        i += 1;
    }
    assert(hay@.subrange(at as int, at + needle@.len()) =~= needle@);
    true
}

/// The first position from `from` on at which `needle` stands in `hay`.
fn find_from(hay: &[char], needle: &[char], from: usize) -> (r: Option<usize>)
    requires
        from <= hay.len(),
    ensures
        match r {
            Some(k) => first_from(hay@, needle@, from as int) == Some(k as int),
            None => first_from(hay@, needle@, from as int) is None,
        },
{
    let mut i: usize = from;
    while i <= hay.len() && hay.len() - i >= needle.len()
        invariant
            from <= i <= hay.len() + 1,
            first_from(hay@, needle@, from as int) == first_from(hay@, needle@, i as int),
        decreases hay.len() + 1 - i,
    {
        if matches_at(hay, needle, i) {
            return Some(i);
        }
        if i == hay.len() {
            assert(hay@.subrange(i as int, i as int) =~= needle@);
            return None;
        }
        i += 1;
    }
    None
}

/// Whether `s` starts with `prefix`.
pub fn starts_with(s: &str, prefix: &str) -> (r: bool)
    ensures
        r == prefix@.is_prefix_of(s@),
{
    let hay = chars_of(s);
    let needle = chars_of(prefix);
    needle.len() <= hay.len() && matches_at(&hay, &needle, 0)
}

/// Whether `s` ends with `suffix`.
pub fn ends_with(s: &str, suffix: &str) -> (r: bool)
    ensures
        r == suffix@.is_suffix_of(s@),
{
    let hay = chars_of(s);
    let needle = chars_of(suffix);
    needle.len() <= hay.len() && matches_at(&hay, &needle, hay.len() - needle.len())
}

/// Whether `needle` stands somewhere in `s`.
pub fn contains(s: &str, needle: &str) -> (r: bool)
    ensures
        r == occurs_in(s@, needle@),
{
    let hay = chars_of(s);
    let wanted = chars_of(needle);
    proof {
        lemma_first_from(hay@, wanted@, 0);
        assert forall|j: int| #[trigger] occurs_at(hay@, wanted@, j) implies 0 <= j by {}
    }
    find_from(&hay, &wanted, 0).is_some()
}

/// What follows `prefix`, where `s` starts with it.
pub fn strip_prefix(s: &str, prefix: &str) -> (r: Option<String>)
    ensures
        opt_view(r) == after_prefix(s@, prefix@),
{
    let hay = chars_of(s);
    let needle = chars_of(prefix);
    if needle.len() <= hay.len() && matches_at(&hay, &needle, 0) {
        Some(text_between(&hay, needle.len(), hay.len()))
    } else {
        None
    }
}

/// The pieces of `s` between the occurrences of `sep`.
pub fn split_on(s: &str, sep: char) -> (r: Vec<String>)
    ensures
        views(r@) == split(s@, sep),
        r.len() > 0,
{
    let chars = chars_of(s);
    let mut r: Vec<String> = Vec::new();
    let mut piece = String::new();
    let mut i: usize = 0;
    while i < chars.len()
        invariant
            chars@ == s@,
            i <= chars.len(),
            views(r@).push(piece@) == split(s@.take(i as int), sep),
        decreases chars.len() - i,
    {
        let c = chars[i];
        assert(s@.take(i + 1).drop_last() == s@.take(i as int));
        let ghost before = views(r@).push(piece@);
        assert(before.drop_last() == views(r@));
        if c == sep {
            r.push(piece);
            piece = String::new();
            assert(views(r@) =~= before);
        } else {
            piece.push(c);
        }
        i += 1;
    }
    assert(s@.take(s@.len() as int) == s@);
    let ghost done = views(r@).push(piece@);
    r.push(piece);
    assert(views(r@) =~= done);
    r
}

/// The pieces of `s` between the occurrences of `sep` that are not empty.
pub fn nonempty_parts(s: &str, sep: char) -> (r: Vec<String>)
    ensures
        views(r@) == nonempty(split(s@, sep)),
{
    let parts = split_on(s, sep);
    let mut r: Vec<String> = Vec::new();
    let mut i: usize = 0;
    let ghost keep = |p: Seq<char>| p.len() > 0;
    while i < parts.len()
        invariant
            i <= parts.len(),
            keep == (|p: Seq<char>| p.len() > 0),
            views(r@) == views(parts@).take(i as int).filter(keep),
        decreases parts.len() - i,
    {
        let ghost before = views(r@);
        proof {
            reveal(Seq::filter);
            assert(views(parts@).take(i + 1).drop_last() == views(parts@).take(i as int));
        }
        if !parts[i].as_str().is_empty() {
            r.push(parts[i].clone());
            assert(views(r@) =~= before.push(parts@[i as int]@));
        }
        i += 1;
    }
    assert(views(parts@).take(parts@.len() as int) == views(parts@));
    r
}

/// What stands after the last place at which `s` breaks at `mark`.
pub fn last_break(s: &str, mark: &str) -> (r: String)
    requires
        mark@.len() > 0,
    ensures
        r@ == after_last_break(s@, mark@),
{
    let hay = chars_of(s);
    let wanted = chars_of(mark);
    let mut start: usize = 0;
    assert(hay@.subrange(0, hay@.len() as int) == hay@);
    loop
        invariant
            hay@ == s@,
            wanted@ == mark@,
            mark@.len() > 0,
            start <= hay.len(),
            after_last_break(hay@.subrange(start as int, hay@.len() as int), mark@)
                == after_last_break(s@, mark@),
        ensures
            start <= hay.len(),
            hay@.subrange(start as int, hay@.len() as int) == after_last_break(s@, mark@),
        decreases hay.len() - start,
    {
        let ghost rest = hay@.subrange(start as int, hay@.len() as int);
        proof {
            lemma_first_from_shift(hay@, mark@, start as int, start as int);
            lemma_first_from(hay@, mark@, start as int);
        }
        match find_from(&hay, &wanted, start) {
            Some(i) => {
                let ghost k = i - start;
                assert(rest.subrange(k + mark@.len(), rest.len() as int) =~= hay@.subrange(
                    i + mark@.len(),
                    hay@.len() as int,
                ));
                start = i + wanted.len();
            },
            None => {
                break;
            },
        }
    }
    text_between(&hay, start, hay.len())
}

/// Searching in the rest of a text from `base` on is searching in the text
/// itself from there on.
proof fn lemma_first_from_shift(hay: Seq<char>, needle: Seq<char>, base: int, i: int)
    requires
        0 <= base <= i,
        base <= hay.len(),
    ensures
        first_from(hay, needle, i) == (match first_from(
            hay.subrange(base, hay.len() as int),
            needle,
            i - base,
        ) {
            Some(k) => Some(k + base),
            None => None::<int>,
        }),
    decreases hay.len() + 1 - i,
{
    let rest = hay.subrange(base, hay.len() as int);
    if i + needle.len() <= hay.len() {
        assert(hay.subrange(i, i + needle.len()) =~= rest.subrange(i - base, i - base + needle.len()));
        lemma_first_from_shift(hay, needle, base, i + 1);
    }
}

/// The pieces, with `sep` between each two of them.
pub fn join_with(parts: &Vec<String>, sep: &str) -> (r: String)
    ensures
        r@ == join(views(parts@), sep@),
{
    let mut r = String::new();
    let mut i: usize = 0;
    while i < parts.len()
        invariant
            i <= parts.len(),
            r@ == join(views(parts@).take(i as int), sep@),
        decreases parts.len() - i,
    {
        assert(views(parts@).take(i + 1).drop_last() == views(parts@).take(i as int));
        if i > 0 {
            r.append(sep);
        }
        r.append(parts[i].as_str());
        i += 1;
        assert(r@ =~= join(views(parts@).take(i as int), sep@));
    }
    assert(views(parts@).take(parts@.len() as int) == views(parts@));
    r
}

/// The text with each `from` written as `to`.
pub fn replace_char(s: &str, from: char, to: &str) -> (r: String)
    ensures
        r@ == replace(s@, from, to@),
{
    let chars = chars_of(s);
    let mut r = String::new();
    let mut i: usize = 0;
    while i < chars.len()
        invariant
            chars@ == s@,
            i <= chars.len(),
            r@ == replace(s@.take(i as int), from, to@),
        decreases chars.len() - i,
    {
        assert(s@.take(i + 1).drop_last() == s@.take(i as int));
        if chars[i] == from {
            r.append(to);
        } else {
            r.push(chars[i]);
        }
        i += 1;
    }
    assert(s@.take(s@.len() as int) == s@);
    r
}

/// Whether a character has the Unicode property White_Space.
pub fn is_white_space(c: char) -> (r: bool)
    ensures
        r == white_space(c),
{
    ('\u{9}' <= c && c <= '\u{d}') || c == ' ' || c == '\u{85}' || c == '\u{a0}' || c == '\u{1680}'
        || ('\u{2000}' <= c && c <= '\u{200a}') || c == '\u{2028}' || c == '\u{2029}' || c
        == '\u{202f}' || c == '\u{205f}' || c == '\u{3000}'
}

/// The text without the white space around it.
pub fn trim(s: &str) -> (r: String)
    ensures
        r@ == trimmed(s@),
{
    let chars = chars_of(s);
    let ghost cut = |c: char| white_space(c);
    let mut from: usize = 0;
    assert(s@.subrange(0, s@.len() as int) == s@);
    while from < chars.len() && is_white_space(chars[from])
        invariant
            chars@ == s@,
            from <= chars.len(),
            cut == (|c: char| white_space(c)),
            drop_start(s@.subrange(from as int, s@.len() as int), cut) == drop_start(s@, cut),
        decreases chars.len() - from,
    {
        assert(s@.subrange(from as int, s@.len() as int).drop_first() == s@.subrange(
            from + 1,
            s@.len() as int,
        ));
        from += 1;
    }
    let ghost left = s@.subrange(from as int, s@.len() as int);
    assert(drop_start(s@, cut) == left);
    let mut to: usize = chars.len();
    while to > from && is_white_space(chars[to - 1])
        invariant
            chars@ == s@,
            from <= to <= chars.len(),
            cut == (|c: char| white_space(c)),
            drop_end(s@.subrange(from as int, to as int), cut) == drop_end(left, cut),
        decreases to,
    {
        assert(s@.subrange(from as int, to as int).drop_last() == s@.subrange(
            from as int,
            to - 1,
        ));
        to -= 1;
    }
    text_between(&chars, from, to)
}

/// The text without the carriage returns and line feeds around it.
pub fn trim_line_ends(s: &str) -> (r: String)
    ensures
        r@ == without_line_ends(s@),
{
    let chars = chars_of(s);
    let ghost cut = |c: char| line_end(c);
    let mut from: usize = 0;
    assert(s@.subrange(0, s@.len() as int) == s@);
    while from < chars.len() && (chars[from] == '\n' || chars[from] == '\r')
        invariant
            chars@ == s@,
            from <= chars.len(),
            cut == (|c: char| line_end(c)),
            drop_start(s@.subrange(from as int, s@.len() as int), cut) == drop_start(s@, cut),
        decreases chars.len() - from,
    {
        assert(s@.subrange(from as int, s@.len() as int).drop_first() == s@.subrange(
            from + 1,
            s@.len() as int,
        ));
        from += 1;
    }
    let ghost left = s@.subrange(from as int, s@.len() as int);
    assert(drop_start(s@, cut) == left);
    let mut to: usize = chars.len();
    while to > from && (chars[to - 1] == '\n' || chars[to - 1] == '\r')
        invariant
            chars@ == s@,
            from <= to <= chars.len(),
            cut == (|c: char| line_end(c)),
            drop_end(s@.subrange(from as int, to as int), cut) == drop_end(left, cut),
        decreases to,
    {
        assert(s@.subrange(from as int, to as int).drop_last() == s@.subrange(
            from as int,
            to - 1,
        ));
        to -= 1;
    }
    text_between(&chars, from, to)
}

/// The text without the copies of `tail` at its end.
pub fn strip_tails(s: &str, tail: &str) -> (r: String)
    requires
        tail@.len() > 0,
    ensures
        r@ == without_tails(s@, tail@),
{
    let chars = chars_of(s);
    let mark = chars_of(tail);
    let mut to: usize = chars.len();
    assert(s@.take(s@.len() as int) == s@);
    while mark.len() <= to && matches_at(&chars, &mark, to - mark.len())
        invariant
            chars@ == s@,
            mark@ == tail@,
            mark.len() > 0,
            to <= chars.len(),
            without_tails(s@.take(to as int), tail@) == without_tails(s@, tail@),
        decreases to,
    {
        assert(s@.take(to as int).subrange(to - mark@.len(), to as int) =~= chars@.subrange(
            to - mark@.len(),
            to as int,
        ));
        assert(s@.take(to as int).take(to - mark@.len()) =~= s@.take(to - mark@.len()));
        to -= mark.len();
    }
    proof {
        if mark@.len() <= to {
            assert(s@.take(to as int).subrange(to - mark@.len(), to as int) =~= chars@.subrange(
                to - mark@.len(),
                to as int,
            ));
        }
    }
    text_between(&chars, 0, to)
}

/// The number of at most `max` that a text writes.
pub fn parse_number(s: &str, max: u64) -> (r: Option<u64>)
    ensures
        match r {
            Some(n) => number_in(s@, max as nat) == Some(n as nat),
            None => number_in(s@, max as nat) is None,
        },
{
    let chars = chars_of(s);
    let start: usize = if chars.len() > 0 && chars[0] == '+' {
        1
    } else {
        0
    };
    let ghost digits = s@.skip(start as int);
    assert(start == 0 ==> digits == s@);
    assert(start == 1 ==> digits == s@.drop_first());
    if start == chars.len() {
        return None;
    }
    let mut value: u64 = 0;
    let mut i: usize = start;
    while i < chars.len()
        invariant
            chars@ == s@,
            digits == s@.skip(start as int),
            start <= i <= chars.len(),
            number_in(s@, max as nat) == (if digits.len() > 0 && all_digits(digits) && digits_value(
                digits,
            ) <= max {
                Some(digits_value(digits))
            } else {
                None
            }),
            all_digits(digits.take(i - start)),
            value == digits_value(digits.take(i - start)),
            value <= max,
        decreases chars.len() - i,
    {
        let c = chars[i];
        assert(digits[i - start] == c);
        if !('0' <= c && c <= '9') {
            return None;
        }
        let d = c as u32 - '0' as u32;
        assert(digits.take(i + 1 - start).drop_last() == digits.take(i - start));
        assert(digits.take(i + 1 - start).last() == c);
        if value > max / 10 || (value as u128) * 10 + (d as u128) > max as u128 {
            proof {
                if all_digits(digits) {
                    lemma_digits_value_grows(digits, i + 1 - start);
                }
            }
            return None;
        }
        value = value * 10 + d as u64;
        i += 1;
    }
    assert(digits.take(digits.len() as int) == digits);
    Some(value)
}

/// A number in decimal digits.
pub fn decimal_text(n: u64) -> (r: String)
    ensures
        r@ == decimal(n as nat),
    decreases n,
{
    let mut r = if n < 10 {
        String::new()
    } else {
        decimal_text(n / 10)
    };
    r.push(digit(n % 10));
    assert(n < 10 ==> r@ =~= seq![digit_char(n as nat)]);
    r
}

/// The digit that writes `d`.
fn digit(d: u64) -> (r: char)
    requires
        d < 10,
    ensures
        r == digit_char(d as nat),
{
    match d {
        0 => '0',
        1 => '1',
        2 => '2',
        3 => '3',
        4 => '4',
        5 => '5',
        6 => '6',
        7 => '7',
        8 => '8',
        _ => '9',
    }
}

/// A number in decimal digits, with a `-` in front where it is negative.
pub fn signed_decimal_text(n: i64) -> (r: String)
    ensures
        r@ == signed_decimal(n as int),
{
    if n >= 0 {
        decimal_text(n as u64)
    } else {
        let magnitude: u64 = (0 - (n as i128)) as u64;
        let mut r = String::new();
        r.push('-');
        r.append(decimal_text(magnitude).as_str());
        assert(r@ =~= signed_decimal(n as int));
        r
    }
}

} // verus!
