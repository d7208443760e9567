//! Names that a file system takes.
use vstd::prelude::*;
use vstd::utf8::encode_utf8;

use crate::text::{ascii_lowercase, drop_end, is_digit, split};

verus! {

/// How many bytes a file name may have.
pub const MAX_NAME_BYTES: usize = 255;

/// A character that file systems refuse in a name.
pub open spec fn forbidden(c: char) -> bool {
    c == '/' || c == '?' || c == '<' || c == '>' || c == '\\' || c == ':' || c == '*' || c == '|'
        || c == '"'
}

/// A control character.
pub open spec fn control(c: char) -> bool {
    c <= '\u{1f}' || '\u{80}' <= c <= '\u{9f}'
}

/// The characters of a name that may stay.
pub open spec fn allowed(name: Seq<char>) -> Seq<char> {
    name.filter(|c: char| !forbidden(c) && !control(c))
}

/// The name is made of dots alone.
pub open spec fn only_dots(name: Seq<char>) -> bool {
    name.len() > 0 && forall|i: int| 0 <= i < name.len() ==> #[trigger] name[i] == '.'
}

/// The name stands for a device on Windows, with or without an extension.
pub open spec fn device(name: Seq<char>) -> bool {
    let stem = ascii_lowercase(split(name, '.')[0]);
    ||| stem == "con"@
    ||| stem == "prn"@
    ||| stem == "aux"@
    ||| stem == "nul"@
    ||| stem.len() == 4 && (stem.take(3) == "com"@ || stem.take(3) == "lpt"@) && is_digit(stem[3])
}

/// The longest start of a name that has at most [`MAX_NAME_BYTES`] bytes.
pub open spec fn fitting(name: Seq<char>) -> Seq<char>
    decreases name.len(),
{
    if name.len() == 0 || encode_utf8(name).len() <= MAX_NAME_BYTES {
        name
    } else {
        fitting(name.drop_last())
    }
}

/// A name made safe: without the characters that may not stay, not of dots
/// alone, for Windows also no device and without dots and blanks at the end,
/// and short enough.
pub open spec fn safe_name(name: Seq<char>, windows: bool) -> Seq<char> {
    let kept = allowed(name);
    let plain = if only_dots(kept) {
        Seq::empty()
    } else {
        kept
    };
    let usable = if !windows {
        plain
    } else if device(plain) {
        Seq::empty()
    } else {
        drop_end(plain, |c: char| c == '.' || c == ' ')
    };
    fitting(usable)
}

/// `sanitize_filename::sanitize_with_options`, with the crate's own defaults
/// but for the choice of the system: it gives the name made safe, as
/// [`safe_name`] says.
#[verifier::external_body]
pub(crate) fn sanitize(name: &str, windows: bool) -> (r: String)
    ensures
        r@ == safe_name(name@, windows),
{
    sanitize_filename::sanitize_with_options(
        name,
        sanitize_filename::Options { windows, ..Default::default() },
    )
}

/// A name that is one step of a path: it holds no separator, no forbidden and
/// no control character, is neither the directory itself nor the one above,
/// and is short enough.
pub open spec fn one_step(name: Seq<char>) -> bool {
    &&& forall|i: int|
        0 <= i < name.len() ==> !forbidden(#[trigger] name[i]) && !control(name[i])
    &&& name != "."@
    &&& name != ".."@
    &&& encode_utf8(name).len() <= MAX_NAME_BYTES
}

/// What [`fitting`] keeps is a start of the name that fits. It cuts nothing
/// off a name of one or two characters, nor leaves that little of a longer one.
proof fn lemma_fitting(name: Seq<char>)
    ensures
        fitting(name).is_prefix_of(name),
        encode_utf8(fitting(name)).len() <= MAX_NAME_BYTES,
        fitting(name) != name ==> encode_utf8(fitting(name)).len() + 4 > MAX_NAME_BYTES,
    decreases name.len(),
{
    reveal_with_fuel(encode_utf8, 2);
    if name.len() > 0 && encode_utf8(name).len() > MAX_NAME_BYTES {
        lemma_fitting(name.drop_last());
        lemma_encoding_grows(name);
    }
}

/// One more character adds one to four bytes.
proof fn lemma_encoding_grows(name: Seq<char>)
    requires
        name.len() > 0,
    ensures
        encode_utf8(name.drop_last()).len() < encode_utf8(name).len(),
        encode_utf8(name).len() <= encode_utf8(name.drop_last()).len() + 4,
    decreases name.len(),
{
    reveal_with_fuel(encode_utf8, 2);
    if name.len() > 1 {
        lemma_encoding_grows(name.drop_first());
        assert(name.drop_first().drop_last() =~= name.drop_last().drop_first());
        assert(name.drop_last()[0] == name[0]);
    } else {
        assert(name.drop_last() =~= Seq::empty());
        assert(name.drop_first() =~= Seq::empty());
    }
}

/// A short text has few bytes.
proof fn lemma_encoding_len(name: Seq<char>)
    ensures
        encode_utf8(name).len() <= 4 * name.len(),
    decreases name.len(),
{
    reveal_with_fuel(encode_utf8, 2);
    if name.len() > 0 {
        lemma_encoding_len(name.drop_last());
        lemma_encoding_grows(name);
    }
}

/// What [`drop_end`] leaves is a start of the text whose last character stays.
proof fn lemma_drop_end(s: Seq<char>, cut: spec_fn(char) -> bool)
    ensures
        drop_end(s, cut).is_prefix_of(s),
        drop_end(s, cut).len() > 0 ==> !cut(drop_end(s, cut).last()),
    decreases s.len(),
{
    if s.len() > 0 && cut(s.last()) {
        lemma_drop_end(s.drop_last(), cut);
    }
}

/// Whatever a name holds, the safe name is one step of a path: put below a
/// directory it leads neither out of it nor past it.
pub proof fn law_safe_name_is_one_step(name: Seq<char>, windows: bool)
    ensures
        one_step(safe_name(name, windows)),
{
    let kept = allowed(name);
    let stays = |c: char| !forbidden(c) && !control(c);
    let plain = if only_dots(kept) {
        Seq::empty()
    } else {
        kept
    };
    let cut = |c: char| c == '.' || c == ' ';
    let usable = if !windows {
        plain
    } else if device(plain) {
        Seq::empty()
    } else {
        drop_end(plain, cut)
    };
    lemma_drop_end(plain, cut);
    lemma_fitting(usable);
    let safe = fitting(usable);
    assert forall|i: int| 0 <= i < safe.len() implies !forbidden(#[trigger] safe[i]) && !control(
        safe[i],
    ) by {
        assert(safe[i] == usable[i]);
        assert(usable[i] == plain[i]);
        name.lemma_filter_pred(stays, i);
    }
    reveal_strlit(".");
    reveal_strlit("..");
    lemma_encoding_len(safe);
    if safe.len() <= 2 {
        assert(safe == usable);
        if safe == "."@ || safe == ".."@ {
            assert(safe.last() == '.');
            assert(!windows);
            assert(only_dots(kept));
        }
    }
}

} // verus!
