//! What becomes of the names of files.
use vstd::prelude::*;
use vstd::utf8::encode_utf8;

use crate::filename::{
    allowed, control, device, fitting, forbidden, only_dots, safe_name, MAX_NAME_BYTES,
};
use crate::text::{ascii_lowercase, drop_end, split};

verus! {

/// A name is cleaned character by character: the nine signs that mean something
/// to a file system go, control characters go, and every other character stays.
pub proof fn law_characters_of_a_name(a: Seq<char>, b: Seq<char>, c: char)
    ensures
        allowed(a + b) == allowed(a) + allowed(b),
        allowed(Seq::empty()).len() == 0,
        ({
            let goes = c == '/' || c == '?' || c == '<' || c == '>' || c == '\\' || c == ':' || c
                == '*' || c == '|' || c == '"' || c <= '\u{1f}' || '\u{80}' <= c <= '\u{9f}';
            &&& goes ==> allowed(seq![c]).len() == 0
            &&& !goes ==> allowed(seq![c]) == seq![c]
        }),
    decreases b.len(),
{
    reveal(Seq::filter);
    let f = |c: char| !forbidden(c) && !control(c);
    let one = seq![c];
    assert(one.drop_last() =~= Seq::empty());
    assert(one.last() == c);
    assert(one.drop_last().filter(f) =~= Seq::empty());
    if f(c) {
        assert(one.filter(f) =~= one);
    }
    if b.len() == 0 {
        assert(a + b =~= a);
        assert(allowed(a + b) =~= allowed(a) + allowed(b));
    } else {
        law_characters_of_a_name(a, b.drop_last(), c);
        assert((a + b).drop_last() =~= a + b.drop_last());
        assert((a + b).last() == b.last());
        assert(allowed(a + b) =~= allowed(a) + allowed(b));
    }
}

/// A name is cut from behind until it has at most 255 bytes, and no further.
pub proof fn law_long_names_are_cut(name: Seq<char>)
    ensures
        MAX_NAME_BYTES == 255,
        fitting(name).is_prefix_of(name),
        encode_utf8(fitting(name)).len() <= 255 || fitting(name).len() == 0,
        encode_utf8(name).len() <= 255 ==> fitting(name) == name,
        fitting(name).len() < name.len() ==> encode_utf8(
            name.take(fitting(name).len() as int + 1),
        ).len() > 255,
    decreases name.len(),
{
    if name.len() > 0 && encode_utf8(name).len() > MAX_NAME_BYTES {
        let rest = name.drop_last();
        law_long_names_are_cut(rest);
        let cut = fitting(rest);
        assert(name.subrange(0, cut.len() as int) =~= rest.subrange(0, cut.len() as int));
        if cut.len() < rest.len() {
            assert(name.take(cut.len() as int + 1) =~= rest.take(cut.len() as int + 1));
        } else {
            assert(name.take(cut.len() as int + 1) =~= name);
        }
    } else {
        assert(name.subrange(0, name.len() as int) =~= name);
    }
}

/// A name of points alone is no name.
pub proof fn law_names_of_points(name: Seq<char>, windows: bool)
    requires
        allowed(name).len() > 0,
        forall|i: int| 0 <= i < allowed(name).len() ==> #[trigger] allowed(name)[i] == '.',
    ensures
        safe_name(name, windows).len() == 0,
{
    let none = Seq::<char>::empty();
    assert(only_dots(allowed(name)));
    assert(drop_end(none, |c: char| c == '.' || c == ' ') =~= none);
}

/// Any other name is what is allowed of it, cut where it is too long; on Windows
/// the names of devices are no names, and points and blanks at the end go.
pub proof fn law_other_names(name: Seq<char>, i: int)
    requires
        0 <= i < allowed(name).len(),
        allowed(name)[i] != '.',
    ensures
        safe_name(name, false) == fitting(allowed(name)),
        device(allowed(name)) ==> safe_name(name, true).len() == 0,
        !device(allowed(name)) ==> safe_name(name, true) == fitting(
            drop_end(allowed(name), |c: char| c == '.' || c == ' '),
        ),
{
    assert(!only_dots(allowed(name)));
}

/// The names of devices, in either case and before whatever extension.
pub proof fn law_names_of_devices(name: Seq<char>)
    ensures
        device(name) <==> {
            let stem = ascii_lowercase(split(name, '.')[0]);
            ||| stem == "con"@ || stem == "prn"@ || stem == "aux"@ || stem == "nul"@
            ||| stem.len() == 4 && (stem.take(3) == "com"@ || stem.take(3) == "lpt"@) && '0'
                <= stem[3] <= '9'
        },
{
}

/// Points and blanks go from the end of a name, those in its middle stay.
pub proof fn law_end_of_a_name(middle: Seq<char>, ends: Seq<char>)
    requires
        forall|i: int| 0 <= i < ends.len() ==> #[trigger] ends[i] == '.' || ends[i] == ' ',
        middle.len() > 0 ==> middle.last() != '.' && middle.last() != ' ',
    ensures
        drop_end(middle + ends, |c: char| c == '.' || c == ' ') == middle,
    decreases ends.len(),
{
    let all = middle + ends;
    if ends.len() == 0 {
        assert(all =~= middle);
    } else {
        let fewer = ends.drop_last();
        assert forall|i: int| 0 <= i < fewer.len() implies #[trigger] fewer[i] == '.' || fewer[i]
            == ' ' by {
            assert(fewer[i] == ends[i]);
        }
        law_end_of_a_name(middle, fewer);
        assert(all.last() == ends[ends.len() - 1]);
        assert(all.drop_last() =~= middle + fewer);
    }
}

} // verus!
