//! Showing a downloaded file in the file manager.
//!
//! On Linux the file manager is asked over the session bus, in two ways; then
//! the desktop portal is asked for the folder; at last the folder is opened.
use vstd::prelude::*;
use vstd::utf8::encode_utf8;

use crate::text::{capital_hex, opt_view, replace, replace_char, split, views};

verus! {

// ---------------------------------------------------------------------------
// Links to files
// ---------------------------------------------------------------------------
/// A path from the root, written in the one way that every system reads alike:
/// one slash stands before its first step, and no backslash is in it, which is
/// another slash to some systems.
pub open spec fn rooted(path: Seq<char>) -> bool {
    &&& path.len() > 0
    &&& path[0] == '/'
    &&& path.len() > 1 ==> path[1] != '/'
    &&& !path.contains('\\')
}

/// A path that starts at no root on any system: no slash stands before it, and
/// no colon is in it, which could end the name of a drive.
pub open spec fn relative(path: Seq<char>) -> bool {
    &&& path.len() > 0 ==> path[0] != '/' && path[0] != '\\'
    &&& !path.contains(':')
}

/// The steps of a path from the root: what stands between the slashes, without
/// those that lead nowhere.
pub open spec fn path_steps(path: Seq<char>) -> Seq<Seq<char>> {
    split(path, '/').filter(|step: Seq<char>| step.len() > 0 && step != seq!['.'])
}

/// A byte that stands for itself in a step of a link to a file.
pub open spec fn step_byte(b: u8) -> bool {
    &&& '!' as u8 <= b <= '~' as u8
    &&& b != '"' as u8 && b != '#' as u8 && b != '%' as u8 && b != '/' as u8
    &&& b != '<' as u8 && b != '>' as u8 && b != '?' as u8 && b != '`' as u8
    &&& b != '{' as u8 && b != '}' as u8
}

/// The bytes of a step, as they stand in a link to a file.
pub open spec fn step_text(data: Seq<u8>) -> Seq<char>
    decreases data.len(),
{
    if data.len() == 0 {
        Seq::empty()
    } else {
        let b = data.last();
        step_text(data.drop_last()) + if step_byte(b) {
            seq![b as char]
        } else {
            seq!['%', capital_hex(b as int / 16), capital_hex(b as int % 16)]
        }
    }
}

/// The steps of a path, each behind a slash, as they stand in a link to a file.
pub open spec fn steps_text(steps: Seq<Seq<char>>) -> Seq<char>
    decreases steps.len(),
{
    if steps.len() == 0 {
        Seq::empty()
    } else {
        steps_text(steps.drop_last()) + seq!['/'] + step_text(encode_utf8(steps.last()))
    }
}

/// The link to the file at a path from the root.
pub open spec fn file_uri(path: Seq<char>) -> Seq<char> {
    if path_steps(path).len() == 0 {
        "file:///"@
    } else {
        "file://"@ + steps_text(path_steps(path))
    }
}

/// The link to the directory at a path from the root: a slash ends it.
pub open spec fn directory_uri(path: Seq<char>) -> Seq<char> {
    if path_steps(path).len() == 0 {
        "file:///"@
    } else {
        "file://"@ + steps_text(path_steps(path)) + seq!['/']
    }
}

/// `link` may be what is made of a path whose link is `uri` where the path
/// starts at the root: nothing where it starts at no root, else `uri` or, on a
/// system whose roots are other ones, nothing.
pub open spec fn may_link(link: Option<Seq<char>>, path: Seq<char>, uri: Seq<char>) -> bool {
    &&& relative(path) ==> link is None
    &&& link matches Some(l) ==> "file://"@.is_prefix_of(l) && (rooted(path) ==> l == uri)
}

/// `first` and `second` may be the links that one system makes of two paths:
/// it knows the one slash as a root or it does not.
pub open spec fn may_link_both(
    first: Option<Seq<char>>,
    first_path: Seq<char>,
    second: Option<Seq<char>>,
    second_path: Seq<char>,
) -> bool {
    &&& may_link(first, first_path, file_uri(first_path))
    &&& may_link(second, second_path, file_uri(second_path))
    &&& rooted(first_path) && rooted(second_path) ==> (first is Some <==> second is Some)
}

/// `url::Url::from_file_path`, on two paths: the link to a file, where its path
/// is absolute. A path that is [`rooted`] is so on every system but Windows,
/// and its link is [`file_uri`]; one that is [`relative`] is so on none. How any
/// other path is read rests on the system: of its link only the scheme is
/// stated.
#[verifier::external_body]
fn file_links(first: &str, second: &str) -> (r: (Option<String>, Option<String>))
    ensures
        may_link_both(opt_view(r.0), first@, opt_view(r.1), second@),
{
    (
        url::Url::from_file_path(first).ok().map(|u| u.to_string()),
        url::Url::from_file_path(second).ok().map(|u| u.to_string()),
    )
}

/// `url::Url::from_directory_path`: the link to a directory, where its path is
/// absolute. A path that is [`rooted`] is so on every system but Windows, and
/// its link is [`directory_uri`]; one that is [`relative`] is so on none. How
/// any other path is read rests on the system: of its link only the scheme and
/// the slash at the end are stated.
#[verifier::external_body]
fn directory_link(path: &str) -> (r: Option<String>)
    ensures
        may_link(opt_view(r), path@, directory_uri(path@)),
        r matches Some(link) ==> "/"@.is_suffix_of(link@),
{
    url::Url::from_directory_path(path).ok().map(|u| u.to_string())
}

/// The first of two links that could be made, or else the path behind
/// `file://`.
pub open spec fn picked(
    first: Option<Seq<char>>,
    second: Option<Seq<char>>,
    path: Seq<char>,
) -> Seq<char> {
    match (first, second) {
        (Some(link), _) => link,
        (None, Some(link)) => link,
        (None, None) => "file://"@ + path,
    }
}

/// The first link that could be made, or else the path behind `file://`.
pub fn link_or_path(first: Option<String>, second: Option<String>, path: &str) -> (r: String)
    ensures
        r@ == picked(opt_view(first), opt_view(second), path@),
{
    match first {
        Some(link) => link,
        None => match second {
            Some(link) => link,
            None => {
                let mut r = "file://".to_owned();
                r.append(path);
                r
            },
        },
    }
}

/// The link to a file: from its absolute path, or from the path that was
/// given, or else the absolute path behind `file://`. Whether a path from the
/// root has a link rests on the system; which one it has does not.
pub fn item_uri(abs_path: &str, given_path: &str) -> (r: String)
    ensures
        "file://"@.is_prefix_of(r@),
        exists|first: Option<Seq<char>>, second: Option<Seq<char>>|
            #[trigger] may_link_both(first, abs_path@, second, given_path@) && r@ == picked(
                first,
                second,
                abs_path@,
            ),
        rooted(abs_path@) && (rooted(given_path@) || relative(given_path@)) ==> r@ == file_uri(
            abs_path@,
        ) || r@ == "file://"@ + abs_path@,
        relative(abs_path@) && rooted(given_path@) ==> r@ == file_uri(given_path@) || r@
            == "file://"@ + abs_path@,
        relative(abs_path@) && relative(given_path@) ==> r@ == "file://"@ + abs_path@,
{
    let (first, second) = file_links(abs_path, given_path);
    let r = link_or_path(first, second, abs_path);
    assert(may_link_both(opt_view(first), abs_path@, opt_view(second), given_path@));
    assert(r@ == "file://"@ + abs_path@ ==> "file://"@.is_prefix_of(r@));
    r
}

/// The link to a directory, or else its path behind `file://`. Whether a path
/// from the root has a link rests on the system; which one it has does not.
pub fn dir_uri(dir_path: &str) -> (r: String)
    ensures
        "file://"@.is_prefix_of(r@),
        exists|link: Option<Seq<char>>|
            #[trigger] may_link(link, dir_path@, directory_uri(dir_path@)) && r@ == picked(
                link,
                None,
                dir_path@,
            ),
        rooted(dir_path@) ==> r@ == directory_uri(dir_path@) || r@ == "file://"@ + dir_path@,
        relative(dir_path@) ==> r@ == "file://"@ + dir_path@,
        "/"@.is_suffix_of(r@) || r@ == "file://"@ + dir_path@,
{
    let link = directory_link(dir_path);
    let r = link_or_path(link, None, dir_path);
    assert(may_link(opt_view(link), dir_path@, directory_uri(dir_path@)));
    assert(r@ == "file://"@ + dir_path@ ==> "file://"@.is_prefix_of(r@));
    r
}

// ---------------------------------------------------------------------------
// Arguments
// ---------------------------------------------------------------------------
/// A text inside double quotes: backslashes and quotes are escaped.
pub open spec fn escaped(s: Seq<char>) -> Seq<char> {
    replace(replace(s, '\\', "\\\\"@), '"', "\\\""@)
}

/// A list of one text, as the bus tool reads it.
pub open spec fn quoted_list(s: Seq<char>) -> Seq<char> {
    "[\""@ + escaped(s) + "\"]"@
}

/// A list of one text, as the bus tool reads it.
pub fn quoted_list_of(s: &str) -> (r: String)
    ensures
        r@ == quoted_list(s@),
{
    let mut r = "[\"".to_owned();
    r.append(replace_char(replace_char(s, '\\', "\\\\").as_str(), '"', "\\\"").as_str());
    r.append("\"]");
    r
}

/// What an escaped text means: a backslash makes the next character stand for
/// itself.
pub open spec fn unescaped(s: Seq<char>) -> Seq<char>
    decreases s.len(),
{
    if s.len() == 0 {
        Seq::empty()
    } else if s[0] == '\\' && s.len() > 1 {
        seq![s[1]] + unescaped(s.skip(2))
    } else {
        seq![s[0]] + unescaped(s.drop_first())
    }
}

/// No quote ends the text early: each one has a backslash of its own before it.
pub open spec fn stays_quoted(s: Seq<char>) -> bool
    decreases s.len(),
{
    if s.len() == 0 {
        true
    } else if s[0] == '\\' {
        s.len() > 1 && stays_quoted(s.skip(2))
    } else {
        s[0] != '"' && stays_quoted(s.drop_first())
    }
}

/// A character as it stands in an escaped text.
spec fn escaped_char(c: char) -> Seq<char> {
    if c == '\\' {
        seq!['\\', '\\']
    } else if c == '"' {
        seq!['\\', '"']
    } else {
        seq![c]
    }
}

/// Replacing works on each part of a text by itself.
pub proof fn lemma_replace_parts(a: Seq<char>, b: Seq<char>, from: char, to: Seq<char>)
    ensures
        replace(a + b, from, to) == replace(a, from, to) + replace(b, from, to),
    decreases b.len(),
{
    if b.len() == 0 {
        assert(a + b =~= a);
        assert(replace(b, from, to) =~= Seq::empty());
        assert(replace(a, from, to) + Seq::<char>::empty() =~= replace(a, from, to));
    } else {
        assert((a + b).drop_last() =~= a + b.drop_last());
        assert((a + b).last() == b.last());
        lemma_replace_parts(a, b.drop_last(), from, to);
        let x = replace(a, from, to);
        let y = replace(b.drop_last(), from, to);
        assert((x + y) + to =~= x + (y + to));
        assert((x + y).push(b.last()) =~= x + y.push(b.last()));
    }
}

/// Escaping the first character, then the rest.
proof fn lemma_escape_first(s: Seq<char>)
    requires
        s.len() > 0,
    ensures
        escaped(s) == escaped_char(s[0]) + escaped(s.drop_first()),
{
    let one = seq![s[0]];
    let rest = s.drop_first();
    reveal_strlit("\\\\");
    reveal_strlit("\\\"");
    reveal_with_fuel(replace, 3);
    assert(s =~= one + rest);
    lemma_replace_parts(one, rest, '\\', "\\\\"@);
    let first = replace(one, '\\', "\\\\"@);
    lemma_replace_parts(first, replace(rest, '\\', "\\\\"@), '"', "\\\""@);
    assert(one.drop_last() =~= Seq::empty());
    if s[0] == '\\' {
        assert(first =~= seq!['\\', '\\']);
        assert(first.drop_last() =~= seq!['\\']);
        assert(first.drop_last().drop_last() =~= Seq::empty());
        assert(replace(first, '"', "\\\""@) =~= first);
    } else {
        assert(first =~= one);
        assert(replace(first, '"', "\\\""@) =~= escaped_char(s[0]));
    }
}

/// Whatever a link holds, quoting it loses nothing and nothing in it ends the
/// quotes: what is read back is the link.
pub proof fn law_quoting_reads_back(s: Seq<char>)
    ensures
        unescaped(escaped(s)) == s,
        stays_quoted(escaped(s)),
    decreases s.len(),
{
    if s.len() == 0 {
        reveal_with_fuel(replace, 2);
        assert(escaped(s) =~= Seq::empty());
        assert(unescaped(escaped(s)) =~= s);
    } else {
        let rest = s.drop_first();
        law_quoting_reads_back(rest);
        lemma_escape_first(s);
        let whole = escaped(s);
        let first = escaped_char(s[0]);
        if first.len() == 2 {
            assert(whole.skip(2) =~= escaped(rest));
            assert(whole[0] == '\\' && whole[1] == s[0]);
        } else {
            assert(whole.drop_first() =~= escaped(rest));
            assert(whole[0] == s[0]);
        }
        assert(seq![s[0]] + rest =~= s);
    }
}

/// The argument with which the Windows file manager shows a file.
pub fn select_argument(path: &str) -> (r: String)
    ensures
        r@ == "/select,\""@ + path@ + "\""@,
{
    let mut r = "/select,\"".to_owned();
    r.append(path);
    r.append("\"");
    r
}

// ---------------------------------------------------------------------------
// The ways to show a file
// ---------------------------------------------------------------------------
/// A way to show a file, in the order in which they are tried.
#[derive(Debug, Clone, Copy, PartialEq, Eq, Structural)]
pub enum ShowStage {
    /// The file manager is asked with `gdbus`.
    Gdbus,
    /// The file manager is asked with `dbus-send`.
    DbusSend,
    /// The desktop portal is asked for the folder.
    Portal,
    /// The folder is opened.
    OpenFolder,
    /// Nothing is left to do.
    Done,
}

/// What follows when a way has worked or not.
pub fn next_stage(stage: ShowStage, worked: bool) -> (r: ShowStage)
    ensures
        r == (if worked {
            ShowStage::Done
        } else {
            match stage {
                ShowStage::Gdbus => ShowStage::DbusSend,
                ShowStage::DbusSend => ShowStage::Portal,
                ShowStage::Portal => ShowStage::OpenFolder,
                ShowStage::OpenFolder => ShowStage::Done,
                ShowStage::Done => ShowStage::Done,
            }
        }),
{
    if worked {
        return ShowStage::Done;
    }
    match stage {
        ShowStage::Gdbus => ShowStage::DbusSend,
        ShowStage::DbusSend => ShowStage::Portal,
        ShowStage::Portal => ShowStage::OpenFolder,
        ShowStage::OpenFolder => ShowStage::Done,
        ShowStage::Done => ShowStage::Done,
    }
}

/// A program with its arguments.
#[derive(Debug, Clone)]
pub struct Invocation {
    /// The program.
    pub program: String,
    /// Its arguments.
    pub args: Vec<String>,
}

/// The program of a stage and its arguments, where `item` is the link to the
/// file, `dir` that to its folder and `dir_path` the folder's path.
pub open spec fn stage_words(
    stage: ShowStage,
    item: Seq<char>,
    dir: Seq<char>,
    dir_path: Seq<char>,
) -> Option<(Seq<char>, Seq<Seq<char>>)> {
    match stage {
        ShowStage::Gdbus => Some(
            (
                "gdbus"@,
                seq![
                    "call"@,
                    "--session"@,
                    "--dest"@,
                    "org.freedesktop.FileManager1"@,
                    "--object-path"@,
                    "/org/freedesktop/FileManager1"@,
                    "--method"@,
                    "org.freedesktop.FileManager1.ShowItems"@,
                    quoted_list(item),
                    ""@,
                ],
            ),
        ),
        ShowStage::DbusSend => Some(
            (
                "dbus-send"@,
                seq![
                    "--session"@,
                    "--dest=org.freedesktop.FileManager1"@,
                    "--type=method_call"@,
                    "/org/freedesktop/FileManager1"@,
                    "org.freedesktop.FileManager1.ShowItems"@,
                    "array:string:"@ + item,
                    "string:"@,
                ],
            ),
        ),
        ShowStage::Portal => Some(
            (
                "gdbus"@,
                seq![
                    "call"@,
                    "--session"@,
                    "--dest"@,
                    "org.freedesktop.portal.Desktop"@,
                    "--object-path"@,
                    "/org/freedesktop/portal/desktop"@,
                    "--method"@,
                    "org.freedesktop.portal.OpenURI.OpenDirectory"@,
                    ""@,
                    dir,
                    "{}"@,
                ],
            ),
        ),
        ShowStage::OpenFolder => Some(("xdg-open"@, seq![dir_path])),
        ShowStage::Done => None,
    }
}

/// The program of a stage and its arguments.
pub fn invocation(stage: ShowStage, item: &str, dir: &str, dir_path: &str) -> (r: Option<Invocation>)
    ensures
        match r {
            Some(run) => stage_words(stage, item@, dir@, dir_path@) == Some(
                (run.program@, views(run.args@)),
            ),
            None => stage_words(stage, item@, dir@, dir_path@) is None,
        },
{
    let mut args: Vec<String> = Vec::new();
    let program = match stage {
        ShowStage::Gdbus => {
            args.push("call".to_owned());
            args.push("--session".to_owned());
            args.push("--dest".to_owned());
            args.push("org.freedesktop.FileManager1".to_owned());
            args.push("--object-path".to_owned());
            args.push("/org/freedesktop/FileManager1".to_owned());
            args.push("--method".to_owned());
            args.push("org.freedesktop.FileManager1.ShowItems".to_owned());
            args.push(quoted_list_of(item));
            args.push("".to_owned());
            "gdbus"
        },
        ShowStage::DbusSend => {
            args.push("--session".to_owned());
            args.push("--dest=org.freedesktop.FileManager1".to_owned());
            args.push("--type=method_call".to_owned());
            args.push("/org/freedesktop/FileManager1".to_owned());
            args.push("org.freedesktop.FileManager1.ShowItems".to_owned());
            let mut list = "array:string:".to_owned();
            list.append(item);
            args.push(list);
            args.push("string:".to_owned());
            "dbus-send"
        },
        ShowStage::Portal => {
            args.push("call".to_owned());
            args.push("--session".to_owned());
            args.push("--dest".to_owned());
            args.push("org.freedesktop.portal.Desktop".to_owned());
            args.push("--object-path".to_owned());
            args.push("/org/freedesktop/portal/desktop".to_owned());
            args.push("--method".to_owned());
            args.push("org.freedesktop.portal.OpenURI.OpenDirectory".to_owned());
            args.push("".to_owned());
            args.push(dir.to_owned());
            args.push("{}".to_owned());
            "gdbus"
        },
        ShowStage::OpenFolder => {
            args.push(dir_path.to_owned());
            "xdg-open"
        },
        ShowStage::Done => {
            return None;
        },
    };
    let ghost words = stage_words(stage, item@, dir@, dir_path@)->0;
    assert(views(args@) =~= words.1);
    Some(Invocation { program: program.to_owned(), args })
}

} // verus!
