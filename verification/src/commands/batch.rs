//! Files that list links, one to a line.
use vstd::prelude::*;

use crate::text::{split, split_on, starts_with, trim, trimmed, views};

verus! {

/// A text that a download can start from.
pub open spec fn is_link(s: Seq<char>) -> bool {
    ||| "http://"@.is_prefix_of(s)
    ||| "https://"@.is_prefix_of(s)
    ||| "magnet:"@.is_prefix_of(s)
    ||| "p2p:"@.is_prefix_of(s)
}

/// The link on a line: what stands before the first bar, where the line is no
/// comment.
pub open spec fn link_on(line: Seq<char>) -> Option<Seq<char>> {
    let text = trimmed(line);
    let candidate = trimmed(split(text, '|')[0]);
    if text.len() == 0 || text[0] == '#' || !is_link(candidate) {
        None
    } else {
        Some(candidate)
    }
}

/// The links that a file lists, in order.
pub open spec fn links_in(content: Seq<char>) -> Seq<Seq<char>> {
    split(content, '\n').filter_map(|line: Seq<char>| link_on(line))
}

/// Reads the link on a line.
fn read_line(line: &str) -> (r: Option<String>)
    ensures
        match r {
            Some(s) => link_on(line@) == Some(s@),
            None => link_on(line@) is None,
        },
{
    proof {
        reveal_strlit("#");
    }
    let text = trim(line);
    assert(text@.len() > 0 ==> text@.subrange(0, 1)[0] == text@[0]);
    if text.as_str().is_empty() || starts_with(text.as_str(), "#") {
        return None;
    }
    let pieces = split_on(text.as_str(), '|');
    assert(views(pieces@)[0] == pieces@[0]@);
    let candidate = trim(pieces[0].as_str());
    let s = candidate.as_str();
    if starts_with(s, "http://") || starts_with(s, "https://") || starts_with(s, "magnet:")
        || starts_with(s, "p2p:") {
        Some(candidate)
    } else {
        None
    }
}

/// The links that the content of a batch file lists, in order. Empty lines,
/// comments and lines without a link are passed over.
pub fn parse_batch_file(content: &str) -> (r: Vec<String>)
    ensures
        views(r@) == links_in(content@),
{
    let lines = split_on(content, '\n');
    let ghost all = views(lines@);
    let ghost f = |line: Seq<char>| link_on(line);
    let mut r: Vec<String> = Vec::new();
    let mut i: usize = 0;
    proof {
        reveal(Seq::filter_map);
        assert(all.take(0) =~= Seq::empty());
        assert(views(r@) =~= all.take(0).filter_map(f));
    }
    while i < lines.len()
        invariant
            i <= lines.len(),
            all == views(lines@),
            f == (|line: Seq<char>| link_on(line)),
            views(r@) == all.take(i as int).filter_map(f),
        decreases lines.len() - i,
    {
        let ghost before = views(r@);
        proof {
            all.lemma_filter_map_take_succ(f, i as int);
        }
        match read_line(lines[i].as_str()) {
            Some(link) => {
                r.push(link);
                assert(views(r@) =~= before.push(link@));
                assert(views(r@) =~= all.take(i + 1).filter_map(f));
            },
            None => {
                assert(views(r@) =~= all.take(i + 1).filter_map(f));
            },
        }
        i += 1;
    }
    assert(all.take(all.len() as int) =~= all);
    r
}

/// Nothing comes out of a batch file but links.
pub proof fn law_batch_yields_links(content: Seq<char>)
    ensures
        forall|i: int| 0 <= i < links_in(content).len() ==> is_link(#[trigger] links_in(content)[i]),
{
    let lines = split(content, '\n');
    let f = |line: Seq<char>| link_on(line);
    let links = links_in(content);
    assert forall|i: int| 0 <= i < links.len() implies is_link(#[trigger] links[i]) by {
        assert(links.contains(links[i]));
        lines.lemma_filter_map_contains(f, links[i]);
        let line = choose|line: Seq<char>| #[trigger] lines.contains(line) && f(line) == Some(links[i]);
        assert(link_on(line) == Some(links[i]));
    }
}

} // verus!
