//! What the drive's interface answers.
use vstd::prelude::*;

use crate::json::{segments, Json};
use crate::text::{signed_decimal, signed_decimal_text};

use super::entry::{entry_views, listed_entry, EntryView, QuarkEntry};

verus! {

/// The code of an answer; one without a code counts as -1.
pub open spec fn code(answer: Json) -> int {
    answer.signed_of("code"@).unwrap_or(-1)
}

/// The code of an answer; one without a code counts as -1.
fn code_of(answer: &Json) -> (r: i64)
    ensures
        r == code(*answer),
{
    match answer.get("code") {
        Some(c) => match c.as_i64() {
            Some(n) => n,
            None => -1,
        },
        None => -1,
    }
}

/// A refusal that names the code of the answer.
pub open spec fn refusal(what: Seq<char>, answer: Json) -> Seq<char> {
    what + signed_decimal(code(answer)) + ")"@
}

/// A refusal that names the code of the answer.
fn refuse(what: &str, answer: &Json) -> (r: String)
    ensures
        r@ == refusal(what@, *answer),
{
    let mut e = what.to_owned();
    e.append(signed_decimal_text(code_of(answer)).as_str());
    e.append(")");
    e
}

// ---------------------------------------------------------------------------
// The token of a share
// ---------------------------------------------------------------------------
/// The token and the title of a share, out of the answer that brings them.
pub open spec fn share_token(answer: Json) -> Result<(Seq<char>, Seq<char>), Seq<char>> {
    if code(answer) != 0 {
        Err(refusal("Quark token failed (code "@, answer))
    } else {
        match answer.chars_at(seq!["data"@, "stoken"@]) {
            None => Err("no stoken in response"@),
            Some(stoken) => Ok(
                (stoken, answer.chars_at(seq!["data"@, "title"@]).unwrap_or("Quark Share"@)),
            ),
        }
    }
}

/// Reads the token and the title of a share.
pub fn read_share_token(answer: &Json) -> (r: Result<(String, String), String>)
    ensures
        match r {
            Ok(pair) => share_token(*answer) == Ok::<_, Seq<char>>((pair.0@, pair.1@)),
            Err(e) => share_token(*answer) == Err::<(Seq<char>, Seq<char>), _>(e@),
        },
{
    if code_of(answer) != 0 {
        return Err(refuse("Quark token failed (code ", answer));
    }
    let token_path = ["data", "stoken"];
    let title_path = ["data", "title"];
    assert(segments(token_path@) =~= seq!["data"@, "stoken"@]);
    assert(segments(title_path@) =~= seq!["data"@, "title"@]);
    let stoken = match answer.pointer(&token_path) {
        Some(v) => v.as_str(),
        None => None,
    };
    let title = match answer.pointer(&title_path) {
        Some(v) => v.as_str(),
        None => None,
    };
    match stoken {
        None => Err("no stoken in response".to_owned()),
        Some(stoken) => match title {
            Some(title) => Ok((stoken.to_owned(), title.to_owned())),
            None => Ok((stoken.to_owned(), "Quark Share".to_owned())),
        },
    }
}

// ---------------------------------------------------------------------------
// The download link of a file
// ---------------------------------------------------------------------------
/// The download link of a file, out of the answer that brings it.
pub open spec fn download_link(answer: Json) -> Result<Seq<char>, Seq<char>> {
    if code(answer) == 31001 {
        Err("Not logged in to Quark (cookie expired)"@)
    } else if code(answer) == 23018 {
        Err("Quark guest size limit — login required"@)
    } else if code(answer) != 0 {
        Err(refusal("Quark download link failed (code "@, answer))
    } else {
        match answer.chars_at(seq!["data"@, "0"@, "download_url"@]) {
            Some(url) => Ok(url),
            None => Err("no download_url in response"@),
        }
    }
}

/// Reads the download link of a file.
pub fn read_download_link(answer: &Json) -> (r: Result<String, String>)
    ensures
        match r {
            Ok(url) => download_link(*answer) == Ok::<_, Seq<char>>(url@),
            Err(e) => download_link(*answer) == Err::<Seq<char>, _>(e@),
        },
{
    match code_of(answer) {
        0 => {
            let path = ["data", "0", "download_url"];
            assert(segments(path@) =~= seq!["data"@, "0"@, "download_url"@]);
            let url = match answer.pointer(&path) {
                Some(v) => v.as_str(),
                None => None,
            };
            match url {
                Some(url) => Ok(url.to_owned()),
                None => Err("no download_url in response".to_owned()),
            }
        },
        31001 => Err("Not logged in to Quark (cookie expired)".to_owned()),
        23018 => Err("Quark guest size limit — login required".to_owned()),
        _ => Err(refuse("Quark download link failed (code ", answer)),
    }
}

// ---------------------------------------------------------------------------
// The pages of a folder
// ---------------------------------------------------------------------------
/// The entries that one page lists.
pub open spec fn listed(answer: Json) -> Seq<EntryView> {
    match answer.items_at(seq!["data"@, "list"@]) {
        Some(items) => items.map_values(|v: Json| listed_entry(v)),
        None => Seq::empty(),
    }
}

/// How many entries the folder has in all, as the page says; one that does not
/// say it is the last.
pub open spec fn said_total(answer: Json, so_far: nat) -> nat {
    match answer.whole_at(seq!["metadata"@, "_total"@]) {
        Some(n) => n as nat,
        None => so_far,
    }
}

/// Whether another page follows: the page listed something, and not every
/// entry is there yet.
pub open spec fn more_pages(answer: Json, before: Seq<EntryView>) -> bool {
    let after = before + listed(answer);
    listed(answer).len() > 0 && after.len() < said_total(answer, after.len())
}

/// The listing of one folder, page by page.
#[derive(Debug)]
pub struct DirPages {
    /// The entries so far.
    pub entries: Vec<QuarkEntry>,
    /// The page to ask for, from 1 on.
    pub page: usize,
}

impl DirPages {
    /// The entries so far, as characters and numbers.
    pub open spec fn so_far(self) -> Seq<EntryView> {
        entry_views(self.entries@)
    }

    /// Nothing yet; the first page is asked for.
    pub fn start() -> (r: DirPages)
        ensures
            r.so_far() == Seq::<EntryView>::empty(),
            r.page == 1,
    {
        let r = DirPages { entries: Vec::new(), page: 1 };
        assert(r.so_far() =~= Seq::empty());
        r
    }

    /// Takes the answer for the page that was asked for, and says whether
    /// another page is to be asked for.
    pub fn on_page(&mut self, answer: &Json) -> (r: Result<bool, String>)
        requires
            old(self).page < usize::MAX,
        ensures
            match r {
                Ok(more) => {
                    &&& code(*answer) == 0
                    &&& final(self).so_far() == old(self).so_far() + listed(*answer)
                    &&& more == more_pages(*answer, old(self).so_far())
                    &&& final(self).page == old(self).page + (if more {
                        1int
                    } else {
                        0int
                    })
                },
                Err(e) => {
                    &&& code(*answer) != 0
                    &&& e@ == refusal("Quark list failed (code "@, *answer)
                    &&& *final(self) == *old(self)
                },
            },
    {
        if code_of(answer) != 0 {
            return Err(refuse("Quark list failed (code ", answer));
        }
        let list_path = ["data", "list"];
        let total_path = ["metadata", "_total"];
        assert(segments(list_path@) =~= seq!["data"@, "list"@]);
        assert(segments(total_path@) =~= seq!["metadata"@, "_total"@]);
        let list = match answer.pointer(&list_path) {
            Some(v) => v.as_array(),
            None => None,
        };
        let ghost before = self.so_far();
        let items = match list {
            Some(items) => items,
            None => {
                assert(before + listed(*answer) =~= before);
                return Ok(false);
            },
        };
        if items.len() == 0 {
            assert(before + listed(*answer) =~= before);
            return Ok(false);
        }
        let ghost wanted = listed(*answer);
        assert(wanted.take(0) =~= Seq::empty());
        assert(before + wanted.take(0) =~= before);
        let mut i: usize = 0;
        while i < items.len()
            invariant
                i <= items.len(),
                wanted == items@.map_values(|v: Json| listed_entry(v)),
                self.so_far() == before + wanted.take(i as int),
                self.page == old(self).page,
            decreases items.len() - i,
        {
            let ghost entries = self.entries@;
            self.entries.push(QuarkEntry::from_json(&items[i]));
            assert(wanted.take(i + 1) =~= wanted.take(i as int).push(wanted[i as int]));
            assert(self.so_far() =~= entry_views(entries).push(wanted[i as int]));
            assert(self.so_far() =~= before + wanted.take(i + 1));
            i += 1;
        }
        assert(wanted.take(wanted.len() as int) =~= wanted);
        let so_far: u64 = self.entries.len() as u64;
        let total: u64 = match answer.pointer(&total_path) {
            Some(v) => match v.as_u64() {
                Some(n) => n,
                None => so_far,
            },
            None => so_far,
        };
        if so_far >= total {
            return Ok(false);
        }
        self.page += 1;
        Ok(true)
    }
}

/// The entries on all the pages of a folder, one after the other.
pub open spec fn on_all_pages(answers: Seq<Json>) -> Seq<EntryView>
    decreases answers.len(),
{
    if answers.len() == 0 {
        Seq::empty()
    } else {
        listed(answers[0]) + on_all_pages(answers.drop_first())
    }
}

/// What is collected when the pages are asked for in turn, as long as another
/// one is to follow.
pub open spec fn read_pages(answers: Seq<Json>, before: Seq<EntryView>) -> Seq<EntryView>
    decreases answers.len(),
{
    if answers.len() == 0 {
        before
    } else if more_pages(answers[0], before) {
        read_pages(answers.drop_first(), before + listed(answers[0]))
    } else {
        before + listed(answers[0])
    }
}

/// Where no page of a folder is empty and each says how many entries the folder
/// has, the listing reads every page: it collects every entry, in order.
pub proof fn law_every_page_is_read(answers: Seq<Json>, before: Seq<EntryView>)
    requires
        answers.len() > 0,
        forall|i: int| 0 <= i < answers.len() ==> listed(#[trigger] answers[i]).len() > 0,
        forall|i: int|
            0 <= i < answers.len() ==> said_total(#[trigger] answers[i], 0) == before.len()
                + on_all_pages(answers).len(),
    ensures
        read_pages(answers, before) == before + on_all_pages(answers),
    decreases answers.len(),
{
    let rest = answers.drop_first();
    let after = before + listed(answers[0]);
    assert(before + on_all_pages(answers) =~= after + on_all_pages(rest));
    if rest.len() > 0 {
        assert(on_all_pages(rest).len() >= listed(rest[0]).len());
        assert(rest[0] == answers[1]);
        assert forall|i: int| 0 <= i < rest.len() implies listed(#[trigger] rest[i]).len() > 0
            && said_total(rest[i], 0) == after.len() + on_all_pages(rest).len() by {
            assert(rest[i] == answers[i + 1]);
        }
        law_every_page_is_read(rest, after);
    } else {
        assert(on_all_pages(answers) =~= listed(answers[0]));
    }
}

} // verus!
