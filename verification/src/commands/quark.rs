//! Listing a share of the Quark drive and queueing its files.
use vstd::prelude::*;

use crate::link::{pair_views, UrlView};
use crate::platforms::quark::request::{QUARK_UA, REFERER};
use crate::platforms::quark::{
    at_key, file_views, item_link, item_url, known_size, law_item_link_resolves, resolved, FileView,
    QuarkDownloader, QuarkFile,
};
use crate::platforms::{site_of, PlatformView};

use super::admission::{plain_request, too_long, too_long_text, EnqueueRequest, EnqueueView, PathExcess};
use super::ids::{id_after, ids_at, next_download_id, DownloadIds};

verus! {

// ---------------------------------------------------------------------------
// Identifiers of waiting files
// ---------------------------------------------------------------------------
/// A hexadecimal digit in lower case.
pub open spec fn small_hex(c: char) -> bool {
    '0' <= c <= '9' || 'a' <= c <= 'f'
}

/// The written form of a random identifier: 32 hexadecimal digits in five
/// groups, with the version 4 and the variant in their places.
pub open spec fn uuid_text(s: Seq<char>) -> bool {
    &&& s.len() == 36
    &&& forall|i: int|
        0 <= i < 36 ==> if i == 8 || i == 13 || i == 18 || i == 23 {
            #[trigger] s[i] == '-'
        } else {
            small_hex(s[i])
        }
    &&& s[14] == '4'
    &&& s[19] == '8' || s[19] == '9' || s[19] == 'a' || s[19] == 'b'
}

/// `uuid::Uuid::new_v4`, written out by its `Display`. Which identifier it is
/// rests on chance; its form does not. That no two calls give the same one is
/// not stated.
#[verifier::external_body]
fn new_uuid() -> (r: String)
    ensures
        uuid_text(r@),
{
    uuid::Uuid::new_v4().to_string()
}

// ---------------------------------------------------------------------------
// Messages
// ---------------------------------------------------------------------------
/// What is said where no cookie can be had.
pub fn cookie_failure(reason: &str) -> (r: String)
    ensures
        r@ == "QuarkCookie|"@ + reason@,
{
    let mut r = "QuarkCookie|".to_owned();
    r.append(reason);
    r
}

/// What is said where a share cannot be listed.
pub fn list_failure(reason: &str) -> (r: String)
    ensures
        r@ == "QuarkList|"@ + reason@,
{
    let mut r = "QuarkList|".to_owned();
    r.append(reason);
    r
}

/// Why files are not queued, where they are not: there are none, their path is
/// too long, no cookie can be had, or nothing can download them. The first
/// reason counts.
pub open spec fn batch_refusal(
    files: nat,
    excess: Option<PathExcess>,
    cookie_fault: Option<Seq<char>>,
    known: bool,
) -> Option<Seq<char>> {
    if files == 0 {
        Some("No files to download"@)
    } else {
        match excess {
            Some(e) => Some(too_long(e)),
            None => match cookie_fault {
                Some(reason) => Some("QuarkCookie|"@ + reason),
                None => if known {
                    None
                } else {
                    Some("Quark downloader not registered"@)
                },
            },
        }
    }
}

/// Whether files may be queued.
pub fn admit_files(
    files: &Vec<QuarkFile>,
    excess: &Option<PathExcess>,
    cookie_fault: Option<&str>,
    known: bool,
) -> (r: Result<(), String>)
    ensures
        ({
            let fault = match cookie_fault {
                Some(reason) => Some(reason@),
                None => None,
            };
            match r {
                Ok(()) => batch_refusal(files@.len(), *excess, fault, known) is None,
                Err(e) => batch_refusal(files@.len(), *excess, fault, known) == Some(e@),
            }
        }),
{
    if files.len() == 0 {
        return Err("No files to download".to_owned());
    }
    if let Some(e) = excess {
        return Err(too_long_text(e));
    }
    if let Some(reason) = cookie_fault {
        return Err(cookie_failure(reason));
    }
    if !known {
        return Err("Quark downloader not registered".to_owned());
    }
    Ok(())
}

// ---------------------------------------------------------------------------
// Queueing
// ---------------------------------------------------------------------------
/// What is put into the queue for a file under the identifier `uuid`: its own
/// link leads back to it, and the cookie goes with it.
pub open spec fn file_request(
    id: u64,
    uuid: Seq<char>,
    file: FileView,
    output_dir: Seq<char>,
    cookie: Seq<char>,
) -> EnqueueView {
    EnqueueView {
        title: file.name,
        referer: Some(REFERER@),
        extra_headers: Some(seq![("Cookie"@, cookie)]),
        page_url: Some(item_link(uuid)),
        user_agent: Some(QUARK_UA@),
        total_bytes: known_size(file.size),
        ..plain_request(id, item_link(uuid), "quark"@, output_dir)
    }
}

/// What is put into the queue for a file under the identifier `uuid`.
pub fn request_for_file(
    id: u64,
    uuid: &str,
    file: &QuarkFile,
    output_dir: &str,
    cookie: &str,
) -> (r: EnqueueRequest)
    ensures
        r@ == file_request(id, uuid@, file@, output_dir@, cookie@),
{
    let mut headers: Vec<(String, String)> = Vec::new();
    headers.push(("Cookie".to_owned(), cookie.to_owned()));
    assert(pair_views(headers@) =~= seq![("Cookie"@, cookie@)]);
    EnqueueRequest {
        id,
        url: item_url(uuid),
        platform: "quark".to_owned(),
        title: file.name.clone(),
        output_dir: output_dir.to_owned(),
        download_mode: None,
        quality: None,
        format_id: None,
        referer: Some(REFERER.to_owned()),
        extra_headers: Some(headers),
        page_url: Some(item_url(uuid)),
        user_agent: Some(QUARK_UA.to_owned()),
        total_bytes: file.known_size(),
        cookie_slug: None,
        custom_args: None,
    }
}

/// `r` is what is put into the queue for `file` under some fresh identifiers,
/// and the file waits under the one that its link names.
pub open spec fn queued(
    r: EnqueueView,
    before: Map<Seq<char>, FileView>,
    after: Map<Seq<char>, FileView>,
    file: FileView,
    output_dir: Seq<char>,
    cookie: Seq<char>,
) -> bool {
    exists|uuid: Seq<char>| #[trigger]
        uuid_text(uuid) && r == file_request(r.id, uuid, file, output_dir, cookie) && after
            == before.insert(uuid, file)
}

/// Lets a file wait for its download, and says what is put into the queue for
/// it.
pub fn enqueue_file(
    ids: &mut DownloadIds,
    downloader: &mut QuarkDownloader,
    file: &QuarkFile,
    output_dir: &str,
    cookie: &str,
) -> (r: EnqueueRequest)
    requires
        old(ids).last < u64::MAX,
    ensures
        exists|now_ms: u64| r.id == #[trigger] id_after(old(ids).last, now_ms),
        final(ids).last == r.id,
        queued(
            r@,
            old(downloader).pending@,
            final(downloader).pending@,
            file@,
            output_dir@,
            cookie@,
        ),
{
    let id = next_download_id(ids);
    let uuid = new_uuid();
    let r = request_for_file(id, uuid.as_str(), file, output_dir, cookie);
    downloader.pending.insert(uuid, file.clone());
    assert(uuid_text(uuid@));
    r
}

/// The waiting files after those of `files` came, each under the identifier at
/// its place in `uuids`, in order.
pub open spec fn all_waiting(
    before: Map<Seq<char>, FileView>,
    uuids: Seq<Seq<char>>,
    files: Seq<FileView>,
) -> Map<Seq<char>, FileView>
    decreases uuids.len(),
{
    if uuids.len() == 0 {
        before
    } else {
        all_waiting(before, uuids.drop_last(), files).insert(
            uuids.last(),
            files[uuids.len() - 1],
        )
    }
}

/// What is put into the queue for several files.
pub open spec fn enqueue_views(v: Seq<EnqueueRequest>) -> Seq<EnqueueView> {
    v.map_values(|r: EnqueueRequest| r@)
}

/// `r` is what is put into the queue for the first of `files`, one for each and
/// in order, under the identifiers `uuids`, under which the files wait.
pub open spec fn queued_under(
    r: Seq<EnqueueView>,
    uuids: Seq<Seq<char>>,
    before: Map<Seq<char>, FileView>,
    after: Map<Seq<char>, FileView>,
    files: Seq<FileView>,
    output_dir: Seq<char>,
    cookie: Seq<char>,
) -> bool {
    &&& uuids.len() == r.len() <= files.len()
    &&& forall|i: int|
        #![trigger r[i]]
        #![trigger uuids[i]]
        0 <= i < r.len() ==> uuid_text(uuids[i]) && r[i] == file_request(
            r[i].id,
            uuids[i],
            files[i],
            output_dir,
            cookie,
        )
    &&& after == all_waiting(before, uuids, files)
}

/// `r` is what is put into the queue for the first of `files`, one for each and
/// in order, under some fresh identifiers, under which the files wait.
pub open spec fn all_queued(
    r: Seq<EnqueueView>,
    before: Map<Seq<char>, FileView>,
    after: Map<Seq<char>, FileView>,
    files: Seq<FileView>,
    output_dir: Seq<char>,
    cookie: Seq<char>,
) -> bool {
    exists|uuids: Seq<Seq<char>>| #[trigger]
        queued_under(r, uuids, before, after, files, output_dir, cookie)
}

/// Lets files wait for their download, and says what is put into the queue for
/// each of them. Only where the numbers for downloads are used up are files
/// left out.
pub fn enqueue_files(
    ids: &mut DownloadIds,
    downloader: &mut QuarkDownloader,
    files: &Vec<QuarkFile>,
    output_dir: &str,
    cookie: &str,
) -> (r: Vec<EnqueueRequest>)
    ensures
        r@.len() < files@.len() ==> final(ids).last == u64::MAX,
        exists|times: Seq<u64>| #[trigger]
            ids_at(old(ids).last as int, times) == enqueue_views(r@).map_values(
                |q: EnqueueView| q.id as int,
            ),
        forall|i: int| 0 <= i < r@.len() ==> (#[trigger] r@[i]).id > old(ids).last,
        forall|i: int, j: int|
            0 <= i < j < r@.len() ==> (#[trigger] r@[i]).id < (#[trigger] r@[j]).id,
        final(ids).last == (if r@.len() == 0 {
            old(ids).last
        } else {
            r@.last().id
        }),
        all_queued(
            enqueue_views(r@),
            old(downloader).pending@,
            final(downloader).pending@,
            file_views(files@),
            output_dir@,
            cookie@,
        ),
{
    let mut r: Vec<EnqueueRequest> = Vec::new();
    let ghost first = ids.last;
    let ghost before = downloader.pending@;
    let ghost mut uuids: Seq<Seq<char>> = Seq::empty();
    let ghost mut times: Seq<u64> = Seq::empty();
    let mut i: usize = 0;
    assert(enqueue_views(r@).map_values(|q: EnqueueView| q.id as int) =~= Seq::empty());
    while i < files.len() && ids.last < u64::MAX
        invariant
            i <= files.len(),
            r@.len() == i,
            ids_at(first as int, times) == enqueue_views(r@).map_values(
                |q: EnqueueView| q.id as int,
            ),
            forall|k: int| 0 <= k < r@.len() ==> (#[trigger] r@[k]).id > first,
            forall|k: int, j: int|
                0 <= k < j < r@.len() ==> (#[trigger] r@[k]).id < (#[trigger] r@[j]).id,
            ids.last == (if r@.len() == 0 {
                first
            } else {
                r@.last().id
            }),
            queued_under(
                enqueue_views(r@),
                uuids,
                before,
                downloader.pending@,
                file_views(files@),
                output_dir@,
                cookie@,
            ),
        decreases files.len() - i,
    {
        let ghost last = ids.last;
        let ghost waiting = downloader.pending@;
        let ghost told = r@;
        let request = enqueue_file(ids, downloader, &files[i], output_dir, cookie);
        proof {
            let now_ms = choose|now_ms: u64| request.id == #[trigger] id_after(last, now_ms);
            let uuid = choose|uuid: Seq<char>| #[trigger]
                uuid_text(uuid) && request@ == file_request(
                    request@.id,
                    uuid,
                    files@[i as int]@,
                    output_dir@,
                    cookie@,
                ) && downloader.pending@ == waiting.insert(uuid, files@[i as int]@);
            let ghost old_ids = ids_at(first as int, times);
            assert(old_ids.len() > 0 ==> old_ids.last() == told.last().id);
            assert(times.push(now_ms).drop_last() =~= times);
            assert(uuids.push(uuid).drop_last() =~= uuids);
            assert(file_views(files@)[i as int] == files@[i as int]@);
            assert(enqueue_views(told.push(request)) =~= enqueue_views(told).push(request@));
            times = times.push(now_ms);
            uuids = uuids.push(uuid);
        }
        r.push(request);
        assert(ids_at(first as int, times) =~= enqueue_views(r@).map_values(
            |q: EnqueueView| q.id as int,
        ));
        i += 1;
    }
    r
}

/// A queued file is found again by its link, both for what is known of it and
/// for its download, as long as nothing else is put under its identifier.
pub proof fn law_queued_file_is_found(
    r: EnqueueView,
    before: Map<Seq<char>, FileView>,
    after: Map<Seq<char>, FileView>,
    file: FileView,
    output_dir: Seq<char>,
    cookie: Seq<char>,
)
    requires
        queued(r, before, after, file, output_dir, cookie),
    ensures
        resolved(after, r.url) == Ok::<FileView, Seq<char>>(file),
        r.page_url == Some(r.url),
{
    let uuid = choose|uuid: Seq<char>| #[trigger]
        uuid_text(uuid) && r == file_request(r.id, uuid, file, output_dir, cookie) && after
            == before.insert(uuid, file);
    law_item_link_resolves(uuid);
}

/// Queueing another file under another identifier leaves a waiting file where
/// it is.
pub proof fn law_queueing_keeps_others(
    pending: Map<Seq<char>, FileView>,
    id: Seq<char>,
    other: Seq<char>,
    file: FileView,
)
    requires
        id != other,
    ensures
        resolved(pending.insert(other, file), item_link(id)) == resolved(pending, item_link(id)),
{
    law_item_link_resolves(id);
}

proof fn lemma_waits(
    before: Map<Seq<char>, FileView>,
    uuids: Seq<Seq<char>>,
    files: Seq<FileView>,
    i: int,
)
    requires
        0 <= i < uuids.len(),
        forall|j: int| i < j < uuids.len() ==> #[trigger] uuids[j] != uuids[i],
    ensures
        all_waiting(before, uuids, files).contains_key(uuids[i]),
        all_waiting(before, uuids, files)[uuids[i]] == files[i],
    decreases uuids.len(),
{
    if i < uuids.len() - 1 {
        let rest = uuids.drop_last();
        assert forall|j: int| i < j < rest.len() implies #[trigger] rest[j] != rest[i] by {
            assert(uuids[j] != uuids[i]);
        }
        lemma_waits(before, rest, files, i);
        assert(uuids[uuids.len() - 1] != uuids[i]);
    }
}

proof fn lemma_waits_still(
    before: Map<Seq<char>, FileView>,
    uuids: Seq<Seq<char>>,
    files: Seq<FileView>,
    id: Seq<char>,
)
    requires
        !uuids.contains(id),
    ensures
        at_key(all_waiting(before, uuids, files), id) == at_key(before, id),
    decreases uuids.len(),
{
    if uuids.len() > 0 {
        let rest = uuids.drop_last();
        assert forall|j: int| 0 <= j < rest.len() implies #[trigger] rest[j] != id by {
            assert(uuids.contains(uuids[j]));
        }
        assert(uuids.contains(uuids[uuids.len() - 1]));
        lemma_waits_still(before, rest, files, id);
    }
}

/// Each of several queued files is found again by its link, unless a later one
/// of them got the same link.
pub proof fn law_queued_files_are_found(
    r: Seq<EnqueueView>,
    before: Map<Seq<char>, FileView>,
    after: Map<Seq<char>, FileView>,
    files: Seq<FileView>,
    output_dir: Seq<char>,
    cookie: Seq<char>,
    i: int,
)
    requires
        all_queued(r, before, after, files, output_dir, cookie),
        0 <= i < r.len(),
        forall|j: int| i < j < r.len() ==> (#[trigger] r[j]).url != r[i].url,
    ensures
        resolved(after, r[i].url) == Ok::<FileView, Seq<char>>(files[i]),
        r[i].page_url == Some(r[i].url),
{
    let uuids = choose|uuids: Seq<Seq<char>>| #[trigger]
        queued_under(r, uuids, before, after, files, output_dir, cookie);
    assert forall|j: int| i < j < uuids.len() implies #[trigger] uuids[j] != uuids[i] by {
        assert(r[j].url != r[i].url);
    }
    lemma_waits(before, uuids, files, i);
    law_item_link_resolves(uuids[i]);
}

/// Queueing several files leaves a waiting file where it is, unless one of them
/// got its link.
pub proof fn law_queueing_files_keeps_others(
    r: Seq<EnqueueView>,
    before: Map<Seq<char>, FileView>,
    after: Map<Seq<char>, FileView>,
    files: Seq<FileView>,
    output_dir: Seq<char>,
    cookie: Seq<char>,
    id: Seq<char>,
)
    requires
        all_queued(r, before, after, files, output_dir, cookie),
        forall|i: int| 0 <= i < r.len() ==> (#[trigger] r[i]).url != item_link(id),
    ensures
        resolved(after, item_link(id)) == resolved(before, item_link(id)),
{
    let uuids = choose|uuids: Seq<Seq<char>>| #[trigger]
        queued_under(r, uuids, before, after, files, output_dir, cookie);
    assert forall|j: int| 0 <= j < uuids.len() implies #[trigger] uuids[j] != id by {
        assert(r[j].url != item_link(id));
    }
    lemma_waits_still(before, uuids, files, id);
    law_item_link_resolves(id);
}

/// The link of a queued file belongs to the drive and to nothing else: it is
/// routed to its downloader, which takes it.
pub proof fn law_queued_link_is_routed(uuid: Seq<char>, parts: Option<UrlView>)
    requires
        uuid_text(uuid),
    ensures
        site_of(item_link(uuid), parts) == Some(PlatformView::Other("quark"@)),
        "quark://"@.is_prefix_of(item_link(uuid)),
{
    let link = item_link(uuid);
    reveal_strlit("quark://download/");
    reveal_strlit("quark://");
    reveal_strlit("p2p:");
    reveal_strlit("magnet:");
    reveal_strlit(".torrent");
    assert(link.subrange(0, 8) =~= "quark://"@);
    assert(link[0] == 'q');
    assert("p2p:"@[0] == 'p' && "magnet:"@[0] == 'm');
    assert(link.subrange(0, 4)[0] == 'q');
    assert(link.subrange(0, 7)[0] == 'q');
    assert(small_hex(uuid[35]));
    assert(link[link.len() - 1] == uuid[35]);
    assert(".torrent"@[7] == 't');
    assert(link.subrange(link.len() - 8, link.len() as int)[7] == uuid[35]);
}

} // verus!
