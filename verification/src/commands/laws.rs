//! What holds of the commands: admission, batches, the queue and showing files.
use vstd::prelude::*;
use vstd::utf8::encode_utf8;

use crate::link::UrlView;
use crate::platforms::quark::request::QUARK_UA;
use crate::platforms::quark::FileView;
use crate::platforms::{site_of, PlatformView};
use crate::text::{decimal, is_digit, lemma_decimal, replace, split, trimmed};
use crate::text_laws::{lemma_one_piece, lemma_split_in_two, without};
use crate::url_parser::content;

use super::admission::{custom_refusal, plain_request, refusal, too_long, PathExcess};
use super::batch::{is_link, link_on, links_in};
use super::detect::{link_info, on_the_web, queue_name};
use super::ids::{id_after, ids_at};
use super::quark::{all_waiting, batch_refusal, file_request};
use super::queue::{
    finished, follows, good, to_start, torrent_of, torrents_of, CommandPlan, ItemStatus, QueueItem,
};
use super::show::{
    directory_uri, escaped, file_uri, lemma_replace_parts, may_link, path_steps, picked,
    quoted_list, relative, rooted,
    stage_words, step_text, steps_text, ShowStage,
};
use super::start::{leads_to, stage_after, StartAction, StartEvent, StartStage};

verus! {

// ---------------------------------------------------------------------------
// Admission
// ---------------------------------------------------------------------------
proof fn lemma_no_bar(n: nat)
    ensures
        without(decimal(n), '|'),
{
    lemma_decimal(n);
    assert forall|i: int| 0 <= i < decimal(n).len() implies #[trigger] decimal(n)[i] != '|' by {
        assert(is_digit(decimal(n)[i]));
    }
}

/// The message on a path that is too long is read back between its bars.
pub proof fn law_message_on_a_long_path(e: PathExcess)
    ensures
        split(too_long(e), '|') == seq![
            "PathTooLong"@,
            decimal(e.limit as nat),
            decimal(e.current as nat),
            decimal(e.reserve as nat),
        ],
{
    reveal_strlit("PathTooLong|");
    reveal_strlit("PathTooLong");
    reveal_strlit("|");
    let a = decimal(e.limit as nat);
    let b = decimal(e.current as nat);
    let c = decimal(e.reserve as nat);
    lemma_no_bar(e.limit as nat);
    lemma_no_bar(e.current as nat);
    lemma_no_bar(e.reserve as nat);
    let word = "PathTooLong"@;
    assert(without(word, '|'));
    lemma_one_piece(word, '|');
    lemma_one_piece(a, '|');
    lemma_one_piece(b, '|');
    lemma_one_piece(c, '|');
    let one = word + seq!['|'] + a;
    let two = one + seq!['|'] + b;
    lemma_split_in_two(word, a, '|');
    lemma_split_in_two(one, b, '|');
    lemma_split_in_two(two, c, '|');
    assert(too_long(e) =~= two + seq!['|'] + c);
    assert(split(too_long(e), '|') =~= seq![word, a, b, c]);
}

/// A download is admitted exactly if its path fits, it is not under way and
/// somebody downloads from there; the first of these that fails is told.
pub proof fn law_admission(excess: Option<PathExcess>, under_way: bool, known: bool)
    ensures
        refusal(excess, under_way, known) is None <==> excess is None && !under_way && known,
        excess matches Some(e) ==> refusal(excess, under_way, known) == Some(too_long(e)),
        excess is None && under_way ==> refusal(excess, under_way, known) == Some(
            "Download already in progress for this URL"@,
        ),
        excess is None && !under_way && !known ==> refusal(excess, under_way, known) == Some(
            "No downloader available for this URL"@,
        ),
{
}

/// A download with arguments of the user's own needs a link; whether somebody
/// downloads from there does not matter.
pub proof fn law_custom_admission(url: Seq<char>, excess: Option<PathExcess>, under_way: bool)
    ensures
        trimmed(url).len() == 0 ==> custom_refusal(url, excess, under_way) == Some(
            "URL is required"@,
        ),
        trimmed(url).len() > 0 ==> (custom_refusal(url, excess, under_way) is None <==> excess
            is None && !under_way),
        trimmed(url).len() > 0 ==> (excess matches Some(e) ==> custom_refusal(
            url,
            excess,
            under_way,
        ) == Some(too_long(e))),
        trimmed(url).len() > 0 && excess is None && under_way ==> custom_refusal(
            url,
            excess,
            under_way,
        ) == Some("Download already in progress for this URL"@),
{
}

/// A plain request says what is to be downloaded and where to, and nothing else;
/// its title is the link.
pub proof fn law_plain_request(
    id: u64,
    url: Seq<char>,
    platform: Seq<char>,
    output_dir: Seq<char>,
)
    ensures
        ({
            let r = plain_request(id, url, platform, output_dir);
            &&& r.id == id
            &&& r.url == url
            &&& r.platform == platform
            &&& r.title == url
            &&& r.output_dir == output_dir
            &&& r.download_mode is None
            &&& r.quality is None
            &&& r.format_id is None
            &&& r.referer is None
            &&& r.extra_headers is None
            &&& r.page_url is None
            &&& r.user_agent is None
            &&& r.total_bytes is None
            &&& r.cookie_slug is None
            &&& r.custom_args is None
        }),
{
}

/// The request for a file of the drive carries the cookie of the login, goes to
/// the link under which the file waits, and says the size where it is known.
pub proof fn law_request_for_a_file(
    id: u64,
    uuid: Seq<char>,
    file: FileView,
    output_dir: Seq<char>,
    cookie: Seq<char>,
)
    ensures
        ({
            let r = file_request(id, uuid, file, output_dir, cookie);
            &&& r.id == id
            &&& r.url == "quark://download/"@ + uuid
            &&& r.page_url == Some("quark://download/"@ + uuid)
            &&& r.platform == "quark"@
            &&& r.title == file.name
            &&& r.output_dir == output_dir
            &&& r.referer == Some("https://pan.quark.cn/"@)
            &&& r.user_agent == Some(QUARK_UA@)
            &&& r.extra_headers == Some(seq![("Cookie"@, cookie)])
            &&& file.size > 0 ==> r.total_bytes == Some(file.size)
            &&& file.size == 0 ==> r.total_bytes is None
            &&& r.download_mode is None
            &&& r.quality is None
            &&& r.format_id is None
            &&& r.cookie_slug is None
            &&& r.custom_args is None
        }),
{
}

/// Files of the drive are admitted exactly if there are some, their path fits,
/// the cookie was read and the downloader is there.
pub proof fn law_admission_of_files(
    files: nat,
    excess: Option<PathExcess>,
    cookie_fault: Option<Seq<char>>,
    known: bool,
)
    ensures
        batch_refusal(files, excess, cookie_fault, known) is None <==> files > 0 && excess is None
            && cookie_fault is None && known,
        files == 0 ==> batch_refusal(files, excess, cookie_fault, known) == Some(
            "No files to download"@,
        ),
        files > 0 ==> (excess matches Some(e) ==> batch_refusal(files, excess, cookie_fault, known)
            == Some(too_long(e))),
        files > 0 && excess is None ==> (cookie_fault matches Some(reason) ==> batch_refusal(
            files,
            excess,
            cookie_fault,
            known,
        ) == Some("QuarkCookie|"@ + reason)),
        files > 0 && excess is None && cookie_fault is None && !known ==> batch_refusal(
            files,
            excess,
            cookie_fault,
            known,
        ) == Some("Quark downloader not registered"@),
{
}

// ---------------------------------------------------------------------------
// Batches
// ---------------------------------------------------------------------------
/// A text is taken for a link by its start alone.
pub proof fn law_start_of_a_link(s: Seq<char>)
    ensures
        is_link(s) <==> "http://"@.is_prefix_of(s) || "https://"@.is_prefix_of(s)
            || "magnet:"@.is_prefix_of(s) || "p2p:"@.is_prefix_of(s),
{
}

/// A line gives the link that it starts with, up to a bar and without the white
/// space around it; a comment, an empty line and any other text give none.
pub proof fn law_link_on_a_line(line: Seq<char>, link: Seq<char>, rest: Seq<char>)
    requires
        without(link, '|'),
        trimmed(line) == link || trimmed(line) == link + seq!['|'] + rest,
    ensures
        trimmed(line).len() == 0 ==> link_on(line) is None,
        trimmed(line).len() > 0 && trimmed(line)[0] == '#' ==> link_on(line) is None,
        trimmed(line).len() > 0 && trimmed(line)[0] != '#' ==> {
            let starts = "http://"@.is_prefix_of(trimmed(link)) || "https://"@.is_prefix_of(
                trimmed(link),
            ) || "magnet:"@.is_prefix_of(trimmed(link)) || "p2p:"@.is_prefix_of(trimmed(link));
            &&& starts ==> link_on(line) == Some(trimmed(link))
            &&& !starts ==> link_on(line) is None
        },
{
    lemma_one_piece(link, '|');
    lemma_split_in_two(link, rest, '|');
    assert(split(trimmed(line), '|')[0] == link);
}

proof fn lemma_lines_in_two(a: Seq<Seq<char>>, b: Seq<Seq<char>>)
    ensures
        (a + b).filter_map(|line: Seq<char>| link_on(line)) == a.filter_map(
            |line: Seq<char>| link_on(line),
        ) + b.filter_map(|line: Seq<char>| link_on(line)),
    decreases b.len(),
{
    reveal(Seq::filter_map);
    let f = |line: Seq<char>| link_on(line);
    if b.len() == 0 {
        assert(a + b =~= a);
    } else {
        lemma_lines_in_two(a, b.drop_last());
        assert((a + b).drop_last() =~= a + b.drop_last());
        assert((a + b).last() == b.last());
        assert((a + b).filter_map(f) =~= a.filter_map(f) + b.filter_map(f));
    }
}

/// The links of a batch are those of its lines, in order, however many there
/// are.
pub proof fn law_links_of_a_batch(a: Seq<char>, b: Seq<char>, line: Seq<char>)
    ensures
        links_in(a + seq!['\n'] + b) == links_in(a) + links_in(b),
        without(line, '\n') ==> (match link_on(line) {
            Some(link) => links_in(line) == seq![link],
            None => links_in(line).len() == 0,
        }),
{
    lemma_split_in_two(a, b, '\n');
    lemma_lines_in_two(split(a, '\n'), split(b, '\n'));
    if without(line, '\n') {
        reveal(Seq::filter_map);
        lemma_one_piece(line, '\n');
        let one = seq![line];
        let f = |line: Seq<char>| link_on(line);
        assert(one.drop_last() =~= Seq::empty());
        assert(one.last() == line);
        assert(one.drop_last().filter_map(f) =~= Seq::empty());
        if let Some(link) = link_on(line) {
            assert(links_in(line) =~= seq![link]);
        }
    }
}

// ---------------------------------------------------------------------------
// Detection
// ---------------------------------------------------------------------------
/// What is said of a link: its site with the content, or that it is on the web,
/// or nothing.
pub proof fn law_what_a_link_is(link: Seq<char>, parts: Option<UrlView>)
    ensures
        on_the_web(parts) <==> (parts matches Some(p) && (p.scheme == "http"@ || p.scheme
            == "https"@)),
        site_of(link, parts) matches Some(site) ==> {
            let info = link_info(link, parts);
            &&& info.platform == site.text()
            &&& info.supported
            &&& parts matches Some(p) ==> info.content_id == content(site, p).0
                && info.content_type == Some(content(site, p).1.text())
            &&& parts is None ==> info.content_id is None && info.content_type is None
        },
        site_of(link, parts) is None ==> {
            let info = link_info(link, parts);
            &&& on_the_web(parts) ==> info.platform == "generic"@ && info.supported
            &&& !on_the_web(parts) ==> info.platform == "unknown"@ && !info.supported
            &&& info.content_id is None
            &&& info.content_type is None
        },
{
}

/// The queue knows a download by the name of its site, or as any other.
pub proof fn law_name_in_the_queue(site: PlatformView)
    ensures
        queue_name(Some(site)) == site.text(),
        queue_name(None) == "generic"@,
{
}

// ---------------------------------------------------------------------------
// Numbers of downloads
// ---------------------------------------------------------------------------
/// A download is numbered by the clock, and by the next number where the clock
/// does not go on: always higher than the last.
pub proof fn law_next_number(last: u64, now_ms: u64)
    ensures
        id_after(last, now_ms) > last,
        id_after(last, now_ms) >= now_ms,
        id_after(last, now_ms) == now_ms || id_after(last, now_ms) == last + 1,
{
}

/// Downloads that are numbered one after the other are each numbered from the
/// last.
pub proof fn law_numbers_in_a_row(last: u64, times: Seq<u64>, now_ms: u64, i: int)
    ensures
        ids_at(last as int, Seq::empty()).len() == 0,
        ids_at(last as int, times.push(now_ms)).len() == ids_at(last as int, times).len() + 1,
        0 <= i < ids_at(last as int, times).len() ==> ids_at(last as int, times.push(now_ms))[i]
            == ids_at(last as int, times)[i],
        ids_at(last as int, times).len() == 0 ==> ids_at(last as int, times.push(now_ms)).last()
            == id_after(last, now_ms),
        ids_at(last as int, times).len() > 0 && ids_at(last as int, times).last() <= u64::MAX
            && ids_at(last as int, times).last() >= 0 ==> ids_at(
            last as int,
            times.push(now_ms),
        ).last() == id_after(ids_at(last as int, times).last() as u64, now_ms),
{
    assert(times.push(now_ms).drop_last() =~= times);
}

// ---------------------------------------------------------------------------
// The queue
// ---------------------------------------------------------------------------
/// A command that was done says so, changes the queue and names the torrent; one
/// that was not says why and changes nothing.
pub proof fn law_reply_of_a_command(
    plan: CommandPlan,
    done: bool,
    torrent: Option<usize>,
    success: Seq<char>,
    failure: Seq<char>,
)
    requires
        follows(plan, done, torrent, success, failure),
    ensures
        plan.changed <==> done,
        plan.reply is Ok <==> done,
        plan.reply matches Ok(text) ==> text@ == success && plan.torrent == torrent,
        plan.reply matches Err(text) ==> text@ == failure && plan.torrent is None,
{
}

/// The torrent of a download is that of the first item with its number.
pub proof fn law_torrent_of_a_download(items: Seq<QueueItem>, id: u64, i: int)
    requires
        0 <= i < items.len(),
        items[i].id == id,
        forall|j: int| 0 <= j < i ==> (#[trigger] items[j]).id != id,
    ensures
        torrent_of(items, id) == items[i].torrent_id,
    decreases i,
{
    if i > 0 {
        let rest = items.drop_first();
        assert(items[0].id != id);
        assert(rest[i - 1] == items[i]);
        assert forall|j: int| 0 <= j < i - 1 implies (#[trigger] rest[j]).id != id by {
            assert(rest[j] == items[j + 1]);
        }
        law_torrent_of_a_download(rest, id, i - 1);
    }
}

/// A number that the queue does not have has no torrent.
pub proof fn law_no_torrent(items: Seq<QueueItem>, id: u64)
    requires
        forall|j: int| 0 <= j < items.len() ==> (#[trigger] items[j]).id != id,
    ensures
        torrent_of(items, id) is None,
    decreases items.len(),
{
    if items.len() > 0 {
        let rest = items.drop_first();
        assert(items[0].id != id);
        assert forall|j: int| 0 <= j < rest.len() implies (#[trigger] rest[j]).id != id by {
            assert(rest[j] == items[j + 1]);
        }
        law_no_torrent(rest, id);
    }
}

/// The torrents among changed items are told one by one, in order.
pub proof fn law_torrents_one_by_one(
    a: Seq<(u64, Option<usize>)>,
    b: Seq<(u64, Option<usize>)>,
    id: u64,
    torrent: usize,
)
    ensures
        torrents_of(a + b) == torrents_of(a) + torrents_of(b),
        torrents_of(Seq::empty()).len() == 0,
        torrents_of(seq![(id, Some(torrent))]) == seq![torrent],
        torrents_of(seq![(id, None::<usize>)]).len() == 0,
    decreases b.len(),
{
    reveal(Seq::filter_map);
    let f = |item: (u64, Option<usize>)| item.1;
    let one = seq![(id, Some(torrent))];
    let none = seq![(id, None::<usize>)];
    assert(one.drop_last() =~= Seq::empty() && none.drop_last() =~= Seq::empty());
    assert(one.last() == (id, Some(torrent)) && none.last() == (id, None::<usize>));
    assert(one.drop_last().filter_map(f) =~= Seq::empty());
    assert(one.filter_map(f) =~= seq![torrent]);
    if b.len() == 0 {
        assert(a + b =~= a);
        assert(torrents_of(a + b) =~= torrents_of(a) + torrents_of(b));
    } else {
        law_torrents_one_by_one(a, b.drop_last(), id, torrent);
        assert((a + b).drop_last() =~= a + b.drop_last());
        assert((a + b).last() == b.last());
        assert(torrents_of(a + b) =~= torrents_of(a) + torrents_of(b));
    }
}

/// Of the items that the queue made ready, each that is active is started, in
/// order; where one download is asked for, only that.
pub proof fn law_starts_one_by_one(
    a: Seq<QueueItem>,
    b: Seq<QueueItem>,
    item: QueueItem,
    only: Option<u64>,
)
    ensures
        to_start(a + b, only) == to_start(a, only) + to_start(b, only),
        to_start(Seq::empty(), only).len() == 0,
        item.status == ItemStatus::Active && only is None ==> to_start(seq![item], only) == seq![
            item.id,
        ],
        item.status == ItemStatus::Active && only == Some(item.id) ==> to_start(seq![item], only)
            == seq![item.id],
        item.status != ItemStatus::Active ==> to_start(seq![item], only).len() == 0,
        (only matches Some(id) && id != item.id) ==> to_start(seq![item], only).len() == 0,
    decreases b.len(),
{
    reveal(Seq::filter_map);
    let f = |item: QueueItem|
        if item.status == ItemStatus::Active && (only is None || only == Some(item.id)) {
            Some(item.id)
        } else {
            None
        };
    let one = seq![item];
    assert(one.drop_last() =~= Seq::empty());
    assert(one.last() == item);
    assert(one.drop_last().filter_map(f) =~= Seq::empty());
    assert(to_start(one, only) == one.filter_map(f));
    if f(item) is Some {
        assert(one.filter_map(f) =~= seq![item.id]);
    }
    if b.len() == 0 {
        assert(a + b =~= a);
        assert(to_start(a + b, only) =~= to_start(a, only) + to_start(b, only));
    } else {
        law_starts_one_by_one(a, b.drop_last(), item, only);
        assert((a + b).drop_last() =~= a + b.drop_last());
        assert((a + b).last() == b.last());
        assert(to_start(a + b, only) =~= to_start(a, only) + to_start(b, only));
    }
}

/// The items that are finished are those that are complete or failed, in order.
pub proof fn law_finished_one_by_one(a: Seq<QueueItem>, b: Seq<QueueItem>, item: QueueItem)
    ensures
        finished(a + b) == finished(a) + finished(b),
        finished(Seq::empty()).len() == 0,
        item.status == ItemStatus::Complete || item.status == ItemStatus::Error ==> finished(
            seq![item],
        ) == seq![item.id],
        item.status == ItemStatus::Active || item.status == ItemStatus::Other ==> finished(
            seq![item],
        ).len() == 0,
    decreases b.len(),
{
    reveal(Seq::filter_map);
    let f = |item: QueueItem|
        if item.status == ItemStatus::Complete || item.status == ItemStatus::Error {
            Some(item.id)
        } else {
            None
        };
    let one = seq![item];
    assert(one.drop_last() =~= Seq::empty());
    assert(one.last() == item);
    assert(one.drop_last().filter_map(f) =~= Seq::empty());
    assert(finished(one) == one.filter_map(f));
    if f(item) is Some {
        assert(one.filter_map(f) =~= seq![item.id]);
    }
    if b.len() == 0 {
        assert(a + b =~= a);
        assert(finished(a + b) =~= finished(a) + finished(b));
    } else {
        law_finished_one_by_one(a, b.drop_last(), item);
        assert((a + b).drop_last() =~= a + b.drop_last());
        assert((a + b).last() == b.last());
        assert(finished(a + b) =~= finished(a) + finished(b));
    }
}

/// What was restored is counted one by one.
pub proof fn law_restored_are_counted(a: Seq<bool>, b: Seq<bool>)
    ensures
        good(a + b) == good(a) + good(b),
        good(Seq::empty()) == 0,
        good(seq![true]) == 1,
        good(seq![false]) == 0,
    decreases b.len(),
{
    assert(seq![true].drop_last() =~= Seq::empty());
    assert(seq![false].drop_last() =~= Seq::empty());
    if b.len() == 0 {
        assert(a + b =~= a);
    } else {
        law_restored_are_counted(a, b.drop_last());
        assert((a + b).drop_last() =~= a + b.drop_last());
        assert((a + b).last() == b.last());
    }
}

/// Files that are queued one after the other all wait, each under its own name.
pub proof fn law_one_more_file_waits(
    before: Map<Seq<char>, FileView>,
    uuids: Seq<Seq<char>>,
    files: Seq<FileView>,
    uuid: Seq<char>,
)
    requires
        uuids.len() < files.len(),
    ensures
        all_waiting(before, Seq::empty(), files) == before,
        all_waiting(before, uuids.push(uuid), files) == all_waiting(before, uuids, files).insert(
            uuid,
            files[uuids.len() as int],
        ),
{
    assert(uuids.push(uuid).drop_last() =~= uuids);
}

// ---------------------------------------------------------------------------
// The start of a download
// ---------------------------------------------------------------------------
/// The order in which a download is started: the queue is asked, a downloader is
/// looked for unless it is fixed, the download is queued, made ready and started.
pub proof fn law_order_of_a_start(fixed: bool, next: Vec<u64>, items: Vec<QueueItem>)
    ensures
        stage_after(fixed, StartEvent::Queue { has_url: true }) == StartStage::Refused,
        stage_after(true, StartEvent::Queue { has_url: false }) == StartStage::Enqueue,
        stage_after(false, StartEvent::Queue { has_url: false }) == StartStage::FindDownloader,
        stage_after(fixed, StartEvent::Downloader { found: true }) == StartStage::Enqueue,
        stage_after(fixed, StartEvent::Downloader { found: false }) == StartStage::Refused,
        stage_after(fixed, StartEvent::Enqueued { next }) == StartStage::Activate,
        stage_after(fixed, StartEvent::Activated { items }) == StartStage::Started,
{
}

/// Which event a stage waits for.
pub proof fn law_awaited_events(stage: StartStage, event: StartEvent)
    ensures
        stage == StartStage::AskQueue ==> (stage.expects(event) <==> event is Queue),
        stage == StartStage::FindDownloader ==> (stage.expects(event) <==> event is Downloader),
        stage == StartStage::Enqueue ==> (stage.expects(event) <==> event is Enqueued),
        stage == StartStage::Activate ==> (stage.expects(event) <==> event is Activated),
        stage == StartStage::Started || stage == StartStage::Refused ==> !stage.expects(event),
{
}

/// What is done on each event: a link that is under way and one that nobody
/// downloads are refused, and of the items made ready only this one is started.
pub proof fn law_acts_of_a_start(
    fixed: bool,
    id: u64,
    event: StartEvent,
    action: StartAction,
)
    requires
        leads_to(fixed, id, event, action),
    ensures
        event == (StartEvent::Queue { has_url: true }) ==> (action matches StartAction::Refuse(e)
            && e@ == "Download already in progress for this URL"@),
        event == (StartEvent::Queue { has_url: false }) && fixed ==> action is Enqueue,
        event == (StartEvent::Queue { has_url: false }) && !fixed ==> action is FindDownloader,
        event == (StartEvent::Downloader { found: true }) ==> action is Enqueue,
        event == (StartEvent::Downloader { found: false }) ==> (action matches StartAction::Refuse(
            e,
        ) && e@ == "No downloader available for this URL"@),
        event matches StartEvent::Enqueued { next } ==> (action matches StartAction::Activate(ids)
            && ids@ == next@),
        event matches StartEvent::Activated { items } ==> (action matches StartAction::Start(ids)
            && ids@ == to_start(items@, Some(id))),
{
}

// ---------------------------------------------------------------------------
// Links to files
// ---------------------------------------------------------------------------
/// Which paths are taken as they stand: from the root with forward slashes, or
/// below another directory.
pub proof fn law_forms_of_paths(path: Seq<char>)
    ensures
        rooted(path) <==> path.len() > 0 && path[0] == '/' && !(path.len() > 1 && path[1] == '/')
            && !path.contains('\\'),
        relative(path) <==> !(path.len() > 0 && (path[0] == '/' || path[0] == '\\'))
            && !path.contains(':'),
{
}

proof fn lemma_steps_in_two(a: Seq<Seq<char>>, b: Seq<Seq<char>>)
    ensures
        (a + b).filter(|step: Seq<char>| step.len() > 0 && step != seq!['.']) == a.filter(
            |step: Seq<char>| step.len() > 0 && step != seq!['.'],
        ) + b.filter(|step: Seq<char>| step.len() > 0 && step != seq!['.']),
    decreases b.len(),
{
    reveal(Seq::filter);
    let f = |step: Seq<char>| step.len() > 0 && step != seq!['.'];
    if b.len() == 0 {
        assert(a + b =~= a);
    } else {
        lemma_steps_in_two(a, b.drop_last());
        assert((a + b).drop_last() =~= a + b.drop_last());
        assert((a + b).last() == b.last());
        assert((a + b).filter(f) =~= a.filter(f) + b.filter(f));
    }
}

/// The steps of a path stand between its slashes; empty ones and single points
/// are no steps.
pub proof fn law_steps_of_a_path(a: Seq<char>, b: Seq<char>, step: Seq<char>)
    ensures
        path_steps(a + seq!['/'] + b) == path_steps(a) + path_steps(b),
        without(step, '/') && step.len() > 0 && step != "."@ ==> path_steps(step) == seq![step],
        path_steps(Seq::empty()).len() == 0,
        path_steps("."@).len() == 0,
{
    reveal(Seq::filter);
    reveal_strlit(".");
    lemma_split_in_two(a, b, '/');
    lemma_steps_in_two(split(a, '/'), split(b, '/'));
    let f = |step: Seq<char>| step.len() > 0 && step != seq!['.'];
    assert("."@ =~= seq!['.']);
    let none = Seq::<char>::empty();
    lemma_one_piece(none, '/');
    lemma_one_piece("."@, '/');
    assert(seq![none].drop_last() =~= Seq::empty());
    assert(seq!["."@].drop_last() =~= Seq::empty());
    assert(seq![none].last() == none && seq!["."@].last() == "."@);
    if without(step, '/') && step.len() > 0 && step != "."@ {
        lemma_one_piece(step, '/');
        let one = seq![step];
        assert(one.drop_last() =~= Seq::empty());
        assert(one.last() == step);
        assert(one.drop_last().filter(f) =~= Seq::empty());
        assert(one.filter(f) =~= seq![step]);
    }
}

/// A step is written byte by byte: visible ASCII stays, but for the signs that
/// mean something in a link, and every other byte becomes a percent sign and its
/// two capital digits.
pub proof fn law_bytes_of_a_step(a: Seq<u8>, b: Seq<u8>, byte: u8)
    ensures
        step_text(a + b) == step_text(a) + step_text(b),
        step_text(Seq::empty()).len() == 0,
        ({
            let stays = 33 <= byte <= 126 && byte != 34 && byte != 35 && byte != 37 && byte != 47
                && byte != 60 && byte != 62 && byte != 63 && byte != 96 && byte != 123 && byte
                != 125;
            &&& stays ==> step_text(seq![byte]) == seq![byte as char]
            &&& !stays ==> step_text(seq![byte]) == seq![
                '%',
                "0123456789ABCDEF"@[byte as int / 16],
                "0123456789ABCDEF"@[byte as int % 16],
            ]
        }),
    decreases b.len(),
{
    reveal_strlit("0123456789ABCDEF");
    let one = seq![byte];
    assert(one.drop_last() =~= Seq::empty());
    assert(one.last() == byte);
    assert(step_text(Seq::empty()) =~= Seq::<char>::empty());
    if b.len() == 0 {
        assert(a + b =~= a);
        assert(step_text(a + b) =~= step_text(a) + step_text(b));
    } else {
        law_bytes_of_a_step(a, b.drop_last(), byte);
        assert((a + b).drop_last() =~= a + b.drop_last());
        assert((a + b).last() == b.last());
        assert(step_text(a + b) =~= step_text(a) + step_text(b));
    }
}

/// Steps are written one behind the other, each behind a slash.
pub proof fn law_steps_of_a_link(a: Seq<Seq<char>>, b: Seq<Seq<char>>, step: Seq<char>)
    ensures
        steps_text(a + b) == steps_text(a) + steps_text(b),
        steps_text(Seq::empty()).len() == 0,
        steps_text(seq![step]) == seq!['/'] + step_text(encode_utf8(step)),
    decreases b.len(),
{
    let one = seq![step];
    assert(one.drop_last() =~= Seq::empty());
    assert(one.last() == step);
    assert(steps_text(Seq::empty()) =~= Seq::<char>::empty());
    assert(steps_text(one) =~= seq!['/'] + step_text(encode_utf8(step)));
    if b.len() == 0 {
        assert(a + b =~= a);
        assert(steps_text(a + b) =~= steps_text(a) + steps_text(b));
    } else {
        law_steps_of_a_link(a, b.drop_last(), step);
        assert((a + b).drop_last() =~= a + b.drop_last());
        assert((a + b).last() == b.last());
        assert(steps_text(a + b) =~= steps_text(a) + steps_text(b));
    }
}

/// The link to a file is made of its steps; that to a directory ends with a
/// slash. The root is `file:///`.
pub proof fn law_links_to_files(path: Seq<char>)
    ensures
        path_steps(path).len() == 0 ==> file_uri(path) == "file:///"@ && directory_uri(path)
            == "file:///"@,
        path_steps(path).len() > 0 ==> file_uri(path) == "file://"@ + steps_text(path_steps(path))
            && directory_uri(path) == file_uri(path) + seq!['/'],
{
}

/// No link is made for a path below another directory; one from the root has the
/// link that was given for it.
pub proof fn law_link_for_a_path(link: Option<Seq<char>>, path: Seq<char>, uri: Seq<char>)
    ensures
        may_link(link, path, uri) && relative(path) ==> link is None,
        may_link(link, path, uri) && rooted(path) ==> (link matches Some(l) ==> l == uri),
        may_link(link, path, uri) ==> (link matches Some(l) ==> "file://"@.is_prefix_of(l)),
        may_link(None, path, uri),
{
}

/// The first link that there is counts; where there is none, the path stands
/// behind `file://`.
pub proof fn law_first_link_counts(first: Seq<char>, second: Option<Seq<char>>, path: Seq<char>)
    ensures
        picked(Some(first), second, path) == first,
        picked(None, Some(first), path) == first,
        picked(None, None, path) == "file://"@ + path,
{
}

/// A text is quoted character by character: a backslash and a quotation mark get
/// a backslash before them, and nothing else changes.
pub proof fn law_quoting_one_by_one(a: Seq<char>, b: Seq<char>, c: char)
    ensures
        escaped(a + b) == escaped(a) + escaped(b),
        escaped(Seq::empty()).len() == 0,
        escaped(seq!['\\']) == seq!['\\', '\\'],
        escaped(seq!['"']) == seq!['\\', '"'],
        c != '\\' && c != '"' ==> escaped(seq![c]) == seq![c],
{
    reveal_strlit("\\\\");
    reveal_strlit("\\\"");
    lemma_replace_parts(a, b, '\\', "\\\\"@);
    lemma_replace_parts(
        replace(a, '\\', "\\\\"@),
        replace(b, '\\', "\\\\"@),
        '"',
        "\\\""@,
    );
    lemma_replace_one('\\', '\\', "\\\\"@);
    lemma_replace_one('"', '\\', "\\\\"@);
    lemma_replace_one('"', '"', "\\\""@);
    lemma_replace_one('\\', '"', "\\\""@);
    lemma_replace_one(c, '\\', "\\\\"@);
    lemma_replace_one(c, '"', "\\\""@);
    let two = seq!['\\', '\\'];
    assert("\\\\"@ =~= two);
    lemma_replace_parts(seq!['\\'], seq!['\\'], '"', "\\\""@);
    assert(two =~= seq!['\\'] + seq!['\\']);
    assert(escaped(seq!['\\']) =~= two);
    assert("\\\""@ =~= seq!['\\', '"']);
}

proof fn lemma_replace_one(c: char, from: char, to: Seq<char>)
    ensures
        c == from ==> replace(seq![c], from, to) == to,
        c != from ==> replace(seq![c], from, to) == seq![c],
        replace(Seq::empty(), from, to) == Seq::<char>::empty(),
{
    let one = seq![c];
    reveal_with_fuel(replace, 2);
    assert(one.drop_last() =~= Seq::empty());
    assert(one.last() == c);
    assert(replace(Seq::empty(), from, to) =~= Seq::<char>::empty());
    assert(replace(one, from, to) =~= if c == from {
        to
    } else {
        one
    });
}

/// Which program is run at each stage, and on what.
pub proof fn law_programs_that_show_a_file(
    item: Seq<char>,
    dir: Seq<char>,
    dir_path: Seq<char>,
)
    ensures
        quoted_list(item) == "[\""@ + escaped(item) + "\"]"@,
        stage_words(ShowStage::Gdbus, item, dir, dir_path) == Some(
            (
                "gdbus"@,
                seq![
                    "call"@,
                    "--session"@,
                    "--dest"@,
                    "org.freedesktop.FileManager1"@,
                    "--object-path"@,
                    "/org/freedesktop/FileManager1"@,
                    "--method"@,
                    "org.freedesktop.FileManager1.ShowItems"@,
                    "[\""@ + escaped(item) + "\"]"@,
                    ""@,
                ],
            ),
        ),
        stage_words(ShowStage::DbusSend, item, dir, dir_path) == Some(
            (
                "dbus-send"@,
                seq![
                    "--session"@,
                    "--dest=org.freedesktop.FileManager1"@,
                    "--type=method_call"@,
                    "/org/freedesktop/FileManager1"@,
                    "org.freedesktop.FileManager1.ShowItems"@,
                    "array:string:"@ + item,
                    "string:"@,
                ],
            ),
        ),
        stage_words(ShowStage::Portal, item, dir, dir_path) == Some(
            (
                "gdbus"@,
                seq![
                    "call"@,
                    "--session"@,
                    "--dest"@,
                    "org.freedesktop.portal.Desktop"@,
                    "--object-path"@,
                    "/org/freedesktop/portal/desktop"@,
                    "--method"@,
                    "org.freedesktop.portal.OpenURI.OpenDirectory"@,
                    ""@,
                    dir,
                    "{}"@,
                ],
            ),
        ),
        stage_words(ShowStage::OpenFolder, item, dir, dir_path) == Some(
            ("xdg-open"@, seq![dir_path]),
        ),
        stage_words(ShowStage::Done, item, dir, dir_path) is None,
{
}

} // verus!
