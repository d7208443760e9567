//! Steering the queue: what follows once the queue has done what was asked.
use vstd::prelude::*;

use crate::text::{decimal, decimal_text};

verus! {

/// How an item of the queue stands, as far as it matters here.
#[derive(Debug, Clone, Copy, PartialEq, Eq, Structural)]
pub enum ItemStatus {
    /// It is being downloaded.
    Active,
    /// It is there.
    Complete,
    /// It failed.
    Error,
    /// It waits, is paused or seeds.
    Other,
}

/// An item of the queue, as far as it matters here.
#[derive(Debug, Clone, Copy, PartialEq, Eq, Structural)]
pub struct QueueItem {
    /// The identifier of the download.
    pub id: u64,
    /// How it stands.
    pub status: ItemStatus,
    /// The torrent that belongs to it, where one does.
    pub torrent_id: Option<usize>,
}

/// What follows a command.
#[derive(Debug)]
pub struct CommandPlan {
    /// The torrent that the command extends to.
    pub torrent: Option<usize>,
    /// The queue has changed: its state is to be shown, and what can start now
    /// is to be started.
    pub changed: bool,
    /// What the user is told.
    pub reply: Result<String, String>,
}

/// What follows a command that the queue carried out (`done`) or not.
pub open spec fn follows(
    plan: CommandPlan,
    done: bool,
    torrent: Option<usize>,
    success: Seq<char>,
    failure: Seq<char>,
) -> bool {
    &&& plan.changed == done
    &&& plan.torrent == (if done {
        torrent
    } else {
        None
    })
    &&& match plan.reply {
        Ok(text) => done && text@ == success,
        Err(text) => !done && text@ == failure,
    }
}

/// What follows a command that the queue carried out or not.
fn plan(done: bool, torrent: Option<usize>, success: &str, failure: &str) -> (r: CommandPlan)
    ensures
        follows(r, done, torrent, success@, failure@),
{
    if done {
        CommandPlan { torrent, changed: true, reply: Ok(success.to_owned()) }
    } else {
        CommandPlan { torrent: None, changed: false, reply: Err(failure.to_owned()) }
    }
}

/// The torrent of the first item with this identifier.
pub open spec fn torrent_of(items: Seq<QueueItem>, id: u64) -> Option<usize>
    decreases items.len(),
{
    if items.len() == 0 {
        None
    } else if items[0].id == id {
        items[0].torrent_id
    } else {
        torrent_of(items.drop_first(), id)
    }
}

/// The torrent of the first item with this identifier.
pub fn find_torrent(items: &Vec<QueueItem>, id: u64) -> (r: Option<usize>)
    ensures
        r == torrent_of(items@, id),
{
    let mut i: usize = 0;
    assert(items@.skip(0) =~= items@);
    while i < items.len()
        invariant
            i <= items.len(),
            torrent_of(items@, id) == torrent_of(items@.skip(i as int), id),
        decreases items.len() - i,
    {
        assert(items@.skip(i as int).drop_first() =~= items@.skip(i + 1));
        if items[i].id == id {
            return items[i].torrent_id;
        }
        i += 1;
    }
    None
}

/// What follows when a download was to be cancelled. `torrent` is the one that
/// it was seeding; it is taken out of the session.
pub fn cancel_generic_download(cancelled: bool, torrent: Option<usize>) -> (r: CommandPlan)
    ensures
        follows(r, cancelled, torrent, "Download cancelled"@, "No active download for this ID"@),
{
    plan(cancelled, torrent, "Download cancelled", "No active download for this ID")
}

/// What follows when a download was to be paused: its torrent is paused too.
pub fn pause_download(paused: bool, items: &Vec<QueueItem>, download_id: u64) -> (r: CommandPlan)
    ensures
        follows(
            r,
            paused,
            torrent_of(items@, download_id),
            "Download paused"@,
            "Download cannot be paused"@,
        ),
{
    plan(
        paused,
        find_torrent(items, download_id),
        "Download paused",
        "Download cannot be paused",
    )
}

/// What follows when a download was to be resumed: its torrent goes on too.
pub fn resume_download(resumed: bool, items: &Vec<QueueItem>, download_id: u64) -> (r: CommandPlan)
    ensures
        follows(
            r,
            resumed,
            torrent_of(items@, download_id),
            "Download resumed"@,
            "Download cannot be resumed"@,
        ),
{
    plan(
        resumed,
        find_torrent(items, download_id),
        "Download resumed",
        "Download cannot be resumed",
    )
}

/// What follows when a download was to be tried again.
pub fn retry_download(queued: bool) -> (r: CommandPlan)
    ensures
        follows(r, queued, None, "Download re-queued"@, "Download cannot be retried"@),
{
    plan(queued, None, "Download re-queued", "Download cannot be retried")
}

/// What follows when a download was to be removed. `removed` holds the torrent
/// of what was there, where something was.
pub fn remove_download(removed: Option<Option<usize>>) -> (r: CommandPlan)
    ensures
        match removed {
            Some(torrent) => follows(
                r,
                true,
                torrent,
                "Download removed"@,
                "Download not found"@,
            ),
            None => follows(r, false, None, "Download removed"@, "Download not found"@),
        },
{
    match removed {
        Some(torrent) => plan(true, torrent, "Download removed", "Download not found"),
        None => plan(false, None, "Download removed", "Download not found"),
    }
}

// ---------------------------------------------------------------------------
// Several items
// ---------------------------------------------------------------------------
/// What follows a command on every item.
#[derive(Debug)]
pub struct AllPlan {
    /// How many items it changed.
    pub count: u32,
    /// The torrents that the command extends to, in order.
    pub torrents: Vec<usize>,
}

/// The torrents among the items that a command changed, in order.
pub open spec fn torrents_of(changed: Seq<(u64, Option<usize>)>) -> Seq<usize> {
    changed.filter_map(|item: (u64, Option<usize>)| item.1)
}

/// What follows when every item was to be paused or resumed: how many there
/// were, in 32 bits, and the torrents among them.
pub fn plan_for_all(changed: &Vec<(u64, Option<usize>)>) -> (r: AllPlan)
    ensures
        r.count == changed@.len() % 0x1_0000_0000,
        r.torrents@ == torrents_of(changed@),
{
    let ghost f = |item: (u64, Option<usize>)| item.1;
    let mut torrents: Vec<usize> = Vec::new();
    let mut i: usize = 0;
    proof {
        reveal(Seq::filter_map);
        assert(changed@.take(0) =~= Seq::empty());
        assert(torrents@ =~= changed@.take(0).filter_map(f));
    }
    while i < changed.len()
        invariant
            i <= changed.len(),
            f == (|item: (u64, Option<usize>)| item.1),
            torrents@ == changed@.take(i as int).filter_map(f),
        decreases changed.len() - i,
    {
        proof {
            changed@.lemma_filter_map_take_succ(f, i as int);
        }
        if let Some(torrent) = changed[i].1 {
            torrents.push(torrent);
        }
        assert(torrents@ =~= changed@.take(i + 1).filter_map(f));
        i += 1;
    }
    assert(changed@.take(changed@.len() as int) =~= changed@);
    let n: u64 = changed.len() as u64;
    assert(n as u32 == n % 0x1_0000_0000) by (bit_vector);
    AllPlan { count: n as u32, torrents }
}

/// The items that are being downloaded; with `only`, this one alone.
pub open spec fn to_start(items: Seq<QueueItem>, only: Option<u64>) -> Seq<u64> {
    items.filter_map(
        |item: QueueItem|
            if item.status == ItemStatus::Active && (only is None || only == Some(item.id)) {
                Some(item.id)
            } else {
                None
            },
    )
}

/// The items whose download is to be started now, in order: those that the
/// queue made active; with `only`, this one alone.
pub fn ids_to_start(items: &Vec<QueueItem>, only: Option<u64>) -> (r: Vec<u64>)
    ensures
        r@ == to_start(items@, only),
{
    let ghost f = |item: QueueItem|
        if item.status == ItemStatus::Active && (only is None || only == Some(item.id)) {
            Some(item.id)
        } else {
            None
        };
    let mut r: Vec<u64> = Vec::new();
    let mut i: usize = 0;
    proof {
        reveal(Seq::filter_map);
        assert(items@.take(0) =~= Seq::empty());
        assert(r@ =~= items@.take(0).filter_map(f));
    }
    while i < items.len()
        invariant
            i <= items.len(),
            f == (|item: QueueItem|
                if item.status == ItemStatus::Active && (only is None || only == Some(item.id)) {
                    Some(item.id)
                } else {
                    None
                }),
            r@ == items@.take(i as int).filter_map(f),
        decreases items.len() - i,
    {
        let item = items[i];
        proof {
            items@.lemma_filter_map_take_succ(f, i as int);
        }
        let wanted = match only {
            Some(id) => item.id == id,
            None => true,
        };
        if item.status == ItemStatus::Active && wanted {
            r.push(item.id);
        }
        assert(r@ =~= items@.take(i + 1).filter_map(f));
        i += 1;
    }
    assert(items@.take(items@.len() as int) =~= items@);
    r
}

/// Where one download is asked for, no other is started with it.
pub proof fn law_no_other_download_starts(items: Seq<QueueItem>, id: u64)
    ensures
        forall|i: int|
            0 <= i < to_start(items, Some(id)).len() ==> #[trigger] to_start(items, Some(id))[i]
                == id,
{
    let only = Some(id);
    let f = |item: QueueItem|
        if item.status == ItemStatus::Active && (only is None || only == Some(item.id)) {
            Some(item.id)
        } else {
            None
        };
    let ids = to_start(items, only);
    assert(ids == items.filter_map(f));
    assert forall|i: int| 0 <= i < ids.len() implies #[trigger] ids[i] == id by {
        assert(ids.contains(ids[i]));
        items.lemma_filter_map_contains(f, ids[i]);
        let item = choose|item: QueueItem| #[trigger] items.contains(item) && f(item) == Some(ids[i]);
        assert(f(item) == Some(ids[i]));
    }
}

/// How long to wait before start number `i` of a series, in milliseconds: the
/// first one starts at once.
pub fn wait_before_start(i: usize, stagger_ms: u64) -> (r: Option<u64>)
    ensures
        r == (if i > 0 && stagger_ms > 0 {
            Some(stagger_ms)
        } else {
            None
        }),
{
    if i > 0 && stagger_ms > 0 {
        Some(stagger_ms)
    } else {
        None
    }
}

/// The items that are over, well or not.
pub open spec fn finished(items: Seq<QueueItem>) -> Seq<u64> {
    items.filter_map(
        |item: QueueItem|
            if item.status == ItemStatus::Complete || item.status == ItemStatus::Error {
                Some(item.id)
            } else {
                None
            },
    )
}

/// The items that are over, in order: their logs are cleared with them.
pub fn finished_ids(items: &Vec<QueueItem>) -> (r: Vec<u64>)
    ensures
        r@ == finished(items@),
{
    let ghost f = |item: QueueItem|
        if item.status == ItemStatus::Complete || item.status == ItemStatus::Error {
            Some(item.id)
        } else {
            None
        };
    let mut r: Vec<u64> = Vec::new();
    let mut i: usize = 0;
    proof {
        reveal(Seq::filter_map);
        assert(items@.take(0) =~= Seq::empty());
        assert(r@ =~= items@.take(0).filter_map(f));
    }
    while i < items.len()
        invariant
            i <= items.len(),
            f == (|item: QueueItem|
                if item.status == ItemStatus::Complete || item.status == ItemStatus::Error {
                    Some(item.id)
                } else {
                    None
                }),
            r@ == items@.take(i as int).filter_map(f),
        decreases items.len() - i,
    {
        let item = items[i];
        proof {
            items@.lemma_filter_map_take_succ(f, i as int);
        }
        if item.status == ItemStatus::Complete || item.status == ItemStatus::Error {
            r.push(item.id);
        }
        assert(r@ =~= items@.take(i + 1).filter_map(f));
        i += 1;
    }
    assert(items@.take(items@.len() as int) =~= items@);
    r
}

/// Sets how many downloads run at the same time: one to ten.
pub fn update_max_concurrent(max: u32) -> (r: Result<String, String>)
    ensures
        match r {
            Ok(text) => 1 <= max <= 10 && text@ == "Max concurrent set to "@ + decimal(max as nat),
            Err(text) => !(1 <= max <= 10) && text@ == "Value must be between 1 and 10"@,
        },
{
    if max < 1 || max > 10 {
        return Err("Value must be between 1 and 10".to_owned());
    }
    let mut text = "Max concurrent set to ".to_owned();
    text.append(decimal_text(max as u64).as_str());
    Ok(text)
}

/// How many of the outcomes are good.
pub open spec fn good(outcomes: Seq<bool>) -> nat
    decreases outcomes.len(),
{
    if outcomes.len() == 0 {
        0
    } else {
        good(outcomes.drop_last()) + (if outcomes.last() {
            1nat
        } else {
            0nat
        })
    }
}

/// How many downloads could be put back into the queue after a crash.
pub fn restored_count(outcomes: &Vec<bool>) -> (r: u32)
    requires
        outcomes@.len() <= u32::MAX,
    ensures
        r == good(outcomes@),
{
    let mut r: u32 = 0;
    let mut i: usize = 0;
    assert(outcomes@.take(0) =~= Seq::empty());
    while i < outcomes.len()
        invariant
            i <= outcomes.len() <= u32::MAX,
            r == good(outcomes@.take(i as int)),
            r <= i,
        decreases outcomes.len() - i,
    {
        assert(outcomes@.take(i + 1).drop_last() =~= outcomes@.take(i as int));
        if outcomes[i] {
            r += 1;
        }
        i += 1;
    }
    assert(outcomes@.take(outcomes@.len() as int) =~= outcomes@);
    r
}

} // verus!
