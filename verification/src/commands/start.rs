//! The start of a download, question by question.
//!
//! The output directory is checked first. Then the queue is asked whether it
//! has the link already, and, where the site decides who downloads it, whether
//! there is a downloader. Only then is the download put into the queue; what may
//! run is made active, and the download itself is started if it is among that.
use vstd::prelude::*;

use crate::link::url_parts;
use crate::platforms::site_of;
use crate::text::{opt_view, views};

use super::admission::{
    admit_custom_download, admit_download, custom_refusal, plain_request, refusal, request_for_url,
    request_with_custom_args, DownloadChoices, EnqueueRequest, EnqueueView, PathExcess,
};
use super::detect::queue_name;
use super::ids::{id_after, next_download_id, DownloadIds};
use super::queue::{ids_to_start, to_start, QueueItem};

verus! {

/// What the start of a download waits for.
#[derive(Debug, Clone, Copy, PartialEq, Eq, Structural)]
pub enum StartStage {
    /// Whether the queue has the link.
    AskQueue,
    /// Whether there is a downloader.
    FindDownloader,
    /// That the download is in the queue.
    Enqueue,
    /// That what may run is active.
    Activate,
    /// Nothing: the download is in the queue, and what could start was started.
    Started,
    /// Nothing: the download was refused.
    Refused,
}

/// An answer that the start of a download waited for.
#[derive(Debug)]
pub enum StartEvent {
    /// The queue has the link, or not.
    Queue {
        /// It has.
        has_url: bool,
    },
    /// There is a downloader, or not.
    Downloader {
        /// There is.
        found: bool,
    },
    /// The download is in the queue; these may run.
    Enqueued {
        /// Their identifiers.
        next: Vec<u64>,
    },
    /// They are active; this is the queue.
    Activated {
        /// Its items.
        items: Vec<QueueItem>,
    },
}

/// What is to be done next.
#[derive(Debug)]
pub enum StartAction {
    /// Look for a downloader.
    FindDownloader,
    /// Put the request into the queue.
    Enqueue,
    /// Make these active and show the queue.
    Activate(Vec<u64>),
    /// Start these.
    Start(Vec<u64>),
    /// Tell the user why there is no download.
    Refuse(String),
}

impl StartStage {
    /// The answer is the one that the stage waits for.
    pub open spec fn expects(self, event: StartEvent) -> bool {
        match event {
            StartEvent::Queue { .. } => self == StartStage::AskQueue,
            StartEvent::Downloader { .. } => self == StartStage::FindDownloader,
            StartEvent::Enqueued { .. } => self == StartStage::Enqueue,
            StartEvent::Activated { .. } => self == StartStage::Activate,
        }
    }
}

/// The stage that an answer leads to. A `fixed` downloader is not looked for.
pub open spec fn stage_after(fixed: bool, event: StartEvent) -> StartStage {
    match event {
        StartEvent::Queue { has_url } => if has_url {
            StartStage::Refused
        } else if fixed {
            StartStage::Enqueue
        } else {
            StartStage::FindDownloader
        },
        StartEvent::Downloader { found } => if found {
            StartStage::Enqueue
        } else {
            StartStage::Refused
        },
        StartEvent::Enqueued { .. } => StartStage::Activate,
        StartEvent::Activated { .. } => StartStage::Started,
    }
}

/// What an answer leads to, for the download `id`.
pub open spec fn leads_to(fixed: bool, id: u64, event: StartEvent, action: StartAction) -> bool {
    match event {
        StartEvent::Queue { has_url } => match refusal(None, has_url, true) {
            Some(text) => action matches StartAction::Refuse(e) && e@ == text,
            None => if fixed {
                action is Enqueue
            } else {
                action is FindDownloader
            },
        },
        StartEvent::Downloader { found } => match refusal(None, false, found) {
            Some(text) => action matches StartAction::Refuse(e) && e@ == text,
            None => action is Enqueue,
        },
        StartEvent::Enqueued { next } => action matches StartAction::Activate(ids) && ids@ == next@,
        StartEvent::Activated { items } => action matches StartAction::Start(ids) && ids@
            == to_start(items@, Some(id)),
    }
}

/// A download that is about to start.
#[derive(Debug)]
pub struct StartFlow {
    /// What it waits for.
    pub stage: StartStage,
    /// Its downloader is fixed and need not be looked for.
    pub fixed: bool,
    /// What is put into the queue for it.
    pub request: EnqueueRequest,
}

/// Begins the download of a link, unless its path is too long.
pub fn download_from_url(
    ids: &mut DownloadIds,
    excess: &Option<PathExcess>,
    url: String,
    output_dir: String,
    choices: DownloadChoices,
) -> (r: Result<StartFlow, String>)
    requires
        refusal(*excess, false, true) is None ==> old(ids).last < u64::MAX,
    ensures
        match r {
            Ok(flow) => {
                &&& refusal(*excess, false, true) is None
                &&& flow.stage == StartStage::AskQueue
                &&& !flow.fixed
                &&& exists|now_ms: u64|
                    flow.request.id == #[trigger] id_after(old(ids).last, now_ms)
                &&& final(ids).last == flow.request.id
                &&& flow.request@ == (EnqueueView {
                    download_mode: opt_view(choices.download_mode),
                    quality: opt_view(choices.quality),
                    format_id: opt_view(choices.format_id),
                    referer: opt_view(choices.referer),
                    cookie_slug: opt_view(choices.cookie_slug),
                    ..plain_request(
                        flow.request.id,
                        url@,
                        queue_name(site_of(url@, url_parts(url@))),
                        output_dir@,
                    )
                })
            },
            Err(e) => {
                &&& refusal(*excess, false, true) == Some(e@)
                &&& *final(ids) == *old(ids)
            },
        },
{
    if let Err(e) = admit_download(excess, false, true) {
        return Err(e);
    }
    let id = next_download_id(ids);
    let request = request_for_url(id, url, output_dir, choices);
    Ok(StartFlow { stage: StartStage::AskQueue, fixed: false, request })
}

/// Begins a download with the user's own arguments, unless there is no link
/// or its path is too long.
pub fn download_with_custom_args(
    ids: &mut DownloadIds,
    excess: &Option<PathExcess>,
    url: String,
    output_dir: String,
    custom_args: Vec<String>,
    cookie_slug: Option<String>,
) -> (r: Result<StartFlow, String>)
    requires
        custom_refusal(url@, *excess, false) is None ==> old(ids).last < u64::MAX,
    ensures
        match r {
            Ok(flow) => {
                &&& custom_refusal(url@, *excess, false) is None
                &&& flow.stage == StartStage::AskQueue
                &&& flow.fixed
                &&& exists|now_ms: u64|
                    flow.request.id == #[trigger] id_after(old(ids).last, now_ms)
                &&& final(ids).last == flow.request.id
                &&& flow.request@ == (EnqueueView {
                    cookie_slug: opt_view(cookie_slug),
                    custom_args: Some(views(custom_args@)),
                    ..plain_request(flow.request.id, url@, "generic"@, output_dir@)
                })
            },
            Err(e) => {
                &&& custom_refusal(url@, *excess, false) == Some(e@)
                &&& *final(ids) == *old(ids)
            },
        },
{
    if let Err(e) = admit_custom_download(url.as_str(), excess, false) {
        return Err(e);
    }
    let id = next_download_id(ids);
    let request = request_with_custom_args(id, url, output_dir, custom_args, cookie_slug);
    Ok(StartFlow { stage: StartStage::AskQueue, fixed: true, request })
}

impl StartFlow {
    /// Goes on with an answer.
    pub fn step(&mut self, event: StartEvent) -> (r: StartAction)
        requires
            old(self).stage.expects(event),
        ensures
            leads_to(old(self).fixed, old(self).request.id, event, r),
            final(self).stage == stage_after(old(self).fixed, event),
            final(self).fixed == old(self).fixed,
            final(self).request == old(self).request,
    {
        match event {
            StartEvent::Queue { has_url } => match admit_download(&None, has_url, true) {
                Err(e) => {
                    self.stage = StartStage::Refused;
                    StartAction::Refuse(e)
                },
                Ok(()) => {
                    if self.fixed {
                        self.stage = StartStage::Enqueue;
                        StartAction::Enqueue
                    } else {
                        self.stage = StartStage::FindDownloader;
                        StartAction::FindDownloader
                    }
                },
            },
            StartEvent::Downloader { found } => match admit_download(&None, false, found) {
                Err(e) => {
                    self.stage = StartStage::Refused;
                    StartAction::Refuse(e)
                },
                Ok(()) => {
                    self.stage = StartStage::Enqueue;
                    StartAction::Enqueue
                },
            },
            StartEvent::Enqueued { next } => {
                self.stage = StartStage::Activate;
                StartAction::Activate(next)
            },
            StartEvent::Activated { items } => {
                self.stage = StartStage::Started;
                StartAction::Start(ids_to_start(&items, Some(self.request.id)))
            },
        }
    }
}

/// The answers follow each other: each is the one that was waited for.
pub open spec fn in_turn(fixed: bool, events: Seq<StartEvent>) -> bool {
    &&& events.len() > 0 ==> StartStage::AskQueue.expects(events[0])
    &&& forall|i: int|
        0 <= i < events.len() - 1 ==> stage_after(fixed, #[trigger] events[i]).expects(events[i + 1])
}

/// Nothing is put into the queue unless the queue does not have the link yet and
/// there is a downloader for it.
pub proof fn law_queueing_needs_every_answer(fixed: bool, events: Seq<StartEvent>)
    requires
        in_turn(fixed, events),
        events.len() > 0,
        stage_after(fixed, events.last()) == StartStage::Enqueue,
    ensures
        events[0] == (StartEvent::Queue { has_url: false }),
        !fixed ==> events.len() == 2 && events[1] == (StartEvent::Downloader { found: true }),
        fixed ==> events.len() == 1,
{
    if events.len() > 1 {
        assert(stage_after(fixed, events[0]).expects(events[1]));
        if events.len() > 2 {
            assert(stage_after(fixed, events[1]).expects(events[2]));
            lemma_later_events(fixed, events, 2);
        }
    }
}

/// From the third answer on, nothing more is put into the queue.
proof fn lemma_later_events(fixed: bool, events: Seq<StartEvent>, i: int)
    requires
        in_turn(fixed, events),
        2 <= i < events.len(),
        events[i] is Enqueued || events[i] is Activated,
    ensures
        events.last() is Enqueued || events.last() is Activated,
    decreases events.len() - i,
{
    if i < events.len() - 1 {
        assert(stage_after(fixed, events[i]).expects(events[i + 1]));
        lemma_later_events(fixed, events, i + 1);
    }
}

/// A refused download is over: no answer is waited for.
pub proof fn law_refusal_is_final(fixed: bool, event: StartEvent, next: StartEvent)
    requires
        stage_after(fixed, event) == StartStage::Refused,
    ensures
        !stage_after(fixed, event).expects(next),
{
}

} // verus!
