//! The download of one file of a share.
use vstd::prelude::*;

use crate::filename::{law_safe_name_is_one_step, one_step, safe_name, sanitize};
use crate::http_fetcher::config::HttpFetcherConfig;
use crate::http_fetcher::failure::lemma_occurs_in_part;
use crate::http_fetcher::fetch::{known_beforehand, mode_for, FetchMode};
use crate::http_fetcher::transfer::response_fault;
use crate::link::{first_value, pair_views, query_value};
use crate::text::{contains, nonempty, nonempty_parts, occurs_at, occurs_in, opt_view, split, views};

use super::{known_size, resolved, FileView, QuarkDownloader, QuarkFile};

verus! {

/// Segments of one file that are fetched at the same time.
pub const QUARK_SEGMENTS: usize = 16;

/// Smallest file that is fetched in segments, in bytes.
pub const QUARK_MIN_CHUNKED: u64 = 5_242_880;

// ---------------------------------------------------------------------------
// Before the download
// ---------------------------------------------------------------------------
/// The file that a download is for, or what is said where there is none.
pub open spec fn file_asked_for(
    pending: Map<Seq<char>, FileView>,
    page_url: Option<Seq<char>>,
) -> Result<FileView, Seq<char>> {
    match page_url {
        Some(url) => resolved(pending, url),
        None => Err("quark download missing page_url"@),
    }
}

impl QuarkDownloader {
    /// The file that a download is for.
    pub fn file_for(&self, page_url: &Option<String>) -> (r: Result<QuarkFile, String>)
        ensures
            match r {
                Ok(file) => file_asked_for(self.pending@, opt_view(*page_url)) == Ok::<
                    _,
                    Seq<char>,
                >(file@),
                Err(e) => file_asked_for(self.pending@, opt_view(*page_url)) == Err::<FileView, _>(
                    e@,
                ),
            },
    {
        match page_url {
            Some(url) => match self.resolve(url.as_str()) {
                Ok(file) => Ok(file.clone()),
                Err(e) => Err(e),
            },
            None => Err("quark download missing page_url".to_owned()),
        }
    }
}

/// The cookie that came with the download, where one did.
pub open spec fn cookie_in(extra_headers: Option<Seq<(Seq<char>, Seq<char>)>>) -> Option<Seq<char>> {
    match extra_headers {
        Some(headers) => first_value(headers, "Cookie"@),
        None => None,
    }
}

/// The characters of headers that may be absent.
pub open spec fn opt_pairs(headers: Option<Vec<(String, String)>>) -> Option<
    Seq<(Seq<char>, Seq<char>)>,
> {
    match headers {
        Some(h) => Some(pair_views(h@)),
        None => None,
    }
}

/// The cookie that came with the download; where none did, one is to be taken
/// from the browser.
pub fn captured_cookie(extra_headers: &Option<Vec<(String, String)>>) -> (r: Option<String>)
    ensures
        opt_view(r) == cookie_in(opt_pairs(*extra_headers)),
{
    match extra_headers {
        Some(headers) => query_value(headers, "Cookie"),
        None => None,
    }
}

/// How a file of this size is fetched: in many segments from a small size on,
/// and without asking for a size that is known.
pub open spec fn quark_config(size: u64) -> HttpFetcherConfig {
    HttpFetcherConfig {
        known_total_bytes: known_size(size),
        concurrent_segments: QUARK_SEGMENTS,
        min_size_for_chunked: QUARK_MIN_CHUNKED,
        ..HttpFetcherConfig::standard()
    }
}

/// How a file is fetched.
pub fn fetch_config(file: &QuarkFile) -> (r: HttpFetcherConfig)
    ensures
        r == quark_config(file.size),
{
    HttpFetcherConfig {
        known_total_bytes: file.known_size(),
        concurrent_segments: QUARK_SEGMENTS,
        min_size_for_chunked: QUARK_MIN_CHUNKED,
        ..HttpFetcherConfig::default()
    }
}

/// The size that a listing gives is enough: the server is not asked for it, and
/// from [`QUARK_MIN_CHUNKED`] bytes on the file is fetched in segments.
pub proof fn law_listed_size_is_enough(size: u64)
    requires
        size > 0,
    ensures
        known_beforehand(quark_config(size)) matches Some(probe) && mode_for(
            probe,
            quark_config(size),
        ) == (if size >= QUARK_MIN_CHUNKED {
            FetchMode::Chunked { total: size }
        } else {
            FetchMode::Streaming
        }),
{
}

// ---------------------------------------------------------------------------
// Where the file goes
// ---------------------------------------------------------------------------
/// The steps from the output directory to the file: each folder of its path,
/// then its name, all of them made safe.
pub open spec fn steps_to(file: FileView, windows: bool) -> Seq<Seq<char>> {
    nonempty(split(file.rel_path, '/')).map_values(|step: Seq<char>| safe_name(step, windows)).push(
        safe_name(file.name, windows),
    )
}

/// The steps from the output directory to the file.
pub fn target_steps(file: &QuarkFile, windows: bool) -> (r: Vec<String>)
    ensures
        views(r@) == steps_to(file@, windows),
{
    let folders = nonempty_parts(file.rel_path.as_str(), '/');
    let ghost wanted = views(folders@).map_values(|step: Seq<char>| safe_name(step, windows));
    let mut r: Vec<String> = Vec::new();
    let mut i: usize = 0;
    assert(views(r@) =~= wanted.take(0));
    while i < folders.len()
        invariant
            i <= folders.len(),
            wanted == views(folders@).map_values(|step: Seq<char>| safe_name(step, windows)),
            views(r@) == wanted.take(i as int),
        decreases folders.len() - i,
    {
        let ghost before = views(r@);
        r.push(sanitize(folders[i].as_str(), windows));
        assert(views(r@) =~= before.push(wanted[i as int]));
        assert(wanted.take(i + 1) =~= before.push(wanted[i as int]));
        i += 1;
    }
    assert(wanted.take(wanted.len() as int) =~= wanted);
    let ghost before = views(r@);
    r.push(sanitize(file.name.as_str(), windows));
    assert(views(r@) =~= before.push(safe_name(file.name@, windows)));
    r
}

/// A file stays below the output directory, whatever the share calls it and
/// its folders: no step leads up, and none holds a separator.
pub proof fn law_target_stays_below(file: FileView, windows: bool)
    ensures
        forall|i: int|
            0 <= i < steps_to(file, windows).len() ==> one_step(
                #[trigger] steps_to(file, windows)[i],
            ),
{
    let folders = nonempty(split(file.rel_path, '/'));
    assert forall|i: int| 0 <= i < steps_to(file, windows).len() implies one_step(
        #[trigger] steps_to(file, windows)[i],
    ) by {
        if i < folders.len() {
            law_safe_name_is_one_step(folders[i], windows);
        } else {
            law_safe_name_is_one_step(file.name, windows);
        }
    }
}

// ---------------------------------------------------------------------------
// Links that expire
// ---------------------------------------------------------------------------
/// A failure that a link no longer valid explains.
pub open spec fn expired(failure: Seq<char>) -> bool {
    occurs_in(failure, "403"@) || occurs_in(failure, "expired"@) || occurs_in(failure, "412"@)
}

/// Whether a link no longer valid explains the failure.
pub fn link_expired(failure: &str) -> (r: bool)
    ensures
        r == expired(failure@),
{
    contains(failure, "403") || contains(failure, "expired") || contains(failure, "412")
}

/// What follows an attempt at a download.
#[derive(Debug)]
pub enum LinkStep {
    /// The file is there.
    Done {
        /// Its size in bytes.
        bytes: u64,
    },
    /// A new link is to be asked for, and the download tried again.
    ResolveAgain,
    /// The download has failed.
    Fail(String),
}

/// What follows the first attempt (`again` is false) or the second one: an
/// expired link is replaced once.
pub open spec fn follows_attempt(again: bool, outcome: Result<u64, Seq<char>>, step: LinkStep) -> bool {
    match outcome {
        Ok(n) => step matches LinkStep::Done { bytes } && bytes == n,
        Err(e) => if !again && expired(e) {
            step is ResolveAgain
        } else {
            step matches LinkStep::Fail(message) && message@ == e
        },
    }
}

/// The outcome of an attempt, with the message as characters.
pub open spec fn outcome_view(outcome: Result<u64, String>) -> Result<u64, Seq<char>> {
    match outcome {
        Ok(n) => Ok(n),
        Err(e) => Err(e@),
    }
}

/// Decides what follows an attempt.
pub fn after_attempt(again: bool, outcome: Result<u64, String>) -> (r: LinkStep)
    ensures
        follows_attempt(again, outcome_view(outcome), r),
{
    match outcome {
        Ok(bytes) => LinkStep::Done { bytes },
        Err(e) => {
            if !again && link_expired(e.as_str()) {
                LinkStep::ResolveAgain
            } else {
                LinkStep::Fail(e)
            }
        },
    }
}

/// A server that refuses a segment with status 403 or 412 has the link resolved
/// again, once.
pub proof fn law_refused_link_is_resolved_again(
    status: u16,
    reason: Seq<char>,
    content_type: Option<Seq<char>>,
    step: LinkStep,
)
    requires
        status == 403 || status == 412,
        follows_attempt(
            false,
            Err(
                response_fault(
                    status,
                    (if status == 403 {
                        "403"@
                    } else {
                        "412"@
                    }) + reason,
                    content_type,
                )->0,
            ),
            step,
        ),
    ensures
        step is ResolveAgain,
{
    let code = if status == 403 {
        "403"@
    } else {
        "412"@
    };
    assert(code.subrange(0, code.len() as int) =~= code);
    assert(occurs_at(code, code, 0));
    lemma_occurs_in_part("HTTP "@, code, reason, code);
    assert("HTTP "@ + code + reason =~= "HTTP "@ + (code + reason));
}

/// The second attempt decides: it never asks for a third.
pub proof fn law_second_attempt_is_last(outcome: Result<u64, Seq<char>>, step: LinkStep)
    requires
        follows_attempt(true, outcome, step),
    ensures
        step !is ResolveAgain,
{
}

} // verus!
