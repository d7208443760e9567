//! Settings of a download, and the limit that holds for all of them.
use vstd::prelude::*;

verus! {

/// A length of time.
#[derive(Debug, Clone, Copy, PartialEq, Eq, Structural)]
pub struct Span {
    /// Whole seconds.
    pub secs: u64,
    /// The nanoseconds above the whole seconds.
    pub nanos: u32,
}

impl Span {
    /// A length of whole seconds.
    pub open spec fn of_secs(secs: u64) -> Span {
        Span { secs, nanos: 0 }
    }

    /// A length of whole seconds.
    pub fn from_secs(secs: u64) -> (r: Span)
        ensures
            r == Span::of_secs(secs),
    {
        Span { secs, nanos: 0 }
    }

    /// The whole seconds of this length.
    pub fn as_secs(&self) -> (r: u64)
        ensures
            r == self.secs,
    {
        self.secs
    }
}

/// Smallest file that is fetched in segments.
pub const DEFAULT_MIN_SIZE_FOR_CHUNKED: u64 = 52_428_800;

/// Bytes that one segment should hold.
pub const DEFAULT_SEGMENT_SIZE_HINT: u64 = 4_194_304;

/// Segments that are fetched at the same time.
pub const DEFAULT_CONCURRENT_SEGMENTS: usize = 8;

/// Seconds to wait for a response.
pub const DEFAULT_CONNECT_TIMEOUT_SECS: u64 = 10;

/// Seconds to wait for the next bytes of a body.
pub const DEFAULT_READ_TIMEOUT_SECS: u64 = 30;

/// Attempts at one segment.
pub const DEFAULT_MAX_RETRIES_PER_SEGMENT: u32 = 3;

/// Seconds of work left above which a segment may be split.
pub const DEFAULT_STEAL_THRESHOLD_SECS: u64 = 3;

/// Fewest bytes that a split may leave on either side.
pub const DEFAULT_STEAL_MIN_CHUNK_SIZE: u64 = 524_288;

/// Seconds between two saves of the resume state.
pub const DEFAULT_RESUME_SAVE_INTERVAL_SECS: u64 = 2;

/// How a file is fetched.
#[derive(Debug, Clone, Copy, PartialEq, Eq, Structural)]
pub struct HttpFetcherConfig {
    /// Segments that are fetched at the same time.
    pub concurrent_segments: usize,
    /// Bytes that one segment should hold.
    pub segment_size_hint: u64,
    /// Smallest file that is fetched in segments.
    pub min_size_for_chunked: u64,
    /// Longest wait for a response.
    pub connect_timeout: Span,
    /// Longest wait for the next bytes of a body.
    pub read_timeout: Span,
    /// Attempts at one segment.
    pub max_retries_per_segment: u32,
    /// Time left above which a segment may be split.
    pub steal_threshold: Span,
    /// Fewest bytes that a split may leave on either side.
    pub steal_min_chunk_size: u64,
    /// Whether progress is saved beside the partial file.
    pub use_sidecar_resume: bool,
    /// Time between two saves of the resume state.
    pub resume_save_interval: Span,
    /// The size of the file, where the caller knows it. The server is not asked
    /// for it then and is taken to support ranges.
    pub known_total_bytes: Option<u64>,
}

impl HttpFetcherConfig {
    /// The settings that hold where nothing else is said.
    pub open spec fn standard() -> HttpFetcherConfig {
        HttpFetcherConfig {
            concurrent_segments: DEFAULT_CONCURRENT_SEGMENTS,
            segment_size_hint: DEFAULT_SEGMENT_SIZE_HINT,
            min_size_for_chunked: DEFAULT_MIN_SIZE_FOR_CHUNKED,
            connect_timeout: Span::of_secs(DEFAULT_CONNECT_TIMEOUT_SECS),
            read_timeout: Span::of_secs(DEFAULT_READ_TIMEOUT_SECS),
            max_retries_per_segment: DEFAULT_MAX_RETRIES_PER_SEGMENT,
            steal_threshold: Span::of_secs(DEFAULT_STEAL_THRESHOLD_SECS),
            steal_min_chunk_size: DEFAULT_STEAL_MIN_CHUNK_SIZE,
            use_sidecar_resume: true,
            resume_save_interval: Span::of_secs(DEFAULT_RESUME_SAVE_INTERVAL_SECS),
            known_total_bytes: None,
        }
    }
}

impl Default for HttpFetcherConfig {
    fn default() -> (r: Self)
        ensures
            r == HttpFetcherConfig::standard(),
    {
        HttpFetcherConfig {
            concurrent_segments: DEFAULT_CONCURRENT_SEGMENTS,
            segment_size_hint: DEFAULT_SEGMENT_SIZE_HINT,
            min_size_for_chunked: DEFAULT_MIN_SIZE_FOR_CHUNKED,
            connect_timeout: Span::from_secs(DEFAULT_CONNECT_TIMEOUT_SECS),
            read_timeout: Span::from_secs(DEFAULT_READ_TIMEOUT_SECS),
            max_retries_per_segment: DEFAULT_MAX_RETRIES_PER_SEGMENT,
            steal_threshold: Span::from_secs(DEFAULT_STEAL_THRESHOLD_SECS),
            steal_min_chunk_size: DEFAULT_STEAL_MIN_CHUNK_SIZE,
            use_sidecar_resume: true,
            resume_save_interval: Span::from_secs(DEFAULT_RESUME_SAVE_INTERVAL_SECS),
            known_total_bytes: None,
        }
    }
}

/// The limit on segments over all downloads; zero means that none is set.
#[derive(Debug, Clone, Copy, PartialEq, Eq, Structural)]
pub struct SegmentLimit {
    /// The most segments at the same time, or zero.
    pub max: usize,
}

impl SegmentLimit {
    /// No limit.
    pub fn unset() -> (r: SegmentLimit)
        ensures
            r.max == 0,
    {
        SegmentLimit { max: 0 }
    }
}

/// Sets the limit on segments; zero takes it away.
pub fn set_global_max_concurrent_segments(limit: &mut SegmentLimit, n: usize)
    ensures
        final(limit).max == n,
{
    limit.max = n;
}

/// The limit on segments, where one is set.
pub fn get_global_max_concurrent_segments(limit: &SegmentLimit) -> (r: Option<usize>)
    ensures
        r == (if limit.max == 0 {
            None
        } else {
            Some(limit.max)
        }),
{
    if limit.max == 0 {
        None
    } else {
        Some(limit.max)
    }
}

} // verus!
