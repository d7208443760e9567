//! One download: its files, and the way in which it is fetched.
use vstd::prelude::*;
use vstd::utf8::encode_utf8;

use crate::http_fetcher::config::HttpFetcherConfig;
use crate::text::{contains, occurs_in};

verus! {

/// How many bytes a download has written.
#[derive(Debug, Clone, Copy, PartialEq, Eq, Structural)]
pub struct HttpFetcherResult {
    /// Bytes of the file.
    pub bytes_written: u64,
}

/// A file to download.
#[derive(Debug, Clone)]
pub struct HttpFetcher {
    /// Where the file is.
    pub url: String,
    /// Where the file goes.
    pub output_path: String,
    /// Names and values of the headers that every request carries.
    pub headers: Option<Vec<(String, String)>>,
    /// How the file is fetched.
    pub config: HttpFetcherConfig,
}

impl HttpFetcher {
    /// A file to download with the standard settings and no headers.
    pub fn new(url: String, output_path: String) -> (r: HttpFetcher)
        ensures
            r.url == url,
            r.output_path == output_path,
            r.headers is None,
            r.config == HttpFetcherConfig::standard(),
    {
        HttpFetcher { url, output_path, headers: None, config: HttpFetcherConfig::default() }
    }

    /// The same download with these headers.
    pub fn with_headers(self, headers: Vec<(String, String)>) -> (r: HttpFetcher)
        ensures
            r == (HttpFetcher { headers: Some(headers), ..self }),
    {
        HttpFetcher {
            url: self.url,
            output_path: self.output_path,
            headers: Some(headers),
            config: self.config,
        }
    }

    /// The same download with these settings.
    pub fn with_config(self, config: HttpFetcherConfig) -> (r: HttpFetcher)
        ensures
            r == (HttpFetcher { config, ..self }),
    {
        HttpFetcher { url: self.url, output_path: self.output_path, headers: self.headers, config }
    }

    /// Where the file goes.
    pub fn output_path(&self) -> (r: &str)
        ensures
            r@ == self.output_path@,
    {
        self.output_path.as_str()
    }
}

// ---------------------------------------------------------------------------
// Names of files
// ---------------------------------------------------------------------------
/// The file that holds a download until it is complete.
pub fn part_path_for(output: &str) -> (r: String)
    ensures
        r@ == output@ + ".part"@,
{
    let mut s = output.to_string();
    s.append(".part");
    s
}

/// The file that holds the progress of a download.
pub fn sidecar_path_for(part_path: &str) -> (r: String)
    ensures
        r@ == part_path@ + ".resume.json"@,
{
    let mut s = part_path.to_string();
    s.append(".resume.json");
    s
}

/// The file that the progress is written to before it takes its place.
pub fn sidecar_draft_path_for(sidecar_path: &str) -> (r: String)
    ensures
        r@ == sidecar_path@ + ".tmp"@,
{
    let mut s = sidecar_path.to_string();
    s.append(".tmp");
    s
}

/// The SHA-256 digest of bytes.
pub uninterp spec fn sha256(data: Seq<u8>) -> Seq<u8>;

/// `sha2::Sha256`, over all bytes at once: the digest, named by [`sha256`],
/// which has thirty-two bytes.
#[verifier::external_body]
fn sha256_digest(data: &[u8]) -> (r: Vec<u8>)
    ensures
        r@ == sha256(data@),
        r@.len() == 32,
{
    <sha2::Sha256 as sha2::Digest>::digest(data).to_vec()
}

/// A number below sixteen as a hexadecimal digit in lower case.
pub open spec fn hex_char(n: int) -> char {
    if n < 10 {
        ('0' as u32 + n) as char
    } else {
        ('a' as u32 + n - 10) as char
    }
}

/// Bytes in hexadecimal digits, two for each.
pub open spec fn hex_text(data: Seq<u8>) -> Seq<char>
    decreases data.len(),
{
    if data.len() == 0 {
        Seq::empty()
    } else {
        hex_text(data.drop_last()).push(hex_char(data.last() as int / 16)).push(
            hex_char(data.last() as int % 16),
        )
    }
}

fn hex_digit(n: u8) -> (r: char)
    requires
        n < 16,
    ensures
        r == hex_char(n as int),
{
    match n {
        0 => '0',
        1 => '1',
        2 => '2',
        3 => '3',
        4 => '4',
        5 => '5',
        6 => '6',
        7 => '7',
        8 => '8',
        9 => '9',
        10 => 'a',
        11 => 'b',
        12 => 'c',
        13 => 'd',
        14 => 'e',
        _ => 'f',
    }
}

/// The first eight bytes of a digest in hexadecimal digits.
pub fn short_digest(digest: &[u8]) -> (r: String)
    requires
        digest.len() >= 8,
    ensures
        r@ == hex_text(digest@.take(8)),
        r@.len() == 16,
{
    let mut s = String::new();
    let mut i: usize = 0;
    while i < 8
        invariant
            i <= 8,
            digest.len() >= 8,
            s@ == hex_text(digest@.take(i as int)),
            s@.len() == 2 * i,
        decreases 8 - i,
    {
        let b = digest[i];
        assert(digest@.take(i + 1).drop_last() == digest@.take(i as int));
        s.push(hex_digit(b / 16));
        s.push(hex_digit(b % 16));
        i += 1;
    }
    s
}

/// What tells the address of a file from another one: sixteen hexadecimal
/// digits of its SHA-256 digest.
pub fn url_hash(url: &str) -> (r: String)
    ensures
        r@ == hex_text(sha256(encode_utf8(url@)).take(8)),
        r@.len() == 16,
{
    let digest = sha256_digest(url.as_bytes());
    short_digest(&digest)
}

// ---------------------------------------------------------------------------
// The way to fetch
// ---------------------------------------------------------------------------
/// What is known of the file before it is fetched.
#[derive(Debug, Clone, Copy, PartialEq, Eq, Structural)]
pub struct ProbeResult {
    /// The size of the file, where the server says it.
    pub content_length: Option<u64>,
    /// Whether parts of the file can be asked for.
    pub accept_ranges: bool,
}

/// The way in which a file is fetched.
#[derive(Debug, Clone, Copy, PartialEq, Eq, Structural)]
pub enum FetchMode {
    /// In one piece.
    Streaming,
    /// In segments.
    Chunked {
        /// Bytes of the file.
        total: u64,
    },
}

/// What is known of the file without asking the server: the size that the
/// caller gives. Where it is given, the server is not asked.
pub open spec fn known_beforehand(cfg: HttpFetcherConfig) -> Option<ProbeResult> {
    match cfg.known_total_bytes {
        Some(t) => Some(ProbeResult { content_length: Some(t), accept_ranges: true }),
        None => None,
    }
}

/// What is known of the file without asking the server.
pub fn known_probe(cfg: &HttpFetcherConfig) -> (r: Option<ProbeResult>)
    ensures
        r == known_beforehand(*cfg),
{
    match cfg.known_total_bytes {
        Some(t) => Some(ProbeResult { content_length: Some(t), accept_ranges: true }),
        None => None,
    }
}

/// The answer to a question for the size and for ranges.
pub open spec fn head_answer(
    success: bool,
    content_length: Option<u64>,
    accept_ranges: Option<Seq<char>>,
) -> Option<ProbeResult> {
    if success {
        Some(
            ProbeResult {
                content_length,
                accept_ranges: accept_ranges matches Some(v) && occurs_in(v, "bytes"@),
            },
        )
    } else {
        None
    }
}

/// Reads the answer to a question for the size and for ranges.
pub fn probe_from_head(
    success: bool,
    status_text: &str,
    content_length: Option<u64>,
    accept_ranges: Option<&str>,
) -> (r: Result<ProbeResult, String>)
    ensures
        match r {
            Ok(p) => head_answer(
                success,
                content_length,
                match accept_ranges {
                    Some(v) => Some(v@),
                    None => None,
                },
            ) == Some(p),
            Err(e) => !success && e@ == "HEAD returned HTTP "@ + status_text@,
        },
{
    if !success {
        let mut e = "HEAD returned HTTP ".to_string();
        e.append(status_text);
        return Err(e);
    }
    let accept_ranges = match accept_ranges {
        Some(v) => contains(v, "bytes"),
        None => false,
    };
    Ok(ProbeResult { content_length, accept_ranges })
}

/// What is said where the server did not answer a question for the size: why,
/// where there is a reason, or else that it took too long.
pub fn probe_failure(error: Option<&str>) -> (r: String)
    ensures
        r@ == (match error {
            Some(e) => "HEAD probe failed: "@ + e@,
            None => "HEAD probe timed out"@,
        }),
{
    match error {
        Some(e) => {
            let mut r = "HEAD probe failed: ".to_string();
            r.append(e);
            r
        },
        None => "HEAD probe timed out".to_string(),
    }
}

/// The way in which a file is fetched: in segments where its size is known and
/// large enough and the server gives out parts.
pub open spec fn mode_for(probe: ProbeResult, cfg: HttpFetcherConfig) -> FetchMode {
    match probe.content_length {
        Some(t) => if t > 0 && probe.accept_ranges && t >= cfg.min_size_for_chunked {
            FetchMode::Chunked { total: t }
        } else {
            FetchMode::Streaming
        },
        None => FetchMode::Streaming,
    }
}

/// The way in which a file is fetched.
pub fn choose_mode(probe: &ProbeResult, cfg: &HttpFetcherConfig) -> (r: FetchMode)
    ensures
        r == mode_for(*probe, *cfg),
{
    let total: u64 = match probe.content_length {
        Some(t) => t,
        None => {
            return FetchMode::Streaming;
        },
    };
    if total == 0 || !probe.accept_ranges || total < cfg.min_size_for_chunked {
        return FetchMode::Streaming;
    }
    FetchMode::Chunked { total }
}

/// A size that the caller gives is believed: the server is not asked, whatever
/// the size is, and a file that is large enough is fetched in segments of just
/// that many bytes.
pub proof fn law_given_size_is_believed(cfg: HttpFetcherConfig)
    ensures
        known_beforehand(cfg) is Some <==> cfg.known_total_bytes is Some,
        known_beforehand(cfg) matches Some(probe) ==> mode_for(probe, cfg) == (
        if cfg.known_total_bytes->0 > 0 && cfg.known_total_bytes->0 >= cfg.min_size_for_chunked {
            FetchMode::Chunked { total: cfg.known_total_bytes->0 }
        } else {
            FetchMode::Streaming
        }),
{
}

/// Whether the file for a download has to be made anew: it is missing or has
/// another size than the download.
pub fn needs_part_file(existing: Option<u64>, total: u64) -> (r: bool)
    ensures
        r == (existing != Some(total)),
{
    match existing {
        Some(len) => len != total,
        None => true,
    }
}

/// What is said where a complete file cannot be given its name.
pub fn rename_failure(error: &str) -> (r: String)
    ensures
        r@ == "rename .part to final failed: "@ + error@,
{
    let mut r = "rename .part to final failed: ".to_string();
    r.append(error);
    r
}

/// How many bytes a download in segments has written: those of the file, or
/// those that it should have where the file cannot be asked.
pub fn chunked_result(found: Option<u64>, total: u64) -> (r: HttpFetcherResult)
    ensures
        r.bytes_written == found.unwrap_or(total),
{
    let bytes_written: u64 = match found {
        Some(n) => n,
        None => total,
    };
    HttpFetcherResult { bytes_written }
}

/// The workers that fetch a file in segments.
pub fn worker_count(cfg: &HttpFetcherConfig) -> (r: usize)
    ensures
        r == (if cfg.concurrent_segments == 0 {
            1
        } else {
            cfg.concurrent_segments
        }),
{
    if cfg.concurrent_segments == 0 {
        1
    } else {
        cfg.concurrent_segments
    }
}

} // verus!
