//! Whether a download may start, and what is then put into the queue.
use vstd::prelude::*;

use crate::link::{pair_views, url_parts};
use crate::platforms::site_of;
use crate::text::{decimal, decimal_text, opt_view, trim, trimmed, views};

use super::detect::{queue_name, queue_name_for};

verus! {

// ---------------------------------------------------------------------------
// Output paths
// ---------------------------------------------------------------------------
/// How a path exceeds what the system takes.
#[derive(Debug, Clone, Copy, PartialEq, Eq, Structural)]
pub struct PathExcess {
    /// The most characters that a path may have.
    pub limit: usize,
    /// The characters that it has.
    pub current: usize,
    /// The characters that are kept for the file name.
    pub reserve: usize,
}

/// What holds of every path on this system.
#[derive(Debug, Clone, Copy, PartialEq, Eq, Structural)]
pub struct PathRules {
    /// The most characters that a path may have.
    pub max_path_len: usize,
    /// The characters that the separator takes.
    pub separator_reserve: usize,
    /// The characters that are kept for the file name.
    pub min_filename_reserve: usize,
}

/// How an output directory stands to the limit on paths.
#[derive(Debug, Clone, Copy, PartialEq, Eq, Structural)]
pub struct PathLimitInfo {
    /// The most characters that a path may have.
    pub limit: usize,
    /// The characters that it has.
    pub current: usize,
    /// The characters that are kept for the file name.
    pub reserve: usize,
    /// The directory can be used.
    pub ok: bool,
}

/// How an output directory stands to the limit on paths. `excess` is what the
/// check of the directory found.
pub fn validate_output_path(
    output_dir: &str,
    excess: &Option<PathExcess>,
    rules: &PathRules,
) -> (r: PathLimitInfo)
    requires
        output_dir@.len() + rules.separator_reserve <= usize::MAX,
    ensures
        r == (match *excess {
            None => PathLimitInfo {
                limit: rules.max_path_len,
                current: (output_dir@.len() + rules.separator_reserve) as usize,
                reserve: rules.min_filename_reserve,
                ok: true,
            },
            Some(e) => PathLimitInfo {
                limit: e.limit,
                current: e.current,
                reserve: e.reserve,
                ok: false,
            },
        }),
{
    match excess {
        None => PathLimitInfo {
            limit: rules.max_path_len,
            current: crate::text::chars_of(output_dir).len() + rules.separator_reserve,
            reserve: rules.min_filename_reserve,
            ok: true,
        },
        Some(e) => PathLimitInfo {
            limit: e.limit,
            current: e.current,
            reserve: e.reserve,
            ok: false,
        },
    }
}

/// What is said of a path that is too long.
pub open spec fn too_long(e: PathExcess) -> Seq<char> {
    "PathTooLong|"@ + decimal(e.limit as nat) + "|"@ + decimal(e.current as nat) + "|"@ + decimal(
        e.reserve as nat,
    )
}

/// What is said of a path that is too long.
pub fn too_long_text(e: &PathExcess) -> (r: String)
    ensures
        r@ == too_long(*e),
{
    let mut r = "PathTooLong|".to_owned();
    r.append(decimal_text(e.limit as u64).as_str());
    r.append("|");
    r.append(decimal_text(e.current as u64).as_str());
    r.append("|");
    r.append(decimal_text(e.reserve as u64).as_str());
    r
}

// ---------------------------------------------------------------------------
// Admission
// ---------------------------------------------------------------------------
/// Why a download is refused, where it is: its path is too long, it is under
/// way already, or nothing can download it. The first reason counts.
pub open spec fn refusal(excess: Option<PathExcess>, under_way: bool, known: bool) -> Option<
    Seq<char>,
> {
    match excess {
        Some(e) => Some(too_long(e)),
        None => if under_way {
            Some("Download already in progress for this URL"@)
        } else if !known {
            Some("No downloader available for this URL"@)
        } else {
            None
        },
    }
}

/// Whether a download may start. `excess` is what the check of its directory
/// found, `under_way` whether the queue has its link, `known` whether there is
/// a downloader for it.
pub fn admit_download(excess: &Option<PathExcess>, under_way: bool, known: bool) -> (r: Result<
    (),
    String,
>)
    ensures
        match r {
            Ok(()) => refusal(*excess, under_way, known) is None,
            Err(e) => refusal(*excess, under_way, known) == Some(e@),
        },
{
    if let Some(e) = excess {
        return Err(too_long_text(e));
    }
    if under_way {
        return Err("Download already in progress for this URL".to_owned());
    }
    if !known {
        return Err("No downloader available for this URL".to_owned());
    }
    Ok(())
}

/// Why a download with the user's own arguments is refused, where it is: there
/// is no link, or a reason that holds for every download.
pub open spec fn custom_refusal(
    url: Seq<char>,
    excess: Option<PathExcess>,
    under_way: bool,
) -> Option<Seq<char>> {
    if trimmed(url).len() == 0 {
        Some("URL is required"@)
    } else {
        refusal(excess, under_way, true)
    }
}

/// Whether a download with the user's own arguments may start.
pub fn admit_custom_download(url: &str, excess: &Option<PathExcess>, under_way: bool) -> (r: Result<
    (),
    String,
>)
    ensures
        match r {
            Ok(()) => custom_refusal(url@, *excess, under_way) is None,
            Err(e) => custom_refusal(url@, *excess, under_way) == Some(e@),
        },
{
    if trim(url).as_str().is_empty() {
        return Err("URL is required".to_owned());
    }
    admit_download(excess, under_way, true)
}

/// How many downloads run at the same time: at least one, whatever the
/// settings say.
pub fn concurrency(max_concurrent_downloads: u32) -> (r: u32)
    ensures
        r == (if max_concurrent_downloads == 0 {
            1
        } else {
            max_concurrent_downloads
        }),
{
    if max_concurrent_downloads == 0 {
        1
    } else {
        max_concurrent_downloads
    }
}

// ---------------------------------------------------------------------------
// Requests to the queue
// ---------------------------------------------------------------------------
/// What is put into the queue for one download.
#[derive(Debug, Clone)]
pub struct EnqueueRequest {
    /// The identifier of the download.
    pub id: u64,
    /// Its link.
    pub url: String,
    /// The name of its site.
    pub platform: String,
    /// What the user reads.
    pub title: String,
    /// Where it is saved.
    pub output_dir: String,
    /// What is downloaded of it.
    pub download_mode: Option<String>,
    /// The quality that is wanted.
    pub quality: Option<String>,
    /// The format that is wanted.
    pub format_id: Option<String>,
    /// The page that it is said to come from.
    pub referer: Option<String>,
    /// Headers that go with every request.
    pub extra_headers: Option<Vec<(String, String)>>,
    /// The link by which the downloader finds it.
    pub page_url: Option<String>,
    /// The name under which the client presents itself.
    pub user_agent: Option<String>,
    /// Its size, where it is known.
    pub total_bytes: Option<u64>,
    /// The cookies that go with it.
    pub cookie_slug: Option<String>,
    /// The user's own arguments for the extractor.
    pub custom_args: Option<Vec<String>>,
}

/// An [`EnqueueRequest`] as characters and numbers.
#[verifier::ext_equal]
pub struct EnqueueView {
    /// The identifier of the download.
    pub id: u64,
    /// Its link.
    pub url: Seq<char>,
    /// The name of its site.
    pub platform: Seq<char>,
    /// What the user reads.
    pub title: Seq<char>,
    /// Where it is saved.
    pub output_dir: Seq<char>,
    /// What is downloaded of it.
    pub download_mode: Option<Seq<char>>,
    /// The quality that is wanted.
    pub quality: Option<Seq<char>>,
    /// The format that is wanted.
    pub format_id: Option<Seq<char>>,
    /// The page that it is said to come from.
    pub referer: Option<Seq<char>>,
    /// Headers that go with every request.
    pub extra_headers: Option<Seq<(Seq<char>, Seq<char>)>>,
    /// The link by which the downloader finds it.
    pub page_url: Option<Seq<char>>,
    /// The name under which the client presents itself.
    pub user_agent: Option<Seq<char>>,
    /// Its size, where it is known.
    pub total_bytes: Option<u64>,
    /// The cookies that go with it.
    pub cookie_slug: Option<Seq<char>>,
    /// The user's own arguments for the extractor.
    pub custom_args: Option<Seq<Seq<char>>>,
}

impl View for EnqueueRequest {
    type V = EnqueueView;

    open spec fn view(&self) -> EnqueueView {
        EnqueueView {
            id: self.id,
            url: self.url@,
            platform: self.platform@,
            title: self.title@,
            output_dir: self.output_dir@,
            download_mode: opt_view(self.download_mode),
            quality: opt_view(self.quality),
            format_id: opt_view(self.format_id),
            referer: opt_view(self.referer),
            extra_headers: match self.extra_headers {
                Some(h) => Some(pair_views(h@)),
                None => None,
            },
            page_url: opt_view(self.page_url),
            user_agent: opt_view(self.user_agent),
            total_bytes: self.total_bytes,
            cookie_slug: opt_view(self.cookie_slug),
            custom_args: match self.custom_args {
                Some(a) => Some(views(a@)),
                None => None,
            },
        }
    }
}

/// A request that names the link, its site and the directory, and nothing else.
/// The link stands for the title until the title is known.
pub open spec fn plain_request(
    id: u64,
    url: Seq<char>,
    platform: Seq<char>,
    output_dir: Seq<char>,
) -> EnqueueView {
    EnqueueView {
        id,
        url,
        platform,
        title: url,
        output_dir,
        download_mode: None,
        quality: None,
        format_id: None,
        referer: None,
        extra_headers: None,
        page_url: None,
        user_agent: None,
        total_bytes: None,
        cookie_slug: None,
        custom_args: None,
    }
}

/// What the user chose for a download.
#[derive(Debug, Clone)]
pub struct DownloadChoices {
    /// What is downloaded.
    pub download_mode: Option<String>,
    /// The quality that is wanted.
    pub quality: Option<String>,
    /// The format that is wanted.
    pub format_id: Option<String>,
    /// The page that it is said to come from.
    pub referer: Option<String>,
    /// The cookies that go with it.
    pub cookie_slug: Option<String>,
}

/// What is put into the queue for a link on a site of this name, with what the
/// user chose.
pub fn request_on(
    platform: String,
    id: u64,
    url: String,
    output_dir: String,
    choices: DownloadChoices,
) -> (r: EnqueueRequest)
    ensures
        r@ == (EnqueueView {
            download_mode: opt_view(choices.download_mode),
            quality: opt_view(choices.quality),
            format_id: opt_view(choices.format_id),
            referer: opt_view(choices.referer),
            cookie_slug: opt_view(choices.cookie_slug),
            ..plain_request(id, url@, platform@, output_dir@)
        }),
{
    EnqueueRequest {
        id,
        title: url.clone(),
        url,
        platform,
        output_dir,
        download_mode: choices.download_mode,
        quality: choices.quality,
        format_id: choices.format_id,
        referer: choices.referer,
        extra_headers: None,
        page_url: None,
        user_agent: None,
        total_bytes: None,
        cookie_slug: choices.cookie_slug,
        custom_args: None,
    }
}

/// What is put into the queue for a link, with what the user chose.
pub fn request_for_url(id: u64, url: String, output_dir: String, choices: DownloadChoices) -> (r:
    EnqueueRequest)
    ensures
        r@ == (EnqueueView {
            download_mode: opt_view(choices.download_mode),
            quality: opt_view(choices.quality),
            format_id: opt_view(choices.format_id),
            referer: opt_view(choices.referer),
            cookie_slug: opt_view(choices.cookie_slug),
            ..plain_request(id, url@, queue_name(site_of(url@, url_parts(url@))), output_dir@)
        }),
{
    let platform = queue_name_for(url.as_str());
    request_on(platform, id, url, output_dir, choices)
}

/// What is put into the queue for a link with the user's own arguments: the
/// extractor is asked whatever the site.
pub fn request_with_custom_args(
    id: u64,
    url: String,
    output_dir: String,
    custom_args: Vec<String>,
    cookie_slug: Option<String>,
) -> (r: EnqueueRequest)
    ensures
        r@ == (EnqueueView {
            cookie_slug: opt_view(cookie_slug),
            custom_args: Some(views(custom_args@)),
            ..plain_request(id, url@, "generic"@, output_dir@)
        }),
{
    EnqueueRequest {
        id,
        title: url.clone(),
        url,
        platform: "generic".to_owned(),
        output_dir,
        download_mode: None,
        quality: None,
        format_id: None,
        referer: None,
        extra_headers: None,
        page_url: None,
        user_agent: None,
        total_bytes: None,
        cookie_slug,
        custom_args: Some(custom_args),
    }
}

/// What the user interface is told of a download that is in the queue.
#[derive(Debug, Clone)]
pub struct DownloadStarted {
    /// The identifier of the download.
    pub id: u64,
    /// What the user reads.
    pub title: String,
}

/// What the user interface is told of a request.
pub fn started(request: &EnqueueRequest) -> (r: DownloadStarted)
    ensures
        r.id == request.id,
        r.title@ == request.title@,
{
    DownloadStarted { id: request.id, title: request.title.clone() }
}

} // verus!
