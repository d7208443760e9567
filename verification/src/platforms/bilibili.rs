//! Videos and series of Bilibili: which links are its own, what the extractor
//! says of a video, and in which forms it can be had.
use vstd::prelude::*;

use crate::json::Json;
use crate::link::{parse_parts, url_parts, UrlParts, UrlView};
use crate::media::{quality_views, MediaInfo, MediaType, MediaView, QualityView, VideoQuality};
use crate::text::{
    contains, decimal, decimal_text, lowercase, number_in, occurs_in, opt_view, parse_number, same,
    starts_with, strip_tails, to_lowercase, views, without_tails,
};

verus! {

/// The page that requests are said to come from.
pub const BILIBILI_REFERER: &'static str = "https://www.bilibili.com";

/// The downloader of Bilibili's videos and series.
pub struct BilibiliDownloader;

impl Default for BilibiliDownloader {
    fn default() -> (r: Self)
        ensures
            r == BilibiliDownloader,
    {
        BilibiliDownloader
    }
}

// ---------------------------------------------------------------------------
// Links
// ---------------------------------------------------------------------------
/// A path that leads to a series or a list rather than to one video.
pub open spec fn series_path(path: Seq<char>) -> bool {
    ||| "/bangumi/"@.is_prefix_of(path)
    ||| "/cheese/"@.is_prefix_of(path)
    ||| occurs_in(path, "/channel/"@)
    ||| occurs_in(path, "/favlist/"@)
    ||| occurs_in(path, "/medialist/"@)
}

/// Whether a path leads to a series or a list.
pub fn is_series_path(path: &str) -> (r: bool)
    ensures
        r == series_path(path@),
{
    starts_with(path, "/bangumi/") || starts_with(path, "/cheese/") || contains(path, "/channel/")
        || contains(path, "/favlist/") || contains(path, "/medialist/")
}

/// A host of the site, in lower case.
pub open spec fn own_host(host: Seq<char>) -> bool {
    ||| occurs_in(host, "bilibili.com"@)
    ||| occurs_in(host, "bilibili.tv"@)
    ||| host == "b23.tv"@
}

/// A link that names a host of the site.
pub open spec fn own_link(parts: UrlView) -> bool {
    match parts.host {
        Some(host) => own_host(lowercase(host)),
        None => false,
    }
}

/// Whether the parts of a link name a host of the site.
pub fn is_own_link(parts: &UrlParts) -> (r: bool)
    ensures
        r == own_link(parts@),
{
    match &parts.host {
        Some(host) => {
            let host = to_lowercase(host.as_str());
            contains(host.as_str(), "bilibili.com") || contains(host.as_str(), "bilibili.tv")
                || same(host.as_str(), "b23.tv")
        },
        None => false,
    }
}

// ---------------------------------------------------------------------------
// What the extractor says of a video
// ---------------------------------------------------------------------------
/// The low 32 bits of a number.
pub open spec fn low_32(n: u64) -> u32 {
    (n % 0x1_0000_0000) as u32
}

/// The number in a field, in 32 bits; zero where there is none.
pub open spec fn pixels(format: Json, key: Seq<char>) -> u32 {
    low_32(format.whole_of(key).unwrap_or(0))
}

/// The number in a field, in 32 bits; zero where there is none.
fn pixels_in(format: &Json, key: &str) -> (r: u32)
    ensures
        r == pixels(*format, key@),
{
    let n: u64 = match format.get(key) {
        Some(v) => match v.as_u64() {
            Some(n) => n,
            None => 0,
        },
        None => 0,
    };
    assert(n as u32 == n % 0x1_0000_0000) by (bit_vector);
    n as u32
}

/// A format carries a picture: it names a codec for it.
pub open spec fn has_picture(format: Json) -> bool {
    format.chars_of("vcodec"@).unwrap_or("none"@) != "none"@
}

/// Whether a format carries a picture.
fn carries_picture(format: &Json) -> (r: bool)
    ensures
        r == has_picture(*format),
{
    !same(format.text_or("vcodec", "none").as_str(), "none")
}

/// Width and height of the picture of a format, where it has one of known
/// height.
pub open spec fn picture(format: Json) -> Option<(u32, u32)> {
    if pixels(format, "height"@) != 0 && has_picture(format) {
        Some((pixels(format, "width"@), pixels(format, "height"@)))
    } else {
        None
    }
}

/// Some picture of the list has this height.
pub open spec fn has_height(sizes: Seq<(u32, u32)>, height: u32) -> bool {
    exists|i: int| 0 <= i < sizes.len() && (#[trigger] sizes[i]).1 == height
}

/// The first picture of each height, in the order of the formats.
pub open spec fn firsts(formats: Seq<Json>) -> Seq<(u32, u32)>
    decreases formats.len(),
{
    if formats.len() == 0 {
        Seq::empty()
    } else {
        let before = firsts(formats.drop_last());
        match picture(formats.last()) {
            Some(size) => if has_height(before, size.1) {
                before
            } else {
                before.push(size)
            },
            None => before,
        }
    }
}

/// No two pictures of the list have the same height.
pub open spec fn distinct_heights(sizes: Seq<(u32, u32)>) -> bool {
    forall|i: int, j: int|
        0 <= i < j < sizes.len() ==> (#[trigger] sizes[i]).1 != (#[trigger] sizes[j]).1
}

/// The same pictures, the highest first.
pub open spec fn ranked(sizes: Seq<(u32, u32)>, of: Seq<(u32, u32)>) -> bool {
    &&& sizes.to_multiset() == of.to_multiset()
    &&& forall|i: int, j: int|
        0 <= i < j < sizes.len() ==> (#[trigger] sizes[i]).1 >= (#[trigger] sizes[j]).1
}

/// The name of a height.
pub open spec fn height_label(height: u32) -> Seq<char> {
    if height == 2160 {
        "4K"@
    } else if height == 1440 {
        "2K"@
    } else {
        decimal(height as nat) + "p"@
    }
}

/// The name of a height.
pub fn label_for(height: u32) -> (r: String)
    ensures
        r@ == height_label(height),
{
    if height == 2160 {
        "4K".to_owned()
    } else if height == 1440 {
        "2K".to_owned()
    } else {
        let mut r = decimal_text(height as u64);
        r.append("p");
        r
    }
}

/// A picture as one of the forms of a video.
pub open spec fn form_of(size: (u32, u32), url: Seq<char>) -> QualityView {
    QualityView {
        label: height_label(size.1),
        width: size.0,
        height: size.1,
        url,
        format: "mp4"@,
    }
}

/// The one form of a video of which no picture is known.
pub open spec fn best_form(url: Seq<char>) -> QualityView {
    QualityView { label: "best"@, width: 0, height: 0, url, format: "mp4"@ }
}

/// The forms in which a video can be had: one for each height, the highest
/// first, or the best there is where no height is known.
pub open spec fn forms(qualities: Seq<QualityView>, formats: Seq<Json>, url: Seq<char>) -> bool {
    if firsts(formats).len() == 0 {
        qualities == seq![best_form(url)]
    } else {
        exists|sizes: Seq<(u32, u32)>| #[trigger]
            ranked(sizes, firsts(formats)) && qualities == sizes.map_values(
                |size: (u32, u32)| form_of(size, url),
            )
    }
}

/// The formats that the extractor lists.
pub open spec fn formats_of(video: Json) -> Seq<Json> {
    match video.named("formats"@) {
        Some(v) => v.items().unwrap_or(Seq::empty()),
        None => Seq::empty(),
    }
}

/// What is known of a video, from what the extractor says of it.
pub open spec fn describes(info: MediaView, video: Json, url: Seq<char>) -> bool {
    let formats = formats_of(video);
    &&& info.title == video.chars_of("title"@).unwrap_or("Bilibili Video"@)
    &&& info.author == video.chars_of("uploader"@).unwrap_or("Unknown"@)
    &&& info.platform == "bilibili"@
    &&& info.thumbnail_url == video.chars_of("thumbnail"@)
    &&& forms(info.available_qualities, formats, url)
    &&& info.media_type == (if exists|i: int|
        0 <= i < formats.len() && has_picture(#[trigger] formats[i]) {
        MediaType::Video
    } else {
        MediaType::Audio
    })
    &&& info.file_size_bytes is None
}

/// The first picture of each height, in the order of the formats.
pub fn first_pictures(formats: &Vec<Json>) -> (r: Vec<(u32, u32)>)
    ensures
        r@ == firsts(formats@),
{
    let mut r: Vec<(u32, u32)> = Vec::new();
    let mut i: usize = 0;
    while i < formats.len()
        invariant
            i <= formats.len(),
            r@ == firsts(formats@.take(i as int)),
        decreases formats.len() - i,
    {
        let format = &formats[i];
        assert(formats@.take(i + 1).drop_last() =~= formats@.take(i as int));
        let height = pixels_in(format, "height");
        if height != 0 && carries_picture(format) {
            let mut seen = false;
            let mut k: usize = 0;
            while k < r.len()
                invariant
                    k <= r.len(),
                    seen == has_height(r@.take(k as int), height),
                decreases r.len() - k,
            {
                assert(r@.take(k + 1)[k as int] == r@[k as int]);
                assert(forall|m: int| 0 <= m < k ==> r@.take(k + 1)[m] == #[trigger] r@.take(k as int)[m]);
                assert(forall|m: int| 0 <= m < k ==> #[trigger] r@.take(k + 1)[m] == r@.take(k as int)[m]);
                if r[k].1 == height {
                    seen = true;
                }
                k += 1;
            }
            assert(r@.take(r@.len() as int) =~= r@);
            if !seen {
                r.push((pixels_in(format, "width"), height));
            }
        }
        i += 1;
    }
    assert(formats@.take(formats@.len() as int) =~= formats@);
    r
}

/// The same pictures, the highest first; those of one height keep their order.
pub fn rank(sizes: &Vec<(u32, u32)>) -> (r: Vec<(u32, u32)>)
    ensures
        ranked(r@, sizes@),
        r.len() == sizes.len(),
{
    let mut r: Vec<(u32, u32)> = Vec::new();
    let mut i: usize = 0;
    assert(r@ =~= sizes@.take(0));
    while i < sizes.len()
        invariant
            i <= sizes.len(),
            r.len() == i,
            ranked(r@, sizes@.take(i as int)),
        decreases sizes.len() - i,
    {
        let size = sizes[i];
        let ghost before = r@;
        let mut at: usize = r.len();
        while at > 0 && r[at - 1].1 < size.1
            invariant
                at <= r.len(),
                r@ == before,
                forall|j: int| at <= j < r.len() ==> (#[trigger] r@[j]).1 < size.1,
            decreases at,
        {
            at -= 1;
        }
        r.insert(at, size);
        proof {
            vstd::seq_lib::to_multiset_insert(before, at as int, size);
            vstd::seq_lib::to_multiset_build(sizes@.take(i as int), size);
            assert(sizes@.take(i + 1) =~= sizes@.take(i as int).push(size));
        }
        i += 1;
    }
    assert(sizes@.take(sizes@.len() as int) =~= sizes@);
    r
}

/// The forms in which a video can be had.
pub fn video_forms(formats: &Vec<Json>, url: &str) -> (r: Vec<VideoQuality>)
    ensures
        forms(quality_views(r@), formats@, url@),
{
    let sizes = rank(&first_pictures(formats));
    let mut r: Vec<VideoQuality> = Vec::new();
    if sizes.len() == 0 {
        r.push(
            VideoQuality {
                label: "best".to_owned(),
                width: 0,
                height: 0,
                url: url.to_owned(),
                format: "mp4".to_owned(),
            },
        );
        assert(quality_views(r@) =~= seq![best_form(url@)]);
        return r;
    }
    let ghost wanted = sizes@.map_values(|size: (u32, u32)| form_of(size, url@));
    let mut i: usize = 0;
    while i < sizes.len()
        invariant
            i <= sizes.len(),
            wanted == sizes@.map_values(|size: (u32, u32)| form_of(size, url@)),
            quality_views(r@) =~= wanted.take(i as int),
        decreases sizes.len() - i,
    {
        let (width, height) = sizes[i];
        let ghost before = quality_views(r@);
        r.push(
            VideoQuality {
                label: label_for(height),
                width,
                height,
                url: url.to_owned(),
                format: "mp4".to_owned(),
            },
        );
        assert(r@.last()@ =~= wanted[i as int]);
        assert(quality_views(r@) =~= before.push(wanted[i as int]));
        assert(wanted.take(i + 1) =~= before.push(wanted[i as int]));
        i += 1;
    }
    assert(wanted.take(wanted.len() as int) =~= wanted);
    r
}

/// Whether some format carries a picture.
fn any_picture(formats: &Vec<Json>) -> (r: bool)
    ensures
        r == exists|i: int| 0 <= i < formats@.len() && has_picture(#[trigger] formats@[i]),
{
    let mut i: usize = 0;
    while i < formats.len()
        invariant
            i <= formats.len(),
            forall|j: int| 0 <= j < i ==> !has_picture(#[trigger] formats@[j]),
        decreases formats.len() - i,
    {
        if carries_picture(&formats[i]) {
            assert(has_picture(formats@[i as int]));
            return true;
        }
        i += 1;
    }
    false
}

/// What is known of a video, from what the extractor says of it. Its duration
/// is not among this.
pub fn video_info(video: &Json, url: &str) -> (r: MediaInfo)
    ensures
        describes(r@, *video, url@),
{
    let none: Vec<Json> = Vec::new();
    let formats = match video.get("formats") {
        Some(v) => match v.as_array() {
            Some(items) => items,
            None => &none,
        },
        None => &none,
    };
    assert(formats@ =~= formats_of(*video));
    let thumbnail = match video.get("thumbnail") {
        Some(v) => match v.as_str() {
            Some(s) => Some(s.to_owned()),
            None => None,
        },
        None => None,
    };
    MediaInfo {
        title: video.text_or("title", "Bilibili Video"),
        author: video.text_or("uploader", "Unknown"),
        platform: "bilibili".to_owned(),
        thumbnail_url: thumbnail,
        available_qualities: video_forms(formats, url),
        media_type: if any_picture(formats) {
            MediaType::Video
        } else {
            MediaType::Audio
        },
        file_size_bytes: None,
    }
}

// ---------------------------------------------------------------------------
// Playlists
// ---------------------------------------------------------------------------
/// One entry of a playlist.
#[derive(Debug, Clone)]
pub struct PlaylistEntry {
    /// Its title.
    pub title: String,
    /// Where it is.
    pub url: String,
}

/// Entry `i` of a playlist as one of its forms: it is numbered from 1.
pub open spec fn numbered(i: int, entry: PlaylistEntry) -> QualityView {
    QualityView {
        label: decimal((i + 1) as nat) + ". "@ + entry.title@,
        width: 0,
        height: 0,
        url: entry.url@,
        format: "mp4"@,
    }
}

/// What is known of a playlist.
pub open spec fn playlist_view(title: Seq<char>, entries: Seq<PlaylistEntry>) -> MediaView {
    MediaView {
        title,
        author: "Bilibili"@,
        platform: "bilibili"@,
        thumbnail_url: None,
        available_qualities: entries.map(|i: int, e: PlaylistEntry| numbered(i, e)),
        media_type: MediaType::Playlist,
        file_size_bytes: None,
    }
}

/// What is known of a playlist; an empty one is refused.
pub fn playlist_info(title: String, entries: &Vec<PlaylistEntry>) -> (r: Result<MediaInfo, String>)
    ensures
        match r {
            Ok(info) => entries@.len() > 0 && info@ == playlist_view(title@, entries@),
            Err(e) => entries@.len() == 0 && e@ == "Playlist empty or unavailable"@,
        },
{
    if entries.len() == 0 {
        return Err("Playlist empty or unavailable".to_owned());
    }
    let ghost wanted = playlist_view(title@, entries@).available_qualities;
    let mut qualities: Vec<VideoQuality> = Vec::new();
    let mut i: usize = 0;
    while i < entries.len()
        invariant
            i <= entries.len(),
            wanted == entries@.map(|i: int, e: PlaylistEntry| numbered(i, e)),
            quality_views(qualities@) =~= wanted.take(i as int),
        decreases entries.len() - i,
    {
        let mut label = decimal_text(i as u64 + 1);
        label.append(". ");
        label.append(entries[i].title.as_str());
        let ghost before = quality_views(qualities@);
        qualities.push(
            VideoQuality {
                label,
                width: 0,
                height: 0,
                url: entries[i].url.clone(),
                format: "mp4".to_owned(),
            },
        );
        assert(qualities@.last()@ =~= wanted[i as int]);
        assert(quality_views(qualities@) =~= before.push(wanted[i as int]));
        assert(wanted.take(i + 1) =~= before.push(wanted[i as int]));
        i += 1;
    }
    assert(wanted.take(wanted.len() as int) =~= wanted);
    let info = MediaInfo {
        title,
        author: "Bilibili".to_owned(),
        platform: "bilibili".to_owned(),
        thumbnail_url: None,
        available_qualities: qualities,
        media_type: MediaType::Playlist,
        file_size_bytes: None,
    };
    assert(info@ =~= playlist_view(title@, entries@));
    Ok(info)
}

/// What an entry of a playlist came to.
#[derive(Debug)]
pub enum EntryOutcome {
    /// It is there.
    Saved {
        /// Its size in bytes.
        bytes: u64,
        /// Where it was saved.
        path: String,
    },
    /// It failed; the others go on.
    Failed,
}

/// The bytes of the entries that were saved.
pub open spec fn saved_bytes(outcomes: Seq<EntryOutcome>) -> nat
    decreases outcomes.len(),
{
    if outcomes.len() == 0 {
        0
    } else {
        saved_bytes(outcomes.drop_last()) + (match outcomes.last() {
            EntryOutcome::Saved { bytes, .. } => bytes as nat,
            EntryOutcome::Failed => 0,
        })
    }
}

/// Where the last entry that was saved stands, or `fallback` where none was.
pub open spec fn last_saved(outcomes: Seq<EntryOutcome>, fallback: Seq<char>) -> Seq<char>
    decreases outcomes.len(),
{
    if outcomes.len() == 0 {
        fallback
    } else {
        match outcomes.last() {
            EntryOutcome::Saved { path, .. } => path@,
            EntryOutcome::Failed => last_saved(outcomes.drop_last(), fallback),
        }
    }
}

/// What comes next in the download of a playlist.
#[derive(Debug)]
pub enum PlaylistStep {
    /// This entry is to be downloaded.
    Fetch {
        /// Its position.
        index: usize,
    },
    /// Every entry was tried.
    Finished,
    /// The download was cancelled.
    Cancelled(String),
}

/// The download of a playlist, entry by entry.
#[derive(Debug)]
pub struct PlaylistRun {
    /// The position of the next entry.
    pub next: usize,
    /// The bytes of the entries saved so far.
    pub bytes: u64,
    /// Where the last one was saved, or the output directory.
    pub path: String,
}

impl PlaylistRun {
    /// The run stands where these outcomes lead.
    pub open spec fn after(self, outcomes: Seq<EntryOutcome>, output_dir: Seq<char>) -> bool {
        &&& self.next == outcomes.len()
        &&& self.bytes == saved_bytes(outcomes)
        &&& self.path@ == last_saved(outcomes, output_dir)
    }

    /// Nothing was tried yet.
    pub fn start(output_dir: &str) -> (r: PlaylistRun)
        ensures
            r.after(Seq::empty(), output_dir@),
    {
        PlaylistRun { next: 0, bytes: 0, path: output_dir.to_owned() }
    }

    /// What comes next in a playlist of `total` entries.
    pub fn step(&self, total: usize, cancelled: bool) -> (r: PlaylistStep)
        ensures
            match r {
                PlaylistStep::Finished => self.next >= total,
                PlaylistStep::Cancelled(e) => self.next < total && cancelled && e@
                    == "Download cancelled"@,
                PlaylistStep::Fetch { index } => self.next < total && !cancelled && index
                    == self.next,
            },
    {
        if self.next >= total {
            PlaylistStep::Finished
        } else if cancelled {
            PlaylistStep::Cancelled("Download cancelled".to_owned())
        } else {
            PlaylistStep::Fetch { index: self.next }
        }
    }

    /// Notes what the entry came to that was next.
    pub fn on_outcome(&mut self, outcome: EntryOutcome)
        requires
            old(self).next < usize::MAX,
            outcome matches EntryOutcome::Saved { bytes, .. } ==> old(self).bytes + bytes
                <= u64::MAX,
        ensures
            final(self).next == old(self).next + 1,
            match outcome {
                EntryOutcome::Saved { bytes, path } => {
                    &&& final(self).bytes == old(self).bytes + bytes
                    &&& final(self).path@ == path@
                },
                EntryOutcome::Failed => {
                    &&& final(self).bytes == old(self).bytes
                    &&& final(self).path@ == old(self).path@
                },
            },
            forall|outcomes: Seq<EntryOutcome>, output_dir: Seq<char>| #[trigger]
                old(self).after(outcomes, output_dir) ==> final(self).after(
                    outcomes.push(outcome),
                    output_dir,
                ),
    {
        let ghost given = outcome;
        self.next += 1;
        match outcome {
            EntryOutcome::Saved { bytes, path } => {
                self.bytes += bytes;
                self.path = path;
            },
            EntryOutcome::Failed => {},
        }
        assert forall|outcomes: Seq<EntryOutcome>, output_dir: Seq<char>| #[trigger]
            old(self).after(outcomes, output_dir) implies self.after(
            outcomes.push(given),
            output_dir,
        ) by {
            assert(outcomes.push(given).drop_last() =~= outcomes);
        }
    }
}

// ---------------------------------------------------------------------------
// Downloads
// ---------------------------------------------------------------------------
/// What a download of known media is.
#[derive(Debug)]
pub enum DownloadPlan {
    /// Every entry of a playlist.
    Playlist,
    /// One video.
    Single {
        /// Where it is.
        url: String,
        /// The height that is wanted, where one is.
        height: Option<u32>,
    },
}

/// The height that a quality such as `1080p` names.
pub open spec fn wanted_height(quality: Option<Seq<char>>) -> Option<nat> {
    match quality {
        Some(q) => number_in(without_tails(q, "p"@), u32::MAX as nat),
        None => None,
    }
}

/// The height that a quality such as `1080p` names.
pub fn quality_height(quality: &Option<String>) -> (r: Option<u32>)
    ensures
        match r {
            Some(h) => wanted_height(opt_view(*quality)) == Some(h as nat),
            None => wanted_height(opt_view(*quality)) is None,
        },
{
    match quality {
        Some(q) => {
            proof {
                reveal_strlit("p");
            }
            match parse_number(strip_tails(q.as_str(), "p").as_str(), u32::MAX as u64) {
                Some(h) => Some(h as u32),
                None => None,
            }
        },
        None => None,
    }
}

/// Where known media is: at the first of its forms.
pub open spec fn media_link(info: MediaView) -> Seq<char> {
    if info.available_qualities.len() > 0 {
        info.available_qualities[0].url
    } else {
        Seq::empty()
    }
}

/// Decides what a download of known media is.
pub fn plan_download(info: &MediaInfo, quality: &Option<String>) -> (r: Result<DownloadPlan, String>)
    ensures
        match r {
            Err(e) => media_link(info@).len() == 0 && e@ == "No URL available"@,
            Ok(DownloadPlan::Playlist) => media_link(info@).len() > 0 && info.media_type
                == MediaType::Playlist,
            Ok(DownloadPlan::Single { url, height }) => {
                &&& media_link(info@).len() > 0
                &&& info.media_type != MediaType::Playlist
                &&& url@ == media_link(info@)
                &&& match height {
                    Some(h) => wanted_height(opt_view(*quality)) == Some(h as nat),
                    None => wanted_height(opt_view(*quality)) is None,
                }
            },
        },
{
    if info.available_qualities.len() == 0 {
        return Err("No URL available".to_owned());
    }
    let url = info.available_qualities[0].url.as_str();
    assert(media_link(info@) == url@);
    if url.is_empty() {
        return Err("No URL available".to_owned());
    }
    if info.media_type == MediaType::Playlist {
        return Ok(DownloadPlan::Playlist);
    }
    Ok(DownloadPlan::Single { url: url.to_owned(), height: quality_height(quality) })
}

/// The page that a download is said to come from, where the user names none.
pub fn referer_or_own(referer: &Option<String>) -> (r: String)
    ensures
        r@ == opt_view(*referer).unwrap_or(BILIBILI_REFERER@),
{
    match referer {
        Some(referer) => referer.clone(),
        None => BILIBILI_REFERER.to_owned(),
    }
}

/// The flags under which the extractor presents itself as a browser; only one
/// that can do so takes them.
pub open spec fn browser_flags(supported: bool) -> Seq<Seq<char>> {
    if supported {
        seq!["--impersonate"@, "chrome"@]
    } else {
        Seq::empty()
    }
}

impl BilibiliDownloader {
    /// A downloader.
    pub fn new() -> (r: BilibiliDownloader)
        ensures
            r == BilibiliDownloader,
    {
        BilibiliDownloader
    }

    /// The name of the platform.
    pub fn name(&self) -> (r: &str)
        ensures
            r@ == "bilibili"@,
    {
        "bilibili"
    }

    /// Whether a link is one of the site.
    pub fn can_handle(&self, url: &str) -> (r: bool)
        ensures
            r == (match url_parts(url@) {
                Some(parts) => own_link(parts),
                None => false,
            }),
    {
        match parse_parts(url) {
            Some(parts) => is_own_link(&parts),
            None => false,
        }
    }

    /// Whether a link leads to a series or a list rather than to one video.
    pub fn is_playlist_or_series(url: &str) -> (r: bool)
        ensures
            r == (match url_parts(url@) {
                Some(parts) => series_path(parts.path),
                None => false,
            }),
    {
        match parse_parts(url) {
            Some(parts) => is_series_path(parts.path.as_str()),
            None => false,
        }
    }

    /// The flags under which the extractor presents itself as a browser.
    pub fn impersonate_flags(supported: bool) -> (r: Vec<String>)
        ensures
            views(r@) == browser_flags(supported),
    {
        let mut flags: Vec<String> = Vec::new();
        if supported {
            flags.push("--impersonate".to_owned());
            flags.push("chrome".to_owned());
        }
        assert(views(flags@) =~= browser_flags(supported));
        flags
    }

    /// The flags for asking the extractor what it knows of a link.
    pub fn bilibili_info_flags(supported: bool) -> (r: Vec<String>)
        ensures
            views(r@) == seq!["--referer"@, BILIBILI_REFERER@] + browser_flags(supported),
    {
        let mut flags: Vec<String> = Vec::new();
        flags.push("--referer".to_owned());
        flags.push(BILIBILI_REFERER.to_owned());
        let mut more = Self::impersonate_flags(supported);
        let ghost added = more@;
        let ghost before = flags@;
        flags.append(&mut more);
        assert(views(flags@) =~= views(before) + views(added));
        assert(views(before) =~= seq!["--referer"@, BILIBILI_REFERER@]);
        flags
    }

    /// The flags for having the extractor download one video, in a codec that
    /// every player takes where there is one.
    pub fn bilibili_download_flags(supported: bool) -> (r: Vec<String>)
        ensures
            views(r@) == seq!["--no-playlist"@, "--format-sort"@, "vcodec:h264"@] + browser_flags(
                supported,
            ),
    {
        let mut flags: Vec<String> = Vec::new();
        flags.push("--no-playlist".to_owned());
        flags.push("--format-sort".to_owned());
        flags.push("vcodec:h264".to_owned());
        let mut more = Self::impersonate_flags(supported);
        let ghost added = more@;
        let ghost before = flags@;
        flags.append(&mut more);
        assert(views(flags@) =~= views(before) + views(added));
        assert(views(before) =~= seq!["--no-playlist"@, "--format-sort"@, "vcodec:h264"@]);
        flags
    }
}

// ---------------------------------------------------------------------------
// Laws of the forms
// ---------------------------------------------------------------------------
/// Each height is offered once.
pub proof fn law_heights_are_distinct(formats: Seq<Json>)
    ensures
        distinct_heights(firsts(formats)),
    decreases formats.len(),
{
    if formats.len() > 0 {
        law_heights_are_distinct(formats.drop_last());
        let before = firsts(formats.drop_last());
        let after = firsts(formats);
        assert forall|i: int, j: int| 0 <= i < j < after.len() implies (#[trigger] after[i]).1 != (
        #[trigger] after[j]).1 by {
            if j < before.len() {
                assert(after[i] == before[i] && after[j] == before[j]);
            } else {
                assert(after[i] == before[i]);
            }
        }
    }
}

/// Where no two heights are the same, there is one ranking only.
pub proof fn law_ranking_is_unique(
    a: Seq<(u32, u32)>,
    b: Seq<(u32, u32)>,
    sizes: Seq<(u32, u32)>,
)
    requires
        distinct_heights(sizes),
        ranked(a, sizes),
        ranked(b, sizes),
    ensures
        a == b,
{
    broadcast use vstd::seq_lib::group_to_multiset_ensures;

    assert(a.len() == a.to_multiset().len() && b.len() == b.to_multiset().len());
    lemma_no_repeats(a, sizes);
    lemma_no_repeats(b, sizes);
    lemma_ranked_prefix(a, b, sizes, a.len() as int);
    assert(a =~= b);
}

/// What a ranking holds is what is ranked.
pub proof fn lemma_ranking_holds(a: Seq<(u32, u32)>, sizes: Seq<(u32, u32)>)
    requires
        a.to_multiset() == sizes.to_multiset(),
    ensures
        forall|i: int| 0 <= i < a.len() ==> sizes.contains(#[trigger] a[i]),
{
    broadcast use vstd::seq_lib::group_to_multiset_ensures;

    assert forall|i: int| 0 <= i < a.len() implies sizes.contains(#[trigger] a[i]) by {
        assert(a.contains(a[i]));
        assert(a.to_multiset().count(a[i]) > 0);
    }
}

/// A ranking of pictures of distinct heights falls strictly.
pub proof fn lemma_no_repeats(a: Seq<(u32, u32)>, sizes: Seq<(u32, u32)>)
    requires
        distinct_heights(sizes),
        ranked(a, sizes),
    ensures
        forall|i: int, j: int|
            0 <= i < j < a.len() ==> (#[trigger] a[i]).1 > (#[trigger] a[j]).1,
{
    lemma_ranking_holds(a, sizes);
    assert(sizes.no_duplicates());
    sizes.lemma_multiset_has_no_duplicates();
    a.lemma_multiset_has_no_duplicates_conv();
    assert forall|i: int, j: int| 0 <= i < j < a.len() implies (#[trigger] a[i]).1 > (
    #[trigger] a[j]).1 by {
        if a[i].1 == a[j].1 {
            assert(a[i] == a[j]);
        }
    }
}

/// Two strictly falling rankings of the same pictures agree up to `n`.
proof fn lemma_ranked_prefix(
    a: Seq<(u32, u32)>,
    b: Seq<(u32, u32)>,
    sizes: Seq<(u32, u32)>,
    n: int,
)
    requires
        distinct_heights(sizes),
        ranked(a, sizes),
        ranked(b, sizes),
        a.len() == b.len(),
        0 <= n <= a.len(),
        forall|i: int, j: int| 0 <= i < j < a.len() ==> (#[trigger] a[i]).1 > (#[trigger] a[j]).1,
        forall|i: int, j: int| 0 <= i < j < b.len() ==> (#[trigger] b[i]).1 > (#[trigger] b[j]).1,
    ensures
        forall|i: int| 0 <= i < n ==> #[trigger] a[i] == b[i],
    decreases n,
{
    broadcast use vstd::seq_lib::group_to_multiset_ensures;

    if n > 0 {
        lemma_ranked_prefix(a, b, sizes, n - 1);
        let k = n - 1;
        assert(a.contains(a[k]) && b.contains(b[k]));
        assert(a.to_multiset().count(a[k]) > 0 && b.to_multiset().count(b[k]) > 0);
        assert(b.contains(a[k]) && a.contains(b[k]));
        let in_b = choose|m: int| 0 <= m < b.len() && b[m] == a[k];
        let in_a = choose|m: int| 0 <= m < a.len() && a[m] == b[k];
        if in_b < k {
            assert(a[in_b] == b[in_b]);
            assert(a[in_b].1 > a[k].1);
        }
        if in_a < k {
            assert(b[in_a] == a[in_a]);
            assert(b[in_a].1 > b[k].1);
        }
        if in_b > k && in_a > k {
            assert(b[k].1 > b[in_b].1);
            assert(a[k].1 > a[in_a].1);
        }
    }
}

} // verus!
