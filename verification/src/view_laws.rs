//! What contracts see of values: every field as it is.
use vstd::prelude::*;

use crate::browser_cookies::{jar_view, key_views, row_views, CookieRow};
use crate::commands::admission::EnqueueRequest;
use crate::commands::detect::PlatformInfo;
use crate::link::{pair_views, UrlParts};
use crate::media::{quality_views, MediaInfo, VideoQuality};
use crate::platforms::quark::entry::{entry_views, QuarkEntry};
use crate::platforms::quark::walk::Folder;
use crate::platforms::quark::{file_views, QuarkFile};
use crate::platforms::{parts_view, platform_view, Platform, PlatformView};
use crate::text::{opt_view, views};

verus! {

/// What may be absent is seen as absent, and lists are seen item by item.
pub proof fn law_lists_are_seen_whole(
    texts: Seq<String>,
    pairs: Seq<(String, String)>,
    keys: Seq<&str>,
    text: String,
    i: int,
)
    ensures
        opt_view(Some(text)) == Some(text@),
        opt_view(None) is None,
        views(texts).len() == texts.len(),
        0 <= i < texts.len() ==> views(texts)[i] == texts[i]@,
        pair_views(pairs).len() == pairs.len(),
        0 <= i < pairs.len() ==> pair_views(pairs)[i] == (pairs[i].0@, pairs[i].1@),
        jar_view(pairs) == pair_views(pairs),
        key_views(keys).len() == keys.len(),
        0 <= i < keys.len() ==> key_views(keys)[i] == keys[i]@,
{
    assert(jar_view(pairs) =~= pair_views(pairs));
}

/// A row of the cookie table is seen whole, and so are lists of them.
pub proof fn law_rows_are_seen_whole(row: CookieRow, rows: Seq<CookieRow>, i: int)
    ensures
        row@.name == row.name@,
        row@.enc_hex == row.enc_hex@,
        row@.plain == row.plain@,
        row_views(rows).len() == rows.len(),
        0 <= i < rows.len() ==> row_views(rows)[i] == rows[i]@,
{
}

/// The parts of a link are seen whole.
pub proof fn law_parts_are_seen_whole(parts: UrlParts)
    ensures
        parts@.scheme == parts.scheme@,
        parts@.host == opt_view(parts.host),
        parts@.path == parts.path@,
        parts@.query == pair_views(parts.query@),
        parts@.fragment == opt_view(parts.fragment),
        parts_view(Some(parts)) == Some(parts@),
        parts_view(None) is None,
{
}

/// What is known of media is seen whole.
pub proof fn law_media_is_seen_whole(
    info: MediaInfo,
    form: VideoQuality,
    all: Seq<VideoQuality>,
    i: int,
)
    ensures
        form@.label == form.label@,
        form@.width == form.width,
        form@.height == form.height,
        form@.url == form.url@,
        form@.format == form.format@,
        quality_views(all).len() == all.len(),
        0 <= i < all.len() ==> quality_views(all)[i] == all[i]@,
        info@.title == info.title@,
        info@.author == info.author@,
        info@.platform == info.platform@,
        info@.thumbnail_url == opt_view(info.thumbnail_url),
        info@.available_qualities == quality_views(info.available_qualities@),
        info@.media_type == info.media_type,
        info@.file_size_bytes == info.file_size_bytes,
{
}

/// Entries, files and folders of the drive are seen whole.
pub proof fn law_shares_are_seen_whole(
    entry: QuarkEntry,
    file: QuarkFile,
    folder: Folder,
    entries: Seq<QuarkEntry>,
    files: Seq<QuarkFile>,
    i: int,
)
    ensures
        entry@.fid == entry.fid@,
        entry@.name == entry.name@,
        entry@.size == entry.size,
        entry@.share_fid_token == entry.share_fid_token@,
        entry@.is_dir == entry.is_dir,
        file@.fid == file.fid@,
        file@.share_fid_token == file.share_fid_token@,
        file@.pwd_id == file.pwd_id@,
        file@.stoken == file.stoken@,
        file@.name == file.name@,
        file@.rel_path == file.rel_path@,
        file@.size == file.size,
        folder@.fid == folder.fid@,
        folder@.rel_path == folder.rel_path@,
        folder@.depth == folder.depth,
        entry_views(entries).len() == entries.len(),
        0 <= i < entries.len() ==> entry_views(entries)[i] == entries[i]@,
        file_views(files).len() == files.len(),
        0 <= i < files.len() ==> file_views(files)[i] == files[i]@,
{
}

/// A site is seen as what it is.
pub proof fn law_sites_are_seen_as_they_are(name: String, site: Platform)
    ensures
        Platform::Hotmart@ == PlatformView::Hotmart,
        Platform::YouTube@ == PlatformView::YouTube,
        Platform::Instagram@ == PlatformView::Instagram,
        Platform::TikTok@ == PlatformView::TikTok,
        Platform::Twitter@ == PlatformView::Twitter,
        Platform::Reddit@ == PlatformView::Reddit,
        Platform::Twitch@ == PlatformView::Twitch,
        Platform::Pinterest@ == PlatformView::Pinterest,
        Platform::Bluesky@ == PlatformView::Bluesky,
        Platform::Telegram@ == PlatformView::Telegram,
        Platform::Vimeo@ == PlatformView::Vimeo,
        Platform::Udemy@ == PlatformView::Udemy,
        Platform::Bilibili@ == PlatformView::Bilibili,
        Platform::Other(name)@ == PlatformView::Other(name@),
        platform_view(Some(site)) == Some(site@),
        platform_view(None) is None,
{
}

/// Requests and what is told of a link are seen whole.
pub proof fn law_requests_are_seen_whole(request: EnqueueRequest, info: PlatformInfo)
    ensures
        request@.id == request.id,
        request@.url == request.url@,
        request@.platform == request.platform@,
        request@.title == request.title@,
        request@.output_dir == request.output_dir@,
        request@.download_mode == opt_view(request.download_mode),
        request@.quality == opt_view(request.quality),
        request@.format_id == opt_view(request.format_id),
        request@.referer == opt_view(request.referer),
        request.extra_headers matches Some(headers) ==> request@.extra_headers == Some(
            pair_views(headers@),
        ),
        request.extra_headers is None ==> request@.extra_headers is None,
        request@.page_url == opt_view(request.page_url),
        request@.user_agent == opt_view(request.user_agent),
        request@.total_bytes == request.total_bytes,
        request@.cookie_slug == opt_view(request.cookie_slug),
        request.custom_args matches Some(args) ==> request@.custom_args == Some(views(args@)),
        request.custom_args is None ==> request@.custom_args is None,
        info@.platform == info.platform@,
        info@.supported == info.supported,
        info@.content_id == opt_view(info.content_id),
        info@.content_type == opt_view(info.content_type),
{
}

} // verus!
