//! What holds of the forms in which a video is offered, and of playlists.
use vstd::prelude::*;

use crate::json::Json;
use crate::link::UrlView;
use crate::media::{MediaType, MediaView, QualityView};
use crate::text::{decimal, is_digit, lemma_decimal, lowercase, occurs_in, without_tails};
use crate::text_laws::{
    law_decimal_reads_back, law_endings_come_off, law_numbers_are_digits, repeated,
};

use super::bilibili::{
    browser_flags, describes, firsts, form_of, forms, has_height, has_picture,
    height_label, law_heights_are_distinct, last_saved, lemma_no_repeats, lemma_ranking_holds,
    low_32, media_link, numbered, own_link, picture, playlist_view, ranked, saved_bytes,
    series_path, wanted_height, EntryOutcome, PlaylistEntry, BILIBILI_REFERER,
};

verus! {

// ---------------------------------------------------------------------------
// Pictures
// ---------------------------------------------------------------------------
/// A format has a picture where it names a codec other than `none`, and counts
/// where its height is not zero; a width that is not said is zero.
pub proof fn law_picture_of_a_format(format: Json, w: u64, h: u64)
    ensures
        has_picture(format) <==> (format.chars_of("vcodec"@) matches Some(codec) && codec
            != "none"@),
        format.whole_of("height"@) is None ==> picture(format) is None,
        format.whole_of("height"@) == Some(0u64) ==> picture(format) is None,
        !has_picture(format) ==> picture(format) is None,
        has_picture(format) && format.whole_of("height"@) == Some(h) && 0 < h < 0x1_0000_0000 ==> {
            &&& picture(format) matches Some(size) && size.1 == h
            &&& format.whole_of("width"@) == Some(w) && w < 0x1_0000_0000 ==> (picture(
                format,
            ) matches Some(size) && size.0 == w)
            &&& format.whole_of("width"@) is None ==> (picture(format) matches Some(size) && size.0
                == 0)
        },
{
}

/// A number of pixels is taken in 32 bits.
pub proof fn law_pixels_in_32_bits(n: u64)
    ensures
        n < 0x1_0000_0000 ==> low_32(n) == n,
        exists|k: int| #[trigger] (k * 0x1_0000_0000) + low_32(n) == n,
{
    let k = n as int / 0x1_0000_0000;
    assert(k * 0x1_0000_0000 + low_32(n) == n);
}

/// The height of every picture is kept, wherever its format stands and however
/// many heights there are.
pub proof fn law_every_height_is_kept(formats: Seq<Json>, i: int)
    requires
        0 <= i < formats.len(),
        picture(formats[i]) is Some,
    ensures
        exists|k: int|
            0 <= k < firsts(formats).len() && (#[trigger] firsts(formats)[k]).1 == (picture(
                formats[i],
            )->0).1,
    decreases formats.len(),
{
    let size = picture(formats[i])->0;
    let rest = formats.drop_last();
    let before = firsts(rest);
    let after = firsts(formats);
    if i < rest.len() {
        assert(rest[i] == formats[i]);
        law_every_height_is_kept(rest, i);
        let k = choose|k: int| 0 <= k < before.len() && (#[trigger] before[k]).1 == size.1;
        assert(after[k] == before[k]);
    } else if has_height(before, size.1) {
        let k = choose|k: int| 0 <= k < before.len() && (#[trigger] before[k]).1 == size.1;
        assert(after[k] == before[k]);
    } else {
        assert(after[before.len() as int] == size);
    }
}

/// Format `j` is the first with a picture of this size's height, and has this
/// size.
pub open spec fn first_of_height(formats: Seq<Json>, j: int, size: (u32, u32)) -> bool {
    &&& 0 <= j < formats.len()
    &&& picture(formats[j]) == Some(size)
    &&& forall|m: int|
        0 <= m < j ==> (picture(#[trigger] formats[m]) matches Some(other) ==> other.1 != size.1)
}

/// What is kept of a height is the picture of the first format with it.
pub proof fn law_first_of_each_height(formats: Seq<Json>, k: int)
    requires
        0 <= k < firsts(formats).len(),
    ensures
        exists|j: int| #[trigger] first_of_height(formats, j, firsts(formats)[k]),
    decreases formats.len(),
{
    let rest = formats.drop_last();
    let before = firsts(rest);
    let after = firsts(formats);
    if k < before.len() {
        law_first_of_each_height(rest, k);
        let j = choose|j: int| #[trigger] first_of_height(rest, j, before[k]);
        assert(after[k] == before[k]);
        assert(formats[j] == rest[j]);
        assert forall|m: int| 0 <= m < j implies (picture(#[trigger] formats[m]) matches Some(
            other,
        ) ==> other.1 != after[k].1) by {
            assert(formats[m] == rest[m]);
        }
        assert(first_of_height(formats, j, after[k]));
    } else {
        let j = formats.len() - 1;
        assert(after[k] == picture(formats[j])->0);
        assert forall|m: int| 0 <= m < j implies (picture(#[trigger] formats[m]) matches Some(
            other,
        ) ==> other.1 != after[k].1) by {
            assert(formats[m] == rest[m]);
            if picture(formats[m]) is Some {
                law_every_height_is_kept(rest, m);
            }
        }
        assert(first_of_height(formats, j, after[k]));
    }
}

// ---------------------------------------------------------------------------
// Forms of a video
// ---------------------------------------------------------------------------
/// A ranking holds what is ranked, all of it, the highest first.
pub proof fn law_ranking(sizes: Seq<(u32, u32)>, of: Seq<(u32, u32)>, i: int, j: int)
    requires
        ranked(sizes, of),
    ensures
        sizes.len() == of.len(),
        0 <= i < of.len() ==> sizes.contains(of[i]),
        0 <= i < sizes.len() ==> of.contains(sizes[i]),
        0 <= i < j < sizes.len() ==> sizes[i].1 >= sizes[j].1,
{
    broadcast use vstd::seq_lib::group_to_multiset_ensures;

    assert(sizes.len() == sizes.to_multiset().len() && of.len() == of.to_multiset().len());
    lemma_ranking_holds(sizes, of);
    lemma_ranking_holds(of, sizes);
}

/// Every format with a picture of known height has its height among the forms of
/// the video, with the width of the first format of that height.
pub proof fn law_every_height_is_offered(
    qualities: Seq<QualityView>,
    formats: Seq<Json>,
    url: Seq<char>,
    i: int,
)
    requires
        forms(qualities, formats, url),
        0 <= i < formats.len(),
        picture(formats[i]) is Some,
    ensures
        exists|k: int, j: int|
            0 <= k < qualities.len() && qualities[k].height == (picture(formats[i])->0).1
                && #[trigger] first_of_height(
                formats,
                j,
                (qualities[k].width, qualities[k].height),
            ),
{
    law_every_height_is_kept(formats, i);
    let of = firsts(formats);
    let size = picture(formats[i])->0;
    let m = choose|m: int| 0 <= m < of.len() && (#[trigger] of[m]).1 == size.1;
    let sizes = choose|sizes: Seq<(u32, u32)>| #[trigger]
        ranked(sizes, of) && qualities == sizes.map_values(|size: (u32, u32)| form_of(size, url));
    law_ranking(sizes, of, m, m);
    let k = choose|k: int| 0 <= k < sizes.len() && sizes[k] == of[m];
    assert(qualities[k] == form_of(sizes[k], url));
    law_first_of_each_height(formats, m);
    let j = choose|j: int| #[trigger] first_of_height(formats, j, of[m]);
    assert(of[m] == (qualities[k].width, qualities[k].height));
    assert(first_of_height(formats, j, (qualities[k].width, qualities[k].height)));
}

/// The forms of a video of which pictures are known are these pictures, the
/// highest first and each height once, at the link of the video.
pub proof fn law_forms_of_a_video(
    qualities: Seq<QualityView>,
    formats: Seq<Json>,
    url: Seq<char>,
    i: int,
    k: int,
)
    requires
        forms(qualities, formats, url),
        0 <= i < formats.len(),
        picture(formats[i]) is Some,
        0 <= k < qualities.len(),
    ensures
        exists|j: int| #[trigger]
            first_of_height(formats, j, (qualities[k].width, qualities[k].height)),
        forall|m: int| k < m < qualities.len() ==> (#[trigger] qualities[m]).height
            < qualities[k].height,
        qualities[k].url == url,
        qualities[k].format == "mp4"@,
        qualities[k].height == 2160 ==> qualities[k].label == "4K"@,
        qualities[k].height == 1440 ==> qualities[k].label == "2K"@,
        qualities[k].height != 2160 && qualities[k].height != 1440 ==> qualities[k].label
            == decimal(qualities[k].height as nat) + "p"@,
{
    law_every_height_is_kept(formats, i);
    let of = firsts(formats);
    let sizes = choose|sizes: Seq<(u32, u32)>| #[trigger]
        ranked(sizes, of) && qualities == sizes.map_values(|size: (u32, u32)| form_of(size, url));
    law_ranking(sizes, of, k, k);
    assert(qualities[k] == form_of(sizes[k], url));
    let m = choose|m: int| 0 <= m < of.len() && of[m] == sizes[k];
    law_first_of_each_height(formats, m);
    let j = choose|j: int| #[trigger] first_of_height(formats, j, of[m]);
    assert(of[m] == (qualities[k].width, qualities[k].height));
    assert(first_of_height(formats, j, (qualities[k].width, qualities[k].height)));
    law_heights_are_distinct(formats);
    lemma_no_repeats(sizes, of);
    assert forall|m: int| k < m < qualities.len() implies (#[trigger] qualities[m]).height
        < qualities[k].height by {
        assert(qualities[m] == form_of(sizes[m], url));
        assert(sizes[k].1 > sizes[m].1);
    }
}

/// A video of which no picture is known has one form, the best there is.
pub proof fn law_video_without_pictures(
    qualities: Seq<QualityView>,
    formats: Seq<Json>,
    url: Seq<char>,
)
    requires
        forms(qualities, formats, url),
        forall|i: int| 0 <= i < formats.len() ==> picture(#[trigger] formats[i]) is None,
    ensures
        qualities.len() == 1,
        qualities[0].label == "best"@,
        qualities[0].width == 0,
        qualities[0].height == 0,
        qualities[0].url == url,
        qualities[0].format == "mp4"@,
{
    if firsts(formats).len() > 0 {
        law_first_of_each_height(formats, 0);
        let j = choose|j: int| #[trigger] first_of_height(formats, j, firsts(formats)[0]);
        assert(picture(formats[j]) is Some);
    }
}

/// The names of heights.
pub proof fn law_names_of_heights(height: u32)
    ensures
        height == 2160 ==> height_label(height) == "4K"@,
        height == 1440 ==> height_label(height) == "2K"@,
        height != 2160 && height != 1440 ==> height_label(height) == decimal(height as nat)
            + "p"@,
{
}

/// What is shown of a video is what the extractor says, with a stand-in for what
/// it does not say.
pub proof fn law_description_of_a_video(
    info: MediaView,
    video: Json,
    url: Seq<char>,
    formats: Seq<Json>,
    i: int,
)
    requires
        describes(info, video, url),
    ensures
        video.chars_of("title"@) matches Some(s) ==> info.title == s,
        video.chars_of("title"@) is None ==> info.title == "Bilibili Video"@,
        video.chars_of("uploader"@) matches Some(s) ==> info.author == s,
        video.chars_of("uploader"@) is None ==> info.author == "Unknown"@,
        info.platform == "bilibili"@,
        info.thumbnail_url == video.chars_of("thumbnail"@),
        info.file_size_bytes is None,
        info.media_type == MediaType::Video || info.media_type == MediaType::Audio,
        video.named("formats"@) is None ==> info.media_type == MediaType::Audio && forms(
            info.available_qualities,
            Seq::empty(),
            url,
        ),
        (video.named("formats"@) matches Some(list) && list.items() == Some(formats)) ==> {
            &&& forms(info.available_qualities, formats, url)
            &&& 0 <= i < formats.len() && has_picture(formats[i]) ==> info.media_type
                == MediaType::Video
            &&& (forall|j: int| 0 <= j < formats.len() ==> !has_picture(#[trigger] formats[j]))
                ==> info.media_type == MediaType::Audio
        },
{
}

// ---------------------------------------------------------------------------
// Playlists
// ---------------------------------------------------------------------------
/// A playlist shows its entries in order, numbered from one.
pub proof fn law_shown_playlist(title: Seq<char>, entries: Seq<PlaylistEntry>, i: int)
    ensures
        playlist_view(title, entries).title == title,
        playlist_view(title, entries).author == "Bilibili"@,
        playlist_view(title, entries).platform == "bilibili"@,
        playlist_view(title, entries).thumbnail_url is None,
        playlist_view(title, entries).media_type == MediaType::Playlist,
        playlist_view(title, entries).file_size_bytes is None,
        playlist_view(title, entries).available_qualities.len() == entries.len(),
        0 <= i < entries.len() ==> {
            let shown = playlist_view(title, entries).available_qualities[i];
            &&& shown.label == decimal((i + 1) as nat) + ". "@ + entries[i].title@
            &&& shown.url == entries[i].url@
            &&& shown.format == "mp4"@
            &&& shown.width == 0
            &&& shown.height == 0
        },
{
    if 0 <= i < entries.len() {
        assert(playlist_view(title, entries).available_qualities[i] == numbered(i, entries[i]));
    }
}

/// The bytes of a playlist add up: those of saved entries count, those of failed
/// ones do not.
pub proof fn law_saved_bytes_add_up(
    a: Seq<EntryOutcome>,
    b: Seq<EntryOutcome>,
    bytes: u64,
    path: String,
)
    ensures
        saved_bytes(a + b) == saved_bytes(a) + saved_bytes(b),
        saved_bytes(Seq::empty()) == 0,
        saved_bytes(seq![EntryOutcome::Saved { bytes, path }]) == bytes,
        saved_bytes(seq![EntryOutcome::Failed]) == 0,
    decreases b.len(),
{
    assert(seq![EntryOutcome::Saved { bytes, path }].drop_last() =~= Seq::empty());
    assert(seq![EntryOutcome::Failed].drop_last() =~= Seq::empty());
    if b.len() == 0 {
        assert(a + b =~= a);
    } else {
        law_saved_bytes_add_up(a, b.drop_last(), bytes, path);
        assert((a + b).drop_last() =~= a + b.drop_last());
        assert((a + b).last() == b.last());
    }
}

/// A playlist stands where its last saved entry stands.
pub proof fn law_last_saved_entry(outcomes: Seq<EntryOutcome>, fallback: Seq<char>, i: int)
    requires
        0 <= i < outcomes.len(),
        outcomes[i] is Saved,
        forall|j: int| i < j < outcomes.len() ==> #[trigger] outcomes[j] is Failed,
    ensures
        outcomes[i] matches EntryOutcome::Saved { path, .. } && last_saved(outcomes, fallback)
            == path@,
    decreases outcomes.len(),
{
    if i < outcomes.len() - 1 {
        let rest = outcomes.drop_last();
        assert(outcomes[outcomes.len() - 1] is Failed);
        assert(rest[i] == outcomes[i]);
        assert forall|j: int| i < j < rest.len() implies #[trigger] rest[j] is Failed by {
            assert(rest[j] == outcomes[j]);
        }
        law_last_saved_entry(rest, fallback, i);
    }
}

/// A playlist of which nothing was saved stands in the output directory.
pub proof fn law_nothing_saved(outcomes: Seq<EntryOutcome>, fallback: Seq<char>)
    requires
        forall|j: int| 0 <= j < outcomes.len() ==> #[trigger] outcomes[j] is Failed,
    ensures
        last_saved(outcomes, fallback) == fallback,
    decreases outcomes.len(),
{
    if outcomes.len() > 0 {
        let rest = outcomes.drop_last();
        assert(outcomes[outcomes.len() - 1] is Failed);
        assert forall|j: int| 0 <= j < rest.len() implies #[trigger] rest[j] is Failed by {
            assert(rest[j] == outcomes[j]);
        }
        law_nothing_saved(rest, fallback);
    }
}

// ---------------------------------------------------------------------------
// Links and requests
// ---------------------------------------------------------------------------
proof fn lemma_tails(s: Seq<char>, n: nat)
    requires
        s.len() > 0,
        s.last() != 'p',
    ensures
        without_tails(s + repeated(seq!['p'], n), seq!['p']) == s,
    decreases n,
{
    let all = s + repeated(seq!['p'], n);
    if n == 0 {
        assert(all =~= s);
        if seq!['p'].is_suffix_of(s) {
            assert(s.subrange(s.len() - 1, s.len() as int)[0] == s.last());
        }
    } else {
        let less = (n - 1) as nat;
        lemma_tails(s, less);
        assert(all =~= s + repeated(seq!['p'], less) + seq!['p']);
        assert(all.subrange(all.len() - 1, all.len() as int) =~= seq!['p']);
        assert(all.take(all.len() - 1) =~= s + repeated(seq!['p'], less));
        assert(all.drop_last() =~= s + repeated(seq!['p'], less));
    }
}

/// A quality that is a number names that height, whether letters `p` stand
/// behind it or not; one that is no number names none.
pub proof fn law_wanted_height(h: nat, n: nat, quality: Seq<char>)
    ensures
        h <= u32::MAX ==> wanted_height(Some(decimal(h) + repeated("p"@, n))) == Some(h),
        h > u32::MAX ==> wanted_height(Some(decimal(h) + repeated("p"@, n))) is None,
        wanted_height(None) is None,
        wanted_height(Some(quality)) is Some ==> quality.len() > 0 && ('0' <= quality[0] <= '9'
            || quality[0] == '+'),
{
    reveal_strlit("p");
    assert("p"@ =~= seq!['p']);
    lemma_decimal(h);
    let digits = decimal(h);
    assert(is_digit(digits[digits.len() - 1]));
    lemma_tails(digits, n);
    law_decimal_reads_back(h, u32::MAX as nat);
    if wanted_height(Some(quality)) is Some {
        let bare = without_tails(quality, "p"@);
        law_numbers_are_digits(bare, u32::MAX as nat);
        law_endings_come_off(quality, "p"@);
        let k = choose|k: nat| quality == bare + #[trigger] repeated("p"@, k);
        assert(quality[0] == bare[0]);
    }
}

/// Known media is at its first form.
pub proof fn law_where_media_is(info: MediaView)
    ensures
        info.available_qualities.len() > 0 ==> media_link(info) == info.available_qualities[0].url,
        info.available_qualities.len() == 0 ==> media_link(info).len() == 0,
{
}

/// The paths of series and lists.
pub proof fn law_series_paths(path: Seq<char>)
    ensures
        series_path(path) <==> "/bangumi/"@.is_prefix_of(path) || "/cheese/"@.is_prefix_of(path)
            || occurs_in(path, "/channel/"@) || occurs_in(path, "/favlist/"@) || occurs_in(
            path,
            "/medialist/"@,
        ),
{
}

/// The hosts of the site, in whichever case they are written.
pub proof fn law_own_links(parts: UrlView, host: Seq<char>)
    ensures
        parts.host == Some(host) ==> (own_link(parts) <==> occurs_in(
            lowercase(host),
            "bilibili.com"@,
        ) || occurs_in(lowercase(host), "bilibili.tv"@) || lowercase(host) == "b23.tv"@),
        parts.host is None ==> !own_link(parts),
{
}

/// Only an extractor that can present itself as a browser is told to.
pub proof fn law_flags_for_the_extractor()
    ensures
        browser_flags(true) == seq!["--impersonate"@, "chrome"@],
        browser_flags(false) == Seq::<Seq<char>>::empty(),
        BILIBILI_REFERER@ == "https://www.bilibili.com"@,
{
}

} // verus!
