//! What holds of links: what each form of them points at.
use vstd::prelude::*;

use crate::link::{first_value, UrlView};
use crate::platforms::{site_of, PlatformView};
use crate::text::{
    after_last_break, decimal, join, nonempty, number_in, occurs_in, opt_view, split,
    without_tails,
};
use crate::text_laws::{
    law_joined_pieces_split, law_nonempty_pieces, lemma_one_piece, lemma_split_in_two, without,
};
use crate::url_parser::{content, first_page, says, ContentView, ParsedContentType, ParsedUrl};

verus! {

/// The path of the link is these names, each behind a slash.
pub open spec fn leads(u: UrlView, names: Seq<Seq<char>>) -> bool {
    &&& u.path == seq!['/'] + join(names, seq!['/'])
    &&& forall|i: int|
        0 <= i < names.len() ==> (#[trigger] names[i]).len() > 0 && without(names[i], '/')
}

/// The content is of this sort, and name `k` of the path is what the site calls
/// it; where the path has no such name, the link does not say.
pub open spec fn points_at(
    c: ContentView,
    names: Seq<Seq<char>>,
    k: int,
    sort: ParsedContentType,
) -> bool {
    &&& c.1 == sort
    &&& k < names.len() ==> c.0 == Some(names[k])
    &&& k >= names.len() ==> c.0 is None
}

/// Nothing is known of the content.
pub open spec fn points_at_nothing(c: ContentView) -> bool {
    c.0 is None && c.1 == ParsedContentType::Unknown
}

proof fn lemma_all_stay(parts: Seq<Seq<char>>)
    requires
        forall|i: int| 0 <= i < parts.len() ==> (#[trigger] parts[i]).len() > 0,
    ensures
        nonempty(parts) == parts,
    decreases parts.len(),
{
    law_nonempty_pieces(Seq::empty(), Seq::empty(), Seq::empty());
    if parts.len() > 0 {
        let rest = parts.drop_last();
        assert forall|i: int| 0 <= i < rest.len() implies (#[trigger] rest[i]).len() > 0 by {
            assert(rest[i] == parts[i]);
        }
        lemma_all_stay(rest);
        assert(parts[parts.len() - 1].len() > 0);
        law_nonempty_pieces(rest, seq![parts.last()], parts.last());
        assert(parts =~= rest + seq![parts.last()]);
    } else {
        assert(parts =~= Seq::empty());
    }
}

proof fn lemma_leads(u: UrlView, names: Seq<Seq<char>>)
    requires
        leads(u, names),
    ensures
        nonempty(split(u.path, '/')) == names,
{
    let none = Seq::<char>::empty();
    let rest = join(names, seq!['/']);
    lemma_one_piece(none, '/');
    lemma_split_in_two(none, rest, '/');
    assert(u.path =~= none + seq!['/'] + rest);
    law_nonempty_pieces(split(none, '/'), split(rest, '/'), none);
    if names.len() > 0 {
        assert forall|i: int| 0 <= i < names.len() implies without(#[trigger] names[i], '/') by {}
        law_joined_pieces_split(names, '/');
        lemma_all_stay(names);
        assert(nonempty(split(u.path, '/')) =~= names);
    } else {
        assert(rest =~= none);
        assert(nonempty(split(u.path, '/')) =~= names);
    }
}

proof fn lemma_first_page(names: Seq<Seq<char>>, i: int)
    ensures
        (0 <= i < names.len() && ".html"@.is_suffix_of(names[i]) && forall|j: int|
            0 <= j < i ==> !".html"@.is_suffix_of(#[trigger] names[j])) ==> first_page(names)
            == Some(without_tails(names[i], ".html"@)),
        (forall|j: int| 0 <= j < names.len() ==> !".html"@.is_suffix_of(#[trigger] names[j]))
            ==> first_page(names) is None,
    decreases names.len(),
{
    if names.len() > 0 {
        let rest = names.drop_first();
        lemma_first_page(rest, i - 1);
        assert(forall|j: int| 0 <= j < rest.len() ==> #[trigger] rest[j] == names[j + 1]);
    }
}

/// Slashes that are doubled or stand at the end of a path do not matter.
pub proof fn law_slashes_do_not_matter(
    site: PlatformView,
    one: UrlView,
    two: UrlView,
    three: UrlView,
    a: Seq<char>,
    b: Seq<char>,
)
    requires
        one.host == two.host && one.host == three.host,
        one.query == two.query && one.query == three.query,
        one.path == a + seq!['/'] + b,
        two.path == a + seq!['/'] + (seq!['/'] + b),
        three.path == one.path + seq!['/'],
    ensures
        content(site, one) == content(site, two),
        content(site, one) == content(site, three),
{
    let none = Seq::<char>::empty();
    lemma_one_piece(none, '/');
    lemma_split_in_two(a, b, '/');
    lemma_split_in_two(a, seq!['/'] + b, '/');
    lemma_split_in_two(none, b, '/');
    lemma_split_in_two(one.path, none, '/');
    assert(none + seq!['/'] + b =~= seq!['/'] + b);
    assert(three.path =~= one.path + seq!['/'] + none);
    law_nonempty_pieces(split(a, '/'), split(b, '/'), none);
    law_nonempty_pieces(split(a, '/'), split(seq!['/'] + b, '/'), none);
    law_nonempty_pieces(seq![none], split(b, '/'), none);
    law_nonempty_pieces(split(one.path, '/'), seq![none], none);
    assert(nonempty(split(one.path, '/')) =~= nonempty(split(two.path, '/')));
    assert(nonempty(split(one.path, '/')) =~= nonempty(split(three.path, '/')));
}

/// Links of Instagram: posts, reels and stories by their first word, profiles by
/// any word that is none of the site's own.
pub proof fn law_links_of_instagram(u: UrlView, names: Seq<Seq<char>>)
    requires
        leads(u, names),
    ensures
        ({
            let c = content(PlatformView::Instagram, u);
            &&& (names.len() > 0 && names[0] == "p"@)
                ==> points_at(c, names, 1, ParsedContentType::Post)
            &&& (names.len() > 0 && names[0] == "reel"@)
                ==> points_at(c, names, 1, ParsedContentType::Reel)
            &&& (names.len() > 0 && names[0] == "stories"@)
                ==> points_at(c, names, 2, ParsedContentType::Image)
            &&& names.len() > 0 && names[0] != "p"@ && names[0] != "reel"@ && names[0] != "stories"@
                && names[0] != "explore"@ && names[0] != "accounts"@ && names[0] != "direct"@
                ==> points_at(c, names, 0, ParsedContentType::Profile)
            &&& (names.len() == 0 || names[0] == "explore"@ || names[0] == "accounts"@
                || names[0] == "direct"@) ==> points_at_nothing(c)
        }),
{
    lemma_leads(u, names);
    reveal_strlit("p");
    reveal_strlit("reel");
    reveal_strlit("stories");
    reveal_strlit("explore");
    reveal_strlit("accounts");
    reveal_strlit("direct");
    assert("p"@.len() == 1 && "p"@[0] == 'p');
    assert("reel"@.len() == 4 && "reel"@[0] == 'r' && "reel"@[1] == 'e');
    assert("stories"@.len() == 7 && "stories"@[0] == 's' && "stories"@[1] == 't');
    assert("explore"@.len() == 7 && "explore"@[0] == 'e' && "explore"@[1] == 'x');
    assert("accounts"@.len() == 8 && "accounts"@[0] == 'a' && "accounts"@[1] == 'c');
    assert("direct"@.len() == 6 && "direct"@[0] == 'd' && "direct"@[1] == 'i');
}

/// Links of TikTok: videos and profiles behind an at sign, other words as videos.
pub proof fn law_links_of_tiktok(u: UrlView, names: Seq<Seq<char>>)
    requires
        leads(u, names),
    ensures
        ({
            let c = content(PlatformView::TikTok, u);
            &&& (names.len() > 1 && "@"@.is_prefix_of(names[0]) && names[1] == "video"@)
                ==> points_at(c, names, 2, ParsedContentType::Video)
            &&& (names.len() > 0 && "@"@.is_prefix_of(names[0]) && !(names.len() > 1
                && names[1] == "video"@)) ==> points_at(c, names, 0, ParsedContentType::Profile)
            &&& !(names.len() > 0 && "@"@.is_prefix_of(names[0]))
                ==> points_at(c, names, 0, ParsedContentType::Video)
        }),
{
    lemma_leads(u, names);
}

/// Links of Twitter: posts behind `status`, profiles by any first word that is
/// none of the site's own.
pub proof fn law_links_of_twitter(u: UrlView, names: Seq<Seq<char>>)
    requires
        leads(u, names),
    ensures
        ({
            let c = content(PlatformView::Twitter, u);
            &&& (names.len() >= 3 && names[1] == "status"@)
                ==> points_at(c, names, 2, ParsedContentType::Post)
            &&& !(names.len() >= 3 && names[1] == "status"@) && names.len() > 0
                && names[0] != "search"@ && names[0] != "explore"@ && names[0] != "settings"@
                && names[0] != "i"@ ==> points_at(c, names, 0, ParsedContentType::Profile)
            &&& !(names.len() >= 3 && names[1] == "status"@) && (names.len() == 0
                || names[0] == "search"@ || names[0] == "explore"@ || names[0] == "settings"@
                || names[0] == "i"@) ==> points_at_nothing(c)
        }),
{
    lemma_leads(u, names);
}

/// Links of Reddit: posts of a forum, posts and videos by themselves, forums, and
/// other words as videos.
pub proof fn law_links_of_reddit(u: UrlView, names: Seq<Seq<char>>)
    requires
        leads(u, names),
    ensures
        ({
            let c = content(PlatformView::Reddit, u);
            &&& (names.len() >= 4 && names[0] == "r"@ && (names[2] == "comments"@
                || names[2] == "s"@)) ==> points_at(c, names, 3, ParsedContentType::Post)
            &&& (names.len() > 0 && names[0] == "comments"@)
                ==> points_at(c, names, 1, ParsedContentType::Post)
            &&& (names.len() > 0 && names[0] == "video"@)
                ==> points_at(c, names, 1, ParsedContentType::Video)
            &&& (names.len() > 0 && names[0] == "r"@ && !(names.len() >= 4
                && (names[2] == "comments"@ || names[2] == "s"@)))
                ==> points_at(c, names, 1, ParsedContentType::Profile)
            &&& !(names.len() > 0 && (names[0] == "r"@ || names[0] == "comments"@
                || names[0] == "video"@)) ==> points_at(c, names, 0, ParsedContentType::Video)
        }),
{
    lemma_leads(u, names);
    reveal_strlit("r");
    reveal_strlit("comments");
    reveal_strlit("video");
    reveal_strlit("s");
    assert("r"@.len() == 1 && "r"@[0] == 'r');
    assert("comments"@.len() == 8 && "comments"@[0] == 'c' && "comments"@[1] == 'o');
    assert("video"@.len() == 5 && "video"@[0] == 'v' && "video"@[1] == 'i');
    assert("s"@.len() == 1 && "s"@[0] == 's');
}

/// Links of Twitch: videos, clips by their host or behind `clip`, and channels.
pub proof fn law_links_of_twitch(u: UrlView, names: Seq<Seq<char>>, clips: bool)
    requires
        leads(u, names),
        clips <==> (u.host matches Some(h) && occurs_in(h, "clips.twitch.tv"@)),
    ensures
        ({
            let c = content(PlatformView::Twitch, u);
            &&& (names.len() > 0 && names[0] == "videos"@)
                ==> points_at(c, names, 1, ParsedContentType::Video)
            &&& !(names.len() > 0 && names[0] == "videos"@) && clips
                ==> points_at(c, names, 0, ParsedContentType::Clip)
            &&& !(names.len() > 0 && names[0] == "videos"@) && !clips && names.len() > 1
                && names[1] == "clip"@ ==> points_at(c, names, 2, ParsedContentType::Clip)
            &&& !clips && !(names.len() > 1 && names[1] == "clip"@) && names.len() > 0
                && names[0] != "videos"@ && names[0] != "directory"@ && names[0] != "settings"@
                && names[0] != "downloads"@ ==> points_at(c, names, 0, ParsedContentType::Profile)
            &&& !clips && !(names.len() > 1 && names[1] == "clip"@) && (names.len() == 0
                || names[0] == "directory"@ || names[0] == "settings"@ || names[0] == "downloads"@)
                ==> points_at_nothing(c)
        }),
{
    lemma_leads(u, names);
    reveal_strlit("videos");
    reveal_strlit("directory");
    reveal_strlit("settings");
    reveal_strlit("downloads");
    assert("videos"@.len() == 6 && "videos"@[0] == 'v' && "videos"@[1] == 'i');
    assert("directory"@.len() == 9 && "directory"@[0] == 'd' && "directory"@[1] == 'i');
    assert("settings"@.len() == 8 && "settings"@[0] == 's' && "settings"@[1] == 'e');
    assert("downloads"@.len() == 9 && "downloads"@[0] == 'd' && "downloads"@[1] == 'o');
}

/// Links of Hotmart: a course where one of the words says so, named by the last.
pub proof fn law_links_of_hotmart(u: UrlView, names: Seq<Seq<char>>)
    requires
        leads(u, names),
    ensures
        ({
            let c = content(PlatformView::Hotmart, u);
            &&& (names.contains("club"@) || names.contains("lesson"@) || names.contains("course"@))
                ==> c.0 == Some(names.last()) && c.1 == ParsedContentType::Course
            &&& !(names.contains("club"@) || names.contains("lesson"@) || names.contains("course"@))
                ==> points_at_nothing(c)
        }),
{
    lemma_leads(u, names);
}

/// Links of Pinterest: pins, named by what stands behind the last pair of
/// hyphens, and short links.
pub proof fn law_links_of_pinterest(u: UrlView, names: Seq<Seq<char>>)
    requires
        leads(u, names),
    ensures
        ({
            let c = content(PlatformView::Pinterest, u);
            &&& (names.len() > 1 && names[0] == "pin"@)
                ==> c.0 == Some(after_last_break(names[1], "--"@))
                && c.1 == ParsedContentType::Image
            &&& (names.len() == 1 && names[0] == "pin"@) ==> c.0 is None
                && c.1 == ParsedContentType::Image
            &&& (names.len() > 0 && names[0] == "url_shortener"@)
                ==> points_at(c, names, 1, ParsedContentType::Unknown)
            &&& !(names.len() > 0 && names[0] == "pin"@) && !(names.len() > 0
                && names[0] == "url_shortener"@) ==> points_at_nothing(c)
        }),
{
    lemma_leads(u, names);
    reveal_strlit("pin");
    reveal_strlit("url_shortener");
    assert("pin"@.len() == 3 && "pin"@[0] == 'p' && "pin"@[1] == 'i');
    assert("url_shortener"@.len() == 13 && "url_shortener"@[0] == 'u'
        && "url_shortener"@[1] == 'r');
}

/// Links of Bluesky: posts of a profile, and profiles.
pub proof fn law_links_of_bluesky(u: UrlView, names: Seq<Seq<char>>)
    requires
        leads(u, names),
    ensures
        ({
            let c = content(PlatformView::Bluesky, u);
            &&& (names.len() >= 4 && names[0] == "profile"@ && names[2] == "post"@)
                ==> points_at(c, names, 3, ParsedContentType::Post)
            &&& (names.len() > 0 && names[0] == "profile"@ && !(names.len() >= 4
                && names[2] == "post"@)) ==> points_at(c, names, 1, ParsedContentType::Profile)
            &&& !(names.len() > 0 && names[0] == "profile"@) ==> points_at_nothing(c)
        }),
{
    lemma_leads(u, names);
}

/// Links of Telegram: a message by its channel and number, whatever zeros stand
/// before it, and channels by any word that is none of the site's own.
pub proof fn law_links_of_telegram(u: UrlView, names: Seq<Seq<char>>)
    requires
        leads(u, names),
    ensures
        ({
            let c = content(PlatformView::Telegram, u);
            &&& (names.len() >= 2 && number_in(names[1], u64::MAX as nat) is Some)
                ==> c.0 == Some(names[0] + "/"@ + decimal(number_in(names[1], u64::MAX as nat)->0))
                && c.1 == ParsedContentType::Post
            &&& !(names.len() >= 2 && number_in(names[1], u64::MAX as nat) is Some)
                && names.len() > 0 && names[0] != "joinchat"@ && names[0] != "addstickers"@
                && names[0] != "login"@ && names[0] != "share"@
                ==> points_at(c, names, 0, ParsedContentType::Profile)
            &&& !(names.len() >= 2 && number_in(names[1], u64::MAX as nat) is Some)
                && (names.len() == 0 || names[0] == "joinchat"@ || names[0] == "addstickers"@
                || names[0] == "login"@ || names[0] == "share"@) ==> points_at_nothing(c)
        }),
{
    lemma_leads(u, names);
}

/// Links of Vimeo: videos by a first word of digits alone.
pub proof fn law_links_of_vimeo(u: UrlView, names: Seq<Seq<char>>)
    requires
        leads(u, names),
    ensures
        ({
            let c = content(PlatformView::Vimeo, u);
            &&& (names.len() > 0 && forall|i: int| 0 <= i < names[0].len()
                ==> '0' <= #[trigger] names[0][i] <= '9')
                ==> points_at(c, names, 0, ParsedContentType::Video)
            &&& !(names.len() > 0 && forall|i: int| 0 <= i < names[0].len()
                ==> '0' <= #[trigger] names[0][i] <= '9') ==> points_at_nothing(c)
        }),
{
    lemma_leads(u, names);
}

/// Links of Udemy: courses behind their word.
pub proof fn law_links_of_udemy(u: UrlView, names: Seq<Seq<char>>)
    requires
        leads(u, names),
    ensures
        ({
            let c = content(PlatformView::Udemy, u);
            &&& (names.len() > 0 && names[0] == "course"@)
                ==> points_at(c, names, 1, ParsedContentType::Course)
            &&& !(names.len() > 0 && names[0] == "course"@) ==> points_at_nothing(c)
        }),
{
    lemma_leads(u, names);
}

/// Links of Bilibili: videos behind their word.
pub proof fn law_links_of_bilibili(u: UrlView, names: Seq<Seq<char>>)
    requires
        leads(u, names),
    ensures
        ({
            let c = content(PlatformView::Bilibili, u);
            &&& (names.len() > 0 && names[0] == "video"@)
                ==> points_at(c, names, 1, ParsedContentType::Video)
            &&& !(names.len() > 0 && names[0] == "video"@) ==> points_at_nothing(c)
        }),
{
    lemma_leads(u, names);
}

/// Links of Douyin: videos behind their word or by a single word.
pub proof fn law_links_of_douyin(u: UrlView, names: Seq<Seq<char>>)
    requires
        leads(u, names),
    ensures
        ({
            let c = content(PlatformView::Other("douyin"@), u);
            &&& (names.len() >= 2 && names[0] == "video"@)
                ==> points_at(c, names, 1, ParsedContentType::Video)
            &&& (names.len() == 1) ==> points_at(c, names, 0, ParsedContentType::Video)
            &&& (names.len() == 0 || (names.len() >= 2 && names[0] != "video"@)) ==> c.0 is None
                && c.1 == ParsedContentType::Video
        }),
{
    lemma_leads(u, names);
    reveal_strlit("douyin");
    reveal_strlit("tencentvideo");
    reveal_strlit("xiaohongshu");
    reveal_strlit("quark");
    assert("douyin"@.len() == 6 && "douyin"@[0] == 'd' && "douyin"@[1] == 'o');
    assert("tencentvideo"@.len() == 12 && "tencentvideo"@[0] == 't' && "tencentvideo"@[1] == 'e');
    assert("xiaohongshu"@.len() == 11 && "xiaohongshu"@[0] == 'x' && "xiaohongshu"@[1] == 'i');
    assert("quark"@.len() == 5 && "quark"@[0] == 'q' && "quark"@[1] == 'u');
}

/// Links of Xiaohongshu: notes behind `explore` or `discovery/item`.
pub proof fn law_links_of_xiaohongshu(u: UrlView, names: Seq<Seq<char>>)
    requires
        leads(u, names),
    ensures
        ({
            let c = content(PlatformView::Other("xiaohongshu"@), u);
            &&& (names.len() > 0 && names[0] == "explore"@)
                ==> points_at(c, names, 1, ParsedContentType::Post)
            &&& (names.len() >= 3 && names[0] == "discovery"@ && names[1] == "item"@)
                ==> points_at(c, names, 2, ParsedContentType::Post)
            &&& !(names.len() > 0 && names[0] == "explore"@) && !(names.len() >= 3
                && names[0] == "discovery"@ && names[1] == "item"@) ==> c.0 is None
                && c.1 == ParsedContentType::Post
        }),
{
    lemma_leads(u, names);
    reveal_strlit("douyin");
    reveal_strlit("tencentvideo");
    reveal_strlit("xiaohongshu");
    reveal_strlit("quark");
    reveal_strlit("explore");
    reveal_strlit("discovery");
    assert("douyin"@.len() == 6 && "douyin"@[0] == 'd' && "douyin"@[1] == 'o');
    assert("tencentvideo"@.len() == 12 && "tencentvideo"@[0] == 't' && "tencentvideo"@[1] == 'e');
    assert("xiaohongshu"@.len() == 11 && "xiaohongshu"@[0] == 'x' && "xiaohongshu"@[1] == 'i');
    assert("quark"@.len() == 5 && "quark"@[0] == 'q' && "quark"@[1] == 'u');
    assert("explore"@.len() == 7 && "explore"@[0] == 'e' && "explore"@[1] == 'x');
    assert("discovery"@.len() == 9 && "discovery"@[0] == 'd' && "discovery"@[1] == 'i');
}

/// Links of Quark: shares behind `s` or `share`.
pub proof fn law_links_of_quark(u: UrlView, names: Seq<Seq<char>>)
    requires
        leads(u, names),
    ensures
        ({
            let c = content(PlatformView::Other("quark"@), u);
            &&& ((names.len() > 0 && names[0] == "s"@) || (names.len() > 0 && names[0] == "share"@))
                ==> points_at(c, names, 1, ParsedContentType::Folder)
            &&& !(names.len() > 0 && names[0] == "s"@) && !(names.len() > 0 && names[0] == "share"@)
                ==> c.0 is None && c.1 == ParsedContentType::Folder
        }),
{
    lemma_leads(u, names);
    reveal_strlit("douyin");
    reveal_strlit("tencentvideo");
    reveal_strlit("xiaohongshu");
    reveal_strlit("quark");
    assert("douyin"@.len() == 6 && "douyin"@[0] == 'd' && "douyin"@[1] == 'o');
    assert("tencentvideo"@.len() == 12 && "tencentvideo"@[0] == 't' && "tencentvideo"@[1] == 'e');
    assert("xiaohongshu"@.len() == 11 && "xiaohongshu"@[0] == 'x' && "xiaohongshu"@[1] == 'i');
    assert("quark"@.len() == 5 && "quark"@[0] == 'q' && "quark"@[1] == 'u');
}

/// Links of Tencent Video: the first word that names a page, without the ending
/// of the page.
pub proof fn law_links_of_tencent_video(u: UrlView, names: Seq<Seq<char>>, i: int)
    requires
        leads(u, names),
    ensures
        ({
            let c = content(PlatformView::Other("tencentvideo"@), u);
            &&& c.1 == ParsedContentType::Video
            &&& (0 <= i < names.len() && ".html"@.is_suffix_of(names[i])
                && forall|j: int| 0 <= j < i ==> !".html"@.is_suffix_of(#[trigger] names[j]))
                ==> c.0 == Some(without_tails(names[i], ".html"@))
            &&& (forall|j: int| 0 <= j < names.len()
                ==> !".html"@.is_suffix_of(#[trigger] names[j])) ==> c.0 is None
        }),
{
    lemma_leads(u, names);
    lemma_first_page(names, i);
    reveal_strlit("douyin");
    reveal_strlit("tencentvideo");
    reveal_strlit("xiaohongshu");
    reveal_strlit("quark");
    assert("douyin"@.len() == 6 && "douyin"@[0] == 'd' && "douyin"@[1] == 'o');
    assert("tencentvideo"@.len() == 12 && "tencentvideo"@[0] == 't' && "tencentvideo"@[1] == 'e');
    assert("xiaohongshu"@.len() == 11 && "xiaohongshu"@[0] == 'x' && "xiaohongshu"@[1] == 'i');
    assert("quark"@.len() == 5 && "quark"@[0] == 'q' && "quark"@[1] == 'u');
}

/// Of a link on any other site nothing is known.
pub proof fn law_links_of_other_sites(u: UrlView, names: Seq<Seq<char>>, name: Seq<char>)
    requires
        leads(u, names),
        name != "douyin"@,
        name != "tencentvideo"@,
        name != "xiaohongshu"@,
        name != "quark"@,
    ensures
        ({
            let c = content(PlatformView::Other(name), u);
            &&& points_at_nothing(c)
        }),
{
    lemma_leads(u, names);
}

/// Links of YouTube: a video that the query names, in a list where it names one
/// too; else by the short host, or by the first word.
pub proof fn law_links_of_youtube(u: UrlView, names: Seq<Seq<char>>, short: bool)
    requires
        leads(u, names),
        short <==> (u.host matches Some(h) && occurs_in(h, "youtu.be"@)),
    ensures
        ({
            let c = content(PlatformView::YouTube, u);
            &&& first_value(u.query, "v"@) matches Some(v) ==> c.0 == Some(v)
                && (first_value(u.query, "list"@) is Some ==> c.1 == ParsedContentType::Playlist)
                && (first_value(u.query, "list"@) is None ==> c.1 == ParsedContentType::Video)
            &&& first_value(u.query, "v"@) is None && short
                ==> points_at(c, names, 0, ParsedContentType::Video)
            &&& first_value(u.query, "v"@) is None && !short && (names.len() > 0
                && names[0] == "shorts"@) ==> points_at(c, names, 1, ParsedContentType::Short)
            &&& first_value(u.query, "v"@) is None && !short && (names.len() > 0
                && names[0] == "playlist"@) ==> c.0 == first_value(u.query, "list"@)
                && c.1 == ParsedContentType::Playlist
            &&& first_value(u.query, "v"@) is None && !short && names.len() > 0
                && (names[0] == "channel"@ || names[0] == "c"@ || names[0][0] == '@')
                ==> points_at(c, names, 0, ParsedContentType::Profile)
            &&& first_value(u.query, "v"@) is None && !short && !(names.len() > 0
                && (names[0] == "channel"@ || names[0] == "c"@ || names[0][0] == '@'
                || names[0] == "shorts"@ || names[0] == "playlist"@)) ==> points_at_nothing(c)
        }),
{
    lemma_leads(u, names);
    reveal_strlit("@");
    if names.len() > 0 {
        if "@"@.is_prefix_of(names[0]) {
            assert(names[0].subrange(0, 1)[0] == names[0][0]);
        }
        if names[0][0] == '@' {
            assert(names[0].subrange(0, 1) =~= "@"@);
        }
    }
    reveal_strlit("shorts");
    reveal_strlit("playlist");
    reveal_strlit("channel");
    reveal_strlit("c");
    assert("shorts"@.len() == 6 && "shorts"@[0] == 's' && "shorts"@[1] == 'h');
    assert("playlist"@.len() == 8 && "playlist"@[0] == 'p' && "playlist"@[1] == 'l');
    assert("channel"@.len() == 7 && "channel"@[0] == 'c' && "channel"@[1] == 'h');
    assert("c"@.len() == 1 && "c"@[0] == 'c');
}

/// A link is parsed exactly if its site is known and it has parts; then the site,
/// the link and its content are told.
pub proof fn law_parsed_link(r: Option<ParsedUrl>, link: Seq<char>, parts: Option<UrlView>)
    requires
        says(r, link, parts),
    ensures
        r is Some <==> site_of(link, parts) is Some && parts is Some,
        r matches Some(p) ==> {
            &&& site_of(link, parts) == Some(p.platform@)
            &&& p.url@ == link
            &&& opt_view(p.content_id) == content(p.platform@, parts->0).0
            &&& p.content_type == content(p.platform@, parts->0).1
        },
{
}

/// The names of the sorts of content.
pub proof fn law_names_of_sorts()
    ensures
        ParsedContentType::Video.text() == "video"@,
        ParsedContentType::Audio.text() == "audio"@,
        ParsedContentType::Image.text() == "image"@,
        ParsedContentType::Post.text() == "post"@,
        ParsedContentType::Profile.text() == "profile"@,
        ParsedContentType::Course.text() == "course"@,
        ParsedContentType::Playlist.text() == "playlist"@,
        ParsedContentType::Clip.text() == "clip"@,
        ParsedContentType::Reel.text() == "reel"@,
        ParsedContentType::Short.text() == "short"@,
        ParsedContentType::Folder.text() == "folder"@,
        ParsedContentType::Unknown.text() == "unknown"@,
{
}

} // verus!
