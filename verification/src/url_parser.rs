//! What a link points at.
use vstd::prelude::*;

use crate::link::{first_value, parse_parts, query_value, url_parts, UrlParts, UrlView};
use crate::platforms::{parts_view, site_of, Platform, PlatformView};
use crate::text::{
    after_last_break, all_digits, chars_of, contains, decimal, decimal_text, ends_with, last_break,
    nonempty, nonempty_parts, number_in, occurs_in, opt_view, parse_number, same, split,
    starts_with, strip_tails, views, without_tails,
};

verus! {

/// What a link points at, and on which site.
#[derive(Debug, Clone)]
pub struct ParsedUrl {
    /// The site.
    pub platform: Platform,
    /// The link itself.
    pub url: String,
    /// What the site calls the content, where the link says it.
    pub content_id: Option<String>,
    /// The sort of content.
    pub content_type: ParsedContentType,
}

/// A sort of content.
#[derive(Debug, Clone, Copy, PartialEq, Eq, Structural)]
pub enum ParsedContentType {
    Video,
    Audio,
    Image,
    Post,
    Profile,
    Course,
    Playlist,
    Clip,
    Reel,
    Short,
    Folder,
    Unknown,
}

impl ParsedContentType {
    /// The name of the sort of content, in lower case.
    pub open spec fn text(self) -> Seq<char> {
        match self {
            ParsedContentType::Video => "video"@,
            ParsedContentType::Audio => "audio"@,
            ParsedContentType::Image => "image"@,
            ParsedContentType::Post => "post"@,
            ParsedContentType::Profile => "profile"@,
            ParsedContentType::Course => "course"@,
            ParsedContentType::Playlist => "playlist"@,
            ParsedContentType::Clip => "clip"@,
            ParsedContentType::Reel => "reel"@,
            ParsedContentType::Short => "short"@,
            ParsedContentType::Folder => "folder"@,
            ParsedContentType::Unknown => "unknown"@,
        }
    }

    /// The name of the sort of content, in lower case.
    pub fn name(&self) -> (r: String)
        ensures
            r@ == self.text(),
    {
        match self {
            ParsedContentType::Video => "video".to_string(),
            ParsedContentType::Audio => "audio".to_string(),
            ParsedContentType::Image => "image".to_string(),
            ParsedContentType::Post => "post".to_string(),
            ParsedContentType::Profile => "profile".to_string(),
            ParsedContentType::Course => "course".to_string(),
            ParsedContentType::Playlist => "playlist".to_string(),
            ParsedContentType::Clip => "clip".to_string(),
            ParsedContentType::Reel => "reel".to_string(),
            ParsedContentType::Short => "short".to_string(),
            ParsedContentType::Folder => "folder".to_string(),
            ParsedContentType::Unknown => "unknown".to_string(),
        }
    }
}

/// The content that a link points at.
pub type Content = (Option<String>, ParsedContentType);

/// The content that a link points at, as characters.
pub type ContentView = (Option<Seq<char>>, ParsedContentType);

/// The characters of the content.
pub open spec fn content_view(c: Content) -> ContentView {
    (opt_view(c.0), c.1)
}

/// Segment `i` of a path, where there is one.
pub open spec fn seg(segs: Seq<Seq<char>>, i: int) -> Option<Seq<char>> {
    if 0 <= i < segs.len() {
        Some(segs[i])
    } else {
        None
    }
}

/// Segment `i` of a path is `word`.
pub open spec fn seg_is(segs: Seq<Seq<char>>, i: int, word: Seq<char>) -> bool {
    0 <= i < segs.len() && segs[i] == word
}

/// No content that the link names.
pub open spec fn nothing() -> ContentView {
    (None, ParsedContentType::Unknown)
}

/// Segment `i` of a path, where there is one.
fn segment(segments: &Vec<String>, i: usize) -> (r: Option<String>)
    ensures
        opt_view(r) == seg(views(segments@), i as int),
{
    if i < segments.len() {
        Some(segments[i].clone())
    } else {
        None
    }
}

/// Whether segment `i` of a path is `word`.
fn segment_is(segments: &Vec<String>, i: usize, word: &str) -> (r: bool)
    ensures
        r == seg_is(views(segments@), i as int, word@),
{
    i < segments.len() && same(segments[i].as_str(), word)
}

/// What a link on YouTube points at.
pub open spec fn youtube(u: UrlView, segs: Seq<Seq<char>>) -> ContentView {
    match first_value(u.query, "v"@) {
        Some(v) => (
            Some(v),
            if first_value(u.query, "list"@) is Some {
                ParsedContentType::Playlist
            } else {
                ParsedContentType::Video
            },
        ),
        None => if u.host matches Some(h) && occurs_in(h, "youtu.be"@) {
            (seg(segs, 0), ParsedContentType::Video)
        } else if seg_is(segs, 0, "shorts"@) {
            (seg(segs, 1), ParsedContentType::Short)
        } else if seg_is(segs, 0, "playlist"@) {
            (first_value(u.query, "list"@), ParsedContentType::Playlist)
        } else if seg_is(segs, 0, "channel"@) || seg_is(segs, 0, "c"@) || (segs.len() > 0
            && "@"@.is_prefix_of(segs[0])) {
            (seg(segs, 0), ParsedContentType::Profile)
        } else {
            nothing()
        },
    }
}

/// What a link on YouTube points at.
pub fn parse_youtube(parsed: &UrlParts, segments: &Vec<String>) -> (r: Content)
    ensures
        content_view(r) == youtube(parsed@, views(segments@)),
{
    if let Some(v) = query_value(&parsed.query, "v") {
        if query_value(&parsed.query, "list").is_some() {
            return (Some(v), ParsedContentType::Playlist);
        }
        return (Some(v), ParsedContentType::Video);
    }
    if let Some(host) = &parsed.host {
        if contains(host.as_str(), "youtu.be") {
            return (segment(segments, 0), ParsedContentType::Video);
        }
    }
    if segment_is(segments, 0, "shorts") {
        return (segment(segments, 1), ParsedContentType::Short);
    }
    if segment_is(segments, 0, "playlist") {
        return (query_value(&parsed.query, "list"), ParsedContentType::Playlist);
    }
    if segment_is(segments, 0, "channel") || segment_is(segments, 0, "c") || (segments.len() > 0
        && starts_with(segments[0].as_str(), "@")) {
        return (segment(segments, 0), ParsedContentType::Profile);
    }
    (None, ParsedContentType::Unknown)
}

/// What a link on Instagram points at.
pub open spec fn instagram(segs: Seq<Seq<char>>) -> ContentView {
    if seg_is(segs, 0, "p"@) {
        (seg(segs, 1), ParsedContentType::Post)
    } else if seg_is(segs, 0, "reel"@) {
        (seg(segs, 1), ParsedContentType::Reel)
    } else if seg_is(segs, 0, "stories"@) {
        (seg(segs, 2), ParsedContentType::Image)
    } else if segs.len() > 0 && segs[0] != "explore"@ && segs[0] != "accounts"@ && segs[0]
        != "direct"@ {
        (seg(segs, 0), ParsedContentType::Profile)
    } else {
        nothing()
    }
}

/// What a link on Instagram points at.
pub fn parse_instagram(segments: &Vec<String>) -> (r: Content)
    ensures
        content_view(r) == instagram(views(segments@)),
{
    if segment_is(segments, 0, "p") {
        (segment(segments, 1), ParsedContentType::Post)
    } else if segment_is(segments, 0, "reel") {
        (segment(segments, 1), ParsedContentType::Reel)
    } else if segment_is(segments, 0, "stories") {
        (segment(segments, 2), ParsedContentType::Image)
    } else if segments.len() > 0 && !segment_is(segments, 0, "explore") && !segment_is(
        segments,
        0,
        "accounts",
    ) && !segment_is(segments, 0, "direct") {
        (segment(segments, 0), ParsedContentType::Profile)
    } else {
        (None, ParsedContentType::Unknown)
    }
}

/// What a link on TikTok points at.
pub open spec fn tiktok(segs: Seq<Seq<char>>) -> ContentView {
    if segs.len() > 0 && "@"@.is_prefix_of(segs[0]) {
        if seg_is(segs, 1, "video"@) {
            (seg(segs, 2), ParsedContentType::Video)
        } else {
            (seg(segs, 0), ParsedContentType::Profile)
        }
    } else {
        (seg(segs, 0), ParsedContentType::Video)
    }
}

/// What a link on TikTok points at.
pub fn parse_tiktok(segments: &Vec<String>) -> (r: Content)
    ensures
        content_view(r) == tiktok(views(segments@)),
{
    if segments.len() > 0 && starts_with(segments[0].as_str(), "@") {
        if segment_is(segments, 1, "video") {
            return (segment(segments, 2), ParsedContentType::Video);
        }
        return (segment(segments, 0), ParsedContentType::Profile);
    }
    (segment(segments, 0), ParsedContentType::Video)
}

/// What a link on Twitter points at.
pub open spec fn twitter(segs: Seq<Seq<char>>) -> ContentView {
    if segs.len() >= 3 && segs[1] == "status"@ {
        (seg(segs, 2), ParsedContentType::Post)
    } else if segs.len() > 0 && segs[0] != "search"@ && segs[0] != "explore"@ && segs[0]
        != "settings"@ && segs[0] != "i"@ {
        (seg(segs, 0), ParsedContentType::Profile)
    } else {
        nothing()
    }
}

/// What a link on Twitter points at.
pub fn parse_twitter(segments: &Vec<String>) -> (r: Content)
    ensures
        content_view(r) == twitter(views(segments@)),
{
    if segments.len() >= 3 && segment_is(segments, 1, "status") {
        return (segment(segments, 2), ParsedContentType::Post);
    }
    if segments.len() > 0 && !segment_is(segments, 0, "search") && !segment_is(
        segments,
        0,
        "explore",
    ) && !segment_is(segments, 0, "settings") && !segment_is(segments, 0, "i") {
        return (segment(segments, 0), ParsedContentType::Profile);
    }
    (None, ParsedContentType::Unknown)
}

/// What a link on Reddit points at.
pub open spec fn reddit(segs: Seq<Seq<char>>) -> ContentView {
    if segs.len() >= 4 && segs[0] == "r"@ && (segs[2] == "comments"@ || segs[2] == "s"@) {
        (seg(segs, 3), ParsedContentType::Post)
    } else if seg_is(segs, 0, "comments"@) {
        (seg(segs, 1), ParsedContentType::Post)
    } else if seg_is(segs, 0, "video"@) {
        (seg(segs, 1), ParsedContentType::Video)
    } else if seg_is(segs, 0, "r"@) {
        (seg(segs, 1), ParsedContentType::Profile)
    } else {
        (seg(segs, 0), ParsedContentType::Video)
    }
}

/// What a link on Reddit points at.
pub fn parse_reddit(segments: &Vec<String>) -> (r: Content)
    ensures
        content_view(r) == reddit(views(segments@)),
{
    proof {
        reveal_strlit("r");
        reveal_strlit("comments");
        reveal_strlit("video");
        assert("r"@.len() == 1 && "comments"@.len() == 8 && "video"@.len() == 5);
    }
    if segments.len() >= 4 && segment_is(segments, 0, "r") && segment_is(segments, 2, "comments") {
        return (segment(segments, 3), ParsedContentType::Post);
    }
    if segment_is(segments, 0, "comments") {
        return (segment(segments, 1), ParsedContentType::Post);
    }
    if segment_is(segments, 0, "video") {
        return (segment(segments, 1), ParsedContentType::Video);
    }
    if segment_is(segments, 0, "r") {
        if segments.len() >= 4 && segment_is(segments, 2, "s") {
            return (segment(segments, 3), ParsedContentType::Post);
        }
        return (segment(segments, 1), ParsedContentType::Profile);
    }
    (segment(segments, 0), ParsedContentType::Video)
}

/// What a link on Twitch points at.
pub open spec fn twitch(u: UrlView, segs: Seq<Seq<char>>) -> ContentView {
    if seg_is(segs, 0, "videos"@) {
        (seg(segs, 1), ParsedContentType::Video)
    } else if u.host matches Some(h) && occurs_in(h, "clips.twitch.tv"@) {
        (seg(segs, 0), ParsedContentType::Clip)
    } else if seg_is(segs, 1, "clip"@) {
        (seg(segs, 2), ParsedContentType::Clip)
    } else if segs.len() > 0 && segs[0] != "directory"@ && segs[0] != "settings"@ && segs[0]
        != "downloads"@ {
        (seg(segs, 0), ParsedContentType::Profile)
    } else {
        nothing()
    }
}

/// What a link on Twitch points at.
pub fn parse_twitch(parsed: &UrlParts, segments: &Vec<String>) -> (r: Content)
    ensures
        content_view(r) == twitch(parsed@, views(segments@)),
{
    if segment_is(segments, 0, "videos") {
        return (segment(segments, 1), ParsedContentType::Video);
    }
    if let Some(host) = &parsed.host {
        if contains(host.as_str(), "clips.twitch.tv") {
            return (segment(segments, 0), ParsedContentType::Clip);
        }
    }
    if segments.len() >= 2 && segment_is(segments, 1, "clip") {
        return (segment(segments, 2), ParsedContentType::Clip);
    }
    if segments.len() > 0 && !segment_is(segments, 0, "directory") && !segment_is(
        segments,
        0,
        "settings",
    ) && !segment_is(segments, 0, "downloads") {
        return (segment(segments, 0), ParsedContentType::Profile);
    }
    (None, ParsedContentType::Unknown)
}

/// Whether some segment is `word`.
fn any_segment(segments: &Vec<String>, word: &str) -> (r: bool)
    ensures
        r == views(segments@).contains(word@),
{
    let mut i: usize = 0;
    while i < segments.len()
        invariant
            i <= segments.len(),
            forall|k: int| 0 <= k < i ==> #[trigger] views(segments@)[k] != word@,
        decreases segments.len() - i,
    {
        if same(segments[i].as_str(), word) {
            assert(views(segments@)[i as int] == word@);
            return true;
        }
        i += 1;
    }
    false
}

/// What a link on Hotmart points at.
pub open spec fn hotmart(segs: Seq<Seq<char>>) -> ContentView {
    if segs.contains("club"@) || segs.contains("lesson"@) || segs.contains("course"@) {
        (seg(segs, segs.len() - 1), ParsedContentType::Course)
    } else {
        nothing()
    }
}

/// What a link on Hotmart points at.
pub fn parse_hotmart(segments: &Vec<String>) -> (r: Content)
    ensures
        content_view(r) == hotmart(views(segments@)),
{
    if any_segment(segments, "club") || any_segment(segments, "lesson") || any_segment(
        segments,
        "course",
    ) {
        return (segment(segments, segments.len() - 1), ParsedContentType::Course);
    }
    (None, ParsedContentType::Unknown)
}

/// The number of a pin: what stands behind the last pair of hyphens.
pub open spec fn pin_id(s: Seq<char>) -> Seq<char> {
    after_last_break(s, "--"@)
}

/// What a link on Pinterest points at.
pub open spec fn pinterest(segs: Seq<Seq<char>>) -> ContentView {
    if seg_is(segs, 0, "pin"@) {
        (
            match seg(segs, 1) {
                Some(s) => Some(pin_id(s)),
                None => None,
            },
            ParsedContentType::Image,
        )
    } else if seg_is(segs, 0, "url_shortener"@) {
        (seg(segs, 1), ParsedContentType::Unknown)
    } else {
        nothing()
    }
}

/// What a link on Pinterest points at.
pub fn parse_pinterest(segments: &Vec<String>) -> (r: Content)
    ensures
        content_view(r) == pinterest(views(segments@)),
{
    if segment_is(segments, 0, "pin") {
        if segments.len() < 2 {
            return (None, ParsedContentType::Image);
        }
        proof {
            reveal_strlit("--");
        }
        return (Some(last_break(segments[1].as_str(), "--")), ParsedContentType::Image);
    }
    if segment_is(segments, 0, "url_shortener") {
        return (segment(segments, 1), ParsedContentType::Unknown);
    }
    (None, ParsedContentType::Unknown)
}

/// What a link on Bluesky points at.
pub open spec fn bluesky(segs: Seq<Seq<char>>) -> ContentView {
    if segs.len() >= 4 && segs[0] == "profile"@ && segs[2] == "post"@ {
        (seg(segs, 3), ParsedContentType::Post)
    } else if seg_is(segs, 0, "profile"@) {
        (seg(segs, 1), ParsedContentType::Profile)
    } else {
        nothing()
    }
}

/// What a link on Bluesky points at.
pub fn parse_bluesky(segments: &Vec<String>) -> (r: Content)
    ensures
        content_view(r) == bluesky(views(segments@)),
{
    if segments.len() >= 4 && segment_is(segments, 0, "profile") && segment_is(segments, 2, "post") {
        return (segment(segments, 3), ParsedContentType::Post);
    }
    if segment_is(segments, 0, "profile") {
        return (segment(segments, 1), ParsedContentType::Profile);
    }
    (None, ParsedContentType::Unknown)
}

/// Whether every character is a digit.
fn only_digits(s: &str) -> (r: bool)
    ensures
        r == all_digits(s@),
{
    let chars = chars_of(s);
    let mut i: usize = 0;
    while i < chars.len()
        invariant
            chars@ == s@,
            i <= chars.len(),
            forall|k: int| 0 <= k < i ==> crate::text::is_digit(#[trigger] s@[k]),
        decreases chars.len() - i,
    {
        let c = chars[i];
        if !('0' <= c && c <= '9') {
            assert(!crate::text::is_digit(s@[i as int]));
            return false;
        }
        i += 1;
    }
    true
}

/// What a link on Vimeo points at.
pub open spec fn vimeo(segs: Seq<Seq<char>>) -> ContentView {
    if segs.len() > 0 && all_digits(segs[0]) {
        (seg(segs, 0), ParsedContentType::Video)
    } else {
        nothing()
    }
}

/// What a link on Vimeo points at.
pub fn parse_vimeo(segments: &Vec<String>) -> (r: Content)
    ensures
        content_view(r) == vimeo(views(segments@)),
{
    if segments.len() > 0 && only_digits(segments[0].as_str()) {
        return (segment(segments, 0), ParsedContentType::Video);
    }
    (None, ParsedContentType::Unknown)
}

/// What a link points at whose first segment is `word`: what stands behind it.
pub open spec fn behind(segs: Seq<Seq<char>>, word: Seq<char>, sort: ParsedContentType) -> ContentView {
    if seg_is(segs, 0, word) {
        (seg(segs, 1), sort)
    } else {
        nothing()
    }
}

/// What a link on Udemy points at.
pub fn parse_udemy(segments: &Vec<String>) -> (r: Content)
    ensures
        content_view(r) == behind(views(segments@), "course"@, ParsedContentType::Course),
{
    if segment_is(segments, 0, "course") {
        return (segment(segments, 1), ParsedContentType::Course);
    }
    (None, ParsedContentType::Unknown)
}

/// What a link on Bilibili points at.
pub fn parse_bilibili(segments: &Vec<String>) -> (r: Content)
    ensures
        content_view(r) == behind(views(segments@), "video"@, ParsedContentType::Video),
{
    if segment_is(segments, 0, "video") {
        return (segment(segments, 1), ParsedContentType::Video);
    }
    (None, ParsedContentType::Unknown)
}

/// What a link on Telegram points at.
pub open spec fn telegram(segs: Seq<Seq<char>>) -> ContentView {
    if segs.len() >= 2 && number_in(segs[1], u64::MAX as nat) is Some {
        (
            Some(segs[0] + "/"@ + decimal(number_in(segs[1], u64::MAX as nat)->0)),
            ParsedContentType::Post,
        )
    } else if segs.len() > 0 && segs[0] != "joinchat"@ && segs[0] != "addstickers"@ && segs[0]
        != "login"@ && segs[0] != "share"@ {
        (seg(segs, 0), ParsedContentType::Profile)
    } else {
        nothing()
    }
}

/// What a link on Telegram points at.
pub fn parse_telegram(segments: &Vec<String>) -> (r: Content)
    ensures
        content_view(r) == telegram(views(segments@)),
{
    if segments.len() >= 2 {
        if let Some(msg_id) = parse_number(segments[1].as_str(), u64::MAX) {
            let mut id = segments[0].clone();
            id.append("/");
            id.append(decimal_text(msg_id).as_str());
            return (Some(id), ParsedContentType::Post);
        }
    }
    if segments.len() > 0 && !segment_is(segments, 0, "joinchat") && !segment_is(
        segments,
        0,
        "addstickers",
    ) && !segment_is(segments, 0, "login") && !segment_is(segments, 0, "share") {
        return (segment(segments, 0), ParsedContentType::Profile);
    }
    (None, ParsedContentType::Unknown)
}

/// What a link on Douyin points at.
pub open spec fn douyin(segs: Seq<Seq<char>>) -> ContentView {
    if segs.len() >= 2 && segs[0] == "video"@ {
        (seg(segs, 1), ParsedContentType::Video)
    } else if segs.len() == 1 {
        (seg(segs, 0), ParsedContentType::Video)
    } else {
        (None, ParsedContentType::Video)
    }
}

/// What a link on Douyin points at.
pub fn parse_douyin(segments: &Vec<String>) -> (r: Content)
    ensures
        content_view(r) == douyin(views(segments@)),
{
    if segments.len() >= 2 && segment_is(segments, 0, "video") {
        return (segment(segments, 1), ParsedContentType::Video);
    }
    if segments.len() == 1 {
        return (segment(segments, 0), ParsedContentType::Video);
    }
    (None, ParsedContentType::Video)
}

/// The first segment that names a page, without the ending of the page.
pub open spec fn first_page(segs: Seq<Seq<char>>) -> Option<Seq<char>>
    decreases segs.len(),
{
    if segs.len() == 0 {
        None
    } else if ".html"@.is_suffix_of(segs[0]) {
        Some(without_tails(segs[0], ".html"@))
    } else {
        first_page(segs.drop_first())
    }
}

/// What a link on Tencent Video points at.
pub fn parse_tencent(segments: &Vec<String>) -> (r: Content)
    ensures
        content_view(r) == (first_page(views(segments@)), ParsedContentType::Video),
{
    let ghost all = views(segments@);
    let mut i: usize = 0;
    assert(all.skip(0) == all);
    proof {
        reveal_strlit(".html");
    }
    while i < segments.len()
        invariant
            i <= segments.len(),
            all == views(segments@),
            ".html"@.len() > 0,
            first_page(all) == first_page(all.skip(i as int)),
        decreases segments.len() - i,
    {
        assert(all.skip(i as int).drop_first() == all.skip(i + 1));
        if ends_with(segments[i].as_str(), ".html") {
            return (Some(strip_tails(segments[i].as_str(), ".html")), ParsedContentType::Video);
        }
        i += 1;
    }
    (None, ParsedContentType::Video)
}

/// What a link to a Quark share points at.
pub open spec fn quark(segs: Seq<Seq<char>>) -> ContentView {
    if seg_is(segs, 0, "s"@) || seg_is(segs, 0, "share"@) {
        (seg(segs, 1), ParsedContentType::Folder)
    } else {
        (None, ParsedContentType::Folder)
    }
}

/// What a link to a Quark share points at.
pub fn parse_quark(segments: &Vec<String>) -> (r: Content)
    ensures
        content_view(r) == quark(views(segments@)),
{
    if segment_is(segments, 0, "s") || segment_is(segments, 0, "share") {
        return (segment(segments, 1), ParsedContentType::Folder);
    }
    (None, ParsedContentType::Folder)
}

/// What a link on Xiaohongshu points at.
pub open spec fn xiaohongshu(segs: Seq<Seq<char>>) -> ContentView {
    if seg_is(segs, 0, "explore"@) {
        (seg(segs, 1), ParsedContentType::Post)
    } else if segs.len() >= 3 && segs[0] == "discovery"@ && segs[1] == "item"@ {
        (seg(segs, 2), ParsedContentType::Post)
    } else {
        (None, ParsedContentType::Post)
    }
}

/// What a link on Xiaohongshu points at.
pub fn parse_xiaohongshu(segments: &Vec<String>) -> (r: Content)
    ensures
        content_view(r) == xiaohongshu(views(segments@)),
{
    if segment_is(segments, 0, "explore") {
        return (segment(segments, 1), ParsedContentType::Post);
    }
    if segments.len() >= 3 && segment_is(segments, 0, "discovery") && segment_is(
        segments,
        1,
        "item",
    ) {
        return (segment(segments, 2), ParsedContentType::Post);
    }
    (None, ParsedContentType::Post)
}

/// What a link on the site `p` points at.
pub open spec fn content(p: PlatformView, u: UrlView) -> ContentView {
    let segs = nonempty(split(u.path, '/'));
    match p {
        PlatformView::YouTube => youtube(u, segs),
        PlatformView::Instagram => instagram(segs),
        PlatformView::TikTok => tiktok(segs),
        PlatformView::Twitter => twitter(segs),
        PlatformView::Reddit => reddit(segs),
        PlatformView::Twitch => twitch(u, segs),
        PlatformView::Hotmart => hotmart(segs),
        PlatformView::Pinterest => pinterest(segs),
        PlatformView::Bluesky => bluesky(segs),
        PlatformView::Telegram => telegram(segs),
        PlatformView::Vimeo => vimeo(segs),
        PlatformView::Udemy => behind(segs, "course"@, ParsedContentType::Course),
        PlatformView::Bilibili => behind(segs, "video"@, ParsedContentType::Video),
        PlatformView::Other(name) => if name == "douyin"@ {
            douyin(segs)
        } else if name == "tencentvideo"@ {
            (first_page(segs), ParsedContentType::Video)
        } else if name == "xiaohongshu"@ {
            xiaohongshu(segs)
        } else if name == "quark"@ {
            quark(segs)
        } else {
            nothing()
        },
    }
}

/// What a link on the site `platform` points at.
pub fn parse_content(platform: &Platform, parsed: &UrlParts) -> (r: Content)
    ensures
        content_view(r) == content(platform@, parsed@),
{
    let segments = nonempty_parts(parsed.path.as_str(), '/');
    match platform {
        Platform::YouTube => parse_youtube(parsed, &segments),
        Platform::Instagram => parse_instagram(&segments),
        Platform::TikTok => parse_tiktok(&segments),
        Platform::Twitter => parse_twitter(&segments),
        Platform::Reddit => parse_reddit(&segments),
        Platform::Twitch => parse_twitch(parsed, &segments),
        Platform::Hotmart => parse_hotmart(&segments),
        Platform::Pinterest => parse_pinterest(&segments),
        Platform::Bluesky => parse_bluesky(&segments),
        Platform::Telegram => parse_telegram(&segments),
        Platform::Vimeo => parse_vimeo(&segments),
        Platform::Udemy => parse_udemy(&segments),
        Platform::Bilibili => parse_bilibili(&segments),
        Platform::Other(name) => {
            let name = name.as_str();
            if same(name, "douyin") {
                parse_douyin(&segments)
            } else if same(name, "tencentvideo") {
                parse_tencent(&segments)
            } else if same(name, "xiaohongshu") {
                parse_xiaohongshu(&segments)
            } else if same(name, "quark") {
                parse_quark(&segments)
            } else {
                (None, ParsedContentType::Unknown)
            }
        },
    }
}

/// `r` is what a link with the parts `parts` says: nothing where its site is not
/// known or where it has no parts.
pub open spec fn says(r: Option<ParsedUrl>, link: Seq<char>, parts: Option<UrlView>) -> bool {
    match r {
        Some(p) => {
            &&& parts is Some
            &&& site_of(link, parts) == Some(p.platform@)
            &&& p.url@ == link
            &&& (opt_view(p.content_id), p.content_type) == content(p.platform@, parts->0)
        },
        None => site_of(link, parts) is None || parts is None,
    }
}

/// What a link with the parts `parts` points at, and on which site.
pub fn parse_parts_of(url_str: &str, parts: &Option<UrlParts>) -> (r: Option<ParsedUrl>)
    ensures
        says(r, url_str@, parts_view(*parts)),
{
    let platform = match Platform::from_parts(url_str, parts) {
        Some(p) => p,
        None => {
            return None;
        },
    };
    match parts {
        Some(parsed) => {
            let (content_id, content_type) = parse_content(&platform, parsed);
            Some(ParsedUrl { platform, url: url_str.to_string(), content_id, content_type })
        },
        None => None,
    }
}

/// What a link points at, and on which site.
pub fn parse_url(url_str: &str) -> (r: Option<ParsedUrl>)
    ensures
        says(r, url_str@, url_parts(url_str@)),
{
    parse_parts_of(url_str, &parse_parts(url_str))
}

} // verus!
