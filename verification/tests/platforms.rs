//! Which site a link belongs to, and what it points at there.
use omniget::commands::detect::{detect_platform, queue_name_for};
use omniget::platforms::Platform;
use omniget::url_parser::{parse_url, ParsedContentType};

fn other(name: &str) -> Option<Platform> {
    Some(Platform::Other(name.to_string()))
}

fn content(url: &str) -> (Option<String>, ParsedContentType) {
    let parsed = parse_url(url).unwrap();
    assert_eq!(parsed.url, url);
    (parsed.content_id, parsed.content_type)
}

fn is(url: &str, id: Option<&str>, kind: ParsedContentType) {
    let (found, found_kind) = content(url);
    assert_eq!(found.as_deref(), id, "{}", url);
    assert_eq!(found_kind, kind, "{}", url);
}

#[test]
fn sites_by_host() {
    let cases = vec![
        ("https://app.hotmart.com/x", Platform::Hotmart),
        ("https://www.youtube.com/watch?v=1", Platform::YouTube),
        ("https://www.youtube-nocookie.com/embed/1", Platform::YouTube),
        ("https://youtu.be/1", Platform::YouTube),
        ("https://www.ddinstagram.com/p/1", Platform::Instagram),
        ("https://vm.tiktok.com/1", Platform::TikTok),
        ("https://x.com/a/status/1", Platform::Twitter),
        ("https://fixvx.com/a", Platform::Twitter),
        ("https://v.redd.it/1", Platform::Reddit),
        ("https://clips.twitch.tv/1", Platform::Twitch),
        ("https://br.pinterest.com/pin/1", Platform::Pinterest),
        ("https://pin.it/1", Platform::Pinterest),
        ("https://bsky.app/profile/a", Platform::Bluesky),
        ("https://t.me/a/1", Platform::Telegram),
        ("https://vimeo.com/1", Platform::Vimeo),
        ("https://www.udemy.com/course/a", Platform::Udemy),
        ("https://www.bilibili.com/video/BV1", Platform::Bilibili),
        ("https://b23.tv/1", Platform::Bilibili),
    ];
    for (url, site) in cases {
        assert_eq!(Platform::from_url(url), Some(site), "{}", url);
    }
}

#[test]
fn sites_without_a_variant() {
    for (url, name) in vec![
        ("p2p:one-two-three-four", "p2p"),
        ("magnet:?xt=urn:btih:1", "magnet"),
        ("https://example.com/a.torrent", "magnet"),
        ("quark://download/1", "quark"),
        ("https://pan.quark.cn/s/1", "quark"),
        ("https://a.kiwify.com.br/1", "kiwify"),
        ("https://gumroad.com/1", "gumroad"),
        ("https://a.teachable.com", "teachable"),
        ("https://a.kajabi.com", "kajabi"),
        ("https://www.skool.com", "skool"),
        ("https://www.wondrium.com", "greatcourses"),
        ("https://a.thinkific.com", "thinkific"),
        ("https://app.rocketseat.com.br", "rocketseat"),
        ("https://www.iesdouyin.com/1", "douyin"),
        ("https://www.kuaishou.com/1", "kuaishou"),
        ("https://xhslink.com/1", "xiaohongshu"),
        ("https://v.qq.com/a", "tencentvideo"),
        ("https://m.qq.com/x/a", "tencentvideo"),
        ("https://www.iqiyi.com", "iqiyi"),
        ("https://www.mgtv.com", "mgtv"),
        ("https://v.youku.com", "youku"),
    ] {
        assert_eq!(Platform::from_url(url), other(name), "{}", url);
    }
    assert_eq!(Platform::from_url("https://www.qq.com/a"), None);
}

#[test]
fn lookalike_hosts_are_not_taken() {
    assert_eq!(Platform::from_url("https://notyoutube.com/"), None);
    assert_eq!(Platform::from_url("https://youtube.com.example.org/"), None);
    assert_eq!(Platform::from_url("https://xx.com/"), None);
    assert_eq!(Platform::from_url("no link"), None);
    assert_eq!(Platform::from_url("mailto:a@vimeo.com"), None);
    assert_eq!(Platform::from_url("https://WWW.Vimeo.COM/1"), Some(Platform::Vimeo));
}

#[test]
fn subdomains_belong_to_their_site() {
    assert_eq!(Platform::from_host("a.b.vimeo.com", "/"), Some(Platform::Vimeo));
    assert_eq!(Platform::from_host("vimeo.com", "/"), Some(Platform::Vimeo));
}

#[test]
fn names_read_back() {
    for site in Platform::all() {
        assert_eq!(Platform::from_str(&site.name()), Ok(site));
    }
    assert_eq!(Platform::all().len(), 13);
    assert_eq!(Platform::from_str("YT"), Ok(Platform::YouTube));
    assert_eq!(Platform::from_str("ig"), Ok(Platform::Instagram));
    assert_eq!(Platform::from_str("tt"), Ok(Platform::TikTok));
    assert_eq!(Platform::from_str("X"), Ok(Platform::Twitter));
    assert_eq!(Platform::from_str("bsky"), Ok(Platform::Bluesky));
    assert_eq!(Platform::from_str("tg"), Ok(Platform::Telegram));
    assert_eq!(Platform::from_str("B站"), Ok(Platform::Bilibili));
    assert_eq!(Platform::from_str("Kick"), Err("Unknown platform: Kick".to_string()));
    assert_eq!(Platform::Other("quark".to_string()).name(), "quark");
}

#[test]
fn youtube_links() {
    is("https://www.youtube.com/watch?v=abc", Some("abc"), ParsedContentType::Video);
    is("https://www.youtube.com/watch?list=l&v=abc", Some("abc"), ParsedContentType::Playlist);
    is("https://youtu.be/abc", Some("abc"), ParsedContentType::Video);
    is("https://www.youtube.com/shorts/abc", Some("abc"), ParsedContentType::Short);
    is("https://www.youtube.com/playlist?list=l", Some("l"), ParsedContentType::Playlist);
    is("https://www.youtube.com/@name/videos", Some("@name"), ParsedContentType::Profile);
    is("https://www.youtube.com/channel/abc", Some("channel"), ParsedContentType::Profile);
    is("https://www.youtube.com/feed", None, ParsedContentType::Unknown);
}

#[test]
fn instagram_and_tiktok_links() {
    is("https://www.instagram.com/p/abc/", Some("abc"), ParsedContentType::Post);
    is("https://www.instagram.com/reel/abc", Some("abc"), ParsedContentType::Reel);
    is("https://www.instagram.com/stories/u/9", Some("9"), ParsedContentType::Image);
    is("https://www.instagram.com/user", Some("user"), ParsedContentType::Profile);
    is("https://www.instagram.com/explore", None, ParsedContentType::Unknown);
    is("https://www.tiktok.com/@u/video/9", Some("9"), ParsedContentType::Video);
    is("https://www.tiktok.com/@u", Some("@u"), ParsedContentType::Profile);
    is("https://vm.tiktok.com/ZM1/", Some("ZM1"), ParsedContentType::Video);
}

#[test]
fn twitter_reddit_and_twitch_links() {
    is("https://x.com/u/status/9", Some("9"), ParsedContentType::Post);
    is("https://x.com/u", Some("u"), ParsedContentType::Profile);
    is("https://x.com/search", None, ParsedContentType::Unknown);
    is("https://www.reddit.com/r/a/comments/9/t", Some("9"), ParsedContentType::Post);
    is("https://www.reddit.com/comments/9", Some("9"), ParsedContentType::Post);
    is("https://www.reddit.com/video/9", Some("9"), ParsedContentType::Video);
    is("https://www.reddit.com/r/a/s/9", Some("9"), ParsedContentType::Post);
    is("https://www.reddit.com/r/a", Some("a"), ParsedContentType::Profile);
    is("https://v.redd.it/9", Some("9"), ParsedContentType::Video);
    is("https://www.twitch.tv/videos/9", Some("9"), ParsedContentType::Video);
    is("https://clips.twitch.tv/9", Some("9"), ParsedContentType::Clip);
    is("https://www.twitch.tv/u/clip/9", Some("9"), ParsedContentType::Clip);
    is("https://www.twitch.tv/u", Some("u"), ParsedContentType::Profile);
    is("https://www.twitch.tv/directory", None, ParsedContentType::Unknown);
}

#[test]
fn pinterest_bluesky_and_telegram_links() {
    is("https://www.pinterest.com/pin/a--b--9/", Some("9"), ParsedContentType::Image);
    is("https://www.pinterest.com/pin/9/", Some("9"), ParsedContentType::Image);
    is("https://www.pinterest.com/url_shortener/9", Some("9"), ParsedContentType::Unknown);
    is("https://bsky.app/profile/u/post/9", Some("9"), ParsedContentType::Post);
    is("https://bsky.app/profile/u", Some("u"), ParsedContentType::Profile);
    is("https://bsky.app/", None, ParsedContentType::Unknown);
    is("https://t.me/c/007", Some("c/7"), ParsedContentType::Post);
    is("https://t.me/c/x", Some("c"), ParsedContentType::Profile);
    is("https://t.me/joinchat/x", None, ParsedContentType::Unknown);
}

#[test]
fn course_and_video_links() {
    is("https://app.hotmart.com/club/a/lesson/9", Some("9"), ParsedContentType::Course);
    is("https://app.hotmart.com/tools", None, ParsedContentType::Unknown);
    is("https://vimeo.com/123", Some("123"), ParsedContentType::Video);
    is("https://vimeo.com/name", None, ParsedContentType::Unknown);
    is("https://www.udemy.com/course/slug/", Some("slug"), ParsedContentType::Course);
    is("https://www.udemy.com/", None, ParsedContentType::Unknown);
    is("https://www.bilibili.com/video/BV1/", Some("BV1"), ParsedContentType::Video);
    is("https://www.bilibili.com/read/1", None, ParsedContentType::Unknown);
}

#[test]
fn chinese_sites() {
    is("https://www.douyin.com/video/9", Some("9"), ParsedContentType::Video);
    is("https://v.douyin.com/9", Some("9"), ParsedContentType::Video);
    is("https://www.douyin.com/a/b", None, ParsedContentType::Video);
    is("https://v.qq.com/x/cover/abc.html", Some("abc"), ParsedContentType::Video);
    is("https://v.qq.com/x/cover", None, ParsedContentType::Video);
    is("https://www.xiaohongshu.com/explore/9", Some("9"), ParsedContentType::Post);
    is("https://www.xiaohongshu.com/discovery/item/9", Some("9"), ParsedContentType::Post);
    is("https://www.xiaohongshu.com/user", None, ParsedContentType::Post);
    is("https://pan.quark.cn/s/9#/list", Some("9"), ParsedContentType::Folder);
    is("https://pan.quark.cn/list", None, ParsedContentType::Folder);
    is("https://www.iqiyi.com/v_9", None, ParsedContentType::Unknown);
}

#[test]
fn unknown_links_say_nothing() {
    assert!(parse_url("https://example.com/").is_none());
    assert!(parse_url("rubbish").is_none());
    // A site by its form alone, but no link.
    assert!(parse_url("some file.torrent").is_none());
}

#[test]
fn detection_for_the_user() {
    let info = detect_platform("https://www.youtube.com/shorts/abc");
    assert_eq!(info.platform, "youtube");
    assert!(info.supported);
    assert_eq!(info.content_id.as_deref(), Some("abc"));
    assert_eq!(info.content_type.as_deref(), Some("short"));

    let info = detect_platform("some file.torrent");
    assert_eq!((info.platform.as_str(), info.supported), ("magnet", true));
    assert!(info.content_id.is_none() && info.content_type.is_none());

    let info = detect_platform("https://example.com/video");
    assert_eq!((info.platform.as_str(), info.supported), ("generic", true));
    assert!(info.content_type.is_none());

    let info = detect_platform("ftp://example.com/video");
    assert_eq!((info.platform.as_str(), info.supported), ("unknown", false));
    assert_eq!(detect_platform("rubbish").platform, "unknown");
}

#[test]
fn queue_names() {
    assert_eq!(queue_name_for("https://vimeo.com/1"), "vimeo");
    assert_eq!(queue_name_for("https://example.com/"), "generic");
}
