//! The sites that are known, and how a link tells which one it belongs to.
pub mod bilibili;
pub mod bilibili_laws;
pub mod quark;
pub mod site_laws;

use vstd::prelude::*;

use crate::link::{parse_parts, url_parts, UrlParts, UrlView};
use crate::text::{
    contains, ends_with, lemma_lowercase_of_lower, lowercase, occurs_in, same, starts_with,
    to_lowercase,
};

verus! {

/// A site.
#[derive(Debug, Clone, PartialEq, Eq, Hash)]
pub enum Platform {
    Hotmart,
    YouTube,
    Instagram,
    TikTok,
    Twitter,
    Reddit,
    Twitch,
    Pinterest,
    Bluesky,
    Telegram,
    Vimeo,
    Udemy,
    Bilibili,
    /// A site without a variant of its own, by its name.
    Other(String),
}

/// A site, with its name as characters.
pub enum PlatformView {
    Hotmart,
    YouTube,
    Instagram,
    TikTok,
    Twitter,
    Reddit,
    Twitch,
    Pinterest,
    Bluesky,
    Telegram,
    Vimeo,
    Udemy,
    Bilibili,
    /// A site without a variant of its own, by its name.
    Other(Seq<char>),
}

impl View for Platform {
    type V = PlatformView;

    open spec fn view(&self) -> PlatformView {
        match self {
            Platform::Hotmart => PlatformView::Hotmart,
            Platform::YouTube => PlatformView::YouTube,
            Platform::Instagram => PlatformView::Instagram,
            Platform::TikTok => PlatformView::TikTok,
            Platform::Twitter => PlatformView::Twitter,
            Platform::Reddit => PlatformView::Reddit,
            Platform::Twitch => PlatformView::Twitch,
            Platform::Pinterest => PlatformView::Pinterest,
            Platform::Bluesky => PlatformView::Bluesky,
            Platform::Telegram => PlatformView::Telegram,
            Platform::Vimeo => PlatformView::Vimeo,
            Platform::Udemy => PlatformView::Udemy,
            Platform::Bilibili => PlatformView::Bilibili,
            Platform::Other(name) => PlatformView::Other(name@),
        }
    }
}

/// A site that may be absent.
pub open spec fn platform_view(p: Option<Platform>) -> Option<PlatformView> {
    match p {
        Some(p) => Some(p@),
        None => None,
    }
}

impl PlatformView {
    /// The name of the site.
    pub open spec fn text(self) -> Seq<char> {
        match self {
            PlatformView::Hotmart => "hotmart"@,
            PlatformView::YouTube => "youtube"@,
            PlatformView::Instagram => "instagram"@,
            PlatformView::TikTok => "tiktok"@,
            PlatformView::Twitter => "twitter"@,
            PlatformView::Reddit => "reddit"@,
            PlatformView::Twitch => "twitch"@,
            PlatformView::Pinterest => "pinterest"@,
            PlatformView::Bluesky => "bluesky"@,
            PlatformView::Telegram => "telegram"@,
            PlatformView::Vimeo => "vimeo"@,
            PlatformView::Udemy => "udemy"@,
            PlatformView::Bilibili => "bilibili"@,
            PlatformView::Other(name) => name,
        }
    }
}

/// The site with a variant of its own that goes by this name, which is in
/// lower case.
pub open spec fn named(name: Seq<char>) -> Option<PlatformView> {
    if name == "hotmart"@ {
        Some(PlatformView::Hotmart)
    } else if name == "youtube"@ || name == "yt"@ {
        Some(PlatformView::YouTube)
    } else if name == "instagram"@ || name == "ig"@ {
        Some(PlatformView::Instagram)
    } else if name == "tiktok"@ || name == "tt"@ {
        Some(PlatformView::TikTok)
    } else if name == "twitter"@ || name == "x"@ {
        Some(PlatformView::Twitter)
    } else if name == "reddit"@ {
        Some(PlatformView::Reddit)
    } else if name == "twitch"@ {
        Some(PlatformView::Twitch)
    } else if name == "pinterest"@ {
        Some(PlatformView::Pinterest)
    } else if name == "bluesky"@ || name == "bsky"@ {
        Some(PlatformView::Bluesky)
    } else if name == "telegram"@ || name == "tg"@ {
        Some(PlatformView::Telegram)
    } else if name == "vimeo"@ {
        Some(PlatformView::Vimeo)
    } else if name == "udemy"@ {
        Some(PlatformView::Udemy)
    } else if name == "bilibili"@ || name == "b站"@ {
        Some(PlatformView::Bilibili)
    } else {
        None
    }
}

/// The host is the domain or lies below it.
pub open spec fn within(host: Seq<char>, domain: Seq<char>) -> bool {
    host == domain || ("."@ + domain).is_suffix_of(host)
}

/// A site without a variant of its own.
pub open spec fn other(name: Seq<char>) -> Option<PlatformView> {
    Some(PlatformView::Other(name))
}

/// The site that a host, in lower case, and a path belong to.
pub open spec fn at_host(host: Seq<char>, path: Seq<char>) -> Option<PlatformView> {
    if within(host, "hotmart.com"@) {
        Some(PlatformView::Hotmart)
    } else if within(host, "youtube.com"@) || within(host, "youtube-nocookie.com"@) || host
        == "youtu.be"@ {
        Some(PlatformView::YouTube)
    } else if within(host, "instagram.com"@) || within(host, "ddinstagram.com"@) {
        Some(PlatformView::Instagram)
    } else if within(host, "tiktok.com"@) {
        Some(PlatformView::TikTok)
    } else if within(host, "twitter.com"@) || within(host, "x.com"@) || within(
        host,
        "vxtwitter.com"@,
    ) || within(host, "fixvx.com"@) {
        Some(PlatformView::Twitter)
    } else if within(host, "reddit.com"@) || host == "v.redd.it"@ || host == "redd.it"@ {
        Some(PlatformView::Reddit)
    } else if within(host, "twitch.tv"@) {
        Some(PlatformView::Twitch)
    } else if host == "pin.it"@ || occurs_in(host, "pinterest."@) {
        Some(PlatformView::Pinterest)
    } else if within(host, "bsky.app"@) {
        Some(PlatformView::Bluesky)
    } else if host == "t.me"@ || within(host, "telegram.me"@) || within(host, "telegram.org"@) {
        Some(PlatformView::Telegram)
    } else if within(host, "vimeo.com"@) {
        Some(PlatformView::Vimeo)
    } else if within(host, "udemy.com"@) {
        Some(PlatformView::Udemy)
    } else if within(host, "bilibili.com"@) || within(host, "bilibili.tv"@) || host == "b23.tv"@ {
        Some(PlatformView::Bilibili)
    } else if within(host, "kiwify.com.br"@) {
        other("kiwify"@)
    } else if within(host, "gumroad.com"@) {
        other("gumroad"@)
    } else if within(host, "teachable.com"@) {
        other("teachable"@)
    } else if within(host, "kajabi.com"@) {
        other("kajabi"@)
    } else if within(host, "skool.com"@) {
        other("skool"@)
    } else if within(host, "thegreatcoursesplus.com"@) || within(host, "wondrium.com"@) {
        other("greatcourses"@)
    } else if within(host, "thinkific.com"@) {
        other("thinkific"@)
    } else if within(host, "rocketseat.com.br"@) {
        other("rocketseat"@)
    } else if within(host, "quark.cn"@) {
        other("quark"@)
    } else if within(host, "douyin.com"@) || within(host, "iesdouyin.com"@) {
        other("douyin"@)
    } else if within(host, "kuaishou.com"@) {
        other("kuaishou"@)
    } else if within(host, "xiaohongshu.com"@) || within(host, "xhslink.com"@) {
        other("xiaohongshu"@)
    } else if within(host, "v.qq.com"@) || (within(host, "qq.com"@) && "/x/"@.is_prefix_of(path)) {
        other("tencentvideo"@)
    } else if within(host, "iqiyi.com"@) {
        other("iqiyi"@)
    } else if within(host, "mgtv.com"@) {
        other("mgtv"@)
    } else if within(host, "youku.com"@) {
        other("youku"@)
    } else {
        None
    }
}

/// The site of a link that shows by its first or last characters: share codes,
/// torrents, and the links under which the files of a share are queued.
pub open spec fn by_form(link: Seq<char>) -> Option<PlatformView> {
    if "p2p:"@.is_prefix_of(link) {
        other("p2p"@)
    } else if "magnet:"@.is_prefix_of(link) || ".torrent"@.is_suffix_of(link) {
        other("magnet"@)
    } else if "quark://"@.is_prefix_of(link) {
        other("quark"@)
    } else {
        None
    }
}

/// The site of a link whose parts are `parts`.
pub open spec fn site_of(link: Seq<char>, parts: Option<UrlView>) -> Option<PlatformView> {
    if by_form(link) is Some {
        by_form(link)
    } else {
        match parts {
            Some(u) => match u.host {
                Some(h) => at_host(lowercase(h), u.path),
                None => None,
            },
            None => None,
        }
    }
}

/// The parts of a link that may be absent.
pub open spec fn parts_view(parts: Option<UrlParts>) -> Option<UrlView> {
    match parts {
        Some(p) => Some(p@),
        None => None,
    }
}

fn is_within(host: &str, domain: &str) -> (r: bool)
    ensures
        r == within(host@, domain@),
{
    if same(host, domain) {
        return true;
    }
    let mut below = ".".to_string();
    below.append(domain);
    ends_with(host, below.as_str())
}

fn other_site(name: &str) -> (r: Option<Platform>)
    ensures
        platform_view(r) == other(name@),
{
    Some(Platform::Other(name.to_string()))
}

impl Platform {
    /// The name of the site.
    pub fn name(&self) -> (r: String)
        ensures
            r@ == self@.text(),
    {
        match self {
            Platform::Hotmart => "hotmart".to_string(),
            Platform::YouTube => "youtube".to_string(),
            Platform::Instagram => "instagram".to_string(),
            Platform::TikTok => "tiktok".to_string(),
            Platform::Twitter => "twitter".to_string(),
            Platform::Reddit => "reddit".to_string(),
            Platform::Twitch => "twitch".to_string(),
            Platform::Pinterest => "pinterest".to_string(),
            Platform::Bluesky => "bluesky".to_string(),
            Platform::Telegram => "telegram".to_string(),
            Platform::Vimeo => "vimeo".to_string(),
            Platform::Udemy => "udemy".to_string(),
            Platform::Bilibili => "bilibili".to_string(),
            Platform::Other(name) => name.clone(),
        }
    }

    /// The site with a variant of its own that goes by the name `n`, which is
    /// in lower case.
    pub fn from_lower_name(n: &str) -> (r: Option<Platform>)
        ensures
            platform_view(r) == named(n@),
    {
        if same(n, "hotmart") {
            Some(Platform::Hotmart)
        } else if same(n, "youtube") || same(n, "yt") {
            Some(Platform::YouTube)
        } else if same(n, "instagram") || same(n, "ig") {
            Some(Platform::Instagram)
        } else if same(n, "tiktok") || same(n, "tt") {
            Some(Platform::TikTok)
        } else if same(n, "twitter") || same(n, "x") {
            Some(Platform::Twitter)
        } else if same(n, "reddit") {
            Some(Platform::Reddit)
        } else if same(n, "twitch") {
            Some(Platform::Twitch)
        } else if same(n, "pinterest") {
            Some(Platform::Pinterest)
        } else if same(n, "bluesky") || same(n, "bsky") {
            Some(Platform::Bluesky)
        } else if same(n, "telegram") || same(n, "tg") {
            Some(Platform::Telegram)
        } else if same(n, "vimeo") {
            Some(Platform::Vimeo)
        } else if same(n, "udemy") {
            Some(Platform::Udemy)
        } else if same(n, "bilibili") || same(n, "b站") {
            Some(Platform::Bilibili)
        } else {
            None
        }
    }

    /// The site that goes by the name `s`, in any case of letters.
    pub fn from_str(s: &str) -> (r: Result<Platform, String>)
        ensures
            match r {
                Ok(p) => named(lowercase(s@)) == Some(p@),
                Err(e) => named(lowercase(s@)) is None && e@ == "Unknown platform: "@ + s@,
            },
    {
        let lower = to_lowercase(s);
        match Platform::from_lower_name(lower.as_str()) {
            Some(p) => Ok(p),
            None => {
                let mut e = "Unknown platform: ".to_string();
                e.append(s);
                Err(e)
            },
        }
    }

    /// The site that a host, in lower case, and a path belong to.
    pub fn from_host(host: &str, path: &str) -> (r: Option<Platform>)
        ensures
            platform_view(r) == at_host(host@, path@),
    {
        if is_within(host, "hotmart.com") {
            Some(Platform::Hotmart)
        } else if is_within(host, "youtube.com") || is_within(host, "youtube-nocookie.com") || same(
            host,
            "youtu.be",
        ) {
            Some(Platform::YouTube)
        } else if is_within(host, "instagram.com") || is_within(host, "ddinstagram.com") {
            Some(Platform::Instagram)
        } else if is_within(host, "tiktok.com") {
            Some(Platform::TikTok)
        } else if is_within(host, "twitter.com") || is_within(host, "x.com") || is_within(
            host,
            "vxtwitter.com",
        ) || is_within(host, "fixvx.com") {
            Some(Platform::Twitter)
        } else if is_within(host, "reddit.com") || same(host, "v.redd.it") || same(host, "redd.it") {
            Some(Platform::Reddit)
        } else if is_within(host, "twitch.tv") {
            Some(Platform::Twitch)
        } else if same(host, "pin.it") || contains(host, "pinterest.") {
            Some(Platform::Pinterest)
        } else if is_within(host, "bsky.app") {
            Some(Platform::Bluesky)
        } else if same(host, "t.me") || is_within(host, "telegram.me") || is_within(
            host,
            "telegram.org",
        ) {
            Some(Platform::Telegram)
        } else if is_within(host, "vimeo.com") {
            Some(Platform::Vimeo)
        } else if is_within(host, "udemy.com") {
            Some(Platform::Udemy)
        } else if is_within(host, "bilibili.com") || is_within(host, "bilibili.tv") || same(
            host,
            "b23.tv",
        ) {
            Some(Platform::Bilibili)
        } else if is_within(host, "kiwify.com.br") {
            other_site("kiwify")
        } else if is_within(host, "gumroad.com") {
            other_site("gumroad")
        } else if is_within(host, "teachable.com") {
            other_site("teachable")
        } else if is_within(host, "kajabi.com") {
            other_site("kajabi")
        } else if is_within(host, "skool.com") {
            other_site("skool")
        } else if is_within(host, "thegreatcoursesplus.com") || is_within(host, "wondrium.com") {
            other_site("greatcourses")
        } else if is_within(host, "thinkific.com") {
            other_site("thinkific")
        } else if is_within(host, "rocketseat.com.br") {
            other_site("rocketseat")
        } else if is_within(host, "quark.cn") {
            other_site("quark")
        } else if is_within(host, "douyin.com") || is_within(host, "iesdouyin.com") {
            other_site("douyin")
        } else if is_within(host, "kuaishou.com") {
            other_site("kuaishou")
        } else if is_within(host, "xiaohongshu.com") || is_within(host, "xhslink.com") {
            other_site("xiaohongshu")
        } else if is_within(host, "v.qq.com") || (is_within(host, "qq.com") && starts_with(
            path,
            "/x/",
        )) {
            other_site("tencentvideo")
        } else if is_within(host, "iqiyi.com") {
            other_site("iqiyi")
        } else if is_within(host, "mgtv.com") {
            other_site("mgtv")
        } else if is_within(host, "youku.com") {
            other_site("youku")
        } else {
            None
        }
    }

    /// The site of a link whose parts are `parts`.
    pub fn from_parts(link: &str, parts: &Option<UrlParts>) -> (r: Option<Platform>)
        ensures
            platform_view(r) == site_of(link@, parts_view(*parts)),
    {
        if starts_with(link, "p2p:") {
            return other_site("p2p");
        }
        if starts_with(link, "magnet:") || ends_with(link, ".torrent") {
            return other_site("magnet");
        }
        if starts_with(link, "quark://") {
            return other_site("quark");
        }
        match parts {
            Some(p) => match &p.host {
                Some(h) => {
                    let host = to_lowercase(h.as_str());
                    Platform::from_host(host.as_str(), p.path.as_str())
                },
                None => None,
            },
            None => None,
        }
    }

    /// The site that a link belongs to, where it is a known one.
    pub fn from_url(url_str: &str) -> (r: Option<Platform>)
        ensures
            platform_view(r) == site_of(url_str@, url_parts(url_str@)),
    {
        let parts = parse_parts(url_str);
        Platform::from_parts(url_str, &parts)
    }

    /// The sites with a variant of their own.
    pub fn all() -> (r: Vec<Platform>)
        ensures
            r@ == seq![
                Platform::Hotmart,
                Platform::YouTube,
                Platform::Instagram,
                Platform::TikTok,
                Platform::Twitter,
                Platform::Reddit,
                Platform::Twitch,
                Platform::Pinterest,
                Platform::Bluesky,
                Platform::Telegram,
                Platform::Vimeo,
                Platform::Udemy,
                Platform::Bilibili,
            ],
    {
        vec![
            Platform::Hotmart,
            Platform::YouTube,
            Platform::Instagram,
            Platform::TikTok,
            Platform::Twitter,
            Platform::Reddit,
            Platform::Twitch,
            Platform::Pinterest,
            Platform::Bluesky,
            Platform::Telegram,
            Platform::Vimeo,
            Platform::Udemy,
            Platform::Bilibili,
        ]
    }
}

impl std::str::FromStr for Platform {
    type Err = String;

    fn from_str(s: &str) -> (r: Result<Platform, String>)
        ensures
            match r {
                Ok(p) => named(lowercase(s@)) == Some(p@),
                Err(e) => named(lowercase(s@)) is None && e@ == "Unknown platform: "@ + s@,
            },
    {
        Platform::from_str(s)
    }
}

/// A site with a variant of its own is found again by its name.
pub proof fn law_name_round_trip(p: PlatformView)
    requires
        !(p is Other),
    ensures
        named(lowercase(p.text())) == Some(p),
{
    reveal_strlit("hotmart");
    reveal_strlit("youtube");
    reveal_strlit("instagram");
    reveal_strlit("tiktok");
    reveal_strlit("twitter");
    reveal_strlit("reddit");
    reveal_strlit("twitch");
    reveal_strlit("pinterest");
    reveal_strlit("bluesky");
    reveal_strlit("telegram");
    reveal_strlit("vimeo");
    reveal_strlit("udemy");
    reveal_strlit("bilibili");
    reveal_strlit("yt");
    reveal_strlit("ig");
    reveal_strlit("tt");
    reveal_strlit("x");
    reveal_strlit("bsky");
    reveal_strlit("tg");
    reveal_strlit("b站");
    let n = p.text();
    lemma_lowercase_of_lower(n);
    assert("hotmart"@[0] == 'h' && "youtube"@[0] == 'y' && "twitter"@[0] == 't' && "bluesky"@[0]
        == 'b');
    assert("instagram"@[0] == 'i' && "pinterest"@[0] == 'p');
    assert("tiktok"@[1] == 'i' && "twitch"@[1] == 'w' && "reddit"@[1] == 'e');
    assert("telegram"@[0] == 't' && "bilibili"@[0] == 'b');
    assert("vimeo"@[0] == 'v' && "udemy"@[0] == 'u');
}

/// A host below one that lies within a domain lies within that domain too,
/// whatever labels stand in front.
pub proof fn law_subdomains_stay_within(labels: Seq<char>, host: Seq<char>, domain: Seq<char>)
    requires
        within(host, domain),
    ensures
        within(labels + "."@ + host, domain),
{
    let below = "."@ + domain;
    let sub = labels + "."@ + host;
    if host == domain {
        assert(sub =~= labels + below);
        assert(sub.subrange(sub.len() - below.len(), sub.len() as int) =~= below);
    } else {
        assert(sub.subrange(sub.len() - below.len(), sub.len() as int) =~= host.subrange(
            host.len() - below.len(),
            host.len() as int,
        ));
    }
}

} // verus!
