//! Which hosts belong to which site.
use vstd::prelude::*;

use crate::link::UrlView;
use crate::platforms::{at_host, by_form, named, other, site_of, within, PlatformView};
use crate::text::{lowercase, occurs_in};

verus! {

/// Character `k` of a text from its end on; beyond its start, a point.
spec fn tail(s: Seq<char>, k: int) -> char {
    if 0 <= k < s.len() {
        s[s.len() - 1 - k]
    } else {
        '.'
    }
}

spec fn agree(a: Seq<char>, b: Seq<char>) -> bool {
    forall|k: int| 0 <= k <= a.len() && k <= b.len() ==> #[trigger] tail(a, k) == tail(b, k)
}

proof fn lemma_agree(host: Seq<char>, d: Seq<char>)
    requires
        within(host, d),
    ensures
        forall|k: int| 0 <= k <= d.len() ==> #[trigger] tail(host, k) == tail(d, k),
{
    reveal_strlit(".");
    let below = "."@ + d;
    if host != d {
        assert forall|k: int| 0 <= k <= d.len() implies #[trigger] tail(host, k) == tail(d, k) by {
            let s = host.subrange(host.len() - below.len(), host.len() as int);
            assert(s == below);
            assert(s[below.len() - 1 - k] == host[host.len() - 1 - k]);
        }
    }
}

/// A host that lies within one domain lies within another only where the ends of
/// the two agree.
proof fn lemma_home(host: Seq<char>, d: Seq<char>)
    requires
        within(host, d),
    ensures
        forall|e: Seq<char>| #[trigger] within(host, e) ==> agree(d, e),
        forall|k: int|
            #![trigger tail(host, k)]
            #![trigger tail(d, k)]
            0 <= k <= d.len() ==> tail(host, k) == tail(d, k),
{
    lemma_agree(host, d);
    assert forall|e: Seq<char>| #[trigger] within(host, e) implies agree(d, e) by {
        lemma_agree(host, e);
        assert forall|k: int| 0 <= k <= d.len() && k <= e.len() implies #[trigger] tail(d, k)
            == tail(e, k) by {
            assert(tail(host, k) == tail(d, k));
        }
    }
}

/// The ends of the domains, as far as it takes to tell them apart.
proof fn lemma_ends()
    ensures
        "hotmart.com"@.len() == 11 && tail("hotmart.com"@, 0) == 'm'
            && tail("hotmart.com"@, 1) == 'o' && tail("hotmart.com"@, 2) == 'c'
            && tail("hotmart.com"@, 3) == '.' && tail("hotmart.com"@, 4) == 't'
            && tail("hotmart.com"@, 5) == 'r',
        "youtube.com"@.len() == 11 && tail("youtube.com"@, 0) == 'm'
            && tail("youtube.com"@, 1) == 'o' && tail("youtube.com"@, 2) == 'c'
            && tail("youtube.com"@, 3) == '.' && tail("youtube.com"@, 4) == 'e'
            && tail("youtube.com"@, 5) == 'b',
        "youtube-nocookie.com"@.len() == 20 && tail("youtube-nocookie.com"@, 0) == 'm'
            && tail("youtube-nocookie.com"@, 1) == 'o' && tail("youtube-nocookie.com"@, 2) == 'c'
            && tail("youtube-nocookie.com"@, 3) == '.' && tail("youtube-nocookie.com"@, 4) == 'e'
            && tail("youtube-nocookie.com"@, 5) == 'i',
        "youtu.be"@.len() == 8 && tail("youtu.be"@, 0) == 'e' && tail("youtu.be"@, 1) == 'b',
        "instagram.com"@.len() == 13 && tail("instagram.com"@, 0) == 'm'
            && tail("instagram.com"@, 1) == 'o' && tail("instagram.com"@, 2) == 'c'
            && tail("instagram.com"@, 3) == '.' && tail("instagram.com"@, 4) == 'm'
            && tail("instagram.com"@, 5) == 'a' && tail("instagram.com"@, 6) == 'r'
            && tail("instagram.com"@, 7) == 'g' && tail("instagram.com"@, 8) == 'a'
            && tail("instagram.com"@, 9) == 't' && tail("instagram.com"@, 10) == 's'
            && tail("instagram.com"@, 11) == 'n' && tail("instagram.com"@, 12) == 'i'
            && tail("instagram.com"@, 13) == '.',
        "ddinstagram.com"@.len() == 15 && tail("ddinstagram.com"@, 0) == 'm'
            && tail("ddinstagram.com"@, 1) == 'o' && tail("ddinstagram.com"@, 2) == 'c'
            && tail("ddinstagram.com"@, 3) == '.' && tail("ddinstagram.com"@, 4) == 'm'
            && tail("ddinstagram.com"@, 5) == 'a' && tail("ddinstagram.com"@, 6) == 'r'
            && tail("ddinstagram.com"@, 7) == 'g' && tail("ddinstagram.com"@, 8) == 'a'
            && tail("ddinstagram.com"@, 9) == 't' && tail("ddinstagram.com"@, 10) == 's'
            && tail("ddinstagram.com"@, 11) == 'n' && tail("ddinstagram.com"@, 12) == 'i'
            && tail("ddinstagram.com"@, 13) == 'd',
        "tiktok.com"@.len() == 10 && tail("tiktok.com"@, 0) == 'm' && tail("tiktok.com"@, 1) == 'o'
            && tail("tiktok.com"@, 2) == 'c' && tail("tiktok.com"@, 3) == '.'
            && tail("tiktok.com"@, 4) == 'k' && tail("tiktok.com"@, 5) == 'o',
        "twitter.com"@.len() == 11 && tail("twitter.com"@, 0) == 'm'
            && tail("twitter.com"@, 1) == 'o' && tail("twitter.com"@, 2) == 'c'
            && tail("twitter.com"@, 3) == '.' && tail("twitter.com"@, 4) == 'r'
            && tail("twitter.com"@, 5) == 'e' && tail("twitter.com"@, 6) == 't'
            && tail("twitter.com"@, 7) == 't' && tail("twitter.com"@, 8) == 'i'
            && tail("twitter.com"@, 9) == 'w' && tail("twitter.com"@, 10) == 't'
            && tail("twitter.com"@, 11) == '.',
        "x.com"@.len() == 5 && tail("x.com"@, 0) == 'm' && tail("x.com"@, 1) == 'o'
            && tail("x.com"@, 2) == 'c' && tail("x.com"@, 3) == '.' && tail("x.com"@, 4) == 'x'
            && tail("x.com"@, 5) == '.',
        "vxtwitter.com"@.len() == 13 && tail("vxtwitter.com"@, 0) == 'm'
            && tail("vxtwitter.com"@, 1) == 'o' && tail("vxtwitter.com"@, 2) == 'c'
            && tail("vxtwitter.com"@, 3) == '.' && tail("vxtwitter.com"@, 4) == 'r'
            && tail("vxtwitter.com"@, 5) == 'e' && tail("vxtwitter.com"@, 6) == 't'
            && tail("vxtwitter.com"@, 7) == 't' && tail("vxtwitter.com"@, 8) == 'i'
            && tail("vxtwitter.com"@, 9) == 'w' && tail("vxtwitter.com"@, 10) == 't'
            && tail("vxtwitter.com"@, 11) == 'x',
        "fixvx.com"@.len() == 9 && tail("fixvx.com"@, 0) == 'm' && tail("fixvx.com"@, 1) == 'o'
            && tail("fixvx.com"@, 2) == 'c' && tail("fixvx.com"@, 3) == '.'
            && tail("fixvx.com"@, 4) == 'x' && tail("fixvx.com"@, 5) == 'v',
        "reddit.com"@.len() == 10 && tail("reddit.com"@, 0) == 'm' && tail("reddit.com"@, 1) == 'o'
            && tail("reddit.com"@, 2) == 'c' && tail("reddit.com"@, 3) == '.'
            && tail("reddit.com"@, 4) == 't' && tail("reddit.com"@, 5) == 'i',
        "v.redd.it"@.len() == 9 && tail("v.redd.it"@, 0) == 't' && tail("v.redd.it"@, 1) == 'i'
            && tail("v.redd.it"@, 2) == '.' && tail("v.redd.it"@, 3) == 'd',
        "redd.it"@.len() == 7 && tail("redd.it"@, 0) == 't' && tail("redd.it"@, 1) == 'i'
            && tail("redd.it"@, 2) == '.' && tail("redd.it"@, 3) == 'd',
        "twitch.tv"@.len() == 9 && tail("twitch.tv"@, 0) == 'v' && tail("twitch.tv"@, 1) == 't'
            && tail("twitch.tv"@, 2) == '.' && tail("twitch.tv"@, 3) == 'h',
        "pin.it"@.len() == 6 && tail("pin.it"@, 0) == 't' && tail("pin.it"@, 1) == 'i'
            && tail("pin.it"@, 2) == '.' && tail("pin.it"@, 3) == 'n',
        "bsky.app"@.len() == 8 && tail("bsky.app"@, 0) == 'p',
        "t.me"@.len() == 4 && tail("t.me"@, 0) == 'e' && tail("t.me"@, 1) == 'm'
            && tail("t.me"@, 2) == '.' && tail("t.me"@, 3) == 't',
        "telegram.me"@.len() == 11 && tail("telegram.me"@, 0) == 'e'
            && tail("telegram.me"@, 1) == 'm' && tail("telegram.me"@, 2) == '.'
            && tail("telegram.me"@, 3) == 'm',
        "telegram.org"@.len() == 12 && tail("telegram.org"@, 0) == 'g',
        "vimeo.com"@.len() == 9 && tail("vimeo.com"@, 0) == 'm' && tail("vimeo.com"@, 1) == 'o'
            && tail("vimeo.com"@, 2) == 'c' && tail("vimeo.com"@, 3) == '.'
            && tail("vimeo.com"@, 4) == 'o',
        "udemy.com"@.len() == 9 && tail("udemy.com"@, 0) == 'm' && tail("udemy.com"@, 1) == 'o'
            && tail("udemy.com"@, 2) == 'c' && tail("udemy.com"@, 3) == '.'
            && tail("udemy.com"@, 4) == 'y',
        "bilibili.com"@.len() == 12 && tail("bilibili.com"@, 0) == 'm'
            && tail("bilibili.com"@, 1) == 'o' && tail("bilibili.com"@, 2) == 'c'
            && tail("bilibili.com"@, 3) == '.' && tail("bilibili.com"@, 4) == 'i'
            && tail("bilibili.com"@, 5) == 'l',
        "bilibili.tv"@.len() == 11 && tail("bilibili.tv"@, 0) == 'v'
            && tail("bilibili.tv"@, 1) == 't' && tail("bilibili.tv"@, 2) == '.'
            && tail("bilibili.tv"@, 3) == 'i',
        "b23.tv"@.len() == 6 && tail("b23.tv"@, 0) == 'v' && tail("b23.tv"@, 1) == 't'
            && tail("b23.tv"@, 2) == '.' && tail("b23.tv"@, 3) == '3',
        "kiwify.com.br"@.len() == 13 && tail("kiwify.com.br"@, 0) == 'r'
            && tail("kiwify.com.br"@, 1) == 'b' && tail("kiwify.com.br"@, 2) == '.'
            && tail("kiwify.com.br"@, 3) == 'm' && tail("kiwify.com.br"@, 4) == 'o'
            && tail("kiwify.com.br"@, 5) == 'c' && tail("kiwify.com.br"@, 6) == '.'
            && tail("kiwify.com.br"@, 7) == 'y',
        "gumroad.com"@.len() == 11 && tail("gumroad.com"@, 0) == 'm'
            && tail("gumroad.com"@, 1) == 'o' && tail("gumroad.com"@, 2) == 'c'
            && tail("gumroad.com"@, 3) == '.' && tail("gumroad.com"@, 4) == 'd',
        "teachable.com"@.len() == 13 && tail("teachable.com"@, 0) == 'm'
            && tail("teachable.com"@, 1) == 'o' && tail("teachable.com"@, 2) == 'c'
            && tail("teachable.com"@, 3) == '.' && tail("teachable.com"@, 4) == 'e'
            && tail("teachable.com"@, 5) == 'l',
        "kajabi.com"@.len() == 10 && tail("kajabi.com"@, 0) == 'm' && tail("kajabi.com"@, 1) == 'o'
            && tail("kajabi.com"@, 2) == 'c' && tail("kajabi.com"@, 3) == '.'
            && tail("kajabi.com"@, 4) == 'i' && tail("kajabi.com"@, 5) == 'b',
        "skool.com"@.len() == 9 && tail("skool.com"@, 0) == 'm' && tail("skool.com"@, 1) == 'o'
            && tail("skool.com"@, 2) == 'c' && tail("skool.com"@, 3) == '.'
            && tail("skool.com"@, 4) == 'l',
        "thegreatcoursesplus.com"@.len() == 23 && tail("thegreatcoursesplus.com"@, 0) == 'm'
            && tail("thegreatcoursesplus.com"@, 1) == 'o'
            && tail("thegreatcoursesplus.com"@, 2) == 'c'
            && tail("thegreatcoursesplus.com"@, 3) == '.'
            && tail("thegreatcoursesplus.com"@, 4) == 's',
        "wondrium.com"@.len() == 12 && tail("wondrium.com"@, 0) == 'm'
            && tail("wondrium.com"@, 1) == 'o' && tail("wondrium.com"@, 2) == 'c'
            && tail("wondrium.com"@, 3) == '.' && tail("wondrium.com"@, 4) == 'm'
            && tail("wondrium.com"@, 5) == 'u',
        "thinkific.com"@.len() == 13 && tail("thinkific.com"@, 0) == 'm'
            && tail("thinkific.com"@, 1) == 'o' && tail("thinkific.com"@, 2) == 'c'
            && tail("thinkific.com"@, 3) == '.' && tail("thinkific.com"@, 4) == 'c',
        "rocketseat.com.br"@.len() == 17 && tail("rocketseat.com.br"@, 0) == 'r'
            && tail("rocketseat.com.br"@, 1) == 'b' && tail("rocketseat.com.br"@, 2) == '.'
            && tail("rocketseat.com.br"@, 3) == 'm' && tail("rocketseat.com.br"@, 4) == 'o'
            && tail("rocketseat.com.br"@, 5) == 'c' && tail("rocketseat.com.br"@, 6) == '.'
            && tail("rocketseat.com.br"@, 7) == 't',
        "quark.cn"@.len() == 8 && tail("quark.cn"@, 0) == 'n',
        "douyin.com"@.len() == 10 && tail("douyin.com"@, 0) == 'm' && tail("douyin.com"@, 1) == 'o'
            && tail("douyin.com"@, 2) == 'c' && tail("douyin.com"@, 3) == '.'
            && tail("douyin.com"@, 4) == 'n' && tail("douyin.com"@, 5) == 'i'
            && tail("douyin.com"@, 6) == 'y' && tail("douyin.com"@, 7) == 'u'
            && tail("douyin.com"@, 8) == 'o' && tail("douyin.com"@, 9) == 'd'
            && tail("douyin.com"@, 10) == '.',
        "iesdouyin.com"@.len() == 13 && tail("iesdouyin.com"@, 0) == 'm'
            && tail("iesdouyin.com"@, 1) == 'o' && tail("iesdouyin.com"@, 2) == 'c'
            && tail("iesdouyin.com"@, 3) == '.' && tail("iesdouyin.com"@, 4) == 'n'
            && tail("iesdouyin.com"@, 5) == 'i' && tail("iesdouyin.com"@, 6) == 'y'
            && tail("iesdouyin.com"@, 7) == 'u' && tail("iesdouyin.com"@, 8) == 'o'
            && tail("iesdouyin.com"@, 9) == 'd' && tail("iesdouyin.com"@, 10) == 's',
        "kuaishou.com"@.len() == 12 && tail("kuaishou.com"@, 0) == 'm'
            && tail("kuaishou.com"@, 1) == 'o' && tail("kuaishou.com"@, 2) == 'c'
            && tail("kuaishou.com"@, 3) == '.' && tail("kuaishou.com"@, 4) == 'u'
            && tail("kuaishou.com"@, 5) == 'o',
        "xiaohongshu.com"@.len() == 15 && tail("xiaohongshu.com"@, 0) == 'm'
            && tail("xiaohongshu.com"@, 1) == 'o' && tail("xiaohongshu.com"@, 2) == 'c'
            && tail("xiaohongshu.com"@, 3) == '.' && tail("xiaohongshu.com"@, 4) == 'u'
            && tail("xiaohongshu.com"@, 5) == 'h',
        "xhslink.com"@.len() == 11 && tail("xhslink.com"@, 0) == 'm'
            && tail("xhslink.com"@, 1) == 'o' && tail("xhslink.com"@, 2) == 'c'
            && tail("xhslink.com"@, 3) == '.' && tail("xhslink.com"@, 4) == 'k'
            && tail("xhslink.com"@, 5) == 'n',
        "v.qq.com"@.len() == 8 && tail("v.qq.com"@, 0) == 'm' && tail("v.qq.com"@, 1) == 'o'
            && tail("v.qq.com"@, 2) == 'c' && tail("v.qq.com"@, 3) == '.'
            && tail("v.qq.com"@, 4) == 'q',
        "qq.com"@.len() == 6 && tail("qq.com"@, 0) == 'm' && tail("qq.com"@, 1) == 'o'
            && tail("qq.com"@, 2) == 'c' && tail("qq.com"@, 3) == '.' && tail("qq.com"@, 4) == 'q',
        "iqiyi.com"@.len() == 9 && tail("iqiyi.com"@, 0) == 'm' && tail("iqiyi.com"@, 1) == 'o'
            && tail("iqiyi.com"@, 2) == 'c' && tail("iqiyi.com"@, 3) == '.'
            && tail("iqiyi.com"@, 4) == 'i' && tail("iqiyi.com"@, 5) == 'y',
        "mgtv.com"@.len() == 8 && tail("mgtv.com"@, 0) == 'm' && tail("mgtv.com"@, 1) == 'o'
            && tail("mgtv.com"@, 2) == 'c' && tail("mgtv.com"@, 3) == '.'
            && tail("mgtv.com"@, 4) == 'v',
        "youku.com"@.len() == 9 && tail("youku.com"@, 0) == 'm' && tail("youku.com"@, 1) == 'o'
            && tail("youku.com"@, 2) == 'c' && tail("youku.com"@, 3) == '.'
            && tail("youku.com"@, 4) == 'u' && tail("youku.com"@, 5) == 'k',
{
    reveal_strlit("hotmart.com");
    reveal_strlit("youtube.com");
    reveal_strlit("youtube-nocookie.com");
    reveal_strlit("youtu.be");
    reveal_strlit("instagram.com");
    reveal_strlit("ddinstagram.com");
    reveal_strlit("tiktok.com");
    reveal_strlit("twitter.com");
    reveal_strlit("x.com");
    reveal_strlit("vxtwitter.com");
    reveal_strlit("fixvx.com");
    reveal_strlit("reddit.com");
    reveal_strlit("v.redd.it");
    reveal_strlit("redd.it");
    reveal_strlit("twitch.tv");
    reveal_strlit("pin.it");
    reveal_strlit("bsky.app");
    reveal_strlit("t.me");
    reveal_strlit("telegram.me");
    reveal_strlit("telegram.org");
    reveal_strlit("vimeo.com");
    reveal_strlit("udemy.com");
    reveal_strlit("bilibili.com");
    reveal_strlit("bilibili.tv");
    reveal_strlit("b23.tv");
    reveal_strlit("kiwify.com.br");
    reveal_strlit("gumroad.com");
    reveal_strlit("teachable.com");
    reveal_strlit("kajabi.com");
    reveal_strlit("skool.com");
    reveal_strlit("thegreatcoursesplus.com");
    reveal_strlit("wondrium.com");
    reveal_strlit("thinkific.com");
    reveal_strlit("rocketseat.com.br");
    reveal_strlit("quark.cn");
    reveal_strlit("douyin.com");
    reveal_strlit("iesdouyin.com");
    reveal_strlit("kuaishou.com");
    reveal_strlit("xiaohongshu.com");
    reveal_strlit("xhslink.com");
    reveal_strlit("v.qq.com");
    reveal_strlit("qq.com");
    reveal_strlit("iqiyi.com");
    reveal_strlit("mgtv.com");
    reveal_strlit("youku.com");
}

/// The hosts of the sites with variants of their own, up to Twitch: each domain
/// and every host below it.
pub proof fn law_hosts_of_the_large_sites(host: Seq<char>, path: Seq<char>)
    ensures
        within(host, "hotmart.com"@) ==> at_host(host, path) == Some(PlatformView::Hotmart),
        within(host, "youtube.com"@) ==> at_host(host, path) == Some(PlatformView::YouTube),
        within(host, "youtube-nocookie.com"@)
            ==> at_host(host, path) == Some(PlatformView::YouTube),
        host == "youtu.be"@ ==> at_host(host, path) == Some(PlatformView::YouTube),
        within(host, "instagram.com"@) ==> at_host(host, path) == Some(PlatformView::Instagram),
        within(host, "ddinstagram.com"@) ==> at_host(host, path) == Some(PlatformView::Instagram),
        within(host, "tiktok.com"@) ==> at_host(host, path) == Some(PlatformView::TikTok),
        within(host, "twitter.com"@) ==> at_host(host, path) == Some(PlatformView::Twitter),
        within(host, "x.com"@) ==> at_host(host, path) == Some(PlatformView::Twitter),
        within(host, "vxtwitter.com"@) ==> at_host(host, path) == Some(PlatformView::Twitter),
        within(host, "fixvx.com"@) ==> at_host(host, path) == Some(PlatformView::Twitter),
        within(host, "reddit.com"@) ==> at_host(host, path) == Some(PlatformView::Reddit),
        host == "v.redd.it"@ ==> at_host(host, path) == Some(PlatformView::Reddit),
        host == "redd.it"@ ==> at_host(host, path) == Some(PlatformView::Reddit),
        within(host, "twitch.tv"@) ==> at_host(host, path) == Some(PlatformView::Twitch),
{
    lemma_ends();
    if within(host, "hotmart.com"@) {
        lemma_home(host, "hotmart.com"@);
    }
    if within(host, "youtube.com"@) {
        lemma_home(host, "youtube.com"@);
    }
    if within(host, "youtube-nocookie.com"@) {
        lemma_home(host, "youtube-nocookie.com"@);
    }
    if host == "youtu.be"@ {
        lemma_home(host, "youtu.be"@);
    }
    if within(host, "instagram.com"@) {
        lemma_home(host, "instagram.com"@);
    }
    if within(host, "ddinstagram.com"@) {
        lemma_home(host, "ddinstagram.com"@);
    }
    if within(host, "tiktok.com"@) {
        lemma_home(host, "tiktok.com"@);
    }
    if within(host, "twitter.com"@) {
        lemma_home(host, "twitter.com"@);
    }
    if within(host, "x.com"@) {
        lemma_home(host, "x.com"@);
    }
    if within(host, "vxtwitter.com"@) {
        lemma_home(host, "vxtwitter.com"@);
    }
    if within(host, "fixvx.com"@) {
        lemma_home(host, "fixvx.com"@);
    }
    if within(host, "reddit.com"@) {
        lemma_home(host, "reddit.com"@);
    }
    if host == "v.redd.it"@ {
        lemma_home(host, "v.redd.it"@);
    }
    if host == "redd.it"@ {
        lemma_home(host, "redd.it"@);
    }
    if within(host, "twitch.tv"@) {
        lemma_home(host, "twitch.tv"@);
    }
}

/// The hosts of the other sites with variants of their own: each domain and
/// every host below it. A host that names Pinterest belongs to that.
pub proof fn law_hosts_of_the_other_variants(host: Seq<char>, path: Seq<char>)
    requires
        !occurs_in(host, "pinterest."@),
    ensures
        within(host, "bsky.app"@) ==> at_host(host, path) == Some(PlatformView::Bluesky),
        host == "t.me"@ ==> at_host(host, path) == Some(PlatformView::Telegram),
        within(host, "telegram.me"@) ==> at_host(host, path) == Some(PlatformView::Telegram),
        within(host, "telegram.org"@) ==> at_host(host, path) == Some(PlatformView::Telegram),
        within(host, "vimeo.com"@) ==> at_host(host, path) == Some(PlatformView::Vimeo),
        within(host, "udemy.com"@) ==> at_host(host, path) == Some(PlatformView::Udemy),
        within(host, "bilibili.com"@) ==> at_host(host, path) == Some(PlatformView::Bilibili),
        within(host, "bilibili.tv"@) ==> at_host(host, path) == Some(PlatformView::Bilibili),
        host == "b23.tv"@ ==> at_host(host, path) == Some(PlatformView::Bilibili),
{
    lemma_ends();
    if within(host, "bsky.app"@) {
        lemma_home(host, "bsky.app"@);
    }
    if host == "t.me"@ {
        lemma_home(host, "t.me"@);
    }
    if within(host, "telegram.me"@) {
        lemma_home(host, "telegram.me"@);
    }
    if within(host, "telegram.org"@) {
        lemma_home(host, "telegram.org"@);
    }
    if within(host, "vimeo.com"@) {
        lemma_home(host, "vimeo.com"@);
    }
    if within(host, "udemy.com"@) {
        lemma_home(host, "udemy.com"@);
    }
    if within(host, "bilibili.com"@) {
        lemma_home(host, "bilibili.com"@);
    }
    if within(host, "bilibili.tv"@) {
        lemma_home(host, "bilibili.tv"@);
    }
    if host == "b23.tv"@ {
        lemma_home(host, "b23.tv"@);
    }
}

/// The hosts of the sites that sell courses: each domain and every host below
/// it. A host that names Pinterest belongs to that.
pub proof fn law_hosts_of_the_course_sites(host: Seq<char>, path: Seq<char>)
    requires
        !occurs_in(host, "pinterest."@),
    ensures
        within(host, "kiwify.com.br"@) ==> at_host(host, path) == other("kiwify"@),
        within(host, "gumroad.com"@) ==> at_host(host, path) == other("gumroad"@),
        within(host, "teachable.com"@) ==> at_host(host, path) == other("teachable"@),
        within(host, "kajabi.com"@) ==> at_host(host, path) == other("kajabi"@),
        within(host, "skool.com"@) ==> at_host(host, path) == other("skool"@),
        within(host, "thegreatcoursesplus.com"@) ==> at_host(host, path) == other("greatcourses"@),
        within(host, "wondrium.com"@) ==> at_host(host, path) == other("greatcourses"@),
        within(host, "thinkific.com"@) ==> at_host(host, path) == other("thinkific"@),
        within(host, "rocketseat.com.br"@) ==> at_host(host, path) == other("rocketseat"@),
{
    lemma_ends();
    if within(host, "kiwify.com.br"@) {
        lemma_home(host, "kiwify.com.br"@);
    }
    if within(host, "gumroad.com"@) {
        lemma_home(host, "gumroad.com"@);
    }
    if within(host, "teachable.com"@) {
        lemma_home(host, "teachable.com"@);
    }
    if within(host, "kajabi.com"@) {
        lemma_home(host, "kajabi.com"@);
    }
    if within(host, "skool.com"@) {
        lemma_home(host, "skool.com"@);
    }
    if within(host, "thegreatcoursesplus.com"@) {
        lemma_home(host, "thegreatcoursesplus.com"@);
    }
    if within(host, "wondrium.com"@) {
        lemma_home(host, "wondrium.com"@);
    }
    if within(host, "thinkific.com"@) {
        lemma_home(host, "thinkific.com"@);
    }
    if within(host, "rocketseat.com.br"@) {
        lemma_home(host, "rocketseat.com.br"@);
    }
}

/// The hosts of the drive and of the video sites of China: each domain and every
/// host below it. A host that names Pinterest belongs to that.
pub proof fn law_hosts_of_the_eastern_sites(host: Seq<char>, path: Seq<char>)
    requires
        !occurs_in(host, "pinterest."@),
    ensures
        within(host, "quark.cn"@) ==> at_host(host, path) == other("quark"@),
        within(host, "douyin.com"@) ==> at_host(host, path) == other("douyin"@),
        within(host, "iesdouyin.com"@) ==> at_host(host, path) == other("douyin"@),
        within(host, "kuaishou.com"@) ==> at_host(host, path) == other("kuaishou"@),
        within(host, "xiaohongshu.com"@) ==> at_host(host, path) == other("xiaohongshu"@),
        within(host, "xhslink.com"@) ==> at_host(host, path) == other("xiaohongshu"@),
        within(host, "v.qq.com"@) ==> at_host(host, path) == other("tencentvideo"@),
        within(host, "qq.com"@) && "/x/"@.is_prefix_of(path)
            ==> at_host(host, path) == other("tencentvideo"@),
        within(host, "iqiyi.com"@) ==> at_host(host, path) == other("iqiyi"@),
        within(host, "mgtv.com"@) ==> at_host(host, path) == other("mgtv"@),
        within(host, "youku.com"@) ==> at_host(host, path) == other("youku"@),
{
    lemma_ends();
    if within(host, "quark.cn"@) {
        lemma_home(host, "quark.cn"@);
    }
    if within(host, "douyin.com"@) {
        lemma_home(host, "douyin.com"@);
    }
    if within(host, "iesdouyin.com"@) {
        lemma_home(host, "iesdouyin.com"@);
    }
    if within(host, "kuaishou.com"@) {
        lemma_home(host, "kuaishou.com"@);
    }
    if within(host, "xiaohongshu.com"@) {
        lemma_home(host, "xiaohongshu.com"@);
    }
    if within(host, "xhslink.com"@) {
        lemma_home(host, "xhslink.com"@);
    }
    if within(host, "v.qq.com"@) {
        lemma_home(host, "v.qq.com"@);
    }
    if within(host, "qq.com"@) {
        lemma_home(host, "qq.com"@);
    }
    if within(host, "iqiyi.com"@) {
        lemma_home(host, "iqiyi.com"@);
    }
    if within(host, "mgtv.com"@) {
        lemma_home(host, "mgtv.com"@);
    }
    if within(host, "youku.com"@) {
        lemma_home(host, "youku.com"@);
    }
}

/// A host lies within a domain exactly if it is the domain, or labels and a
/// point before it.
pub proof fn law_within_a_domain(host: Seq<char>, labels: Seq<char>, domain: Seq<char>)
    ensures
        within(domain, domain),
        within(labels + "."@ + domain, domain),
        within(host, domain) && host != domain ==> exists|l: Seq<char>| host == #[trigger] (l + "."@
            + domain),
{
    let below = "."@ + domain;
    let sub = labels + "."@ + domain;
    assert(sub =~= labels + below);
    assert(sub.subrange(sub.len() - below.len(), sub.len() as int) =~= below);
    if within(host, domain) && host != domain {
        let n = host.len() - below.len();
        let l = host.take(n);
        assert(host.subrange(n, host.len() as int) == below);
        assert(host =~= l + host.subrange(n, host.len() as int));
        assert(host =~= l + "."@ + domain);
    }
}

/// Pinterest has a domain in every country: a host that names it belongs to it,
/// unless it lies within the domain of a site that is looked at before.
pub proof fn law_hosts_of_pinterest(host: Seq<char>, path: Seq<char>)
    ensures
        host == "pin.it"@ ==> at_host(host, path) == Some(PlatformView::Pinterest),
        occurs_in(host, "pinterest."@) 
            && !(within(host, "hotmart.com"@))
            && !(within(host, "youtube.com"@))
            && !(within(host, "youtube-nocookie.com"@))
            && !(host == "youtu.be"@)
            && !(within(host, "instagram.com"@))
            && !(within(host, "ddinstagram.com"@))
            && !(within(host, "tiktok.com"@))
            && !(within(host, "twitter.com"@))
            && !(within(host, "x.com"@))
            && !(within(host, "vxtwitter.com"@))
            && !(within(host, "fixvx.com"@))
            && !(within(host, "reddit.com"@))
            && !(host == "v.redd.it"@)
            && !(host == "redd.it"@)
            && !(within(host, "twitch.tv"@))
            ==> at_host(host, path) == Some(PlatformView::Pinterest),
{
    lemma_ends();
    if host == "pin.it"@ {
        lemma_home(host, "pin.it"@);
    }
}

/// A host belongs to a site only where it lies within one of the site's own
/// domains, and to none where it lies within no known domain.
pub proof fn law_sites_have_these_hosts_only(host: Seq<char>, path: Seq<char>)
    ensures
        at_host(host, path) == Some(PlatformView::Hotmart) ==> within(host, "hotmart.com"@),
        at_host(host, path) == Some(PlatformView::YouTube) ==> within(host, "youtube.com"@)
            || within(host, "youtube-nocookie.com"@) || host == "youtu.be"@,
        at_host(host, path) == Some(PlatformView::Instagram) ==> within(host, "instagram.com"@)
            || within(host, "ddinstagram.com"@),
        at_host(host, path) == Some(PlatformView::TikTok) ==> within(host, "tiktok.com"@),
        at_host(host, path) == Some(PlatformView::Twitter) ==> within(host, "twitter.com"@)
            || within(host, "x.com"@) || within(host, "vxtwitter.com"@)
            || within(host, "fixvx.com"@),
        at_host(host, path) == Some(PlatformView::Reddit) ==> within(host, "reddit.com"@)
            || host == "v.redd.it"@ || host == "redd.it"@,
        at_host(host, path) == Some(PlatformView::Twitch) ==> within(host, "twitch.tv"@),
        at_host(host, path) == Some(PlatformView::Pinterest) ==> host == "pin.it"@
            || occurs_in(host, "pinterest."@),
        at_host(host, path) == Some(PlatformView::Bluesky) ==> within(host, "bsky.app"@),
        at_host(host, path) == Some(PlatformView::Telegram) ==> host == "t.me"@
            || within(host, "telegram.me"@) || within(host, "telegram.org"@),
        at_host(host, path) == Some(PlatformView::Vimeo) ==> within(host, "vimeo.com"@),
        at_host(host, path) == Some(PlatformView::Udemy) ==> within(host, "udemy.com"@),
        at_host(host, path) == Some(PlatformView::Bilibili) ==> within(host, "bilibili.com"@)
            || within(host, "bilibili.tv"@) || host == "b23.tv"@,
        at_host(host, path) matches Some(PlatformView::Other(name)) ==> {
            ||| name == "kiwify"@ && within(host, "kiwify.com.br"@)
            ||| name == "gumroad"@ && within(host, "gumroad.com"@)
            ||| name == "teachable"@ && within(host, "teachable.com"@)
            ||| name == "kajabi"@ && within(host, "kajabi.com"@)
            ||| name == "skool"@ && within(host, "skool.com"@)
            ||| name == "greatcourses"@ && (within(host, "thegreatcoursesplus.com"@)
                || within(host, "wondrium.com"@))
            ||| name == "thinkific"@ && within(host, "thinkific.com"@)
            ||| name == "rocketseat"@ && within(host, "rocketseat.com.br"@)
            ||| name == "quark"@ && within(host, "quark.cn"@)
            ||| name == "douyin"@ && (within(host, "douyin.com"@) || within(host, "iesdouyin.com"@))
            ||| name == "kuaishou"@ && within(host, "kuaishou.com"@)
            ||| name == "xiaohongshu"@ && (within(host, "xiaohongshu.com"@)
                || within(host, "xhslink.com"@))
            ||| name == "tencentvideo"@ && (within(host, "v.qq.com"@) || (within(host, "qq.com"@)
                && "/x/"@.is_prefix_of(path)))
            ||| name == "iqiyi"@ && within(host, "iqiyi.com"@)
            ||| name == "mgtv"@ && within(host, "mgtv.com"@)
            ||| name == "youku"@ && within(host, "youku.com"@)
        },
{
}

proof fn lemma_starts_with(prefix: Seq<char>, rest: Seq<char>, k: int)
    requires
        0 <= k < prefix.len(),
    ensures
        prefix.is_prefix_of(prefix + rest),
        forall|p: Seq<char>|
            k < p.len() && p[k] != prefix[k] ==> !(#[trigger] p.is_prefix_of(prefix + rest)),
{
    let s = prefix + rest;
    assert(s.subrange(0, prefix.len() as int) =~= prefix);
    assert forall|p: Seq<char>| k < p.len() && p[k] != prefix[k] implies !(
    #[trigger] p.is_prefix_of(s)) by {
        if p.is_prefix_of(s) {
            assert(s.subrange(0, p.len() as int)[k] == s[k]);
        }
    }
}

/// Links that show by their form what they are: share codes, torrents and the
/// links of waiting files.
pub proof fn law_links_by_form(link: Seq<char>, rest: Seq<char>)
    ensures
        by_form("p2p:"@ + rest) == other("p2p"@),
        by_form("magnet:"@ + rest) == other("magnet"@),
        !"p2p:"@.is_prefix_of(rest + ".torrent"@) ==> by_form(rest + ".torrent"@) == other(
            "magnet"@,
        ),
        !".torrent"@.is_suffix_of("quark://"@ + rest) ==> by_form("quark://"@ + rest) == other(
            "quark"@,
        ),
        by_form(link) is Some ==> "p2p:"@.is_prefix_of(link) || "magnet:"@.is_prefix_of(link)
            || ".torrent"@.is_suffix_of(link) || "quark://"@.is_prefix_of(link),
{
    reveal_strlit("p2p:");
    reveal_strlit("magnet:");
    reveal_strlit("quark://");
    assert("p2p:"@[0] == 'p' && "magnet:"@[0] == 'm' && "quark://"@[0] == 'q');
    lemma_starts_with("p2p:"@, rest, 0);
    lemma_starts_with("magnet:"@, rest, 0);
    lemma_starts_with("quark://"@, rest, 0);
    let t = rest + ".torrent"@;
    assert(t.subrange(t.len() - ".torrent"@.len(), t.len() as int) =~= ".torrent"@);
}

/// The form of a link decides first, then its host in lower case; a link without
/// a host that is known by neither belongs to no site.
pub proof fn law_site_of_a_link(link: Seq<char>, parts: UrlView)
    ensures
        by_form(link) matches Some(site) ==> site_of(link, Some(parts)) == Some(site) && site_of(
            link,
            None,
        ) == Some(site),
        by_form(link) is None && parts.host is Some ==> site_of(link, Some(parts)) == at_host(
            lowercase(parts.host->0),
            parts.path,
        ),
        by_form(link) is None && parts.host is None ==> site_of(link, Some(parts)) is None,
        by_form(link) is None ==> site_of(link, None) is None,
{
}

/// The names that sites go by, and no others.
pub proof fn law_names_of_sites(name: Seq<char>)
    ensures
        named(name) == Some(PlatformView::Hotmart) <==> name == "hotmart"@,
        named(name) == Some(PlatformView::YouTube) <==> name == "youtube"@ || name == "yt"@,
        named(name) == Some(PlatformView::Instagram) <==> name == "instagram"@ || name == "ig"@,
        named(name) == Some(PlatformView::TikTok) <==> name == "tiktok"@ || name == "tt"@,
        named(name) == Some(PlatformView::Twitter) <==> name == "twitter"@ || name == "x"@,
        named(name) == Some(PlatformView::Reddit) <==> name == "reddit"@,
        named(name) == Some(PlatformView::Twitch) <==> name == "twitch"@,
        named(name) == Some(PlatformView::Pinterest) <==> name == "pinterest"@,
        named(name) == Some(PlatformView::Bluesky) <==> name == "bluesky"@ || name == "bsky"@,
        named(name) == Some(PlatformView::Telegram) <==> name == "telegram"@ || name == "tg"@,
        named(name) == Some(PlatformView::Vimeo) <==> name == "vimeo"@,
        named(name) == Some(PlatformView::Udemy) <==> name == "udemy"@,
        named(name) == Some(PlatformView::Bilibili) <==> name == "bilibili"@ || name == "b站"@,
        !(named(name) matches Some(PlatformView::Other(_))),
{
    reveal_strlit("hotmart");
    reveal_strlit("youtube");
    reveal_strlit("yt");
    reveal_strlit("instagram");
    reveal_strlit("ig");
    reveal_strlit("tiktok");
    reveal_strlit("tt");
    reveal_strlit("twitter");
    reveal_strlit("x");
    reveal_strlit("reddit");
    reveal_strlit("twitch");
    reveal_strlit("pinterest");
    reveal_strlit("bluesky");
    reveal_strlit("bsky");
    reveal_strlit("telegram");
    reveal_strlit("tg");
    reveal_strlit("vimeo");
    reveal_strlit("udemy");
    reveal_strlit("bilibili");
    reveal_strlit("b站");
    assert("hotmart"@.len() == 7 && "hotmart"@[0] == 'h' && "hotmart"@[1] == 'o'
        && "hotmart"@[2] == 't');
    assert("youtube"@.len() == 7 && "youtube"@[0] == 'y' && "youtube"@[1] == 'o'
        && "youtube"@[2] == 'u');
    assert("yt"@.len() == 2 && "yt"@[0] == 'y' && "yt"@[1] == 't');
    assert("instagram"@.len() == 9 && "instagram"@[0] == 'i' && "instagram"@[1] == 'n'
        && "instagram"@[2] == 's');
    assert("ig"@.len() == 2 && "ig"@[0] == 'i' && "ig"@[1] == 'g');
    assert("tiktok"@.len() == 6 && "tiktok"@[0] == 't' && "tiktok"@[1] == 'i'
        && "tiktok"@[2] == 'k');
    assert("tt"@.len() == 2 && "tt"@[0] == 't' && "tt"@[1] == 't');
    assert("twitter"@.len() == 7 && "twitter"@[0] == 't' && "twitter"@[1] == 'w'
        && "twitter"@[2] == 'i');
    assert("x"@.len() == 1 && "x"@[0] == 'x');
    assert("reddit"@.len() == 6 && "reddit"@[0] == 'r' && "reddit"@[1] == 'e'
        && "reddit"@[2] == 'd');
    assert("twitch"@.len() == 6 && "twitch"@[0] == 't' && "twitch"@[1] == 'w'
        && "twitch"@[2] == 'i');
    assert("pinterest"@.len() == 9 && "pinterest"@[0] == 'p' && "pinterest"@[1] == 'i'
        && "pinterest"@[2] == 'n');
    assert("bluesky"@.len() == 7 && "bluesky"@[0] == 'b' && "bluesky"@[1] == 'l'
        && "bluesky"@[2] == 'u');
    assert("bsky"@.len() == 4 && "bsky"@[0] == 'b' && "bsky"@[1] == 's' && "bsky"@[2] == 'k');
    assert("telegram"@.len() == 8 && "telegram"@[0] == 't' && "telegram"@[1] == 'e'
        && "telegram"@[2] == 'l');
    assert("tg"@.len() == 2 && "tg"@[0] == 't' && "tg"@[1] == 'g');
    assert("vimeo"@.len() == 5 && "vimeo"@[0] == 'v' && "vimeo"@[1] == 'i' && "vimeo"@[2] == 'm');
    assert("udemy"@.len() == 5 && "udemy"@[0] == 'u' && "udemy"@[1] == 'd' && "udemy"@[2] == 'e');
    assert("bilibili"@.len() == 8 && "bilibili"@[0] == 'b' && "bilibili"@[1] == 'i'
        && "bilibili"@[2] == 'l');
    assert("b站"@.len() == 2 && "b站"@[0] == 'b' && "b站"@[1] == '站');
}

/// The name that each site is shown under.
pub proof fn law_shown_names(name: Seq<char>)
    ensures
        PlatformView::Hotmart.text() == "hotmart"@,
        PlatformView::YouTube.text() == "youtube"@,
        PlatformView::Instagram.text() == "instagram"@,
        PlatformView::TikTok.text() == "tiktok"@,
        PlatformView::Twitter.text() == "twitter"@,
        PlatformView::Reddit.text() == "reddit"@,
        PlatformView::Twitch.text() == "twitch"@,
        PlatformView::Pinterest.text() == "pinterest"@,
        PlatformView::Bluesky.text() == "bluesky"@,
        PlatformView::Telegram.text() == "telegram"@,
        PlatformView::Vimeo.text() == "vimeo"@,
        PlatformView::Udemy.text() == "udemy"@,
        PlatformView::Bilibili.text() == "bilibili"@,
        PlatformView::Other(name).text() == name,
{
}

} // verus!
