//! What a link is, for the user interface.
use vstd::prelude::*;

use crate::link::{parse_parts, url_parts, UrlParts, UrlView};
use crate::platforms::{parts_view, platform_view, site_of, Platform, PlatformView};
use crate::text::{opt_view, same};
use crate::url_parser::{content, parse_parts_of};

verus! {

/// What a link is.
#[derive(Debug, Clone)]
pub struct PlatformInfo {
    /// The name of the site, or `generic` or `unknown`.
    pub platform: String,
    /// Something can be downloaded from it.
    pub supported: bool,
    /// What the site calls the content, where the link says it.
    pub content_id: Option<String>,
    /// The sort of content, where the link says it.
    pub content_type: Option<String>,
}

/// A [`PlatformInfo`] as characters.
#[verifier::ext_equal]
pub struct InfoView {
    /// The name of the site, or `generic` or `unknown`.
    pub platform: Seq<char>,
    /// Something can be downloaded from it.
    pub supported: bool,
    /// What the site calls the content, where the link says it.
    pub content_id: Option<Seq<char>>,
    /// The sort of content, where the link says it.
    pub content_type: Option<Seq<char>>,
}

impl View for PlatformInfo {
    type V = InfoView;

    open spec fn view(&self) -> InfoView {
        InfoView {
            platform: self.platform@,
            supported: self.supported,
            content_id: opt_view(self.content_id),
            content_type: opt_view(self.content_type),
        }
    }
}

/// A link to a web page.
pub open spec fn on_the_web(parts: Option<UrlView>) -> bool {
    match parts {
        Some(p) => p.scheme == "http"@ || p.scheme == "https"@,
        None => false,
    }
}

/// What a link with these parts is: on a known site, what it points at there;
/// else a web page, or nothing known.
pub open spec fn link_info(link: Seq<char>, parts: Option<UrlView>) -> InfoView {
    match site_of(link, parts) {
        Some(site) => InfoView {
            platform: site.text(),
            supported: true,
            content_id: match parts {
                Some(p) => content(site, p).0,
                None => None,
            },
            content_type: match parts {
                Some(p) => Some(content(site, p).1.text()),
                None => None,
            },
        },
        None => InfoView {
            platform: if on_the_web(parts) {
                "generic"@
            } else {
                "unknown"@
            },
            supported: on_the_web(parts),
            content_id: None,
            content_type: None,
        },
    }
}

/// What a link with these parts is.
pub fn detect_parts(url: &str, parts: &Option<UrlParts>) -> (r: PlatformInfo)
    ensures
        r@ == link_info(url@, parts_view(*parts)),
{
    match Platform::from_parts(url, parts) {
        Some(platform) => {
            let (content_id, content_type) = match parse_parts_of(url, parts) {
                Some(parsed) => (parsed.content_id, Some(parsed.content_type.name())),
                None => (None, None),
            };
            PlatformInfo { platform: platform.name(), supported: true, content_id, content_type }
        },
        None => {
            let web = match parts {
                Some(p) => same(p.scheme.as_str(), "http") || same(p.scheme.as_str(), "https"),
                None => false,
            };
            PlatformInfo {
                platform: if web {
                    "generic".to_owned()
                } else {
                    "unknown".to_owned()
                },
                supported: web,
                content_id: None,
                content_type: None,
            }
        },
    }
}

/// What a link is.
pub fn detect_platform(url: &str) -> (r: PlatformInfo)
    ensures
        r@ == link_info(url@, url_parts(url@)),
{
    detect_parts(url, &parse_parts(url))
}

/// The name under which a link is queued: that of its site, or `generic`.
pub open spec fn queue_name(site: Option<PlatformView>) -> Seq<char> {
    match site {
        Some(site) => site.text(),
        None => "generic"@,
    }
}

/// The name under which a link of this site is queued.
pub fn queue_name_of(platform: &Option<Platform>) -> (r: String)
    ensures
        r@ == queue_name(platform_view(*platform)),
{
    match platform {
        Some(p) => p.name(),
        None => "generic".to_owned(),
    }
}

/// The name under which a link is queued.
pub fn queue_name_for(url: &str) -> (r: String)
    ensures
        r@ == queue_name(site_of(url@, url_parts(url@))),
{
    queue_name_of(&Platform::from_url(url))
}

} // verus!
