//! What is known of a piece of media before it is downloaded.
use vstd::prelude::*;

use crate::text::opt_view;

verus! {

/// What a link leads to.
#[derive(Debug, Clone, Copy, PartialEq, Eq, Structural)]
pub enum MediaType {
    /// A film or a clip.
    Video,
    /// Sound alone.
    Audio,
    /// A picture.
    Photo,
    /// Several entries, one after the other.
    Playlist,
}

/// One form in which the media can be had, or one entry of a playlist.
#[derive(Debug, Clone)]
pub struct VideoQuality {
    /// What the user reads.
    pub label: String,
    /// Width in pixels, or zero.
    pub width: u32,
    /// Height in pixels, or zero.
    pub height: u32,
    /// Where it is.
    pub url: String,
    /// The container format.
    pub format: String,
}

/// A [`VideoQuality`] as characters and numbers.
#[verifier::ext_equal]
pub struct QualityView {
    /// What the user reads.
    pub label: Seq<char>,
    /// Width in pixels, or zero.
    pub width: u32,
    /// Height in pixels, or zero.
    pub height: u32,
    /// Where it is.
    pub url: Seq<char>,
    /// The container format.
    pub format: Seq<char>,
}

impl View for VideoQuality {
    type V = QualityView;

    open spec fn view(&self) -> QualityView {
        QualityView {
            label: self.label@,
            width: self.width,
            height: self.height,
            url: self.url@,
            format: self.format@,
        }
    }
}

/// What is known of a piece of media.
#[derive(Debug, Clone)]
pub struct MediaInfo {
    /// The title.
    pub title: String,
    /// Who made it.
    pub author: String,
    /// The name of the platform.
    pub platform: String,
    /// A picture of it, where there is one.
    pub thumbnail_url: Option<String>,
    /// The forms in which it can be had.
    pub available_qualities: Vec<VideoQuality>,
    /// What it is.
    pub media_type: MediaType,
    /// Its size, where it is known.
    pub file_size_bytes: Option<u64>,
}

/// A [`MediaInfo`] as characters and numbers.
#[verifier::ext_equal]
pub struct MediaView {
    /// The title.
    pub title: Seq<char>,
    /// Who made it.
    pub author: Seq<char>,
    /// The name of the platform.
    pub platform: Seq<char>,
    /// A picture of it, where there is one.
    pub thumbnail_url: Option<Seq<char>>,
    /// The forms in which it can be had.
    pub available_qualities: Seq<QualityView>,
    /// What it is.
    pub media_type: MediaType,
    /// Its size, where it is known.
    pub file_size_bytes: Option<u64>,
}

/// The characters and numbers of each form.
pub open spec fn quality_views(v: Seq<VideoQuality>) -> Seq<QualityView> {
    v.map_values(|q: VideoQuality| q@)
}

impl View for MediaInfo {
    type V = MediaView;

    open spec fn view(&self) -> MediaView {
        MediaView {
            title: self.title@,
            author: self.author@,
            platform: self.platform@,
            thumbnail_url: opt_view(self.thumbnail_url),
            available_qualities: quality_views(self.available_qualities@),
            media_type: self.media_type,
            file_size_bytes: self.file_size_bytes,
        }
    }
}

} // verus!
