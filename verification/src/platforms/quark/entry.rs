//! What a share listing says of one file or folder.
use vstd::prelude::*;

use crate::json::Json;

verus! {

/// One entry of a listing.
#[derive(Debug)]
pub struct QuarkEntry {
    /// The identifier of the file or folder.
    pub fid: String,
    /// Its name.
    pub name: String,
    /// Its size in bytes.
    pub size: u64,
    /// The token with which it can be fetched out of the share.
    pub share_fid_token: String,
    /// It is a folder.
    pub is_dir: bool,
}

/// A [`QuarkEntry`] as characters and numbers.
#[verifier::ext_equal]
pub struct EntryView {
    /// The identifier of the file or folder.
    pub fid: Seq<char>,
    /// Its name.
    pub name: Seq<char>,
    /// Its size in bytes.
    pub size: u64,
    /// The token with which it can be fetched out of the share.
    pub share_fid_token: Seq<char>,
    /// It is a folder.
    pub is_dir: bool,
}

impl View for QuarkEntry {
    type V = EntryView;

    open spec fn view(&self) -> EntryView {
        EntryView {
            fid: self.fid@,
            name: self.name@,
            size: self.size,
            share_fid_token: self.share_fid_token@,
            is_dir: self.is_dir,
        }
    }
}

/// The characters and numbers of each entry.
pub open spec fn entry_views(v: Seq<QuarkEntry>) -> Seq<EntryView> {
    v.map_values(|e: QuarkEntry| e@)
}

/// Whether a listed value is a folder: it says so in `dir`, or else in `file`
/// that it is no file. One that says neither is a file.
pub open spec fn listed_folder(v: Json) -> bool {
    match v.truth_of("dir"@) {
        Some(d) => d,
        None => match v.truth_of("file"@) {
            Some(f) => !f,
            None => false,
        },
    }
}

/// The entry that a listed value describes. What it does not say is left
/// empty, but for the name.
pub open spec fn listed_entry(v: Json) -> EntryView {
    EntryView {
        fid: v.chars_of("fid"@).unwrap_or(""@),
        name: v.chars_of("file_name"@).unwrap_or("unnamed"@),
        size: v.whole_of("size"@).unwrap_or(0),
        share_fid_token: v.chars_of("share_fid_token"@).unwrap_or(""@),
        is_dir: listed_folder(v),
    }
}

impl QuarkEntry {
    /// The entry that a listed value describes.
    pub fn from_json(v: &Json) -> (r: QuarkEntry)
        ensures
            r@ == listed_entry(*v),
    {
        let said = match v.get("dir") {
            Some(d) => d.as_bool(),
            None => None,
        };
        let is_dir = match said {
            Some(d) => d,
            None => match v.get("file") {
                Some(f) => match f.as_bool() {
                    Some(file) => !file,
                    None => false,
                },
                None => false,
            },
        };
        let size: u64 = match v.get("size") {
            Some(s) => match s.as_u64() {
                Some(n) => n,
                None => 0,
            },
            None => 0,
        };
        QuarkEntry {
            fid: v.text_or("fid", ""),
            name: v.text_or("file_name", "unnamed"),
            size,
            share_fid_token: v.text_or("share_fid_token", ""),
            is_dir,
        }
    }
}

} // verus!
