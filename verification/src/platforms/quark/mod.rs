//! Shares of the Quark cloud drive: what their links name, what listings say,
//! and how the files of a share are downloaded.
//!
//! A share is listed folder by folder ([`walk`]), each folder page by page
//! ([`reply`]). Each file found is then downloaded on its own, under a link of
//! the form `quark://download/<id>` that leads back to it ([`download`]).
pub mod download;
pub mod entry;
pub mod promises;
pub mod reply;
pub mod request;
pub mod walk;
pub mod walk_laws;

use vstd::prelude::*;

use crate::link::{parse_parts, url_parts, UrlParts, UrlView};
use crate::media::{MediaInfo, MediaType, MediaView, QualityView};
use crate::platforms::parts_view;
use crate::text::{
    after_prefix, chars_of, is_hex_digit, lowercase, nonempty, nonempty_parts, opt_view, same,
    split, split_on, starts_with, strip_prefix, to_lowercase, views,
};

verus! {

// ---------------------------------------------------------------------------
// Files
// ---------------------------------------------------------------------------
/// One file of a share, with what it takes to download it.
#[derive(Debug)]
pub struct QuarkFile {
    /// The identifier of the file.
    pub fid: String,
    /// The token with which it can be fetched out of the share.
    pub share_fid_token: String,
    /// The identifier of the share.
    pub pwd_id: String,
    /// The token of the share.
    pub stoken: String,
    /// The name of the file.
    pub name: String,
    /// The folders above it inside the share, with `/` between them.
    pub rel_path: String,
    /// Its size in bytes.
    pub size: u64,
}

/// A [`QuarkFile`] as characters and numbers.
#[verifier::ext_equal]
pub struct FileView {
    /// The identifier of the file.
    pub fid: Seq<char>,
    /// The token with which it can be fetched out of the share.
    pub share_fid_token: Seq<char>,
    /// The identifier of the share.
    pub pwd_id: Seq<char>,
    /// The token of the share.
    pub stoken: Seq<char>,
    /// The name of the file.
    pub name: Seq<char>,
    /// The folders above it inside the share, with `/` between them.
    pub rel_path: Seq<char>,
    /// Its size in bytes.
    pub size: u64,
}

impl View for QuarkFile {
    type V = FileView;

    open spec fn view(&self) -> FileView {
        FileView {
            fid: self.fid@,
            share_fid_token: self.share_fid_token@,
            pwd_id: self.pwd_id@,
            stoken: self.stoken@,
            name: self.name@,
            rel_path: self.rel_path@,
            size: self.size,
        }
    }
}

impl Clone for QuarkFile {
    fn clone(&self) -> (r: QuarkFile)
        ensures
            r@ == self@,
    {
        QuarkFile {
            fid: self.fid.clone(),
            share_fid_token: self.share_fid_token.clone(),
            pwd_id: self.pwd_id.clone(),
            stoken: self.stoken.clone(),
            name: self.name.clone(),
            rel_path: self.rel_path.clone(),
            size: self.size,
        }
    }
}

/// The characters and numbers of each file.
pub open spec fn file_views(v: Seq<QuarkFile>) -> Seq<FileView> {
    v.map_values(|f: QuarkFile| f@)
}

/// The size of a file, where it is known: an empty size says nothing.
pub open spec fn known_size(size: u64) -> Option<u64> {
    if size > 0 {
        Some(size)
    } else {
        None
    }
}

impl QuarkFile {
    /// The size of the file, where it is known.
    pub fn known_size(&self) -> (r: Option<u64>)
        ensures
            r == known_size(self.size),
    {
        if self.size > 0 {
            Some(self.size)
        } else {
            None
        }
    }
}

/// Every file of a share, for the summary.
#[derive(Debug)]
pub struct QuarkShareListing {
    /// The title of the share.
    pub title: String,
    /// How many files there are.
    pub total_files: usize,
    /// How many bytes they have together.
    pub total_bytes: u64,
    /// The files.
    pub files: Vec<QuarkFile>,
}

/// How far a listing has come.
#[derive(Debug, Clone, Copy, PartialEq, Eq, Structural)]
pub struct QuarkListProgress {
    /// The files found so far.
    pub files: usize,
    /// The folders found so far.
    pub folders: usize,
}

// ---------------------------------------------------------------------------
// Files that wait for their download
// ---------------------------------------------------------------------------
/// The files that wait for their download, by identifier.
pub struct QuarkPending {
    entries: Vec<(String, QuarkFile)>,
}

/// What a list of entries holds under each identifier: the last one counts.
pub open spec fn held(entries: Seq<(String, QuarkFile)>) -> Map<Seq<char>, FileView>
    decreases entries.len(),
{
    if entries.len() == 0 {
        Map::empty()
    } else {
        held(entries.drop_last()).insert(entries.last().0@, entries.last().1@)
    }
}

/// Putting an entry in the place of the last one with its identifier puts its
/// file under that identifier.
proof fn lemma_put_in_place(entries: Seq<(String, QuarkFile)>, k: int, entry: (String, QuarkFile))
    requires
        0 <= k < entries.len(),
        entries[k].0@ == entry.0@,
        forall|j: int| k < j < entries.len() ==> (#[trigger] entries[j]).0@ != entry.0@,
    ensures
        held(entries.update(k, entry)) == held(entries).insert(entry.0@, entry.1@),
    decreases entries.len(),
{
    let rest = entries.drop_last();
    let after = entries.update(k, entry);
    if k == entries.len() - 1 {
        assert(after.drop_last() =~= rest);
    } else {
        assert forall|j: int| k < j < rest.len() implies (#[trigger] rest[j]).0@ != entry.0@ by {
            assert(rest[j] == entries[j]);
        }
        lemma_put_in_place(rest, k, entry);
        assert(after.drop_last() =~= rest.update(k, entry));
        assert(entries[entries.len() - 1].0@ != entry.0@);
    }
    assert(held(after) =~= held(entries).insert(entry.0@, entry.1@));
}

impl View for QuarkPending {
    type V = Map<Seq<char>, FileView>;

    closed spec fn view(&self) -> Map<Seq<char>, FileView> {
        held(self.entries@)
    }
}

/// What a map holds under a key.
pub open spec fn at_key(map: Map<Seq<char>, FileView>, key: Seq<char>) -> Option<FileView> {
    if map.dom().contains(key) {
        Some(map[key])
    } else {
        None
    }
}

impl QuarkPending {
    /// Each identifier is held once.
    pub closed spec fn one_each(self) -> bool {
        forall|i: int, j: int|
            #![trigger self.entries@[i], self.entries@[j]]
            0 <= i < j < self.entries@.len() ==> self.entries@[i].0@ != self.entries@[j].0@
    }

    /// No files.
    pub fn new() -> (r: QuarkPending)
        ensures
            r@ == Map::<Seq<char>, FileView>::empty(),
            r.one_each(),
    {
        QuarkPending { entries: Vec::new() }
    }

    /// Puts a file under an identifier, in place of what was there.
    pub fn insert(&mut self, id: String, file: QuarkFile)
        ensures
            final(self)@ == old(self)@.insert(id@, file@),
            old(self).one_each() ==> final(self).one_each(),
    {
        let ghost before = self.entries@;
        let mut left: usize = self.entries.len();
        while left > 0
            invariant
                self.entries@ == before,
                before == old(self).entries@,
                left <= before.len(),
                forall|j: int| left <= j < before.len() ==> (#[trigger] before[j]).0@ != id@,
            decreases left,
        {
            left -= 1;
            if same(self.entries[left].0.as_str(), id.as_str()) {
                proof {
                    lemma_put_in_place(before, left as int, (id, file));
                }
                self.entries.set(left, (id, file));
                assert(forall|j: int|
                    0 <= j < before.len() ==> (#[trigger] self.entries@[j]).0@ == before[j].0@);
                return;
            }
        }
        self.entries.push((id, file));
        assert(self.entries@.drop_last() == before);
    }

    /// The file under an identifier.
    pub fn get(&self, id: &str) -> (r: Option<&QuarkFile>)
        ensures
            match r {
                Some(file) => at_key(self@, id@) == Some(file@),
                None => at_key(self@, id@) is None,
            },
    {
        let mut left: usize = self.entries.len();
        assert(self.entries@.take(left as int) == self.entries@);
        while left > 0
            invariant
                left <= self.entries.len(),
                at_key(self@, id@) == at_key(held(self.entries@.take(left as int)), id@),
            decreases left,
        {
            assert(self.entries@.take(left as int).drop_last() == self.entries@.take(left - 1));
            left -= 1;
            if same(self.entries[left].0.as_str(), id) {
                return Some(&self.entries[left].1);
            }
        }
        None
    }
}

// ---------------------------------------------------------------------------
// Links
// ---------------------------------------------------------------------------
/// The identifier of the share that a link names: what follows `/s/` or
/// `/share/` at the start of its path.
pub open spec fn share_id(parts: UrlView) -> Option<Seq<char>> {
    match after_prefix(parts.path, "/"@) {
        Some(rest) => {
            let segments = split(rest, '/');
            if segments.len() > 1 && (segments[0] == "s"@ || segments[0] == "share"@) {
                Some(segments[1])
            } else {
                None
            }
        },
        None => None,
    }
}

/// The identifier of the share that the parts of a link name.
pub fn share_id_of(parts: &UrlParts) -> (r: Option<String>)
    ensures
        opt_view(r) == share_id(parts@),
{
    let rest = match strip_prefix(parts.path.as_str(), "/") {
        Some(rest) => rest,
        None => {
            return None;
        },
    };
    let segments = split_on(rest.as_str(), '/');
    assert(views(segments@)[0] == segments@[0]@);
    if segments.len() > 1 && (same(segments[0].as_str(), "s") || same(
        segments[0].as_str(),
        "share",
    )) {
        assert(views(segments@)[1] == segments@[1]@);
        Some(segments[1].clone())
    } else {
        None
    }
}

/// A folder identifier: 32 hexadecimal digits.
pub open spec fn folder_id(s: Seq<char>) -> bool {
    &&& s.len() == 32
    &&& forall|i: int| 0 <= i < s.len() ==> is_hex_digit(#[trigger] s[i])
}

/// Whether a text is a folder identifier.
fn is_folder_id(s: &str) -> (r: bool)
    ensures
        r == folder_id(s@),
{
    let chars = chars_of(s);
    if chars.len() != 32 {
        return false;
    }
    let mut i: usize = 0;
    while i < chars.len()
        invariant
            chars@ == s@,
            i <= chars.len(),
            forall|j: int| 0 <= j < i ==> is_hex_digit(#[trigger] s@[j]),
        decreases chars.len() - i,
    {
        let c = chars[i];
        if !(('0' <= c && c <= '9') || ('a' <= c && c <= 'f') || ('A' <= c && c <= 'F')) {
            assert(!is_hex_digit(s@[i as int]));
            return false;
        }
        i += 1;
    }
    true
}

/// The folder at which a listing starts: the one whose identifier ends the
/// fragment of the link, or else the root of the share, `0`.
pub open spec fn start_folder(parts: Option<UrlView>) -> Seq<char> {
    match parts {
        Some(p) => match p.fragment {
            Some(fragment) => {
                let steps = nonempty(split(fragment, '/'));
                if steps.len() > 0 && folder_id(steps.last()) {
                    steps.last()
                } else {
                    "0"@
                }
            },
            None => "0"@,
        },
        None => "0"@,
    }
}

/// The folder at which a listing starts, from the parts of the link.
pub fn start_folder_of(parts: &Option<UrlParts>) -> (r: String)
    ensures
        r@ == start_folder(parts_view(*parts)),
{
    match parts {
        Some(p) => match &p.fragment {
            Some(fragment) => {
                let steps = nonempty_parts(fragment.as_str(), '/');
                if steps.len() > 0 {
                    let last = steps[steps.len() - 1].as_str();
                    assert(views(steps@).last() == last@);
                    if is_folder_id(last) {
                        return last.to_owned();
                    }
                }
                "0".to_owned()
            },
            None => "0".to_owned(),
        },
        None => "0".to_owned(),
    }
}

/// The link under which a waiting file is downloaded.
pub open spec fn item_link(id: Seq<char>) -> Seq<char> {
    "quark://download/"@ + id
}

/// The link under which a waiting file is downloaded.
pub fn item_url(id: &str) -> (r: String)
    ensures
        r@ == item_link(id@),
{
    let mut r = "quark://download/".to_owned();
    r.append(id);
    r
}

/// Every link to a waiting file leads back to its identifier.
pub proof fn law_item_link_resolves(id: Seq<char>)
    ensures
        after_prefix(item_link(id), "quark://download/"@) == Some(id),
{
    let prefix = "quark://download/"@;
    assert(prefix.is_prefix_of(item_link(id)));
    assert(item_link(id).skip(prefix.len() as int) =~= id);
}

// ---------------------------------------------------------------------------
// Media
// ---------------------------------------------------------------------------
/// The kind of media that a lower-case file extension stands for.
pub open spec fn type_of_extension(ext: Seq<char>) -> MediaType {
    if ext == "mp3"@ || ext == "flac"@ || ext == "wav"@ || ext == "aac"@ || ext == "m4a"@ || ext
        == "ogg"@ {
        MediaType::Audio
    } else if ext == "jpg"@ || ext == "jpeg"@ || ext == "png"@ || ext == "gif"@ || ext == "webp"@
        || ext == "bmp"@ || ext == "heic"@ {
        MediaType::Photo
    } else {
        MediaType::Video
    }
}

/// The kind of media that a file name stands for: what follows its last dot
/// decides, in either case. What is neither sound nor picture counts as film.
pub open spec fn type_of_name(name: Seq<char>) -> MediaType {
    type_of_extension(lowercase(split(name, '.').last()))
}

/// The kind of media that a file name stands for.
pub fn media_type_for(name: &str) -> (r: MediaType)
    ensures
        r == type_of_name(name@),
{
    let pieces = split_on(name, '.');
    let last = pieces[pieces.len() - 1].as_str();
    assert(views(pieces@).last() == last@);
    let lower = to_lowercase(last);
    let ext = lower.as_str();
    if same(ext, "mp3") || same(ext, "flac") || same(ext, "wav") || same(ext, "aac") || same(
        ext,
        "m4a",
    ) || same(ext, "ogg") {
        MediaType::Audio
    } else if same(ext, "jpg") || same(ext, "jpeg") || same(ext, "png") || same(ext, "gif") || same(
        ext,
        "webp",
    ) || same(ext, "bmp") || same(ext, "heic") {
        MediaType::Photo
    } else {
        MediaType::Video
    }
}

/// What is known of a waiting file before its download.
pub open spec fn media_of(file: FileView) -> MediaView {
    MediaView {
        title: file.name,
        author: "Quark"@,
        platform: "quark"@,
        thumbnail_url: None,
        available_qualities: Seq::<QualityView>::empty(),
        media_type: type_of_name(file.name),
        file_size_bytes: known_size(file.size),
    }
}

// ---------------------------------------------------------------------------
// The downloader
// ---------------------------------------------------------------------------
/// The downloader of shared files, with the files that wait for it.
pub struct QuarkDownloader {
    /// The files that wait.
    pub pending: QuarkPending,
}

/// The waiting file that a link leads to, or what is said where there is none.
pub open spec fn resolved(pending: Map<Seq<char>, FileView>, url: Seq<char>) -> Result<
    FileView,
    Seq<char>,
> {
    match after_prefix(url, "quark://download/"@) {
        None => Err("invalid quark url: "@ + url),
        Some(id) => match at_key(pending, id) {
            Some(file) => Ok(file),
            None => Err("quark file not found (stale download?)"@),
        },
    }
}

impl QuarkDownloader {
    /// A downloader for the files of `pending`.
    pub fn new(pending: QuarkPending) -> (r: QuarkDownloader)
        ensures
            r.pending == pending,
    {
        QuarkDownloader { pending }
    }

    /// The files that wait.
    pub fn pending(&self) -> (r: &QuarkPending)
        ensures
            *r == self.pending,
    {
        &self.pending
    }

    /// The identifier of the share that a link names, such as
    /// `https://pan.quark.cn/s/<id>`.
    pub fn pwd_id_from_url(share_url: &str) -> (r: Option<String>)
        ensures
            opt_view(r) == (match url_parts(share_url@) {
                Some(parts) => share_id(parts),
                None => None,
            }),
    {
        match parse_parts(share_url) {
            Some(parts) => share_id_of(&parts),
            None => None,
        }
    }

    /// The folder at which a listing starts: a link such as
    /// `…/s/<id>#/list/share/<folder>` names one.
    pub fn start_fid_from_url(share_url: &str) -> (r: String)
        ensures
            r@ == start_folder(url_parts(share_url@)),
    {
        start_folder_of(&parse_parts(share_url))
    }

    /// The identifier of the waiting file that a link names.
    pub fn resolve_pending_id(url: &str) -> (r: Option<String>)
        ensures
            opt_view(r) == after_prefix(url@, "quark://download/"@),
    {
        strip_prefix(url, "quark://download/")
    }

    /// The name of the platform.
    pub fn name(&self) -> (r: &str)
        ensures
            r@ == "quark"@,
    {
        "quark"
    }

    /// Whether a link is one of this downloader's own.
    pub fn can_handle(&self, url: &str) -> (r: bool)
        ensures
            r == "quark://"@.is_prefix_of(url@),
    {
        starts_with(url, "quark://")
    }

    /// The waiting file that a link leads to.
    pub fn resolve(&self, url: &str) -> (r: Result<&QuarkFile, String>)
        ensures
            match r {
                Ok(file) => resolved(self.pending@, url@) == Ok::<_, Seq<char>>(file@),
                Err(e) => resolved(self.pending@, url@) == Err::<FileView, _>(e@),
            },
    {
        match Self::resolve_pending_id(url) {
            Some(id) => match self.pending.get(id.as_str()) {
                Some(file) => Ok(file),
                None => Err("quark file not found (stale download?)".to_owned()),
            },
            None => {
                let mut e = "invalid quark url: ".to_owned();
                e.append(url);
                Err(e)
            },
        }
    }

    /// What is known of the waiting file that a link leads to.
    pub fn get_media_info(&self, url: &str) -> (r: Result<MediaInfo, String>)
        ensures
            match r {
                Ok(info) => resolved(self.pending@, url@) matches Ok(file) && info@ == media_of(file),
                Err(e) => resolved(self.pending@, url@) == Err::<FileView, _>(e@),
            },
    {
        match self.resolve(url) {
            Ok(file) => {
                let info = MediaInfo {
                    title: file.name.clone(),
                    author: "Quark".to_owned(),
                    platform: "quark".to_owned(),
                    thumbnail_url: None,
                    available_qualities: Vec::new(),
                    media_type: media_type_for(file.name.as_str()),
                    file_size_bytes: file.known_size(),
                };
                assert(info@.available_qualities =~= Seq::<QualityView>::empty());
                Ok(info)
            },
            Err(e) => Err(e),
        }
    }
}

} // verus!
