//! The way through the folders of a share.
//!
//! The walk keeps the folders that are still to be listed on a stack. It takes
//! the top one, has it listed, notes its files and puts its sub-folders on the
//! stack. Folders deeper than [`MAX_DEPTH`] are passed over.
use vstd::prelude::*;

use super::entry::{entry_views, EntryView, QuarkEntry};
use super::{file_views, FileView, QuarkFile, QuarkListProgress, QuarkShareListing};

verus! {

/// How deep below its start a listing goes.
pub const MAX_DEPTH: usize = 30;

/// A folder that is to be listed.
#[derive(Debug)]
pub struct Folder {
    /// Its identifier.
    pub fid: String,
    /// Its path inside the share.
    pub rel_path: String,
    /// How deep it lies below the start.
    pub depth: usize,
}

/// A [`Folder`] as characters and numbers.
#[verifier::ext_equal]
pub struct FolderView {
    /// Its identifier.
    pub fid: Seq<char>,
    /// Its path inside the share.
    pub rel_path: Seq<char>,
    /// How deep it lies below the start.
    pub depth: nat,
}

impl View for Folder {
    type V = FolderView;

    open spec fn view(&self) -> FolderView {
        FolderView { fid: self.fid@, rel_path: self.rel_path@, depth: self.depth as nat }
    }
}

/// The characters and numbers of each folder.
pub open spec fn folder_views(v: Seq<Folder>) -> Seq<FolderView> {
    v.map_values(|f: Folder| f@)
}

/// The share that is walked.
#[verifier::ext_equal]
pub struct ShareKey {
    /// Its identifier.
    pub pwd_id: Seq<char>,
    /// Its token.
    pub stoken: Seq<char>,
}

/// The path of something called `name` below the path `rel`.
pub open spec fn below(rel: Seq<char>, name: Seq<char>) -> Seq<char> {
    if rel.len() == 0 {
        name
    } else {
        rel + "/"@ + name
    }
}

/// The sub-folder that an entry of `folder` is, where it is one.
pub open spec fn sub_folder(folder: FolderView, entry: EntryView) -> Option<FolderView> {
    if entry.is_dir {
        Some(
            FolderView {
                fid: entry.fid,
                rel_path: below(folder.rel_path, entry.name),
                depth: folder.depth + 1,
            },
        )
    } else {
        None
    }
}

/// The file that an entry of `folder` is, where it is one.
pub open spec fn own_file(key: ShareKey, folder: FolderView, entry: EntryView) -> Option<FileView> {
    if entry.is_dir {
        None
    } else {
        Some(
            FileView {
                fid: entry.fid,
                share_fid_token: entry.share_fid_token,
                pwd_id: key.pwd_id,
                stoken: key.stoken,
                name: entry.name,
                rel_path: folder.rel_path,
                size: entry.size,
            },
        )
    }
}

/// The sub-folders among the entries of a folder, in order.
pub open spec fn sub_folders(folder: FolderView, entries: Seq<EntryView>) -> Seq<FolderView> {
    entries.filter_map(|e: EntryView| sub_folder(folder, e))
}

/// The files among the entries of a folder, in order.
pub open spec fn own_files(key: ShareKey, folder: FolderView, entries: Seq<EntryView>) -> Seq<
    FileView,
> {
    entries.filter_map(|e: EntryView| own_file(key, folder, e))
}

/// The stack without the folders on top that lie too deep.
pub open spec fn reachable(stack: Seq<FolderView>) -> Seq<FolderView>
    decreases stack.len(),
{
    if stack.len() > 0 && stack.last().depth > MAX_DEPTH {
        reachable(stack.drop_last())
    } else {
        stack
    }
}

/// A walk through the folders of a share.
pub struct ShareWalk {
    pwd_id: String,
    stoken: String,
    files: Vec<QuarkFile>,
    folders: usize,
    stack: Vec<Folder>,
}

/// A [`ShareWalk`] as characters and numbers.
#[verifier::ext_equal]
pub struct WalkView {
    /// The share that is walked.
    pub key: ShareKey,
    /// The files found so far.
    pub files: Seq<FileView>,
    /// How many sub-folders were found so far.
    pub folders: nat,
    /// The folders still to be listed, the next one last.
    pub stack: Seq<FolderView>,
}

impl View for ShareWalk {
    type V = WalkView;

    closed spec fn view(&self) -> WalkView {
        WalkView {
            key: ShareKey { pwd_id: self.pwd_id@, stoken: self.stoken@ },
            files: file_views(self.files@),
            folders: self.folders as nat,
            stack: folder_views(self.stack@),
        }
    }
}

/// A walk that has not begun: only the start is to be listed.
pub open spec fn walk_from(key: ShareKey, fid: Seq<char>) -> WalkView {
    WalkView {
        key,
        files: Seq::empty(),
        folders: 0,
        stack: seq![FolderView { fid, rel_path: Seq::empty(), depth: 0 }],
    }
}

/// The walk once the folder that was taken off the stack has been listed.
pub open spec fn walk_after(walk: WalkView, folder: FolderView, entries: Seq<EntryView>) -> WalkView {
    WalkView {
        key: walk.key,
        files: walk.files + own_files(walk.key, folder, entries),
        folders: walk.folders + sub_folders(folder, entries).len(),
        stack: walk.stack + sub_folders(folder, entries),
    }
}

/// The bytes of the files together.
pub open spec fn bytes_of(files: Seq<FileView>) -> nat
    decreases files.len(),
{
    if files.len() == 0 {
        0
    } else {
        bytes_of(files.drop_last()) + files.last().size as nat
    }
}

/// The bytes of the files do not shrink when files are added.
proof fn lemma_bytes_grow(files: Seq<FileView>, i: int)
    requires
        0 <= i <= files.len(),
    ensures
        bytes_of(files.take(i)) <= bytes_of(files),
    decreases files.len() - i,
{
    if i < files.len() {
        lemma_bytes_grow(files, i + 1);
        assert(files.take(i + 1).drop_last() =~= files.take(i));
    } else {
        assert(files.take(i) =~= files);
    }
}

impl ShareWalk {
    /// A walk that starts at the folder `fid` of a share.
    pub fn start(pwd_id: &str, stoken: &str, fid: &str) -> (r: ShareWalk)
        ensures
            r@ == walk_from(ShareKey { pwd_id: pwd_id@, stoken: stoken@ }, fid@),
    {
        let mut stack: Vec<Folder> = Vec::new();
        stack.push(Folder { fid: fid.to_owned(), rel_path: String::new(), depth: 0 });
        let r = ShareWalk {
            pwd_id: pwd_id.to_owned(),
            stoken: stoken.to_owned(),
            files: Vec::new(),
            folders: 0,
            stack,
        };
        assert(r@ =~~= walk_from(ShareKey { pwd_id: pwd_id@, stoken: stoken@ }, fid@));
        r
    }

    /// Takes the next folder to be listed off the stack. Those that lie too
    /// deep are dropped. `None` means that the walk is over.
    pub fn next_folder(&mut self) -> (r: Option<Folder>)
        ensures
            final(self)@.key == old(self)@.key,
            final(self)@.files == old(self)@.files,
            final(self)@.folders == old(self)@.folders,
            match r {
                Some(folder) => {
                    &&& reachable(old(self)@.stack) == final(self)@.stack.push(folder@)
                    &&& folder@.depth <= MAX_DEPTH
                },
                None => {
                    &&& reachable(old(self)@.stack).len() == 0
                    &&& final(self)@.stack.len() == 0
                },
            },
    {
        loop
            invariant
                self@.key == old(self)@.key,
                self@.files == old(self)@.files,
                self@.folders == old(self)@.folders,
                reachable(self@.stack) == reachable(old(self)@.stack),
            decreases self.stack.len(),
        {
            let ghost before = self@.stack;
            match self.stack.pop() {
                None => {
                    return None;
                },
                Some(folder) => {
                    assert(before.drop_last() =~= self@.stack);
                    assert(before.last() == folder@);
                    if folder.depth <= MAX_DEPTH {
                        assert(before =~= self@.stack.push(folder@));
                        return Some(folder);
                    }
                },
            }
        }
    }

    /// Notes what a folder that was taken off the stack holds.
    pub fn on_entries(&mut self, folder: &Folder, entries: &Vec<QuarkEntry>)
        requires
            folder.depth <= MAX_DEPTH,
            old(self)@.folders + entries@.len() <= usize::MAX,
        ensures
            final(self)@ == walk_after(old(self)@, folder@, entry_views(entries@)),
    {
        let ghost all = entry_views(entries@);
        let ghost key = self@.key;
        let ghost files = self@.files;
        let ghost stack = self@.stack;
        let ghost dir_of = |e: EntryView| sub_folder(folder@, e);
        let ghost file_of = |e: EntryView| own_file(key, folder@, e);
        let mut i: usize = 0;
        proof {
            reveal(Seq::filter_map);
            assert(all.take(0) =~= Seq::empty());
            assert(files + all.take(0).filter_map(file_of) =~= files);
            assert(stack + all.take(0).filter_map(dir_of) =~= stack);
        }
        while i < entries.len()
            invariant
                i <= entries.len(),
                all == entry_views(entries@),
                key == old(self)@.key,
                self@.key == key,
                folder.depth <= MAX_DEPTH,
                dir_of == (|e: EntryView| sub_folder(folder@, e)),
                file_of == (|e: EntryView| own_file(key, folder@, e)),
                self@.files == files + all.take(i as int).filter_map(file_of),
                self@.stack == stack + all.take(i as int).filter_map(dir_of),
                self@.folders == old(self)@.folders + all.take(i as int).filter_map(dir_of).len(),
                all.take(i as int).filter_map(dir_of).len() <= i,
                old(self)@.folders + entries@.len() <= usize::MAX,
            decreases entries.len() - i,
        {
            let e = &entries[i];
            let ghost was = *self;
            proof {
                all.lemma_filter_map_take_succ(dir_of, i as int);
                all.lemma_filter_map_take_succ(file_of, i as int);
                assert(all[i as int] == e@);
            }
            if e.is_dir {
                self.folders += 1;
                let rel_path = if folder.rel_path.as_str().is_empty() {
                    e.name.clone()
                } else {
                    let mut path = folder.rel_path.clone();
                    path.append("/");
                    path.append(e.name.as_str());
                    path
                };
                self.stack.push(Folder { fid: e.fid.clone(), rel_path, depth: folder.depth + 1 });
                assert(self@.stack =~= was@.stack.push(dir_of(e@)->0));
                assert(self@.stack =~= stack + all.take(i + 1).filter_map(dir_of));
            } else {
                self.files.push(
                    QuarkFile {
                        fid: e.fid.clone(),
                        share_fid_token: e.share_fid_token.clone(),
                        pwd_id: self.pwd_id.clone(),
                        stoken: self.stoken.clone(),
                        name: e.name.clone(),
                        rel_path: folder.rel_path.clone(),
                        size: e.size,
                    },
                );
                assert(self@.files =~= was@.files.push(file_of(e@)->0));
                assert(self@.files =~= files + all.take(i + 1).filter_map(file_of));
            }
            i += 1;
        }
        assert(all.take(all.len() as int) =~= all);
        assert(self@ =~= walk_after(old(self)@, folder@, all));
    }

    /// How far the walk has come.
    pub fn progress(&self) -> (r: QuarkListProgress)
        ensures
            r.files == self@.files.len(),
            r.folders == self@.folders,
    {
        QuarkListProgress { files: self.files.len(), folders: self.folders }
    }

    /// The bytes of the files found so far, or `None` where they are more than
    /// 64 bits count.
    pub fn total_bytes(&self) -> (r: Option<u64>)
        ensures
            match r {
                Some(n) => n == bytes_of(self@.files),
                None => bytes_of(self@.files) > u64::MAX,
            },
    {
        let ghost all = self@.files;
        let mut sum: u64 = 0;
        let mut i: usize = 0;
        assert(all.take(0) =~= Seq::empty());
        while i < self.files.len()
            invariant
                i <= self.files.len(),
                all == self@.files,
                sum == bytes_of(all.take(i as int)),
            decreases self.files.len() - i,
        {
            assert(all.take(i + 1).drop_last() =~= all.take(i as int));
            assert(all.take(i + 1).last() == self.files@[i as int]@);
            match sum.checked_add(self.files[i].size) {
                Some(more) => {
                    sum = more;
                },
                None => {
                    proof {
                        lemma_bytes_grow(all, i + 1);
                    }
                    return None;
                },
            }
            i += 1;
        }
        assert(all.take(all.len() as int) =~= all);
        Some(sum)
    }

    /// The listing of the files that the walk found.
    pub fn finish(self, title: String) -> (r: QuarkShareListing)
        requires
            bytes_of(self@.files) <= u64::MAX,
        ensures
            r.title@ == title@,
            r.total_files == self@.files.len(),
            r.total_bytes == bytes_of(self@.files),
            file_views(r.files@) == self@.files,
    {
        let total_bytes: u64 = match self.total_bytes() {
            Some(n) => n,
            None => 0,
        };
        QuarkShareListing { title, total_files: self.files.len(), total_bytes, files: self.files }
    }
}

// ---------------------------------------------------------------------------
// What the walk finds
// ---------------------------------------------------------------------------
/// Every file of a folder and of the folders below it: first its own files,
/// then those of its sub-folders, the last sub-folder first. `tree` says what
/// each folder holds.
pub open spec fn tree_files(
    tree: spec_fn(Seq<char>) -> Seq<EntryView>,
    key: ShareKey,
    fid: Seq<char>,
    rel_path: Seq<char>,
    depth: nat,
) -> Seq<FileView>
    decreases MAX_DEPTH + 1 - depth, 1int, 0int,
{
    if depth > MAX_DEPTH {
        Seq::empty()
    } else {
        let folder = FolderView { fid, rel_path, depth };
        own_files(key, folder, tree(fid)) + branch_files(
            tree,
            key,
            sub_folders(folder, tree(fid)),
            depth,
        )
    }
}

/// Every file below the sub-folders of a folder at `depth`, the last
/// sub-folder first.
pub open spec fn branch_files(
    tree: spec_fn(Seq<char>) -> Seq<EntryView>,
    key: ShareKey,
    subs: Seq<FolderView>,
    depth: nat,
) -> Seq<FileView>
    decreases MAX_DEPTH + 1 - depth, 0int, subs.len(),
{
    if subs.len() == 0 || depth > MAX_DEPTH {
        Seq::empty()
    } else {
        tree_files(tree, key, subs.last().fid, subs.last().rel_path, depth + 1) + branch_files(
            tree,
            key,
            subs.drop_last(),
            depth,
        )
    }
}

/// Every file that the folders on a stack still lead to, the top folder first.
pub open spec fn stack_files(
    tree: spec_fn(Seq<char>) -> Seq<EntryView>,
    key: ShareKey,
    stack: Seq<FolderView>,
) -> Seq<FileView>
    decreases stack.len(),
{
    if stack.len() == 0 {
        Seq::empty()
    } else {
        tree_files(tree, key, stack.last().fid, stack.last().rel_path, stack.last().depth)
            + stack_files(tree, key, stack.drop_last())
    }
}

/// What a walk has found and will still find.
pub open spec fn in_prospect(tree: spec_fn(Seq<char>) -> Seq<EntryView>, walk: WalkView) -> Seq<
    FileView,
> {
    walk.files + stack_files(tree, walk.key, walk.stack)
}

/// The sub-folders lie one deeper than their folder.
proof fn lemma_sub_depth(folder: FolderView, entries: Seq<EntryView>)
    ensures
        forall|i: int|
            0 <= i < sub_folders(folder, entries).len() ==> (#[trigger] sub_folders(
                folder,
                entries,
            )[i]).depth == folder.depth + 1,
    decreases entries.len(),
{
    let f = |e: EntryView| sub_folder(folder, e);
    reveal(Seq::filter_map);
    if entries.len() > 0 {
        lemma_sub_depth(folder, entries.drop_last());
        let before = sub_folders(folder, entries.drop_last());
        entries.lemma_filter_map_take_succ(f, entries.len() - 1);
        assert(entries.take(entries.len() - 1) =~= entries.drop_last());
        assert(entries.take(entries.len() as int) =~= entries);
        assert forall|i: int| 0 <= i < sub_folders(folder, entries).len() implies (
        #[trigger] sub_folders(folder, entries)[i]).depth == folder.depth + 1 by {
            if i < before.len() {
                assert(sub_folders(folder, entries)[i] == before[i]);
            }
        }
    }
}

/// Sub-folders on a stack lead to the files below them.
proof fn lemma_branch_on_stack(
    tree: spec_fn(Seq<char>) -> Seq<EntryView>,
    key: ShareKey,
    stack: Seq<FolderView>,
    subs: Seq<FolderView>,
    depth: nat,
)
    requires
        depth <= MAX_DEPTH,
        forall|i: int| 0 <= i < subs.len() ==> (#[trigger] subs[i]).depth == depth + 1,
    ensures
        stack_files(tree, key, stack + subs) == branch_files(tree, key, subs, depth) + stack_files(
            tree,
            key,
            stack,
        ),
    decreases subs.len(),
{
    if subs.len() == 0 {
        assert(stack + subs =~= stack);
        assert(branch_files(tree, key, subs, depth) =~= Seq::empty());
        assert(branch_files(tree, key, subs, depth) + stack_files(tree, key, stack)
            =~= stack_files(tree, key, stack));
    } else {
        assert((stack + subs).drop_last() =~= stack + subs.drop_last());
        assert((stack + subs).last() == subs.last());
        assert(subs[subs.len() - 1].depth == depth + 1);
        assert forall|i: int| 0 <= i < subs.drop_last().len() implies (
        #[trigger] subs.drop_last()[i]).depth == depth + 1 by {
            assert(subs.drop_last()[i] == subs[i]);
        }
        lemma_branch_on_stack(tree, key, stack, subs.drop_last(), depth);
        let top = tree_files(tree, key, subs.last().fid, subs.last().rel_path, depth + 1);
        let rest = branch_files(tree, key, subs.drop_last(), depth);
        assert(top + (rest + stack_files(tree, key, stack)) =~= (top + rest) + stack_files(
            tree,
            key,
            stack,
        ));
    }
}

/// Folders that lie too deep lead to no files.
proof fn lemma_reachable_files(
    tree: spec_fn(Seq<char>) -> Seq<EntryView>,
    key: ShareKey,
    stack: Seq<FolderView>,
)
    ensures
        stack_files(tree, key, reachable(stack)) == stack_files(tree, key, stack),
    decreases stack.len(),
{
    if stack.len() > 0 && stack.last().depth > MAX_DEPTH {
        lemma_reachable_files(tree, key, stack.drop_last());
        assert(tree_files(
            tree,
            key,
            stack.last().fid,
            stack.last().rel_path,
            stack.last().depth,
        ) =~= Seq::empty());
        assert(Seq::<FileView>::empty() + stack_files(tree, key, stack.drop_last())
            =~= stack_files(tree, key, stack.drop_last()));
    }
}

/// A walk that has not begun will find every file of the start and of the
/// folders below it.
pub proof fn law_walk_sets_out_for_all(
    tree: spec_fn(Seq<char>) -> Seq<EntryView>,
    key: ShareKey,
    fid: Seq<char>,
)
    ensures
        in_prospect(tree, walk_from(key, fid)) == tree_files(tree, key, fid, Seq::empty(), 0),
{
    let stack = walk_from(key, fid).stack;
    assert(stack.drop_last() =~= Seq::empty());
    assert(stack_files(tree, key, stack.drop_last()) =~= Seq::empty());
    assert(in_prospect(tree, walk_from(key, fid)) =~= tree_files(
        tree,
        key,
        fid,
        Seq::empty(),
        0,
    ));
}

/// No step loses a file or adds one: where the next folder is taken off the
/// stack and what it holds is noted, what the walk has found and will still
/// find stays the same, in the same order.
pub proof fn law_walk_keeps_prospect(
    tree: spec_fn(Seq<char>) -> Seq<EntryView>,
    walk: WalkView,
    taken: WalkView,
    folder: FolderView,
)
    requires
        taken.key == walk.key,
        taken.files == walk.files,
        reachable(walk.stack) == taken.stack.push(folder),
        folder.depth <= MAX_DEPTH,
    ensures
        in_prospect(tree, walk_after(taken, folder, tree(folder.fid))) == in_prospect(tree, walk),
{
    let key = walk.key;
    let entries = tree(folder.fid);
    let own = own_files(key, folder, entries);
    let subs = sub_folders(folder, entries);
    lemma_reachable_files(tree, key, walk.stack);
    assert(taken.stack.push(folder).drop_last() =~= taken.stack);
    lemma_sub_depth(folder, entries);
    lemma_branch_on_stack(tree, key, taken.stack, subs, folder.depth);
    let branch = branch_files(tree, key, subs, folder.depth);
    let rest = stack_files(tree, key, taken.stack);
    assert(FolderView { fid: folder.fid, rel_path: folder.rel_path, depth: folder.depth }
        == folder);
    assert(tree_files(tree, key, folder.fid, folder.rel_path, folder.depth) == own + branch);
    assert((walk.files + own) + (branch + rest) =~= walk.files + ((own + branch) + rest));
}

/// A walk that is over has found all that it set out for.
pub proof fn law_walk_ends_with_all(tree: spec_fn(Seq<char>) -> Seq<EntryView>, walk: WalkView)
    requires
        reachable(walk.stack).len() == 0,
    ensures
        walk.files == in_prospect(tree, walk),
{
    lemma_reachable_files(tree, walk.key, walk.stack);
    assert(stack_files(tree, walk.key, reachable(walk.stack)) =~= Seq::empty());
    assert(walk.files + Seq::<FileView>::empty() =~= walk.files);
}

/// The walk after its next step, where `tree` says what each folder holds.
pub open spec fn walk_next(tree: spec_fn(Seq<char>) -> Seq<EntryView>, walk: WalkView) -> WalkView {
    let stack = reachable(walk.stack);
    walk_after(
        WalkView { stack: stack.drop_last(), ..walk },
        stack.last(),
        tree(stack.last().fid),
    )
}

/// The states of a walk one after the other, up to one in which no folder is
/// left.
pub open spec fn whole_walk(
    tree: spec_fn(Seq<char>) -> Seq<EntryView>,
    states: Seq<WalkView>,
) -> bool {
    &&& states.len() > 0
    &&& reachable(states.last().stack).len() == 0
    &&& forall|i: int|
        0 <= i < states.len() - 1 ==> reachable((#[trigger] states[i]).stack).len() > 0
            && states[i + 1] == walk_next(tree, states[i])
}

/// What is on top of the stack lies within reach.
proof fn lemma_reachable_top(stack: Seq<FolderView>)
    ensures
        reachable(stack).len() > 0 ==> reachable(stack).last().depth <= MAX_DEPTH,
    decreases stack.len(),
{
    if stack.len() > 0 && stack.last().depth > MAX_DEPTH {
        lemma_reachable_top(stack.drop_last());
    }
}

/// What a walk has found and will still find is the same at each of its states.
proof fn lemma_walk_prospect(
    tree: spec_fn(Seq<char>) -> Seq<EntryView>,
    states: Seq<WalkView>,
    i: int,
)
    requires
        whole_walk(tree, states),
        0 <= i < states.len(),
    ensures
        in_prospect(tree, states[i]) == in_prospect(tree, states[0]),
    decreases i,
{
    if i > 0 {
        lemma_walk_prospect(tree, states, i - 1);
        let before = states[i - 1];
        let stack = reachable(before.stack);
        lemma_reachable_top(before.stack);
        let taken = WalkView { stack: stack.drop_last(), ..before };
        assert(stack =~= taken.stack.push(stack.last()));
        law_walk_keeps_prospect(tree, before, taken, stack.last());
        assert(states[i - 1 + 1] == walk_next(tree, states[i - 1]));
    }
}

/// A walk that is over has found every file of the start and of the folders
/// below it, each once and in order, and nothing else.
pub proof fn law_walk_finds_all(
    tree: spec_fn(Seq<char>) -> Seq<EntryView>,
    states: Seq<WalkView>,
    key: ShareKey,
    fid: Seq<char>,
)
    requires
        whole_walk(tree, states),
        states[0] == walk_from(key, fid),
    ensures
        states.last().files == tree_files(tree, key, fid, Seq::empty(), 0),
{
    law_walk_sets_out_for_all(tree, key, fid);
    lemma_walk_prospect(tree, states, states.len() - 1);
    law_walk_ends_with_all(tree, states.last());
}

/// A file lies in the share under the path of its folder: at the start the
/// path is empty, and each folder on the way adds its name.
pub proof fn law_own_files_carry_path(key: ShareKey, folder: FolderView, entries: Seq<EntryView>)
    ensures
        forall|i: int|
            0 <= i < own_files(key, folder, entries).len() ==> {
                let file = #[trigger] own_files(key, folder, entries)[i];
                file.rel_path == folder.rel_path && file.pwd_id == key.pwd_id && file.stoken
                    == key.stoken
            },
    decreases entries.len(),
{
    let f = |e: EntryView| own_file(key, folder, e);
    reveal(Seq::filter_map);
    if entries.len() > 0 {
        law_own_files_carry_path(key, folder, entries.drop_last());
        let before = own_files(key, folder, entries.drop_last());
        entries.lemma_filter_map_take_succ(f, entries.len() - 1);
        assert(entries.take(entries.len() - 1) =~= entries.drop_last());
        assert(entries.take(entries.len() as int) =~= entries);
        assert forall|i: int| 0 <= i < own_files(key, folder, entries).len() implies ({
            let file = #[trigger] own_files(key, folder, entries)[i];
            file.rel_path == folder.rel_path && file.pwd_id == key.pwd_id && file.stoken
                == key.stoken
        }) by {
            if i < before.len() {
                assert(own_files(key, folder, entries)[i] == before[i]);
            }
        }
    }
}

} // verus!
