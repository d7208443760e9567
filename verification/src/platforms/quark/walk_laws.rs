//! What a listing finds, and under which paths.
use vstd::prelude::*;

use crate::text::{join, split};
use crate::text_laws::{
    law_join_in_two, law_joined_pieces_split, lemma_last_piece, lemma_one_piece, without,
};

use super::entry::EntryView;
use super::walk::{
    below, branch_files, bytes_of, law_walk_finds_all, own_files,
    reachable, sub_folder, sub_folders, tree_files, walk_after, walk_from, whole_walk, FolderView,
    ShareKey, WalkView,
};
use super::FileView;

verus! {

// ---------------------------------------------------------------------------
// Paths
// ---------------------------------------------------------------------------
/// At every depth the path of a sub-folder is the path of its folder with the
/// name of the sub-folder added as one more piece; at the start it is the name.
pub proof fn law_path_grows_by_the_name(rel: Seq<char>, name: Seq<char>)
    ensures
        rel.len() > 0 ==> below(rel, name) == rel + "/"@ + name,
        rel.len() == 0 ==> below(rel, name) == name,
        rel.len() > 0 && without(name, '/') ==> split(below(rel, name), '/') == split(
            rel,
            '/',
        ).push(name),
        rel.len() == 0 && without(name, '/') ==> split(below(rel, name), '/') == seq![name],
{
    reveal_strlit("/");
    if without(name, '/') {
        lemma_one_piece(name, '/');
        lemma_last_piece(rel, name, '/');
        assert(rel + "/"@ + name =~= rel + seq!['/'] + name);
    }
}

/// Two sub-folders of one folder have the same path only where they have the
/// same name.
pub proof fn law_paths_tell_names_apart(rel: Seq<char>, a: Seq<char>, b: Seq<char>)
    requires
        below(rel, a) == below(rel, b),
    ensures
        a == b,
{
    law_path_grows_by_the_name(rel, a);
    law_path_grows_by_the_name(rel, b);
    if rel.len() > 0 {
        let n = rel.len() + "/"@.len();
        assert(below(rel, a).skip(n as int) =~= a);
        assert(below(rel, b).skip(n as int) =~= b);
    }
}

/// Two folders that lie in different folders have different paths too, where no
/// name holds a slash.
pub proof fn law_paths_tell_folders_apart(
    rel: Seq<char>,
    other: Seq<char>,
    a: Seq<char>,
    b: Seq<char>,
)
    requires
        rel.len() > 0,
        other.len() > 0,
        without(a, '/'),
        without(b, '/'),
        below(rel, a) == below(other, b),
    ensures
        a == b,
        rel == other,
{
    law_path_grows_by_the_name(rel, a);
    law_path_grows_by_the_name(other, b);
    let x = split(rel, '/');
    let y = split(other, '/');
    assert(x.push(a).last() == y.push(b).last());
    assert(x.push(a).drop_last() =~= x);
    assert(y.push(b).drop_last() =~= y);
    let s = below(rel, a);
    assert(rel =~= s.take(s.len() - a.len() - "/"@.len()));
    assert(other =~= s.take(s.len() - b.len() - "/"@.len()));
}

// ---------------------------------------------------------------------------
// One folder
// ---------------------------------------------------------------------------
/// What one entry of a folder gives: a file with everything that the entry and
/// the share say of it, under the path of the folder, or a sub-folder one
/// deeper, and never both.
pub proof fn law_one_entry(key: ShareKey, folder: FolderView, e: EntryView)
    ensures
        e.is_dir ==> own_files(key, folder, seq![e]) == Seq::<FileView>::empty(),
        !e.is_dir ==> own_files(key, folder, seq![e]) == seq![
            FileView {
                fid: e.fid,
                share_fid_token: e.share_fid_token,
                pwd_id: key.pwd_id,
                stoken: key.stoken,
                name: e.name,
                rel_path: folder.rel_path,
                size: e.size,
            },
        ],
        !e.is_dir ==> sub_folders(folder, seq![e]) == Seq::<FolderView>::empty(),
        e.is_dir ==> sub_folders(folder, seq![e]).len() == 1 && sub_folders(
            folder,
            seq![e],
        )[0].fid == e.fid && sub_folders(folder, seq![e])[0].depth == folder.depth + 1
            && sub_folders(folder, seq![e])[0].rel_path == below(folder.rel_path, e.name),
        own_files(key, folder, Seq::empty()) == Seq::<FileView>::empty(),
        sub_folders(folder, Seq::empty()) == Seq::<FolderView>::empty(),
{
    reveal(Seq::filter_map);
    assert(seq![e].drop_last() =~= Seq::<EntryView>::empty());
    assert(own_files(key, folder, Seq::empty()) =~= Seq::<FileView>::empty());
    assert(sub_folders(folder, Seq::empty()) =~= Seq::<FolderView>::empty());
    assert(own_files(key, folder, seq![e]) =~= if e.is_dir {
        Seq::empty()
    } else {
        seq![
            FileView {
                fid: e.fid,
                share_fid_token: e.share_fid_token,
                pwd_id: key.pwd_id,
                stoken: key.stoken,
                name: e.name,
                rel_path: folder.rel_path,
                size: e.size,
            },
        ]
    });
    assert(e.is_dir ==> sub_folders(folder, seq![e]) =~= seq![sub_folder(folder, e)->0]);
    assert(!e.is_dir ==> sub_folders(folder, seq![e]) =~= Seq::empty());
}

/// The entries of a folder are read one by one, in order: what a list of
/// entries gives is what its first part gives and then what its second does.
pub proof fn law_entries_one_by_one(
    key: ShareKey,
    folder: FolderView,
    a: Seq<EntryView>,
    b: Seq<EntryView>,
)
    ensures
        own_files(key, folder, a + b) == own_files(key, folder, a) + own_files(key, folder, b),
        sub_folders(folder, a + b) == sub_folders(folder, a) + sub_folders(folder, b),
    decreases b.len(),
{
    reveal(Seq::filter_map);
    if b.len() == 0 {
        assert(a + b =~= a);
        assert(own_files(key, folder, b) =~= Seq::empty());
        assert(sub_folders(folder, b) =~= Seq::empty());
        assert(own_files(key, folder, a + b) =~= own_files(key, folder, a) + own_files(
            key,
            folder,
            b,
        ));
        assert(sub_folders(folder, a + b) =~= sub_folders(folder, a) + sub_folders(folder, b));
    } else {
        law_entries_one_by_one(key, folder, a, b.drop_last());
        assert((a + b).drop_last() =~= a + b.drop_last());
        assert((a + b).last() == b.last());
        assert(own_files(key, folder, a + b) =~= own_files(key, folder, a) + own_files(
            key,
            folder,
            b,
        ));
        assert(sub_folders(folder, a + b) =~= sub_folders(folder, a) + sub_folders(folder, b));
    }
}

/// A folder that has been listed adds its files behind those found before, its
/// sub-folders on top of the stack, and each of them to the count.
pub proof fn law_listed_folder(walk: WalkView, folder: FolderView, entries: Seq<EntryView>)
    ensures
        ({
            let after = walk_after(walk, folder, entries);
            &&& after.files == walk.files + own_files(walk.key, folder, entries)
            &&& after.stack == walk.stack + sub_folders(folder, entries)
            &&& after.folders == walk.folders + sub_folders(folder, entries).len()
            &&& after.key == walk.key
        }),
{
}

/// A walk begins with the start alone: nothing is found yet, the path of the
/// start is empty, and it lies at depth zero.
pub proof fn law_walk_begins(key: ShareKey, fid: Seq<char>)
    ensures
        walk_from(key, fid).files == Seq::<FileView>::empty(),
        walk_from(key, fid).folders == 0,
        walk_from(key, fid).key == key,
        walk_from(key, fid).stack.len() == 1,
        walk_from(key, fid).stack[0].fid == fid,
        walk_from(key, fid).stack[0].rel_path.len() == 0,
        walk_from(key, fid).stack[0].depth == 0,
{
}

/// Folders up to thirty deep are listed, deeper ones are passed over; the next
/// folder is the one that was found last.
pub proof fn law_depth_of_a_listing(stack: Seq<FolderView>, folder: FolderView)
    ensures
        folder.depth <= 30 ==> reachable(stack.push(folder)) == stack.push(folder),
        folder.depth > 30 ==> reachable(stack.push(folder)) == reachable(stack),
        reachable(Seq::empty()) == Seq::<FolderView>::empty(),
{
    assert(stack.push(folder).drop_last() =~= stack);
}

/// The bytes of the files add up.
pub proof fn law_bytes_add_up(a: Seq<FileView>, b: Seq<FileView>, file: FileView)
    ensures
        bytes_of(a + b) == bytes_of(a) + bytes_of(b),
        bytes_of(seq![file]) == file.size,
        bytes_of(Seq::empty()) == 0,
    decreases b.len(),
{
    assert(seq![file].drop_last() =~= Seq::empty());
    assert(bytes_of(Seq::empty()) == 0);
    if b.len() > 0 {
        law_bytes_add_up(a, b.drop_last(), file);
        assert((a + b).drop_last() =~= a + b.drop_last());
    } else {
        assert(a + b =~= a);
    }
}

// ---------------------------------------------------------------------------
// The whole share
// ---------------------------------------------------------------------------
/// The folders lead one into the other, the first out of the folder `fid`.
pub open spec fn leads(
    tree: spec_fn(Seq<char>) -> Seq<EntryView>,
    fid: Seq<char>,
    steps: Seq<EntryView>,
) -> bool
    decreases steps.len(),
{
    steps.len() == 0 || (tree(fid).contains(steps[0]) && steps[0].is_dir && steps[0].name.len() > 0
        && leads(tree, steps[0].fid, steps.drop_first()))
}

/// The folder that the steps end in.
pub open spec fn end_of(fid: Seq<char>, steps: Seq<EntryView>) -> Seq<char> {
    if steps.len() == 0 {
        fid
    } else {
        steps.last().fid
    }
}

/// The names of the folders on the way, with slashes between them.
pub open spec fn names_of(steps: Seq<EntryView>) -> Seq<char> {
    join(steps.map_values(|e: EntryView| e.name), seq!['/'])
}

/// The file that an entry is, under a path.
pub open spec fn file_at(key: ShareKey, e: EntryView, path: Seq<char>) -> FileView {
    FileView {
        fid: e.fid,
        share_fid_token: e.share_fid_token,
        pwd_id: key.pwd_id,
        stoken: key.stoken,
        name: e.name,
        rel_path: path,
        size: e.size,
    }
}

/// The path `rel` and the names behind it.
spec fn onward(rel: Seq<char>, steps: Seq<EntryView>) -> Seq<char> {
    if steps.len() == 0 {
        rel
    } else if rel.len() == 0 {
        names_of(steps)
    } else {
        rel + seq!['/'] + names_of(steps)
    }
}

proof fn lemma_onward(rel: Seq<char>, steps: Seq<EntryView>)
    requires
        steps.len() > 0,
        steps[0].name.len() > 0,
    ensures
        onward(below(rel, steps[0].name), steps.drop_first()) == onward(rel, steps),
        below(rel, steps[0].name).len() > 0,
{
    reveal_strlit("/");
    law_path_grows_by_the_name(rel, steps[0].name);
    let rest = steps.drop_first();
    let first = seq![steps[0].name];
    let names = steps.map_values(|e: EntryView| e.name);
    let others = rest.map_values(|e: EntryView| e.name);
    assert(names =~= first + others);
    if rest.len() > 0 {
        law_join_in_two(first, others, seq!['/']);
        assert(onward(below(rel, steps[0].name), rest) =~= onward(rel, steps));
    } else {
        assert(names =~= first);
        assert(onward(below(rel, steps[0].name), rest) =~= onward(rel, steps));
    }
}

proof fn lemma_entry_gives(key: ShareKey, folder: FolderView, entries: Seq<EntryView>, i: int)
    requires
        0 <= i < entries.len(),
    ensures
        !entries[i].is_dir ==> own_files(key, folder, entries).contains(
            file_at(key, entries[i], folder.rel_path),
        ),
        entries[i].is_dir ==> sub_folders(folder, entries).contains(
            sub_folder(folder, entries[i])->0,
        ),
{
    let e = entries[i];
    let a = entries.take(i);
    let b = entries.skip(i + 1);
    assert(entries =~= (a + seq![e]) + b);
    law_entries_one_by_one(key, folder, a + seq![e], b);
    law_entries_one_by_one(key, folder, a, seq![e]);
    law_one_entry(key, folder, e);
    if e.is_dir {
        let k = sub_folders(folder, a).len() as int;
        assert(sub_folders(folder, entries)[k] == sub_folders(folder, seq![e])[0]);
        assert(sub_folders(folder, entries)[k] == sub_folder(folder, e)->0);
    } else {
        let k = own_files(key, folder, a).len() as int;
        assert(own_files(key, folder, entries)[k] == file_at(key, e, folder.rel_path));
    }
}

proof fn lemma_branch_holds(
    tree: spec_fn(Seq<char>) -> Seq<EntryView>,
    key: ShareKey,
    subs: Seq<FolderView>,
    depth: nat,
    k: int,
    x: FileView,
)
    requires
        depth <= 30,
        0 <= k < subs.len(),
        tree_files(tree, key, subs[k].fid, subs[k].rel_path, depth + 1).contains(x),
    ensures
        branch_files(tree, key, subs, depth).contains(x),
    decreases subs.len(),
{
    let last = tree_files(tree, key, subs.last().fid, subs.last().rel_path, depth + 1);
    let before = branch_files(tree, key, subs.drop_last(), depth);
    assert(branch_files(tree, key, subs, depth) == last + before);
    if k == subs.len() - 1 {
        let i = choose|i: int| 0 <= i < last.len() && last[i] == x;
        assert((last + before)[i] == x);
    } else {
        assert(subs.drop_last()[k] == subs[k]);
        lemma_branch_holds(tree, key, subs.drop_last(), depth, k, x);
        let i = choose|i: int| 0 <= i < before.len() && before[i] == x;
        assert((last + before)[last.len() + i] == x);
    }
}

proof fn lemma_file_is_found(
    tree: spec_fn(Seq<char>) -> Seq<EntryView>,
    key: ShareKey,
    fid: Seq<char>,
    rel: Seq<char>,
    depth: nat,
    steps: Seq<EntryView>,
    file: EntryView,
)
    requires
        leads(tree, fid, steps),
        depth + steps.len() <= 30,
        tree(end_of(fid, steps)).contains(file),
        !file.is_dir,
    ensures
        tree_files(tree, key, fid, rel, depth).contains(file_at(key, file, onward(rel, steps))),
    decreases steps.len(),
{
    let folder = FolderView { fid, rel_path: rel, depth };
    let own = own_files(key, folder, tree(fid));
    let subs = sub_folders(folder, tree(fid));
    let branch = branch_files(tree, key, subs, depth);
    assert(tree_files(tree, key, fid, rel, depth) == own + branch);
    let x = file_at(key, file, onward(rel, steps));
    let entries = tree(fid);
    if steps.len() == 0 {
        let i = choose|i: int| 0 <= i < entries.len() && entries[i] == file;
        lemma_entry_gives(key, folder, tree(fid), i);
        let k = choose|k: int| 0 <= k < own.len() && own[k] == x;
        assert((own + branch)[k] == x);
    } else {
        let rest = steps.drop_first();
        let i = choose|i: int| 0 <= i < entries.len() && entries[i] == steps[0];
        lemma_entry_gives(key, folder, tree(fid), i);
        let sub = sub_folder(folder, steps[0])->0;
        lemma_onward(rel, steps);
        assert(end_of(fid, steps) == end_of(steps[0].fid, rest)) by {
            if rest.len() > 0 {
                assert(rest.last() == steps.last());
            }
        }
        lemma_file_is_found(tree, key, steps[0].fid, sub.rel_path, depth + 1, rest, file);
        let k = choose|k: int| 0 <= k < subs.len() && subs[k] == sub;
        lemma_branch_holds(tree, key, subs, depth, k, x);
        let m = choose|m: int| 0 <= m < branch.len() && branch[m] == x;
        assert((own + branch)[own.len() + m] == x);
    }
}

/// A walk that is over has found every file that lies at most thirty folders
/// deep, with the names of all folders between the start and the file as its
/// path, in order and with slashes between them.
pub proof fn law_every_file_is_listed(
    tree: spec_fn(Seq<char>) -> Seq<EntryView>,
    states: Seq<WalkView>,
    key: ShareKey,
    fid: Seq<char>,
    steps: Seq<EntryView>,
    file: EntryView,
)
    requires
        whole_walk(tree, states),
        states[0] == walk_from(key, fid),
        leads(tree, fid, steps),
        steps.len() <= 30,
        tree(end_of(fid, steps)).contains(file),
        !file.is_dir,
    ensures
        states.last().files.contains(file_at(key, file, names_of(steps))),
{
    law_walk_finds_all(tree, states, key, fid);
    lemma_file_is_found(tree, key, fid, Seq::empty(), 0, steps, file);
    if steps.len() == 0 {
        assert(steps.map_values(|e: EntryView| e.name) =~= Seq::empty());
        assert(names_of(steps) =~= Seq::empty());
    }
}

/// The path of a listed file, cut at its slashes, is the names of the folders
/// on the way, where no name holds a slash.
pub proof fn law_path_names_the_folders(steps: Seq<EntryView>)
    requires
        steps.len() > 0,
        forall|i: int| 0 <= i < steps.len() ==> without((#[trigger] steps[i]).name, '/'),
    ensures
        split(names_of(steps), '/') == steps.map_values(|e: EntryView| e.name),
{
    let names = steps.map_values(|e: EntryView| e.name);
    assert forall|i: int| 0 <= i < names.len() implies without(#[trigger] names[i], '/') by {
        assert(names[i] == steps[i].name);
    }
    law_joined_pieces_split(names, '/');
}

// ---------------------------------------------------------------------------
// Nothing else
// ---------------------------------------------------------------------------
/// The folders lead one into the other, whatever they are called.
pub open spec fn goes_down(
    tree: spec_fn(Seq<char>) -> Seq<EntryView>,
    fid: Seq<char>,
    steps: Seq<EntryView>,
) -> bool
    decreases steps.len(),
{
    steps.len() == 0 || (tree(fid).contains(steps[0]) && steps[0].is_dir && goes_down(
        tree,
        steps[0].fid,
        steps.drop_first(),
    ))
}

/// `x` is what an entry of the share gives that lies at most `levels` folders
/// below `fid`.
pub open spec fn is_below(
    tree: spec_fn(Seq<char>) -> Seq<EntryView>,
    key: ShareKey,
    fid: Seq<char>,
    levels: int,
    x: FileView,
) -> bool {
    exists|steps: Seq<EntryView>, e: EntryView|
        #![trigger goes_down(tree, fid, steps), file_at(key, e, x.rel_path)]
        goes_down(tree, fid, steps) && steps.len() <= levels && tree(end_of(fid, steps)).contains(e)
            && !e.is_dir && x == file_at(key, e, x.rel_path)
}

proof fn lemma_only_entries_give(
    key: ShareKey,
    folder: FolderView,
    entries: Seq<EntryView>,
)
    ensures
        forall|x: FileView| #[trigger]
            own_files(key, folder, entries).contains(x) ==> exists|i: int|
                0 <= i < entries.len() && !(#[trigger] entries[i]).is_dir && x == file_at(
                    key,
                    entries[i],
                    folder.rel_path,
                ),
        forall|s: FolderView| #[trigger]
            sub_folders(folder, entries).contains(s) ==> exists|i: int|
                0 <= i < entries.len() && (#[trigger] entries[i]).is_dir && s.fid == entries[i].fid,
    decreases entries.len(),
{
    law_one_entry(
        key,
        folder,
        if entries.len() > 0 {
            entries.last()
        } else {
            arbitrary()
        },
    );
    if entries.len() > 0 {
        let rest = entries.drop_last();
        let e = entries.last();
        lemma_only_entries_give(key, folder, rest);
        assert(entries =~= rest + seq![e]);
        law_entries_one_by_one(key, folder, rest, seq![e]);
        let (fa, fb) = (own_files(key, folder, rest), own_files(key, folder, seq![e]));
        let (sa, sb) = (sub_folders(folder, rest), sub_folders(folder, seq![e]));
        assert forall|x: FileView| #[trigger] own_files(key, folder,
        entries).contains(x) implies exists|
            i: int,
        |
            0 <= i < entries.len() && !(#[trigger] entries[i]).is_dir && x == file_at(
                key,
                entries[i],
                folder.rel_path,
            ) by {
            let k = choose|k: int| 0 <= k < (fa + fb).len() && (fa + fb)[k] == x;
            if k < fa.len() {
                assert(fa[k] == x);
                assert(fa.contains(x));
                let i = choose|i: int|
                    0 <= i < rest.len() && !(#[trigger] rest[i]).is_dir && x == file_at(
                        key,
                        rest[i],
                        folder.rel_path,
                    );
                assert(entries[i] == rest[i]);
            } else {
                assert(fb[k - fa.len()] == x);
                assert(entries[entries.len() - 1] == e);
            }
        }
        assert forall|s: FolderView| #[trigger] sub_folders(folder,
        entries).contains(s) implies exists|
            i: int,
        |
            0 <= i < entries.len() && (#[trigger] entries[i]).is_dir && s.fid == entries[i].fid by {
            let k = choose|k: int| 0 <= k < (sa + sb).len() && (sa + sb)[k] == s;
            if k < sa.len() {
                assert(sa[k] == s);
                assert(sa.contains(s));
                let i = choose|i: int|
                    0 <= i < rest.len() && (#[trigger] rest[i]).is_dir && s.fid == rest[i].fid;
                assert(entries[i] == rest[i]);
            } else {
                assert(sb[k - sa.len()] == s);
                assert(entries[entries.len() - 1] == e);
            }
        }
    }
}

proof fn lemma_tree_is_below(
    tree: spec_fn(Seq<char>) -> Seq<EntryView>,
    key: ShareKey,
    fid: Seq<char>,
    rel: Seq<char>,
    depth: nat,
    x: FileView,
)
    requires
        tree_files(tree, key, fid, rel, depth).contains(x),
    ensures
        is_below(tree, key, fid, 30 - depth, x),
    decreases 31 - depth, 1int, 0int,
{
    if depth <= 30 {
        let folder = FolderView { fid, rel_path: rel, depth };
        let own = own_files(key, folder, tree(fid));
        let subs = sub_folders(folder, tree(fid));
        let branch = branch_files(tree, key, subs, depth);
        lemma_only_entries_give(key, folder, tree(fid));
        let k = choose|k: int| 0 <= k < (own + branch).len() && (own + branch)[k] == x;
        if k < own.len() {
            assert(own[k] == x);
            assert(own.contains(x));
            let i = choose|i: int|
                0 <= i < tree(fid).len() && !(#[trigger] tree(fid)[i]).is_dir && x == file_at(
                    key,
                    tree(fid)[i],
                    rel,
                );
            let none = Seq::<EntryView>::empty();
            assert(goes_down(tree, fid, none));
            assert(x == file_at(key, tree(fid)[i], x.rel_path));
        } else {
            assert(branch[k - own.len()] == x);
            assert(branch.contains(x));
            lemma_branch_is_below(tree, key, fid, subs, depth, x);
        }
    }
}

proof fn lemma_branch_is_below(
    tree: spec_fn(Seq<char>) -> Seq<EntryView>,
    key: ShareKey,
    fid: Seq<char>,
    subs: Seq<FolderView>,
    depth: nat,
    x: FileView,
)
    requires
        depth <= 30,
        branch_files(tree, key, subs, depth).contains(x),
        forall|s: FolderView| #[trigger]
            subs.contains(s) ==> exists|i: int|
                0 <= i < tree(fid).len() && (#[trigger] tree(fid)[i]).is_dir && s.fid == tree(
                    fid,
                )[i].fid,
    ensures
        is_below(tree, key, fid, 30 - depth, x),
    decreases 31 - depth, 0int, subs.len(),
{
    let last = tree_files(tree, key, subs.last().fid, subs.last().rel_path, depth + 1);
    let before = branch_files(tree, key, subs.drop_last(), depth);
    let k = choose|k: int| 0 <= k < (last + before).len() && (last + before)[k] == x;
    if k < last.len() {
        assert(last[k] == x);
        assert(last.contains(x));
        let s = subs.last();
        assert(subs[subs.len() - 1] == s);
        assert(subs.contains(s));
        lemma_tree_is_below(tree, key, s.fid, s.rel_path, depth + 1, x);
        let (steps, e) = choose|steps: Seq<EntryView>, e: EntryView|
            #![trigger goes_down(tree, s.fid, steps), file_at(key, e, x.rel_path)]
            goes_down(tree, s.fid, steps) && steps.len() <= 30 - (depth + 1) && tree(
                end_of(s.fid, steps),
            ).contains(e) && !e.is_dir && x == file_at(key, e, x.rel_path);
        let i = choose|i: int|
            0 <= i < tree(fid).len() && (#[trigger] tree(fid)[i]).is_dir && s.fid == tree(
                fid,
            )[i].fid;
        let d = tree(fid)[i];
        let more = seq![d] + steps;
        assert(more.drop_first() =~= steps);
        assert(more[0] == d);
        assert(tree(fid).contains(d));
        assert(goes_down(tree, fid, more));
        assert(end_of(fid, more) == end_of(s.fid, steps)) by {
            if steps.len() > 0 {
                assert(more.last() == steps.last());
            }
        }
        assert(x == file_at(key, e, x.rel_path));
    } else {
        assert(before[k - last.len()] == x);
        assert(before.contains(x));
        let rest = subs.drop_last();
        assert forall|s: FolderView| #[trigger] rest.contains(s) implies exists|i: int|
            0 <= i < tree(fid).len() && (#[trigger] tree(fid)[i]).is_dir && s.fid == tree(
                fid,
            )[i].fid by {
            let m = choose|m: int| 0 <= m < rest.len() && rest[m] == s;
            assert(subs[m] == s);
            assert(subs.contains(s));
        }
        lemma_branch_is_below(tree, key, fid, rest, depth, x);
    }
}

/// A walk that is over has found nothing but files of the share: each comes from
/// an entry that is no folder, at most thirty folders below the start.
pub proof fn law_nothing_else_is_listed(
    tree: spec_fn(Seq<char>) -> Seq<EntryView>,
    states: Seq<WalkView>,
    key: ShareKey,
    fid: Seq<char>,
    x: FileView,
)
    requires
        whole_walk(tree, states),
        states[0] == walk_from(key, fid),
        states.last().files.contains(x),
    ensures
        is_below(tree, key, fid, 30, x),
{
    law_walk_finds_all(tree, states, key, fid);
    lemma_tree_is_below(tree, key, fid, Seq::empty(), 0, x);
}

} // verus!
