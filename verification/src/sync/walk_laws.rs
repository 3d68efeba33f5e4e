//! Where a walk finds things, and what it keeps of them.

use vstd::prelude::*;

use crate::domain::{RemoteItem, SyncDir, SyncItem};
use crate::editor_temp;
use crate::notices::Notice;
use crate::ports::{DirEntry, Reading};
use crate::sync::decision_laws;
use crate::sync::planner;
use crate::sync::snapshot;
use crate::sync::snapshot::{ExclusionsView, LocalEntry};
use crate::sync::snapshot_laws;
use crate::sync::walk;
use crate::sync::walk::{WalkDir, WalkView};
use crate::text_laws;

verus! {

/// The names of the first `n` entries of a chain, with slashes between them.
pub open spec fn names(chain: Seq<DirEntry>, n: int) -> Seq<char>
    decreases n,
{
    if n <= 0 {
        Seq::empty()
    } else if n == 1 {
        chain[0]->name@
    } else {
        names(chain, n - 1) + seq!['/'] + chain[n - 1]->name@
    }
}

/// Each entry of the chain has a name and is at its name in the directory
/// above it.
pub open spec fn well_placed(root: WalkDir<Seq<char>>, chain: Seq<DirEntry>) -> bool {
    forall|i: int|
        0 <= i < chain.len() ==> {
            &&& (#[trigger] chain[i]) matches DirEntry::Named { name, path: Ok(path), .. }
                && name@.len() > 0 && path@ == walk::dir_at(root, chain, i).path + seq!['/']
                + name@
        }
}

/// The root of the walk over a synced directory.
pub open spec fn root_of(dir: SyncDir<Seq<char>>) -> WalkDir<Seq<char>> {
    WalkDir { path: dir.local_path, key: dir.remote_path }
}

/// However deep it goes, a walk has each entry under the path on the remote
/// that mirrors where it is on the disk, and that path leads back to where it
/// is.
pub proof fn law_walked_paths_come_back(dir: SyncDir<Seq<char>>, chain: Seq<DirEntry>, n: int)
    requires
        0 < n <= chain.len(),
        well_placed(root_of(dir), chain),
    ensures
        ({
            let at = walk::dir_at(root_of(dir), chain, n);
            let rel = names(chain, n);
            &&& rel.len() > 0
            &&& at.path == decision_laws::local_place(dir, rel)
            &&& at.key == decision_laws::remote_place(dir, rel)
            &&& planner::local_for(at.key, dir) == at.path
        }),
    decreases n,
{
    let root = root_of(dir);
    let entry = chain[n - 1];
    let name = entry->name@;
    let above = walk::dir_at(root, chain, n - 1);
    assert(walk::dir_at(root, chain, n) == walk::inside(above, entry));
    text_laws::law_joined_parts(above.key, name, name);
    if n == 1 {
        assert(above == root);
        assert(walk::dir_at(root, chain, 0) == root);
    } else {
        law_walked_paths_come_back(dir, chain, n - 1);
        let rel = names(chain, n - 1);
        assert(decision_laws::local_place(dir, rel) + seq!['/'] + name
            =~= decision_laws::local_place(dir, rel + seq!['/'] + name));
        assert(decision_laws::remote_place(dir, rel) + seq!['/'] + name
            =~= decision_laws::remote_place(dir, rel + seq!['/'] + name));
    }
    decision_laws::law_local_path_mirrors_the_remote_one(dir, names(chain, n));
}

/// An entry is kept under its directory's path, a slash and its name, or its
/// name alone at the remote's top, with its own path, type and time; nothing
/// else is kept or forgotten because of it. What cannot be read in full is
/// remembered as a failure there, temp files and excluded subtrees are passed
/// over.
pub proof fn law_entries_are_kept_as_they_are(
    walk: WalkView,
    dir: Seq<char>,
    entry: DirEntry,
    prefixes: Seq<Seq<char>>,
)
    ensures
        ({
            let after = walk.with_entry(dir, entry, prefixes);
            match entry {
                DirEntry::Named { name, path, is_dir, time } => {
                    let key = if dir.len() == 0 {
                        name@
                    } else {
                        dir + seq!['/'] + name@
                    };
                    if editor_temp::editor_temp(name@) {
                        after == walk
                    } else {
                        match (is_dir, path) {
                            (Ok(kind), Ok(whole)) => {
                                &&& after.unreliable == walk.unreliable
                                &&& after.open == walk.open
                                &&& snapshot::excluded(whole@, prefixes) ==> after.local
                                    == walk.local
                                &&& !snapshot::excluded(whole@, prefixes) ==> after.local
                                    == walk.local.insert(
                                    key,
                                    LocalEntry {
                                        absolute_path: whole@,
                                        is_dir: kind,
                                        mtime_secs: match time {
                                            Reading::At(secs) => secs as i64,
                                            _ => 0,
                                        },
                                    },
                                )
                            },
                            _ => {
                                &&& after.local == walk.local
                                &&& after.open == walk.open
                                &&& after.unreliable == walk.unreliable.insert(key)
                            },
                        }
                    }
                },
                _ => {
                    &&& after.local == walk.local
                    &&& after.open == walk.open
                    &&& after.unreliable == walk.unreliable.insert(dir)
                },
            }
        }),
{
    if entry is Named {
        text_laws::law_joined_parts(dir, entry->name@, dir);
    }
}

/// A directory is gone into exactly where it is one, its path is known, and it
/// is neither an editor's temp file nor excluded.
pub proof fn law_which_directories_are_walked(entry: DirEntry, prefixes: Seq<Seq<char>>)
    ensures
        walk::goes_into(entry, prefixes) <==> match entry {
            DirEntry::Named { name, path: Ok(path), is_dir: Ok(kind), .. } => kind
                && !editor_temp::editor_temp(name@) && !snapshot::excluded(path@, prefixes),
            _ => false,
        },
{
}

/// A failure at an entry is logged with where it happened and the words that
/// came; what was read in full, and editors' temp files, are not logged.
pub proof fn law_what_is_logged_of_an_entry(dir: WalkDir<Seq<char>>, entry: DirEntry)
    ensures
        ({
            let lines = walk::entry_notice(dir, entry);
            match entry {
                DirEntry::Broken(words) => lines == seq![
                    Notice::UnreadEntry { path: dir.path, key: dir.key, words: words@ },
                ],
                DirEntry::Nameless(raw) => lines == seq![
                    Notice::UnreadName { path: dir.path, key: dir.key, raw: raw@ },
                ],
                DirEntry::Named { name, path, is_dir, .. } => {
                    let key = if dir.key.len() == 0 {
                        name@
                    } else {
                        dir.key + seq!['/'] + name@
                    };
                    let shown = match path {
                        Ok(whole) => whole@,
                        Err(rough) => rough@,
                    };
                    if editor_temp::editor_temp(name@) {
                        lines.len() == 0
                    } else {
                        match is_dir {
                            Err(words) => lines == seq![
                                Notice::UnknownType { path: shown, key, words: words@ },
                            ],
                            Ok(_) => if path is Err {
                                lines == seq![Notice::UnreadPath { path: shown, key }]
                            } else {
                                lines.len() == 0
                            },
                        }
                    }
                },
            }
        }),
{
    if entry is Named {
        text_laws::law_joined_parts(dir.key, entry->name@, dir.key);
    }
}

/// A directory that cannot be read is logged first, with its paths and the
/// words that came, and is known as a place where the walk failed.
pub proof fn law_an_unreadable_directory_is_logged(
    walk: WalkView,
    words: String,
    prefixes: Seq<Seq<char>>,
)
    requires
        walk.waits(),
    ensures
        ({
            let dir = walk.open.last().dir;
            let (after, lines) = walk.read(Err(words), prefixes);
            &&& lines.len() > 0
            &&& lines[0] == (Notice::UnreadDir { path: dir.path, key: dir.key, words: words@ })
            &&& after.unreliable.contains(dir.key)
        }),
{
    walk::law_failures_are_remembered(walk, Err(words), prefixes);
}

/// What is at `path` and has the key `key` lies at one place below both roots.
pub open spec fn mirrored(dir: SyncDir<Seq<char>>, path: Seq<char>, key: Seq<char>) -> bool {
    exists|rel: Seq<char>|
        rel.len() > 0 && path == decision_laws::local_place(dir, rel) && key
            == #[trigger] decision_laws::remote_place(dir, rel)
}

/// Each entry that has a path is at its name in the directory at `path`.
pub open spec fn honest(path: Seq<char>, entries: Seq<DirEntry>) -> bool {
    forall|i: int|
        0 <= i < entries.len() ==> ((#[trigger] entries[i]) matches DirEntry::Named {
            name,
            path: Ok(whole),
            ..
        } ==> name@.len() > 0 && whole@ == path + seq!['/'] + name@)
}

/// Everything that the walk found, and every directory that it is not through
/// with, has the key that mirrors where it is.
pub open spec fn in_place(walk: WalkView, dir: SyncDir<Seq<char>>) -> bool {
    &&& forall|key: Seq<char>| #[trigger]
        walk.local.contains_key(key) ==> mirrored(dir, walk.local[key].absolute_path, key)
    &&& forall|k: int|
        0 <= k < walk.open.len() ==> {
            let open = #[trigger] walk.open[k];
            &&& open.dir == root_of(dir) || mirrored(dir, open.dir.path, open.dir.key)
            &&& open.left matches Some(left) ==> honest(open.dir.path, left)
        }
}

proof fn lemma_child_is_mirrored(
    dir: SyncDir<Seq<char>>,
    above: WalkDir<Seq<char>>,
    name: Seq<char>,
    path: Seq<char>,
)
    requires
        above == root_of(dir) || mirrored(dir, above.path, above.key),
        name.len() > 0,
        path == above.path + seq!['/'] + name,
    ensures
        mirrored(dir, path, walk::child_key(above.key, name)),
{
    text_laws::law_joined_parts(above.key, name, name);
    if above == root_of(dir) {
        assert(path == decision_laws::local_place(dir, name));
        assert(walk::child_key(above.key, name) == decision_laws::remote_place(dir, name));
    } else {
        let rel = choose|rel: Seq<char>|
            rel.len() > 0 && above.path == decision_laws::local_place(dir, rel) && above.key
                == #[trigger] decision_laws::remote_place(dir, rel);
        let inner = rel + seq!['/'] + name;
        assert(path =~= decision_laws::local_place(dir, inner));
        assert(walk::child_key(above.key, name) =~= decision_laws::remote_place(dir, inner));
    }
}

proof fn lemma_settled_in_place(
    walk: WalkView,
    dir: SyncDir<Seq<char>>,
    prefixes: Seq<Seq<char>>,
)
    requires
        in_place(walk, dir),
    ensures
        in_place(walk.settled(prefixes).0, dir),
    decreases walk.open.len(), walk.left_in_last(),
{
    if walk.open.len() > 0 {
        let last = walk.open.last();
        assert(walk.open[walk.open.len() - 1] == last);
        if let Some(left) = last.left {
            if left.len() == 0 {
                let rest = WalkView { open: walk.open.drop_last(), ..walk };
                assert forall|k: int| 0 <= k < rest.open.len() implies #[trigger] rest.open[k]
                    == walk.open[k] by {}
                lemma_settled_in_place(rest, dir, prefixes);
            } else {
                let (at, entry) = (last.dir, left.last());
                assert(left[left.len() - 1] == entry);
                let fewer = walk.with_last(left.drop_last());
                assert forall|k: int| 0 <= k < left.len() - 1 implies #[trigger] left.drop_last()[k]
                    == left[k] by {}
                assert(honest(at.path, left.drop_last()));
                assert forall|k: int| 0 <= k < walk.open.len() - 1 implies #[trigger] fewer.open[k]
                    == walk.open[k] by {}
                assert(in_place(fewer, dir));
                let after = fewer.with_entry(at.key, entry, prefixes);
                if let DirEntry::Named { name, path: Ok(path), .. } = entry {
                    lemma_child_is_mirrored(dir, at, name@, path@);
                }
                assert(after.open == fewer.open);
                assert(in_place(after, dir));
                if walk::goes_into(entry, prefixes) {
                    let deeper = after.with_unread(walk::inside(at, entry));
                    assert forall|k: int|
                        0 <= k < after.open.len() implies #[trigger] deeper.open[k]
                        == after.open[k] by {}
                    assert(in_place(deeper, dir));
                } else {
                    lemma_settled_in_place(after, dir, prefixes);
                }
            }
        }
    }
}

/// A walk over a synced directory has everything in its place from the start,
/// and keeps it so whatever it reads, as long as the entries of a directory
/// are at their names in it.
pub proof fn law_a_walk_keeps_everything_in_place(
    walk: WalkView,
    dir: SyncDir<Seq<char>>,
    entries: Result<Vec<DirEntry>, String>,
    prefixes: Seq<Seq<char>>,
)
    requires
        walk.waits(),
        in_place(walk, dir),
        entries matches Ok(list) ==> honest(walk.open.last().dir.path, list@),
    ensures
        in_place(WalkView::start(dir.local_path, dir.remote_path), dir),
        in_place(walk.read(entries, prefixes).0, dir),
{
    let last = walk.open.last();
    assert(walk.open[walk.open.len() - 1] == last);
    match entries {
        Ok(list) => {
            let turned = list@.reverse();
            assert forall|k: int| 0 <= k < turned.len() implies #[trigger] turned[k]
                == list@[list@.len() - 1 - k] by {}
            assert(honest(last.dir.path, turned));
            let filled = walk.with_last(turned);
            assert forall|k: int| 0 <= k < walk.open.len() - 1 implies #[trigger] filled.open[k]
                == walk.open[k] by {}
            assert(in_place(filled, dir));
            lemma_settled_in_place(filled, dir, prefixes);
        },
        Err(_) => {
            let rest = (WalkView { open: walk.open.drop_last(), ..walk }).distrust(last.dir.key);
            assert forall|k: int| 0 <= k < rest.open.len() implies #[trigger] rest.open[k]
                == walk.open[k] by {}
            assert(in_place(rest, dir));
            lemma_settled_in_place(rest, dir, prefixes);
        },
    }
}

/// A snapshot of a walk that has everything in its place files every listed
/// item and every walked entry as plans rely on.
pub proof fn law_snapshots_are_filed(
    walk: WalkView,
    dir: SyncDir<Seq<char>>,
    exclusions: ExclusionsView,
    rows: Seq<SyncItem<Seq<char>>>,
    items: Seq<RemoteItem<Seq<char>>>,
)
    requires
        in_place(walk, dir),
    ensures
        decision_laws::filed(snapshot::built(exclusions, rows, items, walk), dir),
{
    let snap = snapshot::built(exclusions, rows, items, walk);
    assert forall|key: Seq<char>| #[trigger]
        snap.remote.contains_key(key) implies snap.remote[key].path == key by {
        snapshot_laws::law_only_listed_items_are_kept(items, exclusions.remote, key);
    }
    assert forall|rel: Seq<char>|
        snap.local.contains_key(#[trigger] decision_laws::remote_place(dir, rel)) implies
        snap.local[decision_laws::remote_place(dir, rel)].absolute_path
        == decision_laws::local_place(dir, rel) by {
        let key = decision_laws::remote_place(dir, rel);
        assert(mirrored(dir, walk.local[key].absolute_path, key));
        let other = choose|other: Seq<char>|
            other.len() > 0 && walk.local[key].absolute_path == decision_laws::local_place(
                dir,
                other,
            ) && key == #[trigger] decision_laws::remote_place(dir, other);
        if dir.remote_path.len() > 0 {
            let n = dir.remote_path.len() as int + 1;
            assert(key.skip(n) =~= rel);
            assert((dir.remote_path + seq!['/'] + other).skip(n) =~= other);
        }
        assert(other == rel);
    }
}

} // verus!
