//! Which two paths belong together.

use vstd::prelude::*;

use crate::domain::{Remote, RemoteItem, SyncDir};
use crate::editor_temp;
use crate::ops::RemoteFact;
use crate::paths;
use crate::ports::DirEntry;
use crate::sync::decision_laws;
use crate::sync::planner;
use crate::sync_path;
use crate::text_laws;
use crate::tree::admission;
use crate::tree::admission::{Admission, TreeItem};
use crate::tree::local_laws;
use crate::tree::remote_laws;

verus! {

/// A single local path is synced with the remote path that mirrors it, and
/// that remote path leads back to it; the synced directory itself goes with
/// the remote root. A path outside goes with nothing.
pub proof fn law_a_single_path_is_mirrored(
    dir: SyncDir<Seq<char>>,
    rel: Seq<char>,
    name: Option<Seq<char>>,
    outside: Seq<char>,
)
    requires
        name matches Some(own) ==> !editor_temp::editor_temp(own),
        outside != dir.local_path,
        forall|rest: Seq<char>| outside != #[trigger] decision_laws::local_place(dir, rest),
    ensures
        rel.len() > 0 ==> sync_path::target(decision_laws::local_place(dir, rel), name, dir)
            == Some(decision_laws::remote_place(dir, rel)),
        rel.len() > 0 ==> planner::local_for(decision_laws::remote_place(dir, rel), dir)
            == decision_laws::local_place(dir, rel),
        sync_path::target(dir.local_path, name, dir) == Some(dir.remote_path),
        sync_path::target(outside, name, dir) is None,
{
    let place = decision_laws::local_place(dir, rel);
    text_laws::law_joined_parts(dir.local_path, rel, outside);
    text_laws::law_joined_parts(dir.remote_path, rel, outside);
    decision_laws::law_local_path_mirrors_the_remote_one(dir, rel);
    assert(place.len() != dir.local_path.len());
    if let Some(left) = paths::below(outside, dir.local_path) {
        assert(outside == decision_laws::local_place(dir, left));
    }
    if dir.remote_path.len() == 0 {
        assert(dir.remote_path =~= Seq::empty());
    }
}

/// A listed item below the remote root is synced at the local path that
/// mirrors it, under its own remote path, by which patterns are held against
/// it, with its own type and time; an editor's temp file is passed over.
pub proof fn law_a_listed_item_is_mirrored(
    dir: SyncDir<Seq<char>>,
    item: RemoteItem,
    rel: Seq<char>,
)
    requires
        rel.len() > 0,
        rel[0] != '/',
        item.path@ == decision_laws::remote_place(dir, rel),
    ensures
        editor_temp::editor_temp(item.name@) ==> admission::admit_remote(item, dir) is Skip,
        !editor_temp::editor_temp(item.name@) ==> (admission::admit_remote(item, dir)
            matches Admission::Item(candidate) && candidate.local_path
            == decision_laws::local_place(dir, rel) && candidate.remote_path == item.path@
            && candidate.glob_text == item.path@ && candidate.machine == TreeItem::Remote(
            remote_laws::fresh(RemoteFact { is_dir: item.is_dir, time: item.mod_time }),
        ) && planner::local_for(candidate.remote_path, dir) == candidate.local_path),
{
    let path = item.path@;
    let root = dir.remote_path;
    text_laws::law_joined_parts(dir.local_path, rel, rel);
    decision_laws::law_local_path_mirrors_the_remote_one(dir, rel);
    if root.len() == 0 {
        assert(root + rel =~= rel);
        text_laws::law_prefix_is_taken_off(root, rel, path);
        text_laws::law_slashes_are_taken_off(rel, Seq::empty());
        assert(Seq::empty() + rel =~= rel);
    } else {
        let behind = seq!['/'] + rel;
        assert(path =~= root + behind);
        text_laws::law_prefix_is_taken_off(root, behind, path);
        text_laws::law_slashes_are_taken_off(rel, seq!['/']);
    }
}

/// A local entry that could not be read is broken, with the words that came;
/// one without a name or a path, or outside the synced directory, cannot be
/// gone on with; an editor's temp file is passed over. Any other entry is
/// synced, with the type that was told of it.
pub proof fn law_which_entries_are_admitted(entry: DirEntry, dir: SyncDir<Seq<char>>)
    ensures
        match entry {
            DirEntry::Broken(words) => admission::admit_local(entry, dir) == Admission::Broken(
                words@,
            ),
            DirEntry::Nameless(_) => admission::admit_local(entry, dir) is Fault,
            DirEntry::Named { path: Err(_), .. } => admission::admit_local(entry, dir) is Fault,
            DirEntry::Named { name, path: Ok(path), is_dir, .. } => if editor_temp::editor_temp(
                name@,
            ) {
                admission::admit_local(entry, dir) is Skip
            } else if exists|rel: Seq<char>|
                path@ == #[trigger] decision_laws::local_place(dir, rel) {
                admission::admit_local(entry, dir) matches Admission::Item(candidate)
                    && candidate.local_path == path@ && candidate.machine == TreeItem::Local(
                    local_laws::fresh(
                        match is_dir {
                            Ok(kind) => Some(kind),
                            Err(_) => None,
                        },
                    ),
                )
            } else {
                admission::admit_local(entry, dir) is Fault
            },
        },
{
    if let DirEntry::Named { name, path: Ok(path), is_dir, .. } = entry {
        assert forall|rel: Seq<char>| path@ == #[trigger] decision_laws::local_place(
            dir,
            rel,
        ) implies paths::below(path@, dir.local_path) is Some by {
            text_laws::law_joined_parts(dir.local_path, rel, path@);
        }
        text_laws::law_joined_parts(dir.local_path, path@, path@);
        if let Some(left) = paths::below(path@, dir.local_path) {
            assert(path@ == decision_laws::local_place(dir, left));
        }
    }
}

/// A single path is synced between the two paths that it was given, for its
/// own remote and directory.
pub proof fn law_a_single_path_keeps_its_place(
    local_path: Seq<char>,
    remote_path: Seq<char>,
    remote: Remote<Seq<char>>,
    dir: SyncDir<Seq<char>>,
)
    ensures
        ({
            let place = sync_path::place_of(local_path, remote_path, remote, dir);
            &&& place.local_path == local_path
            &&& place.remote_path == remote_path
            &&& place.source.remote_id == remote.id
            &&& place.source.sync_dir_id == dir.id
            &&& place.progress is None
            &&& place.seen_on is Local
        }),
{
}

} // verus!
