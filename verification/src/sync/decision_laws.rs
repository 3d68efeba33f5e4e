//! What a plan does about each path, and where.

use vstd::prelude::*;

use crate::domain::{RemoteItem, SyncDir};
use crate::paths;
use crate::ports::DirEntry;
use crate::sync::plan_laws;
use crate::sync::planner;
use crate::sync::planner::Action;
use crate::sync::snapshot::{LocalEntry, SnapshotView};
use crate::text;
use crate::text_laws;
use crate::tree::admission;
use crate::tree::admission::Admission;

verus! {

/// The path on the remote of what lies at `rel` in a synced directory.
pub open spec fn remote_place(dir: SyncDir<Seq<char>>, rel: Seq<char>) -> Seq<char> {
    if dir.remote_path.len() == 0 {
        rel
    } else {
        dir.remote_path + seq!['/'] + rel
    }
}

/// The local path of what lies at `rel` in a synced directory.
pub open spec fn local_place(dir: SyncDir<Seq<char>>, rel: Seq<char>) -> Seq<char> {
    dir.local_path + seq!['/'] + rel
}

/// What lies at `rel` below the remote root belongs at `rel` below the local
/// root, whatever `rel` holds; the root itself belongs at the root.
pub proof fn law_local_path_mirrors_the_remote_one(dir: SyncDir<Seq<char>>, rel: Seq<char>)
    ensures
        rel.len() > 0 ==> planner::local_for(remote_place(dir, rel), dir) == local_place(dir, rel),
        rel.len() == 0 ==> planner::local_for(remote_place(dir, rel), dir) == dir.local_path,
{
    text_laws::law_joined_parts(dir.remote_path, rel, rel);
    text_laws::law_joined_parts(dir.local_path, rel, rel);
}

/// Two paths below the remote root never share a local path.
pub proof fn law_local_paths_are_not_shared(
    dir: SyncDir<Seq<char>>,
    one: Seq<char>,
    other: Seq<char>,
)
    requires
        planner::local_for(remote_place(dir, one), dir) == planner::local_for(
            remote_place(dir, other),
            dir,
        ),
    ensures
        one == other,
{
    law_local_path_mirrors_the_remote_one(dir, one);
    law_local_path_mirrors_the_remote_one(dir, other);
    let (a, b) = (local_place(dir, one), local_place(dir, other));
    let n = dir.local_path.len() as int + 1;
    assert(a.len() == n + one.len() && b.len() == n + other.len());
    if one.len() > 0 && other.len() > 0 {
        assert(a.skip(n) =~= one);
        assert(b.skip(n) =~= other);
    } else {
        assert(one =~= other);
    }
}

/// The path on the remote under which a pass over the tree looks at a local
/// entry leads back to that entry; ignore patterns are held against it, or
/// against the part below the root where the root holds a slash.
pub proof fn law_local_paths_come_back(entry: DirEntry, dir: SyncDir<Seq<char>>, rel: Seq<char>)
    requires
        rel.len() > 0,
        rel.last() != '/',
        entry matches DirEntry::Named { path: Ok(path), .. } && path@ == local_place(dir, rel),
        admission::admit_local(entry, dir) !is Skip,
    ensures
        admission::admit_local(entry, dir) matches Admission::Item(candidate)
            && candidate.local_path == local_place(dir, rel) && candidate.remote_path
            == remote_place(dir, rel) && planner::local_for(candidate.remote_path, dir)
            == candidate.local_path && candidate.glob_text == if dir.remote_path.contains('/') {
            rel
        } else {
            remote_place(dir, rel)
        },
{
    text_laws::law_joined_parts(dir.local_path, rel, rel);
    text_laws::law_joined_parts(dir.remote_path, rel, rel);
    law_local_path_mirrors_the_remote_one(dir, rel);
}

/// The snapshot files each listed item under its own path, and each walked
/// entry under the path that mirrors where it was found.
pub open spec fn filed(snap: SnapshotView, dir: SyncDir<Seq<char>>) -> bool {
    &&& forall|key: Seq<char>| #[trigger]
        snap.remote.contains_key(key) ==> snap.remote[key].path == key
    &&& forall|rel: Seq<char>|
        snap.local.contains_key(#[trigger] remote_place(dir, rel)) ==> snap.local[remote_place(
            dir,
            rel,
        )].absolute_path == local_place(dir, rel)
}

/// The local path of an action.
pub open spec fn local_path_of(action: Action<Seq<char>>) -> Seq<char> {
    match action {
        Action::Upload { local_path, .. }
        | Action::Download { local_path, .. }
        | Action::DeleteLocal { local_path, .. }
        | Action::DeleteRemote { local_path, .. }
        | Action::ClearDbRow { local_path, .. }
        | Action::Conflict { local_path, .. } => local_path,
    }
}

/// Every action about something at `rel` below the remote root works at `rel`
/// below the local root.
pub proof fn law_actions_work_at_mirrored_places(
    snap: SnapshotView,
    dir: SyncDir<Seq<char>>,
    actions: Seq<Action<Seq<char>>>,
    i: int,
    rel: Seq<char>,
)
    requires
        planner::is_plan(snap, dir, actions),
        filed(snap, dir),
        0 <= i < actions.len(),
        rel.len() > 0,
        planner::path_of(actions[i]) == remote_place(dir, rel),
    ensures
        local_path_of(actions[i]) == local_place(dir, rel),
{
    let keys = choose|keys: Seq<Seq<char>>| planner::plans(snap, dir, keys, actions);
    assert(planner::decided(snap, dir, keys[i]) == Some(actions[i]));
    assert(keys[i] == remote_place(dir, rel));
    law_local_path_mirrors_the_remote_one(dir, rel);
}

/// What a plan holds about a path is what is decided for it.
proof fn lemma_planned(
    snap: SnapshotView,
    dir: SyncDir<Seq<char>>,
    actions: Seq<Action<Seq<char>>>,
    key: Seq<char>,
)
    requires
        planner::is_plan(snap, dir, actions),
        filed(snap, dir),
    ensures
        match planner::decided(snap, dir, key) {
            Some(action) => only_plans(actions, key, action),
            None => leaves(actions, key),
        },
{
    let keys = choose|keys: Seq<Seq<char>>| planner::plans(snap, dir, keys, actions);
    assert forall|i: int|
        0 <= i < actions.len() && planner::path_of(#[trigger] actions[i]) == key implies keys[i]
        == key by {
        assert(planner::decided(snap, dir, keys[i]) == Some(actions[i]));
    }
    if let Some(action) = planner::decided(snap, dir, key) {
        assert(keys.contains(key));
        let i = keys.index_of(key);
        assert(planner::decided(snap, dir, keys[i]) == Some(actions[i]));
        assert forall|j: int|
            0 <= j < actions.len() && planner::path_of(#[trigger] actions[j])
                == key implies actions[j] == action by {
            assert(planner::decided(snap, dir, keys[j]) == Some(actions[j]));
        }
    } else {
        assert forall|j: int| 0 <= j < actions.len() implies planner::path_of(
            #[trigger] actions[j],
        ) != key by {
            assert(planner::decided(snap, dir, keys[j]) == Some(actions[j]));
        }
    }
}

/// The plan holds the action, and no other about its path.
pub open spec fn only_plans(
    actions: Seq<Action<Seq<char>>>,
    key: Seq<char>,
    action: Action<Seq<char>>,
) -> bool {
    &&& actions.contains(action)
    &&& forall|i: int|
        0 <= i < actions.len() && planner::path_of(#[trigger] actions[i]) == key ==> actions[i]
            == action
}

/// The plan holds nothing about the path.
pub open spec fn leaves(actions: Seq<Action<Seq<char>>>, key: Seq<char>) -> bool {
    forall|i: int| 0 <= i < actions.len() ==> planner::path_of(#[trigger] actions[i]) != key
}

/// The plan brings the walked entry to the remote.
pub open spec fn uploads(
    actions: Seq<Action<Seq<char>>>,
    key: Seq<char>,
    entry: LocalEntry<Seq<char>>,
) -> bool {
    only_plans(
        actions,
        key,
        Action::Upload {
            local_path: entry.absolute_path,
            remote_path: key,
            is_dir: entry.is_dir,
        },
    )
}

/// The plan brings the listed item to `local_path`.
pub open spec fn downloads(
    actions: Seq<Action<Seq<char>>>,
    key: Seq<char>,
    item: RemoteItem<Seq<char>>,
    local_path: Seq<char>,
) -> bool {
    only_plans(
        actions,
        key,
        Action::Download { local_path, remote_path: key, is_dir: item.is_dir },
    )
}

/// What is on one side only and was never recorded is copied to the other
/// side; a row of what is on neither side is cleared; a path of which nothing
/// is known is left alone.
pub proof fn law_new_is_copied_and_stale_is_cleared(
    snap: SnapshotView,
    dir: SyncDir<Seq<char>>,
    actions: Seq<Action<Seq<char>>>,
    rel: Seq<char>,
)
    requires
        planner::is_plan(snap, dir, actions),
        filed(snap, dir),
        rel.len() > 0,
    ensures
        ({
            let key = remote_place(dir, rel);
            let (here, there, row) = (
                snap.local.contains_key(key),
                snap.remote.contains_key(key),
                snap.db.contains_key(key),
            );
            &&& here && !there && !row ==> uploads(actions, key, snap.local[key])
            &&& !here && there && !row ==> downloads(
                actions,
                key,
                snap.remote[key],
                local_place(dir, rel),
            )
            &&& !here && !there && row ==> only_plans(
                actions,
                key,
                Action::ClearDbRow { local_path: local_place(dir, rel), remote_path: key },
            )
            &&& !here && !there && !row ==> leaves(actions, key)
        }),
{
    lemma_planned(snap, dir, actions, remote_place(dir, rel));
    law_local_path_mirrors_the_remote_one(dir, rel);
}

/// What is on both sides and was never recorded goes from the newer side to
/// the older one, and from the remote where both are of one time; two
/// directories are left alone.
pub proof fn law_unrecorded_on_both_sides_takes_the_newer(
    snap: SnapshotView,
    dir: SyncDir<Seq<char>>,
    actions: Seq<Action<Seq<char>>>,
    key: Seq<char>,
)
    requires
        planner::is_plan(snap, dir, actions),
        filed(snap, dir),
        snap.local.contains_key(key),
        snap.remote.contains_key(key),
        !snap.db.contains_key(key),
    ensures
        ({
            let (entry, item) = (snap.local[key], snap.remote[key]);
            if entry.is_dir && item.is_dir {
                leaves(actions, key)
            } else if entry.mtime_secs > item.mod_time {
                uploads(actions, key, entry)
            } else {
                downloads(actions, key, item, entry.absolute_path)
            }
        }),
{
    lemma_planned(snap, dir, actions, key);
}

/// What is recorded and on both sides goes from the side that changed to the
/// other one; where neither changed it is left alone, and so are two
/// directories that both changed.
pub proof fn law_the_changed_side_is_planned(
    snap: SnapshotView,
    dir: SyncDir<Seq<char>>,
    actions: Seq<Action<Seq<char>>>,
    key: Seq<char>,
)
    requires
        planner::is_plan(snap, dir, actions),
        filed(snap, dir),
        snap.local.contains_key(key),
        snap.remote.contains_key(key),
        snap.db.contains_key(key),
    ensures
        ({
            let (entry, item, row) = (snap.local[key], snap.remote[key], snap.db[key]);
            let local_changed = entry.mtime_secs > row.last_local_timestamp;
            let remote_changed = item.mod_time > row.last_remote_timestamp;
            &&& local_changed && !remote_changed ==> uploads(actions, key, entry)
            &&& remote_changed && !local_changed ==> downloads(
                actions,
                key,
                item,
                entry.absolute_path,
            )
            &&& !local_changed && !remote_changed ==> leaves(actions, key)
            &&& local_changed && remote_changed ==> if entry.is_dir && item.is_dir {
                leaves(actions, key)
            } else if entry.mtime_secs >= item.mod_time {
                uploads(actions, key, entry)
            } else {
                downloads(actions, key, item, entry.absolute_path)
            }
        }),
{
    lemma_planned(snap, dir, actions, key);
}

/// Other rows say that `key` has siblings.
pub open spec fn siblings_expected(snap: SnapshotView, key: Seq<char>) -> bool {
    exists|other: Seq<char>|
        #[trigger] snap.db.contains_key(other) && other != key && paths::parent(other)
            == paths::parent(key)
}

/// A recorded path that the listing has no more is removed here, unless the
/// listing shows nothing at all where rows say that siblings should be; a file
/// that changed since it was recorded is brought back instead.
pub proof fn law_gone_from_the_remote(
    snap: SnapshotView,
    dir: SyncDir<Seq<char>>,
    actions: Seq<Action<Seq<char>>>,
    key: Seq<char>,
)
    requires
        planner::is_plan(snap, dir, actions),
        filed(snap, dir),
        snap.local.contains_key(key),
        !snap.remote.contains_key(key),
        snap.db.contains_key(key),
    ensures
        ({
            let entry = snap.local[key];
            let listed = exists|seen: Seq<char>|
                #[trigger] snap.remote.contains_key(seen) && paths::parent(seen) == paths::parent(
                    key,
                );
            if siblings_expected(snap, key) && !listed {
                leaves(actions, key)
            } else if !entry.is_dir && entry.mtime_secs > snap.db[key].last_local_timestamp {
                uploads(actions, key, entry)
            } else {
                only_plans(
                    actions,
                    key,
                    Action::DeleteLocal {
                        local_path: entry.absolute_path,
                        remote_path: key,
                        is_dir: entry.is_dir,
                    },
                )
            }
        }),
{
    lemma_planned(snap, dir, actions, key);
}

/// The walk failed at the path, above it or at the top.
pub open spec fn walk_failed_above(snap: SnapshotView, key: Seq<char>) -> bool {
    ||| snap.walk_unreliable.contains(key)
    ||| snap.walk_unreliable.contains(Seq::empty())
    ||| exists|top: Seq<char>|
        #[trigger] snap.walk_unreliable.contains(top) && top.push('/').is_prefix_of(key)
}

proof fn lemma_parents_are_above(path: Seq<char>, n: nat)
    ensures
        ({
            let up = planner::nth_parent(path, n);
            up == path || up.len() == 0 || up.push('/').is_prefix_of(path)
        }),
    decreases n,
{
    if n > 0 {
        let dir = paths::parent(path);
        text::lemma_last_slash(path);
        lemma_parents_are_above(dir, (n - 1) as nat);
        let up = planner::nth_parent(dir, (n - 1) as nat);
        if text::last_slash(path) >= 0 {
            assert(dir.push('/') =~= path.take(dir.len() as int + 1));
            if up != dir && up.len() > 0 {
                assert(up.push('/') =~= dir.take(up.len() as int + 1));
                assert(path.take(up.len() as int + 1) =~= dir.take(up.len() as int + 1));
            }
        }
    }
}

proof fn lemma_above_is_a_parent(path: Seq<char>, top: Seq<char>)
    requires
        top == path || top.len() == 0 || top.push('/').is_prefix_of(path),
    ensures
        exists|n: nat| top == #[trigger] planner::nth_parent(path, n),
    decreases path.len(),
{
    if top == path {
        assert(planner::nth_parent(path, 0) == top);
    } else if path.len() == 0 {
        assert(top =~= path);
    } else {
        let dir = paths::parent(path);
        text::lemma_last_slash(path);
        paths::lemma_parent_shorter(path);
        if top.len() > 0 || top.push('/').is_prefix_of(path) {
            assert(path[top.len() as int] == top.push('/')[top.len() as int]);
            assert(top.len() <= dir.len());
            assert(top =~= path.take(top.len() as int));
            if top.len() < dir.len() {
                assert(top.push('/') =~= dir.take(top.len() as int + 1));
            } else {
                assert(top =~= dir);
            }
        }
        lemma_above_is_a_parent(dir, top);
        let n = choose|n: nat| top == #[trigger] planner::nth_parent(dir, n);
        assert(planner::nth_parent(path, n + 1) == planner::nth_parent(dir, n));
    }
}

/// A recorded path that the walk did not find is removed from the remote,
/// unless the walk failed at it or above it, or shows nothing at all where
/// rows say that siblings should be.
pub proof fn law_gone_from_here(
    snap: SnapshotView,
    dir: SyncDir<Seq<char>>,
    actions: Seq<Action<Seq<char>>>,
    rel: Seq<char>,
)
    requires
        planner::is_plan(snap, dir, actions),
        filed(snap, dir),
        rel.len() > 0,
        !snap.local.contains_key(remote_place(dir, rel)),
        snap.remote.contains_key(remote_place(dir, rel)),
        snap.db.contains_key(remote_place(dir, rel)),
    ensures
        ({
            let key = remote_place(dir, rel);
            let seen = exists|seen: Seq<char>|
                #[trigger] snap.local.contains_key(seen) && paths::parent(seen) == paths::parent(
                    key,
                );
            if walk_failed_above(snap, key) || siblings_expected(snap, key) && !seen {
                leaves(actions, key)
            } else {
                only_plans(
                    actions,
                    key,
                    Action::DeleteRemote {
                        local_path: local_place(dir, rel),
                        remote_path: key,
                        is_dir: snap.remote[key].is_dir,
                    },
                )
            }
        }),
{
    let key = remote_place(dir, rel);
    lemma_planned(snap, dir, actions, key);
    law_local_path_mirrors_the_remote_one(dir, rel);
    if walk_failed_above(snap, key) {
        let top = if snap.walk_unreliable.contains(key) {
            key
        } else if snap.walk_unreliable.contains(Seq::empty()) {
            Seq::empty()
        } else {
            choose|top: Seq<char>|
                #[trigger] snap.walk_unreliable.contains(top) && top.push('/').is_prefix_of(key)
        };
        lemma_above_is_a_parent(key, top);
        assert(planner::chain_meets(key, snap.walk_unreliable));
    } else if planner::chain_meets(key, snap.walk_unreliable) {
        let n = choose|n: nat|
            snap.walk_unreliable.contains(#[trigger] planner::nth_parent(key, n));
        lemma_parents_are_above(key, n);
        let up = planner::nth_parent(key, n);
        if up.len() == 0 {
            assert(up =~= Seq::empty());
        }
    }
}

/// A plan goes directories first, then files, then conflicts, then rows to be
/// cleared, then removals; in each group shorter paths go first, and paths of
/// one length in the order of texts.
pub proof fn law_plan_order(
    snap: SnapshotView,
    dir: SyncDir<Seq<char>>,
    actions: Seq<Action<Seq<char>>>,
    i: int,
    j: int,
)
    requires
        planner::is_plan(snap, dir, actions),
        0 <= i < j < actions.len(),
    ensures
        moves_dir(actions[j]) ==> moves_dir(actions[i]),
        moves_file(actions[j]) ==> moves_dir(actions[i]) || moves_file(actions[i]),
        actions[j] is ClearDbRow ==> !removes(actions[i]),
        removes(actions[i]) ==> removes(actions[j]),
        (moves_dir(actions[i]) && moves_dir(actions[j])) || (moves_file(actions[i])
            && moves_file(actions[j])) || (removes(actions[i]) && removes(actions[j]))
            ==> text::byte_len(planner::path_of(actions[i])) <= text::byte_len(
            planner::path_of(actions[j]),
        ),
        ((moves_dir(actions[i]) && moves_dir(actions[j])) || (moves_file(actions[i])
            && moves_file(actions[j])) || (removes(actions[i]) && removes(actions[j])))
            && text::byte_len(planner::path_of(actions[i])) == text::byte_len(
            planner::path_of(actions[j]),
        ) ==> text::text_lt(planner::path_of(actions[i]), planner::path_of(actions[j]))
            || planner::path_of(actions[i]) == planner::path_of(actions[j]),
{
    plan_laws::law_plan_goes_by_phase_and_length(snap, dir, actions, i, j);
    let keys = choose|keys: Seq<Seq<char>>| planner::plans(snap, dir, keys, actions);
    assert(planner::plan_order(actions[i], keys[i], actions[j], keys[j]));
}

/// The action makes a directory on one side.
pub open spec fn moves_dir(action: Action<Seq<char>>) -> bool {
    match action {
        Action::Upload { is_dir, .. } | Action::Download { is_dir, .. } => is_dir,
        _ => false,
    }
}

/// The action transfers a file.
pub open spec fn moves_file(action: Action<Seq<char>>) -> bool {
    match action {
        Action::Upload { is_dir, .. } | Action::Download { is_dir, .. } => !is_dir,
        _ => false,
    }
}

/// The action removes something.
pub open spec fn removes(action: Action<Seq<char>>) -> bool {
    action is DeleteLocal || action is DeleteRemote
}

} // verus!
