//! What the log says of the deletions that a plan refrains from.

use vstd::prelude::*;

use crate::domain::{RemoteItem, SyncDir, SyncItem};
use crate::notices::Notice;
use crate::path_map;
use crate::path_map::PathMap;
use crate::paths;
use crate::paths::parent_of;
use crate::ports;
use crate::ports::{add_effect, Effect};
use crate::sync::planner;
use crate::sync::planner::{
    all_keys, ancestor_in_set, group_db_keys_by_parent, parent_is_verified,
};
use crate::sync::snapshot::{LocalEntry, Snapshot, SnapshotView};
use crate::text;

verus! {

/// The log line about one path: there is one where a recorded item is gone
/// from one side and is not removed from the other.
pub open spec fn remark(
    key: Seq<char>,
    local: Option<LocalEntry<Seq<char>>>,
    remote: Option<RemoteItem<Seq<char>>>,
    row: Option<SyncItem<Seq<char>>>,
    snap: SnapshotView,
) -> Option<Notice<Seq<char>>> {
    match (local, remote, row) {
        (Some(l), None, Some(db)) => if !planner::parent_verified(key, snap.remote, snap.db) {
            Some(Notice::KeptLocal { path: key, parent: paths::parent(key) })
        } else if !l.is_dir && l.mtime_secs > db.last_local_timestamp {
            Some(
                Notice::Swapped {
                    path: key,
                    local_time: l.mtime_secs,
                    recorded: db.last_local_timestamp,
                },
            )
        } else {
            None
        },
        (None, Some(r), Some(_)) => if planner::chain_meets(r.path, snap.walk_unreliable) {
            Some(Notice::KeptUnwalked { path: r.path })
        } else if !planner::parent_verified(r.path, snap.local, snap.db) {
            Some(Notice::KeptRemote { path: r.path, parent: paths::parent(r.path) })
        } else {
            None
        },
        _ => None,
    }
}

/// The log line about the path `key`.
pub open spec fn remarked(snap: SnapshotView, key: Seq<char>) -> Option<Notice<Seq<char>>> {
    remark(
        key,
        planner::entry(snap.local, key),
        planner::entry(snap.remote, key),
        planner::entry(snap.db, key),
        snap,
    )
}

/// The log lines about some paths, in their order.
pub open spec fn remarks_on(snap: SnapshotView, keys: Seq<Seq<char>>) -> Seq<Notice<Seq<char>>>
    decreases keys.len(),
{
    if keys.len() == 0 {
        Seq::empty()
    } else {
        let earlier = remarks_on(snap, keys.drop_last());
        match remarked(snap, keys.last()) {
            Some(notice) => earlier.push(notice),
            None => earlier,
        }
    }
}

/// `keys` are the paths that the snapshot holds something about, in ascending
/// order.
pub open spec fn lists_keys(snap: SnapshotView, keys: Seq<Seq<char>>) -> bool {
    &&& path_map::ascending(keys)
    &&& forall|key: Seq<char>| #[trigger] keys.contains(key) <==> planner::is_key(snap, key)
}

/// The log lines about a snapshot, in the order of its paths.
pub open spec fn commentary(snap: SnapshotView) -> Seq<Notice<Seq<char>>> {
    remarks_on(snap, choose|keys: Seq<Seq<char>>| lists_keys(snap, keys))
}

fn remark_one(
    remote_path: &str,
    local: Option<&LocalEntry>,
    remote: Option<&RemoteItem>,
    db: Option<&SyncItem>,
    snapshot: &Snapshot,
    db_by_parent: &PathMap<Vec<String>>,
) -> (notice: Option<Notice>)
    requires
        planner::groups_rows(db_by_parent@, snapshot.db@),
    ensures
        text::opt_view(notice) == remark(
            remote_path@,
            text::opt_view(local),
            text::opt_view(remote),
            text::opt_view(db),
            snapshot@,
        ),
{
    match (local, remote, db) {
        (Some(l), None, Some(row)) => {
            if !parent_is_verified(remote_path, &snapshot.remote, db_by_parent, &snapshot.db) {
                Some(
                    Notice::KeptLocal {
                        path: remote_path.to_owned(),
                        parent: parent_of(remote_path),
                    },
                )
            } else if !l.is_dir && l.mtime_secs > row.last_local_timestamp {
                Some(
                    Notice::Swapped {
                        path: remote_path.to_owned(),
                        local_time: l.mtime_secs,
                        recorded: row.last_local_timestamp,
                    },
                )
            } else {
                None
            }
        },
        (None, Some(r), Some(_)) => {
            let path = r.path.as_str();
            if ancestor_in_set(path, &snapshot.walk_unreliable) {
                Some(Notice::KeptUnwalked { path: r.path.clone() })
            } else if !parent_is_verified(path, &snapshot.local, db_by_parent, &snapshot.db) {
                Some(Notice::KeptRemote { path: r.path.clone(), parent: parent_of(path) })
            } else {
                None
            }
        },
        _ => None,
    }
}

/// Puts into the log which deletions the plan for a snapshot refrains from,
/// and why.
pub fn remarks(snapshot: &Snapshot) -> (effects: Vec<Effect>)
    ensures
        text::views(effects@) == ports::logged(commentary(snapshot@)),
{
    let set = all_keys(snapshot);
    let keys = set.keys();
    let db_by_parent = group_db_keys_by_parent(&snapshot.db);
    let ghost snap = snapshot@;
    let ghost all = text::views(keys@);
    let mut effects: Vec<Effect> = Vec::new();
    let total: usize = keys.len();
    let mut n: usize = 0;
    assert(all.take(0) =~= Seq::empty());
    assert(text::views(effects@) =~= ports::logged(Seq::empty()));
    while n < total
        invariant
            total == keys@.len(),
            n <= total,
            all == text::views(keys@),
            snap == snapshot@,
            planner::groups_rows(db_by_parent@, snapshot.db@),
            text::views(effects@) == ports::logged(remarks_on(snap, all.take(n as int))),
        decreases total - n,
    {
        let key = keys[n].as_str();
        let ghost earlier = remarks_on(snap, all.take(n as int));
        proof {
            assert(key@ == all[n as int]);
            assert(all.take(n + 1).drop_last() =~= all.take(n as int));
            assert(all.take(n + 1).last() == key@);
        }
        let notice = remark_one(
            key,
            snapshot.local.get(key),
            snapshot.remote.get(key),
            snapshot.db.get(key),
            snapshot,
            &db_by_parent,
        );
        assert(text::opt_view(notice) == remarked(snap, key@));
        if let Some(notice) = notice {
            assert(ports::logged(earlier.push(notice@)) =~= ports::logged(earlier).push(
                Effect::Log(notice@),
            ));
            add_effect(&mut effects, Effect::Log(notice));
        }
        n = n + 1;
    }
    proof {
        assert(all.take(total as int) =~= all);
        assert forall|key: Seq<char>| #[trigger] all.contains(key) <==> planner::is_key(
            snap,
            key,
        ) by {
            assert(set@.contains(key) <==> all.contains(key));
        }
        assert(lists_keys(snap, all));
        let chosen = choose|keys: Seq<Seq<char>>| lists_keys(snap, keys);
        assert forall|key: Seq<char>| #[trigger] all.contains(key) <==> chosen.contains(key) by {
            assert(chosen.contains(key) <==> planner::is_key(snap, key));
        }
        path_map::lemma_ascending_unique(all, chosen);
    }
    effects
}

/// A recorded item that is gone from one side is removed from the other, or
/// the log says why it is not.
pub proof fn law_refrained_deletions_are_logged(
    snap: SnapshotView,
    dir: SyncDir<Seq<char>>,
    key: Seq<char>,
)
    requires
        snap.db.contains_key(key),
        snap.local.contains_key(key) != snap.remote.contains_key(key),
    ensures
        remarked(snap, key) is None <==> (planner::decided(snap, dir, key) matches Some(action)
            && (action is DeleteLocal || action is DeleteRemote)),
{
}

/// Nothing is logged of a path of which nothing is missing.
pub proof fn law_steady_paths_are_not_logged(snap: SnapshotView, key: Seq<char>)
    requires
        !snap.db.contains_key(key) || snap.local.contains_key(key) == snap.remote.contains_key(
            key,
        ),
    ensures
        remarked(snap, key) is None,
{
}

/// The line about a kept item names its path: a local one is kept where the
/// listing shows nothing beside it, a remote one where the walk failed or
/// shows nothing beside it, and a changed local file goes up again, with both
/// times.
pub proof fn law_remarks_say_why(snap: SnapshotView, key: Seq<char>)
    requires
        snap.db.contains_key(key),
    ensures
        snap.local.contains_key(key) && !snap.remote.contains_key(key)
            && !planner::parent_verified(key, snap.remote, snap.db) ==> remarked(snap, key) == Some(
            Notice::KeptLocal { path: key, parent: paths::parent(key) },
        ),
        snap.local.contains_key(key) && !snap.remote.contains_key(key) && planner::parent_verified(
            key,
            snap.remote,
            snap.db,
        ) && !snap.local[key].is_dir && snap.local[key].mtime_secs
            > snap.db[key].last_local_timestamp ==> remarked(snap, key) == Some(
            Notice::Swapped {
                path: key,
                local_time: snap.local[key].mtime_secs,
                recorded: snap.db[key].last_local_timestamp,
            },
        ),
        !snap.local.contains_key(key) && snap.remote.contains_key(key) && snap.remote[key].path
            == key && planner::chain_meets(key, snap.walk_unreliable) ==> remarked(snap, key)
            == Some(Notice::KeptUnwalked { path: key }),
        !snap.local.contains_key(key) && snap.remote.contains_key(key) && snap.remote[key].path
            == key && !planner::chain_meets(key, snap.walk_unreliable) && !planner::parent_verified(
            key,
            snap.local,
            snap.db,
        ) ==> remarked(snap, key) == Some(
            Notice::KeptRemote { path: key, parent: paths::parent(key) },
        ),
{
}

/// The line about each path is among the lines about them all, and there are
/// no more lines than paths.
pub proof fn law_every_remark_is_made(snap: SnapshotView, keys: Seq<Seq<char>>, i: int)
    requires
        0 <= i < keys.len(),
        remarked(snap, keys[i]) is Some,
    ensures
        remarks_on(snap, keys).contains(remarked(snap, keys[i])->0),
        remarks_on(snap, keys).len() <= keys.len(),
    decreases keys.len(),
{
    let before = keys.drop_last();
    let earlier = remarks_on(snap, before);
    lemma_no_more_remarks(snap, keys);
    let all = remarks_on(snap, keys);
    if i < keys.len() - 1 {
        assert(before[i] == keys[i]);
        law_every_remark_is_made(snap, before, i);
        let k = earlier.index_of(remarked(snap, keys[i])->0);
        assert(all[k] == earlier[k]);
    } else {
        assert(all[earlier.len() as int] == remarked(snap, keys[i])->0);
    }
}

proof fn lemma_no_more_remarks(snap: SnapshotView, keys: Seq<Seq<char>>)
    ensures
        remarks_on(snap, keys).len() <= keys.len(),
    decreases keys.len(),
{
    if keys.len() > 0 {
        lemma_no_more_remarks(snap, keys.drop_last());
    }
}

} // verus!
