//! What holds of every plan.

use vstd::prelude::*;

use crate::domain::SyncDir;
use crate::paths;
use crate::sync::planner;
use crate::sync::planner::Action;
use crate::sync::snapshot::SnapshotView;
use crate::text;

verus! {

proof fn lemma_plan_order(
    a: Action<Seq<char>>,
    ka: Seq<char>,
    b: Action<Seq<char>>,
    kb: Seq<char>,
    c: Action<Seq<char>>,
    kc: Seq<char>,
)
    ensures
        !planner::plan_order(a, ka, a, ka),
        planner::plan_order(a, ka, b, kb) && planner::plan_order(b, kb, c, kc)
            ==> planner::plan_order(a, ka, c, kc),
        planner::plan_order(a, ka, b, kb) || planner::plan_order(b, kb, a, ka) || ka == kb,
{
    planner::lemma_ranks(a, b, c);
    text::lemma_text_lt_irreflexive(ka);
    text::lemma_text_lt_total(ka, kb);
    if text::text_lt(ka, kb) && text::text_lt(kb, kc) {
        text::lemma_text_lt_transitive(ka, kb, kc);
    }
}

proof fn lemma_plan_keys_distinct(
    snap: SnapshotView,
    dir: SyncDir<Seq<char>>,
    keys: Seq<Seq<char>>,
    actions: Seq<Action<Seq<char>>>,
)
    requires
        planner::plans(snap, dir, keys, actions),
    ensures
        keys.no_duplicates(),
{
    assert forall|i: int, j: int| 0 <= i < j < keys.len() implies keys[i] != keys[j] by {
        lemma_plan_order(actions[i], keys[i], actions[i], keys[i], actions[i], keys[i]);
        assert(planner::plan_order(actions[i], keys[i], actions[j], keys[j]));
        assert(planner::decided(snap, dir, keys[i]) == Some(actions[i]));
        assert(planner::decided(snap, dir, keys[j]) == Some(actions[j]));
    }
}

/// A plan holds at most one action for each path: its actions belong, place
/// by place, to paths that are all different, and each is what is decided
/// for its path.
pub proof fn law_one_action_per_path(
    snap: SnapshotView,
    dir: SyncDir<Seq<char>>,
    actions: Seq<Action<Seq<char>>>,
)
    requires
        planner::is_plan(snap, dir, actions),
    ensures
        exists|keys: Seq<Seq<char>>|
            keys.no_duplicates() && #[trigger] planner::plans(snap, dir, keys, actions),
{
    let keys = choose|keys: Seq<Seq<char>>| planner::plans(snap, dir, keys, actions);
    lemma_plan_keys_distinct(snap, dir, keys, actions);
}

/// A snapshot has one plan.
pub proof fn law_plan_is_unique(
    snap: SnapshotView,
    dir: SyncDir<Seq<char>>,
    first: Seq<Action<Seq<char>>>,
    second: Seq<Action<Seq<char>>>,
)
    requires
        planner::is_plan(snap, dir, first),
        planner::is_plan(snap, dir, second),
    ensures
        first == second,
{
    let x = choose|keys: Seq<Seq<char>>| planner::plans(snap, dir, keys, first);
    let y = choose|keys: Seq<Seq<char>>| planner::plans(snap, dir, keys, second);
    lemma_plan_keys_distinct(snap, dir, x, first);
    lemma_plan_keys_distinct(snap, dir, y, second);
    let step = |key: Seq<char>| planner::decided(snap, dir, key)->0;
    let leq = |a: Seq<char>, b: Seq<char>| a == b || planner::plan_order(step(a), a, step(b), b);
    assert(vstd::relations::total_ordering(leq)) by {
        assert forall|a: Seq<char>, b: Seq<char>| #[trigger] leq(a, b) && #[trigger] leq(
            b,
            a,
        ) implies a == b by {
            lemma_plan_order(step(a), a, step(b), b, step(a), a);
        }
        assert forall|a: Seq<char>, b: Seq<char>, c: Seq<char>| #[trigger] leq(a, b)
            && #[trigger] leq(b, c) implies leq(a, c) by {
            lemma_plan_order(step(a), a, step(b), b, step(c), c);
        }
        assert forall|a: Seq<char>, b: Seq<char>| #[trigger] leq(a, b) || #[trigger] leq(b, a) by {
            lemma_plan_order(step(a), a, step(b), b, step(a), a);
        }
    }
    assert(vstd::relations::sorted_by(x, leq)) by {
        assert forall|i: int, j: int| 0 <= i < j < x.len() implies #[trigger] leq(x[i], x[j]) by {
            assert(planner::plan_order(first[i], x[i], first[j], x[j]));
            assert(planner::decided(snap, dir, x[i]) == Some(first[i]));
            assert(planner::decided(snap, dir, x[j]) == Some(first[j]));
        }
    }
    assert(vstd::relations::sorted_by(y, leq)) by {
        assert forall|i: int, j: int| 0 <= i < j < y.len() implies #[trigger] leq(y[i], y[j]) by {
            assert(planner::plan_order(second[i], y[i], second[j], y[j]));
            assert(planner::decided(snap, dir, y[i]) == Some(second[i]));
            assert(planner::decided(snap, dir, y[j]) == Some(second[j]));
        }
    }
    assert(x.to_multiset() =~= y.to_multiset()) by {
        broadcast use vstd::seq_lib::group_to_multiset_ensures;

        x.lemma_multiset_has_no_duplicates();
        y.lemma_multiset_has_no_duplicates();
        assert forall|key: Seq<char>| x.to_multiset().count(key) == y.to_multiset().count(key) by {
            if x.contains(key) {
                let i = x.index_of(key);
                assert(x[i] == key);
                assert(planner::decided(snap, dir, x[i]) == Some(first[i]));
                assert(y.contains(key));
            }
            if y.contains(key) {
                let i = y.index_of(key);
                assert(y[i] == key);
                assert(planner::decided(snap, dir, y[i]) == Some(second[i]));
                assert(x.contains(key));
            }
        }
    }
    vstd::seq_lib::lemma_sorted_unique(x, y, leq);
    assert forall|i: int| 0 <= i < first.len() implies first[i] == second[i] by {
        assert(planner::decided(snap, dir, x[i]) == Some(first[i]));
        assert(planner::decided(snap, dir, y[i]) == Some(second[i]));
    }
    assert(first =~= second);
}

/// A local copy is removed only where the path is recorded, missing from a
/// listing that did enumerate its parent, and, for a file, not changed since
/// the last sync.
pub proof fn law_delete_local_is_guarded(
    snap: SnapshotView,
    dir: SyncDir<Seq<char>>,
    actions: Seq<Action<Seq<char>>>,
    i: int,
)
    requires
        planner::is_plan(snap, dir, actions),
        0 <= i < actions.len(),
        actions[i] is DeleteLocal,
    ensures
        ({
            let key = planner::path_of(actions[i]);
            &&& snap.db.contains_key(key)
            &&& snap.local.contains_key(key)
            &&& !snap.remote.contains_key(key)
            &&& planner::parent_verified(key, snap.remote, snap.db)
            &&& actions[i]->DeleteLocal_local_path == snap.local[key].absolute_path
            &&& snap.local[key].is_dir || snap.local[key].mtime_secs
                <= snap.db[key].last_local_timestamp
        }),
{
    let keys = choose|keys: Seq<Seq<char>>| planner::plans(snap, dir, keys, actions);
    assert(planner::decided(snap, dir, keys[i]) == Some(actions[i]));
}

/// A remote copy is removed only where the path is recorded, missing from a
/// walk that reported no error on the path or above it, and that walk did
/// enumerate its parent.
pub proof fn law_delete_remote_is_guarded(
    snap: SnapshotView,
    dir: SyncDir<Seq<char>>,
    actions: Seq<Action<Seq<char>>>,
    i: int,
)
    requires
        planner::is_plan(snap, dir, actions),
        0 <= i < actions.len(),
        actions[i] is DeleteRemote,
    ensures
        !planner::chain_meets(planner::path_of(actions[i]), snap.walk_unreliable),
        planner::parent_verified(planner::path_of(actions[i]), snap.local, snap.db),
        exists|key: Seq<char>|
            {
                &&& #[trigger] snap.remote.contains_key(key)
                &&& snap.remote[key].path == planner::path_of(actions[i])
                &&& snap.db.contains_key(key)
                &&& !snap.local.contains_key(key)
            },
{
    let keys = choose|keys: Seq<Seq<char>>| planner::plans(snap, dir, keys, actions);
    assert(planner::decided(snap, dir, keys[i]) == Some(actions[i]));
    assert(snap.remote.contains_key(keys[i]));
}

/// Where a listing shows nothing at all under a parent that other rows say
/// should hold something, no local copy under that parent is removed.
pub proof fn law_blank_listing_keeps_local_copies(
    snap: SnapshotView,
    dir: SyncDir<Seq<char>>,
    actions: Seq<Action<Seq<char>>>,
    i: int,
    sibling: Seq<char>,
)
    requires
        planner::is_plan(snap, dir, actions),
        0 <= i < actions.len(),
        snap.db.contains_key(sibling),
        sibling != planner::path_of(actions[i]),
        paths::parent(sibling) == paths::parent(planner::path_of(actions[i])),
        forall|seen: Seq<char>| #[trigger]
            snap.remote.contains_key(seen) ==> paths::parent(seen) != paths::parent(sibling),
    ensures
        !(actions[i] is DeleteLocal),
{
    if actions[i] is DeleteLocal {
        law_delete_local_is_guarded(snap, dir, actions, i);
    }
}

/// Where the walk shows nothing at all under a parent that other rows say
/// should hold something, no remote copy under that parent is removed.
pub proof fn law_blank_walk_keeps_remote_copies(
    snap: SnapshotView,
    dir: SyncDir<Seq<char>>,
    actions: Seq<Action<Seq<char>>>,
    i: int,
    sibling: Seq<char>,
)
    requires
        planner::is_plan(snap, dir, actions),
        0 <= i < actions.len(),
        snap.db.contains_key(sibling),
        sibling != planner::path_of(actions[i]),
        paths::parent(sibling) == paths::parent(planner::path_of(actions[i])),
        forall|seen: Seq<char>| #[trigger]
            snap.local.contains_key(seen) ==> paths::parent(seen) != paths::parent(sibling),
    ensures
        !(actions[i] is DeleteRemote),
{
    if actions[i] is DeleteRemote {
        law_delete_remote_is_guarded(snap, dir, actions, i);
    }
}

/// Under a path on which the walk reported an error no remote copy is
/// removed.
pub proof fn law_broken_walk_keeps_remote_copies(
    snap: SnapshotView,
    dir: SyncDir<Seq<char>>,
    actions: Seq<Action<Seq<char>>>,
    i: int,
    n: nat,
)
    requires
        planner::is_plan(snap, dir, actions),
        0 <= i < actions.len(),
        snap.walk_unreliable.contains(planner::nth_parent(planner::path_of(actions[i]), n)),
    ensures
        !(actions[i] is DeleteRemote),
{
    if actions[i] is DeleteRemote {
        law_delete_remote_is_guarded(snap, dir, actions, i);
    }
}

/// Every known path is on both sides and recorded, and neither side changed
/// since.
pub open spec fn in_step(snap: SnapshotView) -> bool {
    forall|key: Seq<char>|
        #![trigger snap.local.contains_key(key)]
        #![trigger snap.remote.contains_key(key)]
        #![trigger snap.db.contains_key(key)]
        snap.local.contains_key(key) || snap.remote.contains_key(key) || snap.db.contains_key(key)
            ==> {
            &&& snap.local.contains_key(key)
            &&& snap.remote.contains_key(key)
            &&& snap.db.contains_key(key)
            &&& snap.local[key].mtime_secs <= snap.db[key].last_local_timestamp
            &&& snap.remote[key].mod_time <= snap.db[key].last_remote_timestamp
        }
}

/// When everything is in step, there is nothing to do.
pub proof fn law_steady_state_plans_nothing(
    snap: SnapshotView,
    dir: SyncDir<Seq<char>>,
    actions: Seq<Action<Seq<char>>>,
)
    requires
        planner::is_plan(snap, dir, actions),
        in_step(snap),
    ensures
        actions.len() == 0,
{
    let keys = choose|keys: Seq<Seq<char>>| planner::plans(snap, dir, keys, actions);
    if actions.len() > 0 {
        assert(planner::decided(snap, dir, keys[0]) == Some(actions[0]));
        assert(snap.local.contains_key(keys[0]) || snap.remote.contains_key(keys[0])
            || snap.db.contains_key(keys[0]));
    }
}

/// A plan never asks the user to choose.
pub proof fn law_no_conflict_is_planned(
    snap: SnapshotView,
    dir: SyncDir<Seq<char>>,
    actions: Seq<Action<Seq<char>>>,
    i: int,
)
    requires
        planner::is_plan(snap, dir, actions),
        0 <= i < actions.len(),
    ensures
        !(actions[i] is Conflict),
{
    let keys = choose|keys: Seq<Seq<char>>| planner::plans(snap, dir, keys, actions);
    assert(planner::decided(snap, dir, keys[i]) == Some(actions[i]));
}

/// Where both sides changed since the last sync, and they are not both
/// directories, the side with the newer modification time wins, and a tie
/// goes to the local side.
pub proof fn law_newer_side_wins(
    snap: SnapshotView,
    dir: SyncDir<Seq<char>>,
    actions: Seq<Action<Seq<char>>>,
    key: Seq<char>,
)
    requires
        planner::is_plan(snap, dir, actions),
        snap.local.contains_key(key),
        snap.remote.contains_key(key),
        snap.db.contains_key(key),
        snap.local[key].mtime_secs > snap.db[key].last_local_timestamp,
        snap.remote[key].mod_time > snap.db[key].last_remote_timestamp,
        !(snap.local[key].is_dir && snap.remote[key].is_dir),
    ensures
        snap.local[key].mtime_secs >= snap.remote[key].mod_time ==> actions.contains(
            planner::upload(key, snap.local[key]),
        ),
        snap.local[key].mtime_secs < snap.remote[key].mod_time ==> actions.contains(
            planner::download(key, snap.local[key], snap.remote[key]),
        ),
{
    let keys = choose|keys: Seq<Seq<char>>| planner::plans(snap, dir, keys, actions);
    assert(planner::decided(snap, dir, key) is Some);
    assert(keys.contains(key));
    let i = keys.index_of(key);
    assert(planner::decided(snap, dir, keys[i]) == Some(actions[i]));
}

/// What was never recorded is never removed: a path without a row is
/// uploaded, downloaded or left alone.
pub proof fn law_unrecorded_is_never_removed(
    snap: SnapshotView,
    dir: SyncDir<Seq<char>>,
    key: Seq<char>,
)
    requires
        !snap.db.contains_key(key),
    ensures
        match planner::decided(snap, dir, key) {
            Some(action) => action is Upload || action is Download,
            None => true,
        },
{
}

/// A plan goes through the phases in order, and in each phase from shorter
/// to longer paths; deletes come last.
pub proof fn law_plan_goes_by_phase_and_length(
    snap: SnapshotView,
    dir: SyncDir<Seq<char>>,
    actions: Seq<Action<Seq<char>>>,
    i: int,
    j: int,
)
    requires
        planner::is_plan(snap, dir, actions),
        0 <= i < j < actions.len(),
    ensures
        planner::phase_of(actions[i]) <= planner::phase_of(actions[j]),
        planner::phase_of(actions[i]) == planner::phase_of(actions[j]) ==> text::byte_len(
            planner::path_of(actions[i]),
        ) <= text::byte_len(planner::path_of(actions[j])),
        actions[i] is DeleteLocal || actions[i] is DeleteRemote ==> actions[j] is DeleteLocal
            || actions[j] is DeleteRemote,
{
    let keys = choose|keys: Seq<Seq<char>>| planner::plans(snap, dir, keys, actions);
    assert(planner::plan_order(actions[i], keys[i], actions[j], keys[j]));
}

/// Of two directory creations the one higher up comes first.
pub proof fn law_parents_come_first(
    snap: SnapshotView,
    dir: SyncDir<Seq<char>>,
    actions: Seq<Action<Seq<char>>>,
    i: int,
    j: int,
    rest: Seq<char>,
)
    requires
        planner::is_plan(snap, dir, actions),
        0 <= i < actions.len(),
        0 <= j < actions.len(),
        planner::phase_of(actions[i]) == planner::phase_of(actions[j]),
        planner::path_of(actions[j]) == paths::joined(planner::path_of(actions[i]), rest),
    ensures
        i < j,
{
    let top = planner::path_of(actions[i]);
    text::lemma_byte_len_concat(top.push('/'), rest);
    text::lemma_byte_len_concat(top, seq!['/']);
    assert(top.push('/') =~= top + seq!['/']);
    assert(text::byte_len(seq!['/']) > 0) by {
        reveal_with_fuel(vstd::utf8::encode_utf8, 2);
    }
    if j < i {
        law_plan_goes_by_phase_and_length(snap, dir, actions, j, i);
    }
}

} // verus!
