//! What a snapshot holds of the listing, the rows and the exclusions.

use vstd::prelude::*;

use crate::domain::{RemoteItem, SyncDir, SyncItem};
use crate::paths;
use crate::sync::decision_laws;
use crate::sync::snapshot;
use crate::sync::snapshot::ExclusionsView;
use crate::sync::walk::WalkView;
use crate::text;
use crate::text_laws;

verus! {

/// `path` is `top`, or `top`, a slash and something.
pub open spec fn at_or_below(path: Seq<char>, top: Seq<char>) -> bool {
    path == top || (path.len() > top.len() && path.take(top.len() as int) == top
        && path[top.len() as int] == '/')
}

/// A path is excluded exactly where it is one of the prefixes or lies below
/// one of them; a name that only begins like a prefix is not.
pub proof fn law_exclusion_goes_by_whole_names(path: Seq<char>, prefixes: Seq<Seq<char>>)
    ensures
        snapshot::excluded(path, prefixes) <==> exists|i: int|
            0 <= i < prefixes.len() && at_or_below(path, #[trigger] prefixes[i]),
{
    assert forall|i: int| 0 <= i < prefixes.len() implies (paths::within(
        path,
        #[trigger] prefixes[i],
    ) <==> at_or_below(path, prefixes[i])) by {
        let top = prefixes[i];
        if top.push('/').is_prefix_of(path) {
            assert(path.take(top.len() as int) =~= top) by {
                assert(forall|k: int| 0 <= k < top.len() ==> path[k] == top.push('/')[k]);
            }
            assert(path[top.len() as int] == top.push('/')[top.len() as int]);
        }
        if at_or_below(path, top) && path != top {
            assert(top.push('/') =~= path.subrange(0, top.len() as int + 1)) by {
                assert(forall|k: int|
                    0 <= k < top.len() ==> path[k] == path.take(top.len() as int)[k]);
            }
        }
    }
    if snapshot::excluded(path, prefixes) {
        let i = choose|i: int|
            0 <= i < prefixes.len() && paths::within(path, #[trigger] prefixes[i]);
        assert(at_or_below(path, prefixes[i]));
    }
    if exists|i: int| 0 <= i < prefixes.len() && at_or_below(path, #[trigger] prefixes[i]) {
        let i = choose|i: int| 0 <= i < prefixes.len() && at_or_below(path, #[trigger] prefixes[i]);
        assert(paths::within(path, prefixes[i]));
    }
}

/// Every listed item that is not excluded is in the snapshot, under its own
/// path, unless a later one has the same path.
pub proof fn law_listed_items_are_kept(
    items: Seq<RemoteItem<Seq<char>>>,
    prefixes: Seq<Seq<char>>,
    i: int,
)
    requires
        0 <= i < items.len(),
        !snapshot::excluded(items[i].path, prefixes),
        forall|j: int| i < j < items.len() ==> (#[trigger] items[j]).path != items[i].path,
    ensures
        snapshot::items_by_path(items, prefixes).contains_key(items[i].path),
        snapshot::items_by_path(items, prefixes)[items[i].path] == items[i],
    decreases items.len(),
{
    let before = items.drop_last();
    if i < items.len() - 1 {
        assert(before[i] == items[i]);
        assert forall|j: int| i < j < before.len() implies (#[trigger] before[j]).path
            != before[i].path by {
            assert(before[j] == items[j]);
        }
        law_listed_items_are_kept(before, prefixes, i);
        assert(items.last() == items[items.len() - 1]);
    }
}

/// What the snapshot holds of the listing was listed, is not excluded, and is
/// under its own path.
pub proof fn law_only_listed_items_are_kept(
    items: Seq<RemoteItem<Seq<char>>>,
    prefixes: Seq<Seq<char>>,
    key: Seq<char>,
)
    requires
        snapshot::items_by_path(items, prefixes).contains_key(key),
    ensures
        items.contains(snapshot::items_by_path(items, prefixes)[key]),
        snapshot::items_by_path(items, prefixes)[key].path == key,
        !snapshot::excluded(key, prefixes),
    decreases items.len(),
{
    if items.len() > 0 {
        let (before, last) = (items.drop_last(), items.last());
        assert(items[items.len() - 1] == last);
        if snapshot::excluded(last.path, prefixes) || last.path != key {
            law_only_listed_items_are_kept(before, prefixes, key);
            let held = snapshot::items_by_path(before, prefixes)[key];
            let k = before.index_of(held);
            assert(before.contains(held));
            assert(items[k] == held);
        }
    }
}

/// Every row whose local path is not excluded is in the snapshot, under its
/// remote path, unless a later one has the same remote path.
pub proof fn law_rows_are_kept(
    rows: Seq<SyncItem<Seq<char>>>,
    prefixes: Seq<Seq<char>>,
    i: int,
)
    requires
        0 <= i < rows.len(),
        !snapshot::excluded(rows[i].local_path, prefixes),
        forall|j: int|
            i < j < rows.len() ==> (#[trigger] rows[j]).remote_path != rows[i].remote_path,
    ensures
        snapshot::rows_by_path(rows, prefixes).contains_key(rows[i].remote_path),
        snapshot::rows_by_path(rows, prefixes)[rows[i].remote_path] == rows[i],
    decreases rows.len(),
{
    let before = rows.drop_last();
    if i < rows.len() - 1 {
        assert(before[i] == rows[i]);
        assert forall|j: int| i < j < before.len() implies (#[trigger] before[j]).remote_path
            != before[i].remote_path by {
            assert(before[j] == rows[j]);
        }
        law_rows_are_kept(before, prefixes, i);
        assert(rows.last() == rows[rows.len() - 1]);
    }
}

/// What the snapshot holds of the rows is recorded, is not excluded, and is
/// under its remote path.
pub proof fn law_only_rows_are_kept(
    rows: Seq<SyncItem<Seq<char>>>,
    prefixes: Seq<Seq<char>>,
    key: Seq<char>,
)
    requires
        snapshot::rows_by_path(rows, prefixes).contains_key(key),
    ensures
        rows.contains(snapshot::rows_by_path(rows, prefixes)[key]),
        snapshot::rows_by_path(rows, prefixes)[key].remote_path == key,
        !snapshot::excluded(snapshot::rows_by_path(rows, prefixes)[key].local_path, prefixes),
    decreases rows.len(),
{
    if rows.len() > 0 {
        let (before, last) = (rows.drop_last(), rows.last());
        assert(rows[rows.len() - 1] == last);
        if snapshot::excluded(last.local_path, prefixes) || last.remote_path != key {
            law_only_rows_are_kept(before, prefixes, key);
            let held = snapshot::rows_by_path(before, prefixes)[key];
            let k = before.index_of(held);
            assert(before.contains(held));
            assert(rows[k] == held);
        }
    }
}

/// A snapshot takes the walk as it is, the listing without what is excluded on
/// the remote, and the rows without what is excluded here.
pub proof fn law_snapshot_is_made_of_its_parts(
    exclusions: ExclusionsView,
    rows: Seq<SyncItem<Seq<char>>>,
    items: Seq<RemoteItem<Seq<char>>>,
    walk: WalkView,
    i: int,
    j: int,
)
    requires
        0 <= i < items.len(),
        0 <= j < rows.len(),
        forall|a: int, b: int|
            0 <= a < b < items.len() ==> (#[trigger] items[a]).path != (#[trigger] items[b]).path,
        forall|a: int, b: int|
            0 <= a < b < rows.len() ==> (#[trigger] rows[a]).remote_path != (
            #[trigger] rows[b]).remote_path,
    ensures
        ({
            let snap = snapshot::built(exclusions, rows, items, walk);
            &&& snap.local == walk.local
            &&& snap.walk_unreliable == walk.unreliable
            &&& snap.remote.contains_key(items[i].path) <==> !snapshot::excluded(
                items[i].path,
                exclusions.remote,
            )
            &&& snap.remote.contains_key(items[i].path) ==> snap.remote[items[i].path] == items[i]
            &&& snap.db.contains_key(rows[j].remote_path) <==> !snapshot::excluded(
                rows[j].local_path,
                exclusions.local,
            )
            &&& snap.db.contains_key(rows[j].remote_path) ==> snap.db[rows[j].remote_path]
                == rows[j]
        }),
{
    let snap = snapshot::built(exclusions, rows, items, walk);
    if snapshot::excluded(items[i].path, exclusions.remote) {
        if snap.remote.contains_key(items[i].path) {
            law_only_listed_items_are_kept(items, exclusions.remote, items[i].path);
        }
    } else {
        law_listed_items_are_kept(items, exclusions.remote, i);
    }
    if snapshot::excluded(rows[j].local_path, exclusions.local) {
        if snap.db.contains_key(rows[j].remote_path) {
            law_only_rows_are_kept(rows, exclusions.local, rows[j].remote_path);
            let k = rows.index_of(snap.db[rows[j].remote_path]);
            assert(rows[k].remote_path == rows[j].remote_path);
            assert(k == j);
        }
    } else {
        law_rows_are_kept(rows, exclusions.local, j);
    }
}

/// The subtree at `rel` of the directory is left alone: on this side, and on
/// the remote in both shapes that listings have.
pub open spec fn leaves_out(
    exclusions: ExclusionsView,
    dir: SyncDir<Seq<char>>,
    rel: Seq<char>,
) -> bool {
    &&& exclusions.local.contains(decision_laws::local_place(dir, rel))
    &&& exclusions.remote.contains(decision_laws::remote_place(dir, rel))
    &&& exclusions.remote.contains(rel)
}

/// The synced directory `other`, on the same remote, lies at `rel` in `dir`.
pub open spec fn lies_at(
    dir: SyncDir<Seq<char>>,
    other: SyncDir<Seq<char>>,
    rel: Seq<char>,
) -> bool {
    &&& other.id != dir.id
    &&& other.remote_id == dir.remote_id
    &&& other.remote_path == decision_laws::remote_place(dir, rel)
    &&& dir.remote_path.len() == 0 ==> rel.len() > 0
}

proof fn lemma_with(exclusions: ExclusionsView, dir: SyncDir<Seq<char>>, rel: Seq<char>)
    ensures
        leaves_out(exclusions.with(dir, rel), dir, rel),
        forall|other: Seq<char>|
            #[trigger] leaves_out(exclusions, dir, other) ==> leaves_out(
                exclusions.with(dir, rel),
                dir,
                other,
            ),
{
    let after = exclusions.with(dir, rel);
    text_laws::law_joined_parts(dir.local_path, rel, rel);
    text_laws::law_joined_parts(dir.remote_path, rel, rel);
    assert(after.local[exclusions.local.len() as int] == decision_laws::local_place(dir, rel));
    assert(after.remote[exclusions.remote.len() as int] == decision_laws::remote_place(dir, rel));
    assert(after.remote[exclusions.remote.len() as int + 1] == rel);
    assert forall|path: Seq<char>| #[trigger] exclusions.local.contains(
        path,
    ) implies after.local.contains(path) by {
        let k = exclusions.local.index_of(path);
        assert(after.local[k] == path);
    }
    assert forall|path: Seq<char>| #[trigger] exclusions.remote.contains(
        path,
    ) implies after.remote.contains(path) by {
        let k = exclusions.remote.index_of(path);
        assert(after.remote[k] == path);
    }
}

proof fn lemma_nested_is_left_out(
    dir: SyncDir<Seq<char>>,
    all: Seq<SyncDir<Seq<char>>>,
    i: int,
    rel: Seq<char>,
)
    requires
        0 <= i < all.len(),
        lies_at(dir, all[i], rel),
    ensures
        leaves_out(snapshot::nested_exclusions(dir, all), dir, rel),
    decreases all.len(),
{
    let before = all.drop_last();
    text_laws::law_joined_parts(dir.remote_path, rel, all.last().remote_path);
    if i < all.len() - 1 {
        assert(before[i] == all[i]);
        lemma_nested_is_left_out(dir, before, i, rel);
        if let Some(other) = snapshot::nested_in(dir, all.last()) {
            lemma_with(snapshot::nested_exclusions(dir, before), dir, other);
        }
    } else {
        assert(snapshot::nested_in(dir, all.last()) == Some(rel));
        lemma_with(snapshot::nested_exclusions(dir, before), dir, rel);
    }
}

/// Every subtree that another synced directory of the remote takes care of is
/// left alone, and so is every one that the user excluded.
pub proof fn law_exclusions_are_complete(
    dir: SyncDir<Seq<char>>,
    all: Seq<SyncDir<Seq<char>>>,
    user: Seq<Seq<char>>,
    i: int,
    rel: Seq<char>,
    j: int,
)
    ensures
        0 <= i < all.len() && lies_at(dir, all[i], rel) ==> leaves_out(
            snapshot::all_exclusions(dir, all, user),
            dir,
            rel,
        ),
        0 <= j < user.len() ==> leaves_out(
            snapshot::all_exclusions(dir, all, user),
            dir,
            user[j],
        ),
    decreases user.len(),
{
    if user.len() == 0 {
        if 0 <= i < all.len() && lies_at(dir, all[i], rel) {
            lemma_nested_is_left_out(dir, all, i, rel);
        }
    } else {
        let before = user.drop_last();
        law_exclusions_are_complete(dir, all, before, i, rel, j);
        lemma_with(snapshot::all_exclusions(dir, all, before), dir, user.last());
        if 0 <= j < before.len() {
            assert(before[j] == user[j]);
        }
    }
}

/// Another synced directory of the remote, or an exclusion of the user, keeps
/// the subtree at `rel` for itself.
pub open spec fn kept_apart(
    dir: SyncDir<Seq<char>>,
    all: Seq<SyncDir<Seq<char>>>,
    user: Seq<Seq<char>>,
    rel: Seq<char>,
) -> bool {
    ||| exists|i: int| 0 <= i < all.len() && lies_at(dir, #[trigger] all[i], rel)
    ||| user.contains(rel)
}

/// `path` is the local path of a subtree that is kept apart.
pub open spec fn wanted_here(
    path: Seq<char>,
    dir: SyncDir<Seq<char>>,
    all: Seq<SyncDir<Seq<char>>>,
    user: Seq<Seq<char>>,
) -> bool {
    exists|rel: Seq<char>|
        #[trigger] kept_apart(dir, all, user, rel) && path == decision_laws::local_place(dir, rel)
}

/// `path` is the path on the remote of a subtree that is kept apart, from the
/// remote's top or from its root.
pub open spec fn wanted_there(
    path: Seq<char>,
    dir: SyncDir<Seq<char>>,
    all: Seq<SyncDir<Seq<char>>>,
    user: Seq<Seq<char>>,
) -> bool {
    exists|rel: Seq<char>|
        #[trigger] kept_apart(dir, all, user, rel) && (path == decision_laws::remote_place(dir, rel)
            || path == rel)
}

/// Every prefix is that of a subtree that is kept apart.
pub open spec fn all_wanted(
    exclusions: ExclusionsView,
    dir: SyncDir<Seq<char>>,
    all: Seq<SyncDir<Seq<char>>>,
    user: Seq<Seq<char>>,
) -> bool {
    &&& forall|k: int|
        0 <= k < exclusions.local.len() ==> wanted_here(
            #[trigger] exclusions.local[k],
            dir,
            all,
            user,
        )
    &&& forall|k: int|
        0 <= k < exclusions.remote.len() ==> wanted_there(
            #[trigger] exclusions.remote[k],
            dir,
            all,
            user,
        )
}

proof fn lemma_one_more(
    exclusions: ExclusionsView,
    dir: SyncDir<Seq<char>>,
    fewer_dirs: Seq<SyncDir<Seq<char>>>,
    fewer: Seq<Seq<char>>,
    all: Seq<SyncDir<Seq<char>>>,
    user: Seq<Seq<char>>,
    more: Option<Seq<char>>,
)
    requires
        all_wanted(exclusions, dir, fewer_dirs, fewer),
        forall|rel: Seq<char>|
            #[trigger] kept_apart(dir, fewer_dirs, fewer, rel) ==> kept_apart(dir, all, user, rel),
        more matches Some(rel) ==> kept_apart(dir, all, user, rel),
    ensures
        all_wanted(
            match more {
                Some(rel) => exclusions.with(dir, rel),
                None => exclusions,
            },
            dir,
            all,
            user,
        ),
{
    let after = match more {
        Some(rel) => exclusions.with(dir, rel),
        None => exclusions,
    };
    if let Some(rel) = more {
        text_laws::law_joined_parts(dir.local_path, rel, rel);
        text_laws::law_joined_parts(dir.remote_path, rel, rel);
    }
    assert forall|k: int| 0 <= k < after.local.len() implies wanted_here(
        #[trigger] after.local[k],
        dir,
        all,
        user,
    ) by {
        if k < exclusions.local.len() {
            let path = exclusions.local[k];
            assert(after.local[k] == path);
            assert(wanted_here(path, dir, fewer_dirs, fewer));
            let rel = choose|rel: Seq<char>|
                #[trigger] kept_apart(dir, fewer_dirs, fewer, rel) && path
                    == decision_laws::local_place(dir, rel);
            assert(kept_apart(dir, all, user, rel));
        } else {
            assert(kept_apart(dir, all, user, more->0));
        }
    }
    assert forall|k: int| 0 <= k < after.remote.len() implies wanted_there(
        #[trigger] after.remote[k],
        dir,
        all,
        user,
    ) by {
        if k < exclusions.remote.len() {
            let path = exclusions.remote[k];
            assert(after.remote[k] == path);
            assert(wanted_there(path, dir, fewer_dirs, fewer));
            let rel = choose|rel: Seq<char>|
                #[trigger] kept_apart(dir, fewer_dirs, fewer, rel) && (path
                    == decision_laws::remote_place(dir, rel) || path == rel);
            assert(kept_apart(dir, all, user, rel));
        } else {
            assert(kept_apart(dir, all, user, more->0));
        }
    }
}

proof fn lemma_nested_is_wanted(dir: SyncDir<Seq<char>>, all: Seq<SyncDir<Seq<char>>>)
    ensures
        all_wanted(snapshot::nested_exclusions(dir, all), dir, all, Seq::empty()),
    decreases all.len(),
{
    if all.len() > 0 {
        let (before, last) = (all.drop_last(), all.last());
        lemma_nested_is_wanted(dir, before);
        assert(all[all.len() - 1] == last);
        let more = snapshot::nested_in(dir, last);
        if let Some(rel) = more {
            text_laws::law_joined_parts(dir.remote_path, rel, last.remote_path);
            assert(lies_at(dir, all[all.len() - 1], rel));
        }
        assert forall|rel: Seq<char>| #[trigger] kept_apart(
            dir,
            before,
            Seq::empty(),
            rel,
        ) implies kept_apart(dir, all, Seq::empty(), rel) by {
            let i = choose|i: int| 0 <= i < before.len() && lies_at(dir, #[trigger] before[i], rel);
            assert(lies_at(dir, all[i], rel));
        }
        lemma_one_more(
            snapshot::nested_exclusions(dir, before),
            dir,
            before,
            Seq::empty(),
            all,
            Seq::empty(),
            more,
        );
    }
}

/// Nothing else is excluded: every prefix is that of a subtree which another
/// synced directory of the remote or an exclusion of the user keeps apart.
pub proof fn law_exclusions_are_wanted(
    dir: SyncDir<Seq<char>>,
    all: Seq<SyncDir<Seq<char>>>,
    user: Seq<Seq<char>>,
)
    ensures
        all_wanted(snapshot::all_exclusions(dir, all, user), dir, all, user),
    decreases user.len(),
{
    if user.len() == 0 {
        assert(user =~= Seq::empty());
        lemma_nested_is_wanted(dir, all);
    } else {
        let (before, last) = (user.drop_last(), user.last());
        law_exclusions_are_wanted(dir, all, before);
        assert(user[user.len() - 1] == last);
        assert forall|rel: Seq<char>| #[trigger] kept_apart(
            dir,
            all,
            before,
            rel,
        ) implies kept_apart(dir, all, user, rel) by {
            if before.contains(rel) {
                let j = before.index_of(rel);
                assert(user[j] == rel);
            }
        }
        lemma_one_more(
            snapshot::all_exclusions(dir, all, before),
            dir,
            all,
            before,
            all,
            user,
            Some(last),
        );
    }
}

/// A failure says that a directory is missing wherever one of the known
/// wordings stands in it, in small letters or in capitals.
pub proof fn law_missing_directories_are_recognised(
    front: Seq<char>,
    back: Seq<char>,
    err: Seq<char>,
)
    ensures
        text::lowercase(err) == front + "directory not found"@ + back
            ==> snapshot::says_directory_missing(err),
        text::lowercase(err) == front + "not found on remote"@ + back
            ==> snapshot::says_directory_missing(err),
        text::lowercase(err) == front + "no such file or directory"@ + back
            ==> snapshot::says_directory_missing(err),
        snapshot::says_directory_missing(err) ==> exists|a: Seq<char>, b: Seq<char>|
            {
                ||| text::lowercase(err) == #[trigger] (a + "directory not found"@ + b)
                ||| text::lowercase(err) == a + "not found on remote"@ + b
                ||| text::lowercase(err) == a + "no such file or directory"@ + b
            },
{
    let lower = text::lowercase(err);
    text_laws::law_held_text(front, "directory not found"@, back, lower);
    text_laws::law_held_text(front, "not found on remote"@, back, lower);
    text_laws::law_held_text(front, "no such file or directory"@, back, lower);
    if text::holds(lower, "not found on remote"@) {
        let (a, b) = choose|a: Seq<char>, b: Seq<char>|
            lower == #[trigger] (a + "not found on remote"@ + b);
        let other = a + "directory not found"@ + b;
        assert(other == a + "directory not found"@ + b);
    }
    if text::holds(lower, "no such file or directory"@) {
        let (a, b) = choose|a: Seq<char>, b: Seq<char>|
            lower == #[trigger] (a + "no such file or directory"@ + b);
        let other = a + "directory not found"@ + b;
        assert(other == a + "directory not found"@ + b);
    }
}

} // verus!
