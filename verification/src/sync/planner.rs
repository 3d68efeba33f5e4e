//! Turns a [`Snapshot`] into the actions that bring both sides in step.
//!
//! Every decision depends on one `(local, remote, db)` triple, on the walk's
//! unreliable paths and on the siblings of the path.

use vstd::prelude::*;

use crate::domain::{RemoteItem, SyncDir, SyncItem};
use crate::path_map;
use crate::path_map::{PathMap, PathSet};
use crate::paths;
use crate::paths::{join, parent_of, relative_to};
use crate::sync::snapshot::{LocalEntry, Snapshot, SnapshotView};
use crate::text;
use crate::text::{byte_length, precedes, same};

verus! {

/// One step of a plan.
#[derive(Debug, PartialEq, Eq)]
pub enum Action<S = String> {
    Upload { local_path: S, remote_path: S, is_dir: bool },
    Download { local_path: S, remote_path: S, is_dir: bool },
    DeleteLocal { local_path: S, remote_path: S, is_dir: bool },
    DeleteRemote { local_path: S, remote_path: S, is_dir: bool },
    ClearDbRow { local_path: S, remote_path: S },
    /// Reserved for a planner that refuses to pick a side when both changed.
    /// This one always picks the newer modification time.
    Conflict { local_path: S, remote_path: S },
}

impl View for Action<String> {
    type V = Action<Seq<char>>;

    open spec fn view(&self) -> Action<Seq<char>> {
        match *self {
            Action::Upload { local_path, remote_path, is_dir } => Action::Upload {
                local_path: local_path@,
                remote_path: remote_path@,
                is_dir,
            },
            Action::Download { local_path, remote_path, is_dir } => Action::Download {
                local_path: local_path@,
                remote_path: remote_path@,
                is_dir,
            },
            Action::DeleteLocal { local_path, remote_path, is_dir } => Action::DeleteLocal {
                local_path: local_path@,
                remote_path: remote_path@,
                is_dir,
            },
            Action::DeleteRemote { local_path, remote_path, is_dir } => Action::DeleteRemote {
                local_path: local_path@,
                remote_path: remote_path@,
                is_dir,
            },
            Action::ClearDbRow { local_path, remote_path } => Action::ClearDbRow {
                local_path: local_path@,
                remote_path: remote_path@,
            },
            Action::Conflict { local_path, remote_path } => Action::Conflict {
                local_path: local_path@,
                remote_path: remote_path@,
            },
        }
    }
}

/// The order of kinds in a plan: directory creations, file transfers,
/// conflicts, row clearing, deletes.
pub open spec fn phase_of(action: Action<Seq<char>>) -> nat {
    match action {
        Action::Upload { is_dir, .. } | Action::Download { is_dir, .. } => if is_dir {
            0
        } else {
            1
        },
        Action::Conflict { .. } => 2,
        Action::ClearDbRow { .. } => 3,
        Action::DeleteLocal { .. } | Action::DeleteRemote { .. } => 4,
    }
}

/// The remote path that an action is about.
pub open spec fn path_of(action: Action<Seq<char>>) -> Seq<char> {
    match action {
        Action::Upload { remote_path, .. }
        | Action::Download { remote_path, .. }
        | Action::DeleteLocal { remote_path, .. }
        | Action::DeleteRemote { remote_path, .. }
        | Action::ClearDbRow { remote_path, .. }
        | Action::Conflict { remote_path, .. } => remote_path,
    }
}

/// `a` ranks strictly before `b`: by phase, then the shorter path, then the
/// path itself.
pub open spec fn ranks_before(a: Action<Seq<char>>, b: Action<Seq<char>>) -> bool {
    let (la, lb) = (text::byte_len(path_of(a)), text::byte_len(path_of(b)));
    ||| phase_of(a) < phase_of(b)
    ||| phase_of(a) == phase_of(b) && la < lb
    ||| phase_of(a) == phase_of(b) && la == lb && text::text_lt(path_of(a), path_of(b))
}

/// The two rank the same.
pub open spec fn ranks_same(a: Action<Seq<char>>, b: Action<Seq<char>>) -> bool {
    phase_of(a) == phase_of(b) && path_of(a) == path_of(b)
}

/// Ranking is a strict weak order.
pub proof fn lemma_ranks(a: Action<Seq<char>>, b: Action<Seq<char>>, c: Action<Seq<char>>)
    ensures
        !ranks_before(a, a),
        ranks_before(a, b) && ranks_before(b, c) ==> ranks_before(a, c),
        ranks_before(a, b) || ranks_before(b, a) || ranks_same(a, b),
{
    text::lemma_text_lt_irreflexive(path_of(a));
    text::lemma_text_lt_total(path_of(a), path_of(b));
    if text::text_lt(path_of(a), path_of(b)) && text::text_lt(path_of(b), path_of(c)) {
        text::lemma_text_lt_transitive(path_of(a), path_of(b), path_of(c));
    }
}

/// The place of an action in the plan's order of kinds.
pub fn phase(action: &Action) -> (place: u8)
    ensures
        place == phase_of(action@),
{
    match action {
        Action::Upload { is_dir, .. } => if *is_dir {
            0
        } else {
            1
        },
        Action::Download { is_dir, .. } => if *is_dir {
            0
        } else {
            1
        },
        Action::Conflict { .. } => 2,
        Action::ClearDbRow { .. } => 3,
        Action::DeleteLocal { .. } => 4,
        Action::DeleteRemote { .. } => 4,
    }
}

/// The remote path that an action is about.
pub fn a_path(action: &Action) -> (path: &str)
    ensures
        path@ == path_of(action@),
{
    match action {
        Action::Upload { remote_path, .. } => remote_path.as_str(),
        Action::Download { remote_path, .. } => remote_path.as_str(),
        Action::DeleteLocal { remote_path, .. } => remote_path.as_str(),
        Action::DeleteRemote { remote_path, .. } => remote_path.as_str(),
        Action::ClearDbRow { remote_path, .. } => remote_path.as_str(),
        Action::Conflict { remote_path, .. } => remote_path.as_str(),
    }
}

fn comes_before(a: &Action, b: &Action) -> (before: bool)
    ensures
        before == ranks_before(a@, b@),
{
    let (pa, pb): (u8, u8) = (phase(a), phase(b));
    if pa != pb {
        return pa < pb;
    }
    let (la, lb): (u128, u128) = (byte_length(a_path(a)), byte_length(a_path(b)));
    if la != lb {
        return la < lb;
    }
    precedes(a_path(a), a_path(b))
}

/// The rows' remote paths, each filed once, under its parent; no parent is
/// there without a path.
pub open spec fn groups_rows(
    groups: Map<Seq<char>, Seq<String>>,
    rows: Map<Seq<char>, SyncItem<Seq<char>>>,
) -> bool {
    &&& forall|dir: Seq<char>| #[trigger]
        groups.contains_key(dir) ==> groups[dir].len() > 0 && text::views(
            groups[dir],
        ).no_duplicates()
    &&& forall|dir: Seq<char>, i: int|
        groups.contains_key(dir) && 0 <= i < groups[dir].len() ==> rows.contains_key(
            (#[trigger] groups[dir][i])@,
        ) && paths::parent(groups[dir][i]@) == dir
    &&& forall|path: Seq<char>| #[trigger]
        rows.contains_key(path) ==> groups.contains_key(paths::parent(path)) && text::views(
            groups[paths::parent(path)],
        ).contains(path)
}

/// Files the rows' remote paths by their parent.
pub fn group_db_keys_by_parent(db: &PathMap<SyncItem>) -> (groups: PathMap<Vec<String>>)
    ensures
        groups_rows(groups@, db@),
{
    let mut groups: PathMap<Vec<String>> = PathMap::new();
    let keys = db.keys();
    let total: usize = keys.len();
    let mut n: usize = 0;
    while n < total
        invariant
            total == keys@.len(),
            n <= total,
            path_map::ascending(text::views(keys@)),
            forall|path: Seq<char>|
                #![auto]
                db@.contains_key(path) <==> text::views(keys@).contains(path),
            forall|dir: Seq<char>| #[trigger]
                groups@.contains_key(dir) ==> groups@[dir].len() > 0 && text::views(
                    groups@[dir],
                ).no_duplicates(),
            forall|dir: Seq<char>, i: int|
                groups@.contains_key(dir) && 0 <= i < groups@[dir].len() ==> text::text_lt(
                    (#[trigger] groups@[dir][i])@,
                    text::views(keys@)[n as int],
                ) || n == total,
            forall|dir: Seq<char>, i: int|
                groups@.contains_key(dir) && 0 <= i < groups@[dir].len() ==> db@.contains_key(
                    (#[trigger] groups@[dir][i])@,
                ) && paths::parent(groups@[dir][i]@) == dir,
            forall|k: int|
                #![trigger text::views(keys@)[k]]
                0 <= k < n ==> {
                    let path = text::views(keys@)[k];
                    groups@.contains_key(paths::parent(path)) && text::views(
                        groups@[paths::parent(path)],
                    ).contains(path)
                },
        decreases total - n,
    {
        let key = &keys[n];
        let dir = parent_of(key.as_str());
        let ghost before = groups@;
        let mut list: Vec<String> = match groups.insert(dir.clone(), Vec::new()) {
            Some(held) => held,
            None => Vec::new(),
        };
        let ghost earlier = text::views(list@);
        list.push(key.clone());
        proof {
            assert(text::views(list@) =~= earlier.push(key@));
            assert(text::views(keys@)[n as int] == key@);
            assert forall|i: int| 0 <= i < earlier.len() implies text::text_lt(
                #[trigger] earlier[i],
                key@,
            ) by {
                assert(earlier[i] == before[dir@][i]@);
            }
            assert(text::views(list@).no_duplicates()) by {
                text::lemma_text_lt_irreflexive(key@);
            }
            assert(text::views(keys@).contains(key@));
        }
        let _ = groups.insert(dir, list);
        proof {
            assert forall|k: int|
                #![trigger text::views(keys@)[k]]
                0 <= k < n + 1 implies {
                let path = text::views(keys@)[k];
                groups@.contains_key(paths::parent(path)) && text::views(
                    groups@[paths::parent(path)],
                ).contains(path)
            } by {
                let path = text::views(keys@)[k];
                if k < n && paths::parent(path) == dir@ {
                    let i = earlier.index_of(path);
                    assert(earlier.contains(path));
                    assert(text::views(list@)[i] == path);
                } else if k == n {
                    assert(text::views(list@)[earlier.len() as int] == path);
                }
            }
            if n + 1 < total {
                let next = text::views(keys@)[n + 1];
                assert(text::text_lt(text::views(keys@)[n as int], next));
                assert forall|d: Seq<char>, i: int|
                    groups@.contains_key(d) && 0 <= i < groups@[d].len() implies text::text_lt(
                    (#[trigger] groups@[d][i])@,
                    next,
                ) by {
                    let filed = groups@[d][i]@;
                    if d == dir@ {
                        assert(text::views(list@)[i] == filed);
                        if i < earlier.len() {
                            assert(earlier[i] == filed);
                        }
                    } else {
                        assert(before[d][i]@ == filed);
                    }
                    if filed != key@ {
                        text::lemma_text_lt_transitive(filed, key@, next);
                    }
                }
            }
            assert forall|d: Seq<char>, i: int|
                groups@.contains_key(d) && 0 <= i < groups@[d].len() implies db@.contains_key(
                (#[trigger] groups@[d][i])@,
            ) && paths::parent(groups@[d][i]@) == d by {
                if d == dir@ {
                    if i < earlier.len() {
                        assert(earlier[i] == groups@[d][i]@);
                        assert(earlier[i] == before[d][i]@);
                    }
                }
            }
        }
        n = n + 1;
    }
    proof {
        assert forall|path: Seq<char>| #[trigger]
            db@.contains_key(path) implies groups@.contains_key(paths::parent(path)) && text::views(
            groups@[paths::parent(path)],
        ).contains(path) by {
            let k = text::views(keys@).index_of(path);
            assert(text::views(keys@)[k] == path);
        }
    }
    groups
}

/// The listing (or the walk) enumerated the parent of `path`: either no other
/// row is recorded under that parent, or `items` holds an entry directly
/// under it, recorded or not.
///
/// It is not so only where other rows say that siblings should exist and
/// nothing at all was seen under the parent.
pub open spec fn parent_verified<T>(
    path: Seq<char>,
    items: Map<Seq<char>, T>,
    rows: Map<Seq<char>, SyncItem<Seq<char>>>,
) -> bool {
    ||| forall|other: Seq<char>| #[trigger]
        rows.contains_key(other) && paths::parent(other) == paths::parent(path) ==> other == path
    ||| exists|seen: Seq<char>| #[trigger]
        items.contains_key(seen) && paths::parent(seen) == paths::parent(path)
}

/// Did the listing or the walk successfully enumerate `path`'s parent?
/// Tells a parent that was emptied from a glitch that returned partial data.
pub fn parent_is_verified<T: View>(
    path: &str,
    items: &PathMap<T>,
    db_by_parent: &PathMap<Vec<String>>,
    db: &PathMap<SyncItem>,
) -> (verified: bool)
    requires
        groups_rows(db_by_parent@, db@),
    ensures
        verified == parent_verified(path@, items@, db@),
{
    let parent = parent_of(path);
    let siblings = match db_by_parent.get(parent.as_str()) {
        Some(list) => list,
        None => {
            return true;
        },
    };
    let total: usize = siblings.len();
    let mut any_expected = false;
    let mut i: usize = 0;
    while i < total
        invariant
            total == siblings@.len(),
            i <= total,
            groups_rows(db_by_parent@, db@),
            parent@ == paths::parent(path@),
            db_by_parent@.contains_key(parent@),
            db_by_parent@[parent@] == siblings@,
            any_expected == exists|k: int|
                0 <= k < i && (#[trigger] text::views(siblings@)[k]) != path@,
        decreases total - i,
    {
        let sibling = siblings[i].as_str();
        assert(db_by_parent@[parent@][i as int]@ == sibling@);
        assert(text::views(siblings@)[i as int] == sibling@);
        if !same(sibling, path) {
            any_expected = true;
            if items.contains_key(sibling) {
                return true;
            }
        }
        i = i + 1;
    }
    if !any_expected {
        assert forall|other: Seq<char>| #[trigger]
            db@.contains_key(other) && paths::parent(other) == paths::parent(
                path@,
            ) implies other == path@ by {
            let k = text::views(siblings@).index_of(other);
            assert(text::views(siblings@).contains(other));
            assert(text::views(siblings@)[k] == other);
        }
        return true;
    }
    proof {
        let k = choose|k: int| 0 <= k < total && (#[trigger] text::views(siblings@)[k]) != path@;
        let other = text::views(siblings@)[k];
        assert(other == db_by_parent@[parent@][k]@);
        assert(db@.contains_key(other) && paths::parent(other) == paths::parent(path@));
    }
    holds_child(items, parent.as_str())
}

/// Does `items` hold an entry whose parent is `parent`?
fn holds_child<T: View>(items: &PathMap<T>, parent: &str) -> (found: bool)
    ensures
        found == exists|seen: Seq<char>| #[trigger]
            items@.contains_key(seen) && paths::parent(seen) == parent@,
{
    let keys = items.keys();
    let total: usize = keys.len();
    let mut j: usize = 0;
    while j < total
        invariant
            total == keys@.len(),
            j <= total,
            forall|key: Seq<char>|
                #![auto]
                items@.contains_key(key) <==> text::views(keys@).contains(key),
            forall|k: int|
                0 <= k < j ==> paths::parent(#[trigger] text::views(keys@)[k]) != parent@,
        decreases total - j,
    {
        let key = keys[j].as_str();
        assert(text::views(keys@)[j as int] == key@);
        let dir = parent_of(key);
        if same(dir.as_str(), parent) {
            assert(text::views(keys@).contains(key@));
            assert(items@.contains_key(key@));
            return true;
        }
        j = j + 1;
    }
    assert forall|seen: Seq<char>| #[trigger]
        items@.contains_key(seen) implies paths::parent(seen) != parent@ by {
        assert(text::views(keys@).contains(seen));
        let k = text::views(keys@).index_of(seen);
        assert(text::views(keys@)[k] == seen);
    }
    false
}

/// The parent's parent and so on, `n` times.
pub open spec fn nth_parent(path: Seq<char>, n: nat) -> Seq<char>
    decreases n,
{
    if n == 0 {
        path
    } else {
        nth_parent(paths::parent(path), (n - 1) as nat)
    }
}

/// `path` or one of its ancestors, up to the empty path, is in `set`.
pub open spec fn chain_meets(path: Seq<char>, set: Set<Seq<char>>) -> bool {
    exists|n: nat| set.contains(#[trigger] nth_parent(path, n))
}

proof fn lemma_next_parent(path: Seq<char>, n: nat)
    ensures
        nth_parent(path, n + 1) == paths::parent(nth_parent(path, n)),
    decreases n,
{
    reveal_with_fuel(nth_parent, 2);
    if n > 0 {
        lemma_next_parent(paths::parent(path), (n - 1) as nat);
    }
}

/// Does `path`, or any of its ancestor directories up to the root, appear in
/// `unreliable`?
pub fn ancestor_in_set(path: &str, unreliable: &PathSet) -> (found: bool)
    ensures
        found == chain_meets(path@, unreliable@),
{
    if unreliable.contains(path) {
        assert(nth_parent(path@, 0) == path@);
        return true;
    }
    let mut here = path.to_owned();
    let ghost mut steps: nat = 0;
    loop
        invariant
            here@ == nth_parent(path@, steps),
            forall|n: nat| n <= steps ==> !unreliable@.contains(#[trigger] nth_parent(path@, n)),
        decreases here@.len(),
    {
        let above = parent_of(here.as_str());
        proof {
            lemma_next_parent(path@, steps);
            paths::lemma_parent_shorter(here@);
        }
        if unreliable.contains(above.as_str()) {
            assert(unreliable@.contains(nth_parent(path@, steps + 1)));
            return true;
        }
        if here.as_str().unicode_len() == 0 {
            assert forall|n: nat| !unreliable@.contains(#[trigger] nth_parent(path@, n)) by {
                if n > steps {
                    lemma_parent_stays(path@, steps, n);
                }
            }
            return false;
        }
        here = above;
        proof {
            steps = steps + 1;
        }
    }
}

proof fn lemma_parent_stays(path: Seq<char>, steps: nat, n: nat)
    requires
        steps <= n,
        nth_parent(path, steps).len() == 0,
    ensures
        nth_parent(path, n) == nth_parent(path, steps),
    decreases n,
{
    if n > steps {
        lemma_parent_stays(path, steps, (n - 1) as nat);
        lemma_next_parent(path, (n - 1) as nat);
        paths::lemma_parent_shorter(nth_parent(path, (n - 1) as nat));
    }
}

/// The local path that belongs to a path on the remote.
pub open spec fn local_for(remote_path: Seq<char>, dir: SyncDir<Seq<char>>) -> Seq<char> {
    let relative = if dir.remote_path.len() == 0 {
        remote_path
    } else {
        match paths::below(remote_path, dir.remote_path) {
            Some(rest) => rest,
            None => remote_path,
        }
    };
    if relative.len() == 0 {
        dir.local_path
    } else {
        paths::joined(dir.local_path, relative)
    }
}

/// The local path that belongs to a path on the remote.
pub fn derive_local_path(remote_path: &str, sync_dir: &SyncDir) -> (path: String)
    ensures
        path@ == local_for(remote_path@, sync_dir@),
{
    let relative = if sync_dir.remote_path.as_str().unicode_len() == 0 {
        remote_path.to_owned()
    } else {
        match relative_to(remote_path, sync_dir.remote_path.as_str()) {
            Some(rest) => rest,
            None => remote_path.to_owned(),
        }
    };
    if relative.as_str().unicode_len() == 0 {
        sync_dir.local_path.clone()
    } else {
        join(sync_dir.local_path.as_str(), relative.as_str())
    }
}

/// The local path of a recorded row, found from its remote path.
pub fn db_local_path(remote_path: &str, sync_dir: &SyncDir) -> (path: String)
    ensures
        path@ == local_for(remote_path@, sync_dir@),
{
    derive_local_path(remote_path, sync_dir)
}

/// What to do about one path, from what the walk, the listing and the rows
/// hold for it.
pub open spec fn decision(
    key: Seq<char>,
    local: Option<LocalEntry<Seq<char>>>,
    remote: Option<RemoteItem<Seq<char>>>,
    row: Option<SyncItem<Seq<char>>>,
    dir: SyncDir<Seq<char>>,
    snap: SnapshotView,
) -> Option<Action<Seq<char>>> {
    match (local, remote, row) {
        (None, None, None) => None,
        // Both sides gone: the row is stale.
        (None, None, Some(_)) => Some(
            Action::ClearDbRow { local_path: local_for(key, dir), remote_path: key },
        ),
        // New on one side only.
        (Some(l), None, None) => Some(upload(key, l)),
        (None, Some(r), None) => Some(
            Action::Download {
                local_path: local_for(r.path, dir),
                remote_path: r.path,
                is_dir: r.is_dir,
            },
        ),
        // On both sides and never recorded: the newer one wins, ties go to
        // the remote.
        (Some(l), Some(r), None) => if l.is_dir && r.is_dir {
            None
        } else if l.mtime_secs > r.mod_time {
            Some(upload(key, l))
        } else {
            Some(download(key, l, r))
        },
        // Recorded, and gone from the remote.
        (Some(l), None, Some(db)) => if !parent_verified(key, snap.remote, snap.db) {
            None
        } else if !l.is_dir && l.mtime_secs > db.last_local_timestamp {
            Some(upload(key, l))
        } else {
            Some(
                Action::DeleteLocal {
                    local_path: l.absolute_path,
                    remote_path: key,
                    is_dir: l.is_dir,
                },
            )
        },
        // Recorded, and gone locally.
        (None, Some(r), Some(_)) => if chain_meets(r.path, snap.walk_unreliable) {
            None
        } else if !parent_verified(r.path, snap.local, snap.db) {
            None
        } else {
            Some(
                Action::DeleteRemote {
                    local_path: local_for(r.path, dir),
                    remote_path: r.path,
                    is_dir: r.is_dir,
                },
            )
        },
        // Everywhere: the side that changed wins, and where both did the
        // newer one, ties going to the local side.
        (Some(l), Some(r), Some(db)) => {
            let local_changed = l.mtime_secs > db.last_local_timestamp;
            let remote_changed = r.mod_time > db.last_remote_timestamp;
            if !local_changed && !remote_changed {
                None
            } else if !remote_changed {
                Some(upload(key, l))
            } else if !local_changed {
                Some(download(key, l, r))
            } else if l.is_dir && r.is_dir {
                None
            } else if l.mtime_secs >= r.mod_time {
                Some(upload(key, l))
            } else {
                Some(download(key, l, r))
            }
        },
    }
}

/// The upload of a walked entry.
pub open spec fn upload(key: Seq<char>, l: LocalEntry<Seq<char>>) -> Action<Seq<char>> {
    Action::Upload { local_path: l.absolute_path, remote_path: key, is_dir: l.is_dir }
}

/// The download over a walked entry.
pub open spec fn download(
    key: Seq<char>,
    l: LocalEntry<Seq<char>>,
    r: RemoteItem<Seq<char>>,
) -> Action<Seq<char>> {
    Action::Download { local_path: l.absolute_path, remote_path: key, is_dir: r.is_dir }
}

fn upload_of(remote_path: &str, l: &LocalEntry) -> (action: Action)
    ensures
        action@ == upload(remote_path@, l@),
{
    Action::Upload {
        local_path: l.absolute_path.clone(),
        remote_path: remote_path.to_owned(),
        is_dir: l.is_dir,
    }
}

fn download_of(remote_path: &str, l: &LocalEntry, r: &RemoteItem) -> (action: Action)
    ensures
        action@ == download(remote_path@, l@, r@),
{
    Action::Download {
        local_path: l.absolute_path.clone(),
        remote_path: remote_path.to_owned(),
        is_dir: r.is_dir,
    }
}

/// Decides what to do about one path.
pub fn plan_one(
    remote_path: &str,
    local: Option<&LocalEntry>,
    remote: Option<&RemoteItem>,
    db: Option<&SyncItem>,
    sync_dir: &SyncDir,
    snapshot: &Snapshot,
    db_by_parent: &PathMap<Vec<String>>,
) -> (action: Option<Action>)
    requires
        groups_rows(db_by_parent@, snapshot.db@),
    ensures
        text::opt_view(action) == decision(
            remote_path@,
            text::opt_view(local),
            text::opt_view(remote),
            text::opt_view(db),
            sync_dir@,
            snapshot@,
        ),
{
    match (local, remote, db) {
        (None, None, None) => None,
        (None, None, Some(_)) => Some(
            Action::ClearDbRow {
                local_path: db_local_path(remote_path, sync_dir),
                remote_path: remote_path.to_owned(),
            },
        ),
        (Some(l), None, None) => Some(upload_of(remote_path, l)),
        (None, Some(r), None) => Some(
            Action::Download {
                local_path: derive_local_path(r.path.as_str(), sync_dir),
                remote_path: r.path.clone(),
                is_dir: r.is_dir,
            },
        ),
        (Some(l), Some(r), None) => {
            if l.is_dir && r.is_dir {
                // Nothing to transfer: the row is written when a child
                // lands.
                None
            } else if l.mtime_secs > r.mod_time {
                Some(upload_of(remote_path, l))
            } else {
                Some(download_of(remote_path, l, r))
            }
        },
        (Some(l), None, Some(row)) => {
            if !parent_is_verified(remote_path, &snapshot.remote, db_by_parent, &snapshot.db) {
                // The listing showed nothing under the parent: likely a
                // glitch, so the local copy stays.
                None
            } else if !l.is_dir && l.mtime_secs > row.last_local_timestamp {
                // The file changed since the last sync: a failed upload that
                // was cleaned up is likelier than a deletion.
                Some(upload_of(remote_path, l))
            } else {
                Some(
                    Action::DeleteLocal {
                        local_path: l.absolute_path.clone(),
                        remote_path: remote_path.to_owned(),
                        is_dir: l.is_dir,
                    },
                )
            }
        },
        (None, Some(r), Some(_)) => {
            if ancestor_in_set(r.path.as_str(), &snapshot.walk_unreliable) {
                // The walk reported an error on the way here: absence is no
                // deletion.
                None
            } else if !parent_is_verified(
                r.path.as_str(),
                &snapshot.local,
                db_by_parent,
                &snapshot.db,
            ) {
                None
            } else {
                Some(
                    Action::DeleteRemote {
                        local_path: derive_local_path(r.path.as_str(), sync_dir),
                        remote_path: r.path.clone(),
                        is_dir: r.is_dir,
                    },
                )
            }
        },
        (Some(l), Some(r), Some(row)) => {
            let local_changed = l.mtime_secs > row.last_local_timestamp;
            let remote_changed = r.mod_time > row.last_remote_timestamp;
            if !local_changed && !remote_changed {
                None
            } else if !remote_changed {
                Some(upload_of(remote_path, l))
            } else if !local_changed {
                Some(download_of(remote_path, l, r))
            } else if l.is_dir && r.is_dir {
                None
            } else if l.mtime_secs >= r.mod_time {
                Some(upload_of(remote_path, l))
            } else {
                Some(download_of(remote_path, l, r))
            }
        },
    }
}

/// The entry under `key`, where there is one.
pub open spec fn entry<T>(entries: Map<Seq<char>, T>, key: Seq<char>) -> Option<T> {
    if entries.contains_key(key) {
        Some(entries[key])
    } else {
        None
    }
}

/// What the snapshot asks to do about the path `key`.
pub open spec fn decided(
    snap: SnapshotView,
    dir: SyncDir<Seq<char>>,
    key: Seq<char>,
) -> Option<Action<Seq<char>>> {
    decision(key, entry(snap.local, key), entry(snap.remote, key), entry(snap.db, key), dir, snap)
}

/// The order of a plan: by rank, and by key where two rank the same.
pub open spec fn plan_order(
    a: Action<Seq<char>>,
    key_a: Seq<char>,
    b: Action<Seq<char>>,
    key_b: Seq<char>,
) -> bool {
    ranks_before(a, b) || ranks_same(a, b) && text::text_lt(key_a, key_b)
}

/// `actions` are what is decided for `keys`, place by place, for every path
/// on which something is decided, in the order of a plan.
pub open spec fn plans(
    snap: SnapshotView,
    dir: SyncDir<Seq<char>>,
    keys: Seq<Seq<char>>,
    actions: Seq<Action<Seq<char>>>,
) -> bool {
    &&& keys.len() == actions.len()
    &&& forall|i: int|
        0 <= i < keys.len() ==> decided(snap, dir, #[trigger] keys[i]) == Some(actions[i])
    &&& forall|key: Seq<char>|
        (#[trigger] decided(snap, dir, key)) is Some ==> keys.contains(key)
    &&& forall|i: int, j: int|
        0 <= i < j < keys.len() ==> plan_order(
            actions[i],
            #[trigger] keys[i],
            actions[j],
            #[trigger] keys[j],
        )
}

/// `actions` is the plan for the snapshot.
pub open spec fn is_plan(
    snap: SnapshotView,
    dir: SyncDir<Seq<char>>,
    actions: Seq<Action<Seq<char>>>,
) -> bool {
    exists|keys: Seq<Seq<char>>| plans(snap, dir, keys, actions)
}

/// Where `action` goes among actions in order: behind those that rank no
/// later.
fn insertion_place(list: &Vec<Action>, action: &Action) -> (place: usize)
    requires
        forall|i: int, j: int|
            0 <= i < j < list@.len() ==> !ranks_before(
                (#[trigger] list@[j])@,
                (#[trigger] list@[i])@,
            ),
    ensures
        place <= list@.len(),
        forall|i: int| 0 <= i < place ==> !ranks_before(action@, (#[trigger] list@[i])@),
        forall|i: int| place <= i < list@.len() ==> ranks_before(action@, (#[trigger] list@[i])@),
{
    let mut low: usize = 0;
    let mut high: usize = list.len();
    while low < high
        invariant
            low <= high <= list@.len(),
            forall|i: int, j: int|
                0 <= i < j < list@.len() ==> !ranks_before(
                    (#[trigger] list@[j])@,
                    (#[trigger] list@[i])@,
                ),
            forall|i: int| 0 <= i < low ==> !ranks_before(action@, (#[trigger] list@[i])@),
            forall|i: int|
                high <= i < list@.len() ==> ranks_before(action@, (#[trigger] list@[i])@),
        decreases high - low,
    {
        let middle: usize = low + (high - low) / 2;
        let ghost m = list@[middle as int]@;
        if comes_before(action, &list[middle]) {
            assert forall|i: int| middle <= i < list@.len() implies ranks_before(
                action@,
                (#[trigger] list@[i])@,
            ) by {
                let other = list@[i]@;
                lemma_ranks(action@, m, other);
                lemma_ranks(m, other, action@);
                if ranks_same(m, other) {
                    text::lemma_text_lt_irreflexive(path_of(m));
                }
            }
            high = middle;
        } else {
            assert forall|i: int| 0 <= i < middle + 1 implies !ranks_before(
                action@,
                (#[trigger] list@[i])@,
            ) by {
                let other = list@[i]@;
                lemma_ranks(action@, other, m);
                lemma_ranks(other, m, action@);
            }
            low = middle + 1;
        }
    }
    low
}

proof fn lemma_insert_in_order(
    keys: Seq<Seq<char>>,
    actions: Seq<Action<Seq<char>>>,
    place: int,
    key: Seq<char>,
    action: Action<Seq<char>>,
)
    requires
        keys.len() == actions.len(),
        0 <= place <= keys.len(),
        forall|i: int, j: int|
            0 <= i < j < keys.len() ==> plan_order(
                actions[i],
                #[trigger] keys[i],
                actions[j],
                #[trigger] keys[j],
            ),
        forall|i: int| 0 <= i < keys.len() ==> text::text_lt(#[trigger] keys[i], key),
        forall|i: int| 0 <= i < place ==> !ranks_before(action, #[trigger] actions[i]),
        forall|i: int| place <= i < keys.len() ==> ranks_before(action, #[trigger] actions[i]),
    ensures
        forall|i: int, j: int|
            #![trigger keys.insert(place, key)[i], keys.insert(place, key)[j]]
            0 <= i < j < keys.len() + 1 ==> plan_order(
                actions.insert(place, action)[i],
                keys.insert(place, key)[i],
                actions.insert(place, action)[j],
                keys.insert(place, key)[j],
            ),
{
    let more = keys.insert(place, key);
    let list = actions.insert(place, action);
    assert forall|i: int, j: int|
        #![trigger more[i], more[j]]
        0 <= i < j < keys.len() + 1 implies plan_order(list[i], more[i], list[j], more[j]) by {
        let p = if i < place { i } else { i - 1 };
        let q = if j < place { j } else { j - 1 };
        if i == place {
            assert(list[j] == actions[q]);
        } else if j == place {
            assert(list[i] == actions[p] && more[i] == keys[p]);
            lemma_ranks(actions[p], action, action);
        } else {
            assert(more[i] == keys[p] && more[j] == keys[q]);
        }
    }
}

/// A path that the snapshot holds something about.
pub open spec fn is_key(snap: SnapshotView, key: Seq<char>) -> bool {
    snap.remote.contains_key(key) || snap.local.contains_key(key) || snap.db.contains_key(key)
}

/// The paths that a snapshot holds something about.
pub fn all_keys(snapshot: &Snapshot) -> (set: PathSet)
    ensures
        forall|key: Seq<char>| #[trigger] set@.contains(key) <==> is_key(snapshot@, key),
{
    let mut set = PathSet::new();
    add_keys(&mut set, snapshot.remote.keys());
    add_keys(&mut set, snapshot.local.keys());
    add_keys(&mut set, snapshot.db.keys());
    set
}

fn add_keys(set: &mut PathSet, keys: &Vec<String>)
    ensures
        forall|key: Seq<char>| #[trigger]
            final(set)@.contains(key) <==> (old(set)@.contains(key) || text::views(
                keys@,
            ).contains(key)),
{
    let total: usize = keys.len();
    let ghost all = text::views(keys@);
    let mut i: usize = 0;
    while i < total
        invariant
            total == keys@.len(),
            all == text::views(keys@),
            i <= total,
            forall|key: Seq<char>| #[trigger]
                set@.contains(key) <==> (old(set)@.contains(key) || all.take(i as int).contains(
                    key,
                )),
        decreases total - i,
    {
        set.insert(keys[i].clone());
        proof {
            assert(all.take(i + 1) =~= all.take(i as int).push(keys@[i as int]@));
            assert forall|key: Seq<char>| #[trigger]
                set@.contains(key) <==> (old(set)@.contains(key) || all.take(i + 1).contains(
                    key,
                )) by {
                if all.take(i as int).contains(key) {
                    let k = all.take(i as int).index_of(key);
                    assert(all.take(i + 1)[k] == key);
                }
                assert(all.take(i + 1)[i as int] == keys@[i as int]@);
            }
        }
        i = i + 1;
    }
    assert(all.take(total as int) =~= all);
}

/// The plan for a snapshot: for each path at most one action, directory
/// creations first, then file transfers, deletes last, and in each group
/// shorter paths first.
pub fn plan(snapshot: &Snapshot, sync_dir: &SyncDir) -> (actions: Vec<Action>)
    ensures
        is_plan(snapshot@, sync_dir@, text::views(actions@)),
{
    let set = all_keys(snapshot);
    let keys = set.keys();
    let db_by_parent = group_db_keys_by_parent(&snapshot.db);
    let mut out: Vec<Action> = Vec::new();
    let ghost snap = snapshot@;
    let ghost dir = sync_dir@;
    let ghost all = text::views(keys@);
    let ghost mut origin: Seq<Seq<char>> = Seq::empty();
    let total: usize = keys.len();
    let mut n: usize = 0;
    while n < total
        invariant
            total == keys@.len(),
            n <= total,
            all == text::views(keys@),
            snap == snapshot@,
            dir == sync_dir@,
            path_map::ascending(all),
            groups_rows(db_by_parent@, snapshot.db@),
            origin.len() == out@.len(),
            forall|i: int|
                0 <= i < origin.len() ==> decided(snap, dir, #[trigger] origin[i]) == Some(
                    text::views(out@)[i],
                ),
            forall|k: int|
                0 <= k < n && (#[trigger] decided(snap, dir, all[k])) is Some
                    ==> origin.contains(all[k]),
            forall|i: int, m: int|
                0 <= i < origin.len() && n <= m < all.len() ==> text::text_lt(
                    #[trigger] origin[i],
                    #[trigger] all[m],
                ),
            forall|i: int, j: int|
                0 <= i < j < origin.len() ==> plan_order(
                    text::views(out@)[i],
                    #[trigger] origin[i],
                    text::views(out@)[j],
                    #[trigger] origin[j],
                ),
        decreases total - n,
    {
        let key = keys[n].as_str();
        assert(key@ == all[n as int]);
        let action = plan_one(
            key,
            snapshot.local.get(key),
            snapshot.remote.get(key),
            snapshot.db.get(key),
            sync_dir,
            snapshot,
            &db_by_parent,
        );
        assert(text::opt_view(action) == decided(snap, dir, key@));
        let ghost before = text::views(out@);
        let ghost earlier = origin;
        match action {
            Some(step) => {
                assert forall|i: int, j: int| 0 <= i < j < out@.len() implies !ranks_before(
                    (#[trigger] out@[j])@,
                    (#[trigger] out@[i])@,
                ) by {
                    assert(before[i] == out@[i]@ && before[j] == out@[j]@);
                    assert(plan_order(before[i], origin[i], before[j], origin[j]));
                    lemma_ranks(before[i], before[j], before[i]);
                    lemma_ranks(before[j], before[i], before[j]);
                }
                let place = insertion_place(&out, &step);
                proof {
                    assert forall|i: int| 0 <= i < place implies !ranks_before(
                        step@,
                        #[trigger] before[i],
                    ) by {
                        assert(before[i] == out@[i]@);
                    }
                    assert forall|i: int| place <= i < before.len() implies ranks_before(
                        step@,
                        #[trigger] before[i],
                    ) by {
                        assert(before[i] == out@[i]@);
                    }
                    lemma_insert_in_order(origin, before, place as int, key@, step@);
                    origin = origin.insert(place as int, key@);
                }
                let ghost added = step@;
                out.insert(place, step);
                proof {
                    assert(text::views(out@) =~= before.insert(place as int, added));
                    assert forall|i: int| 0 <= i < origin.len() implies decided(
                        snap,
                        dir,
                        #[trigger] origin[i],
                    ) == Some(text::views(out@)[i]) by {
                        if i < place {
                            assert(origin[i] == earlier[i]);
                        } else if i > place {
                            assert(origin[i] == earlier[i - 1]);
                        }
                    }
                    assert forall|k: int|
                        0 <= k < n + 1 && (#[trigger] decided(snap, dir, all[k]))
                            is Some implies origin.contains(all[k]) by {
                        if k == n {
                            assert(origin[place as int] == all[k]);
                        } else {
                            assert(earlier.contains(all[k]));
                            let i = earlier.index_of(all[k]);
                            assert(origin[if i < place { i } else { i + 1 }] == all[k]);
                        }
                    }
                    assert forall|i: int, m: int|
                        0 <= i < origin.len() && n + 1 <= m < all.len() implies text::text_lt(
                        #[trigger] origin[i],
                        #[trigger] all[m],
                    ) by {
                        if i == place {
                            assert(text::text_lt(all[n as int], all[m]));
                        } else if i < place {
                            assert(origin[i] == earlier[i]);
                        } else {
                            assert(origin[i] == earlier[i - 1]);
                        }
                    }
                }
            },
            None => {},
        }
        n = n + 1;
    }
    proof {
        assert forall|key: Seq<char>|
            (#[trigger] decided(snap, dir, key)) is Some implies origin.contains(key) by {
            assert(set@.contains(key));
            assert(all.contains(key));
            let k = all.index_of(key);
            assert(all[k] == key);
            assert(decided(snap, dir, all[k]) is Some);
        }
        assert(plans(snap, dir, origin, text::views(out@)));
    }
    out
}

} // verus!
