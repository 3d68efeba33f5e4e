//! Snapshot building: the authoritative remote listing, the local walk and
//! the recorded rows, combined into one structure that the planner decides
//! against.

use vstd::prelude::*;

use crate::domain::{RemoteItem, SyncDir, SyncItem};
use crate::path_map::{PathMap, PathSet};
use crate::paths;
use crate::paths::{is_within, join, relative_to};
use crate::sync::walk::{Walk, WalkView};
use crate::text;
use crate::text::{holds_text, lowercase_characters};

verus! {

/// One file or directory seen during the local walk.
#[derive(Debug, PartialEq, Eq)]
pub struct LocalEntry<S = String> {
    pub absolute_path: S,
    pub is_dir: bool,
    pub mtime_secs: i64,
}

impl View for LocalEntry<String> {
    type V = LocalEntry<Seq<char>>;

    open spec fn view(&self) -> LocalEntry<Seq<char>> {
        LocalEntry {
            absolute_path: self.absolute_path@,
            is_dir: self.is_dir,
            mtime_secs: self.mtime_secs,
        }
    }
}

/// The three views that the planner reasons against: remote listing, local
/// walk and recorded rows, each by the path on the remote.
pub struct Snapshot {
    pub remote: PathMap<RemoteItem>,
    pub local: PathMap<LocalEntry>,
    pub db: PathMap<SyncItem>,
    /// Remote paths whose local walk hit an I/O error. "Missing from `local`"
    /// below any of these is not a sign of a deletion but of a broken walk.
    pub walk_unreliable: PathSet,
}

/// What a [`Snapshot`] holds.
pub struct SnapshotView {
    pub remote: Map<Seq<char>, RemoteItem<Seq<char>>>,
    pub local: Map<Seq<char>, LocalEntry<Seq<char>>>,
    pub db: Map<Seq<char>, SyncItem<Seq<char>>>,
    pub walk_unreliable: Set<Seq<char>>,
}

impl View for Snapshot {
    type V = SnapshotView;

    open spec fn view(&self) -> SnapshotView {
        SnapshotView {
            remote: self.remote@,
            local: self.local@,
            db: self.db@,
            walk_unreliable: self.walk_unreliable@,
        }
    }
}

/// Wordings by which providers say that a remote directory does not exist.
pub open spec fn says_directory_missing(err: Seq<char>) -> bool {
    let lower = text::lowercase(err);
    ||| text::holds(lower, "directory not found"@)
    ||| text::holds(lower, "not found on remote"@)
    ||| text::holds(lower, "no such file or directory"@)
}

/// Does `err` look like a "remote directory doesn't exist" failure?
///
/// Providers word this differently, so the match is broad: a false positive
/// costs one speculative mkdir, a miss costs a broken sync cycle.
pub fn is_directory_missing_error(err: &str) -> (missing: bool)
    ensures
        missing == says_directory_missing(err@),
{
    let lower = lowercase_characters(err);
    holds_text(&lower, "directory not found") || holds_text(&lower, "not found on remote")
        || holds_text(&lower, "no such file or directory")
}

/// Where `candidate` lies strictly below the remote root `root`: its path
/// relative to that root.
pub open spec fn descendant_relative(root: Seq<char>, candidate: Seq<char>) -> Option<Seq<char>> {
    if root.len() == 0 {
        if candidate.len() == 0 {
            None
        } else {
            Some(candidate)
        }
    } else {
        paths::below(candidate, root)
    }
}

/// The candidate's path relative to `ancestor.remote_path` when the
/// candidate is a strict descendant of the ancestor in remote space (or a
/// non-empty path under a root ancestor).
pub fn remote_descendant_relative(ancestor: &SyncDir, candidate_remote: &str) -> (relative: Option<
    String,
>)
    ensures
        text::opt_view(relative) == descendant_relative(
            ancestor.remote_path@,
            candidate_remote@,
        ),
{
    if ancestor.remote_path.as_str().unicode_len() == 0 {
        if candidate_remote.unicode_len() == 0 {
            None
        } else {
            Some(candidate_remote.to_owned())
        }
    } else {
        relative_to(candidate_remote, ancestor.remote_path.as_str())
    }
}

/// A path relative to the remote root, as seen from the remote's top.
pub open spec fn absolute_remote(root: Seq<char>, relative: Seq<char>) -> Seq<char> {
    if root.len() == 0 {
        relative
    } else {
        paths::joined(root, relative)
    }
}

/// Glues a synced directory's remote root onto a relative remote path.
pub fn absolute_remote_path(sync_dir: &SyncDir, relative: &str) -> (path: String)
    ensures
        path@ == absolute_remote(sync_dir.remote_path@, relative@),
{
    if sync_dir.remote_path.as_str().unicode_len() == 0 {
        relative.to_owned()
    } else {
        join(sync_dir.remote_path.as_str(), relative)
    }
}

/// `path` is one of the prefixes, or lies below one of them.
pub open spec fn excluded(path: Seq<char>, prefixes: Seq<Seq<char>>) -> bool {
    exists|i: int| 0 <= i < prefixes.len() && paths::within(path, #[trigger] prefixes[i])
}

/// Does `path` equal one of `excluded_prefixes` or start with one of them
/// followed by `/`?
pub fn path_is_excluded(path: &str, excluded_prefixes: &Vec<String>) -> (out: bool)
    ensures
        out == excluded(path@, text::views(excluded_prefixes@)),
{
    let total: usize = excluded_prefixes.len();
    let mut i: usize = 0;
    while i < total
        invariant
            total == excluded_prefixes@.len(),
            i <= total,
            forall|k: int|
                0 <= k < i ==> !paths::within(
                    path@,
                    #[trigger] text::views(excluded_prefixes@)[k],
                ),
        decreases total - i,
    {
        assert(text::views(excluded_prefixes@)[i as int] == excluded_prefixes@[i as int]@);
        if is_within(path, excluded_prefixes[i].as_str()) {
            return true;
        }
        i = i + 1;
    }
    false
}

/// The subtrees of one synced directory that its pass leaves alone, as path
/// prefixes: local ones, and remote ones in both shapes that providers list
/// (relative to the remote root, and from the remote's top).
pub struct Exclusions {
    pub local: Vec<String>,
    pub remote: Vec<String>,
}

/// What [`Exclusions`] holds.
#[verifier::ext_equal]
pub struct ExclusionsView {
    pub local: Seq<Seq<char>>,
    pub remote: Seq<Seq<char>>,
}

impl View for Exclusions {
    type V = ExclusionsView;

    open spec fn view(&self) -> ExclusionsView {
        ExclusionsView { local: text::views(self.local@), remote: text::views(self.remote@) }
    }
}

impl ExclusionsView {
    /// With one more subtree, given by its path relative to the remote root.
    pub open spec fn with(self, dir: SyncDir<Seq<char>>, relative: Seq<char>) -> ExclusionsView {
        ExclusionsView {
            local: self.local.push(paths::joined(dir.local_path, relative)),
            remote: self.remote.push(absolute_remote(dir.remote_path, relative)).push(relative),
        }
    }
}

/// The subtree of `dir` that the synced directory `other` takes care of: it
/// is another one on the same remote, inside this one's remote tree.
pub open spec fn nested_in(dir: SyncDir<Seq<char>>, other: SyncDir<Seq<char>>) -> Option<
    Seq<char>,
> {
    if other.id != dir.id && other.remote_id == dir.remote_id {
        descendant_relative(dir.remote_path, other.remote_path)
    } else {
        None
    }
}

/// The subtrees left to other synced directories.
pub open spec fn nested_exclusions(
    dir: SyncDir<Seq<char>>,
    all: Seq<SyncDir<Seq<char>>>,
) -> ExclusionsView
    decreases all.len(),
{
    if all.len() == 0 {
        ExclusionsView { local: Seq::empty(), remote: Seq::empty() }
    } else {
        let before = nested_exclusions(dir, all.drop_last());
        match nested_in(dir, all.last()) {
            Some(relative) => before.with(dir, relative),
            None => before,
        }
    }
}

/// The subtrees left to other synced directories, then those that the user
/// excluded.
pub open spec fn all_exclusions(
    dir: SyncDir<Seq<char>>,
    all: Seq<SyncDir<Seq<char>>>,
    user: Seq<Seq<char>>,
) -> ExclusionsView
    decreases user.len(),
{
    if user.len() == 0 {
        nested_exclusions(dir, all)
    } else {
        all_exclusions(dir, all, user.drop_last()).with(dir, user.last())
    }
}

impl Exclusions {
    fn add(&mut self, sync_dir: &SyncDir, relative: String)
        ensures
            final(self)@ == old(self)@.with(sync_dir@, relative@),
    {
        let ghost before = self@;
        let ghost name = relative@;
        self.local.push(join(sync_dir.local_path.as_str(), relative.as_str()));
        self.remote.push(absolute_remote_path(sync_dir, relative.as_str()));
        self.remote.push(relative);
        assert(self@ =~= before.with(sync_dir@, name));
    }

    /// The subtrees that the pass over `sync_dir` leaves alone: other synced
    /// directories on the same remote that sit inside this one's remote
    /// tree, and the user's exclusions, which are relative to its root.
    pub fn collect(
        sync_dir: &SyncDir,
        all_sync_dirs: &Vec<SyncDir>,
        user_exclusions: &Vec<String>,
    ) -> (found: Exclusions)
        ensures
            found@ == all_exclusions(
                sync_dir@,
                text::views(all_sync_dirs@),
                text::views(user_exclusions@),
            ),
    {
        let mut found = Exclusions { local: Vec::new(), remote: Vec::new() };
        let ghost all = text::views(all_sync_dirs@);
        let ghost user = text::views(user_exclusions@);
        let total: usize = all_sync_dirs.len();
        let mut i: usize = 0;
        assert(found@ =~= nested_exclusions(sync_dir@, all.take(0)));
        while i < total
            invariant
                total == all_sync_dirs@.len(),
                all == text::views(all_sync_dirs@),
                i <= total,
                found@ == nested_exclusions(sync_dir@, all.take(i as int)),
            decreases total - i,
        {
            let other = &all_sync_dirs[i];
            proof {
                assert(all.take(i + 1).drop_last() =~= all.take(i as int));
                assert(all.take(i + 1).last() == other@);
            }
            if other.id != sync_dir.id && other.remote_id == sync_dir.remote_id {
                match remote_descendant_relative(sync_dir, other.remote_path.as_str()) {
                    Some(relative) => found.add(sync_dir, relative),
                    None => {},
                }
            }
            i = i + 1;
        }
        let count: usize = user_exclusions.len();
        let mut j: usize = 0;
        assert(all.take(total as int) =~= all);
        assert(user.take(0) =~= Seq::empty());
        while j < count
            invariant
                count == user_exclusions@.len(),
                user == text::views(user_exclusions@),
                j <= count,
                found@ == all_exclusions(sync_dir@, all, user.take(j as int)),
            decreases count - j,
        {
            proof {
                assert(user.take(j + 1).drop_last() =~= user.take(j as int));
                assert(user.take(j + 1).last() == user_exclusions@[j as int]@);
            }
            found.add(sync_dir, user_exclusions[j].clone());
            j = j + 1;
        }
        assert(user.take(count as int) =~= user);
        found
    }
}

/// The recorded rows by their remote path, without those whose local path is
/// excluded. Of rows with one path the last counts.
pub open spec fn rows_by_path(
    rows: Seq<SyncItem<Seq<char>>>,
    prefixes: Seq<Seq<char>>,
) -> Map<Seq<char>, SyncItem<Seq<char>>>
    decreases rows.len(),
{
    if rows.len() == 0 {
        Map::empty()
    } else {
        let before = rows_by_path(rows.drop_last(), prefixes);
        if excluded(rows.last().local_path, prefixes) {
            before
        } else {
            before.insert(rows.last().remote_path, rows.last())
        }
    }
}

/// The listed items by path, without the excluded ones. Of items with one
/// path the last counts.
pub open spec fn items_by_path(
    items: Seq<RemoteItem<Seq<char>>>,
    prefixes: Seq<Seq<char>>,
) -> Map<Seq<char>, RemoteItem<Seq<char>>>
    decreases items.len(),
{
    if items.len() == 0 {
        Map::empty()
    } else {
        let before = items_by_path(items.drop_last(), prefixes);
        if excluded(items.last().path, prefixes) {
            before
        } else {
            before.insert(items.last().path, items.last())
        }
    }
}

/// Drops the rows inside an excluded subtree and files the others by path.
pub fn collect_rows(rows: &Vec<SyncItem>, prefixes: &Vec<String>) -> (found: PathMap<SyncItem>)
    ensures
        found@ == rows_by_path(text::views(rows@), text::views(prefixes@)),
{
    let mut found: PathMap<SyncItem> = PathMap::new();
    let ghost all = text::views(rows@);
    let total: usize = rows.len();
    let mut i: usize = 0;
    assert(all.take(0) =~= Seq::empty());
    while i < total
        invariant
            total == rows@.len(),
            all == text::views(rows@),
            i <= total,
            found@ == rows_by_path(all.take(i as int), text::views(prefixes@)),
        decreases total - i,
    {
        let row = &rows[i];
        proof {
            assert(all.take(i + 1).drop_last() =~= all.take(i as int));
            assert(all.take(i + 1).last() == row@);
        }
        if !path_is_excluded(row.local_path.as_str(), prefixes) {
            let _ = found.insert(row.remote_path.clone(), row.clone());
        }
        i = i + 1;
    }
    assert(all.take(total as int) =~= all);
    found
}

/// Drops the listed items inside an excluded subtree and files the others by
/// path.
pub fn collect_items(items: &Vec<RemoteItem>, prefixes: &Vec<String>) -> (found: PathMap<
    RemoteItem,
>)
    ensures
        found@ == items_by_path(text::views(items@), text::views(prefixes@)),
{
    let mut found: PathMap<RemoteItem> = PathMap::new();
    let ghost all = text::views(items@);
    let total: usize = items.len();
    let mut i: usize = 0;
    assert(all.take(0) =~= Seq::empty());
    while i < total
        invariant
            total == items@.len(),
            all == text::views(items@),
            i <= total,
            found@ == items_by_path(all.take(i as int), text::views(prefixes@)),
        decreases total - i,
    {
        let item = &items[i];
        proof {
            assert(all.take(i + 1).drop_last() =~= all.take(i as int));
            assert(all.take(i + 1).last() == item@);
        }
        if !path_is_excluded(item.path.as_str(), prefixes) {
            let _ = found.insert(item.path.clone(), item.clone());
        }
        i = i + 1;
    }
    assert(all.take(total as int) =~= all);
    found
}

/// The snapshot made of rows, a listing and a walk.
pub open spec fn built(
    exclusions: ExclusionsView,
    rows: Seq<SyncItem<Seq<char>>>,
    items: Seq<RemoteItem<Seq<char>>>,
    walk: WalkView,
) -> SnapshotView {
    SnapshotView {
        remote: items_by_path(items, exclusions.remote),
        local: walk.local,
        db: rows_by_path(rows, exclusions.local),
        walk_unreliable: walk.unreliable,
    }
}

impl Snapshot {
    /// Combines the recorded rows, the remote listing and the local walk,
    /// without what lies in an excluded subtree.
    pub fn build(
        exclusions: &Exclusions,
        rows: &Vec<SyncItem>,
        items: &Vec<RemoteItem>,
        walk: Walk,
    ) -> (snapshot: Snapshot)
        ensures
            snapshot@ == built(
                exclusions@,
                text::views(rows@),
                text::views(items@),
                walk@,
            ),
    {
        Snapshot {
            remote: collect_items(items, &exclusions.remote),
            local: walk.local,
            db: collect_rows(rows, &exclusions.local),
            walk_unreliable: walk.unreliable,
        }
    }
}

proof fn lemma_items_filed(
    items: Seq<RemoteItem<Seq<char>>>,
    prefixes: Seq<Seq<char>>,
    key: Seq<char>,
)
    requires
        items_by_path(items, prefixes).contains_key(key),
    ensures
        items_by_path(items, prefixes)[key].path == key,
        !excluded(key, prefixes),
    decreases items.len(),
{
    if items.len() > 0 {
        if items_by_path(items.drop_last(), prefixes).contains_key(key) {
            lemma_items_filed(items.drop_last(), prefixes, key);
        }
    }
}

proof fn lemma_rows_filed(
    rows: Seq<SyncItem<Seq<char>>>,
    prefixes: Seq<Seq<char>>,
    key: Seq<char>,
)
    requires
        rows_by_path(rows, prefixes).contains_key(key),
    ensures
        rows_by_path(rows, prefixes)[key].remote_path == key,
        !excluded(rows_by_path(rows, prefixes)[key].local_path, prefixes),
    decreases rows.len(),
{
    if rows.len() > 0 {
        if rows_by_path(rows.drop_last(), prefixes).contains_key(key) {
            lemma_rows_filed(rows.drop_last(), prefixes, key);
        }
    }
}

/// In a snapshot every listed item and every row stands under its own remote
/// path, and none of them lies in an excluded subtree.
pub proof fn law_snapshot_is_filed_by_path(
    exclusions: ExclusionsView,
    rows: Seq<SyncItem<Seq<char>>>,
    items: Seq<RemoteItem<Seq<char>>>,
    walk: WalkView,
    key: Seq<char>,
)
    ensures
        ({
            let snap = built(exclusions, rows, items, walk);
            &&& snap.remote.contains_key(key) ==> snap.remote[key].path == key && !excluded(
                key,
                exclusions.remote,
            )
            &&& snap.db.contains_key(key) ==> snap.db[key].remote_path == key && !excluded(
                snap.db[key].local_path,
                exclusions.local,
            )
        }),
{
    if items_by_path(items, exclusions.remote).contains_key(key) {
        lemma_items_filed(items, exclusions.remote, key);
    }
    if rows_by_path(rows, exclusions.local).contains_key(key) {
        lemma_rows_filed(rows, exclusions.local, key);
    }
}

} // verus!
