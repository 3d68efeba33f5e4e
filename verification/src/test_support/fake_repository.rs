//! Recorded rows, in memory.

use vstd::prelude::*;

use crate::domain::{SyncDirId, SyncItem, SyncItemId};
use crate::paths;
use crate::paths::is_within;
use crate::text;
use crate::text::same;
use crate::text_laws;

verus! {

/// Picks rows.
pub enum Selector<'a> {
    Id(SyncItemId),
    Directory(SyncDirId),
    Paths(SyncDirId, &'a str, &'a str),
    Local(SyncDirId, &'a str),
    Remote(SyncDirId, &'a str),
    /// Rows whose local path is the path, or lies below it.
    Under(SyncDirId, &'a str),
}

impl<'a> Selector<'a> {
    /// The row is picked.
    pub open spec fn picks(self, item: SyncItem<Seq<char>>) -> bool {
        match self {
            Selector::Id(id) => item.id == id,
            Selector::Directory(sd) => item.sync_dir_id == sd,
            Selector::Paths(sd, local, remote) => item.sync_dir_id == sd && item.local_path
                == local@ && item.remote_path == remote@,
            Selector::Local(sd, local) => item.sync_dir_id == sd && item.local_path == local@,
            Selector::Remote(sd, remote) => item.sync_dir_id == sd && item.remote_path == remote@,
            Selector::Under(sd, top) => item.sync_dir_id == sd && paths::within(
                item.local_path,
                top@,
            ),
        }
    }

    fn picked(&self, item: &SyncItem) -> (picked: bool)
        ensures
            picked == self.picks(item@),
    {
        match *self {
            Selector::Id(id) => item.id == id,
            Selector::Directory(sd) => item.sync_dir_id == sd,
            Selector::Paths(sd, local, remote) => item.sync_dir_id == sd && same(
                item.local_path.as_str(),
                local,
            ) && same(item.remote_path.as_str(), remote),
            Selector::Local(sd, local) => item.sync_dir_id == sd && same(
                item.local_path.as_str(),
                local,
            ),
            Selector::Remote(sd, remote) => item.sync_dir_id == sd && same(
                item.remote_path.as_str(),
                remote,
            ),
            Selector::Under(sd, top) => item.sync_dir_id == sd && is_within(
                item.local_path.as_str(),
                top,
            ),
        }
    }
}

/// The rows that a selector picks, in their order.
pub open spec fn chosen(items: Seq<SyncItem<Seq<char>>>, which: Selector) -> Seq<
    SyncItem<Seq<char>>,
> {
    items.filter(|item: SyncItem<Seq<char>>| which.picks(item))
}

/// The rows that a selector leaves, in their order.
pub open spec fn left(items: Seq<SyncItem<Seq<char>>>, which: Selector) -> Seq<
    SyncItem<Seq<char>>,
> {
    items.filter(|item: SyncItem<Seq<char>>| !which.picks(item))
}

/// The place of the first row that a selector picks; the number of rows
/// where it picks none.
pub open spec fn place_of(items: Seq<SyncItem<Seq<char>>>, which: Selector) -> int
    decreases items.len(),
{
    if items.len() == 0 || which.picks(items[0]) {
        0
    } else {
        1 + place_of(items.drop_first(), which)
    }
}

/// The first row that a selector picks.
pub open spec fn first(items: Seq<SyncItem<Seq<char>>>, which: Selector) -> Option<
    SyncItem<Seq<char>>,
> {
    let place = place_of(items, which);
    if 0 <= place < items.len() {
        Some(items[place])
    } else {
        None
    }
}

proof fn lemma_place(items: Seq<SyncItem<Seq<char>>>, which: Selector, place: int)
    requires
        0 <= place <= items.len(),
        forall|i: int| 0 <= i < place ==> !which.picks(#[trigger] items[i]),
        place < items.len() ==> which.picks(items[place]),
    ensures
        place_of(items, which) == place,
    decreases items.len(),
{
    if place > 0 {
        assert(!which.picks(items[0]));
        let rest = items.drop_first();
        assert forall|i: int| 0 <= i < place - 1 implies !which.picks(#[trigger] rest[i]) by {
            assert(rest[i] == items[i + 1]);
        }
        lemma_place(rest, which, place - 1);
    }
}

/// The rows recorded at the last sync.
pub struct FakeRepo {
    pub items: Vec<SyncItem>,
    /// The id given last.
    pub next_id: i32,
    /// Whether synced directories are still wanted.
    pub sync_dir_exists: bool,
}

/// What a [`FakeRepo`] holds.
#[verifier::ext_equal]
pub struct FakeRepoView {
    pub items: Seq<SyncItem<Seq<char>>>,
    pub next_id: int,
    pub sync_dir_exists: bool,
}

impl View for FakeRepo {
    type V = FakeRepoView;

    open spec fn view(&self) -> FakeRepoView {
        FakeRepoView {
            items: text::views(self.items@),
            next_id: self.next_id as int,
            sync_dir_exists: self.sync_dir_exists,
        }
    }
}

impl Default for FakeRepo {
    /// Without rows, and with synced directories that are no longer wanted.
    fn default() -> (repo: FakeRepo)
        ensures
            repo@ == (FakeRepoView { items: Seq::empty(), next_id: 0, sync_dir_exists: false }),
    {
        let repo = FakeRepo { items: Vec::new(), next_id: 0, sync_dir_exists: false };
        assert(repo@.items =~= Seq::empty());
        repo
    }
}

impl FakeRepo {
    /// Without rows.
    pub fn new() -> (repo: FakeRepo)
        ensures
            repo@ == (FakeRepoView { items: Seq::empty(), next_id: 0, sync_dir_exists: true }),
    {
        let repo = FakeRepo { items: Vec::new(), next_id: 0, sync_dir_exists: true };
        assert(repo@.items =~= Seq::empty());
        repo
    }

    /// Records a row under the next id.
    pub fn insert_item(
        &mut self,
        sync_dir_id: SyncDirId,
        local_path: &str,
        remote_path: &str,
        local_ts: i64,
        remote_ts: i64,
    ) -> (id: SyncItemId)
        requires
            old(self).next_id < i32::MAX,
        ensures
            id == SyncItemId((old(self).next_id + 1) as i32),
            final(self)@ == (FakeRepoView {
                items: old(self)@.items.push(
                    SyncItem {
                        id,
                        sync_dir_id,
                        local_path: local_path@,
                        remote_path: remote_path@,
                        last_local_timestamp: local_ts,
                        last_remote_timestamp: remote_ts,
                    },
                ),
                next_id: old(self)@.next_id + 1,
                ..old(self)@
            }),
    {
        self.next_id = self.next_id + 1;
        let id = SyncItemId(self.next_id);
        self.items.push(
            SyncItem {
                id,
                sync_dir_id,
                local_path: local_path.to_owned(),
                remote_path: remote_path.to_owned(),
                last_local_timestamp: local_ts,
                last_remote_timestamp: remote_ts,
            },
        );
        assert(self@.items =~= old(self)@.items.push(self@.items.last()));
        id
    }

    /// Records a row, whatever its id.
    pub fn insert_sync_item(
        &mut self,
        sd: SyncDirId,
        local: String,
        remote: String,
        lt: i64,
        rt: i64,
    )
        requires
            old(self).next_id < i32::MAX,
        ensures
            final(self)@ == (FakeRepoView {
                items: old(self)@.items.push(
                    SyncItem {
                        id: SyncItemId((old(self).next_id + 1) as i32),
                        sync_dir_id: sd,
                        local_path: local@,
                        remote_path: remote@,
                        last_local_timestamp: lt,
                        last_remote_timestamp: rt,
                    },
                ),
                next_id: old(self)@.next_id + 1,
                ..old(self)@
            }),
    {
        let _ = self.insert_item(sd, local.as_str(), remote.as_str(), lt, rt);
    }

    /// The number of rows.
    pub fn item_count(&self) -> (count: usize)
        ensures
            count == self@.items.len(),
    {
        self.items.len()
    }

    /// Is there a row with both paths?
    pub fn has_item(&self, local_path: &str, remote_path: &str) -> (found: bool)
        ensures
            found == exists|i: int|
                0 <= i < self@.items.len() && (#[trigger] self@.items[i]).local_path == local_path@
                    && self@.items[i].remote_path == remote_path@,
    {
        let total: usize = self.items.len();
        let mut i: usize = 0;
        while i < total
            invariant
                i <= total,
                total == self@.items.len(),
                forall|j: int|
                    0 <= j < i ==> !((#[trigger] self@.items[j]).local_path == local_path@
                        && self@.items[j].remote_path == remote_path@),
            decreases total - i,
        {
            let item = &self.items[i];
            assert(self@.items[i as int] == item@);
            if same(item.local_path.as_str(), local_path) && same(
                item.remote_path.as_str(),
                remote_path,
            ) {
                return true;
            }
            i = i + 1;
        }
        false
    }

    fn place(&self, which: &Selector) -> (place: usize)
        ensures
            place == place_of(self@.items, *which),
            place <= self@.items.len(),
    {
        let total: usize = self.items.len();
        let mut i: usize = 0;
        while i < total
            invariant
                i <= total,
                total == self@.items.len(),
                forall|j: int| 0 <= j < i ==> !which.picks(#[trigger] self@.items[j]),
            decreases total - i,
        {
            assert(self@.items[i as int] == self.items@[i as int]@);
            if which.picked(&self.items[i]) {
                proof {
                    lemma_place(self@.items, *which, i as int);
                }
                return i;
            }
            i = i + 1;
        }
        proof {
            lemma_place(self@.items, *which, i as int);
        }
        total
    }

    fn find(&self, which: Selector) -> (found: Option<SyncItem>)
        ensures
            text::opt_view(found) == first(self@.items, which),
    {
        let place: usize = self.place(&which);
        if place < self.items.len() {
            assert(self@.items[place as int] == self.items@[place as int]@);
            Some(self.items[place].clone())
        } else {
            None
        }
    }

    fn discard(&mut self, which: Selector)
        ensures
            final(self)@ == (FakeRepoView { items: left(old(self)@.items, which), ..old(self)@ }),
    {
        let total: usize = self.items.len();
        let ghost all = self@.items;
        let mut kept: Vec<SyncItem> = Vec::new();
        let mut i: usize = 0;
        assert(text::views(kept@) =~= left(all.take(0), which));
        while i < total
            invariant
                i <= total,
                total == all.len(),
                self@.items == all,
                self@ == old(self)@,
                text::views(kept@) == left(all.take(i as int), which),
            decreases total - i,
        {
            assert(all[i as int] == self.items@[i as int]@);
            proof {
                reveal(Seq::filter);
                assert(all.take(i + 1).drop_last() =~= all.take(i as int));
                assert(all.take(i + 1).last() == all[i as int]);
            }
            if !which.picked(&self.items[i]) {
                kept.push(self.items[i].clone());
            }
            assert(text::views(kept@) =~= left(all.take(i + 1), which));
            i = i + 1;
        }
        assert(all.take(total as int) =~= all);
        self.items = kept;
    }

    /// The rows of a synced directory, in the order in which they were
    /// recorded.
    pub fn list_sync_items(&self, sd: SyncDirId) -> (list: Vec<SyncItem>)
        ensures
            text::views(list@) == chosen(self@.items, Selector::Directory(sd)),
    {
        let which = Selector::Directory(sd);
        let total: usize = self.items.len();
        let ghost all = self@.items;
        let mut list: Vec<SyncItem> = Vec::new();
        let mut i: usize = 0;
        assert(text::views(list@) =~= chosen(all.take(0), which));
        while i < total
            invariant
                i <= total,
                total == all.len(),
                self@.items == all,
                text::views(list@) == chosen(all.take(i as int), which),
            decreases total - i,
        {
            assert(all[i as int] == self.items@[i as int]@);
            proof {
                reveal(Seq::filter);
                assert(all.take(i + 1).drop_last() =~= all.take(i as int));
                assert(all.take(i + 1).last() == all[i as int]);
            }
            if which.picked(&self.items[i]) {
                list.push(self.items[i].clone());
            }
            assert(text::views(list@) =~= chosen(all.take(i + 1), which));
            i = i + 1;
        }
        assert(all.take(total as int) =~= all);
        list
    }

    /// The first row of a synced directory with both paths.
    pub fn find_sync_item_by_paths(&self, sd: SyncDirId, local: &str, remote: &str) -> (found:
        Option<SyncItem>)
        ensures
            text::opt_view(found) == first(self@.items, Selector::Paths(sd, local, remote)),
    {
        self.find(Selector::Paths(sd, local, remote))
    }

    /// The first row of a synced directory with the local path.
    pub fn find_sync_item_by_local(&self, sd: SyncDirId, local: &str) -> (found: Option<SyncItem>)
        ensures
            text::opt_view(found) == first(self@.items, Selector::Local(sd, local)),
    {
        self.find(Selector::Local(sd, local))
    }

    /// The first row of a synced directory with the remote path.
    pub fn find_sync_item_by_remote(&self, sd: SyncDirId, remote: &str) -> (found: Option<SyncItem>)
        ensures
            text::opt_view(found) == first(self@.items, Selector::Remote(sd, remote)),
    {
        self.find(Selector::Remote(sd, remote))
    }

    /// Gives the first row with the id new timestamps; without such a row
    /// nothing changes.
    pub fn update_sync_item_timestamps(&mut self, id: SyncItemId, lt: i64, rt: i64)
        ensures
            final(self)@ == (match first(old(self)@.items, Selector::Id(id)) {
                Some(item) => FakeRepoView {
                    items: old(self)@.items.update(
                        place_of(old(self)@.items, Selector::Id(id)),
                        SyncItem { last_local_timestamp: lt, last_remote_timestamp: rt, ..item },
                    ),
                    ..old(self)@
                },
                None => old(self)@,
            }),
    {
        let place: usize = self.place(&Selector::Id(id));
        if place < self.items.len() {
            assert(self@.items[place as int] == self.items@[place as int]@);
            let mut item = self.items[place].clone();
            item.last_local_timestamp = lt;
            item.last_remote_timestamp = rt;
            self.items.set(place, item);
            assert(self@.items =~= old(self)@.items.update(place as int, item@));
        }
    }

    /// Deletes every row with the id.
    pub fn delete_sync_item(&mut self, id: SyncItemId)
        ensures
            final(self)@ == (FakeRepoView {
                items: left(old(self)@.items, Selector::Id(id)),
                ..old(self)@
            }),
    {
        self.discard(Selector::Id(id))
    }

    /// Deletes every row of a synced directory with both paths.
    pub fn delete_sync_item_by_paths(&mut self, sd: SyncDirId, local: &str, remote: &str)
        ensures
            final(self)@ == (FakeRepoView {
                items: left(old(self)@.items, Selector::Paths(sd, local, remote)),
                ..old(self)@
            }),
    {
        self.discard(Selector::Paths(sd, local, remote))
    }

    /// Deletes every row of a synced directory at the local path or below
    /// it.
    pub fn delete_sync_items_with_local_prefix(&mut self, sd: SyncDirId, prefix: &str)
        ensures
            final(self)@ == (FakeRepoView {
                items: left(old(self)@.items, Selector::Under(sd, prefix)),
                ..old(self)@
            }),
    {
        self.discard(Selector::Under(sd, prefix))
    }
}

/// A row recorded under two paths is found by them: the row itself, where
/// none was recorded under them before.
pub proof fn law_recorded_row_is_found(
    items: Seq<SyncItem<Seq<char>>>,
    row: SyncItem<Seq<char>>,
    local: &str,
    remote: &str,
)
    requires
        row.local_path == local@,
        row.remote_path == remote@,
    ensures
        first(items.push(row), Selector::Paths(row.sync_dir_id, local, remote)) == (match first(
            items,
            Selector::Paths(row.sync_dir_id, local, remote),
        ) {
            Some(earlier) => Some(earlier),
            None => Some(row),
        }),
    decreases items.len(),
{
    let which = Selector::Paths(row.sync_dir_id, local, remote);
    if items.len() == 0 {
        lemma_place(items.push(row), which, 0);
    } else if !which.picks(items[0]) {
        law_recorded_row_is_found(items.drop_first(), row, local, remote);
        assert(items.push(row).drop_first() =~= items.drop_first().push(row));
        lemma_place_within(items.drop_first(), which);
        lemma_place_within(items.drop_first().push(row), which);
    }
}

proof fn lemma_place_within(items: Seq<SyncItem<Seq<char>>>, which: Selector)
    ensures
        0 <= place_of(items, which) <= items.len(),
    decreases items.len(),
{
    if items.len() > 0 && !which.picks(items[0]) {
        lemma_place_within(items.drop_first(), which);
    }
}

/// What a selector picks is gone once it has been discarded, and nothing
/// else is.
pub proof fn law_discarded_rows_are_gone(
    items: Seq<SyncItem<Seq<char>>>,
    which: Selector,
    row: SyncItem<Seq<char>>,
)
    ensures
        left(items, which).contains(row) <==> items.contains(row) && !which.picks(row),
    decreases items.len(),
{
    reveal(Seq::filter);
    if items.len() > 0 {
        let before = items.drop_last();
        law_discarded_rows_are_gone(before, which, row);
        let kept = left(before, which);
        assert(items.contains(row) <==> before.contains(row) || row == items.last()) by {
            assert(items =~= before.push(items.last()));
            if before.contains(row) {
                let i = before.index_of(row);
                assert(items[i] == row);
            }
            assert(items[items.len() - 1] == items.last());
            if items.contains(row) {
                let i = items.index_of(row);
                if i < before.len() {
                    assert(before[i] == row);
                }
            }
        }
        if !which.picks(items.last()) {
            let whole = kept.push(items.last());
            assert(left(items, which) =~= whole);
            assert(whole[kept.len() as int] == items.last());
            if kept.contains(row) {
                let i = kept.index_of(row);
                assert(whole[i] == row);
            }
            if whole.contains(row) {
                let i = whole.index_of(row);
                if i < kept.len() {
                    assert(kept[i] == row);
                }
            }
        } else {
            assert(left(items, which) =~= kept);
        }
    }
}

/// The row that is found is picked, and none before it is; none is found
/// exactly where none is picked.
pub proof fn law_the_first_picked_row_is_found(
    items: Seq<SyncItem<Seq<char>>>,
    which: Selector,
    i: int,
)
    ensures
        0 <= i < items.len() && which.picks(items[i]) && (forall|k: int|
            0 <= k < i ==> !which.picks(#[trigger] items[k])) ==> first(items, which) == Some(
            items[i],
        ),
        (forall|k: int| 0 <= k < items.len() ==> !which.picks(#[trigger] items[k])) ==> first(
            items,
            which,
        ) is None,
{
    if 0 <= i < items.len() && which.picks(items[i]) && (forall|k: int|
        0 <= k < i ==> !which.picks(#[trigger] items[k])) {
        lemma_place(items, which, i);
    }
    if forall|k: int| 0 <= k < items.len() ==> !which.picks(#[trigger] items[k]) {
        lemma_place(items, which, items.len() as int);
    }
}

/// Rows of another synced directory are never picked by their paths, nor are
/// rows with other paths; a directory picks all of its rows, and a path all of
/// the rows at it or below it.
pub proof fn law_what_selectors_pick(
    row: SyncItem<Seq<char>>,
    id: SyncItemId,
    sd: SyncDirId,
    local: &str,
    remote: &str,
)
    ensures
        Selector::Id(id).picks(row) <==> row.id == id,
        Selector::Directory(sd).picks(row) <==> row.sync_dir_id == sd,
        Selector::Paths(sd, local, remote).picks(row) <==> Selector::Local(sd, local).picks(row)
            && Selector::Remote(sd, remote).picks(row),
        Selector::Local(sd, local).picks(row) <==> row.sync_dir_id == sd && row.local_path
            == local@,
        Selector::Remote(sd, remote).picks(row) <==> row.sync_dir_id == sd && row.remote_path
            == remote@,
        Selector::Under(sd, local).picks(row) <==> row.sync_dir_id == sd && (row.local_path
            == local@ || exists|rest: Seq<char>|
            row.local_path == #[trigger] (local@ + seq!['/'] + rest)),
{
    text_laws::law_joined_parts(local@, remote@, row.local_path);
}

/// The rows of a list that are picked are all there, and no others.
pub proof fn law_chosen_rows(
    items: Seq<SyncItem<Seq<char>>>,
    which: Selector,
    row: SyncItem<Seq<char>>,
)
    ensures
        chosen(items, which).contains(row) <==> items.contains(row) && which.picks(row),
{
    broadcast use vstd::seq_lib::group_filter_ensures;

    let picked = |item: SyncItem<Seq<char>>| which.picks(item);
    let found = items.filter(picked);
    if items.contains(row) && which.picks(row) {
        let i = items.index_of(row);
        assert(picked(items[i]));
        assert(found.contains(items[i]));
    }
    if found.contains(row) {
        let k = found.index_of(row);
        assert(picked(found[k]));
        items.lemma_filter_contains_rev(picked, row);
    }
}

} // verus!
