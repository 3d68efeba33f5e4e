//! What the result of a whole change check means.

use vstd::prelude::*;

use crate::domain::{RemoteItem, SyncDir, SyncItem};
use crate::editor_temp;
use crate::events::Source;
use crate::paths;
use crate::ports::{Next, Reading, Reply, Request, TurnView, WalkedPath};
use crate::should_sync;
use crate::should_sync::{ChangeCheckView, CheckStage};

verus! {

/// All that a check can be told: what the walk finds, what the remote lists,
/// what is recorded, and what is to be learned of each path.
pub struct Scene {
    pub walked: Option<Vec<WalkedPath>>,
    pub listed: Result<Vec<RemoteItem>, String>,
    pub rows: Result<Vec<SyncItem>, String>,
    pub open_time: spec_fn(Seq<char>) -> Reading,
    pub local_time: spec_fn(Seq<char>) -> Reading,
    pub there: spec_fn(Seq<char>) -> bool,
    pub stat: spec_fn(Seq<char>) -> Result<Option<RemoteItem>, String>,
    pub row_by_local: spec_fn(Seq<char>) -> Result<Option<SyncItem>, String>,
    pub row_by_remote: spec_fn(Seq<char>) -> Result<Option<SyncItem>, String>,
}

impl Scene {
    /// What comes of a request.
    pub open spec fn answer(self, request: Request<Seq<char>>) -> Reply {
        match request {
            Request::Walk(_) => Reply::Walked(self.walked),
            Request::OpenTime(path) => Reply::Time((self.open_time)(path)),
            Request::FindByLocal(path) => Reply::Row((self.row_by_local)(path)),
            Request::List { .. } => Reply::Items(self.listed),
            Request::FindByRemote(path) => Reply::Row((self.row_by_remote)(path)),
            Request::ListSyncItems => Reply::Rows(self.rows),
            Request::Stat(path) => Reply::Item((self.stat)(path)),
            Request::Exists(path) => Reply::Flag((self.there)(path)),
            Request::LocalTime(path) => Reply::Time((self.local_time)(path)),
            _ => Reply::Begin,
        }
    }

    /// The paths that the walk finds.
    pub open spec fn paths(self) -> Seq<WalkedPath> {
        match self.walked {
            Some(list) => list@,
            None => Seq::empty(),
        }
    }

    /// The items that the remote lists.
    pub open spec fn items(self) -> Seq<RemoteItem> {
        match self.listed {
            Ok(list) => list@,
            Err(_) => Seq::empty(),
        }
    }

    /// The recorded rows.
    pub open spec fn records(self) -> Seq<SyncItem> {
        match self.rows {
            Ok(list) => list@,
            Err(_) => Seq::empty(),
        }
    }

    /// The records can be read, no recorded local time is negative, and no
    /// time is there that cannot be told.
    pub open spec fn tellable(self) -> bool {
        &&& self.rows is Ok
        &&& forall|path: Seq<char>|
            match #[trigger] (self.row_by_local)(path) {
                Ok(Some(row)) => row.last_local_timestamp >= 0,
                Ok(None) => true,
                Err(_) => false,
            }
        &&& forall|path: Seq<char>| (#[trigger] (self.row_by_remote)(path)) is Ok
        &&& forall|path: Seq<char>| (#[trigger] (self.open_time)(path)) !is Unreadable
        &&& forall|path: Seq<char>| (#[trigger] (self.local_time)(path)) !is Unreadable
    }

    /// A walked path is an editor's temp file, or it can be opened and is
    /// recorded with its time.
    pub open spec fn path_same(self, walked: WalkedPath) -> bool {
        walked matches WalkedPath::At(path) && {
            ||| editor_temp::editor_temp(paths::last_part(path@))
            ||| (self.open_time)(path@) matches Reading::At(time) && (self.row_by_local)(
                path@,
            ) matches Ok(Some(row)) && row.last_local_timestamp == time
        }
    }

    /// A listed item is recorded with its time.
    pub open spec fn item_same(self, item: RemoteItem) -> bool {
        (self.row_by_remote)(item.path@) matches Ok(Some(row)) && row.last_remote_timestamp
            == item.mod_time
    }

    /// The time of a row's item on the remote.
    pub open spec fn remote_time(self, row: SyncItem) -> Option<i64> {
        should_sync::remote_time_of(
            (self.stat)(row.remote_path@),
            self.items(),
            row.remote_path@,
        )
    }

    /// A row's item is gone on both sides, as far as can be told: the remote
    /// gives no time for it, and there is no file.
    pub open spec fn row_gone(self, row: SyncItem) -> bool {
        self.remote_time(row) is None && !(self.there)(row.local_path@)
    }

    /// A row's item is on both sides as recorded.
    pub open spec fn row_same(self, row: SyncItem) -> bool {
        &&& self.remote_time(row) == Some(row.last_remote_timestamp)
        &&& (self.local_time)(row.local_path@) matches Reading::At(time) && time
            == row.last_local_timestamp
    }

    /// The local side can be walked, and everything found there is as
    /// recorded.
    pub open spec fn paths_same(self) -> bool {
        self.walked is Some && forall|i: int|
            0 <= i < self.paths().len() ==> self.path_same(#[trigger] self.paths()[i])
    }

    /// The remote side can be listed, and everything listed is as recorded.
    pub open spec fn items_same(self) -> bool {
        self.listed is Ok && forall|i: int|
            0 <= i < self.items().len() ==> self.item_same(#[trigger] self.items()[i])
    }

    /// Everything recorded is as recorded on both sides, or gone on both.
    pub open spec fn rows_same(self) -> bool {
        forall|i: int|
            0 <= i < self.records().len() ==> self.row_same(#[trigger] self.records()[i])
                || self.row_gone(self.records()[i])
    }

    /// Nothing changed since the last sync.
    pub open spec fn unchanged(self) -> bool {
        self.paths_same() && self.items_same() && self.rows_same()
    }

    /// How many replies a check needs at most.
    pub open spec fn bound(self) -> nat {
        2 * self.paths().len() + self.items().len() + 3 * self.records().len() + 3
    }
}

/// The check and its last turn after it was started and `replies` questions
/// were answered from the scene; once it asks nothing more it stays as it is.
pub open spec fn checked(start: ChangeCheckView, scene: Scene, replies: nat) -> (
    ChangeCheckView,
    TurnView<bool>,
)
    decreases replies,
{
    if replies == 0 {
        start.next(Reply::Begin)
    } else {
        let (check, turn) = checked(start, scene, (replies - 1) as nat);
        match turn.next {
            Next::Ask(request) => check.next(scene.answer(request)),
            _ => (check, turn),
        }
    }
}

/// What a check asks at its stage.
spec fn asked(check: ChangeCheckView) -> Request<Seq<char>> {
    match check.stage {
        CheckStage::Walk => Request::Walk(paths::joined(check.sync_dir.local_path, "**/*"@)),
        CheckStage::PathTime => Request::OpenTime(check.paths[check.index]->At_0@),
        CheckStage::PathRow { .. } => Request::FindByLocal(check.paths[check.index]->At_0@),
        CheckStage::List => Request::List { path: check.sync_dir.remote_path, recursive: true },
        CheckStage::ItemRow => Request::FindByRemote(check.items[check.index].path@),
        CheckStage::RowStat => Request::Stat(check.rows[check.index].remote_path@),
        CheckStage::RowExists { .. } => Request::Exists(check.rows[check.index].local_path@),
        CheckStage::RowTime { .. } => Request::LocalTime(check.rows[check.index].local_path@),
        _ => Request::ListSyncItems,
    }
}

/// All paths before the one at hand are as recorded.
spec fn paths_so_far(check: ChangeCheckView, scene: Scene) -> bool {
    &&& scene.walked is Some
    &&& check.paths == scene.paths()
    &&& !check.changed
    &&& check.items.len() == 0
    &&& 0 <= check.index <= check.paths.len()
    &&& forall|i: int| 0 <= i < check.index ==> scene.path_same(#[trigger] check.paths[i])
}

/// All items before the one at hand are as recorded.
spec fn items_so_far(check: ChangeCheckView, scene: Scene) -> bool {
    &&& scene.listed is Ok
    &&& check.items == scene.items()
    &&& check.changed == !scene.paths_same()
    &&& 0 <= check.index <= check.items.len()
    &&& forall|i: int| 0 <= i < check.index ==> scene.item_same(#[trigger] check.items[i])
}

/// All rows before the one at hand are as recorded, or gone.
spec fn rows_so_far(check: ChangeCheckView, scene: Scene) -> bool {
    &&& scene.rows is Ok
    &&& check.items == scene.items()
    &&& check.rows == scene.records()
    &&& check.changed == !(scene.paths_same() && scene.items_same())
    &&& 0 <= check.index <= check.rows.len()
    &&& forall|i: int|
        0 <= i < check.index ==> scene.row_same(#[trigger] check.rows[i]) || scene.row_gone(
            check.rows[i],
        )
}

/// What holds while a check waits for a reply.
spec fn on_track(check: ChangeCheckView, scene: Scene) -> bool {
    match check.stage {
        CheckStage::Walk => !check.changed && check.items.len() == 0,
        CheckStage::PathTime => {
            &&& paths_so_far(check, scene)
            &&& check.index < check.paths.len()
            &&& check.paths[check.index] matches WalkedPath::At(path)
                && !editor_temp::editor_temp(paths::last_part(path@))
        },
        CheckStage::PathRow { local_time } => {
            &&& paths_so_far(check, scene)
            &&& check.index < check.paths.len()
            &&& check.paths[check.index] matches WalkedPath::At(path) && (scene.open_time)(path@)
                == Reading::At(local_time) && !editor_temp::editor_temp(paths::last_part(path@))
        },
        CheckStage::List => check.changed == !scene.paths_same() && check.items.len() == 0,
        CheckStage::ItemRow => items_so_far(check, scene) && check.index < check.items.len(),
        CheckStage::Rows => {
            &&& check.items == scene.items()
            &&& check.changed == !(scene.paths_same() && scene.items_same())
        },
        CheckStage::RowStat => rows_so_far(check, scene) && check.index < check.rows.len(),
        CheckStage::RowExists { remote_time } => {
            &&& rows_so_far(check, scene)
            &&& check.index < check.rows.len()
            &&& remote_time == scene.remote_time(check.rows[check.index])
        },
        CheckStage::RowTime { time } => {
            &&& rows_so_far(check, scene)
            &&& check.index < check.rows.len()
            &&& scene.remote_time(check.rows[check.index]) == Some(time)
        },
        _ => false,
    }
}

/// How many replies a check still needs at most.
spec fn rank(check: ChangeCheckView, scene: Scene) -> int {
    let rows = 3 * scene.records().len() as int;
    let items = scene.items().len() as int;
    match check.stage {
        CheckStage::Walk => 2 * scene.paths().len() as int + items + rows + 3,
        CheckStage::PathTime => 2 * (check.paths.len() - check.index) + items + rows + 2,
        CheckStage::PathRow { .. } => 2 * (check.paths.len() - check.index) + items + rows + 1,
        CheckStage::List => items + rows + 2,
        CheckStage::ItemRow => check.items.len() - check.index + rows + 1,
        CheckStage::Rows => rows + 1,
        CheckStage::RowStat => 3 * (check.rows.len() - check.index),
        CheckStage::RowExists { .. } => 3 * (check.rows.len() - check.index) - 1,
        CheckStage::RowTime { .. } => 3 * (check.rows.len() - check.index) - 2,
        _ => 0,
    }
}

/// The check came to this state and turn with at most `left` replies to come,
/// or to the right result, or it gave up on a scene that cannot be told.
spec fn sound(check: ChangeCheckView, turn: TurnView<bool>, scene: Scene, left: int) -> bool {
    match turn.next {
        Next::Ask(request) => {
            &&& request == asked(check)
            &&& on_track(check, scene)
            &&& 0 < rank(check, scene) <= left
        },
        Next::Done(result) => result == !scene.unchanged(),
        Next::Fault => !scene.tellable(),
    }
}

proof fn lemma_looks_at_path(check: ChangeCheckView, scene: Scene)
    requires
        paths_so_far(check, scene),
    ensures
        sound(
            check.look_at_path().0,
            check.look_at_path().1,
            scene,
            2 * (check.paths.len() - check.index) + scene.items().len() + 3
                * scene.records().len() + 2,
        ),
    decreases check.paths.len() - check.index,
{
    if check.index < check.paths.len() {
        match check.paths[check.index] {
            WalkedPath::At(path) => {
                if editor_temp::editor_temp(paths::last_part(path@)) {
                    assert(scene.path_same(check.paths[check.index]));
                    lemma_looks_at_path(check.advanced(), scene);
                }
            },
            WalkedPath::Broken => {
                assert(!scene.path_same(scene.paths()[check.index]));
            },
        }
    } else {
        assert(scene.paths_same());
    }
}

proof fn lemma_looks_at_item(check: ChangeCheckView, scene: Scene)
    requires
        items_so_far(check, scene),
    ensures
        sound(
            check.look_at_item().0,
            check.look_at_item().1,
            scene,
            check.items.len() - check.index + 3 * scene.records().len() + 1,
        ),
{
    if check.index >= check.items.len() {
        assert(scene.items_same());
    }
}

proof fn lemma_path_step(check: ChangeCheckView, scene: Scene)
    requires
        on_track(check, scene),
        check.stage is PathTime || check.stage is PathRow,
    ensures
        ({
            let (after, turn) = check.next(scene.answer(asked(check)));
            sound(after, turn, scene, rank(check, scene) - 1)
        }),
{
    let path = check.paths[check.index]->At_0;
    let walked = scene.paths()[check.index];
    match check.stage {
        CheckStage::PathTime => {
            if (scene.open_time)(path@) is Missing {
                assert(!scene.path_same(walked));
                assert(!scene.paths_same());
            }
        },
        CheckStage::PathRow { local_time } => {
            match (scene.row_by_local)(path@) {
                Ok(Some(row)) => {
                    if row.last_local_timestamp == local_time {
                        assert(scene.path_same(walked));
                        lemma_looks_at_path(check.advanced(), scene);
                    } else {
                        assert(!scene.path_same(walked));
                        assert(!scene.paths_same());
                    }
                },
                _ => {
                    assert(!scene.path_same(walked));
                    assert(!scene.paths_same());
                },
            }
        },
        _ => {},
    }
}

proof fn lemma_item_step(check: ChangeCheckView, scene: Scene)
    requires
        on_track(check, scene),
        check.stage is ItemRow,
    ensures
        ({
            let (after, turn) = check.next(scene.answer(asked(check)));
            sound(after, turn, scene, rank(check, scene) - 1)
        }),
{
    let item = scene.items()[check.index];
    if scene.item_same(item) {
        lemma_looks_at_item(check.advanced(), scene);
    } else {
        assert(!scene.items_same());
    }
}

proof fn lemma_row_step(check: ChangeCheckView, scene: Scene)
    requires
        on_track(check, scene),
        check.stage is RowStat || check.stage is RowExists || check.stage is RowTime,
    ensures
        ({
            let (after, turn) = check.next(scene.answer(asked(check)));
            sound(after, turn, scene, rank(check, scene) - 1)
        }),
{
    let row = scene.records()[check.index];
    if !(scene.row_same(row) || scene.row_gone(row)) {
        assert(!scene.rows_same());
    } else if check.index + 1 == check.rows.len() {
        assert(check.stage is RowExists && scene.row_gone(row) || check.stage is RowTime
            && scene.row_same(row) ==> scene.rows_same());
    }
}

proof fn lemma_step(check: ChangeCheckView, scene: Scene)
    requires
        on_track(check, scene),
    ensures
        ({
            let (after, turn) = check.next(scene.answer(asked(check)));
            sound(after, turn, scene, rank(check, scene) - 1)
        }),
{
    match check.stage {
        CheckStage::Walk => {
            match scene.walked {
                Some(list) => {
                    let start = ChangeCheckView { paths: list@, index: 0, ..check };
                    lemma_looks_at_path(start, scene);
                },
                None => {},
            }
        },
        CheckStage::PathTime | CheckStage::PathRow { .. } => {
            lemma_path_step(check, scene);
        },
        CheckStage::List => {
            match scene.listed {
                Ok(list) => {
                    let start = ChangeCheckView { items: list@, index: 0, ..check };
                    lemma_looks_at_item(start, scene);
                },
                Err(_) => {
                    assert(check.items =~= scene.items());
                },
            }
        },
        CheckStage::ItemRow => {
            lemma_item_step(check, scene);
        },
        CheckStage::Rows => {
            if scene.records().len() == 0 {
                assert(scene.rows_same());
            }
        },
        _ => {
            lemma_row_step(check, scene);
        },
    }
}

proof fn lemma_run(source: Source, dir: SyncDir<Seq<char>>, scene: Scene, replies: nat)
    ensures
        ({
            let (check, turn) = checked(ChangeCheckView::fresh(source, dir), scene, replies);
            sound(check, turn, scene, scene.bound() - replies)
        }),
    decreases replies,
{
    if replies > 0 {
        lemma_run(source, dir, scene, (replies - 1) as nat);
        let start = ChangeCheckView::fresh(source, dir);
        let (check, turn) = checked(start, scene, (replies - 1) as nat);
        if turn.next is Ask {
            lemma_step(check, scene);
        }
    }
}

/// The result of a whole run is whether anything changed since the last sync.
/// It is "unchanged" exactly where everything that the walk finds, but for
/// editors' temp files, is recorded with its time, everything that the remote
/// lists is recorded with its time, and everything recorded is on both sides
/// as recorded, or gone on both as far as can be told.
pub proof fn law_result_is_whether_anything_changed(
    source: Source,
    dir: SyncDir<Seq<char>>,
    scene: Scene,
    replies: nat,
    result: bool,
)
    requires
        checked(ChangeCheckView::fresh(source, dir), scene, replies).1.next == Next::<
            bool,
            Seq<char>,
        >::Done(result),
    ensures
        result == !scene.unchanged(),
{
    lemma_run(source, dir, scene, replies);
}

/// Every run ends and tells whether anything changed: two replies for each
/// walked path, one for each listed item, three for each row and three more
/// are enough, unless the records cannot be read or a time cannot be told.
pub proof fn law_every_run_ends(
    source: Source,
    dir: SyncDir<Seq<char>>,
    scene: Scene,
    replies: nat,
)
    requires
        replies >= scene.bound(),
        scene.tellable(),
    ensures
        checked(ChangeCheckView::fresh(source, dir), scene, replies).1.next == Next::<
            bool,
            Seq<char>,
        >::Done(!scene.unchanged()),
{
    lemma_run(source, dir, scene, replies);
}

} // verus!
