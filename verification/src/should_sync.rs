//! Has anything under a synced directory changed since the last successful
//! sync? Runs before the real sync work and gates it. What its result means
//! is stated in [`crate::change_laws`].

use vstd::prelude::*;

use crate::domain::{Message, Remote, RemoteItem, SyncDir, SyncItem};
use crate::editor_temp;
use crate::editor_temp::is_editor_temp;
use crate::events::Source;
use crate::paths;
use crate::paths::{join, name_of};
use crate::ports;
use crate::ports::{
    add_effect, no_effects, one_effect, Effect, Next, Reading, Reply, Request, Turn, TurnView,
    WalkedPath,
};
use crate::text;
use crate::text::same;
use crate::text_laws;

verus! {

/// What was asked last.
#[derive(Clone, Copy, Debug, PartialEq, Eq, Structural)]
pub enum CheckStage {
    Start,
    Walk,
    PathTime,
    PathRow { local_time: u64 },
    List,
    ItemRow,
    Rows,
    RowStat,
    RowExists { remote_time: Option<i64> },
    RowTime { time: i64 },
    Over,
}

/// Finds out whether anything changed: first the local files, then the
/// remote ones, then the recorded rows, which tell of what was removed.
pub struct ChangeCheck {
    pub source: Source,
    pub sync_dir: SyncDir,
    pub stage: CheckStage,
    /// Something changed.
    pub changed: bool,
    pub paths: Vec<WalkedPath>,
    pub items: Vec<RemoteItem>,
    pub rows: Vec<SyncItem>,
    /// The path, item or row at hand.
    pub index: usize,
}

/// What a [`ChangeCheck`] holds.
#[verifier::ext_equal]
pub struct ChangeCheckView {
    pub source: Source,
    pub sync_dir: SyncDir<Seq<char>>,
    pub stage: CheckStage,
    pub changed: bool,
    pub paths: Seq<WalkedPath>,
    pub items: Seq<RemoteItem>,
    pub rows: Seq<SyncItem>,
    pub index: int,
}

impl View for ChangeCheck {
    type V = ChangeCheckView;

    open spec fn view(&self) -> ChangeCheckView {
        ChangeCheckView {
            source: self.source,
            sync_dir: self.sync_dir@,
            stage: self.stage,
            changed: self.changed,
            paths: self.paths@,
            items: self.items@,
            rows: self.rows@,
            index: self.index as int,
        }
    }
}

/// The time of the first listed item at `path`.
pub open spec fn listed_time(items: Seq<RemoteItem>, path: Seq<char>) -> Option<i64>
    decreases items.len(),
{
    if items.len() == 0 {
        None
    } else if items[0].path@ == path {
        Some(items[0].mod_time)
    } else {
        listed_time(items.drop_first(), path)
    }
}

fn listed_time_of(items: &Vec<RemoteItem>, path: &str) -> (time: Option<i64>)
    ensures
        time == listed_time(items@, path@),
{
    let total: usize = items.len();
    let mut i: usize = 0;
    assert(items@.skip(0) =~= items@);
    while i < total
        invariant
            total == items@.len(),
            i <= total,
            listed_time(items@, path@) == listed_time(items@.skip(i as int), path@),
        decreases total - i,
    {
        assert(items@.skip(i as int)[0] == items@[i as int]);
        if same(items[i].path.as_str(), path) {
            return Some(items[i].mod_time);
        }
        assert(items@.skip(i as int).drop_first() =~= items@.skip(i + 1));
        i = i + 1;
    }
    None
}

/// The remote time of a row: what the remote says of the path, or, where it
/// finds nothing there, what the listing says of it. A look that fails tells
/// nothing.
pub open spec fn remote_time_of(
    stat: Result<Option<RemoteItem>, String>,
    items: Seq<RemoteItem>,
    path: Seq<char>,
) -> Option<i64> {
    match stat {
        Ok(Some(item)) => Some(item.mod_time),
        Ok(None) => listed_time(items, path),
        Err(_) => None,
    }
}

impl ChangeCheckView {
    /// A check that was not started yet.
    pub open spec fn fresh(source: Source, dir: SyncDir<Seq<char>>) -> ChangeCheckView {
        ChangeCheckView {
            source,
            sync_dir: dir,
            stage: CheckStage::Start,
            changed: false,
            paths: Seq::empty(),
            items: Seq::empty(),
            rows: Seq::empty(),
            index: 0,
        }
    }

    /// At another stage, asking something.
    pub open spec fn go(
        self,
        stage: CheckStage,
        effects: Seq<Effect<Seq<char>>>,
        request: Request<Seq<char>>,
    ) -> (ChangeCheckView, TurnView<bool>) {
        (ChangeCheckView { stage, ..self }, TurnView { effects, next: Next::Ask(request) })
    }

    /// Gives up.
    pub open spec fn fault(self) -> (ChangeCheckView, TurnView<bool>) {
        (ChangeCheckView { stage: CheckStage::Over, ..self }, ports::fault())
    }

    /// Something changed.
    pub open spec fn with_change(self) -> ChangeCheckView {
        ChangeCheckView { changed: true, ..self }
    }

    /// At the next path, item or row.
    pub open spec fn advanced(self) -> ChangeCheckView {
        ChangeCheckView { index: self.index + 1, ..self }
    }

    /// Looks at the path at hand; temp files of editors are passed over.
    pub open spec fn look_at_path(self) -> (ChangeCheckView, TurnView<bool>)
        decreases self.paths.len() - self.index,
    {
        if self.index >= self.paths.len() {
            self.start_listing()
        } else {
            match self.paths[self.index] {
                WalkedPath::Broken => self.with_change().start_listing(),
                WalkedPath::At(path) => if editor_temp::editor_temp(paths::last_part(path@)) {
                    self.advanced().look_at_path()
                } else {
                    self.go(
                        CheckStage::PathTime,
                        seq![self.source.pending(Message::Examining(path@))],
                        Request::OpenTime(path@),
                    )
                },
            }
        }
    }

    /// Goes on to the remote files.
    pub open spec fn start_listing(self) -> (ChangeCheckView, TurnView<bool>) {
        self.go(
            CheckStage::List,
            Seq::empty(),
            Request::List { path: self.sync_dir.remote_path, recursive: true },
        )
    }

    /// Looks at the remote item at hand.
    pub open spec fn look_at_item(self) -> (ChangeCheckView, TurnView<bool>) {
        if self.index >= self.items.len() {
            self.start_rows()
        } else {
            let path = self.items[self.index].path@;
            self.go(
                CheckStage::ItemRow,
                seq![self.source.pending(Message::ExaminingRemote(path))],
                Request::FindByRemote(path),
            )
        }
    }

    /// Goes on to the recorded rows.
    pub open spec fn start_rows(self) -> (ChangeCheckView, TurnView<bool>) {
        self.go(CheckStage::Rows, Seq::empty(), Request::ListSyncItems)
    }

    /// Looks at the row at hand, or is done.
    pub open spec fn look_at_row(self, effects: Seq<Effect<Seq<char>>>) -> (
        ChangeCheckView,
        TurnView<bool>,
    ) {
        if self.index >= self.rows.len() {
            self.end(effects)
        } else {
            self.go(
                CheckStage::RowStat,
                effects.push(
                    self.source.pending(
                        Message::Examining(self.rows[self.index].local_path@),
                    ),
                ),
                Request::Stat(self.rows[self.index].remote_path@),
            )
        }
    }

    /// Tells whether anything changed.
    pub open spec fn end(self, effects: Seq<Effect<Seq<char>>>) -> (
        ChangeCheckView,
        TurnView<bool>,
    ) {
        (
            ChangeCheckView { stage: CheckStage::Over, ..self },
            TurnView { effects, next: Next::Done(self.changed) },
        )
    }

    /// The row of a local path came: the path is new, changed or as recorded.
    pub open spec fn path_row(
        self,
        time: u64,
        row: Result<Option<SyncItem>, String>,
    ) -> (ChangeCheckView, TurnView<bool>) {
        match row {
            Err(_) => self.fault(),
            Ok(None) => self.with_change().start_listing(),
            Ok(Some(known)) => if known.last_local_timestamp < 0 {
                self.fault()
            } else if time != known.last_local_timestamp {
                self.with_change().start_listing()
            } else {
                self.advanced().look_at_path()
            },
        }
    }

    /// The row of a remote item came: the item is new, changed or as
    /// recorded.
    pub open spec fn item_row(self, row: Result<Option<SyncItem>, String>) -> (
        ChangeCheckView,
        TurnView<bool>,
    ) {
        match row {
            Err(_) => self.fault(),
            Ok(None) => self.with_change().start_rows(),
            Ok(Some(known)) => if self.items[self.index].mod_time != known.last_remote_timestamp {
                self.with_change().start_rows()
            } else {
                self.advanced().look_at_item()
            },
        }
    }

    /// It is known whether the row's file is there. A row that is gone on
    /// both sides is dropped.
    pub open spec fn row_exists(self, remote_time: Option<i64>, there: bool) -> (
        ChangeCheckView,
        TurnView<bool>,
    ) {
        match remote_time {
            None => if there {
                self.with_change().end(Seq::empty())
            } else {
                self.advanced().look_at_row(
                    seq![Effect::DeleteItem(self.rows[self.index].id)],
                )
            },
            Some(time) => self.go(
                CheckStage::RowTime { time },
                Seq::empty(),
                Request::LocalTime(self.rows[self.index].local_path@),
            ),
        }
    }

    /// The time of the row's file is known.
    pub open spec fn row_time(self, remote_time: i64, reading: Reading) -> (
        ChangeCheckView,
        TurnView<bool>,
    ) {
        let row = self.rows[self.index];
        match reading {
            Reading::Unreadable => self.fault(),
            Reading::Missing => self.with_change().end(Seq::empty()),
            Reading::At(time) => if time == row.last_local_timestamp && remote_time
                == row.last_remote_timestamp {
                self.advanced().look_at_row(Seq::empty())
            } else {
                self.with_change().end(Seq::empty())
            },
        }
    }

    /// The check takes in a reply.
    pub open spec fn next(self, reply: Reply) -> (ChangeCheckView, TurnView<bool>) {
        match (self.stage, reply) {
            (CheckStage::Start, Reply::Begin) => self.go(
                CheckStage::Walk,
                Seq::empty(),
                Request::Walk(paths::joined(self.sync_dir.local_path, "**/*"@)),
            ),
            (CheckStage::Walk, Reply::Walked(found)) => match found {
                Some(list) => (ChangeCheckView { paths: list@, index: 0, ..self }).look_at_path(),
                None => self.with_change().start_listing(),
            },
            (CheckStage::PathTime, Reply::Time(reading)) => if self.index < self.paths.len() {
                match (reading, self.paths[self.index]) {
                    (Reading::At(time), WalkedPath::At(path)) => self.go(
                        CheckStage::PathRow { local_time: time },
                        Seq::empty(),
                        Request::FindByLocal(path@),
                    ),
                    (Reading::Missing, WalkedPath::At(_)) => self.with_change().start_listing(),
                    _ => self.fault(),
                }
            } else {
                self.fault()
            },
            (CheckStage::PathRow { local_time }, Reply::Row(row)) => if self.index
                < self.paths.len() {
                self.path_row(local_time, row)
            } else {
                self.fault()
            },
            (CheckStage::List, Reply::Items(result)) => match result {
                Ok(list) => (ChangeCheckView { items: list@, index: 0, ..self }).look_at_item(),
                Err(_) => self.with_change().start_rows(),
            },
            (CheckStage::ItemRow, Reply::Row(row)) => if self.index < self.items.len() {
                self.item_row(row)
            } else {
                self.fault()
            },
            (CheckStage::Rows, Reply::Rows(result)) => match result {
                Ok(list) => (ChangeCheckView { rows: list@, index: 0, ..self }).look_at_row(
                    Seq::empty(),
                ),
                Err(_) => self.fault(),
            },
            (CheckStage::RowStat, Reply::Item(stat)) => if self.index < self.rows.len() {
                self.go(
                    CheckStage::RowExists {
                        remote_time: remote_time_of(
                            stat,
                            self.items,
                            self.rows[self.index].remote_path@,
                        ),
                    },
                    Seq::empty(),
                    Request::Exists(self.rows[self.index].local_path@),
                )
            } else {
                self.fault()
            },
            (CheckStage::RowExists { remote_time }, Reply::Flag(there)) =>
                if self.index < self.rows.len() {
                self.row_exists(remote_time, there)
            } else {
                self.fault()
            },
            (CheckStage::RowTime { time: remote_time }, Reply::Time(reading)) =>
                if self.index < self.rows.len() {
                self.row_time(remote_time, reading)
            } else {
                self.fault()
            },
            _ => self.fault(),
        }
    }
}

/// The check whether anything under `sync_dir` changed since the last sync.
pub fn should_sync(remote: &Remote, sync_dir: &SyncDir) -> (check: ChangeCheck)
    ensures
        check@ == ChangeCheckView::fresh(
            Source { remote_id: remote.id, sync_dir_id: sync_dir.id },
            sync_dir@,
        ),
{
    ChangeCheck {
        source: Source { remote_id: remote.id, sync_dir_id: sync_dir.id },
        sync_dir: sync_dir.clone(),
        stage: CheckStage::Start,
        changed: false,
        paths: Vec::new(),
        items: Vec::new(),
        rows: Vec::new(),
        index: 0,
    }
}

impl ChangeCheck {
    fn goes(&mut self, stage: CheckStage, effects: Vec<Effect>, request: Request) -> (turn: Turn<
        bool,
    >)
        ensures
            (final(self)@, turn@) == old(self)@.go(stage, text::views(effects@), request@),
    {
        self.stage = stage;
        Turn { effects, next: Next::Ask(request) }
    }

    fn faults(&mut self) -> (turn: Turn<bool>)
        ensures
            (final(self)@, turn@) == old(self)@.fault(),
    {
        self.stage = CheckStage::Over;
        Turn { effects: no_effects(), next: Next::Fault }
    }

    fn ends(&mut self, effects: Vec<Effect>) -> (turn: Turn<bool>)
        ensures
            (final(self)@, turn@) == old(self)@.end(text::views(effects@)),
    {
        self.stage = CheckStage::Over;
        Turn { effects, next: Next::Done(self.changed) }
    }

    fn starts_listing(&mut self) -> (turn: Turn<bool>)
        ensures
            (final(self)@, turn@) == old(self)@.start_listing(),
    {
        let path = self.sync_dir.remote_path.clone();
        self.goes(CheckStage::List, no_effects(), Request::List { path, recursive: true })
    }

    fn starts_rows(&mut self) -> (turn: Turn<bool>)
        ensures
            (final(self)@, turn@) == old(self)@.start_rows(),
    {
        self.goes(CheckStage::Rows, no_effects(), Request::ListSyncItems)
    }

    fn looks_at_path(&mut self) -> (turn: Turn<bool>)
        ensures
            (final(self)@, turn@) == old(self)@.look_at_path(),
    {
        let total: usize = self.paths.len();
        while self.index < total
            invariant
                total == self.paths@.len(),
                self@.look_at_path() == old(self)@.look_at_path(),
            decreases total - self.index,
        {
            match &self.paths[self.index] {
                WalkedPath::Broken => {
                    self.changed = true;
                    return self.starts_listing();
                },
                WalkedPath::At(path) => {
                    let name = name_of(path.as_str());
                    if !is_editor_temp(name.as_str()) {
                        let path = path.clone();
                        let effect = self.source.pending_event(Message::Examining(path.clone()));
                        return self.goes(
                            CheckStage::PathTime,
                            one_effect(effect),
                            Request::OpenTime(path),
                        );
                    }
                },
            }
            self.index = self.index + 1;
        }
        self.starts_listing()
    }

    fn looks_at_item(&mut self) -> (turn: Turn<bool>)
        ensures
            (final(self)@, turn@) == old(self)@.look_at_item(),
    {
        if self.index >= self.items.len() {
            return self.starts_rows();
        }
        let path = self.items[self.index].path.clone();
        let effect = self.source.pending_event(Message::ExaminingRemote(path.clone()));
        self.goes(CheckStage::ItemRow, one_effect(effect), Request::FindByRemote(path))
    }

    fn looks_at_row(&mut self, effects: Vec<Effect>) -> (turn: Turn<bool>)
        ensures
            (final(self)@, turn@) == old(self)@.look_at_row(text::views(effects@)),
    {
        if self.index >= self.rows.len() {
            return self.ends(effects);
        }
        let mut effects = effects;
        let local_path = self.rows[self.index].local_path.clone();
        add_effect(&mut effects, self.source.pending_event(Message::Examining(local_path)));
        let path = self.rows[self.index].remote_path.clone();
        self.goes(CheckStage::RowStat, effects, Request::Stat(path))
    }

    fn takes_path_row(&mut self, time: u64, row: Result<Option<SyncItem>, String>) -> (turn: Turn<
        bool,
    >)
        requires
            old(self).index < old(self).paths@.len(),
        ensures
            (final(self)@, turn@) == old(self)@.path_row(time, row),
    {
        let total: usize = self.paths.len();
        match row {
            Err(_) => self.faults(),
            Ok(None) => {
                self.changed = true;
                self.starts_listing()
            },
            Ok(Some(known)) => {
                if known.last_local_timestamp < 0 {
                    self.faults()
                } else if time != known.last_local_timestamp as u64 {
                    self.changed = true;
                    self.starts_listing()
                } else {
                    assert(self.index < total);
                    self.index = self.index + 1;
                    self.looks_at_path()
                }
            },
        }
    }

    fn takes_item_row(&mut self, row: Result<Option<SyncItem>, String>) -> (turn: Turn<bool>)
        requires
            old(self).index < old(self).items@.len(),
        ensures
            (final(self)@, turn@) == old(self)@.item_row(row),
    {
        let total: usize = self.items.len();
        match row {
            Err(_) => self.faults(),
            Ok(None) => {
                self.changed = true;
                self.starts_rows()
            },
            Ok(Some(known)) => {
                if self.items[self.index].mod_time != known.last_remote_timestamp {
                    self.changed = true;
                    self.starts_rows()
                } else {
                    assert(self.index < total);
                    self.index = self.index + 1;
                    self.looks_at_item()
                }
            },
        }
    }

    fn takes_row_exists(&mut self, remote_time: Option<i64>, there: bool) -> (turn: Turn<bool>)
        requires
            old(self).index < old(self).rows@.len(),
        ensures
            (final(self)@, turn@) == old(self)@.row_exists(remote_time, there),
    {
        let total: usize = self.rows.len();
        match remote_time {
            None => {
                if there {
                    self.changed = true;
                    self.ends(no_effects())
                } else {
                    let effect = Effect::DeleteItem(self.rows[self.index].id);
                    assert(self.index < total);
                    self.index = self.index + 1;
                    self.looks_at_row(one_effect(effect))
                }
            },
            Some(time) => {
                let path = self.rows[self.index].local_path.clone();
                self.goes(
                    CheckStage::RowTime { time },
                    no_effects(),
                    Request::LocalTime(path),
                )
            },
        }
    }

    fn takes_row_time(&mut self, remote_time: i64, reading: Reading) -> (turn: Turn<bool>)
        requires
            old(self).index < old(self).rows@.len(),
        ensures
            (final(self)@, turn@) == old(self)@.row_time(remote_time, reading),
    {
        let total: usize = self.rows.len();
        match reading {
            Reading::Unreadable => self.faults(),
            Reading::Missing => {
                self.changed = true;
                self.ends(no_effects())
            },
            Reading::At(time) => {
                let row = &self.rows[self.index];
                let local_same = row.last_local_timestamp >= 0 && time
                    == row.last_local_timestamp as u64;
                if local_same && remote_time == row.last_remote_timestamp {
                    assert(self.index < total);
                    self.index = self.index + 1;
                    self.looks_at_row(no_effects())
                } else {
                    self.changed = true;
                    self.ends(no_effects())
                }
            },
        }
    }

    /// Takes in a reply, [`Reply::Begin`] at first. The result tells whether
    /// a sync is due.
    pub fn step(&mut self, reply: Reply) -> (turn: Turn<bool>)
        ensures
            (final(self)@, turn@) == old(self)@.next(reply),
    {
        match (self.stage, reply) {
            (CheckStage::Start, Reply::Begin) => {
                let pattern = join(self.sync_dir.local_path.as_str(), "**/*");
                self.goes(CheckStage::Walk, no_effects(), Request::Walk(pattern))
            },
            (CheckStage::Walk, Reply::Walked(found)) => match found {
                Some(list) => {
                    self.paths = list;
                    self.index = 0;
                    self.looks_at_path()
                },
                None => {
                    self.changed = true;
                    self.starts_listing()
                },
            },
            (CheckStage::PathTime, Reply::Time(reading)) => {
                if self.index >= self.paths.len() {
                    return self.faults();
                }
                match (reading, &self.paths[self.index]) {
                    (Reading::At(time), WalkedPath::At(path)) => {
                        let path = path.clone();
                        self.goes(
                            CheckStage::PathRow { local_time: time },
                            no_effects(),
                            Request::FindByLocal(path),
                        )
                    },
                    (Reading::Missing, WalkedPath::At(_)) => {
                        self.changed = true;
                        self.starts_listing()
                    },
                    _ => self.faults(),
                }
            },
            (CheckStage::PathRow { local_time }, Reply::Row(row)) => {
                if self.index < self.paths.len() {
                    self.takes_path_row(local_time, row)
                } else {
                    self.faults()
                }
            },
            (CheckStage::List, Reply::Items(result)) => match result {
                Ok(list) => {
                    self.items = list;
                    self.index = 0;
                    self.looks_at_item()
                },
                Err(_) => {
                    self.changed = true;
                    self.starts_rows()
                },
            },
            (CheckStage::ItemRow, Reply::Row(row)) => {
                if self.index < self.items.len() {
                    self.takes_item_row(row)
                } else {
                    self.faults()
                }
            },
            (CheckStage::Rows, Reply::Rows(result)) => match result {
                Ok(list) => {
                    self.rows = list;
                    self.index = 0;
                    self.looks_at_row(no_effects())
                },
                Err(_) => self.faults(),
            },
            (CheckStage::RowStat, Reply::Item(stat)) => {
                if self.index < self.rows.len() {
                    let remote_time: Option<i64> = match stat {
                        Ok(Some(item)) => Some(item.mod_time),
                        Ok(None) => listed_time_of(
                            &self.items,
                            self.rows[self.index].remote_path.as_str(),
                        ),
                        Err(_) => None,
                    };
                    let local_path = self.rows[self.index].local_path.clone();
                    self.goes(
                        CheckStage::RowExists { remote_time },
                        no_effects(),
                        Request::Exists(local_path),
                    )
                } else {
                    self.faults()
                }
            },
            (CheckStage::RowExists { remote_time }, Reply::Flag(there)) => {
                if self.index < self.rows.len() {
                    self.takes_row_exists(remote_time, there)
                } else {
                    self.faults()
                }
            },
            (CheckStage::RowTime { time: remote_time }, Reply::Time(reading)) => {
                if self.index < self.rows.len() {
                    self.takes_row_time(remote_time, reading)
                } else {
                    self.faults()
                }
            },
            _ => self.faults(),
        }
    }
}

proof fn lemma_looking_keeps_change(check: ChangeCheckView)
    ensures
        check.changed ==> check.look_at_path().0.changed,
        check.look_at_path().1.next !is Done,
        forall|i: int|
            0 <= i < check.look_at_path().1.effects.len() ==> (
            #[trigger] check.look_at_path().1.effects[i]) is Emit,
    decreases check.paths.len() - check.index,
{
    if check.index < check.paths.len() {
        match check.paths[check.index] {
            WalkedPath::At(path) => {
                if editor_temp::editor_temp(paths::last_part(path@)) {
                    lemma_looking_keeps_change(check.advanced());
                }
            },
            WalkedPath::Broken => {},
        }
    }
}

/// A change once seen is not forgotten, and the verdict of the check is
/// whether one was seen.
pub proof fn law_changes_are_not_forgotten(check: ChangeCheckView, reply: Reply)
    ensures
        check.changed ==> check.next(reply).0.changed,
        check.next(reply).1.next matches Next::Done(verdict) ==> verdict == check.next(
            reply,
        ).0.changed,
{
    lemma_looking_keeps_change(check.advanced());
    match (check.stage, reply) {
        (CheckStage::Walk, Reply::Walked(Some(list))) => {
            lemma_looking_keeps_change(ChangeCheckView { paths: list@, index: 0, ..check });
        },
        _ => {},
    }
}

/// A remote that cannot be listed counts as changed.
pub proof fn law_failed_listing_is_a_change(check: ChangeCheckView, words: String)
    requires
        check.stage is List,
    ensures
        check.next(Reply::Items(Err(words))).0.changed,
{
}

/// A row is dropped only where nothing tells of its item on either side: the
/// remote does not give a time for it, and there is no local file.
pub proof fn law_rows_are_dropped_only_when_gone(check: ChangeCheckView, reply: Reply, i: int)
    requires
        0 <= i < check.next(reply).1.effects.len(),
        check.next(reply).1.effects[i] is DeleteItem,
    ensures
        check.stage == (CheckStage::RowExists { remote_time: None }),
        reply == Reply::Flag(false),
        check.next(reply).1.effects[i] == Effect::<Seq<char>>::DeleteItem(
            check.rows[check.index].id,
        ),
{
    lemma_looking_keeps_change(check.advanced());
    match (check.stage, reply) {
        (CheckStage::Walk, Reply::Walked(Some(list))) => {
            lemma_looking_keeps_change(ChangeCheckView { paths: list@, index: 0, ..check });
        },
        _ => {},
    }
}

/// Editors' temp files do not count: a walk that found nothing else goes
/// straight on to the remote side.
pub proof fn law_temp_files_are_no_change(check: ChangeCheckView)
    requires
        0 <= check.index <= check.paths.len(),
        forall|i: int|
            check.index <= i < check.paths.len() ==> ((#[trigger] check.paths[i]) matches
                WalkedPath::At(path) && editor_temp::editor_temp(paths::last_part(path@))),
    ensures
        check.look_at_path() == (ChangeCheckView {
            index: check.paths.len() as int,
            ..check
        }).start_listing(),
    decreases check.paths.len() - check.index,
{
    if check.index < check.paths.len() {
        law_temp_files_are_no_change(check.advanced());
    } else {
        assert(check.index == check.paths.len());
    }
}

/// A row that is gone on both sides, as far as can be told, is dropped, and
/// the check goes on with the next row.
pub proof fn law_gone_rows_are_dropped(check: ChangeCheckView)
    requires
        check.stage == (CheckStage::RowExists { remote_time: None }),
        0 <= check.index < check.rows.len(),
    ensures
        ({
            let (after, turn) = check.next(Reply::Flag(false));
            &&& turn.effects.len() > 0
            &&& turn.effects[0] == Effect::<Seq<char>>::DeleteItem(check.rows[check.index].id)
            &&& after.changed == check.changed
            &&& check.index + 1 < check.rows.len() ==> turn.next == Next::<bool, Seq<char>>::Ask(
                Request::Stat(check.rows[check.index + 1].remote_path@),
            )
            &&& check.index + 1 == check.rows.len() ==> turn.next == Next::<bool, Seq<char>>::Done(
                check.changed,
            )
        }),
{
}

/// A check looks for every path below the local root, and lists everything
/// below the remote root.
pub proof fn law_a_check_looks_everywhere(check: ChangeCheckView)
    ensures
        check.stage is Start ==> check.next(Reply::Begin).1.next == Next::<bool, Seq<char>>::Ask(
            Request::Walk(check.sync_dir.local_path + seq!['/'] + "**/*"@),
        ),
        check.start_listing().1.next == Next::<bool, Seq<char>>::Ask(
            Request::List { path: check.sync_dir.remote_path, recursive: true },
        ),
{
    text_laws::law_joined_parts(
        check.sync_dir.local_path,
        "**/*"@,
        check.sync_dir.local_path,
    );
}

/// Of the listed items at a path the first one's time counts; a path that is
/// not listed has none.
pub proof fn law_the_first_listed_item_counts(items: Seq<RemoteItem>, path: Seq<char>, i: int)
    ensures
        0 <= i < items.len() && items[i].path@ == path && (forall|k: int|
            0 <= k < i ==> (#[trigger] items[k]).path@ != path) ==> listed_time(items, path)
            == Some(items[i].mod_time),
        (forall|k: int| 0 <= k < items.len() ==> (#[trigger] items[k]).path@ != path)
            ==> listed_time(items, path) is None,
    decreases items.len(),
{
    if items.len() > 0 && items[0].path@ != path {
        let rest = items.drop_first();
        assert forall|k: int| 0 <= k < rest.len() implies #[trigger] rest[k] == items[k + 1] by {}
        law_the_first_listed_item_counts(rest, path, i - 1);
    }
}

/// What is looked at is announced: a walked path and a recorded one by the
/// local path, a listed item by its path on the remote.
pub proof fn law_what_is_looked_at_is_announced(check: ChangeCheckView, path: String)
    requires
        0 <= check.index,
    ensures
        check.index < check.paths.len() && check.paths[check.index] == WalkedPath::At(path)
            && !editor_temp::editor_temp(paths::last_part(path@)) ==> {
            let turn = check.look_at_path().1;
            &&& turn.effects == seq![check.source.pending(Message::Examining(path@))]
            &&& turn.next == Next::<bool, Seq<char>>::Ask(Request::OpenTime(path@))
        },
        check.index < check.items.len() ==> {
            let turn = check.look_at_item().1;
            let listed = check.items[check.index].path@;
            &&& turn.effects == seq![check.source.pending(Message::ExaminingRemote(listed))]
            &&& turn.next == Next::<bool, Seq<char>>::Ask(Request::FindByRemote(listed))
        },
        check.index < check.rows.len() ==> {
            let turn = check.look_at_row(Seq::empty()).1;
            let row = check.rows[check.index];
            &&& turn.effects == seq![check.source.pending(Message::Examining(row.local_path@))]
            &&& turn.next == Next::<bool, Seq<char>>::Ask(Request::Stat(row.remote_path@))
        },
{
}

} // verus!
