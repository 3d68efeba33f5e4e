//! Runs an item machine on real paths: turns its operations into requests,
//! replies into facts, and its notes into effects.

use vstd::prelude::*;

use crate::domain::{Message, Progress, Reason, RemoteItem, SyncError, SyncItem};
use crate::events::Source;
use crate::item_laws::ItemMachine;
use crate::notices::Notice;
use crate::ops;
use crate::ops::{Fact, Note, Op, RemoteFact, RowFact, Side, Transfer};
use crate::paths;
use crate::paths::{name_of, parent_of};
use crate::ports::{add_effect, Effect, Next, Reading, Reply, Request, Turn, TurnView};
use crate::sync_path::{push_tolerating_source_race, PushOutcome};
use crate::text;

verus! {

/// Where an item is and how it is spoken of.
#[derive(Debug, PartialEq, Eq)]
pub struct Place<S = String> {
    pub source: Source,
    pub local_path: S,
    pub remote_path: S,
    /// Where the pass stands, if it knows.
    pub progress: Option<Progress>,
    /// The side on which the item was found.
    pub seen_on: Side,
}

impl View for Place<String> {
    type V = Place<Seq<char>>;

    open spec fn view(&self) -> Place<Seq<char>> {
        Place {
            source: self.source,
            local_path: self.local_path@,
            remote_path: self.remote_path@,
            progress: self.progress,
            seen_on: self.seen_on,
        }
    }
}

impl Place<Seq<char>> {
    /// What the status line says of a transfer.
    pub open spec fn message(self, transfer: Transfer) -> Message<Seq<char>> {
        match transfer {
            Transfer::Upload => Message::Uploading(self.progress, self.local_path),
            Transfer::Download => Message::Downloading(self.progress, self.local_path),
            Transfer::RemoveLocal => Message::RemovingLocally(self.progress, self.local_path),
            Transfer::RemoveRemote => Message::RemovingOnRemote(self.progress, self.remote_path),
        }
    }

    /// The effect that a note stands for; `words` are those of the last
    /// failure.
    pub open spec fn effect(self, words: Seq<char>, note: Note) -> Effect<Seq<char>> {
        match note {
            Note::Failure(Side::Local) => self.source.error(
                SyncError::General(self.local_path, Reason::Reported(words)),
            ),
            Note::Failure(Side::Remote) => self.source.error(
                SyncError::General(self.remote_path, Reason::Reported(words)),
            ),
            Note::Conflict => self.source.error(
                SyncError::BothMoreCurrent(self.local_path, self.remote_path),
            ),
            Note::Status(transfer) => self.source.status(self.message(transfer)),
            Note::Examining => self.source.pending(
                match self.seen_on {
                    Side::Local => Message::Examining(self.local_path),
                    Side::Remote => Message::ExaminingRemote(self.remote_path),
                },
            ),
            Note::Destructive(kind) => Effect::LogDestructive { kind, path: self.remote_path },
            Note::UpdateRow { id, local_time, remote_time } => Effect::UpdateTimestamps {
                id,
                local_time,
                remote_time,
            },
            Note::InsertRow { local_time, remote_time } => Effect::InsertItem {
                local_path: self.local_path,
                remote_path: self.remote_path,
                local_time,
                remote_time,
            },
            Note::DropRow => Effect::DeleteItemByPaths {
                local_path: self.local_path,
                remote_path: self.remote_path,
            },
            Note::DropRowById(id) => Effect::DeleteItem(id),
            Note::MakeParents => Effect::CreateParentDirs(self.local_path),
            Note::VanishedSource => Effect::Log(
                Notice::VanishedSource { path: self.local_path, words },
            ),
            Note::StillListed => Effect::Log(Notice::StillListed { path: self.remote_path }),
        }
    }

    /// The effects that notes stand for.
    pub open spec fn effects(self, words: Seq<char>, notes: Seq<Note>) -> Seq<Effect<Seq<char>>> {
        notes.map_values(|note: Note| self.effect(words, note))
    }

    /// What an operation comes to.
    pub open spec fn step(self, op: Op) -> Step<Seq<char>> {
        match op {
            Op::FindRow => Step::Ask(
                Request::FindByPaths {
                    local_path: self.local_path,
                    remote_path: self.remote_path,
                },
            ),
            Op::Exists => Step::Ask(Request::Exists(self.local_path)),
            Op::IsDir => Step::Ask(Request::IsDir(self.local_path)),
            Op::LocalTime | Op::StrictTime => Step::Ask(Request::LocalTime(self.local_path)),
            Op::EntryTime => Step::Ask(Request::EntryTime(self.local_path)),
            Op::StillOnRecord => Step::Ask(Request::SyncDirExists),
            Op::Stat => Step::Ask(Request::Stat(self.remote_path)),
            Op::StillListed => Step::Ask(
                Request::List { path: paths::parent(self.remote_path), recursive: false },
            ),
            Op::Mkdir => Step::Ask(Request::Mkdir(self.remote_path)),
            Op::Purge => Step::Ask(Request::Purge(self.remote_path)),
            Op::DeleteFile => Step::Ask(Request::DeleteFile(self.remote_path)),
            Op::Upload | Op::Push => Step::Ask(
                Request::CopyToRemote {
                    local_path: self.local_path,
                    remote_path: self.remote_path,
                },
            ),
            Op::Download => Step::Ask(
                Request::CopyToLocal {
                    local_path: self.local_path,
                    remote_path: self.remote_path,
                },
            ),
            Op::RemoveTree => Step::Ask(Request::RemoveDirAll(self.local_path)),
            Op::RemoveFile => Step::Ask(Request::RemoveFile(self.local_path)),
            Op::CreateDir => Step::Ask(Request::CreateDir(self.local_path)),
            Op::CreateDirAll => Step::Ask(Request::CreateDirAll(self.local_path)),
            Op::Descend => Step::Descend,
            Op::Finish => Step::Over,
            Op::Fault => Step::Fault,
        }
    }
}

impl Place<String> {
    fn transfer_message(&self, transfer: Transfer) -> (text: Message)
        ensures
            text@ == self@.message(transfer),
    {
        match transfer {
            Transfer::Upload => Message::Uploading(self.progress, self.local_path.clone()),
            Transfer::Download => Message::Downloading(self.progress, self.local_path.clone()),
            Transfer::RemoveLocal => Message::RemovingLocally(
                self.progress,
                self.local_path.clone(),
            ),
            Transfer::RemoveRemote => Message::RemovingOnRemote(
                self.progress,
                self.remote_path.clone(),
            ),
        }
    }

    fn effect_of(&self, words: &String, note: Note) -> (effect: Effect)
        ensures
            effect@ == self@.effect(words@, note),
    {
        match note {
            Note::Failure(side) => {
                let path = match side {
                    Side::Local => self.local_path.clone(),
                    Side::Remote => self.remote_path.clone(),
                };
                self.source.error_event(SyncError::General(path, Reason::Reported(words.clone())))
            },
            Note::Conflict => self.source.error_event(
                SyncError::BothMoreCurrent(self.local_path.clone(), self.remote_path.clone()),
            ),
            Note::Status(transfer) => self.source.status_event(self.transfer_message(transfer)),
            Note::Examining => self.source.pending_event(
                match self.seen_on {
                    Side::Local => Message::Examining(self.local_path.clone()),
                    Side::Remote => Message::ExaminingRemote(self.remote_path.clone()),
                },
            ),
            Note::Destructive(kind) => Effect::LogDestructive {
                kind,
                path: self.remote_path.clone(),
            },
            Note::UpdateRow { id, local_time, remote_time } => Effect::UpdateTimestamps {
                id,
                local_time,
                remote_time,
            },
            Note::InsertRow { local_time, remote_time } => Effect::InsertItem {
                local_path: self.local_path.clone(),
                remote_path: self.remote_path.clone(),
                local_time,
                remote_time,
            },
            Note::DropRow => Effect::DeleteItemByPaths {
                local_path: self.local_path.clone(),
                remote_path: self.remote_path.clone(),
            },
            Note::DropRowById(id) => Effect::DeleteItem(id),
            Note::MakeParents => Effect::CreateParentDirs(self.local_path.clone()),
            Note::VanishedSource => Effect::Log(
                Notice::VanishedSource { path: self.local_path.clone(), words: words.clone() },
            ),
            Note::StillListed => Effect::Log(
                Notice::StillListed { path: self.remote_path.clone() },
            ),
        }
    }

    fn effects_of(&self, words: &String, notes: &Vec<Note>) -> (effects: Vec<Effect>)
        ensures
            text::views(effects@) == self@.effects(words@, notes@),
    {
        let mut effects: Vec<Effect> = Vec::new();
        let total: usize = notes.len();
        let ghost all = self@.effects(words@, notes@);
        let mut i: usize = 0;
        while i < total
            invariant
                total == notes@.len(),
                i <= total,
                all == self@.effects(words@, notes@),
                text::views(effects@) == all.take(i as int),
            decreases total - i,
        {
            add_effect(&mut effects, self.effect_of(words, notes[i]));
            i = i + 1;
        }
        effects
    }

    fn step_of(&self, op: Op) -> (step: Step)
        ensures
            step@ == self@.step(op),
    {
        match op {
            Op::FindRow => Step::Ask(
                Request::FindByPaths {
                    local_path: self.local_path.clone(),
                    remote_path: self.remote_path.clone(),
                },
            ),
            Op::Exists => Step::Ask(Request::Exists(self.local_path.clone())),
            Op::IsDir => Step::Ask(Request::IsDir(self.local_path.clone())),
            Op::LocalTime => Step::Ask(Request::LocalTime(self.local_path.clone())),
            Op::StrictTime => Step::Ask(Request::LocalTime(self.local_path.clone())),
            Op::EntryTime => Step::Ask(Request::EntryTime(self.local_path.clone())),
            Op::StillOnRecord => Step::Ask(Request::SyncDirExists),
            Op::Stat => Step::Ask(Request::Stat(self.remote_path.clone())),
            Op::StillListed => Step::Ask(
                Request::List { path: parent_of(self.remote_path.as_str()), recursive: false },
            ),
            Op::Mkdir => Step::Ask(Request::Mkdir(self.remote_path.clone())),
            Op::Purge => Step::Ask(Request::Purge(self.remote_path.clone())),
            Op::DeleteFile => Step::Ask(Request::DeleteFile(self.remote_path.clone())),
            Op::Upload => Step::Ask(
                Request::CopyToRemote {
                    local_path: self.local_path.clone(),
                    remote_path: self.remote_path.clone(),
                },
            ),
            Op::Push => Step::Ask(
                Request::CopyToRemote {
                    local_path: self.local_path.clone(),
                    remote_path: self.remote_path.clone(),
                },
            ),
            Op::Download => Step::Ask(
                Request::CopyToLocal {
                    local_path: self.local_path.clone(),
                    remote_path: self.remote_path.clone(),
                },
            ),
            Op::RemoveTree => Step::Ask(Request::RemoveDirAll(self.local_path.clone())),
            Op::RemoveFile => Step::Ask(Request::RemoveFile(self.local_path.clone())),
            Op::CreateDir => Step::Ask(Request::CreateDir(self.local_path.clone())),
            Op::CreateDirAll => Step::Ask(Request::CreateDirAll(self.local_path.clone())),
            Op::Descend => Step::Descend,
            Op::Finish => Step::Over,
            Op::Fault => Step::Fault,
        }
    }
}

/// What a driven machine does next.
#[derive(Debug, PartialEq, Eq)]
pub enum Step<S = String> {
    Ask(Request<S>),
    /// Sync what is inside the item first.
    Descend,
    Over,
    Fault,
}

impl View for Step<String> {
    type V = Step<Seq<char>>;

    open spec fn view(&self) -> Step<Seq<char>> {
        match *self {
            Step::Ask(request) => Step::Ask(request@),
            Step::Descend => Step::Descend,
            Step::Over => Step::Over,
            Step::Fault => Step::Fault,
        }
    }
}

/// What a driven machine answers.
#[derive(Debug, PartialEq, Eq)]
pub struct Move {
    pub effects: Vec<Effect>,
    pub step: Step,
}

/// What a [`Move`] holds.
#[verifier::ext_equal]
pub struct MoveView {
    pub effects: Seq<Effect<Seq<char>>>,
    pub step: Step<Seq<char>>,
}

impl View for Move {
    type V = MoveView;

    open spec fn view(&self) -> MoveView {
        MoveView { effects: text::views(self.effects@), step: self.step@ }
    }
}

/// What a remote tells of an item.
pub open spec fn remote_fact(item: Option<RemoteItem>) -> Option<RemoteFact> {
    match item {
        Some(found) => Some(RemoteFact { is_dir: found.is_dir, time: found.mod_time }),
        None => None,
    }
}

/// What was recorded of an item; a row that cannot be read counts as none.
pub open spec fn row_fact(row: Result<Option<SyncItem>, String>) -> Option<RowFact> {
    match row {
        Ok(Some(found)) => Some(
            RowFact {
                id: found.id,
                local_time: found.last_local_timestamp,
                remote_time: found.last_remote_timestamp,
            },
        ),
        _ => None,
    }
}

/// A listing shows an item of that name.
pub open spec fn lists_name(items: Seq<RemoteItem>, name: Seq<char>) -> bool {
    exists|i: int| 0 <= i < items.len() && (#[trigger] items[i]).name@ == name
}

/// What a reply tells about an operation.
pub enum Heard {
    /// A fact.
    Fact(Fact),
    /// A failure, with its words.
    Failure(String),
    /// A push that failed, with its words: is the source still there?
    PushFailed(String),
    /// Nothing that belongs to the operation.
    Nonsense,
}

/// What a [`Heard`] holds.
pub enum HeardView {
    Fact(Fact),
    Failure(Seq<char>),
    PushFailed(Seq<char>),
    Nonsense,
}

impl View for Heard {
    type V = HeardView;

    open spec fn view(&self) -> HeardView {
        match *self {
            Heard::Fact(fact) => HeardView::Fact(fact),
            Heard::Failure(words) => HeardView::Failure(words@),
            Heard::PushFailed(words) => HeardView::PushFailed(words@),
            Heard::Nonsense => HeardView::Nonsense,
        }
    }
}

/// What a reply tells about the operation that was asked. A listing that
/// fails counts as showing the item; a record that cannot be read counts as
/// gone.
pub open spec fn heard(asked: Op, remote_path: Seq<char>, reply: Reply) -> HeardView {
    match (asked, reply) {
        (_, Reply::Begin) => HeardView::Fact(Fact::Begin),
        (Op::FindRow, Reply::Row(row)) => HeardView::Fact(Fact::Row(row_fact(row))),
        (Op::Exists, Reply::Flag(flag)) => HeardView::Fact(Fact::Flag(flag)),
        (Op::IsDir, Reply::Flag(flag)) => HeardView::Fact(Fact::Flag(flag)),
        (Op::StillOnRecord, Reply::OnRecord(found)) => HeardView::Fact(
            Fact::Flag(found == Ok::<bool, String>(true)),
        ),
        (Op::LocalTime, Reply::Time(reading)) => HeardView::Fact(
            Fact::Time(
                match reading {
                    Reading::At(time) => Some(time),
                    _ => None,
                },
            ),
        ),
        (Op::EntryTime, Reply::Time(reading)) => HeardView::Fact(
            Fact::Time(
                match reading {
                    Reading::At(time) => Some(time),
                    _ => None,
                },
            ),
        ),
        (Op::StrictTime, Reply::Time(reading)) => match reading {
            Reading::At(time) => HeardView::Fact(Fact::Time(Some(time))),
            Reading::Missing => HeardView::Fact(Fact::Time(None)),
            Reading::Unreadable => HeardView::Nonsense,
        },
        (Op::Stat, Reply::Item(Ok(item))) => HeardView::Fact(Fact::Remote(remote_fact(item))),
        (Op::Stat, Reply::Item(Err(words))) => HeardView::Failure(words@),
        (Op::StillListed, Reply::Items(Ok(items))) => HeardView::Fact(
            Fact::Flag(lists_name(items@, paths::last_part(remote_path))),
        ),
        (Op::StillListed, Reply::Items(Err(_))) => HeardView::Fact(Fact::Flag(true)),
        (Op::Push, Reply::Done(Err(words))) => HeardView::PushFailed(words@),
        (_, Reply::Done(result)) => if changes_something(asked) {
            match result {
                Ok(_) => HeardView::Fact(Fact::Done),
                Err(words) => HeardView::Failure(words@),
            }
        } else {
            HeardView::Nonsense
        },
        _ => HeardView::Nonsense,
    }
}

/// The operation changes something on one of the sides.
pub open spec fn changes_something(op: Op) -> bool {
    ops::transfers(op) || ops::destroys(op)
}

fn is_change(op: Op) -> (change: bool)
    ensures
        change == changes_something(op),
{
    match op {
        Op::Mkdir => true,
        Op::Purge => true,
        Op::DeleteFile => true,
        Op::Upload => true,
        Op::Push => true,
        Op::Download => true,
        Op::RemoveTree => true,
        Op::RemoveFile => true,
        Op::CreateDir => true,
        Op::CreateDirAll => true,
        _ => false,
    }
}

fn shows_name(items: &Vec<RemoteItem>, name: &str) -> (found: bool)
    ensures
        found == lists_name(items@, name@),
{
    let total: usize = items.len();
    let mut i: usize = 0;
    while i < total
        invariant
            total == items@.len(),
            i <= total,
            forall|k: int| 0 <= k < i ==> (#[trigger] items@[k]).name@ != name@,
        decreases total - i,
    {
        if text::same(items[i].name.as_str(), name) {
            return true;
        }
        i = i + 1;
    }
    false
}

fn time_fact(reading: Reading) -> (fact: Fact)
    ensures
        fact == Fact::Time(
            match reading {
                Reading::At(time) => Some(time),
                _ => None,
            },
        ),
{
    match reading {
        Reading::At(time) => Fact::Time(Some(time)),
        _ => Fact::Time(None),
    }
}

fn hear(asked: Op, remote_path: &str, reply: Reply) -> (result: Heard)
    ensures
        result@ == heard(asked, remote_path@, reply),
{
    match (asked, reply) {
        (_, Reply::Begin) => Heard::Fact(Fact::Begin),
        (Op::FindRow, Reply::Row(row)) => match row {
            Ok(Some(found)) => Heard::Fact(
                Fact::Row(
                    Some(
                        RowFact {
                            id: found.id,
                            local_time: found.last_local_timestamp,
                            remote_time: found.last_remote_timestamp,
                        },
                    ),
                ),
            ),
            _ => Heard::Fact(Fact::Row(None)),
        },
        (Op::Exists, Reply::Flag(flag)) => Heard::Fact(Fact::Flag(flag)),
        (Op::IsDir, Reply::Flag(flag)) => Heard::Fact(Fact::Flag(flag)),
        (Op::StillOnRecord, Reply::OnRecord(found)) => match found {
            Ok(flag) => Heard::Fact(Fact::Flag(flag)),
            Err(_) => Heard::Fact(Fact::Flag(false)),
        },
        (Op::LocalTime, Reply::Time(reading)) => Heard::Fact(time_fact(reading)),
        (Op::EntryTime, Reply::Time(reading)) => Heard::Fact(time_fact(reading)),
        (Op::StrictTime, Reply::Time(reading)) => match reading {
            Reading::At(time) => Heard::Fact(Fact::Time(Some(time))),
            Reading::Missing => Heard::Fact(Fact::Time(None)),
            Reading::Unreadable => Heard::Nonsense,
        },
        (Op::Stat, Reply::Item(result)) => match result {
            Ok(Some(found)) => Heard::Fact(
                Fact::Remote(Some(RemoteFact { is_dir: found.is_dir, time: found.mod_time })),
            ),
            Ok(None) => Heard::Fact(Fact::Remote(None)),
            Err(words) => Heard::Failure(words),
        },
        (Op::StillListed, Reply::Items(result)) => match result {
            Ok(items) => {
                let name = name_of(remote_path);
                Heard::Fact(Fact::Flag(shows_name(&items, name.as_str())))
            },
            Err(_) => Heard::Fact(Fact::Flag(true)),
        },
        (op, Reply::Done(result)) => {
            if is_change(op) {
                match result {
                    Ok(_) => Heard::Fact(Fact::Done),
                    Err(words) => match op {
                        Op::Push => Heard::PushFailed(words),
                        _ => Heard::Failure(words),
                    },
                }
            } else {
                Heard::Nonsense
            }
        },
        _ => Heard::Nonsense,
    }
}

/// A machine, the place it works at, and what it waits for.
pub struct Driver<M> {
    pub place: Place,
    pub machine: M,
    /// The operation whose reply is awaited.
    pub asked: Op,
    /// The words of the last failure.
    pub words: String,
    /// A push failed, and it was asked whether its source is still there.
    pub rechecking: bool,
}

/// What a [`Driver`] holds.
pub struct DriverView<M> {
    pub place: Place<Seq<char>>,
    pub machine: M,
    pub asked: Op,
    pub words: Seq<char>,
    pub rechecking: bool,
}

impl<M> View for Driver<M> {
    type V = DriverView<M>;

    open spec fn view(&self) -> DriverView<M> {
        DriverView {
            place: self.place@,
            machine: self.machine,
            asked: self.asked,
            words: self.words@,
            rechecking: self.rechecking,
        }
    }
}

impl<M: ItemMachine> DriverView<M> {
    /// A machine that was not started yet.
    pub open spec fn fresh(place: Place<Seq<char>>, machine: M) -> DriverView<M> {
        DriverView {
            place,
            machine,
            asked: Op::Finish,
            words: Seq::empty(),
            rechecking: false,
        }
    }

    /// The machine takes in a fact; `words` are those of the last failure.
    pub open spec fn advance(self, words: Seq<char>, fact: Fact) -> (DriverView<M>, MoveView) {
        let (machine, answer) = self.machine.after(fact);
        (
            DriverView { machine, asked: answer.op, words, rechecking: false, ..self },
            MoveView {
                effects: self.place.effects(words, answer.notes),
                step: self.place.step(answer.op),
            },
        )
    }

    /// The machine takes in a reply.
    pub open spec fn next(self, reply: Reply) -> (DriverView<M>, MoveView) {
        let stuck = (self, MoveView { effects: Seq::empty(), step: Step::Fault });
        if self.rechecking {
            match reply {
                Reply::Flag(there) => if there {
                    self.advance(self.words, Fact::Failed)
                } else {
                    self.advance(self.words, Fact::SourceGone)
                },
                _ => stuck,
            }
        } else {
            match heard(self.asked, self.place.remote_path, reply) {
                HeardView::Fact(fact) => self.advance(self.words, fact),
                HeardView::Failure(words) => self.advance(words, Fact::Failed),
                HeardView::PushFailed(words) => (
                    DriverView { words, rechecking: true, ..self },
                    MoveView {
                        effects: Seq::empty(),
                        step: Step::Ask(Request::Exists(self.place.local_path)),
                    },
                ),
                HeardView::Nonsense => stuck,
            }
        }
    }
}

impl<M: ItemMachine> Driver<M> {
    /// The machine at its place, not started yet.
    pub fn new(place: Place, machine: M) -> (driver: Driver<M>)
        ensures
            driver@ == DriverView::<M>::fresh(place@, machine),
    {
        proof {
            reveal_strlit("");
        }
        let words = "".to_owned();
        assert(words@ =~= Seq::empty());
        Driver { place, machine, asked: Op::Finish, words, rechecking: false }
    }

    /// Hands the machine a fact that needs no reply, such as [`Fact::Done`]
    /// once what is inside the item is synced.
    pub fn advance(&mut self, fact: Fact) -> (result: Move)
        ensures
            (final(self)@, result@) == old(self)@.advance(old(self)@.words, fact),
    {
        let answer = self.machine.step(fact);
        self.asked = answer.op;
        self.rechecking = false;
        let effects = self.place.effects_of(&self.words, &answer.notes);
        Move { effects, step: self.place.step_of(answer.op) }
    }

    fn stuck(&self) -> (result: Move)
        ensures
            result@ == (MoveView { effects: Seq::empty(), step: Step::Fault }),
    {
        let result = Move { effects: Vec::new(), step: Step::Fault };
        result
    }

    /// Hands the machine a reply.
    pub fn step(&mut self, reply: Reply) -> (result: Move)
        ensures
            (final(self)@, result@) == old(self)@.next(reply),
    {
        if self.rechecking {
            match reply {
                Reply::Flag(there) => {
                    match push_tolerating_source_race(Err(self.words.clone()), there) {
                        PushOutcome::Failed(_) => self.advance(Fact::Failed),
                        _ => self.advance(Fact::SourceGone),
                    }
                },
                _ => self.stuck(),
            }
        } else {
            match hear(self.asked, self.place.remote_path.as_str(), reply) {
                Heard::Fact(fact) => self.advance(fact),
                Heard::Failure(words) => {
                    self.words = words;
                    self.advance(Fact::Failed)
                },
                Heard::PushFailed(words) => {
                    self.words = words;
                    self.rechecking = true;
                    let result = Move {
                        effects: Vec::new(),
                        step: Step::Ask(Request::Exists(self.place.local_path.clone())),
                    };
                    result
                },
                Heard::Nonsense => self.stuck(),
            }
        }
    }
}

/// The turn of a pass that is over with its only item.
pub open spec fn whole_turn(result: MoveView) -> TurnView<()> {
    TurnView {
        effects: result.effects,
        next: match result.step {
            Step::Ask(request) => Next::Ask(request),
            Step::Over => Next::Done(()),
            _ => Next::Fault,
        },
    }
}

/// The turn of a pass that is over with its only item.
pub fn as_whole_turn(result: Move) -> (turn: Turn<()>)
    ensures
        turn@ == whole_turn(result@),
{
    Turn {
        effects: result.effects,
        next: match result.step {
            Step::Ask(request) => Next::Ask(request),
            Step::Over => Next::Done(()),
            _ => Next::Fault,
        },
    }
}

/// What is heard of an operation is something that the operation can give.
pub proof fn law_heard_facts_fit(asked: Op, remote_path: Seq<char>, reply: Reply)
    requires
        reply !is Begin,
    ensures
        match heard(asked, remote_path, reply) {
            HeardView::Fact(fact) => ops::fits(asked, fact),
            HeardView::Failure(_) => ops::fits(asked, Fact::Failed),
            HeardView::PushFailed(_) => ops::fits(asked, Fact::Failed) && ops::fits(
                asked,
                Fact::SourceGone,
            ),
            HeardView::Nonsense => true,
        },
{
}

} // verus!
