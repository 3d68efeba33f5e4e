//! Syncs one entry of a local directory.

use vstd::prelude::*;

use crate::item_laws::ItemMachine;
use crate::ops;
use crate::ops::{
    asking, telling, telling_if, Answer, AnswerView, Destruction, Fact, Note, Op, RemoteFact,
    RowFact, Side, Transfer,
};

verus! {

/// What was asked last.
#[derive(Clone, Copy, Debug, PartialEq, Eq, Structural)]
pub enum LocalStage {
    Start,
    Time,
    Remote,
    Row,
    Conflict,
    PushPurge,
    PushMkdir,
    PushDescend,
    PushExamined,
    PushStatus,
    Pushing,
    PushedStat,
    PushedTime { remote_time: i64 },
    PullTree,
    PullFile,
    PullDescend,
    PullExamined,
    PullStatus,
    Pulling,
    PulledTime,
    NewStat,
    NewStatAgain { remote_time: i64 },
    Verify,
    RemoveStatus,
    RemoveIsDir,
    Removing,
    Over,
}

/// Syncs one entry of a local directory. `is_dir` is what the entry says of
/// itself, where it could be told.
#[derive(Clone, Copy, Debug, PartialEq, Eq, Structural)]
pub struct LocalItem {
    pub is_dir: Option<bool>,
    pub time: u64,
    pub remote: Option<RemoteFact>,
    pub row: Option<RowFact>,
    pub stage: LocalStage,
}

impl LocalItem {
    /// With another stage.
    pub open spec fn at(self, stage: LocalStage) -> LocalItem {
        LocalItem { stage, ..self }
    }

    /// Asks for an operation.
    pub open spec fn to(self, stage: LocalStage, op: Op) -> (LocalItem, AnswerView) {
        (self.at(stage), ops::ask(op))
    }

    /// Reports something and asks for an operation.
    pub open spec fn with(self, stage: LocalStage, note: Note, op: Op) -> (LocalItem, AnswerView) {
        (self.at(stage), ops::tell(seq![note], op))
    }

    /// Reports something if wanted and asks for an operation.
    pub open spec fn with_if(self, wanted: bool, stage: LocalStage, note: Note, op: Op) -> (
        LocalItem,
        AnswerView,
    ) {
        (self.at(stage), ops::tell_if(wanted, note, op))
    }

    /// Gives up.
    pub open spec fn fault(self) -> (LocalItem, AnswerView) {
        self.to(LocalStage::Over, Op::Fault)
    }

    /// Finishes without a word.
    pub open spec fn done(self) -> (LocalItem, AnswerView) {
        self.to(LocalStage::Over, Op::Finish)
    }

    /// Finishes with a note.
    pub open spec fn done_with(self, note: Note) -> (LocalItem, AnswerView) {
        self.with(LocalStage::Over, note, Op::Finish)
    }

    /// Both the entry and the remote item are directories.
    pub open spec fn both_dirs(self) -> bool {
        self.is_dir == Some(true) && (self.remote matches Some(item) && item.is_dir)
    }

    /// Starts to push the entry to the remote: what is in the way there goes
    /// first.
    pub open spec fn push(self) -> (LocalItem, AnswerView) {
        if self.is_dir is None {
            self.fault()
        } else if self.remote is Some && !self.both_dirs() {
            self.with(
                LocalStage::PushPurge,
                Note::Destructive(Destruction::PurgeOnTypeMismatch),
                Op::Purge,
            )
        } else {
            self.push_on()
        }
    }

    /// Goes on pushing with nothing in the way.
    pub open spec fn push_on(self) -> (LocalItem, AnswerView) {
        if self.is_dir == Some(true) {
            self.to(LocalStage::PushMkdir, Op::Mkdir)
        } else {
            self.to(LocalStage::PushStatus, Op::StillOnRecord)
        }
    }

    /// Starts to pull the remote item: what is in the way here goes first.
    pub open spec fn pull(self) -> (LocalItem, AnswerView) {
        if self.is_dir is None {
            self.fault()
        } else if self.both_dirs() {
            self.pull_on()
        } else if self.is_dir == Some(true) {
            self.with(
                LocalStage::PullTree,
                Note::Destructive(Destruction::RemoveLocalOnTypeMismatch),
                Op::RemoveTree,
            )
        } else {
            self.with(
                LocalStage::PullFile,
                Note::Destructive(Destruction::RemoveLocalOnTypeMismatch),
                Op::RemoveFile,
            )
        }
    }

    /// Goes on pulling with nothing in the way.
    pub open spec fn pull_on(self) -> (LocalItem, AnswerView) {
        if self.is_dir == Some(true) {
            self.to(LocalStage::PullDescend, Op::Descend)
        } else {
            self.to(LocalStage::PullStatus, Op::StillOnRecord)
        }
    }

    /// Where a pulled item's times are read to be recorded.
    pub open spec fn record_stage(self) -> (LocalStage, Op) {
        if self.row is Some {
            (LocalStage::PulledTime, Op::EntryTime)
        } else {
            (LocalStage::NewStat, Op::Stat)
        }
    }

    /// The decision, from the entry's time, the remote item and the row.
    pub open spec fn decide(self) -> (LocalItem, AnswerView) {
        match (self.row, self.remote) {
            (Some(known), remote) => {
                let local_newer = self.time > known.local_time as u64;
                let local_same = self.time == known.local_time as u64;
                match remote {
                    Some(item) => if local_newer && item.time > known.remote_time {
                        self.to(LocalStage::Conflict, Op::IsDir)
                    } else if local_newer {
                        self.push()
                    } else if item.time > known.remote_time {
                        self.pull()
                    } else if local_same && item.time == known.remote_time {
                        self.done()
                    } else {
                        self.fault()
                    },
                    None => if local_newer {
                        self.push()
                    } else if local_same {
                        // Gone from the remote: a fresh listing has to
                        // confirm it.
                        self.to(LocalStage::Verify, Op::StillListed)
                    } else {
                        self.fault()
                    },
                }
            },
            (None, Some(item)) => if self.time > item.time as u64 {
                self.push()
            } else {
                self.pull()
            },
            (None, None) => self.push(),
        }
    }

    /// The next stage and answer.
    pub open spec fn next(self, fact: Fact) -> (LocalItem, AnswerView) {
        match (self.stage, fact) {
            (LocalStage::Start, Fact::Begin) => self.to(LocalStage::Time, Op::EntryTime),
            (LocalStage::Time, Fact::Time(Some(time))) => (LocalItem { time, ..self }).to(
                LocalStage::Remote,
                Op::Stat,
            ),
            (LocalStage::Remote, Fact::Remote(remote)) => (LocalItem { remote, ..self }).to(
                LocalStage::Row,
                Op::FindRow,
            ),
            (LocalStage::Remote, Fact::Failed) => self.done_with(Note::Failure(Side::Remote)),
            (LocalStage::Row, Fact::Row(row)) => (LocalItem { row, ..self }).decide(),
            // Two directories that both changed did so because of what is
            // inside them.
            (LocalStage::Conflict, Fact::Flag(is_dir)) => if is_dir && (self.remote matches Some(
                item,
            ) && item.is_dir) {
                self.done()
            } else {
                self.done_with(Note::Conflict)
            },
            (LocalStage::PushPurge, Fact::Done) => self.push_on(),
            (LocalStage::PushPurge, Fact::Failed) => self.done_with(Note::Failure(Side::Remote)),
            (LocalStage::PushMkdir, Fact::Done) => self.to(LocalStage::PushDescend, Op::Descend),
            (LocalStage::PushMkdir, Fact::Failed) => self.done_with(Note::Failure(Side::Remote)),
            (LocalStage::PushDescend, Fact::Done) => self.to(
                LocalStage::PushExamined,
                Op::StillOnRecord,
            ),
            (LocalStage::PushExamined, Fact::Flag(on_record)) => self.with_if(
                on_record,
                LocalStage::PushedStat,
                Note::Examining,
                Op::Stat,
            ),
            (LocalStage::PushStatus, Fact::Flag(on_record)) => self.with_if(
                on_record,
                LocalStage::Pushing,
                Note::Status(Transfer::Upload),
                Op::Upload,
            ),
            (LocalStage::Pushing, Fact::Done) => self.to(LocalStage::PushedStat, Op::Stat),
            (LocalStage::Pushing, Fact::Failed) => self.done_with(Note::Failure(Side::Local)),
            (LocalStage::PushedStat, Fact::Remote(Some(item))) => if self.row is Some {
                self.to(LocalStage::PushedTime { remote_time: item.time }, Op::EntryTime)
            } else {
                self.to(LocalStage::NewStat, Op::Stat)
            },
            (LocalStage::PushedTime { remote_time }, Fact::Time(Some(time))) => match self.row {
                Some(known) => self.done_with(
                    Note::UpdateRow { id: known.id, local_time: time as i64, remote_time },
                ),
                None => self.fault(),
            },
            (LocalStage::PullTree, Fact::Done) => self.to(LocalStage::PullFile, Op::RemoveFile),
            (LocalStage::PullTree, Fact::Failed) => self.done_with(Note::Failure(Side::Local)),
            (LocalStage::PullFile, Fact::Done) => self.pull_on(),
            (LocalStage::PullFile, Fact::Failed) => self.done_with(Note::Failure(Side::Local)),
            (LocalStage::PullDescend, Fact::Done) => self.to(
                LocalStage::PullExamined,
                Op::StillOnRecord,
            ),
            (LocalStage::PullExamined, Fact::Flag(on_record)) => self.with_if(
                on_record,
                self.record_stage().0,
                Note::Examining,
                self.record_stage().1,
            ),
            (LocalStage::PullStatus, Fact::Flag(on_record)) => self.with_if(
                on_record,
                LocalStage::Pulling,
                Note::Status(Transfer::Download),
                Op::Download,
            ),
            (LocalStage::Pulling, Fact::Done) => self.to(
                self.record_stage().0,
                self.record_stage().1,
            ),
            (LocalStage::Pulling, Fact::Failed) => self.done_with(Note::Failure(Side::Remote)),
            (LocalStage::PulledTime, Fact::Time(Some(time))) => match (self.row, self.remote) {
                (Some(known), Some(item)) => self.done_with(
                    Note::UpdateRow {
                        id: known.id,
                        local_time: time as i64,
                        remote_time: item.time,
                    },
                ),
                _ => self.fault(),
            },
            (LocalStage::NewStat, Fact::Remote(Some(item))) => self.to(
                LocalStage::NewStatAgain { remote_time: item.time },
                Op::Stat,
            ),
            (LocalStage::NewStat, Fact::Failed) => self.done_with(Note::Failure(Side::Remote)),
            (LocalStage::NewStatAgain { remote_time }, Fact::Remote(Some(_))) => self.done_with(
                Note::InsertRow { local_time: self.time as i64, remote_time },
            ),
            (LocalStage::NewStatAgain { .. }, Fact::Failed) => self.done_with(
                Note::Failure(Side::Remote),
            ),
            (LocalStage::Verify, Fact::Flag(still_listed)) => if still_listed {
                self.done_with(Note::StillListed)
            } else {
                self.with(
                    LocalStage::RemoveStatus,
                    Note::Destructive(Destruction::LocalDeleteMirroringRemote),
                    Op::StillOnRecord,
                )
            },
            (LocalStage::RemoveStatus, Fact::Flag(on_record)) => self.with_if(
                on_record,
                LocalStage::RemoveIsDir,
                Note::Status(Transfer::RemoveLocal),
                Op::IsDir,
            ),
            (LocalStage::RemoveIsDir, Fact::Flag(is_dir)) => if is_dir {
                self.to(LocalStage::Removing, Op::RemoveTree)
            } else {
                self.to(LocalStage::Removing, Op::RemoveFile)
            },
            (LocalStage::Removing, Fact::Done) => self.done_with(Note::DropRow),
            (LocalStage::Removing, Fact::Failed) => self.done_with(Note::Failure(Side::Local)),
            _ => self.fault(),
        }
    }

    /// The machine for an entry.
    pub fn new(is_dir: Option<bool>) -> (item: LocalItem)
        ensures
            item == (LocalItem {
                is_dir,
                time: 0,
                remote: None,
                row: None,
                stage: LocalStage::Start,
            }),
    {
        LocalItem { is_dir, time: 0, remote: None, row: None, stage: LocalStage::Start }
    }

    fn asks(&mut self, stage: LocalStage, op: Op) -> (answer: Answer)
        ensures
            (*final(self), answer@) == old(self).to(stage, op),
    {
        self.stage = stage;
        asking(op)
    }

    fn tells(&mut self, stage: LocalStage, note: Note, op: Op) -> (answer: Answer)
        ensures
            (*final(self), answer@) == old(self).with(stage, note, op),
    {
        self.stage = stage;
        telling(note, op)
    }

    fn tells_if(&mut self, wanted: bool, stage: LocalStage, note: Note, op: Op) -> (answer: Answer)
        ensures
            (*final(self), answer@) == old(self).with_if(wanted, stage, note, op),
    {
        self.stage = stage;
        telling_if(wanted, note, op)
    }

    fn faults(&mut self) -> (answer: Answer)
        ensures
            (*final(self), answer@) == old(self).fault(),
    {
        self.asks(LocalStage::Over, Op::Fault)
    }

    fn ends(&mut self) -> (answer: Answer)
        ensures
            (*final(self), answer@) == old(self).done(),
    {
        self.asks(LocalStage::Over, Op::Finish)
    }

    fn ends_with(&mut self, note: Note) -> (answer: Answer)
        ensures
            (*final(self), answer@) == old(self).done_with(note),
    {
        self.tells(LocalStage::Over, note, Op::Finish)
    }

    fn remote_is_dir(&self) -> (is_dir: bool)
        ensures
            is_dir == (self.remote matches Some(item) && item.is_dir),
    {
        match self.remote {
            Some(item) => item.is_dir,
            None => false,
        }
    }

    fn pushes(&mut self) -> (answer: Answer)
        ensures
            (*final(self), answer@) == old(self).push(),
    {
        let is_dir = match self.is_dir {
            Some(is_dir) => is_dir,
            None => {
                return self.faults();
            },
        };
        if self.remote.is_some() && !(is_dir && self.remote_is_dir()) {
            self.tells(
                LocalStage::PushPurge,
                Note::Destructive(Destruction::PurgeOnTypeMismatch),
                Op::Purge,
            )
        } else {
            self.pushes_on()
        }
    }

    fn entry_is_dir(&self) -> (is_dir: bool)
        ensures
            is_dir == (self.is_dir == Some(true)),
    {
        match self.is_dir {
            Some(is_dir) => is_dir,
            None => false,
        }
    }

    fn pushes_on(&mut self) -> (answer: Answer)
        ensures
            (*final(self), answer@) == old(self).push_on(),
    {
        if self.entry_is_dir() {
            self.asks(LocalStage::PushMkdir, Op::Mkdir)
        } else {
            self.asks(LocalStage::PushStatus, Op::StillOnRecord)
        }
    }

    fn pulls(&mut self) -> (answer: Answer)
        ensures
            (*final(self), answer@) == old(self).pull(),
    {
        let is_dir = match self.is_dir {
            Some(is_dir) => is_dir,
            None => {
                return self.faults();
            },
        };
        if is_dir && self.remote_is_dir() {
            self.pulls_on()
        } else if is_dir {
            self.tells(
                LocalStage::PullTree,
                Note::Destructive(Destruction::RemoveLocalOnTypeMismatch),
                Op::RemoveTree,
            )
        } else {
            self.tells(
                LocalStage::PullFile,
                Note::Destructive(Destruction::RemoveLocalOnTypeMismatch),
                Op::RemoveFile,
            )
        }
    }

    fn pulls_on(&mut self) -> (answer: Answer)
        ensures
            (*final(self), answer@) == old(self).pull_on(),
    {
        if self.entry_is_dir() {
            self.asks(LocalStage::PullDescend, Op::Descend)
        } else {
            self.asks(LocalStage::PullStatus, Op::StillOnRecord)
        }
    }

    fn recording(&self) -> (place: (LocalStage, Op))
        ensures
            place == self.record_stage(),
    {
        if self.row.is_some() {
            (LocalStage::PulledTime, Op::EntryTime)
        } else {
            (LocalStage::NewStat, Op::Stat)
        }
    }

    fn decides(&mut self) -> (answer: Answer)
        ensures
            (*final(self), answer@) == old(self).decide(),
    {
        match (self.row, self.remote) {
            (Some(known), remote) => {
                let local_newer = self.time > known.local_time as u64;
                let local_same = self.time == known.local_time as u64;
                match remote {
                    Some(item) => {
                        if local_newer && item.time > known.remote_time {
                            self.asks(LocalStage::Conflict, Op::IsDir)
                        } else if local_newer {
                            self.pushes()
                        } else if item.time > known.remote_time {
                            self.pulls()
                        } else if local_same && item.time == known.remote_time {
                            self.ends()
                        } else {
                            self.faults()
                        }
                    },
                    None => {
                        if local_newer {
                            self.pushes()
                        } else if local_same {
                            self.asks(LocalStage::Verify, Op::StillListed)
                        } else {
                            self.faults()
                        }
                    },
                }
            },
            (None, Some(item)) => {
                if self.time > item.time as u64 {
                    self.pushes()
                } else {
                    self.pulls()
                }
            },
            (None, None) => self.pushes(),
        }
    }

    fn take_in(&mut self, fact: Fact) -> (answer: Answer)
        ensures
            (*final(self), answer@) == old(self).next(fact),
    {
        match (self.stage, fact) {
            (LocalStage::Start, Fact::Begin) => self.asks(LocalStage::Time, Op::EntryTime),
            (LocalStage::Time, Fact::Time(Some(time))) => {
                self.time = time;
                self.asks(LocalStage::Remote, Op::Stat)
            },
            (LocalStage::Remote, Fact::Remote(remote)) => {
                self.remote = remote;
                self.asks(LocalStage::Row, Op::FindRow)
            },
            (LocalStage::Remote, Fact::Failed) => self.ends_with(Note::Failure(Side::Remote)),
            (LocalStage::Row, Fact::Row(row)) => {
                self.row = row;
                self.decides()
            },
            (LocalStage::Conflict, Fact::Flag(is_dir)) => {
                if is_dir && self.remote_is_dir() {
                    self.ends()
                } else {
                    self.ends_with(Note::Conflict)
                }
            },
            (LocalStage::PushPurge, Fact::Done) => self.pushes_on(),
            (LocalStage::PushPurge, Fact::Failed) => self.ends_with(Note::Failure(Side::Remote)),
            (LocalStage::PushMkdir, Fact::Done) => self.asks(
                LocalStage::PushDescend,
                Op::Descend,
            ),
            (LocalStage::PushMkdir, Fact::Failed) => self.ends_with(Note::Failure(Side::Remote)),
            (LocalStage::PushDescend, Fact::Done) => self.asks(
                LocalStage::PushExamined,
                Op::StillOnRecord,
            ),
            (LocalStage::PushExamined, Fact::Flag(on_record)) => self.tells_if(
                on_record,
                LocalStage::PushedStat,
                Note::Examining,
                Op::Stat,
            ),
            (LocalStage::PushStatus, Fact::Flag(on_record)) => self.tells_if(
                on_record,
                LocalStage::Pushing,
                Note::Status(Transfer::Upload),
                Op::Upload,
            ),
            (LocalStage::Pushing, Fact::Done) => self.asks(LocalStage::PushedStat, Op::Stat),
            (LocalStage::Pushing, Fact::Failed) => self.ends_with(Note::Failure(Side::Local)),
            (LocalStage::PushedStat, Fact::Remote(Some(item))) => {
                if self.row.is_some() {
                    self.asks(LocalStage::PushedTime { remote_time: item.time }, Op::EntryTime)
                } else {
                    self.asks(LocalStage::NewStat, Op::Stat)
                }
            },
            (LocalStage::PushedTime { remote_time }, Fact::Time(Some(time))) => match self.row {
                Some(known) => self.ends_with(
                    Note::UpdateRow { id: known.id, local_time: time as i64, remote_time },
                ),
                None => self.faults(),
            },
            (LocalStage::PullTree, Fact::Done) => self.asks(LocalStage::PullFile, Op::RemoveFile),
            (LocalStage::PullTree, Fact::Failed) => self.ends_with(Note::Failure(Side::Local)),
            (LocalStage::PullFile, Fact::Done) => self.pulls_on(),
            (LocalStage::PullFile, Fact::Failed) => self.ends_with(Note::Failure(Side::Local)),
            (LocalStage::PullDescend, Fact::Done) => self.asks(
                LocalStage::PullExamined,
                Op::StillOnRecord,
            ),
            (LocalStage::PullExamined, Fact::Flag(on_record)) => {
                let (stage, op) = self.recording();
                self.tells_if(on_record, stage, Note::Examining, op)
            },
            (LocalStage::PullStatus, Fact::Flag(on_record)) => self.tells_if(
                on_record,
                LocalStage::Pulling,
                Note::Status(Transfer::Download),
                Op::Download,
            ),
            (LocalStage::Pulling, Fact::Done) => {
                let (stage, op) = self.recording();
                self.asks(stage, op)
            },
            (LocalStage::Pulling, Fact::Failed) => self.ends_with(Note::Failure(Side::Remote)),
            (LocalStage::PulledTime, Fact::Time(Some(time))) => match (self.row, self.remote) {
                (Some(known), Some(item)) => self.ends_with(
                    Note::UpdateRow {
                        id: known.id,
                        local_time: time as i64,
                        remote_time: item.time,
                    },
                ),
                _ => self.faults(),
            },
            (LocalStage::NewStat, Fact::Remote(Some(item))) => self.asks(
                LocalStage::NewStatAgain { remote_time: item.time },
                Op::Stat,
            ),
            (LocalStage::NewStat, Fact::Failed) => self.ends_with(Note::Failure(Side::Remote)),
            (LocalStage::NewStatAgain { remote_time }, Fact::Remote(Some(_))) => {
                let local_time: i64 = self.time as i64;
                self.ends_with(Note::InsertRow { local_time, remote_time })
            },
            (LocalStage::NewStatAgain { .. }, Fact::Failed) => self.ends_with(
                Note::Failure(Side::Remote),
            ),
            (LocalStage::Verify, Fact::Flag(still_listed)) => {
                if still_listed {
                    self.ends_with(Note::StillListed)
                } else {
                    self.tells(
                        LocalStage::RemoveStatus,
                        Note::Destructive(Destruction::LocalDeleteMirroringRemote),
                        Op::StillOnRecord,
                    )
                }
            },
            (LocalStage::RemoveStatus, Fact::Flag(on_record)) => self.tells_if(
                on_record,
                LocalStage::RemoveIsDir,
                Note::Status(Transfer::RemoveLocal),
                Op::IsDir,
            ),
            (LocalStage::RemoveIsDir, Fact::Flag(is_dir)) => {
                if is_dir {
                    self.asks(LocalStage::Removing, Op::RemoveTree)
                } else {
                    self.asks(LocalStage::Removing, Op::RemoveFile)
                }
            },
            (LocalStage::Removing, Fact::Done) => self.ends_with(Note::DropRow),
            (LocalStage::Removing, Fact::Failed) => self.ends_with(Note::Failure(Side::Local)),
            _ => self.faults(),
        }
    }
}

impl ItemMachine for LocalItem {
    open spec fn after(self, fact: Fact) -> (LocalItem, AnswerView) {
        self.next(fact)
    }

    open spec fn quiet(self) -> bool {
        self.stage is Over
    }

    open spec fn armed(self) -> bool {
        self.stage is RemoveStatus || self.stage is RemoveIsDir || self.stage is PullTree
    }

    open spec fn over(self) -> bool {
        self.stage is Over
    }

    open spec fn rank(self) -> nat {
        match self.stage {
            LocalStage::Start => 11,
            LocalStage::Time => 10,
            LocalStage::Remote => 9,
            LocalStage::Row => 8,
            LocalStage::PushPurge | LocalStage::PullTree => 7,
            LocalStage::PushMkdir | LocalStage::PullFile => 6,
            LocalStage::PushStatus
            | LocalStage::PushDescend
            | LocalStage::PullStatus
            | LocalStage::PullDescend => 5,
            LocalStage::Pushing
            | LocalStage::PushExamined
            | LocalStage::Pulling
            | LocalStage::PullExamined
            | LocalStage::Verify => 4,
            LocalStage::PushedStat | LocalStage::RemoveStatus => 3,
            LocalStage::NewStat | LocalStage::RemoveIsDir => 2,
            LocalStage::NewStatAgain { .. }
            | LocalStage::PushedTime { .. }
            | LocalStage::PulledTime
            | LocalStage::Removing
            | LocalStage::Conflict => 1,
            LocalStage::Over => 0,
        }
    }

    fn step(&mut self, fact: Fact) -> (answer: Answer) {
        self.take_in(fact)
    }

    proof fn quiet_stays(self, fact: Fact) {
    }

    proof fn failure_quiets(self, fact: Fact, outcome: Fact) {
    }

    proof fn arms_first(self, fact: Fact) {
        let notes = self.after(fact).1.notes;
        if notes.len() > 0 && notes[0] is Destructive {
            assert(ops::announces(notes));
        }
    }

    proof fn rank_falls(self, fact: Fact) {
    }
}

/// A deletion on the remote is mirrored locally only once a fresh listing
/// did not show the item: the stat that missed it is not enough.
pub proof fn law_local_delete_needs_a_listing(item: LocalItem, fact: Fact, i: int)
    requires
        0 <= i < item.next(fact).1.notes.len(),
        item.next(fact).1.notes[i] == Note::Destructive(Destruction::LocalDeleteMirroringRemote),
    ensures
        item.stage is Verify,
        fact == Fact::Flag(false),
{
}

/// A deletion that a fresh listing does not confirm, or whose listing fails,
/// is not mirrored, and the log says so.
pub proof fn law_unconfirmed_deletion_is_logged(item: LocalItem)
    requires
        item.stage is Verify,
    ensures
        item.next(Fact::Flag(true)) == item.done_with(Note::StillListed),
{
}

/// When the remote cannot be asked about an item, nothing is done to it.
pub proof fn law_failed_stat_does_nothing(item: LocalItem)
    requires
        item.stage is Remote,
    ensures
        item.next(Fact::Failed) == item.done_with(Note::Failure(Side::Remote)),
{
}

/// An item that is as it was recorded on both sides is left alone.
pub proof fn law_unchanged_item_is_left_alone(item: LocalItem, row: RowFact)
    requires
        item.stage is Row,
        item.time == row.local_time as u64,
        item.remote matches Some(found) && found.time == row.remote_time,
    ensures
        item.next(Fact::Row(Some(row))).1 == ops::ask(Op::Finish),
{
}

} // verus!
