//! Syncs one item of a remote directory.

use vstd::prelude::*;

use crate::item_laws::ItemMachine;
use crate::ops;
use crate::ops::{
    asking, telling, telling_if, Answer, AnswerView, Destruction, Fact, Note, Op, RemoteFact,
    RowFact, Side, Transfer,
};

verus! {

/// What was asked last.
#[derive(Clone, Copy, Debug, PartialEq, Eq, Structural)]
pub enum RemoteStage {
    Start,
    Time,
    Row,
    Conflict,
    Missing,
    RemoveStatus,
    Removing,
    PushDir,
    PushDelete,
    PushMkdir,
    PushPurge,
    PushDescend,
    PushExamined,
    PushStatus,
    Pushing,
    PushedStat,
    PushedTime { remote_time: i64 },
    PullThere,
    PullDir,
    PullTree,
    PullFile,
    PullMake,
    PullTarget,
    PullCreate,
    PullDescend,
    PullExamined,
    PullStatus,
    Pulling,
    PulledTime,
    NewTime,
    NewStat { local_time: u64 },
    Over,
}

/// Syncs one item of a remote directory; `remote` is what the listing said
/// of it.
#[derive(Clone, Copy, Debug, PartialEq, Eq, Structural)]
pub struct RemoteEntry {
    pub remote: RemoteFact,
    pub time: Option<u64>,
    pub row: Option<RowFact>,
    pub stage: RemoteStage,
}

impl RemoteEntry {
    /// With another stage.
    pub open spec fn at(self, stage: RemoteStage) -> RemoteEntry {
        RemoteEntry { stage, ..self }
    }

    /// Asks for an operation.
    pub open spec fn to(self, stage: RemoteStage, op: Op) -> (RemoteEntry, AnswerView) {
        (self.at(stage), ops::ask(op))
    }

    /// Reports something and asks for an operation.
    pub open spec fn with(self, stage: RemoteStage, note: Note, op: Op) -> (
        RemoteEntry,
        AnswerView,
    ) {
        (self.at(stage), ops::tell(seq![note], op))
    }

    /// Reports something if wanted and asks for an operation.
    pub open spec fn with_if(self, wanted: bool, stage: RemoteStage, note: Note, op: Op) -> (
        RemoteEntry,
        AnswerView,
    ) {
        (self.at(stage), ops::tell_if(wanted, note, op))
    }

    /// Gives up.
    pub open spec fn fault(self) -> (RemoteEntry, AnswerView) {
        self.to(RemoteStage::Over, Op::Fault)
    }

    /// Finishes without a word.
    pub open spec fn done(self) -> (RemoteEntry, AnswerView) {
        self.to(RemoteStage::Over, Op::Finish)
    }

    /// Finishes with a note.
    pub open spec fn done_with(self, note: Note) -> (RemoteEntry, AnswerView) {
        self.with(RemoteStage::Over, note, Op::Finish)
    }

    /// Starts to push what is at the local path: is it a directory?
    pub open spec fn push(self) -> (RemoteEntry, AnswerView) {
        self.to(RemoteStage::PushDir, Op::IsDir)
    }

    /// Starts to pull the remote item: is there something at the local path?
    pub open spec fn pull(self) -> (RemoteEntry, AnswerView) {
        self.to(RemoteStage::PullThere, Op::Exists)
    }

    /// Goes on pulling with nothing in the way.
    pub open spec fn pull_on(self) -> (RemoteEntry, AnswerView) {
        if self.remote.is_dir {
            self.to(RemoteStage::PullTarget, Op::Exists)
        } else {
            self.to(RemoteStage::PullStatus, Op::StillOnRecord)
        }
    }

    /// Where a pulled item's local time is read.
    pub open spec fn record_stage(self) -> RemoteStage {
        if self.row is Some {
            RemoteStage::PulledTime
        } else {
            RemoteStage::NewTime
        }
    }

    /// The decision, from the local time, the listed item and the row.
    pub open spec fn decide(self) -> (RemoteEntry, AnswerView) {
        match self.row {
            Some(known) => {
                let local_newer = self.time matches Some(time) && time > known.local_time as u64;
                let remote_newer = self.remote.time > known.remote_time;
                if local_newer && remote_newer {
                    self.to(RemoteStage::Conflict, Op::IsDir)
                } else if local_newer {
                    self.push()
                } else if remote_newer {
                    self.pull()
                } else {
                    self.to(RemoteStage::Missing, Op::Exists)
                }
            },
            None => if self.time matches Some(time) && time > self.remote.time as u64 {
                self.push()
            } else {
                self.pull()
            },
        }
    }

    /// Neither side is newer than recorded: mirror a local deletion where the
    /// remote is as recorded, leave an unchanged item alone.
    pub open spec fn mirror(self, there: bool) -> (RemoteEntry, AnswerView) {
        match self.row {
            Some(known) => if !there && self.remote.time == known.remote_time {
                self.with(
                    RemoteStage::RemoveStatus,
                    Note::Destructive(Destruction::DeleteRemoteMirroringLocal),
                    Op::StillOnRecord,
                )
            } else if self.time == Some(known.local_time as u64) && self.remote.time
                == known.remote_time {
                self.done()
            } else {
                self.fault()
            },
            None => self.fault(),
        }
    }

    /// It is known whether a directory is to be pushed: what is in the way on
    /// the remote goes first.
    pub open spec fn push_type(self, is_dir: bool) -> (RemoteEntry, AnswerView) {
        if is_dir && !self.remote.is_dir {
            self.with(
                RemoteStage::PushDelete,
                Note::Destructive(Destruction::DeleteRemoteFileOnTypeMismatch),
                Op::DeleteFile,
            )
        } else if is_dir {
            self.to(RemoteStage::PushDescend, Op::Descend)
        } else if self.remote.is_dir {
            self.with(
                RemoteStage::PushPurge,
                Note::Destructive(Destruction::PurgeRemoteDirOnTypeMismatch),
                Op::Purge,
            )
        } else {
            self.to(RemoteStage::PushStatus, Op::StillOnRecord)
        }
    }

    /// It is known whether a directory is at the local path: what is in the
    /// way there goes first.
    pub open spec fn pull_type(self, is_dir: bool) -> (RemoteEntry, AnswerView) {
        if is_dir && !self.remote.is_dir {
            self.with(
                RemoteStage::PullTree,
                Note::Destructive(Destruction::RemoveLocalOnTypeMismatch),
                Op::RemoveTree,
            )
        } else if !is_dir && self.remote.is_dir {
            self.with(
                RemoteStage::PullFile,
                Note::Destructive(Destruction::RemoveLocalOnTypeMismatch),
                Op::RemoveFile,
            )
        } else {
            self.pull_on()
        }
    }

    /// The next stage and answer.
    pub open spec fn next(self, fact: Fact) -> (RemoteEntry, AnswerView) {
        match (self.stage, fact) {
            (RemoteStage::Start, Fact::Begin) => self.to(RemoteStage::Time, Op::StrictTime),
            (RemoteStage::Time, Fact::Time(time)) => (RemoteEntry { time, ..self }).to(
                RemoteStage::Row,
                Op::FindRow,
            ),
            (RemoteStage::Row, Fact::Row(row)) => (RemoteEntry { row, ..self }).decide(),
            // Two directories that both changed did so because of what is
            // inside them.
            (RemoteStage::Conflict, Fact::Flag(is_dir)) => if is_dir && self.remote.is_dir {
                self.done()
            } else {
                self.done_with(Note::Conflict)
            },
            (RemoteStage::Missing, Fact::Flag(there)) => self.mirror(there),
            (RemoteStage::RemoveStatus, Fact::Flag(on_record)) => self.with_if(
                on_record,
                RemoteStage::Removing,
                Note::Status(Transfer::RemoveRemote),
                if self.remote.is_dir {
                    Op::Purge
                } else {
                    Op::DeleteFile
                },
            ),
            (RemoteStage::Removing, Fact::Done) => self.done_with(Note::DropRow),
            (RemoteStage::Removing, Fact::Failed) => self.done_with(Note::Failure(Side::Remote)),
            (RemoteStage::PushDir, Fact::Flag(is_dir)) => self.push_type(is_dir),
            (RemoteStage::PushDelete, Fact::Done) => self.to(RemoteStage::PushMkdir, Op::Mkdir),
            (RemoteStage::PushDelete, Fact::Failed) => self.done_with(Note::Failure(Side::Remote)),
            (RemoteStage::PushMkdir, Fact::Done) => self.to(RemoteStage::PushDescend, Op::Descend),
            (RemoteStage::PushMkdir, Fact::Failed) => self.done_with(Note::Failure(Side::Remote)),
            (RemoteStage::PushPurge, Fact::Done) => self.to(
                RemoteStage::PushStatus,
                Op::StillOnRecord,
            ),
            (RemoteStage::PushPurge, Fact::Failed) => self.done_with(Note::Failure(Side::Remote)),
            (RemoteStage::PushDescend, Fact::Done) => self.to(
                RemoteStage::PushExamined,
                Op::StillOnRecord,
            ),
            (RemoteStage::PushExamined, Fact::Flag(on_record)) => self.with_if(
                on_record,
                RemoteStage::PushedStat,
                Note::Examining,
                Op::Stat,
            ),
            (RemoteStage::PushStatus, Fact::Flag(on_record)) => self.with_if(
                on_record,
                RemoteStage::Pushing,
                Note::Status(Transfer::Upload),
                Op::Upload,
            ),
            (RemoteStage::Pushing, Fact::Done) => self.to(RemoteStage::PushedStat, Op::Stat),
            (RemoteStage::Pushing, Fact::Failed) => self.done_with(Note::Failure(Side::Remote)),
            (RemoteStage::PushedStat, Fact::Remote(Some(item))) => if self.row is Some {
                self.to(RemoteStage::PushedTime { remote_time: item.time }, Op::StrictTime)
            } else {
                self.to(RemoteStage::NewTime, Op::StrictTime)
            },
            (RemoteStage::PushedTime { remote_time }, Fact::Time(Some(time))) => match self.row {
                Some(known) => self.done_with(
                    Note::UpdateRow { id: known.id, local_time: time as i64, remote_time },
                ),
                None => self.fault(),
            },
            (RemoteStage::PullThere, Fact::Flag(there)) => if there {
                self.to(RemoteStage::PullDir, Op::IsDir)
            } else {
                self.pull_on()
            },
            (RemoteStage::PullDir, Fact::Flag(is_dir)) => self.pull_type(is_dir),
            (RemoteStage::PullTree, Fact::Done) => self.pull_on(),
            (RemoteStage::PullTree, Fact::Failed) => self.done_with(Note::Failure(Side::Local)),
            (RemoteStage::PullFile, Fact::Done) => self.to(RemoteStage::PullMake, Op::CreateDir),
            (RemoteStage::PullFile, Fact::Failed) => self.done_with(Note::Failure(Side::Local)),
            (RemoteStage::PullMake, Fact::Done) => self.pull_on(),
            (RemoteStage::PullMake, Fact::Failed) => self.done_with(Note::Failure(Side::Local)),
            (RemoteStage::PullTarget, Fact::Flag(there)) => if there {
                self.to(RemoteStage::PullDescend, Op::Descend)
            } else {
                self.to(RemoteStage::PullCreate, Op::CreateDir)
            },
            (RemoteStage::PullCreate, Fact::Done) => self.to(RemoteStage::PullDescend, Op::Descend),
            (RemoteStage::PullCreate, Fact::Failed) => self.done_with(Note::Failure(Side::Local)),
            (RemoteStage::PullDescend, Fact::Done) => self.to(
                RemoteStage::PullExamined,
                Op::StillOnRecord,
            ),
            (RemoteStage::PullExamined, Fact::Flag(on_record)) => self.with_if(
                on_record,
                self.record_stage(),
                Note::Examining,
                Op::StrictTime,
            ),
            (RemoteStage::PullStatus, Fact::Flag(on_record)) => self.with_if(
                on_record,
                RemoteStage::Pulling,
                Note::Status(Transfer::Download),
                Op::Download,
            ),
            (RemoteStage::Pulling, Fact::Done) => self.to(self.record_stage(), Op::StrictTime),
            (RemoteStage::Pulling, Fact::Failed) => self.done_with(Note::Failure(Side::Remote)),
            (RemoteStage::PulledTime, Fact::Time(Some(time))) => match self.row {
                Some(known) => self.with(
                    RemoteStage::NewTime,
                    Note::UpdateRow {
                        id: known.id,
                        local_time: time as i64,
                        remote_time: self.remote.time,
                    },
                    Op::StrictTime,
                ),
                None => self.fault(),
            },
            (RemoteStage::NewTime, Fact::Time(Some(local_time))) => self.to(
                RemoteStage::NewStat { local_time },
                Op::Stat,
            ),
            (RemoteStage::NewStat { local_time }, Fact::Remote(Some(item))) => self.done_with(
                Note::InsertRow { local_time: local_time as i64, remote_time: item.time },
            ),
            (RemoteStage::NewStat { .. }, Fact::Failed) => self.done_with(
                Note::Failure(Side::Remote),
            ),
            _ => self.fault(),
        }
    }

    /// The machine for a listed item.
    pub fn new(remote: RemoteFact) -> (item: RemoteEntry)
        ensures
            item == (RemoteEntry { remote, time: None, row: None, stage: RemoteStage::Start }),
    {
        RemoteEntry { remote, time: None, row: None, stage: RemoteStage::Start }
    }

    fn asks(&mut self, stage: RemoteStage, op: Op) -> (answer: Answer)
        ensures
            (*final(self), answer@) == old(self).to(stage, op),
    {
        self.stage = stage;
        asking(op)
    }

    fn tells(&mut self, stage: RemoteStage, note: Note, op: Op) -> (answer: Answer)
        ensures
            (*final(self), answer@) == old(self).with(stage, note, op),
    {
        self.stage = stage;
        telling(note, op)
    }

    fn tells_if(&mut self, wanted: bool, stage: RemoteStage, note: Note, op: Op) -> (answer: Answer)
        ensures
            (*final(self), answer@) == old(self).with_if(wanted, stage, note, op),
    {
        self.stage = stage;
        telling_if(wanted, note, op)
    }

    fn faults(&mut self) -> (answer: Answer)
        ensures
            (*final(self), answer@) == old(self).fault(),
    {
        self.asks(RemoteStage::Over, Op::Fault)
    }

    fn ends(&mut self) -> (answer: Answer)
        ensures
            (*final(self), answer@) == old(self).done(),
    {
        self.asks(RemoteStage::Over, Op::Finish)
    }

    fn ends_with(&mut self, note: Note) -> (answer: Answer)
        ensures
            (*final(self), answer@) == old(self).done_with(note),
    {
        self.tells(RemoteStage::Over, note, Op::Finish)
    }

    fn pulls_on(&mut self) -> (answer: Answer)
        ensures
            (*final(self), answer@) == old(self).pull_on(),
    {
        if self.remote.is_dir {
            self.asks(RemoteStage::PullTarget, Op::Exists)
        } else {
            self.asks(RemoteStage::PullStatus, Op::StillOnRecord)
        }
    }

    fn recording(&self) -> (stage: RemoteStage)
        ensures
            stage == self.record_stage(),
    {
        if self.row.is_some() {
            RemoteStage::PulledTime
        } else {
            RemoteStage::NewTime
        }
    }

    fn decides(&mut self) -> (answer: Answer)
        ensures
            (*final(self), answer@) == old(self).decide(),
    {
        match self.row {
            Some(known) => {
                let local_newer = match self.time {
                    Some(time) => time > known.local_time as u64,
                    None => false,
                };
                let remote_newer = self.remote.time > known.remote_time;
                if local_newer && remote_newer {
                    self.asks(RemoteStage::Conflict, Op::IsDir)
                } else if local_newer {
                    self.asks(RemoteStage::PushDir, Op::IsDir)
                } else if remote_newer {
                    self.asks(RemoteStage::PullThere, Op::Exists)
                } else {
                    self.asks(RemoteStage::Missing, Op::Exists)
                }
            },
            None => {
                let local_newer = match self.time {
                    Some(time) => time > self.remote.time as u64,
                    None => false,
                };
                if local_newer {
                    self.asks(RemoteStage::PushDir, Op::IsDir)
                } else {
                    self.asks(RemoteStage::PullThere, Op::Exists)
                }
            },
        }
    }

    fn mirrors(&mut self, there: bool) -> (answer: Answer)
        ensures
            (*final(self), answer@) == old(self).mirror(there),
    {
        match self.row {
            Some(known) => {
                let local_same = match self.time {
                    Some(time) => time == known.local_time as u64,
                    None => false,
                };
                if !there && self.remote.time == known.remote_time {
                    self.tells(
                        RemoteStage::RemoveStatus,
                        Note::Destructive(Destruction::DeleteRemoteMirroringLocal),
                        Op::StillOnRecord,
                    )
                } else if local_same && self.remote.time == known.remote_time {
                    self.ends()
                } else {
                    self.faults()
                }
            },
            None => self.faults(),
        }
    }

    fn pushes_type(&mut self, is_dir: bool) -> (answer: Answer)
        ensures
            (*final(self), answer@) == old(self).push_type(is_dir),
    {
        if is_dir && !self.remote.is_dir {
            self.tells(
                RemoteStage::PushDelete,
                Note::Destructive(Destruction::DeleteRemoteFileOnTypeMismatch),
                Op::DeleteFile,
            )
        } else if is_dir {
            self.asks(RemoteStage::PushDescend, Op::Descend)
        } else if self.remote.is_dir {
            self.tells(
                RemoteStage::PushPurge,
                Note::Destructive(Destruction::PurgeRemoteDirOnTypeMismatch),
                Op::Purge,
            )
        } else {
            self.asks(RemoteStage::PushStatus, Op::StillOnRecord)
        }
    }

    fn pulls_type(&mut self, is_dir: bool) -> (answer: Answer)
        ensures
            (*final(self), answer@) == old(self).pull_type(is_dir),
    {
        if is_dir && !self.remote.is_dir {
            self.tells(
                RemoteStage::PullTree,
                Note::Destructive(Destruction::RemoveLocalOnTypeMismatch),
                Op::RemoveTree,
            )
        } else if !is_dir && self.remote.is_dir {
            self.tells(
                RemoteStage::PullFile,
                Note::Destructive(Destruction::RemoveLocalOnTypeMismatch),
                Op::RemoveFile,
            )
        } else {
            self.pulls_on()
        }
    }

    fn take_in(&mut self, fact: Fact) -> (answer: Answer)
        ensures
            (*final(self), answer@) == old(self).next(fact),
    {
        match (self.stage, fact) {
            (RemoteStage::Start, Fact::Begin) => self.asks(RemoteStage::Time, Op::StrictTime),
            (RemoteStage::Time, Fact::Time(time)) => {
                self.time = time;
                self.asks(RemoteStage::Row, Op::FindRow)
            },
            (RemoteStage::Row, Fact::Row(row)) => {
                self.row = row;
                self.decides()
            },
            (RemoteStage::Conflict, Fact::Flag(is_dir)) => if is_dir && self.remote.is_dir {
                self.ends()
            } else {
                self.ends_with(Note::Conflict)
            },
            (RemoteStage::Missing, Fact::Flag(there)) => self.mirrors(there),
            (RemoteStage::RemoveStatus, Fact::Flag(on_record)) => {
                let op = if self.remote.is_dir {
                    Op::Purge
                } else {
                    Op::DeleteFile
                };
                self.tells_if(
                    on_record,
                    RemoteStage::Removing,
                    Note::Status(Transfer::RemoveRemote),
                    op,
                )
            },
            (RemoteStage::Removing, Fact::Done) => self.ends_with(Note::DropRow),
            (RemoteStage::Removing, Fact::Failed) => self.ends_with(Note::Failure(Side::Remote)),
            (RemoteStage::PushDir, Fact::Flag(is_dir)) => self.pushes_type(is_dir),
            (RemoteStage::PushDelete, Fact::Done) => self.asks(RemoteStage::PushMkdir, Op::Mkdir),
            (RemoteStage::PushDelete, Fact::Failed) => self.ends_with(Note::Failure(Side::Remote)),
            (RemoteStage::PushMkdir, Fact::Done) => self.asks(
                RemoteStage::PushDescend,
                Op::Descend,
            ),
            (RemoteStage::PushMkdir, Fact::Failed) => self.ends_with(Note::Failure(Side::Remote)),
            (RemoteStage::PushPurge, Fact::Done) => self.asks(
                RemoteStage::PushStatus,
                Op::StillOnRecord,
            ),
            (RemoteStage::PushPurge, Fact::Failed) => self.ends_with(Note::Failure(Side::Remote)),
            (RemoteStage::PushDescend, Fact::Done) => self.asks(
                RemoteStage::PushExamined,
                Op::StillOnRecord,
            ),
            (RemoteStage::PushExamined, Fact::Flag(on_record)) => self.tells_if(
                on_record,
                RemoteStage::PushedStat,
                Note::Examining,
                Op::Stat,
            ),
            (RemoteStage::PushStatus, Fact::Flag(on_record)) => self.tells_if(
                on_record,
                RemoteStage::Pushing,
                Note::Status(Transfer::Upload),
                Op::Upload,
            ),
            (RemoteStage::Pushing, Fact::Done) => self.asks(RemoteStage::PushedStat, Op::Stat),
            (RemoteStage::Pushing, Fact::Failed) => self.ends_with(Note::Failure(Side::Remote)),
            (RemoteStage::PushedStat, Fact::Remote(Some(item))) => if self.row.is_some() {
                self.asks(RemoteStage::PushedTime { remote_time: item.time }, Op::StrictTime)
            } else {
                self.asks(RemoteStage::NewTime, Op::StrictTime)
            },
            (RemoteStage::PushedTime { remote_time }, Fact::Time(Some(time))) => match self.row {
                Some(known) => self.ends_with(
                    Note::UpdateRow { id: known.id, local_time: time as i64, remote_time },
                ),
                None => self.faults(),
            },
            (RemoteStage::PullThere, Fact::Flag(there)) => if there {
                self.asks(RemoteStage::PullDir, Op::IsDir)
            } else {
                self.pulls_on()
            },
            (RemoteStage::PullDir, Fact::Flag(is_dir)) => self.pulls_type(is_dir),
            (RemoteStage::PullTree, Fact::Done) => self.pulls_on(),
            (RemoteStage::PullTree, Fact::Failed) => self.ends_with(Note::Failure(Side::Local)),
            (RemoteStage::PullFile, Fact::Done) => self.asks(RemoteStage::PullMake, Op::CreateDir),
            (RemoteStage::PullFile, Fact::Failed) => self.ends_with(Note::Failure(Side::Local)),
            (RemoteStage::PullMake, Fact::Done) => self.pulls_on(),
            (RemoteStage::PullMake, Fact::Failed) => self.ends_with(Note::Failure(Side::Local)),
            (RemoteStage::PullTarget, Fact::Flag(there)) => if there {
                self.asks(RemoteStage::PullDescend, Op::Descend)
            } else {
                self.asks(RemoteStage::PullCreate, Op::CreateDir)
            },
            (RemoteStage::PullCreate, Fact::Done) => self.asks(
                RemoteStage::PullDescend,
                Op::Descend,
            ),
            (RemoteStage::PullCreate, Fact::Failed) => self.ends_with(Note::Failure(Side::Local)),
            (RemoteStage::PullDescend, Fact::Done) => self.asks(
                RemoteStage::PullExamined,
                Op::StillOnRecord,
            ),
            (RemoteStage::PullExamined, Fact::Flag(on_record)) => {
                let stage = self.recording();
                self.tells_if(on_record, stage, Note::Examining, Op::StrictTime)
            },
            (RemoteStage::PullStatus, Fact::Flag(on_record)) => self.tells_if(
                on_record,
                RemoteStage::Pulling,
                Note::Status(Transfer::Download),
                Op::Download,
            ),
            (RemoteStage::Pulling, Fact::Done) => {
                let stage = self.recording();
                self.asks(stage, Op::StrictTime)
            },
            (RemoteStage::Pulling, Fact::Failed) => self.ends_with(Note::Failure(Side::Remote)),
            (RemoteStage::PulledTime, Fact::Time(Some(time))) => match self.row {
                Some(known) => {
                    let remote_time: i64 = self.remote.time;
                    self.tells(
                        RemoteStage::NewTime,
                        Note::UpdateRow { id: known.id, local_time: time as i64, remote_time },
                        Op::StrictTime,
                    )
                },
                None => self.faults(),
            },
            (RemoteStage::NewTime, Fact::Time(Some(local_time))) => self.asks(
                RemoteStage::NewStat { local_time },
                Op::Stat,
            ),
            (RemoteStage::NewStat { local_time }, Fact::Remote(Some(item))) => self.ends_with(
                Note::InsertRow { local_time: local_time as i64, remote_time: item.time },
            ),
            (RemoteStage::NewStat { .. }, Fact::Failed) => self.ends_with(
                Note::Failure(Side::Remote),
            ),
            _ => self.faults(),
        }
    }
}

impl ItemMachine for RemoteEntry {
    open spec fn after(self, fact: Fact) -> (RemoteEntry, AnswerView) {
        self.next(fact)
    }

    open spec fn quiet(self) -> bool {
        self.stage is Over
    }

    open spec fn armed(self) -> bool {
        self.stage is RemoveStatus
    }

    open spec fn over(self) -> bool {
        self.stage is Over
    }

    open spec fn rank(self) -> nat {
        match self.stage {
            RemoteStage::Start => 14,
            RemoteStage::Time => 13,
            RemoteStage::Row => 12,
            RemoteStage::PullThere => 11,
            RemoteStage::PullDir => 10,
            RemoteStage::PullFile => 9,
            RemoteStage::PullTree | RemoteStage::PullMake | RemoteStage::PushDir => 8,
            RemoteStage::PullTarget | RemoteStage::PushDelete => 7,
            RemoteStage::PullCreate | RemoteStage::PushMkdir | RemoteStage::PushPurge => 6,
            RemoteStage::PullDescend
            | RemoteStage::PullStatus
            | RemoteStage::PushDescend
            | RemoteStage::PushStatus => 5,
            RemoteStage::PullExamined
            | RemoteStage::Pulling
            | RemoteStage::PushExamined
            | RemoteStage::Pushing => 4,
            RemoteStage::PulledTime | RemoteStage::PushedStat | RemoteStage::Missing => 3,
            RemoteStage::NewTime | RemoteStage::RemoveStatus => 2,
            RemoteStage::NewStat { .. }
            | RemoteStage::PushedTime { .. }
            | RemoteStage::Removing
            | RemoteStage::Conflict => 1,
            RemoteStage::Over => 0,
        }
    }

    fn step(&mut self, fact: Fact) -> (answer: Answer) {
        self.take_in(fact)
    }

    proof fn quiet_stays(self, fact: Fact) {
    }

    proof fn failure_quiets(self, fact: Fact, outcome: Fact) {
    }

    proof fn arms_first(self, fact: Fact) {
        let notes = self.after(fact).1.notes;
        if notes.len() > 0 && notes[0] is Destructive {
            assert(ops::announces(notes));
        }
    }

    proof fn rank_falls(self, fact: Fact) {
    }
}

/// A local deletion is mirrored on the remote only where the item was
/// recorded, is gone locally, and is on the remote as it was recorded.
pub proof fn law_remote_delete_needs_a_matching_row(item: RemoteEntry, fact: Fact, i: int)
    requires
        0 <= i < item.next(fact).1.notes.len(),
        item.next(fact).1.notes[i] == Note::Destructive(Destruction::DeleteRemoteMirroringLocal),
    ensures
        item.stage is Missing,
        fact == Fact::Flag(false),
        item.row matches Some(row) && row.remote_time == item.remote.time,
{
}

/// A removal on the remote that failed leaves the row in place, so that the
/// next pass tries again.
pub proof fn law_failed_remote_delete_keeps_the_row(item: RemoteEntry)
    requires
        item.stage is Removing,
    ensures
        item.next(Fact::Failed) == item.done_with(Note::Failure(Side::Remote)),
        item.next(Fact::Done) == item.done_with(Note::DropRow),
{
}

} // verus!
