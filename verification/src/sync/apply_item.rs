//! Carries out one planned action.

use vstd::prelude::*;

use crate::item_laws::ItemMachine;
use crate::ops;
use crate::ops::{
    asking, telling, telling_both, Answer, AnswerView, Destruction, Fact, Note, Op, Side, Transfer,
};

verus! {

/// What kind of action is carried out.
#[derive(Clone, Copy, Debug, PartialEq, Eq, Structural)]
pub enum Deed {
    Upload,
    Download,
    DeleteLocal,
    DeleteRemote,
    ClearRow,
    Conflict,
}

/// What was asked last.
#[derive(Clone, Copy, Debug, PartialEq, Eq, Structural)]
pub enum ApplyStage {
    Start,
    SourceThere,
    MakingRemoteDir,
    Uploading,
    TargetThere,
    MakingLocalDir,
    Downloading,
    LocalTime,
    RemoteTime { local_time: u64 },
    Row { local_time: u64, remote_time: i64 },
    RemovingLocal,
    RemovingRemote,
    Over,
}

/// Carries out one action.
#[derive(Clone, Copy, Debug, PartialEq, Eq, Structural)]
pub struct ApplyItem {
    pub deed: Deed,
    pub is_dir: bool,
    pub stage: ApplyStage,
}

impl ApplyItem {
    /// The machine with another stage.
    pub open spec fn at(self, stage: ApplyStage) -> ApplyItem {
        ApplyItem { stage, ..self }
    }

    /// What it does first.
    pub open spec fn opening(self) -> (ApplyItem, AnswerView) {
        match self.deed {
            Deed::Upload => (self.at(ApplyStage::SourceThere), ops::ask(Op::Exists)),
            Deed::Download => if self.is_dir {
                (self.at(ApplyStage::TargetThere), ops::ask(Op::Exists))
            } else {
                (
                    self.at(ApplyStage::Downloading),
                    ops::tell(
                        seq![Note::MakeParents, Note::Status(Transfer::Download)],
                        Op::Download,
                    ),
                )
            },
            Deed::DeleteLocal => (
                self.at(ApplyStage::RemovingLocal),
                ops::tell(
                    seq![
                        Note::Destructive(Destruction::MirrorLocal),
                        Note::Status(Transfer::RemoveLocal),
                    ],
                    if self.is_dir {
                        Op::RemoveTree
                    } else {
                        Op::RemoveFile
                    },
                ),
            ),
            Deed::DeleteRemote => (
                self.at(ApplyStage::RemovingRemote),
                ops::tell(
                    seq![
                        Note::Destructive(Destruction::MirrorRemote),
                        Note::Status(Transfer::RemoveRemote),
                    ],
                    if self.is_dir {
                        Op::Purge
                    } else {
                        Op::DeleteFile
                    },
                ),
            ),
            Deed::ClearRow => (
                self.at(ApplyStage::Over),
                ops::tell(seq![Note::DropRow], Op::Finish),
            ),
            Deed::Conflict => (
                self.at(ApplyStage::Over),
                ops::tell(seq![Note::Conflict], Op::Finish),
            ),
        }
    }

    /// The next stage and answer.
    ///
    /// An upload whose source is gone, before it or once it failed, is no
    /// failure. After a transfer both times are read and recorded, where
    /// both can be read.
    pub open spec fn next(self, fact: Fact) -> (ApplyItem, AnswerView) {
        let over = self.at(ApplyStage::Over);
        let record = (self.at(ApplyStage::LocalTime), ops::ask(Op::LocalTime));
        match (self.stage, fact) {
            (ApplyStage::Start, Fact::Begin) => self.opening(),
            (ApplyStage::SourceThere, Fact::Flag(there)) => if !there {
                (over, ops::ask(Op::Finish))
            } else if self.is_dir {
                (self.at(ApplyStage::MakingRemoteDir), ops::ask(Op::Mkdir))
            } else {
                (
                    self.at(ApplyStage::Uploading),
                    ops::tell(seq![Note::Status(Transfer::Upload)], Op::Push),
                )
            },
            (ApplyStage::MakingRemoteDir, Fact::Done) => record,
            (ApplyStage::MakingRemoteDir, Fact::Failed) => (
                over,
                ops::tell(seq![Note::Failure(Side::Remote)], Op::Finish),
            ),
            (ApplyStage::Uploading, Fact::Done) => record,
            (ApplyStage::Uploading, Fact::Failed) => (
                over,
                ops::tell(seq![Note::Failure(Side::Local)], Op::Finish),
            ),
            (ApplyStage::Uploading, Fact::SourceGone) => (
                over,
                ops::tell(seq![Note::VanishedSource], Op::Finish),
            ),
            (ApplyStage::TargetThere, Fact::Flag(there)) => if there {
                record
            } else {
                (self.at(ApplyStage::MakingLocalDir), ops::ask(Op::CreateDirAll))
            },
            (ApplyStage::MakingLocalDir, Fact::Done) => record,
            (ApplyStage::MakingLocalDir, Fact::Failed) => (
                over,
                ops::tell(seq![Note::Failure(Side::Local)], Op::Finish),
            ),
            (ApplyStage::Downloading, Fact::Done) => record,
            (ApplyStage::Downloading, Fact::Failed) => (
                over,
                ops::tell(seq![Note::Failure(Side::Remote)], Op::Finish),
            ),
            (ApplyStage::LocalTime, Fact::Time(time)) => match time {
                Some(local_time) => (
                    self.at(ApplyStage::RemoteTime { local_time }),
                    ops::ask(Op::Stat),
                ),
                None => (over, ops::ask(Op::Finish)),
            },
            (ApplyStage::RemoteTime { local_time }, Fact::Remote(Some(item))) => (
                self.at(ApplyStage::Row { local_time, remote_time: item.time }),
                ops::ask(Op::FindRow),
            ),
            (ApplyStage::RemoteTime { .. }, Fact::Remote(None)) => (over, ops::ask(Op::Finish)),
            (ApplyStage::RemoteTime { .. }, Fact::Failed) => (over, ops::ask(Op::Finish)),
            (ApplyStage::Row { local_time, remote_time }, Fact::Row(Some(row))) => (
                over,
                ops::tell(
                    seq![
                        Note::UpdateRow { id: row.id, local_time: local_time as i64, remote_time },
                    ],
                    Op::Finish,
                ),
            ),
            (ApplyStage::Row { local_time, remote_time }, Fact::Row(None)) => (
                over,
                ops::tell(
                    seq![Note::InsertRow { local_time: local_time as i64, remote_time }],
                    Op::Finish,
                ),
            ),
            (ApplyStage::RemovingLocal, Fact::Done) => (
                over,
                ops::tell(seq![Note::DropRow], Op::Finish),
            ),
            (ApplyStage::RemovingLocal, Fact::Failed) => (
                over,
                ops::tell(seq![Note::Failure(Side::Local)], Op::Finish),
            ),
            (ApplyStage::RemovingRemote, Fact::Done) => (
                over,
                ops::tell(seq![Note::DropRow], Op::Finish),
            ),
            (ApplyStage::RemovingRemote, Fact::Failed) => (
                over,
                ops::tell(seq![Note::Failure(Side::Remote)], Op::Finish),
            ),
            _ => (over, ops::ask(Op::Fault)),
        }
    }

    /// The machine that carries out an action.
    pub fn new(deed: Deed, is_dir: bool) -> (item: ApplyItem)
        ensures
            item == (ApplyItem { deed, is_dir, stage: ApplyStage::Start }),
    {
        ApplyItem { deed, is_dir, stage: ApplyStage::Start }
    }

    fn ends(&mut self, note: Note) -> (answer: Answer)
        ensures
            *final(self) == old(self).at(ApplyStage::Over),
            answer@ == ops::tell(seq![note], Op::Finish),
    {
        self.stage = ApplyStage::Over;
        telling(note, Op::Finish)
    }

    fn asks(&mut self, stage: ApplyStage, op: Op) -> (answer: Answer)
        ensures
            *final(self) == old(self).at(stage),
            answer@ == ops::ask(op),
    {
        self.stage = stage;
        asking(op)
    }

    fn open_with(&mut self) -> (answer: Answer)
        ensures
            (*final(self), answer@) == old(self).opening(),
    {
        match self.deed {
            Deed::Upload => self.asks(ApplyStage::SourceThere, Op::Exists),
            Deed::Download => {
                if self.is_dir {
                    self.asks(ApplyStage::TargetThere, Op::Exists)
                } else {
                    self.stage = ApplyStage::Downloading;
                    telling_both(
                        Note::MakeParents,
                        Note::Status(Transfer::Download),
                        Op::Download,
                    )
                }
            },
            Deed::DeleteLocal => {
                self.stage = ApplyStage::RemovingLocal;
                telling_both(
                    Note::Destructive(Destruction::MirrorLocal),
                    Note::Status(Transfer::RemoveLocal),
                    if self.is_dir {
                        Op::RemoveTree
                    } else {
                        Op::RemoveFile
                    },
                )
            },
            Deed::DeleteRemote => {
                self.stage = ApplyStage::RemovingRemote;
                telling_both(
                    Note::Destructive(Destruction::MirrorRemote),
                    Note::Status(Transfer::RemoveRemote),
                    if self.is_dir {
                        Op::Purge
                    } else {
                        Op::DeleteFile
                    },
                )
            },
            Deed::ClearRow => self.ends(Note::DropRow),
            Deed::Conflict => self.ends(Note::Conflict),
        }
    }

    fn take_in(&mut self, fact: Fact) -> (answer: Answer)
        ensures
            (*final(self), answer@) == old(self).next(fact),
    {
        match (self.stage, fact) {
            (ApplyStage::Start, Fact::Begin) => self.open_with(),
            (ApplyStage::SourceThere, Fact::Flag(there)) => {
                if !there {
                    self.asks(ApplyStage::Over, Op::Finish)
                } else if self.is_dir {
                    self.asks(ApplyStage::MakingRemoteDir, Op::Mkdir)
                } else {
                    self.stage = ApplyStage::Uploading;
                    telling(Note::Status(Transfer::Upload), Op::Push)
                }
            },
            (ApplyStage::MakingRemoteDir, Fact::Done) => self.asks(
                ApplyStage::LocalTime,
                Op::LocalTime,
            ),
            (ApplyStage::MakingRemoteDir, Fact::Failed) => self.ends(Note::Failure(Side::Remote)),
            (ApplyStage::Uploading, Fact::Done) => self.asks(ApplyStage::LocalTime, Op::LocalTime),
            (ApplyStage::Uploading, Fact::Failed) => self.ends(Note::Failure(Side::Local)),
            (ApplyStage::Uploading, Fact::SourceGone) => self.ends(Note::VanishedSource),
            (ApplyStage::TargetThere, Fact::Flag(there)) => {
                if there {
                    self.asks(ApplyStage::LocalTime, Op::LocalTime)
                } else {
                    self.asks(ApplyStage::MakingLocalDir, Op::CreateDirAll)
                }
            },
            (ApplyStage::MakingLocalDir, Fact::Done) => self.asks(
                ApplyStage::LocalTime,
                Op::LocalTime,
            ),
            (ApplyStage::MakingLocalDir, Fact::Failed) => self.ends(Note::Failure(Side::Local)),
            (ApplyStage::Downloading, Fact::Done) => self.asks(
                ApplyStage::LocalTime,
                Op::LocalTime,
            ),
            (ApplyStage::Downloading, Fact::Failed) => self.ends(Note::Failure(Side::Remote)),
            (ApplyStage::LocalTime, Fact::Time(time)) => match time {
                Some(local_time) => self.asks(ApplyStage::RemoteTime { local_time }, Op::Stat),
                None => self.asks(ApplyStage::Over, Op::Finish),
            },
            (ApplyStage::RemoteTime { local_time }, Fact::Remote(Some(item))) => self.asks(
                ApplyStage::Row { local_time, remote_time: item.time },
                Op::FindRow,
            ),
            (ApplyStage::RemoteTime { .. }, Fact::Remote(None)) => self.asks(
                ApplyStage::Over,
                Op::Finish,
            ),
            (ApplyStage::RemoteTime { .. }, Fact::Failed) => self.asks(
                ApplyStage::Over,
                Op::Finish,
            ),
            (ApplyStage::Row { local_time, remote_time }, Fact::Row(Some(row))) => self.ends(
                Note::UpdateRow { id: row.id, local_time: local_time as i64, remote_time },
            ),
            (ApplyStage::Row { local_time, remote_time }, Fact::Row(None)) => self.ends(
                Note::InsertRow { local_time: local_time as i64, remote_time },
            ),
            (ApplyStage::RemovingLocal, Fact::Done) => self.ends(Note::DropRow),
            (ApplyStage::RemovingLocal, Fact::Failed) => self.ends(Note::Failure(Side::Local)),
            (ApplyStage::RemovingRemote, Fact::Done) => self.ends(Note::DropRow),
            (ApplyStage::RemovingRemote, Fact::Failed) => self.ends(Note::Failure(Side::Remote)),
            _ => self.asks(ApplyStage::Over, Op::Fault),
        }
    }
}

impl ItemMachine for ApplyItem {
    open spec fn after(self, fact: Fact) -> (ApplyItem, AnswerView) {
        self.next(fact)
    }

    open spec fn quiet(self) -> bool {
        self.stage is Over
    }

    open spec fn armed(self) -> bool {
        false
    }

    open spec fn over(self) -> bool {
        self.stage is Over
    }

    open spec fn rank(self) -> nat {
        match self.stage {
            ApplyStage::Start => 7,
            ApplyStage::SourceThere | ApplyStage::TargetThere => 6,
            ApplyStage::MakingRemoteDir
            | ApplyStage::Uploading
            | ApplyStage::MakingLocalDir
            | ApplyStage::Downloading => 5,
            ApplyStage::LocalTime => 4,
            ApplyStage::RemoteTime { .. } => 3,
            ApplyStage::Row { .. } => 2,
            ApplyStage::RemovingLocal | ApplyStage::RemovingRemote => 1,
            ApplyStage::Over => 0,
        }
    }

    fn step(&mut self, fact: Fact) -> (answer: Answer) {
        self.take_in(fact)
    }

    proof fn quiet_stays(self, fact: Fact) {
    }

    proof fn failure_quiets(self, fact: Fact, outcome: Fact) {
    }

    proof fn arms_first(self, fact: Fact) {
    }

    proof fn rank_falls(self, fact: Fact) {
    }
}

/// Carrying out an action never gives up: to every fact that fits what was
/// asked there is an answer.
pub proof fn law_apply_never_faults(item: ApplyItem, earlier: Fact, fact: Fact)
    requires
        !(item.next(earlier).1.op is Fault),
        ops::fits(item.next(earlier).1.op, fact),
    ensures
        !(item.next(earlier).0.next(fact).1.op is Fault),
{
}

/// An upload whose source is gone by the time it failed is no failure: only
/// the log tells of it.
pub proof fn law_vanished_source_is_no_failure(item: ApplyItem)
    requires
        item.stage is Uploading,
    ensures
        item.next(Fact::SourceGone).1 == ops::tell(seq![Note::VanishedSource], Op::Finish),
{
}

/// Only the deletions of a plan destroy something, each on its own side.
pub proof fn law_only_deletions_destroy(item: ApplyItem, fact: Fact)
    ensures
        item.next(fact).0.deed == item.deed,
        match item.next(fact).1.op {
            Op::RemoveTree | Op::RemoveFile => item.deed is DeleteLocal,
            Op::Purge | Op::DeleteFile => item.deed is DeleteRemote,
            _ => true,
        },
{
}

} // verus!
