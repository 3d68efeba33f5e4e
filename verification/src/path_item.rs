//! Syncs one file against its remote counterpart.

use vstd::prelude::*;

use crate::domain::SyncItemId;
use crate::item_laws::ItemMachine;
use crate::ops;
use crate::ops::{
    asking, telling, telling_both, Answer, AnswerView, Destruction, Fact, Note, Op, RemoteFact,
    RowFact, Side, Transfer,
};

verus! {

/// What was asked last.
#[derive(Clone, Copy, Debug, PartialEq, Eq, Structural)]
pub enum PathStage {
    Start,
    Row,
    There { row: Option<RowFact> },
    Dir { row: Option<RowFact> },
    Time { row: Option<RowFact> },
    Remote { row: Option<RowFact>, local_time: u64 },
    PushingNew,
    PullingNew,
    NewLocalTime,
    NewRemoteTime { local_time: u64 },
    PushingKnown { id: SyncItemId, local_time: u64, remote_time: i64 },
    PushedRemoteTime { id: SyncItemId, local_time: u64, remote_time: i64 },
    PullingKnown { id: SyncItemId, local_time: u64, remote_time: i64 },
    PulledLocalTime { id: SyncItemId, local_time: u64, remote_time: i64 },
    GoneRemote { known: RowFact },
    Removing,
    Over,
}

/// Syncs one file. Directories are left to the passes over whole trees.
#[derive(Clone, Copy, Debug, PartialEq, Eq, Structural)]
pub struct PathItem {
    pub stage: PathStage,
}

/// At the given stage.
pub open spec fn at(stage: PathStage) -> PathItem {
    PathItem { stage }
}

/// Finishes without a word.
pub open spec fn done() -> (PathItem, AnswerView) {
    (at(PathStage::Over), ops::ask(Op::Finish))
}

/// Finishes with a note.
pub open spec fn done_with(note: Note) -> (PathItem, AnswerView) {
    (at(PathStage::Over), ops::tell(seq![note], Op::Finish))
}

/// What to do about a file that is there, from the row, the file's time and
/// what the remote has.
pub open spec fn reconcile(
    row: Option<RowFact>,
    local_time: u64,
    remote: Option<RemoteFact>,
) -> (PathItem, AnswerView) {
    let uploading = Note::Status(Transfer::Upload);
    let downloading = Note::Status(Transfer::Download);
    match (row, remote) {
        (None, None) => (at(PathStage::PushingNew), ops::tell(seq![uploading], Op::Push)),
        (None, Some(item)) => if local_time as i64 > item.time {
            (at(PathStage::PushingNew), ops::tell(seq![uploading], Op::Push))
        } else if local_time as i64 != item.time {
            (at(PathStage::PullingNew), ops::tell(seq![downloading], Op::Download))
        } else {
            done()
        },
        // The remote copy vanished: left to the next full pass.
        (Some(_), None) => done(),
        (Some(known), Some(item)) => {
            let local_changed = local_time as i64 > known.local_time;
            let remote_changed = item.time > known.remote_time;
            if local_changed && remote_changed {
                done_with(Note::Conflict)
            } else if local_changed {
                (
                    at(
                        PathStage::PushingKnown {
                            id: known.id,
                            local_time,
                            remote_time: item.time,
                        },
                    ),
                    ops::tell(seq![uploading], Op::Push),
                )
            } else if remote_changed {
                (
                    at(
                        PathStage::PullingKnown {
                            id: known.id,
                            local_time,
                            remote_time: item.time,
                        },
                    ),
                    ops::tell(seq![downloading], Op::Download),
                )
            } else {
                done()
            }
        },
    }
}

/// What to do about a file that is gone, from the row and what the remote
/// has: mirror the deletion only where the remote is as it was recorded.
pub open spec fn mirror_deletion(row: RowFact, remote: Option<RemoteFact>) -> (
    PathItem,
    AnswerView,
) {
    match remote {
        None => done_with(Note::DropRowById(row.id)),
        Some(item) => if item.time == row.remote_time {
            (
                at(PathStage::Removing),
                ops::tell(
                    seq![
                        Note::Destructive(Destruction::LocalGoneRemoteMatchesRow),
                        Note::Status(Transfer::RemoveRemote),
                    ],
                    if item.is_dir {
                        Op::Purge
                    } else {
                        Op::DeleteFile
                    },
                ),
            )
        } else {
            done()
        },
    }
}

impl PathItem {
    /// The next stage and answer.
    pub open spec fn next(self, fact: Fact) -> (PathItem, AnswerView) {
        match (self.stage, fact) {
            (PathStage::Start, Fact::Begin) => (at(PathStage::Row), ops::ask(Op::FindRow)),
            (PathStage::Row, Fact::Row(row)) => (
                at(PathStage::There { row }),
                ops::ask(Op::Exists),
            ),
            (PathStage::There { row }, Fact::Flag(there)) => if there {
                (at(PathStage::Dir { row }), ops::ask(Op::IsDir))
            } else {
                match row {
                    Some(known) => (
                        at(PathStage::GoneRemote { known }),
                        ops::ask(Op::Stat),
                    ),
                    None => done(),
                }
            },
            (PathStage::Dir { row }, Fact::Flag(is_dir)) => if is_dir {
                done()
            } else {
                (at(PathStage::Time { row }), ops::ask(Op::LocalTime))
            },
            (PathStage::Time { row }, Fact::Time(time)) => match time {
                Some(local_time) => (
                    at(PathStage::Remote { row, local_time }),
                    ops::ask(Op::Stat),
                ),
                None => done(),
            },
            (PathStage::Remote { row, local_time }, Fact::Remote(remote)) => reconcile(
                row,
                local_time,
                remote,
            ),
            (PathStage::Remote { .. }, Fact::Failed) => done_with(Note::Failure(Side::Remote)),
            (PathStage::PushingNew, Fact::Done) => (
                at(PathStage::NewLocalTime),
                ops::ask(Op::LocalTime),
            ),
            (PathStage::PushingNew, Fact::Failed) => done_with(Note::Failure(Side::Local)),
            (PathStage::PushingNew, Fact::SourceGone) => done(),
            (PathStage::PullingNew, Fact::Done) => (
                at(PathStage::NewLocalTime),
                ops::ask(Op::LocalTime),
            ),
            (PathStage::PullingNew, Fact::Failed) => done_with(Note::Failure(Side::Remote)),
            (PathStage::NewLocalTime, Fact::Time(time)) => match time {
                Some(local_time) => (
                    at(PathStage::NewRemoteTime { local_time }),
                    ops::ask(Op::Stat),
                ),
                None => done(),
            },
            (PathStage::NewRemoteTime { local_time }, Fact::Remote(Some(item))) => done_with(
                Note::InsertRow { local_time: local_time as i64, remote_time: item.time },
            ),
            (PathStage::NewRemoteTime { .. }, Fact::Remote(None)) => done(),
            (PathStage::NewRemoteTime { .. }, Fact::Failed) => done(),
            (PathStage::PushingKnown { id, local_time, remote_time }, Fact::Done) => (
                at(PathStage::PushedRemoteTime { id, local_time, remote_time }),
                ops::ask(Op::Stat),
            ),
            (PathStage::PushingKnown { .. }, Fact::Failed) => done_with(
                Note::Failure(Side::Local),
            ),
            (PathStage::PushingKnown { .. }, Fact::SourceGone) => done(),
            (
                PathStage::PushedRemoteTime { id, local_time, .. },
                Fact::Remote(Some(item)),
            ) => done_with(
                Note::UpdateRow { id, local_time: local_time as i64, remote_time: item.time },
            ),
            (
                PathStage::PushedRemoteTime { id, local_time, remote_time },
                Fact::Remote(None),
            ) => done_with(Note::UpdateRow { id, local_time: local_time as i64, remote_time }),
            (
                PathStage::PushedRemoteTime { id, local_time, remote_time },
                Fact::Failed,
            ) => done_with(Note::UpdateRow { id, local_time: local_time as i64, remote_time }),
            (PathStage::PullingKnown { id, local_time, remote_time }, Fact::Done) => (
                at(PathStage::PulledLocalTime { id, local_time, remote_time }),
                ops::ask(Op::LocalTime),
            ),
            (PathStage::PullingKnown { .. }, Fact::Failed) => done_with(
                Note::Failure(Side::Remote),
            ),
            (
                PathStage::PulledLocalTime { id, local_time, remote_time },
                Fact::Time(time),
            ) => {
                let newest = match time {
                    Some(now) => now,
                    None => local_time,
                };
                done_with(Note::UpdateRow { id, local_time: newest as i64, remote_time })
            },
            (PathStage::GoneRemote { known }, Fact::Remote(remote)) => mirror_deletion(
                known,
                remote,
            ),
            (PathStage::GoneRemote { .. }, Fact::Failed) => done_with(
                Note::Failure(Side::Remote),
            ),
            (PathStage::Removing, Fact::Done) => done_with(Note::DropRow),
            (PathStage::Removing, Fact::Failed) => done_with(Note::Failure(Side::Remote)),
            _ => (at(PathStage::Over), ops::ask(Op::Fault)),
        }
    }

    /// The machine before its first step.
    pub fn new() -> (item: PathItem)
        ensures
            item == at(PathStage::Start),
    {
        PathItem { stage: PathStage::Start }
    }

    fn asks(&mut self, stage: PathStage, op: Op) -> (answer: Answer)
        ensures
            *final(self) == at(stage),
            answer@ == ops::ask(op),
    {
        self.stage = stage;
        asking(op)
    }

    fn tells(&mut self, stage: PathStage, note: Note, op: Op) -> (answer: Answer)
        ensures
            *final(self) == at(stage),
            answer@ == ops::tell(seq![note], op),
    {
        self.stage = stage;
        telling(note, op)
    }

    fn ends(&mut self) -> (answer: Answer)
        ensures
            (*final(self), answer@) == done(),
    {
        self.asks(PathStage::Over, Op::Finish)
    }

    fn ends_with(&mut self, note: Note) -> (answer: Answer)
        ensures
            (*final(self), answer@) == done_with(note),
    {
        self.tells(PathStage::Over, note, Op::Finish)
    }

    fn reconciles(
        &mut self,
        row: Option<RowFact>,
        local_time: u64,
        remote: Option<RemoteFact>,
    ) -> (answer: Answer)
        ensures
            (*final(self), answer@) == reconcile(row, local_time, remote),
    {
        match (row, remote) {
            (None, None) => self.tells(
                PathStage::PushingNew,
                Note::Status(Transfer::Upload),
                Op::Push,
            ),
            (None, Some(item)) => {
                if local_time as i64 > item.time {
                    self.tells(PathStage::PushingNew, Note::Status(Transfer::Upload), Op::Push)
                } else if local_time as i64 != item.time {
                    self.tells(
                        PathStage::PullingNew,
                        Note::Status(Transfer::Download),
                        Op::Download,
                    )
                } else {
                    self.ends()
                }
            },
            (Some(_), None) => self.ends(),
            (Some(known), Some(item)) => {
                let local_changed = local_time as i64 > known.local_time;
                let remote_changed = item.time > known.remote_time;
                if local_changed && remote_changed {
                    self.ends_with(Note::Conflict)
                } else if local_changed {
                    self.tells(
                        PathStage::PushingKnown {
                            id: known.id,
                            local_time,
                            remote_time: item.time,
                        },
                        Note::Status(Transfer::Upload),
                        Op::Push,
                    )
                } else if remote_changed {
                    self.tells(
                        PathStage::PullingKnown {
                            id: known.id,
                            local_time,
                            remote_time: item.time,
                        },
                        Note::Status(Transfer::Download),
                        Op::Download,
                    )
                } else {
                    self.ends()
                }
            },
        }
    }

    fn mirrors_deletion(&mut self, row: RowFact, remote: Option<RemoteFact>) -> (answer: Answer)
        ensures
            (*final(self), answer@) == mirror_deletion(row, remote),
    {
        match remote {
            None => self.ends_with(Note::DropRowById(row.id)),
            Some(item) => {
                if item.time == row.remote_time {
                    self.stage = PathStage::Removing;
                    telling_both(
                        Note::Destructive(Destruction::LocalGoneRemoteMatchesRow),
                        Note::Status(Transfer::RemoveRemote),
                        if item.is_dir {
                            Op::Purge
                        } else {
                            Op::DeleteFile
                        },
                    )
                } else {
                    self.ends()
                }
            },
        }
    }

    fn take_in(&mut self, fact: Fact) -> (answer: Answer)
        ensures
            (*final(self), answer@) == old(self).next(fact),
    {
        match (self.stage, fact) {
            (PathStage::Start, Fact::Begin) => self.asks(PathStage::Row, Op::FindRow),
            (PathStage::Row, Fact::Row(row)) => self.asks(PathStage::There { row }, Op::Exists),
            (PathStage::There { row }, Fact::Flag(there)) => {
                if there {
                    self.asks(PathStage::Dir { row }, Op::IsDir)
                } else {
                    match row {
                        Some(known) => self.asks(PathStage::GoneRemote { known }, Op::Stat),
                        None => self.ends(),
                    }
                }
            },
            (PathStage::Dir { row }, Fact::Flag(is_dir)) => {
                if is_dir {
                    self.ends()
                } else {
                    self.asks(PathStage::Time { row }, Op::LocalTime)
                }
            },
            (PathStage::Time { row }, Fact::Time(time)) => match time {
                Some(local_time) => self.asks(PathStage::Remote { row, local_time }, Op::Stat),
                None => self.ends(),
            },
            (PathStage::Remote { row, local_time }, Fact::Remote(remote)) => self.reconciles(
                row,
                local_time,
                remote,
            ),
            (PathStage::Remote { .. }, Fact::Failed) => self.ends_with(
                Note::Failure(Side::Remote),
            ),
            (PathStage::PushingNew, Fact::Done) => self.asks(
                PathStage::NewLocalTime,
                Op::LocalTime,
            ),
            (PathStage::PushingNew, Fact::Failed) => self.ends_with(Note::Failure(Side::Local)),
            (PathStage::PushingNew, Fact::SourceGone) => self.ends(),
            (PathStage::PullingNew, Fact::Done) => self.asks(
                PathStage::NewLocalTime,
                Op::LocalTime,
            ),
            (PathStage::PullingNew, Fact::Failed) => self.ends_with(Note::Failure(Side::Remote)),
            (PathStage::NewLocalTime, Fact::Time(time)) => match time {
                Some(local_time) => self.asks(PathStage::NewRemoteTime { local_time }, Op::Stat),
                None => self.ends(),
            },
            (PathStage::NewRemoteTime { local_time }, Fact::Remote(Some(item))) => self.ends_with(
                Note::InsertRow { local_time: local_time as i64, remote_time: item.time },
            ),
            (PathStage::NewRemoteTime { .. }, Fact::Remote(None)) => self.ends(),
            (PathStage::NewRemoteTime { .. }, Fact::Failed) => self.ends(),
            (PathStage::PushingKnown { id, local_time, remote_time }, Fact::Done) => self.asks(
                PathStage::PushedRemoteTime { id, local_time, remote_time },
                Op::Stat,
            ),
            (PathStage::PushingKnown { .. }, Fact::Failed) => self.ends_with(
                Note::Failure(Side::Local),
            ),
            (PathStage::PushingKnown { .. }, Fact::SourceGone) => self.ends(),
            (
                PathStage::PushedRemoteTime { id, local_time, .. },
                Fact::Remote(Some(item)),
            ) => self.ends_with(
                Note::UpdateRow { id, local_time: local_time as i64, remote_time: item.time },
            ),
            (
                PathStage::PushedRemoteTime { id, local_time, remote_time },
                Fact::Remote(None),
            ) => self.ends_with(
                Note::UpdateRow { id, local_time: local_time as i64, remote_time },
            ),
            (
                PathStage::PushedRemoteTime { id, local_time, remote_time },
                Fact::Failed,
            ) => self.ends_with(
                Note::UpdateRow { id, local_time: local_time as i64, remote_time },
            ),
            (PathStage::PullingKnown { id, local_time, remote_time }, Fact::Done) => self.asks(
                PathStage::PulledLocalTime { id, local_time, remote_time },
                Op::LocalTime,
            ),
            (PathStage::PullingKnown { .. }, Fact::Failed) => self.ends_with(
                Note::Failure(Side::Remote),
            ),
            (
                PathStage::PulledLocalTime { id, local_time, remote_time },
                Fact::Time(time),
            ) => {
                let newest: u64 = match time {
                    Some(now) => now,
                    None => local_time,
                };
                self.ends_with(Note::UpdateRow { id, local_time: newest as i64, remote_time })
            },
            (PathStage::GoneRemote { known }, Fact::Remote(remote)) => self.mirrors_deletion(
                known,
                remote,
            ),
            (PathStage::GoneRemote { .. }, Fact::Failed) => self.ends_with(
                Note::Failure(Side::Remote),
            ),
            (PathStage::Removing, Fact::Done) => self.ends_with(Note::DropRow),
            (PathStage::Removing, Fact::Failed) => self.ends_with(Note::Failure(Side::Remote)),
            _ => self.asks(PathStage::Over, Op::Fault),
        }
    }
}

impl ItemMachine for PathItem {
    open spec fn after(self, fact: Fact) -> (PathItem, AnswerView) {
        self.next(fact)
    }

    open spec fn quiet(self) -> bool {
        self.stage is Over
    }

    open spec fn armed(self) -> bool {
        false
    }

    open spec fn over(self) -> bool {
        self.stage is Over
    }

    open spec fn rank(self) -> nat {
        match self.stage {
            PathStage::Start => 9,
            PathStage::Row => 8,
            PathStage::There { .. } => 7,
            PathStage::Dir { .. } => 6,
            PathStage::Time { .. } => 5,
            PathStage::Remote { .. } => 4,
            PathStage::PushingNew | PathStage::PullingNew => 3,
            PathStage::NewLocalTime
            | PathStage::PushingKnown { .. }
            | PathStage::PullingKnown { .. }
            | PathStage::GoneRemote { .. } => 2,
            PathStage::NewRemoteTime { .. }
            | PathStage::PushedRemoteTime { .. }
            | PathStage::PulledLocalTime { .. }
            | PathStage::Removing => 1,
            PathStage::Over => 0,
        }
    }

    fn step(&mut self, fact: Fact) -> (answer: Answer) {
        self.take_in(fact)
    }

    proof fn quiet_stays(self, fact: Fact) {
    }

    proof fn failure_quiets(self, fact: Fact, outcome: Fact) {
    }

    proof fn arms_first(self, fact: Fact) {
    }

    proof fn rank_falls(self, fact: Fact) {
    }
}

/// Syncing one path never gives up: to every fact that fits what was asked
/// there is an answer.
pub proof fn law_path_never_faults(item: PathItem, earlier: Fact, fact: Fact)
    requires
        !(item.next(earlier).1.op is Fault),
        ops::fits(item.next(earlier).1.op, fact),
    ensures
        !(item.next(earlier).0.next(fact).1.op is Fault),
{
}

/// The remote copy of a file that is gone locally is removed only where the
/// file was recorded and the remote copy is as it was recorded then.
pub proof fn law_remote_removed_only_when_unchanged(item: PathItem, fact: Fact)
    requires
        ops::destroys(item.next(fact).1.op),
    ensures
        item.stage is GoneRemote,
        fact matches Fact::Remote(Some(found)) && found.time
            == item.stage->known.remote_time,
{
}

/// A file that both sides changed since it was recorded is left alone and
/// reported.
pub proof fn law_path_conflict_is_reported(row: RowFact, local_time: u64, remote: RemoteFact)
    requires
        local_time as i64 > row.local_time,
        remote.time > row.remote_time,
    ensures
        reconcile(Some(row), local_time, Some(remote)) == done_with(Note::Conflict),
{
}

/// A directory is left to the passes over whole trees: once the path is known
/// to be one, nothing more is asked, done or said.
pub proof fn law_directories_are_left_alone(item: PathItem)
    requires
        item.stage is Dir,
    ensures
        item.next(Fact::Flag(true)) == done(),
{
}

/// A recorded file that vanished from the remote is neither uploaded nor
/// removed: which side meant it is left to the passes over whole trees.
pub proof fn law_vanished_remote_copy_is_left_alone(row: RowFact, local_time: u64)
    ensures
        reconcile(Some(row), local_time, None) == done(),
{
}

} // verus!
