//! What syncing one item of a remote directory comes to.

use vstd::prelude::*;

use crate::item_laws;
use crate::item_runs;
use crate::ops;
use crate::ops::{AnswerView, Destruction, Fact, Note, Op, RemoteFact, RowFact, Side, Transfer};
use crate::tree::remote_item::{RemoteEntry, RemoteStage};

verus! {

/// The machine for a listed item, before its first step.
pub open spec fn fresh(remote: RemoteFact) -> RemoteEntry {
    RemoteEntry { remote, time: None, row: None, stage: RemoteStage::Start }
}

/// A listed item of which everything is known: when what is at its local path
/// was changed, if anything is there, and what is recorded of it.
pub open spec fn weighed(remote: RemoteFact, time: Option<u64>, row: Option<RowFact>) -> (
    RemoteEntry,
    AnswerView,
) {
    fresh(remote).next(Fact::Begin).0.next(Fact::Time(time)).0.next(Fact::Row(row))
}

/// What is here is newer than recorded, or than the listed item where nothing
/// is recorded.
pub open spec fn local_newer(remote: RemoteFact, time: Option<u64>, row: Option<RowFact>) -> bool {
    match (time, row) {
        (Some(now), Some(known)) => now > known.local_time as u64,
        (Some(now), None) => now > remote.time as u64,
        (None, _) => false,
    }
}

/// The listed item is newer than recorded, or not older than what is here
/// where nothing is recorded.
pub open spec fn remote_newer(remote: RemoteFact, time: Option<u64>, row: Option<RowFact>) -> bool {
    match row {
        Some(known) => remote.time > known.remote_time,
        None => time matches Some(now) ==> now <= remote.time as u64,
    }
}

/// Before anything is done about a listed item the time of what is at its
/// local path is read and the records are looked up.
pub proof fn law_a_listed_item_is_weighed_first(remote: RemoteFact, time: Option<u64>)
    ensures
        fresh(remote).next(Fact::Begin).1 == ops::ask(Op::StrictTime),
        fresh(remote).next(Fact::Begin).0.next(Fact::Time(time)).1 == ops::ask(Op::FindRow),
{
}

/// What is recorded of a new item once it is on both sides.
pub open spec fn new_is_recorded(reading: RemoteEntry, now: u64, there: RemoteFact) -> bool {
    let (looking, first) = reading.next(Fact::Time(Some(now)));
    let second = looking.next(Fact::Remote(Some(there))).1;
    &&& first == ops::ask(Op::Stat)
    &&& second == ops::tell(
        seq![Note::InsertRow { local_time: now as i64, remote_time: there.time }],
        Op::Finish,
    )
}

/// What is recorded at the end of a push: a known item's row gets the
/// remote's new time and the local one; a new item is recorded.
pub open spec fn pushed_is_recorded(
    looking: RemoteEntry,
    row: Option<RowFact>,
    there: RemoteFact,
    again: RemoteFact,
    now: u64,
) -> bool {
    let (reading, first) = looking.next(Fact::Remote(Some(there)));
    &&& first == ops::ask(Op::StrictTime)
    &&& match row {
        Some(known) => reading.next(Fact::Time(Some(now))).1 == ops::tell(
            seq![
                Note::UpdateRow {
                    id: known.id,
                    local_time: now as i64,
                    remote_time: there.time,
                },
            ],
            Op::Finish,
        ),
        None => new_is_recorded(reading, now, again),
    }
}

/// Where only what is here is newer it is pushed: a remote item of the other
/// kind goes first, a directory is gone into, a file is uploaded, and then it
/// is recorded.
pub proof fn law_a_newer_local_item_is_pushed(
    remote: RemoteFact,
    time: Option<u64>,
    row: Option<RowFact>,
    on_record: bool,
    there: RemoteFact,
    again: RemoteFact,
    now: u64,
)
    requires
        local_newer(remote, time, row),
        !remote_newer(remote, time, row),
    ensures
        ({
            let (asking, first) = weighed(remote, time, row);
            let (dir, dir_first) = asking.next(Fact::Flag(true));
            let (file, file_first) = asking.next(Fact::Flag(false));
            let (made, making) = dir.next(Fact::Done);
            let (entering, entered) = if remote.is_dir {
                (dir, dir_first)
            } else {
                made.next(Fact::Done)
            };
            let (left, leaving) = entering.next(Fact::Done);
            let (clear, cleared) = if remote.is_dir {
                file.next(Fact::Done)
            } else {
                (file, file_first)
            };
            let (uploading, upload) = clear.next(Fact::Flag(on_record));
            &&& first == ops::ask(
                Op::IsDir,
            )
            // A directory is here.
            &&& !remote.is_dir ==> dir_first == ops::tell(
                seq![Note::Destructive(Destruction::DeleteRemoteFileOnTypeMismatch)],
                Op::DeleteFile,
            ) && making == ops::ask(Op::Mkdir)
            &&& entered == ops::ask(Op::Descend)
            &&& leaving == ops::ask(Op::StillOnRecord)
            &&& left.next(Fact::Flag(on_record)).1 == ops::tell_if(
                on_record,
                Note::Examining,
                Op::Stat,
            )
            &&& pushed_is_recorded(
                left.next(Fact::Flag(on_record)).0,
                row,
                there,
                again,
                now,
            )
            // A file is here.
            &&& remote.is_dir ==> file_first == ops::tell(
                seq![Note::Destructive(Destruction::PurgeRemoteDirOnTypeMismatch)],
                Op::Purge,
            )
            &&& cleared == ops::ask(Op::StillOnRecord)
            &&& upload == ops::tell_if(on_record, Note::Status(Transfer::Upload), Op::Upload)
            &&& uploading.next(Fact::Done).1 == ops::ask(Op::Stat)
            &&& pushed_is_recorded(uploading.next(Fact::Done).0, row, there, again, now)
        }),
{
}

/// What is recorded at the end of a pull. A known item's row gets the new
/// local time and the listed one, and the item is recorded once more; a new
/// one is recorded.
pub open spec fn pulled_is_recorded(
    remote: RemoteFact,
    reading: RemoteEntry,
    row: Option<RowFact>,
    there: RemoteFact,
    now: u64,
    later: u64,
) -> bool {
    match row {
        Some(known) => {
            let (again, first) = reading.next(Fact::Time(Some(now)));
            &&& first == ops::tell(
                seq![
                    Note::UpdateRow {
                        id: known.id,
                        local_time: now as i64,
                        remote_time: remote.time,
                    },
                ],
                Op::StrictTime,
            )
            &&& new_is_recorded(again, later, there)
        },
        None => new_is_recorded(reading, now, there),
    }
}

/// A listed directory with nothing in its way is made here if need be, gone
/// into and recorded.
pub open spec fn dir_is_pulled(
    remote: RemoteFact,
    asking: RemoteEntry,
    row: Option<RowFact>,
    on_record: bool,
    there: RemoteFact,
    now: u64,
    later: u64,
) -> bool {
    let (entering, entered) = asking.next(Fact::Flag(true));
    let (making, made) = asking.next(Fact::Flag(false));
    let (left, leaving) = entering.next(Fact::Done);
    let (reading, examined) = left.next(Fact::Flag(on_record));
    &&& entered == ops::ask(Op::Descend)
    &&& made == ops::ask(Op::CreateDir)
    &&& making.next(Fact::Done) == (entering, entered)
    &&& leaving == ops::ask(Op::StillOnRecord)
    &&& examined == ops::tell_if(on_record, Note::Examining, Op::StrictTime)
    &&& pulled_is_recorded(remote, reading, row, there, now, later)
}

/// A listed file with nothing in its way is downloaded and recorded.
pub open spec fn file_is_pulled(
    remote: RemoteFact,
    asking: RemoteEntry,
    row: Option<RowFact>,
    on_record: bool,
    there: RemoteFact,
    now: u64,
    later: u64,
) -> bool {
    let (downloading, download) = asking.next(Fact::Flag(on_record));
    let (reading, downloaded) = downloading.next(Fact::Done);
    &&& download == ops::tell_if(on_record, Note::Status(Transfer::Download), Op::Download)
    &&& downloaded == ops::ask(Op::StrictTime)
    &&& pulled_is_recorded(remote, reading, row, there, now, later)
}

/// Where only the listed item is newer it is pulled: what is here of the other
/// kind goes first, a directory is made and gone into, a file is downloaded,
/// and then it is recorded.
pub proof fn law_a_newer_listed_item_is_pulled(
    remote: RemoteFact,
    time: Option<u64>,
    row: Option<RowFact>,
    on_record: bool,
    there: RemoteFact,
    now: u64,
    later: u64,
)
    requires
        remote_newer(remote, time, row),
        !local_newer(remote, time, row),
    ensures
        ({
            let (asking, first) = weighed(remote, time, row);
            let (present, second) = asking.next(Fact::Flag(true));
            let absent = asking.next(Fact::Flag(false));
            let over_dir = present.next(Fact::Flag(true));
            let over_file = present.next(Fact::Flag(false));
            let announced = seq![Note::Destructive(Destruction::RemoveLocalOnTypeMismatch)];
            &&& first == ops::ask(Op::Exists)
            &&& second == ops::ask(Op::IsDir)
            &&& if remote.is_dir {
                let (removed, removing) = over_file.0.next(Fact::Done);
                &&& absent.1 == ops::ask(Op::Exists)
                &&& over_dir == absent
                &&& over_file.1 == ops::tell(announced, Op::RemoveFile)
                &&& removing == ops::ask(Op::CreateDir)
                &&& removed.next(Fact::Done) == absent
                &&& dir_is_pulled(remote, absent.0, row, on_record, there, now, later)
            } else {
                &&& absent.1 == ops::ask(Op::StillOnRecord)
                &&& over_file == absent
                &&& over_dir.1 == ops::tell(announced, Op::RemoveTree)
                &&& over_dir.0.next(Fact::Done) == absent
                &&& file_is_pulled(remote, absent.0, row, on_record, there, now, later)
            }
        }),
{
}

/// A recorded item that both sides changed is reported as a conflict and left
/// alone, unless both are directories.
pub proof fn law_an_item_changed_on_both_sides_is_left(
    remote: RemoteFact,
    time: Option<u64>,
    row: RowFact,
    is_dir: bool,
)
    requires
        local_newer(remote, time, Some(row)),
        remote_newer(remote, time, Some(row)),
    ensures
        ({
            let (asking, first) = weighed(remote, time, Some(row));
            &&& first == ops::ask(Op::IsDir)
            &&& asking.next(Fact::Flag(is_dir)).1 == if is_dir && remote.is_dir {
                ops::ask(Op::Finish)
            } else {
                ops::tell(seq![Note::Conflict], Op::Finish)
            }
        }),
{
}

/// Where neither side is newer than recorded and nothing is at the local path,
/// the remote item goes if it is as recorded, with an announcement, and so
/// does its row. What is as recorded on both sides is left alone; anything
/// else is given up.
pub proof fn law_a_local_removal_is_mirrored(
    remote: RemoteFact,
    time: Option<u64>,
    row: RowFact,
    there: bool,
    on_record: bool,
)
    requires
        !local_newer(remote, time, Some(row)),
        !remote_newer(remote, time, Some(row)),
    ensures
        ({
            let (asking, first) = weighed(remote, time, Some(row));
            let (announced, second) = asking.next(Fact::Flag(there));
            let (removing, third) = announced.next(Fact::Flag(on_record));
            &&& first == ops::ask(Op::Exists)
            &&& if !there && remote.time == row.remote_time {
                &&& second == ops::tell(
                    seq![Note::Destructive(Destruction::DeleteRemoteMirroringLocal)],
                    Op::StillOnRecord,
                )
                &&& third == ops::tell_if(
                    on_record,
                    Note::Status(Transfer::RemoveRemote),
                    if remote.is_dir {
                        Op::Purge
                    } else {
                        Op::DeleteFile
                    },
                )
                &&& removing.next(Fact::Done).1 == ops::tell(seq![Note::DropRow], Op::Finish)
            } else if time == Some(row.local_time as u64) && remote.time == row.remote_time {
                second == ops::ask(Op::Finish)
            } else {
                second == ops::ask(Op::Fault)
            }
        }),
{
}

/// A failed change is reported and ends the run, on the side that it was to
/// change or, for a transfer, at the remote path.
pub proof fn law_listed_item_failures_are_reported(item: RemoteEntry, earlier: Fact)
    requires
        item_runs::changes_local(item.next(earlier).1.op) || item_runs::changes_remote(
            item.next(earlier).1.op,
        ),
    ensures
        ({
            let (changing, answer) = item.next(earlier);
            let side = match answer.op {
                Op::RemoveTree | Op::RemoveFile | Op::CreateDir => Side::Local,
                _ => Side::Remote,
            };
            changing.next(Fact::Failed).1 == ops::tell(seq![Note::Failure(side)], Op::Finish)
        }),
{
}

/// The machine is bringing what is here to the remote, or is done.
spec fn pushing(item: RemoteEntry) -> bool {
    match item.stage {
        RemoteStage::PushDir
        | RemoteStage::PushDelete
        | RemoteStage::PushMkdir
        | RemoteStage::PushPurge
        | RemoteStage::PushDescend
        | RemoteStage::PushExamined
        | RemoteStage::PushStatus
        | RemoteStage::Pushing
        | RemoteStage::PushedStat
        | RemoteStage::PushedTime { .. }
        | RemoteStage::NewTime
        | RemoteStage::NewStat { .. }
        | RemoteStage::Missing
        | RemoteStage::RemoveStatus
        | RemoteStage::Removing
        | RemoteStage::Conflict
        | RemoteStage::Over => true,
        _ => false,
    }
}

/// The machine is bringing the listed item here, or is done.
spec fn pulling(item: RemoteEntry) -> bool {
    match item.stage {
        RemoteStage::PullThere
        | RemoteStage::PullDir
        | RemoteStage::PullTree
        | RemoteStage::PullFile
        | RemoteStage::PullMake
        | RemoteStage::PullTarget
        | RemoteStage::PullCreate
        | RemoteStage::PullDescend
        | RemoteStage::PullExamined
        | RemoteStage::PullStatus
        | RemoteStage::Pulling
        | RemoteStage::PulledTime
        | RemoteStage::NewTime
        | RemoteStage::NewStat { .. }
        | RemoteStage::Conflict
        | RemoteStage::Over => true,
        _ => false,
    }
}

proof fn lemma_one_way(item: RemoteEntry, facts: Seq<Fact>, i: int)
    requires
        0 <= i <= facts.len(),
    ensures
        pushing(item) ==> pushing(item_laws::machine_after(item, facts.take(i))),
        pulling(item) ==> pulling(item_laws::machine_after(item, facts.take(i))),
    decreases i,
{
    if i > 0 {
        lemma_one_way(item, facts, i - 1);
        item_laws::lemma_next_machine(item, facts, i - 1);
    }
}

/// Whatever comes, a run never changes the newer side: where what is here is
/// newer, or nothing is newer, nothing here is removed or downloaded over;
/// where the listed item is newer, nothing on the remote is removed or
/// uploaded over.
pub proof fn law_the_newer_side_is_never_overwritten(
    remote: RemoteFact,
    time: Option<u64>,
    row: Option<RowFact>,
    facts: Seq<Fact>,
    i: int,
)
    requires
        0 <= i < facts.len(),
    ensures
        ({
            let (item, first) = weighed(remote, time, row);
            let later = item_laws::answer_at(item, facts, i).op;
            &&& local_newer(remote, time, row) || !remote_newer(remote, time, row)
                ==> !item_runs::changes_local(first.op) && !item_runs::changes_local(later)
            &&& remote_newer(remote, time, row) ==> !item_runs::changes_remote(first.op)
                && !item_runs::changes_remote(later)
        }),
{
    lemma_one_way(weighed(remote, time, row).0, facts, i);
}

/// A failed look at the remote while a new item is recorded is reported and
/// nothing is recorded; where a time or a remote item cannot be had that has
/// to be there, the run is given up.
pub proof fn law_what_cannot_be_read_of_an_item(item: RemoteEntry)
    ensures
        ({
            let told = ops::tell(seq![Note::Failure(Side::Remote)], Op::Finish);
            let lost = ops::ask(Op::Fault);
            &&& item.stage is NewStat ==> item.next(Fact::Failed).1 == told && item.next(
                Fact::Remote(None),
            ).1 == lost
            &&& item.stage is PushedStat ==> item.next(Fact::Failed).1 == lost && item.next(
                Fact::Remote(None),
            ).1 == lost
            &&& item.stage is PushedTime || item.stage is PulledTime || item.stage is NewTime
                ==> item.next(Fact::Time(None)).1 == lost
        }),
{
}

} // verus!
