//! What syncing one entry of a local directory comes to.

use vstd::prelude::*;

use crate::item_laws;
use crate::item_runs;
use crate::ops;
use crate::ops::{AnswerView, Destruction, Fact, Note, Op, RemoteFact, RowFact, Side, Transfer};
use crate::tree::local_item::{LocalItem, LocalStage};

verus! {

/// The machine for an entry, before its first step.
pub open spec fn fresh(is_dir: Option<bool>) -> LocalItem {
    LocalItem { is_dir, time: 0, remote: None, row: None, stage: LocalStage::Start }
}

/// An entry changed at `time` of which everything is known: what the remote
/// has of it and what is recorded of it.
pub open spec fn weighed(
    is_dir: Option<bool>,
    time: u64,
    remote: Option<RemoteFact>,
    row: Option<RowFact>,
) -> (LocalItem, AnswerView) {
    fresh(is_dir).next(Fact::Begin).0.next(Fact::Time(Some(time))).0.next(
        Fact::Remote(remote),
    ).0.next(Fact::Row(row))
}

/// The entry alone is newer than what is recorded, or newer than what the
/// remote has where nothing is recorded.
pub open spec fn entry_leads(time: u64, remote: Option<RemoteFact>, row: Option<RowFact>) -> bool {
    match row {
        Some(known) => time > known.local_time as u64 && (remote matches Some(item) ==> item.time
            <= known.remote_time),
        None => remote matches Some(item) ==> time > item.time as u64,
    }
}

/// The remote item alone is newer than what is recorded, or not older than
/// the entry where nothing is recorded.
pub open spec fn remote_leads(time: u64, remote: RemoteFact, row: Option<RowFact>) -> bool {
    match row {
        Some(known) => time <= known.local_time as u64 && remote.time > known.remote_time,
        None => time <= remote.time as u64,
    }
}

/// Before anything is done about an entry its time is read, the remote is
/// asked what it has and the records are looked up.
pub proof fn law_an_entry_is_weighed_first(
    is_dir: Option<bool>,
    time: u64,
    remote: Option<RemoteFact>,
)
    ensures
        ({
            let (timing, first) = fresh(is_dir).next(Fact::Begin);
            let (looking, second) = timing.next(Fact::Time(Some(time)));
            let third = looking.next(Fact::Remote(remote)).1;
            &&& first == ops::ask(Op::EntryTime)
            &&& second == ops::ask(Op::Stat)
            &&& third == ops::ask(Op::FindRow)
            &&& looking.next(Fact::Failed).1 == ops::tell(
                seq![Note::Failure(Side::Remote)],
                Op::Finish,
            )
        }),
{
}

/// What is recorded at the end of a push: a known entry's row gets the
/// remote's new time and the entry's; a new one is recorded with the time that
/// the entry had at the start and the remote's.
pub open spec fn pushed_is_recorded(
    looking: LocalItem,
    time: u64,
    row: Option<RowFact>,
    there: RemoteFact,
    again: RemoteFact,
    now: u64,
) -> bool {
    let (reading, first) = looking.next(Fact::Remote(Some(there)));
    match row {
        Some(known) => {
            &&& first == ops::ask(Op::EntryTime)
            &&& reading.next(Fact::Time(Some(now))).1 == ops::tell(
                seq![
                    Note::UpdateRow {
                        id: known.id,
                        local_time: now as i64,
                        remote_time: there.time,
                    },
                ],
                Op::Finish,
            )
        },
        None => {
            &&& first == ops::ask(Op::Stat)
            &&& new_is_recorded(reading, time, again, there)
        },
    }
}

/// What is recorded of a new item once it is on both sides.
pub open spec fn new_is_recorded(
    looking: LocalItem,
    time: u64,
    there: RemoteFact,
    again: RemoteFact,
) -> bool {
    let (looking_again, first) = looking.next(Fact::Remote(Some(there)));
    let second = looking_again.next(Fact::Remote(Some(again))).1;
    &&& first == ops::ask(Op::Stat)
    &&& second == ops::tell(
        seq![Note::InsertRow { local_time: time as i64, remote_time: there.time }],
        Op::Finish,
    )
}

/// An entry that alone is newer is pushed: what is in the way on the remote is
/// purged, a directory is made there and gone into, a file is uploaded, and
/// then it is recorded.
pub proof fn law_a_newer_entry_is_pushed(
    is_dir: bool,
    time: u64,
    remote: Option<RemoteFact>,
    row: Option<RowFact>,
    on_record: bool,
    there: RemoteFact,
    again: RemoteFact,
    now: u64,
)
    requires
        entry_leads(time, remote, row),
    ensures
        ({
            let (decided, first) = weighed(Some(is_dir), time, remote, row);
            let in_the_way = remote matches Some(item) && !(is_dir && item.is_dir);
            let (pushing, next) = if in_the_way {
                decided.next(Fact::Done)
            } else {
                (decided, first)
            };
            &&& in_the_way ==> first == ops::tell(
                seq![Note::Destructive(Destruction::PurgeOnTypeMismatch)],
                Op::Purge,
            )
            &&& if is_dir {
                let (entering, second) = pushing.next(Fact::Done);
                let (left, third) = entering.next(Fact::Done);
                let (looking, fourth) = left.next(Fact::Flag(on_record));
                &&& next == ops::ask(Op::Mkdir)
                &&& second == ops::ask(Op::Descend)
                &&& third == ops::ask(Op::StillOnRecord)
                &&& fourth == ops::tell_if(on_record, Note::Examining, Op::Stat)
                &&& pushed_is_recorded(looking, time, row, there, again, now)
            } else {
                let (uploading, second) = pushing.next(Fact::Flag(on_record));
                let (looking, third) = uploading.next(Fact::Done);
                &&& next == ops::ask(Op::StillOnRecord)
                &&& second == ops::tell_if(on_record, Note::Status(Transfer::Upload), Op::Upload)
                &&& third == ops::ask(Op::Stat)
                &&& pushed_is_recorded(looking, time, row, there, again, now)
            }
        }),
{
}

/// What is recorded at the end of a pull: a known entry's row gets the
/// entry's new time and the remote's; a new one is recorded.
pub open spec fn pulled_is_recorded(
    moved: (LocalItem, AnswerView),
    note: Seq<Note>,
    time: u64,
    remote: RemoteFact,
    row: Option<RowFact>,
    there: RemoteFact,
    again: RemoteFact,
    now: u64,
) -> bool {
    match row {
        Some(known) => {
            &&& moved.1 == ops::tell(note, Op::EntryTime)
            &&& moved.0.next(Fact::Time(Some(now))).1 == ops::tell(
                seq![
                    Note::UpdateRow {
                        id: known.id,
                        local_time: now as i64,
                        remote_time: remote.time,
                    },
                ],
                Op::Finish,
            )
        },
        None => {
            &&& moved.1 == ops::tell(note, Op::Stat)
            &&& new_is_recorded(moved.0, time, there, again)
        },
    }
}

/// Where the remote item alone is newer it is pulled: a directory that both
/// sides have is gone into, anything else here is removed and a file is
/// downloaded; then it is recorded.
pub proof fn law_a_newer_remote_item_is_pulled(
    is_dir: bool,
    time: u64,
    remote: RemoteFact,
    row: Option<RowFact>,
    there: RemoteFact,
    again: RemoteFact,
    now: u64,
)
    requires
        remote_leads(time, remote, row),
    ensures
        ({
            let (decided, first) = weighed(Some(is_dir), time, Some(remote), row);
            let announced = seq![Note::Destructive(Destruction::RemoveLocalOnTypeMismatch)];
            if is_dir && remote.is_dir {
                let (left, second) = decided.next(Fact::Done);
                &&& first == ops::ask(Op::Descend)
                &&& second == ops::ask(Op::StillOnRecord)
                &&& pulled_is_recorded(
                    left.next(Fact::Flag(true)),
                    seq![Note::Examining],
                    time,
                    remote,
                    row,
                    there,
                    again,
                    now,
                )
                &&& pulled_is_recorded(
                    left.next(Fact::Flag(false)),
                    Seq::empty(),
                    time,
                    remote,
                    row,
                    there,
                    again,
                    now,
                )
            } else if is_dir {
                &&& first == ops::tell(announced, Op::RemoveTree)
                &&& decided.next(Fact::Done).1 == ops::ask(Op::RemoveFile)
                &&& decided.next(Fact::Done).0.next(Fact::Done).1 == ops::ask(Op::Descend)
            } else {
                let (clear, second) = decided.next(Fact::Done);
                let (downloading, third) = clear.next(Fact::Flag(true));
                &&& first == ops::tell(announced, Op::RemoveFile)
                &&& second == ops::ask(Op::StillOnRecord)
                &&& third == ops::tell(seq![Note::Status(Transfer::Download)], Op::Download)
                &&& clear.next(Fact::Flag(false)).1 == ops::ask(Op::Download)
                &&& pulled_is_recorded(
                    downloading.next(Fact::Done),
                    Seq::empty(),
                    time,
                    remote,
                    row,
                    there,
                    again,
                    now,
                )
            }
        }),
{
}

/// A recorded entry that both sides changed is reported as a conflict and
/// left alone, unless both are directories.
pub proof fn law_an_entry_changed_on_both_sides_is_left(
    is_dir: Option<bool>,
    time: u64,
    remote: RemoteFact,
    row: RowFact,
    is_dir_now: bool,
)
    requires
        time > row.local_time as u64,
        remote.time > row.remote_time,
    ensures
        ({
            let (asking, first) = weighed(is_dir, time, Some(remote), Some(row));
            &&& first == ops::ask(Op::IsDir)
            &&& asking.next(Fact::Flag(is_dir_now)).1 == if is_dir_now && remote.is_dir {
                ops::ask(Op::Finish)
            } else {
                ops::tell(seq![Note::Conflict], Op::Finish)
            }
        }),
{
}

/// A recorded entry that is as recorded on both sides is left alone without a
/// word.
pub proof fn law_an_unchanged_entry_is_left(
    is_dir: Option<bool>,
    time: u64,
    remote: RemoteFact,
    row: RowFact,
)
    requires
        time == row.local_time as u64,
        remote.time == row.remote_time,
    ensures
        weighed(is_dir, time, Some(remote), Some(row)).1 == ops::ask(Op::Finish),
{
}

/// Where neither side is newer than recorded, an entry that is older than
/// recorded, or whose remote item is, is given up; so is one that would have
/// to be moved though nobody knows whether it is a directory.
pub proof fn law_an_entry_out_of_step_is_given_up(
    is_dir: Option<bool>,
    time: u64,
    remote: Option<RemoteFact>,
    row: Option<RowFact>,
)
    ensures
        row matches Some(known) && time <= known.local_time as u64 && (match remote {
            Some(item) => item.time <= known.remote_time && (time != known.local_time as u64
                || item.time != known.remote_time),
            None => time != known.local_time as u64,
        }) ==> weighed(is_dir, time, remote, row).1 == ops::ask(Op::Fault),
        is_dir is None && (entry_leads(time, remote, row) || (remote matches Some(item)
            && remote_leads(time, item, row))) ==> weighed(is_dir, time, remote, row).1 == ops::ask(
            Op::Fault,
        ),
{
}

/// A recorded and unchanged entry that the remote has no more is removed here
/// and from the records, but only once a fresh listing has it no more either.
pub proof fn law_a_vanished_remote_item_is_mirrored(
    is_dir: Option<bool>,
    time: u64,
    row: RowFact,
    on_record: bool,
    is_dir_now: bool,
)
    requires
        time == row.local_time as u64,
    ensures
        ({
            let (asking, first) = weighed(is_dir, time, None, Some(row));
            let (announced, second) = asking.next(Fact::Flag(false));
            let (telling, third) = announced.next(Fact::Flag(on_record));
            let (removing, fourth) = telling.next(Fact::Flag(is_dir_now));
            &&& first == ops::ask(Op::StillListed)
            &&& asking.next(Fact::Flag(true)).1 == ops::tell(seq![Note::StillListed], Op::Finish)
            &&& second == ops::tell(
                seq![Note::Destructive(Destruction::LocalDeleteMirroringRemote)],
                Op::StillOnRecord,
            )
            &&& third == ops::tell_if(on_record, Note::Status(Transfer::RemoveLocal), Op::IsDir)
            &&& fourth == ops::ask(
                if is_dir_now {
                    Op::RemoveTree
                } else {
                    Op::RemoveFile
                },
            )
            &&& removing.next(Fact::Done).1 == ops::tell(seq![Note::DropRow], Op::Finish)
        }),
{
}

/// A failed change is reported and ends the run: an upload or a removal here
/// at the local path, anything else at the remote path.
pub proof fn law_entry_failures_are_reported(item: LocalItem, earlier: Fact)
    requires
        item_runs::changes_local(item.next(earlier).1.op) || item_runs::changes_remote(
            item.next(earlier).1.op,
        ),
    ensures
        ({
            let (changing, answer) = item.next(earlier);
            let side = match answer.op {
                Op::Upload | Op::RemoveTree | Op::RemoveFile => Side::Local,
                _ => Side::Remote,
            };
            changing.next(Fact::Failed).1 == ops::tell(seq![Note::Failure(side)], Op::Finish)
        }),
{
}

/// The machine is bringing the entry to the remote, or is done.
spec fn pushing(item: LocalItem) -> bool {
    match item.stage {
        LocalStage::PushPurge
        | LocalStage::PushMkdir
        | LocalStage::PushDescend
        | LocalStage::PushExamined
        | LocalStage::PushStatus
        | LocalStage::Pushing
        | LocalStage::PushedStat
        | LocalStage::PushedTime { .. }
        | LocalStage::NewStat
        | LocalStage::NewStatAgain { .. }
        | LocalStage::Conflict
        | LocalStage::Over => true,
        _ => false,
    }
}

/// The machine is bringing the remote item here, or is done.
spec fn pulling(item: LocalItem) -> bool {
    match item.stage {
        LocalStage::PullTree
        | LocalStage::PullFile
        | LocalStage::PullDescend
        | LocalStage::PullExamined
        | LocalStage::PullStatus
        | LocalStage::Pulling
        | LocalStage::PulledTime
        | LocalStage::NewStat
        | LocalStage::NewStatAgain { .. }
        | LocalStage::Verify
        | LocalStage::RemoveStatus
        | LocalStage::RemoveIsDir
        | LocalStage::Removing
        | LocalStage::Conflict
        | LocalStage::Over => true,
        _ => false,
    }
}

proof fn lemma_one_way(item: LocalItem, facts: Seq<Fact>, i: int)
    requires
        0 <= i <= facts.len(),
    ensures
        pushing(item) ==> pushing(item_laws::machine_after(item, facts.take(i))),
        pulling(item) ==> pulling(item_laws::machine_after(item, facts.take(i))),
    decreases i,
{
    if i > 0 {
        lemma_one_way(item, facts, i - 1);
        item_laws::lemma_next_machine(item, facts, i - 1);
    }
}

/// Whatever comes, a run never changes the newer side: where the entry is
/// newer than recorded, or than a remote item of which nothing is recorded,
/// nothing here is removed or downloaded over; where the entry is not newer,
/// nothing on the remote is removed or uploaded over.
pub proof fn law_the_newer_side_is_never_overwritten(
    is_dir: Option<bool>,
    time: u64,
    remote: Option<RemoteFact>,
    row: Option<RowFact>,
    facts: Seq<Fact>,
    i: int,
)
    requires
        0 <= i < facts.len(),
    ensures
        ({
            let (item, first) = weighed(is_dir, time, remote, row);
            let later = item_laws::answer_at(item, facts, i).op;
            let local_newer = match (row, remote) {
                (Some(known), _) => time > known.local_time as u64,
                (None, Some(item)) => time > item.time as u64,
                (None, None) => true,
            };
            let remote_newer = match (row, remote) {
                (Some(known), Some(item)) => item.time > known.remote_time,
                (Some(_), None) => false,
                (None, _) => !local_newer,
            };
            &&& local_newer ==> !item_runs::changes_local(first.op) && !item_runs::changes_local(
                later,
            )
            &&& !local_newer || remote_newer ==> !item_runs::changes_remote(first.op)
                && !item_runs::changes_remote(later)
        }),
{
    lemma_one_way(weighed(is_dir, time, remote, row).0, facts, i);
}

/// A failed look at the remote while a new item is recorded is reported and
/// nothing is recorded; where a time or a remote item cannot be had that has
/// to be there, the run is given up.
pub proof fn law_what_cannot_be_read_of_an_entry(item: LocalItem)
    ensures
        ({
            let told = ops::tell(seq![Note::Failure(Side::Remote)], Op::Finish);
            let lost = ops::ask(Op::Fault);
            &&& item.stage is NewStat || item.stage is NewStatAgain ==> item.next(Fact::Failed).1
                == told && item.next(Fact::Remote(None)).1 == lost
            &&& item.stage is PushedStat ==> item.next(Fact::Failed).1 == lost && item.next(
                Fact::Remote(None),
            ).1 == lost
            &&& item.stage is Time || item.stage is PushedTime || item.stage is PulledTime
                ==> item.next(Fact::Time(None)).1 == lost
        }),
{
}

} // verus!
