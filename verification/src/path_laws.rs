//! What syncing a single path comes to.

use vstd::prelude::*;

use crate::item_laws;
use crate::item_runs;
use crate::ops;
use crate::ops::{AnswerView, Destruction, Fact, Note, Op, RemoteFact, RowFact, Side, Transfer};
use crate::path_item;
use crate::path_item::{PathItem, PathStage};

verus! {

/// A path that was looked up in the records: `row` is what they hold.
pub open spec fn looked_up(row: Option<RowFact>) -> PathItem {
    path_item::at(PathStage::Start).next(Fact::Begin).0.next(Fact::Row(row)).0
}

/// A file with the modification time `time`, once the remote said what it has
/// of it.
pub open spec fn held_against(row: Option<RowFact>, time: u64, remote: Option<RemoteFact>) -> (
    PathItem,
    AnswerView,
) {
    looked_up(row).next(Fact::Flag(true)).0.next(Fact::Flag(false)).0.next(
        Fact::Time(Some(time)),
    ).0.next(Fact::Remote(remote))
}

/// A path that is gone, once the remote said what it has of it.
pub open spec fn gone_against(row: RowFact, remote: Option<RemoteFact>) -> (PathItem, AnswerView) {
    looked_up(Some(row)).next(Fact::Flag(false)).0.next(Fact::Remote(remote))
}

/// Before anything is done about a path it is looked up in the records, and
/// it is found out whether it is there, whether it is a file, when it was
/// changed and what the remote has. A path that is not there is held against
/// the remote where it is recorded, and left alone where it is not.
pub proof fn law_a_path_is_looked_at_first(row: Option<RowFact>, time: u64)
    ensures
        path_item::at(PathStage::Start).next(Fact::Begin).1 == ops::ask(Op::FindRow),
        path_item::at(PathStage::Start).next(Fact::Begin).0.next(Fact::Row(row)).1 == ops::ask(
            Op::Exists,
        ),
        looked_up(row).next(Fact::Flag(true)).1 == ops::ask(Op::IsDir),
        looked_up(row).next(Fact::Flag(true)).0.next(Fact::Flag(false)).1 == ops::ask(
            Op::LocalTime,
        ),
        looked_up(row).next(Fact::Flag(true)).0.next(Fact::Flag(false)).0.next(
            Fact::Time(Some(time)),
        ).1 == ops::ask(Op::Stat),
        looked_up(row).next(Fact::Flag(true)).0.next(Fact::Flag(true)).1 == ops::ask(Op::Finish),
        looked_up(row).next(Fact::Flag(false)).1 == ops::ask(
            if row is Some {
                Op::Stat
            } else {
                Op::Finish
            },
        ),
{
}

/// Of a recorded file that is on both sides, where only the file changed since
/// it was recorded it is uploaded; then the remote copy is looked at, and the
/// row gets the file's time and the copy's new one.
pub proof fn law_a_changed_file_is_uploaded(
    row: RowFact,
    time: u64,
    remote: RemoteFact,
    uploaded: RemoteFact,
)
    requires
        time as i64 > row.local_time,
        remote.time <= row.remote_time,
    ensures
        ({
            let (pushing, first) = held_against(Some(row), time, Some(remote));
            let (pushed, second) = pushing.next(Fact::Done);
            let third = pushed.next(Fact::Remote(Some(uploaded))).1;
            &&& first == ops::tell(seq![Note::Status(Transfer::Upload)], Op::Push)
            &&& second == ops::ask(Op::Stat)
            &&& third == ops::tell(
                seq![
                    Note::UpdateRow {
                        id: row.id,
                        local_time: time as i64,
                        remote_time: uploaded.time,
                    },
                ],
                Op::Finish,
            )
        }),
{
}

/// Of a recorded file that is on both sides, where only the remote copy
/// changed since it was recorded it is downloaded; then the file's time is
/// read, and the row gets it and the copy's time.
pub proof fn law_a_changed_copy_is_downloaded(
    row: RowFact,
    time: u64,
    remote: RemoteFact,
    downloaded: u64,
)
    requires
        time as i64 <= row.local_time,
        remote.time > row.remote_time,
    ensures
        ({
            let (pulling, first) = held_against(Some(row), time, Some(remote));
            let (pulled, second) = pulling.next(Fact::Done);
            let third = pulled.next(Fact::Time(Some(downloaded))).1;
            &&& first == ops::tell(seq![Note::Status(Transfer::Download)], Op::Download)
            &&& second == ops::ask(Op::LocalTime)
            &&& third == ops::tell(
                seq![
                    Note::UpdateRow {
                        id: row.id,
                        local_time: downloaded as i64,
                        remote_time: remote.time,
                    },
                ],
                Op::Finish,
            )
        }),
{
}

/// A recorded file of which neither side changed is left alone without a
/// word; one of which both sides changed is left alone and reported.
pub proof fn law_both_or_neither_changed(row: RowFact, time: u64, remote: RemoteFact)
    requires
        (time as i64 > row.local_time) == (remote.time > row.remote_time),
    ensures
        held_against(Some(row), time, Some(remote)).1 == if time as i64 > row.local_time {
            ops::tell(seq![Note::Conflict], Op::Finish)
        } else {
            ops::ask(Op::Finish)
        },
{
}

/// A file that was never recorded is uploaded where the remote has no copy or
/// an older one, and downloaded where the remote copy is newer; then both
/// times are read and recorded. Where both have one time nothing is done.
pub proof fn law_an_unrecorded_file_takes_the_newer_side(
    time: u64,
    remote: Option<RemoteFact>,
    local_now: u64,
    remote_now: RemoteFact,
)
    ensures
        ({
            let (moving, first) = held_against(None, time, remote);
            let (moved, second) = moving.next(Fact::Done);
            let (timed, third) = moved.next(Fact::Time(Some(local_now)));
            let fourth = timed.next(Fact::Remote(Some(remote_now))).1;
            let newer = remote matches Some(item) ==> time as i64 > item.time;
            let older = remote matches Some(item) && (time as i64) < item.time;
            &&& newer ==> first == ops::tell(seq![Note::Status(Transfer::Upload)], Op::Push)
            &&& older ==> first == ops::tell(seq![Note::Status(Transfer::Download)], Op::Download)
            &&& !newer && !older ==> first == ops::ask(Op::Finish)
            &&& newer || older ==> {
                &&& second == ops::ask(Op::LocalTime)
                &&& third == ops::ask(Op::Stat)
                &&& fourth == ops::tell(
                    seq![
                        Note::InsertRow {
                            local_time: local_now as i64,
                            remote_time: remote_now.time,
                        },
                    ],
                    Op::Finish,
                )
            }
        }),
{
}

/// Of a recorded file that is gone: where the remote copy is as recorded it
/// is removed, with an announcement, and then so is the row; where the remote
/// has none, only the row goes; where the copy changed, nothing happens.
pub proof fn law_a_removed_file_is_mirrored(row: RowFact, remote: Option<RemoteFact>)
    ensures
        ({
            let (removing, first) = gone_against(row, remote);
            match remote {
                None => first == ops::tell(seq![Note::DropRowById(row.id)], Op::Finish),
                Some(item) => if item.time == row.remote_time {
                    &&& first == ops::tell(
                        seq![
                            Note::Destructive(Destruction::LocalGoneRemoteMatchesRow),
                            Note::Status(Transfer::RemoveRemote),
                        ],
                        if item.is_dir {
                            Op::Purge
                        } else {
                            Op::DeleteFile
                        },
                    )
                    &&& removing.next(Fact::Done).1 == ops::tell(seq![Note::DropRow], Op::Finish)
                } else {
                    first == ops::ask(Op::Finish)
                },
            }
        }),
{
}

/// A failure is reported at once and ends the run: a failed upload at the
/// local path, a failed look at the remote, download or removal at the remote
/// path. An upload whose source vanished ends it without a word.
pub proof fn law_path_failures_are_reported(item: PathItem, earlier: Fact)
    requires
        ops::fits(item.next(earlier).1.op, Fact::Failed),
        item.next(earlier).0.stage !is NewRemoteTime,
        item.next(earlier).0.stage !is PushedRemoteTime,
    ensures
        ({
            let (asking, answer) = item.next(earlier);
            let side = if answer.op is Push {
                Side::Local
            } else {
                Side::Remote
            };
            &&& asking.next(Fact::Failed).1 == ops::tell(seq![Note::Failure(side)], Op::Finish)
            &&& answer.op is Push ==> asking.next(Fact::SourceGone).1 == ops::ask(Op::Finish)
        }),
{
}

/// The machine is bringing the file to the remote, or is done.
spec fn uploading(item: PathItem) -> bool {
    ||| item.stage is PushingKnown
    ||| item.stage is PushedRemoteTime
    ||| item.stage is Over
}

/// The machine is bringing the remote copy here, or is done.
spec fn downloading(item: PathItem) -> bool {
    ||| item.stage is PullingKnown
    ||| item.stage is PulledLocalTime
    ||| item.stage is Over
}

proof fn lemma_one_way(item: PathItem, facts: Seq<Fact>, i: int)
    requires
        0 <= i <= facts.len(),
    ensures
        uploading(item) ==> uploading(item_laws::machine_after(item, facts.take(i))),
        downloading(item) ==> downloading(item_laws::machine_after(item, facts.take(i))),
    decreases i,
{
    if i > 0 {
        lemma_one_way(item, facts, i - 1);
        item_laws::lemma_next_machine(item, facts, i - 1);
    }
}

/// Whatever comes, a run about a recorded file never changes the side that
/// changed since it was recorded: once only the file is newer nothing is
/// downloaded or removed here, and once only the remote copy is newer nothing
/// is uploaded or removed there.
pub proof fn law_the_changed_side_is_never_overwritten(
    row: RowFact,
    time: u64,
    remote: RemoteFact,
    facts: Seq<Fact>,
    i: int,
)
    requires
        0 <= i < facts.len(),
        time as i64 > row.local_time || remote.time > row.remote_time,
    ensures
        ({
            let (item, first) = held_against(Some(row), time, Some(remote));
            let later = item_laws::answer_at(item, facts, i).op;
            &&& time as i64 > row.local_time ==> !item_runs::changes_local(first.op)
                && !item_runs::changes_local(later)
            &&& remote.time > row.remote_time ==> !item_runs::changes_remote(first.op)
                && !item_runs::changes_remote(later)
        }),
{
    let item = held_against(Some(row), time, Some(remote)).0;
    lemma_one_way(item, facts, i);
}

/// Where a time cannot be read any more, or the remote cannot be asked after a
/// transfer, nothing new is recorded; the row of a file that was recorded
/// before gets the time that was known.
pub proof fn law_what_cannot_be_read_after_a_transfer(
    row: RowFact,
    time: u64,
    remote: RemoteFact,
    new_time: u64,
)
    ensures
        ({
            let done = ops::ask(Op::Finish);
            let timing = looked_up(Some(row)).next(Fact::Flag(true)).0.next(Fact::Flag(false)).0;
            let moved = path_item::at(PathStage::PushingNew).next(Fact::Done).0;
            let looking = moved.next(Fact::Time(Some(new_time))).0;
            let pushed = path_item::at(
                PathStage::PushingKnown {
                    id: row.id,
                    local_time: time,
                    remote_time: remote.time,
                },
            ).next(Fact::Done).0;
            let pulled = path_item::at(
                PathStage::PullingKnown {
                    id: row.id,
                    local_time: time,
                    remote_time: remote.time,
                },
            ).next(Fact::Done).0;
            let kept = ops::tell(
                seq![
                    Note::UpdateRow {
                        id: row.id,
                        local_time: time as i64,
                        remote_time: remote.time,
                    },
                ],
                Op::Finish,
            );
            &&& timing.next(Fact::Time(None)).1 == done
            &&& moved.next(Fact::Time(None)).1 == done
            &&& looking.next(Fact::Remote(None)).1 == done
            &&& looking.next(Fact::Failed).1 == done
            &&& pushed.next(Fact::Remote(None)).1 == kept
            &&& pushed.next(Fact::Failed).1 == kept
            &&& pulled.next(Fact::Time(None)).1 == kept
        }),
{
}

} // verus!
