//! What carrying out one planned action comes to.

use vstd::prelude::*;

use crate::item_laws;
use crate::item_runs;
use crate::ops;
use crate::ops::{AnswerView, Destruction, Fact, Note, Op, RemoteFact, RowFact, Side, Transfer};
use crate::sync::applier;
use crate::sync::apply_item::{ApplyItem, ApplyStage, Deed};
use crate::sync::planner::Action;

verus! {

/// The machine for an action, once it was started.
pub open spec fn begun(deed: Deed, is_dir: bool) -> (ApplyItem, AnswerView) {
    (ApplyItem { deed, is_dir, stage: ApplyStage::Start }).next(Fact::Begin)
}

/// Once an item was moved both its times are read, its row is looked up, and
/// the row gets the two times; where there is none it is made.
pub open spec fn moved_is_recorded(
    moved: (ApplyItem, AnswerView),
    now: u64,
    there: RemoteFact,
    row: RowFact,
) -> bool {
    let (looking, second) = moved.0.next(Fact::Time(Some(now)));
    let (finding, third) = looking.next(Fact::Remote(Some(there)));
    &&& moved.1 == ops::ask(Op::LocalTime)
    &&& second == ops::ask(Op::Stat)
    &&& third == ops::ask(Op::FindRow)
    &&& finding.next(Fact::Row(Some(row))).1 == ops::tell(
        seq![
            Note::UpdateRow { id: row.id, local_time: now as i64, remote_time: there.time },
        ],
        Op::Finish,
    )
    &&& finding.next(Fact::Row(None)).1 == ops::tell(
        seq![Note::InsertRow { local_time: now as i64, remote_time: there.time }],
        Op::Finish,
    )
}

/// An upload of what is still there makes the directory on the remote, or
/// uploads the file, and records it; what is gone meanwhile is left alone.
pub proof fn law_uploads_are_carried_out(is_dir: bool, now: u64, there: RemoteFact, row: RowFact)
    ensures
        ({
            let (asking, first) = begun(Deed::Upload, is_dir);
            let (moving, second) = asking.next(Fact::Flag(true));
            &&& first == ops::ask(Op::Exists)
            &&& asking.next(Fact::Flag(false)).1 == ops::ask(Op::Finish)
            &&& second == if is_dir {
                ops::ask(Op::Mkdir)
            } else {
                ops::tell(seq![Note::Status(Transfer::Upload)], Op::Push)
            }
            &&& moved_is_recorded(moving.next(Fact::Done), now, there, row)
        }),
{
}

/// A download makes the directory here unless it is there, or makes the
/// directories above the file and downloads it, and records it.
pub proof fn law_downloads_are_carried_out(now: u64, there: RemoteFact, row: RowFact)
    ensures
        ({
            let (asking, first) = begun(Deed::Download, true);
            let (making, second) = asking.next(Fact::Flag(false));
            let (moving, download) = begun(Deed::Download, false);
            &&& first == ops::ask(Op::Exists)
            &&& second == ops::ask(Op::CreateDirAll)
            &&& moved_is_recorded(asking.next(Fact::Flag(true)), now, there, row)
            &&& moved_is_recorded(making.next(Fact::Done), now, there, row)
            &&& download == ops::tell(
                seq![Note::MakeParents, Note::Status(Transfer::Download)],
                Op::Download,
            )
            &&& moved_is_recorded(moving.next(Fact::Done), now, there, row)
        }),
{
}

/// A removal is announced, carried out on its own side, and then the row goes.
pub proof fn law_removals_are_carried_out(is_dir: bool)
    ensures
        ({
            let (here, first) = begun(Deed::DeleteLocal, is_dir);
            let (there, second) = begun(Deed::DeleteRemote, is_dir);
            let dropped = ops::tell(seq![Note::DropRow], Op::Finish);
            &&& first == ops::tell(
                seq![
                    Note::Destructive(Destruction::MirrorLocal),
                    Note::Status(Transfer::RemoveLocal),
                ],
                if is_dir {
                    Op::RemoveTree
                } else {
                    Op::RemoveFile
                },
            )
            &&& second == ops::tell(
                seq![
                    Note::Destructive(Destruction::MirrorRemote),
                    Note::Status(Transfer::RemoveRemote),
                ],
                if is_dir {
                    Op::Purge
                } else {
                    Op::DeleteFile
                },
            )
            &&& here.next(Fact::Done).1 == dropped
            &&& there.next(Fact::Done).1 == dropped
        }),
{
}

/// Clearing a row only drops it, and a conflict is only reported.
pub proof fn law_clearing_and_conflicts_touch_nothing(is_dir: bool)
    ensures
        begun(Deed::ClearRow, is_dir).1 == ops::tell(seq![Note::DropRow], Op::Finish),
        begun(Deed::Conflict, is_dir).1 == ops::tell(seq![Note::Conflict], Op::Finish),
{
}

/// A failed change is reported and ends the action: an upload or a change
/// here at the local path, anything else at the remote path.
pub proof fn law_action_failures_are_reported(item: ApplyItem, earlier: Fact)
    requires
        item_runs::changes_local(item.next(earlier).1.op) || item_runs::changes_remote(
            item.next(earlier).1.op,
        ),
    ensures
        ({
            let (changing, answer) = item.next(earlier);
            let side = match answer.op {
                Op::Push | Op::CreateDirAll | Op::RemoveTree | Op::RemoveFile => Side::Local,
                _ => Side::Remote,
            };
            changing.next(Fact::Failed).1 == ops::tell(seq![Note::Failure(side)], Op::Finish)
        }),
{
}

proof fn lemma_deed_stays(item: ApplyItem, facts: Seq<Fact>, i: int)
    requires
        0 <= i <= facts.len(),
    ensures
        item_laws::machine_after(item, facts.take(i)).deed == item.deed,
        item.stage is Start ==> on_track(item_laws::machine_after(item, facts.take(i))),
    decreases i,
{
    if i > 0 {
        lemma_deed_stays(item, facts, i - 1);
        item_laws::lemma_next_machine(item, facts, i - 1);
    }
}

/// The stage is one of those of its action.
spec fn on_track(item: ApplyItem) -> bool {
    match item.stage {
        ApplyStage::SourceThere | ApplyStage::MakingRemoteDir | ApplyStage::Uploading =>
            item.deed is Upload,
        ApplyStage::TargetThere | ApplyStage::MakingLocalDir | ApplyStage::Downloading =>
            item.deed is Download,
        ApplyStage::RemovingLocal => item.deed is DeleteLocal,
        ApplyStage::RemovingRemote => item.deed is DeleteRemote,
        _ => true,
    }
}

/// Whatever comes, only downloads and local removals change this side, and
/// only uploads and remote removals the other one.
pub proof fn law_actions_change_one_side(
    deed: Deed,
    is_dir: bool,
    facts: Seq<Fact>,
    i: int,
)
    requires
        0 <= i < facts.len(),
    ensures
        ({
            let item = ApplyItem { deed, is_dir, stage: ApplyStage::Start };
            let op = item_laws::answer_at(item, facts, i).op;
            &&& item_runs::changes_local(op) ==> deed is Download || deed is DeleteLocal
            &&& item_runs::changes_remote(op) ==> deed is Upload || deed is DeleteRemote
        }),
{
    lemma_deed_stays(ApplyItem { deed, is_dir, stage: ApplyStage::Start }, facts, i);
}

/// Each action is carried out as what it is, at its own two paths.
pub proof fn law_actions_keep_their_kind_and_paths(
    local_path: Seq<char>,
    remote_path: Seq<char>,
    is_dir: bool,
)
    ensures
        ({
            let both = (local_path, remote_path);
            let up = Action::Upload { local_path, remote_path, is_dir };
            let down = Action::Download { local_path, remote_path, is_dir };
            let here = Action::DeleteLocal { local_path, remote_path, is_dir };
            let there = Action::DeleteRemote { local_path, remote_path, is_dir };
            let clear = Action::ClearDbRow { local_path, remote_path };
            let conflict = Action::Conflict { local_path, remote_path };
            let stage = ApplyStage::Start;
            &&& applier::action_paths(up) == both
            &&& applier::action_paths(down) == both
            &&& applier::action_paths(here) == both
            &&& applier::action_paths(there) == both
            &&& applier::action_paths(clear) == both
            &&& applier::action_paths(conflict) == both
            &&& applier::action_machine(up) == (ApplyItem { deed: Deed::Upload, is_dir, stage })
            &&& applier::action_machine(down) == (ApplyItem {
                deed: Deed::Download,
                is_dir,
                stage,
            })
            &&& applier::action_machine(here) == (ApplyItem {
                deed: Deed::DeleteLocal,
                is_dir,
                stage,
            })
            &&& applier::action_machine(there) == (ApplyItem {
                deed: Deed::DeleteRemote,
                is_dir,
                stage,
            })
            &&& applier::action_machine(clear).deed is ClearRow
            &&& applier::action_machine(clear).stage == stage
            &&& applier::action_machine(conflict).deed is Conflict
            &&& applier::action_machine(conflict).stage == stage
        }),
{
}

/// Where a time cannot be read after a transfer, or the remote has nothing or
/// cannot be asked, nothing is recorded and nothing is reported.
pub proof fn law_what_cannot_be_read_after_an_action(item: ApplyItem)
    ensures
        ({
            let done = ops::ask(Op::Finish);
            &&& item.stage is LocalTime ==> item.next(Fact::Time(None)).1 == done
            &&& item.stage is RemoteTime ==> item.next(Fact::Remote(None)).1 == done && item.next(
                Fact::Failed,
            ).1 == done
        }),
{
}

} // verus!
