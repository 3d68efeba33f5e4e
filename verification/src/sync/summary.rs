//! How many actions of each kind a plan holds, and how large the snapshot
//! was.

use vstd::prelude::*;

use crate::sync::planner::Action;
use crate::sync::snapshot::{Snapshot, SnapshotView};
use crate::text;
use crate::text::write_digits;

verus! {

/// One line's worth of numbers about a snapshot and its plan.
#[derive(Clone, Copy, Debug, PartialEq, Eq, Structural)]
pub struct PlanSummary {
    pub rows: usize,
    pub listed: usize,
    pub walked: usize,
    pub walk_unreliable: usize,
    pub uploads: usize,
    pub downloads: usize,
    pub delete_local: usize,
    pub delete_remote: usize,
    pub conflicts: usize,
    pub clear_rows: usize,
}

/// How many actions `wanted` holds of.
pub open spec fn count(
    actions: Seq<Action<Seq<char>>>,
    wanted: spec_fn(Action<Seq<char>>) -> bool,
) -> nat
    decreases actions.len(),
{
    if actions.len() == 0 {
        0
    } else if wanted(actions.last()) {
        count(actions.drop_last(), wanted) + 1
    } else {
        count(actions.drop_last(), wanted)
    }
}

/// The numbers are right.
pub open spec fn sums_up(
    summary: PlanSummary,
    snap: SnapshotView,
    actions: Seq<Action<Seq<char>>>,
) -> bool {
    &&& summary.rows == snap.db.dom().len()
    &&& summary.listed == snap.remote.dom().len()
    &&& summary.walked == snap.local.dom().len()
    &&& summary.walk_unreliable == snap.walk_unreliable.len()
    &&& counts(summary, actions)
}

/// The numbers of actions are right.
pub open spec fn counts(summary: PlanSummary, actions: Seq<Action<Seq<char>>>) -> bool {
    &&& summary.uploads == count(actions, |a: Action<Seq<char>>| a is Upload)
    &&& summary.downloads == count(actions, |a: Action<Seq<char>>| a is Download)
    &&& summary.delete_local == count(actions, |a: Action<Seq<char>>| a is DeleteLocal)
    &&& summary.delete_remote == count(actions, |a: Action<Seq<char>>| a is DeleteRemote)
    &&& summary.conflicts == count(actions, |a: Action<Seq<char>>| a is Conflict)
    &&& summary.clear_rows == count(actions, |a: Action<Seq<char>>| a is ClearDbRow)
}

/// Sums up a snapshot and the plan made for it, so that one line tells
/// whether a delete is a single one or the start of a cascade.
pub fn summarize(snapshot: &Snapshot, actions: &Vec<Action>) -> (summary: PlanSummary)
    ensures
        sums_up(summary, snapshot@, text::views(actions@)),
{
    let mut summary = PlanSummary {
        rows: snapshot.db.len(),
        listed: snapshot.remote.len(),
        walked: snapshot.local.len(),
        walk_unreliable: snapshot.walk_unreliable.len(),
        uploads: 0,
        downloads: 0,
        delete_local: 0,
        delete_remote: 0,
        conflicts: 0,
        clear_rows: 0,
    };
    let ghost start = summary;
    let ghost all = text::views(actions@);
    let total: usize = actions.len();
    let mut i: usize = 0;
    while i < total
        invariant
            total == actions@.len(),
            i <= total,
            all == text::views(actions@),
            counts(summary, all.take(i as int)),
            summary.uploads <= i,
            summary.downloads <= i,
            summary.delete_local <= i,
            summary.delete_remote <= i,
            summary.conflicts <= i,
            summary.clear_rows <= i,
            summary.rows == start.rows,
            summary.listed == start.listed,
            summary.walked == start.walked,
            summary.walk_unreliable == start.walk_unreliable,
        decreases total - i,
    {
        let action = &actions[i];
        proof {
            assert(all.take(i + 1).drop_last() =~= all.take(i as int));
            assert(all.take(i + 1).last() == action@);
        }
        match action {
            Action::Upload { .. } => {
                summary.uploads = summary.uploads + 1;
            },
            Action::Download { .. } => {
                summary.downloads = summary.downloads + 1;
            },
            Action::DeleteLocal { .. } => {
                summary.delete_local = summary.delete_local + 1;
            },
            Action::DeleteRemote { .. } => {
                summary.delete_remote = summary.delete_remote + 1;
            },
            Action::Conflict { .. } => {
                summary.conflicts = summary.conflicts + 1;
            },
            Action::ClearDbRow { .. } => {
                summary.clear_rows = summary.clear_rows + 1;
            },
        }
        i = i + 1;
    }
    assert(all.take(total as int) =~= all);
    summary
}

/// A number behind its name.
pub open spec fn told(name: Seq<char>, number: usize) -> Seq<char> {
    name + text::digits(number as nat)
}

/// The log line about a plan.
pub open spec fn summary_line(
    remote_name: Seq<char>,
    remote_path: Seq<char>,
    summary: PlanSummary,
) -> Seq<char> {
    "sync: plan for remote='"@ + remote_name + "' dir='"@ + remote_path + "' — snapshot("@ + told(
        "db="@,
        summary.rows,
    ) + told(", listing="@, summary.listed) + told(", walk="@, summary.walked) + told(
        ", walk_unreliable="@,
        summary.walk_unreliable,
    ) + "); actions("@ + told("upload="@, summary.uploads) + told(
        ", download="@,
        summary.downloads,
    ) + told(", delete_local="@, summary.delete_local) + told(
        ", delete_remote="@,
        summary.delete_remote,
    ) + told(", conflict="@, summary.conflicts) + told(", clear_db_row="@, summary.clear_rows)
        + ")."@
}

fn tell(line: &mut String, name: &str, number: usize)
    ensures
        final(line)@ == old(line)@ + told(name@, number),
{
    let shown = write_digits(number as u64);
    line.append(name);
    line.append(shown.as_str());
    assert(line@ =~= old(line)@ + told(name@, number));
}

/// The log line about a plan, so that a single removal can be told from the
/// start of a cascade at a glance.
pub fn log_plan_summary(remote_name: &str, remote_path: &str, summary: &PlanSummary) -> (line:
    String)
    ensures
        line@ == summary_line(remote_name@, remote_path@, *summary),
{
    let mut line = "sync: plan for remote='".to_owned();
    line.append(remote_name);
    line.append("' dir='");
    line.append(remote_path);
    line.append("' — snapshot(");
    tell(&mut line, "db=", summary.rows);
    tell(&mut line, ", listing=", summary.listed);
    tell(&mut line, ", walk=", summary.walked);
    tell(&mut line, ", walk_unreliable=", summary.walk_unreliable);
    line.append("); actions(");
    tell(&mut line, "upload=", summary.uploads);
    tell(&mut line, ", download=", summary.downloads);
    tell(&mut line, ", delete_local=", summary.delete_local);
    tell(&mut line, ", delete_remote=", summary.delete_remote);
    tell(&mut line, ", conflict=", summary.conflicts);
    tell(&mut line, ", clear_db_row=", summary.clear_rows);
    line.append(").");
    line
}

/// The numbers of actions of all kinds make the number of actions.
pub proof fn law_every_action_is_counted_once(
    summary: PlanSummary,
    actions: Seq<Action<Seq<char>>>,
)
    requires
        counts(summary, actions),
    ensures
        summary.uploads + summary.downloads + summary.delete_local + summary.delete_remote
            + summary.conflicts + summary.clear_rows == actions.len(),
{
    lemma_counted_once(actions);
}

proof fn lemma_counted_once(actions: Seq<Action<Seq<char>>>)
    ensures
        count(actions, |a: Action<Seq<char>>| a is Upload) + count(
            actions,
            |a: Action<Seq<char>>| a is Download,
        ) + count(actions, |a: Action<Seq<char>>| a is DeleteLocal) + count(
            actions,
            |a: Action<Seq<char>>| a is DeleteRemote,
        ) + count(actions, |a: Action<Seq<char>>| a is Conflict) + count(
            actions,
            |a: Action<Seq<char>>| a is ClearDbRow,
        ) == actions.len(),
    decreases actions.len(),
{
    if actions.len() > 0 {
        lemma_counted_once(actions.drop_last());
    }
}

/// A plan of one kind of action alone is counted under that kind.
pub proof fn law_kinds_are_counted_apart(
    summary: PlanSummary,
    actions: Seq<Action<Seq<char>>>,
)
    requires
        counts(summary, actions),
    ensures
        (forall|i: int| 0 <= i < actions.len() ==> #[trigger] actions[i] is Upload)
            ==> summary.uploads == actions.len(),
        (forall|i: int| 0 <= i < actions.len() ==> #[trigger] actions[i] is Download)
            ==> summary.downloads == actions.len(),
        (forall|i: int| 0 <= i < actions.len() ==> #[trigger] actions[i] is DeleteLocal)
            ==> summary.delete_local == actions.len(),
        (forall|i: int| 0 <= i < actions.len() ==> #[trigger] actions[i] is DeleteRemote)
            ==> summary.delete_remote == actions.len(),
        (forall|i: int| 0 <= i < actions.len() ==> #[trigger] actions[i] is Conflict)
            ==> summary.conflicts == actions.len(),
        (forall|i: int| 0 <= i < actions.len() ==> #[trigger] actions[i] is ClearDbRow)
            ==> summary.clear_rows == actions.len(),
{
    lemma_all_counted(actions, |a: Action<Seq<char>>| a is Upload);
    lemma_all_counted(actions, |a: Action<Seq<char>>| a is Download);
    lemma_all_counted(actions, |a: Action<Seq<char>>| a is DeleteLocal);
    lemma_all_counted(actions, |a: Action<Seq<char>>| a is DeleteRemote);
    lemma_all_counted(actions, |a: Action<Seq<char>>| a is Conflict);
    lemma_all_counted(actions, |a: Action<Seq<char>>| a is ClearDbRow);
}

proof fn lemma_all_counted(
    actions: Seq<Action<Seq<char>>>,
    wanted: spec_fn(Action<Seq<char>>) -> bool,
)
    ensures
        (forall|i: int| 0 <= i < actions.len() ==> wanted(#[trigger] actions[i])) ==> count(
            actions,
            wanted,
        ) == actions.len(),
    decreases actions.len(),
{
    if actions.len() > 0 && (forall|i: int|
        0 <= i < actions.len() ==> wanted(#[trigger] actions[i])) {
        let before = actions.drop_last();
        assert forall|i: int| 0 <= i < before.len() implies wanted(#[trigger] before[i]) by {
            assert(before[i] == actions[i]);
        }
        lemma_all_counted(before, wanted);
        assert(wanted(actions[actions.len() - 1]));
    }
}

/// The sizes are those of the rows, the listing, the walk and the places where
/// the walk failed.
pub proof fn law_sizes_are_told(
    summary: PlanSummary,
    snap: SnapshotView,
    actions: Seq<Action<Seq<char>>>,
)
    requires
        sums_up(summary, snap, actions),
    ensures
        summary.rows == snap.db.dom().len(),
        summary.listed == snap.remote.dom().len(),
        summary.walked == snap.local.dom().len(),
        summary.walk_unreliable == snap.walk_unreliable.len(),
{
}

} // verus!
