//! What holds of every run of an item machine.

use vstd::prelude::*;

use crate::ops;
use crate::ops::{Answer, AnswerView, Fact};

verus! {

/// A machine that syncs one item.
pub trait ItemMachine: Sized {
    /// What it becomes and answers when handed a fact.
    spec fn after(self, fact: Fact) -> (Self, AnswerView);

    /// It will not change the rows any more.
    spec fn quiet(self) -> bool;

    /// It announced a destruction.
    spec fn armed(self) -> bool;

    /// It finished or gave up.
    spec fn over(self) -> bool;

    /// A bound on the facts that it still takes in.
    spec fn rank(self) -> nat;

    /// Once quiet it stays so.
    proof fn quiet_stays(self, fact: Fact)
        requires
            self.quiet(),
        ensures
            self.after(fact).0.quiet(),
            ops::keeps_rows(self.after(fact).1.notes),
    ;

    /// Takes in a fact and answers.
    fn step(&mut self, fact: Fact) -> (answer: Answer)
        ensures
            (*final(self), answer@) == old(self).after(fact),
    ;

    /// A transfer or a removal that failed makes it quiet.
    proof fn failure_quiets(self, fact: Fact, outcome: Fact)
        requires
            outcome is Failed || outcome is SourceGone,
            ops::transfers(self.after(fact).1.op) || ops::destroys(self.after(fact).1.op),
        ensures
            self.after(fact).0.after(outcome).0.quiet(),
            ops::keeps_rows(self.after(fact).0.after(outcome).1.notes),
    ;

    /// It destroys only what it announced.
    proof fn arms_first(self, fact: Fact)
        ensures
            ops::destroys(self.after(fact).1.op) ==> self.armed() || ops::announces(
                self.after(fact).1.notes,
            ),
            self.after(fact).0.armed() ==> self.armed() || ops::announces(
                self.after(fact).1.notes,
            ),
    ;

    /// Every fact brings it nearer to its end.
    proof fn rank_falls(self, fact: Fact)
        ensures
            self.over() ==> self.after(fact).0.over(),
            !self.over() ==> self.after(fact).0.rank() < self.rank(),
            self.after(fact).0.over() <==> self.after(fact).1.op is Finish || self.after(
                fact,
            ).1.op is Fault,
    ;
}

/// The machine after a run of facts.
pub open spec fn machine_after<M: ItemMachine>(machine: M, facts: Seq<Fact>) -> M
    decreases facts.len(),
{
    if facts.len() == 0 {
        machine
    } else {
        machine_after(machine, facts.drop_last()).after(facts.last()).0
    }
}

/// What it answers to the fact at place `i` of the run.
pub open spec fn answer_at<M: ItemMachine>(machine: M, facts: Seq<Fact>, i: int) -> AnswerView {
    machine_after(machine, facts.take(i)).after(facts[i]).1
}

pub proof fn lemma_next_machine<M: ItemMachine>(machine: M, facts: Seq<Fact>, i: int)
    requires
        0 <= i < facts.len(),
    ensures
        machine_after(machine, facts.take(i + 1)) == machine_after(machine, facts.take(i)).after(
            facts[i],
        ).0,
{
    assert(facts.take(i + 1).drop_last() =~= facts.take(i));
}

proof fn lemma_quiet_run<M: ItemMachine>(machine: M, facts: Seq<Fact>, i: int, j: int)
    requires
        0 <= i <= j < facts.len(),
        machine_after(machine, facts.take(i)).quiet(),
    ensures
        machine_after(machine, facts.take(j)).quiet(),
        ops::keeps_rows(answer_at(machine, facts, j).notes),
    decreases j,
{
    if i < j {
        lemma_quiet_run(machine, facts, i, j - 1);
        machine_after(machine, facts.take(j - 1)).quiet_stays(facts[j - 1]);
        lemma_next_machine(machine, facts, j - 1);
    }
    machine_after(machine, facts.take(j)).quiet_stays(facts[j]);
}

/// Once a transfer or a removal failed, the rows are not changed any more,
/// whatever comes.
pub proof fn law_failure_keeps_rows<M: ItemMachine>(machine: M, facts: Seq<Fact>, i: int, j: int)
    requires
        0 <= i < j < facts.len(),
        ops::transfers(answer_at(machine, facts, i).op) || ops::destroys(
            answer_at(machine, facts, i).op,
        ),
        facts[i + 1] is Failed || facts[i + 1] is SourceGone,
    ensures
        ops::keeps_rows(answer_at(machine, facts, j).notes),
{
    let before = machine_after(machine, facts.take(i));
    before.failure_quiets(facts[i], facts[i + 1]);
    lemma_next_machine(machine, facts, i);
    if j > i + 1 {
        lemma_next_machine(machine, facts, i + 1);
        lemma_quiet_run(machine, facts, i + 2, j);
    }
}

proof fn lemma_armed_run<M: ItemMachine>(machine: M, facts: Seq<Fact>, i: int)
    requires
        0 <= i <= facts.len(),
        !machine.armed(),
        machine_after(machine, facts.take(i)).armed(),
    ensures
        exists|k: int|
            0 <= k < i && ops::announces((#[trigger] answer_at(machine, facts, k)).notes),
    decreases i,
{
    if i == 0 {
        assert(machine_after(machine, facts.take(0)) == machine);
    } else {
        let before = machine_after(machine, facts.take(i - 1));
        lemma_next_machine(machine, facts, i - 1);
        before.arms_first(facts[i - 1]);
        if ops::announces(before.after(facts[i - 1]).1.notes) {
            assert(ops::announces(answer_at(machine, facts, i - 1).notes));
        } else {
            lemma_armed_run(machine, facts, i - 1);
        }
    }
}

/// Whatever a machine destroys, it announced: with that answer or with an
/// earlier one.
pub proof fn law_destruction_is_announced<M: ItemMachine>(machine: M, facts: Seq<Fact>, i: int)
    requires
        0 <= i < facts.len(),
        !machine.armed(),
        ops::destroys(answer_at(machine, facts, i).op),
    ensures
        exists|k: int|
            0 <= k <= i && ops::announces((#[trigger] answer_at(machine, facts, k)).notes),
{
    let before = machine_after(machine, facts.take(i));
    before.arms_first(facts[i]);
    if ops::announces(before.after(facts[i]).1.notes) {
        assert(ops::announces(answer_at(machine, facts, i).notes));
    } else {
        lemma_armed_run(machine, facts, i);
    }
}

proof fn lemma_rank_run<M: ItemMachine>(machine: M, facts: Seq<Fact>)
    ensures
        machine_after(machine, facts).over() || machine_after(machine, facts).rank() + facts.len()
            <= machine.rank(),
    decreases facts.len(),
{
    if facts.len() > 0 {
        lemma_rank_run(machine, facts.drop_last());
        machine_after(machine, facts.drop_last()).rank_falls(facts.last());
    }
}

/// A machine comes to its end: it takes in at most as many facts as its rank
/// says.
pub proof fn law_every_run_ends<M: ItemMachine>(machine: M, facts: Seq<Fact>)
    requires
        facts.len() > machine.rank(),
    ensures
        machine_after(machine, facts).over(),
{
    lemma_rank_run(machine, facts);
}

/// Once a machine said that it is done, nothing is asked of it any more and
/// it asks for nothing: it has finished exactly when it says so.
pub proof fn law_over_when_it_says_so<M: ItemMachine>(machine: M, facts: Seq<Fact>, i: int)
    requires
        0 <= i < facts.len(),
    ensures
        machine_after(machine, facts.take(i + 1)).over() <==> {
            let op = answer_at(machine, facts, i).op;
            op is Finish || op is Fault
        },
{
    lemma_next_machine(machine, facts, i);
    machine_after(machine, facts.take(i)).rank_falls(facts[i]);
}

} // verus!
