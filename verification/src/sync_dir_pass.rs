//! One full pass over a synced directory: the check whether anything changed,
//! then the pass over the local and the pass over the remote tree.

use vstd::prelude::*;

use crate::domain::{Message, Remote, SyncDir};
use crate::events::Source;
use crate::ops::Side;
use crate::ports::{
    add_effect, add_effects, no_effects, Effect, Next, Reply, Request, Turn, TurnView,
};
use crate::should_sync::{should_sync, ChangeCheck, ChangeCheckView};
use crate::text;
use crate::tree::pass;
use crate::tree::pass::{sync_local_directory, sync_remote_directory, TreePass, TreePassView};

verus! {

/// What a pass ended up doing.
#[derive(Clone, Copy, Debug, PartialEq, Eq, Structural)]
pub enum Outcome {
    /// Nothing had changed; nothing was synced.
    UpToDate,
    /// Something had changed, and both trees were gone through.
    Synced,
}

/// How far a pass has come.
pub enum DirStage {
    Check(ChangeCheck),
    Local(TreePass),
    Remote(TreePass),
    Over,
}

/// What a [`DirStage`] holds.
pub enum DirStageView {
    Check(ChangeCheckView),
    Local(TreePassView),
    Remote(TreePassView),
    Over,
}

impl View for DirStage {
    type V = DirStageView;

    open spec fn view(&self) -> DirStageView {
        match *self {
            DirStage::Check(check) => DirStageView::Check(check@),
            DirStage::Local(tree) => DirStageView::Local(tree@),
            DirStage::Remote(tree) => DirStageView::Remote(tree@),
            DirStage::Over => DirStageView::Over,
        }
    }
}

/// One full pass over a synced directory.
pub struct DirPass {
    pub remote: Remote,
    pub sync_dir: SyncDir,
    pub stage: DirStage,
}

/// What a [`DirPass`] holds.
pub struct DirPassView {
    pub remote: Remote<Seq<char>>,
    pub sync_dir: SyncDir<Seq<char>>,
    pub stage: DirStageView,
}

impl View for DirPass {
    type V = DirPassView;

    open spec fn view(&self) -> DirPassView {
        DirPassView { remote: self.remote@, sync_dir: self.sync_dir@, stage: self.stage@ }
    }
}

impl DirPassView {
    /// The directory that events are about.
    pub open spec fn source(self) -> Source {
        Source { remote_id: self.remote.id, sync_dir_id: self.sync_dir.id }
    }

    /// At another stage.
    pub open spec fn at(self, stage: DirStageView) -> DirPassView {
        DirPassView { stage, ..self }
    }

    /// Says that the files are in sync, and ends.
    pub open spec fn end(self, before: Seq<Effect<Seq<char>>>, outcome: Outcome) -> (
        DirPassView,
        TurnView<Outcome>,
    ) {
        (
            self.at(DirStageView::Over),
            TurnView {
                effects: before.push(self.source().status(Message::FilesSynced)),
                next: Next::Done(outcome),
            },
        )
    }

    /// Gives up.
    pub open spec fn fault(self, effects: Seq<Effect<Seq<char>>>) -> (
        DirPassView,
        TurnView<Outcome>,
    ) {
        (self.at(DirStageView::Over), TurnView { effects, next: Next::Fault })
    }

    /// The check made a turn: where nothing changed the pass is over, else
    /// the local tree comes.
    pub open spec fn checked(self, check: ChangeCheckView, turn: TurnView<bool>) -> (
        DirPassView,
        TurnView<Outcome>,
    ) {
        match turn.next {
            Next::Ask(request) => (
                self.at(DirStageView::Check(check)),
                TurnView { effects: turn.effects, next: Next::Ask(request) },
            ),
            Next::Done(changed) => if changed {
                let (tree, first) = pass::fresh_pass(
                    Side::Local,
                    self.sync_dir.local_path,
                    self.remote,
                    self.sync_dir,
                    Seq::empty(),
                ).next(Reply::Begin);
                self.local_turn(turn.effects, tree, first)
            } else {
                self.end(turn.effects, Outcome::UpToDate)
            },
            Next::Fault => self.fault(turn.effects),
        }
    }

    /// The pass over the local tree made a turn: once it is over the remote
    /// tree comes, without what was synced.
    pub open spec fn local_turn(
        self,
        before: Seq<Effect<Seq<char>>>,
        tree: TreePassView,
        turn: TurnView<()>,
    ) -> (DirPassView, TurnView<Outcome>) {
        let effects = before + turn.effects;
        match turn.next {
            Next::Ask(request) => (
                self.at(DirStageView::Local(tree)),
                TurnView { effects, next: Next::Ask(request) },
            ),
            Next::Done(_) => {
                let (other, first) = pass::fresh_pass(
                    Side::Remote,
                    self.sync_dir.remote_path,
                    self.remote,
                    self.sync_dir,
                    tree.synced,
                ).next(Reply::Begin);
                self.remote_turn(effects, other, first)
            },
            Next::Fault => self.fault(effects),
        }
    }

    /// The pass over the remote tree made a turn.
    pub open spec fn remote_turn(
        self,
        before: Seq<Effect<Seq<char>>>,
        tree: TreePassView,
        turn: TurnView<()>,
    ) -> (DirPassView, TurnView<Outcome>) {
        let effects = before + turn.effects;
        match turn.next {
            Next::Ask(request) => (
                self.at(DirStageView::Remote(tree)),
                TurnView { effects, next: Next::Ask(request) },
            ),
            Next::Done(_) => self.end(effects, Outcome::Synced),
            Next::Fault => self.fault(effects),
        }
    }

    /// The pass takes in a reply.
    pub open spec fn next(self, reply: Reply) -> (DirPassView, TurnView<Outcome>) {
        match self.stage {
            DirStageView::Check(check) => self.checked(check.next(reply).0, check.next(reply).1),
            DirStageView::Local(tree) => self.local_turn(
                Seq::empty(),
                tree.next(reply).0,
                tree.next(reply).1,
            ),
            DirStageView::Remote(tree) => self.remote_turn(
                Seq::empty(),
                tree.next(reply).0,
                tree.next(reply).1,
            ),
            DirStageView::Over => self.fault(Seq::empty()),
        }
    }
}

/// Runs the check and, if something changed, one pass over the local and one
/// over the remote tree.
pub fn run(remote: Remote, sync_dir: SyncDir) -> (pass: DirPass)
    ensures
        pass@.remote == remote@,
        pass@.sync_dir == sync_dir@,
        pass@.stage matches DirStageView::Check(check) && check == (ChangeCheckView {
            source: Source { remote_id: remote.id, sync_dir_id: sync_dir.id },
            sync_dir: sync_dir@,
            stage: crate::should_sync::CheckStage::Start,
            changed: false,
            paths: Seq::empty(),
            items: Seq::empty(),
            rows: Seq::empty(),
            index: 0,
        }),
{
    let check = should_sync(&remote, &sync_dir);
    DirPass { remote, sync_dir, stage: DirStage::Check(check) }
}

impl DirPass {
    fn source_of(&self) -> (source: Source)
        ensures
            source == self@.source(),
    {
        Source { remote_id: self.remote.id, sync_dir_id: self.sync_dir.id }
    }

    fn ends(&mut self, before: Vec<Effect>, outcome: Outcome) -> (turn: Turn<Outcome>)
        ensures
            (final(self)@, turn@) == old(self)@.end(text::views(before@), outcome),
    {
        let mut effects = before;
        let source = self.source_of();
        add_effect(&mut effects, source.status_event(Message::FilesSynced));
        self.stage = DirStage::Over;
        Turn { effects, next: Next::Done(outcome) }
    }

    fn faults(&mut self, effects: Vec<Effect>) -> (turn: Turn<Outcome>)
        ensures
            (final(self)@, turn@) == old(self)@.fault(text::views(effects@)),
    {
        self.stage = DirStage::Over;
        Turn { effects, next: Next::Fault }
    }

    fn checks(&mut self, check: ChangeCheck, result: Turn<bool>) -> (turn: Turn<Outcome>)
        ensures
            (final(self)@, turn@) == old(self)@.checked(check@, result@),
    {
        match result.next {
            Next::Ask(request) => {
                self.stage = DirStage::Check(check);
                Turn { effects: result.effects, next: Next::Ask(request) }
            },
            Next::Done(changed) => {
                if changed {
                    let synced: Vec<(String, String)> = Vec::new();
                    assert(text::views(synced@) =~= Seq::empty());
                    let mut tree = sync_local_directory(
                        self.sync_dir.local_path.as_str(),
                        &self.remote,
                        &self.sync_dir,
                        synced,
                    );
                    let first = tree.step(Reply::Begin);
                    self.local_turns(result.effects, tree, first)
                } else {
                    self.ends(result.effects, Outcome::UpToDate)
                }
            },
            Next::Fault => self.faults(result.effects),
        }
    }

    fn local_turns(&mut self, before: Vec<Effect>, tree: TreePass, result: Turn<()>) -> (turn: Turn<
        Outcome,
    >)
        ensures
            (final(self)@, turn@) == old(self)@.local_turn(text::views(before@), tree@, result@),
    {
        let mut effects = before;
        add_effects(&mut effects, result.effects);
        match result.next {
            Next::Ask(request) => {
                self.stage = DirStage::Local(tree);
                Turn { effects, next: Next::Ask(request) }
            },
            Next::Done(_) => {
                let mut other = sync_remote_directory(
                    self.sync_dir.remote_path.as_str(),
                    &self.remote,
                    &self.sync_dir,
                    tree.synced,
                );
                let first = other.step(Reply::Begin);
                self.remote_turns(effects, other, first)
            },
            Next::Fault => self.faults(effects),
        }
    }

    fn remote_turns(&mut self, before: Vec<Effect>, tree: TreePass, result: Turn<()>) -> (turn:
        Turn<Outcome>)
        ensures
            (final(self)@, turn@) == old(self)@.remote_turn(text::views(before@), tree@, result@),
    {
        let mut effects = before;
        add_effects(&mut effects, result.effects);
        match result.next {
            Next::Ask(request) => {
                self.stage = DirStage::Remote(tree);
                Turn { effects, next: Next::Ask(request) }
            },
            Next::Done(_) => self.ends(effects, Outcome::Synced),
            Next::Fault => self.faults(effects),
        }
    }

    /// Takes in a reply, [`Reply::Begin`] at first.
    pub fn step(&mut self, reply: Reply) -> (turn: Turn<Outcome>)
        ensures
            (final(self)@, turn@) == old(self)@.next(reply),
    {
        let mut stage = DirStage::Over;
        std::mem::swap(&mut stage, &mut self.stage);
        match stage {
            DirStage::Check(check) => {
                let mut check = check;
                let result = check.step(reply);
                self.checks(check, result)
            },
            DirStage::Local(tree) => {
                let mut tree = tree;
                let result = tree.step(reply);
                self.local_turns(no_effects(), tree, result)
            },
            DirStage::Remote(tree) => {
                let mut tree = tree;
                let result = tree.step(reply);
                self.remote_turns(no_effects(), tree, result)
            },
            DirStage::Over => self.faults(no_effects()),
        }
    }
}

/// Where nothing changed nothing is synced: the pass ends as up to date right
/// after the check.
pub proof fn law_unchanged_directory_is_left_alone(pass: DirPassView, reply: Reply)
    requires
        pass.stage matches DirStageView::Check(check) && check.next(reply).1.next == Next::<
            bool,
            Seq<char>,
        >::Done(false),
    ensures
        pass.next(reply).1.next == Next::<Outcome, Seq<char>>::Done(Outcome::UpToDate),
        pass.next(reply).0.stage is Over,
{
}

/// Where something changed, the local tree is gone through from the local root
/// with nothing counted as synced yet; once that is over the remote tree is
/// gone through from the remote root, without what was synced; once that is
/// over the files are in sync.
pub proof fn law_a_changed_directory_is_gone_through(
    pass: DirPassView,
    check: ChangeCheckView,
    tree: TreePassView,
    effects: Seq<Effect<Seq<char>>>,
)
    ensures
        ({
            let turn = TurnView::<bool> { effects, next: Next::Done(true) };
            let done = TurnView::<()> { effects, next: Next::Done(()) };
            let local = pass.checked(check, turn);
            let remote = pass.local_turn(Seq::empty(), tree, done);
            let over = pass.remote_turn(Seq::empty(), tree, done);
            &&& local.0.stage matches DirStageView::Local(begun) && begun.root
                == pass.sync_dir.local_path && begun.side is Local && begun.synced.len() == 0
                && begun.sync_dir == pass.sync_dir && begun.source == pass.source()
            &&& local.1.next is Ask
            &&& remote.0.stage matches DirStageView::Remote(begun) && begun.root
                == pass.sync_dir.remote_path && begun.side is Remote && begun.synced == tree.synced
                && begun.sync_dir == pass.sync_dir && begun.source == pass.source()
            &&& remote.1.next is Ask
            &&& over.1.next == Next::<Outcome, Seq<char>>::Done(Outcome::Synced)
            &&& over.1.effects == effects.push(pass.source().status(Message::FilesSynced))
        }),
{
    assert(Seq::empty() + effects =~= effects);
}

/// What the stage at hand asks for and does reaches the world as it is.
pub proof fn law_the_stage_at_hand_is_followed(
    pass: DirPassView,
    check: ChangeCheckView,
    tree: TreePassView,
    effects: Seq<Effect<Seq<char>>>,
    request: Request<Seq<char>>,
)
    ensures
        ({
            let asking = TurnView::<bool> { effects, next: Next::Ask(request) };
            let going = TurnView::<()> { effects, next: Next::Ask(request) };
            let asked = Next::<Outcome, Seq<char>>::Ask(request);
            let (one, two, three) = (
                pass.checked(check, asking),
                pass.local_turn(Seq::empty(), tree, going),
                pass.remote_turn(Seq::empty(), tree, going),
            );
            &&& one.1.next == asked && one.1.effects == effects
            &&& two.1.next == asked && two.1.effects == effects
            &&& three.1.next == asked && three.1.effects == effects
            &&& one.0.stage == DirStageView::Check(check)
            &&& two.0.stage == DirStageView::Local(tree)
            &&& three.0.stage == DirStageView::Remote(tree)
        }),
{
    assert(Seq::empty() + effects =~= effects);
}

} // verus!
