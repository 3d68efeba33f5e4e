//! Carries out a plan action by action; bails out between actions when the
//! pass is called off.

use vstd::prelude::*;

use crate::domain::{Message, Progress};
use crate::driver::{Driver, DriverView, Move, MoveView, Place, Step};
use crate::events::Source;
use crate::ops::Side;
use crate::ports;
use crate::ports::{
    add_effect, add_effects, faulting, Effect, Next, Reply, Request, Turn, TurnView,
};
use crate::sync::apply_item::{ApplyItem, ApplyStage, Deed};
use crate::sync::planner::Action;
use crate::text;

verus! {

/// After how many actions the pending line is refreshed.
pub const REFRESH_EVERY: usize = 16;

/// Carries out a plan.
pub struct ApplyPass {
    pub source: Source,
    pub actions: Vec<Action>,
    /// The action that is being carried out, or comes next.
    pub index: usize,
    /// The action being carried out, if it is under way.
    pub current: Option<Driver<ApplyItem>>,
}

/// What an [`ApplyPass`] holds.
#[verifier::ext_equal]
pub struct ApplyPassView {
    pub source: Source,
    pub actions: Seq<Action<Seq<char>>>,
    pub index: int,
    pub current: Option<DriverView<ApplyItem>>,
}

impl View for ApplyPass {
    type V = ApplyPassView;

    open spec fn view(&self) -> ApplyPassView {
        ApplyPassView {
            source: self.source,
            actions: text::views(self.actions@),
            index: self.index as int,
            current: text::opt_view(self.current),
        }
    }
}

/// The paths of an action, the local one first.
pub open spec fn action_paths(action: Action<Seq<char>>) -> (Seq<char>, Seq<char>) {
    match action {
        Action::Upload { local_path, remote_path, .. }
        | Action::Download { local_path, remote_path, .. }
        | Action::DeleteLocal { local_path, remote_path, .. }
        | Action::DeleteRemote { local_path, remote_path, .. }
        | Action::ClearDbRow { local_path, remote_path }
        | Action::Conflict { local_path, remote_path } => (local_path, remote_path),
    }
}

/// The machine that carries out an action.
pub open spec fn action_machine(action: Action<Seq<char>>) -> ApplyItem {
    let (deed, is_dir) = match action {
        Action::Upload { is_dir, .. } => (Deed::Upload, is_dir),
        Action::Download { is_dir, .. } => (Deed::Download, is_dir),
        Action::DeleteLocal { is_dir, .. } => (Deed::DeleteLocal, is_dir),
        Action::DeleteRemote { is_dir, .. } => (Deed::DeleteRemote, is_dir),
        Action::ClearDbRow { .. } => (Deed::ClearRow, false),
        Action::Conflict { .. } => (Deed::Conflict, false),
    };
    ApplyItem { deed, is_dir, stage: ApplyStage::Start }
}

impl ApplyPassView {
    /// Where the action at `index` is carried out.
    pub open spec fn place(self) -> Place<Seq<char>> {
        let (local_path, remote_path) = action_paths(self.actions[self.index]);
        Place {
            source: self.source,
            local_path,
            remote_path,
            progress: Some(
                Progress {
                    pos: (self.index + 1) as usize,
                    total: self.actions.len() as usize,
                },
            ),
            seen_on: Side::Local,
        }
    }

    /// Asks whether to go on with the next action, if there is one.
    pub open spec fn poll(self) -> Next<(), Seq<char>> {
        if self.index < self.actions.len() {
            Next::Ask(Request::IsCancelled)
        } else {
            Next::Done(())
        }
    }

    /// The refreshed pending line, every so many actions.
    pub open spec fn refresh(self) -> Seq<Effect<Seq<char>>> {
        if self.index > 0 && self.index % (REFRESH_EVERY as int) == 0 {
            seq![
                self.source.pending(
                    Message::Applying {
                        total: self.actions.len() as usize,
                        done: self.index as usize,
                    },
                ),
            ]
        } else {
            Seq::empty()
        }
    }

    /// The action under way made a move.
    pub open spec fn moved(
        self,
        before: Seq<Effect<Seq<char>>>,
        driver: DriverView<ApplyItem>,
        result: MoveView,
    ) -> (ApplyPassView, TurnView<()>) {
        let effects = before + result.effects;
        match result.step {
            Step::Ask(request) => (
                ApplyPassView { current: Some(driver), ..self },
                TurnView { effects, next: Next::Ask(request) },
            ),
            Step::Over => {
                let after = ApplyPassView { current: None, index: self.index + 1, ..self };
                (after, TurnView { effects, next: after.poll() })
            },
            _ => (
                ApplyPassView { current: Some(driver), ..self },
                TurnView { effects, next: Next::Fault },
            ),
        }
    }

    /// The pass takes in a reply.
    pub open spec fn next(self, reply: Reply) -> (ApplyPassView, TurnView<()>) {
        match self.current {
            Some(driver) => {
                let (after, result) = driver.next(reply);
                self.moved(Seq::empty(), after, result)
            },
            None => match reply {
                Reply::Begin => (self, TurnView { effects: Seq::empty(), next: self.poll() }),
                Reply::Flag(cancelled) => if cancelled || self.index >= self.actions.len() {
                    (self, TurnView { effects: Seq::empty(), next: Next::Done(()) })
                } else {
                    let start = DriverView::<ApplyItem>::fresh(
                        self.place(),
                        action_machine(self.actions[self.index]),
                    );
                    let (after, result) = start.next(Reply::Begin);
                    self.moved(self.refresh(), after, result)
                },
                _ => (self, ports::fault()),
            },
        }
    }
}

impl ApplyPass {
    /// The pass that carries out `actions`.
    pub fn new(source: Source, actions: Vec<Action>) -> (pass: ApplyPass)
        ensures
            pass@ == (ApplyPassView {
                source,
                actions: text::views(actions@),
                index: 0,
                current: None,
            }),
    {
        ApplyPass { source, actions, index: 0, current: None }
    }

    fn polls(&self) -> (next: Next<()>)
        ensures
            (match next {
                Next::Ask(request) => Next::Ask(request@),
                Next::Done(result) => Next::Done(result),
                Next::Fault => Next::Fault,
            }) == self@.poll(),
    {
        if self.index < self.actions.len() {
            Next::Ask(Request::IsCancelled)
        } else {
            Next::Done(())
        }
    }

    fn moves(&mut self, before: Vec<Effect>, driver: Driver<ApplyItem>, result: Move) -> (turn:
        Turn<()>)
        requires
            old(self).index < old(self).actions@.len(),
        ensures
            (final(self)@, turn@) == old(self)@.moved(text::views(before@), driver@, result@),
    {
        let total: usize = self.actions.len();
        let mut effects = before;
        add_effects(&mut effects, result.effects);
        match result.step {
            Step::Ask(request) => {
                self.current = Some(driver);
                Turn { effects, next: Next::Ask(request) }
            },
            Step::Over => {
                self.current = None;
                self.index = self.index + 1;
                Turn { effects, next: self.polls() }
            },
            _ => {
                self.current = Some(driver);
                Turn { effects, next: Next::Fault }
            },
        }
    }

    fn machine_for(&self) -> (driver: Driver<ApplyItem>)
        requires
            self.index < self.actions@.len(),
        ensures
            driver@ == DriverView::<ApplyItem>::fresh(
                self@.place(),
                action_machine(self@.actions[self@.index]),
            ),
    {
        let total: usize = self.actions.len();
        let action = &self.actions[self.index];
        let (deed, is_dir, local_path, remote_path) = match action {
            Action::Upload { local_path, remote_path, is_dir } => (
                Deed::Upload,
                *is_dir,
                local_path,
                remote_path,
            ),
            Action::Download { local_path, remote_path, is_dir } => (
                Deed::Download,
                *is_dir,
                local_path,
                remote_path,
            ),
            Action::DeleteLocal { local_path, remote_path, is_dir } => (
                Deed::DeleteLocal,
                *is_dir,
                local_path,
                remote_path,
            ),
            Action::DeleteRemote { local_path, remote_path, is_dir } => (
                Deed::DeleteRemote,
                *is_dir,
                local_path,
                remote_path,
            ),
            Action::ClearDbRow { local_path, remote_path } => (
                Deed::ClearRow,
                false,
                local_path,
                remote_path,
            ),
            Action::Conflict { local_path, remote_path } => (
                Deed::Conflict,
                false,
                local_path,
                remote_path,
            ),
        };
        let place = Place {
            source: self.source,
            local_path: local_path.clone(),
            remote_path: remote_path.clone(),
            progress: Some(Progress { pos: self.index + 1, total }),
            seen_on: Side::Local,
        };
        Driver::new(place, ApplyItem::new(deed, is_dir))
    }

    /// Is the pass between its first and its last action, so that a reply
    /// belongs to one?
    pub open spec fn well_formed(self) -> bool {
        self.current is Some ==> self.index < self.actions@.len()
    }

    /// Takes in a reply, [`Reply::Begin`] at first.
    pub fn step(&mut self, reply: Reply) -> (turn: Turn<()>)
        requires
            old(self).well_formed(),
        ensures
            final(self).well_formed(),
            (final(self)@, turn@) == old(self)@.next(reply),
    {
        let mut current: Option<Driver<ApplyItem>> = None;
        std::mem::swap(&mut current, &mut self.current);
        match current {
            Some(driver) => {
                let mut driver = driver;
                let result = driver.step(reply);
                let before: Vec<Effect> = Vec::new();
                self.moves(before, driver, result)
            },
            None => match reply {
                Reply::Begin => {
                    let turn = Turn { effects: Vec::new(), next: self.polls() };
                    turn
                },
                Reply::Flag(cancelled) => {
                    if cancelled || self.index >= self.actions.len() {
                        let turn = Turn { effects: Vec::new(), next: Next::Done(()) };
                        return turn;
                    }
                    let mut before: Vec<Effect> = Vec::new();
                    if self.index > 0 && self.index % REFRESH_EVERY == 0 {
                        add_effect(
                            &mut before,
                            self.source.pending_event(
                                Message::Applying {
                                    total: self.actions.len(),
                                    done: self.index,
                                },
                            ),
                        );
                    }
                    let mut driver = self.machine_for();
                    let result = driver.step(Reply::Begin);
                    self.moves(before, driver, result)
                },
                _ => faulting(),
            },
        }
    }
}

/// Once called off between two actions, a pass does nothing more.
pub proof fn law_cancelled_apply_stops(pass: ApplyPassView)
    requires
        pass.current is None,
    ensures
        pass.next(Reply::Flag(true)) == (
            pass,
            TurnView::<()> { effects: Seq::empty(), next: Next::Done(()) },
        ),
{
}

/// The actions are carried out one after the other: each reply leaves the
/// pass at its action or brings it to the next one.
pub proof fn law_apply_goes_action_by_action(pass: ApplyPassView, reply: Reply)
    ensures
        pass.next(reply).0.actions == pass.actions,
        pass.next(reply).0.index == pass.index || pass.next(reply).0.index == pass.index + 1,
        pass.next(reply).0.index == pass.index + 1 ==> pass.next(reply).0.current is None,
{
}

impl ApplyPassView {
    /// What is under way is the action at hand.
    pub open spec fn on_course(self) -> bool {
        &&& 0 <= self.index <= self.actions.len()
        &&& self.current matches Some(driver) ==> {
            &&& self.index < self.actions.len()
            &&& driver.place == self.place()
            &&& driver.machine.deed == action_machine(self.actions[self.index]).deed
        }
    }
}

/// The action has what the request removes removed.
pub open spec fn calls_for(action: Action<Seq<char>>, request: Request<Seq<char>>) -> bool {
    match request {
        Request::RemoveDirAll(path) | Request::RemoveFile(path) => {
            action matches Action::DeleteLocal { local_path, .. } && local_path == path
        },
        Request::Purge(path) | Request::DeleteFile(path) => {
            action matches Action::DeleteRemote { remote_path, .. } && remote_path == path
        },
        _ => true,
    }
}

/// Nothing is removed on either side that the action at hand does not have
/// removed, and each removal is at that action's own path.
pub proof fn law_only_planned_removals(pass: ApplyPassView, reply: Reply)
    requires
        pass.on_course(),
    ensures
        pass.next(reply).0.on_course(),
        pass.next(reply).1.next matches Next::Ask(request) ==> {
            ||| request is IsCancelled
            ||| pass.index < pass.actions.len() && calls_for(pass.actions[pass.index], request)
        },
{
}

} // verus!
