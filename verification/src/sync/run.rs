//! One pass over a synced directory: snapshot, plan, apply.

use vstd::prelude::*;

use crate::domain::{
    Message, Reason, Remote, RemoteItem, SyncDir, SyncDirRunState, SyncError, SyncItem,
};
use crate::events::Source;
use crate::notices::Notice;
use crate::ports;
use crate::ports::{
    add_effect, add_effects, asking, faulting, DirEntry, Effect, Next, Reply, Request, Turn,
    TurnView,
};
use crate::sync::applier;
use crate::sync::applier::{ApplyPass, ApplyPassView};
use crate::sync::plan_laws;
use crate::sync::planner;
use crate::sync::planner::{plan, Action};
use crate::sync::remarks;
use crate::sync::remarks::remarks;
use crate::sync::snapshot;
use crate::sync::snapshot::{
    is_directory_missing_error, Exclusions, ExclusionsView, Snapshot, SnapshotView,
};
use crate::sync::summary;
use crate::sync::summary::{summarize, PlanSummary};
use crate::sync::walk;
use crate::sync::walk::{Walk, WalkView};
use crate::text;

verus! {

/// What a pass came to.
#[derive(Clone, Copy, Debug, PartialEq, Eq, Structural)]
pub enum Outcome {
    /// The plan was applied in full.
    Synced,
    /// The pass refused to act: it was called off, or the listing failed.
    Aborted,
    /// The provider limits the rate of requests: nothing was applied, or
    /// what was applied should be followed by a pause.
    Degraded,
}

/// How far a pass has come.
pub enum RunStage {
    Start,
    Exclusions,
    Rows { excluded: Exclusions },
    Listing { excluded: Exclusions, rows: Vec<SyncItem> },
    Walking { excluded: Exclusions, rows: Vec<SyncItem>, items: Vec<RemoteItem>, walk: Walk },
    Listed { result: Result<Snapshot, String> },
    Planning { snapshot: Snapshot },
    Applying { apply: ApplyPass },
    Applied,
    Finishing,
    Over,
}

/// What a [`RunStage`] holds.
pub enum RunStageView {
    Start,
    Exclusions,
    Rows { excluded: ExclusionsView },
    Listing { excluded: ExclusionsView, rows: Seq<SyncItem<Seq<char>>> },
    Walking {
        excluded: ExclusionsView,
        rows: Seq<SyncItem<Seq<char>>>,
        items: Seq<RemoteItem<Seq<char>>>,
        walk: WalkView,
    },
    Listed { result: Result<SnapshotView, Seq<char>> },
    Planning { snapshot: SnapshotView },
    Applying { apply: ApplyPassView },
    Applied,
    Finishing,
    Over,
}

impl View for RunStage {
    type V = RunStageView;

    open spec fn view(&self) -> RunStageView {
        match *self {
            RunStage::Start => RunStageView::Start,
            RunStage::Exclusions => RunStageView::Exclusions,
            RunStage::Rows { excluded } => RunStageView::Rows { excluded: excluded@ },
            RunStage::Listing { excluded, rows } => RunStageView::Listing {
                excluded: excluded@,
                rows: text::views(rows@),
            },
            RunStage::Walking { excluded, rows, items, walk } => RunStageView::Walking {
                excluded: excluded@,
                rows: text::views(rows@),
                items: text::views(items@),
                walk: walk@,
            },
            RunStage::Listed { result } => RunStageView::Listed {
                result: match result {
                    Ok(snapshot) => Ok(snapshot@),
                    Err(words) => Err(words@),
                },
            },
            RunStage::Planning { snapshot } => RunStageView::Planning { snapshot: snapshot@ },
            RunStage::Applying { apply } => RunStageView::Applying { apply: apply@ },
            RunStage::Applied => RunStageView::Applied,
            RunStage::Finishing => RunStageView::Finishing,
            RunStage::Over => RunStageView::Over,
        }
    }
}

/// One pass over a synced directory.
pub struct SyncPass {
    pub source: Source,
    pub sync_dir: SyncDir,
    pub all_sync_dirs: Vec<SyncDir>,
    pub stage: RunStage,
}

/// What a [`SyncPass`] holds.
pub struct SyncPassView {
    pub source: Source,
    pub sync_dir: SyncDir<Seq<char>>,
    pub all_sync_dirs: Seq<SyncDir<Seq<char>>>,
    pub stage: RunStageView,
}

impl View for SyncPass {
    type V = SyncPassView;

    open spec fn view(&self) -> SyncPassView {
        SyncPassView {
            source: self.source,
            sync_dir: self.sync_dir@,
            all_sync_dirs: text::views(self.all_sync_dirs@),
            stage: self.stage@,
        }
    }
}

/// The list, or an empty one where it could not be had.
pub open spec fn or_none<T>(list: Result<Vec<T>, String>) -> Seq<T> {
    match list {
        Ok(items) => items@,
        Err(_) => Seq::empty(),
    }
}

fn items_or_none<T>(list: Result<Vec<T>, String>) -> (items: Vec<T>)
    ensures
        items@ == or_none(list),
{
    match list {
        Ok(items) => items,
        Err(_) => Vec::new(),
    }
}

impl SyncPassView {
    /// At another stage.
    pub open spec fn at(self, stage: RunStageView) -> SyncPassView {
        SyncPassView { stage, ..self }
    }

    /// Ends with effects and an outcome.
    pub open spec fn end(self, effects: Seq<Effect<Seq<char>>>, outcome: Outcome) -> (
        SyncPassView,
        TurnView<Outcome>,
    ) {
        (self.at(RunStageView::Over), TurnView { effects, next: Next::Done(outcome) })
    }

    /// Goes on to another stage with a question.
    pub open spec fn go(self, stage: RunStageView, request: Request<Seq<char>>) -> (
        SyncPassView,
        TurnView<Outcome>,
    ) {
        (self.at(stage), ports::ask(request))
    }

    /// Gives up.
    pub open spec fn fault(self) -> (SyncPassView, TurnView<Outcome>) {
        (self.at(RunStageView::Over), ports::fault())
    }

    /// Starts the walk, with the listed items at hand.
    pub open spec fn start_walk(
        self,
        excluded: ExclusionsView,
        rows: Seq<SyncItem<Seq<char>>>,
        items: Seq<RemoteItem<Seq<char>>>,
        effects: Seq<Effect<Seq<char>>>,
    ) -> (SyncPassView, TurnView<Outcome>) {
        (
            self.at(
                RunStageView::Walking {
                    excluded,
                    rows,
                    items,
                    walk: WalkView::start(self.sync_dir.local_path, self.sync_dir.remote_path),
                },
            ),
            TurnView { effects, next: Next::Ask(Request::ReadDir(self.sync_dir.local_path)) },
        )
    }

    /// The root does not exist on the remote: that is logged, and the root
    /// created, unless it is the remote's own.
    pub open spec fn recreate_root(self, words: Seq<char>) -> Seq<Effect<Seq<char>>> {
        let root = self.sync_dir.remote_path;
        let missing = Effect::Log(Notice::MissingRoot { path: root, words });
        if root.len() > 0 {
            seq![missing, Effect::Mkdir(root)]
        } else {
            seq![missing]
        }
    }

    /// The listing came. A root that does not exist on the remote is created
    /// and counts as empty; any other failure ends the pass.
    pub open spec fn listed(
        self,
        excluded: ExclusionsView,
        rows: Seq<SyncItem<Seq<char>>>,
        list: Result<Vec<RemoteItem>, String>,
    ) -> (SyncPassView, TurnView<Outcome>) {
        match list {
            Ok(items) => self.start_walk(excluded, rows, text::views(items@), Seq::empty()),
            Err(words) => if snapshot::says_directory_missing(words@) {
                self.start_walk(
                    excluded,
                    rows,
                    Seq::empty(),
                    self.recreate_root(words@),
                )
            } else {
                self.go(RunStageView::Listed { result: Err(words@) }, Request::RateLimitSeen)
            },
        }
    }

    /// A directory was read: on with the next one, or the snapshot is
    /// complete. What went wrong is logged.
    pub open spec fn walked(
        self,
        excluded: ExclusionsView,
        rows: Seq<SyncItem<Seq<char>>>,
        items: Seq<RemoteItem<Seq<char>>>,
        walk: WalkView,
        entries: Result<Vec<DirEntry>, String>,
    ) -> (SyncPassView, TurnView<Outcome>) {
        let (after, notices) = walk.read(entries, excluded.local);
        let effects = ports::logged(notices);
        if after.open.len() > 0 {
            (
                self.at(RunStageView::Walking { excluded, rows, items, walk: after }),
                TurnView {
                    effects,
                    next: Next::Ask(Request::ReadDir(after.open.last().dir.path)),
                },
            )
        } else {
            (
                self.at(
                    RunStageView::Listed {
                        result: Ok(snapshot::built(excluded, rows, items, after)),
                    },
                ),
                TurnView { effects, next: Next::Ask(Request::RateLimitSeen) },
            )
        }
    }

    /// The listing and the walk are over, and it is known whether the
    /// provider complained meanwhile.
    pub open spec fn judged(
        self,
        result: Result<SnapshotView, Seq<char>>,
        rate_limited: bool,
    ) -> (SyncPassView, TurnView<Outcome>) {
        let root = self.sync_dir.remote_path;
        if rate_limited {
            self.end(
                seq![
                    Effect::Log(Notice::SlowedListing),
                    self.source.error(SyncError::General(root, Reason::RateLimited)),
                    self.source.status(Message::SkippedRateLimited),
                    self.source.state(SyncDirRunState::Warning),
                ],
                Outcome::Degraded,
            )
        } else {
            match result {
                Ok(snapshot) => self.go(
                    RunStageView::Planning { snapshot },
                    Request::IsCancelled,
                ),
                Err(words) => self.end(
                    seq![
                        Effect::Log(Notice::FailedListing { words }),
                        self.source.error(SyncError::General(root, Reason::Reported(words))),
                        self.source.status(Message::SyncFailed),
                        self.source.state(SyncDirRunState::Error),
                    ],
                    Outcome::Aborted,
                ),
            }
        }
    }

    /// The plan is handed on to be applied; `summary` is the line about it.
    /// What the plan refrains from is logged first.
    pub open spec fn started(
        self,
        snapshot: SnapshotView,
        actions: Seq<Action<Seq<char>>>,
        summary: PlanSummary,
    ) -> (SyncPassView, TurnView<Outcome>) {
        let apply = ApplyPassView { source: self.source, actions, index: 0, current: None };
        let announced = ports::logged(remarks::commentary(snapshot)) + seq![
            Effect::LogPlan(summary),
        ] + if actions.len() > 0 {
            seq![
                self.source.pending(
                    Message::Applying { total: actions.len() as usize, done: 0 },
                ),
            ]
        } else {
            Seq::empty()
        };
        let (after, turn) = apply.next(Reply::Begin);
        self.applying(after, TurnView { effects: announced + turn.effects, ..turn })
    }

    /// The plan for the snapshot is handed on to be applied.
    pub open spec fn planned(
        self,
        snapshot: SnapshotView,
        after: SyncPassView,
        turn: TurnView<Outcome>,
    ) -> bool {
        exists|actions: Seq<Action<Seq<char>>>, summary: PlanSummary|
            {
                &&& planner::is_plan(snapshot, self.sync_dir, actions)
                &&& summary::sums_up(summary, snapshot, actions)
                &&& (after, turn) == #[trigger] self.started(snapshot, actions, summary)
            }
    }

    /// The applying pass made a turn.
    pub open spec fn applying(self, apply: ApplyPassView, turn: TurnView<()>) -> (
        SyncPassView,
        TurnView<Outcome>,
    ) {
        match turn.next {
            Next::Ask(request) => (
                self.at(RunStageView::Applying { apply }),
                TurnView { effects: turn.effects, next: Next::Ask(request) },
            ),
            Next::Done(_) => (
                self.at(RunStageView::Applied),
                TurnView { effects: turn.effects, next: Next::Ask(Request::IsCancelled) },
            ),
            Next::Fault => (
                self.at(RunStageView::Over),
                TurnView { effects: turn.effects, next: Next::Fault },
            ),
        }
    }

    /// The plan was applied in full, and it is known whether the provider
    /// complained meanwhile.
    pub open spec fn finished(self, rate_limited: bool) -> (SyncPassView, TurnView<Outcome>) {
        if rate_limited {
            self.end(
                seq![
                    Effect::Log(Notice::SlowedApply),
                    self.source.status(Message::SyncedRateLimited),
                    self.source.state(SyncDirRunState::Warning),
                ],
                Outcome::Degraded,
            )
        } else {
            self.end(seq![self.source.state(SyncDirRunState::Synced)], Outcome::Synced)
        }
    }

    /// The pass takes in a reply. `after` and `turn` are what it becomes and
    /// answers.
    pub open spec fn steps_to(
        self,
        reply: Reply,
        after: SyncPassView,
        turn: TurnView<Outcome>,
    ) -> bool {
        let dir = self.sync_dir;
        match (self.stage, reply) {
            (RunStageView::Start, Reply::Begin) => (after, turn) == (
                self.at(RunStageView::Exclusions),
                TurnView::<Outcome> {
                    effects: seq![self.source.state(SyncDirRunState::Syncing)],
                    next: Next::Ask(Request::ListExclusions),
                },
            ),
            (RunStageView::Exclusions, Reply::Texts(user)) => (after, turn) == self.go(
                RunStageView::Rows {
                    excluded: snapshot::all_exclusions(
                        dir,
                        self.all_sync_dirs,
                        text::views(or_none(user)),
                    ),
                },
                Request::ListSyncItems,
            ),
            (RunStageView::Rows { excluded }, Reply::Rows(rows)) => (after, turn) == self.go(
                RunStageView::Listing { excluded, rows: text::views(or_none(rows)) },
                Request::List { path: dir.remote_path, recursive: true },
            ),
            (RunStageView::Listing { excluded, rows }, Reply::Items(list)) => (after, turn)
                == self.listed(excluded, rows, list),
            (
                RunStageView::Walking { excluded, rows, items, walk },
                Reply::Entries(entries),
            ) => (after, turn) == self.walked(excluded, rows, items, walk, entries),
            (RunStageView::Listed { result }, Reply::Flag(rate_limited)) => (after, turn)
                == self.judged(result, rate_limited),
            (RunStageView::Planning { snapshot }, Reply::Flag(cancelled)) => if cancelled {
                (after, turn) == self.end(
                    seq![self.source.status(Message::SyncCancelled)],
                    Outcome::Aborted,
                )
            } else {
                self.planned(snapshot, after, turn)
            },
            (RunStageView::Applying { apply }, reply) => (after, turn) == self.applying(
                apply.next(reply).0,
                apply.next(reply).1,
            ),
            (RunStageView::Applied, Reply::Flag(cancelled)) => (after, turn) == if cancelled {
                self.end(seq![self.source.status(Message::SyncCancelled)], Outcome::Aborted)
            } else {
                self.go(RunStageView::Finishing, Request::RateLimitSeen)
            },
            (RunStageView::Finishing, Reply::Flag(rate_limited)) => (after, turn)
                == self.finished(rate_limited),
            _ => (after, turn) == self.fault(),
        }
    }
}

/// One pass over `sync_dir`: builds the snapshot, plans, applies. Whether the
/// pass was called off is asked between actions, so that nothing new starts
/// once it was.
pub fn run(remote: &Remote, sync_dir: &SyncDir, all_sync_dirs: Vec<SyncDir>) -> (pass: SyncPass)
    ensures
        pass.well_formed(),
        pass@ == (SyncPassView {
            source: Source { remote_id: remote.id, sync_dir_id: sync_dir.id },
            sync_dir: sync_dir@,
            all_sync_dirs: text::views(all_sync_dirs@),
            stage: RunStageView::Start,
        }),
{
    SyncPass {
        source: Source { remote_id: remote.id, sync_dir_id: sync_dir.id },
        sync_dir: sync_dir.clone(),
        all_sync_dirs,
        stage: RunStage::Start,
    }
}

impl SyncPass {
    /// A walk under way has a directory to read, an apply under way stands at
    /// one of its actions.
    pub open spec fn well_formed(self) -> bool {
        match self.stage {
            RunStage::Walking { walk, .. } => walk@.waits(),
            RunStage::Applying { apply } => apply.well_formed(),
            _ => true,
        }
    }

    fn goes(&mut self, stage: RunStage, request: Request) -> (turn: Turn<Outcome>)
        ensures
            final(self).stage == stage,
            (final(self)@, turn@) == old(self)@.go(stage@, request@),
    {
        self.stage = stage;
        asking(request)
    }

    fn faults(&mut self) -> (turn: Turn<Outcome>)
        ensures
            final(self).stage is Over,
            (final(self)@, turn@) == old(self)@.fault(),
    {
        self.stage = RunStage::Over;
        faulting()
    }

    fn ends(&mut self, effects: Vec<Effect>, outcome: Outcome) -> (turn: Turn<Outcome>)
        ensures
            final(self).stage is Over,
            (final(self)@, turn@) == old(self)@.end(text::views(effects@), outcome),
    {
        self.stage = RunStage::Over;
        Turn { effects, next: Next::Done(outcome) }
    }

    fn starts_walk(
        &mut self,
        excluded: Exclusions,
        rows: Vec<SyncItem>,
        items: Vec<RemoteItem>,
        effects: Vec<Effect>,
    ) -> (turn: Turn<Outcome>)
        ensures
            final(self).well_formed(),
            (final(self)@, turn@) == old(self)@.start_walk(
                excluded@,
                text::views(rows@),
                text::views(items@),
                text::views(effects@),
            ),
    {
        let walk = Walk::new(
            self.sync_dir.local_path.as_str(),
            self.sync_dir.remote_path.as_str(),
        );
        assert(walk@.open.len() == walk.open@.len());
        self.stage = RunStage::Walking { excluded, rows, items, walk };
        Turn { effects, next: Next::Ask(Request::ReadDir(self.sync_dir.local_path.clone())) }
    }

    fn lists(
        &mut self,
        excluded: Exclusions,
        rows: Vec<SyncItem>,
        list: Result<Vec<RemoteItem>, String>,
    ) -> (turn: Turn<Outcome>)
        ensures
            final(self).well_formed(),
            (final(self)@, turn@) == old(self)@.listed(excluded@, text::views(rows@), list),
    {
        let mut effects: Vec<Effect> = Vec::new();
        assert(text::views(effects@) =~= Seq::empty());
        match list {
            Ok(items) => self.starts_walk(excluded, rows, items, effects),
            Err(words) => {
                if is_directory_missing_error(words.as_str()) {
                    let root = self.sync_dir.remote_path.clone();
                    let ghost missing = Effect::Log(
                        Notice::MissingRoot { path: root@, words: words@ },
                    );
                    add_effect(
                        &mut effects,
                        Effect::Log(Notice::MissingRoot { path: root.clone(), words }),
                    );
                    if root.as_str().unicode_len() > 0 {
                        add_effect(&mut effects, Effect::Mkdir(root));
                        assert(text::views(effects@) =~= seq![missing, Effect::Mkdir(root@)]);
                    } else {
                        assert(text::views(effects@) =~= seq![missing]);
                    }
                    let items: Vec<RemoteItem> = Vec::new();
                    assert(text::views(items@) =~= Seq::empty());
                    self.starts_walk(excluded, rows, items, effects)
                } else {
                    self.goes(RunStage::Listed { result: Err(words) }, Request::RateLimitSeen)
                }
            },
        }
    }

    fn walks(
        &mut self,
        excluded: Exclusions,
        rows: Vec<SyncItem>,
        items: Vec<RemoteItem>,
        walk: Walk,
        entries: Result<Vec<DirEntry>, String>,
    ) -> (turn: Turn<Outcome>)
        requires
            walk@.waits(),
        ensures
            final(self).well_formed(),
            (final(self)@, turn@) == old(self)@.walked(
                excluded@,
                text::views(rows@),
                text::views(items@),
                walk@,
                entries,
            ),
    {
        let mut walk = walk;
        let effects = walk.take_in(entries, &excluded.local);
        assert(walk@.open.len() == walk.open@.len());
        let left: usize = walk.open.len();
        if left > 0 {
            let path = walk.open[left - 1].dir.path.clone();
            self.stage = RunStage::Walking { excluded, rows, items, walk };
            Turn { effects, next: Next::Ask(Request::ReadDir(path)) }
        } else {
            let snapshot = Snapshot::build(&excluded, &rows, &items, walk);
            self.stage = RunStage::Listed { result: Ok(snapshot) };
            Turn { effects, next: Next::Ask(Request::RateLimitSeen) }
        }
    }

    fn judges(&mut self, result: Result<Snapshot, String>, rate_limited: bool) -> (turn: Turn<
        Outcome,
    >)
        ensures
            final(self).well_formed(),
            (final(self)@, turn@) == old(self)@.judged(
                match result {
                    Ok(snapshot) => Ok(snapshot@),
                    Err(words) => Err(words@),
                },
                rate_limited,
            ),
    {
        let source = self.source;
        let root = self.sync_dir.remote_path.clone();
        let mut effects: Vec<Effect> = Vec::new();
        if rate_limited {
            add_effect(&mut effects, Effect::Log(Notice::SlowedListing));
            add_effect(
                &mut effects,
                source.error_event(SyncError::General(root, Reason::RateLimited)),
            );
            add_effect(&mut effects, source.status_event(Message::SkippedRateLimited));
            add_effect(&mut effects, source.state_event(SyncDirRunState::Warning));
            assert(text::views(effects@) =~= seq![
                Effect::Log(Notice::SlowedListing),
                source.error(SyncError::General(root@, Reason::RateLimited)),
                source.status(Message::SkippedRateLimited),
                source.state(SyncDirRunState::Warning),
            ]);
            self.ends(effects, Outcome::Degraded)
        } else {
            match result {
                Ok(snapshot) => self.goes(
                    RunStage::Planning { snapshot },
                    Request::IsCancelled,
                ),
                Err(words) => {
                    let ghost told = words@;
                    add_effect(
                        &mut effects,
                        Effect::Log(Notice::FailedListing { words: words.clone() }),
                    );
                    add_effect(
                        &mut effects,
                        source.error_event(SyncError::General(root, Reason::Reported(words))),
                    );
                    add_effect(&mut effects, source.status_event(Message::SyncFailed));
                    add_effect(&mut effects, source.state_event(SyncDirRunState::Error));
                    assert(text::views(effects@) =~= seq![
                        Effect::Log(Notice::FailedListing { words: told }),
                        source.error(SyncError::General(root@, Reason::Reported(told))),
                        source.status(Message::SyncFailed),
                        source.state(SyncDirRunState::Error),
                    ]);
                    self.ends(effects, Outcome::Aborted)
                },
            }
        }
    }

    fn applies(&mut self, before: Vec<Effect>, apply: ApplyPass, result: Turn<()>) -> (turn: Turn<
        Outcome,
    >)
        requires
            apply.well_formed(),
        ensures
            final(self).well_formed(),
            (final(self)@, turn@) == old(self)@.applying(
                apply@,
                (TurnView {
                    effects: text::views(before@) + result@.effects,
                    next: result@.next,
                }),
            ),
    {
        let mut effects = before;
        add_effects(&mut effects, result.effects);
        match result.next {
            Next::Ask(request) => {
                self.stage = RunStage::Applying { apply };
                Turn { effects, next: Next::Ask(request) }
            },
            Next::Done(_) => {
                self.stage = RunStage::Applied;
                Turn { effects, next: Next::Ask(Request::IsCancelled) }
            },
            Next::Fault => {
                self.stage = RunStage::Over;
                Turn { effects, next: Next::Fault }
            },
        }
    }

    fn starts(
        &mut self,
        snapshot: &Snapshot,
        actions: Vec<Action>,
        summary: PlanSummary,
    ) -> (turn: Turn<Outcome>)
        ensures
            final(self).well_formed(),
            (final(self)@, turn@) == old(self)@.started(
                snapshot@,
                text::views(actions@),
                summary,
            ),
    {
        let mut announced = remarks(snapshot);
        let ghost said = text::views(announced@);
        let total: usize = actions.len();
        add_effect(&mut announced, Effect::LogPlan(summary));
        if total > 0 {
            add_effect(
                &mut announced,
                self.source.pending_event(Message::Applying { total, done: 0 }),
            );
            assert(text::views(announced@) =~= said + seq![Effect::LogPlan(summary)] + seq![
                self.source.pending(Message::Applying { total, done: 0 }),
            ]);
        } else {
            assert(text::views(announced@) =~= said + seq![Effect::LogPlan(summary)]
                + Seq::empty());
        }
        let mut apply = ApplyPass::new(self.source, actions);
        let result = apply.step(Reply::Begin);
        self.applies(announced, apply, result)
    }

    fn plans(&mut self, snapshot: Snapshot) -> (turn: Turn<Outcome>)
        ensures
            final(self).well_formed(),
            old(self)@.planned(snapshot@, final(self)@, turn@),
    {
        let actions = plan(&snapshot, &self.sync_dir);
        let summary = summarize(&snapshot, &actions);
        self.starts(&snapshot, actions, summary)
    }

    fn cancels(&mut self) -> (turn: Turn<Outcome>)
        ensures
            final(self).well_formed(),
            (final(self)@, turn@) == old(self)@.end(
                seq![old(self).source.status(Message::SyncCancelled)],
                Outcome::Aborted,
            ),
    {
        let mut effects: Vec<Effect> = Vec::new();
        add_effect(&mut effects, self.source.status_event(Message::SyncCancelled));
        assert(text::views(effects@) =~= seq![self.source.status(Message::SyncCancelled)]);
        self.ends(effects, Outcome::Aborted)
    }

    fn finishes(&mut self, rate_limited: bool) -> (turn: Turn<Outcome>)
        ensures
            final(self).well_formed(),
            (final(self)@, turn@) == old(self)@.finished(rate_limited),
    {
        let source = self.source;
        let mut effects: Vec<Effect> = Vec::new();
        if rate_limited {
            add_effect(&mut effects, Effect::Log(Notice::SlowedApply));
            add_effect(&mut effects, source.status_event(Message::SyncedRateLimited));
            add_effect(&mut effects, source.state_event(SyncDirRunState::Warning));
            assert(text::views(effects@) =~= seq![
                Effect::Log(Notice::SlowedApply),
                source.status(Message::SyncedRateLimited),
                source.state(SyncDirRunState::Warning),
            ]);
            self.ends(effects, Outcome::Degraded)
        } else {
            add_effect(&mut effects, source.state_event(SyncDirRunState::Synced));
            assert(text::views(effects@) =~= seq![source.state(SyncDirRunState::Synced)]);
            self.ends(effects, Outcome::Synced)
        }
    }

    /// Takes in a reply, [`Reply::Begin`] at first.
    pub fn step(&mut self, reply: Reply) -> (turn: Turn<Outcome>)
        requires
            old(self).well_formed(),
        ensures
            final(self).well_formed(),
            old(self)@.steps_to(reply, final(self)@, turn@),
    {
        let ghost start = self@;
        let mut stage = RunStage::Over;
        std::mem::swap(&mut stage, &mut self.stage);
        match (stage, reply) {
            (RunStage::Start, Reply::Begin) => {
                self.stage = RunStage::Exclusions;
                let mut effects: Vec<Effect> = Vec::new();
                add_effect(&mut effects, self.source.state_event(SyncDirRunState::Syncing));
                assert(text::views(effects@) =~= seq![
                    self.source.state(SyncDirRunState::Syncing),
                ]);
                Turn { effects, next: Next::Ask(Request::ListExclusions) }
            },
            (RunStage::Exclusions, Reply::Texts(user)) => {
                let user = items_or_none(user);
                let excluded = Exclusions::collect(&self.sync_dir, &self.all_sync_dirs, &user);
                self.goes(RunStage::Rows { excluded }, Request::ListSyncItems)
            },
            (RunStage::Rows { excluded }, Reply::Rows(rows)) => {
                let rows = items_or_none(rows);
                let path = self.sync_dir.remote_path.clone();
                self.goes(
                    RunStage::Listing { excluded, rows },
                    Request::List { path, recursive: true },
                )
            },
            (RunStage::Listing { excluded, rows }, Reply::Items(list)) => self.lists(
                excluded,
                rows,
                list,
            ),
            (RunStage::Walking { excluded, rows, items, walk }, Reply::Entries(entries)) =>
                self.walks(excluded, rows, items, walk, entries),
            (RunStage::Listed { result }, Reply::Flag(rate_limited)) => self.judges(
                result,
                rate_limited,
            ),
            (RunStage::Planning { snapshot }, Reply::Flag(cancelled)) => {
                if cancelled {
                    self.cancels()
                } else {
                    let ghost held = self@;
                    let turn = self.plans(snapshot);
                    assert(start.planned(snapshot@, self@, turn@)) by {
                        let (actions, summary) = choose|
                            actions: Seq<Action<Seq<char>>>,
                            summary: PlanSummary,
                        |
                            {
                                &&& planner::is_plan(snapshot@, held.sync_dir, actions)
                                &&& summary::sums_up(summary, snapshot@, actions)
                                &&& (self@, turn@) == #[trigger] held.started(
                                    snapshot@,
                                    actions,
                                    summary,
                                )
                            };
                        assert((self@, turn@) == start.started(snapshot@, actions, summary));
                    }
                    turn
                }
            },
            (RunStage::Applying { apply }, reply) => {
                let mut apply = apply;
                let result = apply.step(reply);
                let before: Vec<Effect> = Vec::new();
                assert(text::views(before@) + result@.effects =~= result@.effects);
                self.applies(before, apply, result)
            },
            (RunStage::Applied, Reply::Flag(cancelled)) => {
                if cancelled {
                    self.cancels()
                } else {
                    self.goes(RunStage::Finishing, Request::RateLimitSeen)
                }
            },
            (RunStage::Finishing, Reply::Flag(rate_limited)) => self.finishes(rate_limited),
            _ => self.faults(),
        }
    }
}

/// The request changes nothing.
pub open spec fn only_reads(request: Request<Seq<char>>) -> bool {
    match request {
        Request::Mkdir(_)
        | Request::DeleteFile(_)
        | Request::Purge(_)
        | Request::CopyToRemote { .. }
        | Request::CopyToLocal { .. }
        | Request::CreateDir(_)
        | Request::CreateDirAll(_)
        | Request::RemoveDirAll(_)
        | Request::RemoveFile(_) => false,
        _ => true,
    }
}

/// The effect changes nothing but the missing root on the remote.
pub open spec fn harmless(effect: Effect<Seq<char>>, root: Seq<char>) -> bool {
    match effect {
        Effect::Emit(_) | Effect::Log(_) => true,
        Effect::Mkdir(path) => path == root,
        _ => false,
    }
}

/// Until a plan is handed on, a pass only reads: it neither changes a file,
/// a remote item nor a row, but for creating the synced directory's missing
/// root on the remote. So a pass that is called off before, is rate limited
/// or cannot list the remote has changed nothing else.
pub proof fn law_nothing_changes_before_the_plan(
    pass: SyncPassView,
    reply: Reply,
    after: SyncPassView,
    turn: TurnView<Outcome>,
    i: int,
)
    requires
        pass.steps_to(reply, after, turn),
        pass.stage !is Applying,
        pass.stage is Planning ==> reply == Reply::Flag(true),
    ensures
        after.stage !is Applying,
        0 <= i < turn.effects.len() ==> harmless(turn.effects[i], pass.sync_dir.remote_path),
        turn.next matches Next::Ask(request) ==> only_reads(request),
{
}

/// What is applied is the plan of the snapshot that was taken: applying
/// starts with it, and no reply changes it.
pub proof fn law_the_plan_is_what_is_applied(
    pass: SyncPassView,
    reply: Reply,
    after: SyncPassView,
    turn: TurnView<Outcome>,
)
    requires
        pass.steps_to(reply, after, turn),
    ensures
        after.stage matches RunStageView::Applying { apply } ==> match pass.stage {
            RunStageView::Planning { snapshot } => {
                &&& planner::is_plan(snapshot, pass.sync_dir, apply.actions)
                &&& apply.on_course()
            },
            RunStageView::Applying { apply: earlier } => {
                &&& apply.actions == earlier.actions
                &&& earlier.on_course() ==> apply.on_course()
            },
            _ => false,
        },
{
    match pass.stage {
        RunStageView::Applying { apply } => {
            if apply.on_course() {
                applier::law_only_planned_removals(apply, reply);
            }
        },
        _ => {},
    }
}

/// A pass removes nothing, on either side, but what the plan has removed at
/// the action at hand.
pub proof fn law_only_planned_removals_happen(
    pass: SyncPassView,
    reply: Reply,
    after: SyncPassView,
    turn: TurnView<Outcome>,
    request: Request<Seq<char>>,
)
    requires
        pass.steps_to(reply, after, turn),
        pass.stage matches RunStageView::Applying { apply } ==> apply.on_course(),
        turn.next == Next::<Outcome, Seq<char>>::Ask(request),
        removes(request),
    ensures
        pass.stage matches RunStageView::Applying { apply } && 0 <= apply.index
            < apply.actions.len() && applier::calls_for(apply.actions[apply.index], request),
{
    match pass.stage {
        RunStageView::Applying { apply } => {
            applier::law_only_planned_removals(apply, reply);
        },
        _ => {},
    }
}

/// The request removes something on one of the sides.
pub open spec fn removes(request: Request<Seq<char>>) -> bool {
    request is RemoveDirAll || request is RemoveFile || request is Purge || request is DeleteFile
}

/// A pass during whose listing the provider complained of too many requests
/// ends as degraded, whatever the listing gave.
pub proof fn law_rate_limited_listing_degrades(
    pass: SyncPassView,
    after: SyncPassView,
    turn: TurnView<Outcome>,
)
    requires
        pass.stage is Listed,
        pass.steps_to(Reply::Flag(true), after, turn),
    ensures
        turn.next == Next::<Outcome, Seq<char>>::Done(Outcome::Degraded),
        after.stage is Over,
{
}

/// No place is marked as one where the walk failed without a line in the
/// log.
pub proof fn law_walk_failures_are_logged(
    pass: SyncPassView,
    entries: Result<Vec<DirEntry>, String>,
    after: SyncPassView,
    turn: TurnView<Outcome>,
    excluded: ExclusionsView,
    walk: WalkView,
    key: Seq<char>,
)
    requires
        pass.stage matches RunStageView::Walking { excluded: e, walk: w, .. } && e == excluded
            && w == walk,
        pass.steps_to(Reply::Entries(entries), after, turn),
        walk.read(entries, excluded.local).0.unreliable.contains(key),
        !walk.unreliable.contains(key),
    ensures
        exists|i: int|
            0 <= i < turn.effects.len() && (#[trigger] turn.effects[i] matches Effect::Log(notice)
                && walk::blames(notice, key)),
{
    walk::law_failures_are_told(walk, entries, excluded.local, key);
    let notices = walk.read(entries, excluded.local).1;
    let i = choose|i: int| 0 <= i < notices.len() && walk::blames(#[trigger] notices[i], key);
    assert(turn.effects[i] == Effect::Log(notices[i]));
}

/// A pass whose listing failed is aborted, and says why.
pub proof fn law_failed_listing_aborts(
    pass: SyncPassView,
    words: Seq<char>,
    after: SyncPassView,
    turn: TurnView<Outcome>,
)
    requires
        pass.stage == (RunStageView::Listed { result: Err(words) }),
        pass.steps_to(Reply::Flag(false), after, turn),
    ensures
        turn.next == Next::<Outcome, Seq<char>>::Done(Outcome::Aborted),
        turn.effects[0] == Effect::Log(Notice::FailedListing { words }),
        turn.effects[1] == pass.source.error(
            SyncError::General(pass.sync_dir.remote_path, Reason::Reported(words)),
        ),
{
}

/// What a pass does to a reply is settled: two answers to one reply are the
/// same.
pub proof fn law_pass_is_deterministic(
    pass: SyncPassView,
    reply: Reply,
    after: SyncPassView,
    turn: TurnView<Outcome>,
    other_after: SyncPassView,
    other_turn: TurnView<Outcome>,
)
    requires
        pass.steps_to(reply, after, turn),
        pass.steps_to(reply, other_after, other_turn),
    ensures
        after == other_after,
        turn == other_turn,
{
    if pass.stage is Planning && reply is Flag && reply != Reply::Flag(true) {
        let snapshot = pass.stage->Planning_snapshot;
        let (actions, summary) = choose|
            actions: Seq<Action<Seq<char>>>,
            summary: PlanSummary,
        |
            {
                &&& planner::is_plan(snapshot, pass.sync_dir, actions)
                &&& summary::sums_up(summary, snapshot, actions)
                &&& (after, turn) == #[trigger] pass.started(snapshot, actions, summary)
            };
        let (others, other) = choose|
            actions: Seq<Action<Seq<char>>>,
            summary: PlanSummary,
        |
            {
                &&& planner::is_plan(snapshot, pass.sync_dir, actions)
                &&& summary::sums_up(summary, snapshot, actions)
                &&& (other_after, other_turn) == #[trigger] pass.started(
                    snapshot,
                    actions,
                    summary,
                )
            };
        plan_laws::law_plan_is_unique(snapshot, pass.sync_dir, actions, others);
        assert(summary == other);
    }
}

} // verus!
