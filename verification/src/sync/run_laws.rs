//! The course of a pass: snapshot, plan, apply.

use vstd::prelude::*;

use crate::domain::{Message, Reason, RemoteItem, SyncDirRunState, SyncError, SyncItem};
use crate::driver::{DriverView, Step};
use crate::notices::Notice;
use crate::ports::{DirEntry, Effect, Next, Reply, Request, TurnView};
use crate::sync::applier;
use crate::sync::applier::ApplyPassView;
use crate::sync::apply_item::ApplyItem;
use crate::sync::decision_laws;
use crate::sync::planner;
use crate::sync::planner::Action;
use crate::sync::remarks;
use crate::sync::run::{Outcome, RunStageView, SyncPassView};
use crate::sync::snapshot;
use crate::sync::snapshot::SnapshotView;
use crate::sync::summary;
use crate::sync::summary::PlanSummary;
use crate::sync::walk::WalkView;
use crate::text;

verus! {

/// A pass says that it is at work and asks for the user's exclusions, then for
/// the rows, then for everything below the remote root; what it could not get
/// of the first two counts as empty.
pub proof fn law_what_is_asked_first(
    pass: SyncPassView,
    user: Result<Vec<String>, String>,
    rows: Result<Vec<SyncItem>, String>,
    asked: SyncPassView,
    turn: TurnView<Outcome>,
)
    ensures
        pass.stage is Start && pass.steps_to(Reply::Begin, asked, turn) ==> {
            &&& turn.effects == seq![pass.source.state(SyncDirRunState::Syncing)]
            &&& turn.next == Next::<Outcome, Seq<char>>::Ask(Request::ListExclusions)
            &&& asked.stage is Exclusions
        },
        pass.stage is Exclusions && pass.steps_to(Reply::Texts(user), asked, turn) ==> {
            &&& turn.effects.len() == 0
            &&& turn.next == Next::<Outcome, Seq<char>>::Ask(Request::ListSyncItems)
            &&& asked.stage matches RunStageView::Rows { excluded } && excluded
                == snapshot::all_exclusions(
                pass.sync_dir,
                pass.all_sync_dirs,
                match user {
                    Ok(list) => text::views(list@),
                    Err(_) => text::views(Seq::<String>::empty()),
                },
            )
        },
        pass.stage is Rows && pass.steps_to(Reply::Rows(rows), asked, turn) ==> {
            &&& turn.effects.len() == 0
            &&& turn.next == Next::<Outcome, Seq<char>>::Ask(
                Request::List { path: pass.sync_dir.remote_path, recursive: true },
            )
            &&& asked.stage matches RunStageView::Listing { excluded, rows: known } && excluded
                == pass.stage->Rows_excluded && known == match rows {
                Ok(list) => text::views(list@),
                Err(_) => text::views(Seq::<SyncItem>::empty()),
            }
        },
{
}

/// A listing that came is kept, and the walk begins at the local root. Where
/// the remote root is missing that is logged, it is made again unless it is
/// the remote's top, and the listing counts as empty. Any other failure leads
/// to no walk.
pub proof fn law_what_becomes_of_the_listing(
    pass: SyncPassView,
    items: Vec<RemoteItem>,
    words: String,
    after: SyncPassView,
    turn: TurnView<Outcome>,
)
    requires
        pass.stage is Listing,
    ensures
        ({
            let dir = pass.sync_dir;
            let walk = Next::<Outcome, Seq<char>>::Ask(Request::ReadDir(dir.local_path));
            let begun = WalkView::start(dir.local_path, dir.remote_path);
            let missing = Effect::Log(Notice::MissingRoot { path: dir.remote_path, words: words@ });
            &&& pass.steps_to(Reply::Items(Ok(items)), after, turn) ==> {
                &&& turn.next == walk
                &&& turn.effects.len() == 0
                &&& after.stage == (RunStageView::Walking {
                    excluded: pass.stage->Listing_excluded,
                    rows: pass.stage->Listing_rows,
                    items: text::views(items@),
                    walk: begun,
                })
            }
            &&& pass.steps_to(Reply::Items(Err(words)), after, turn) ==> if
            snapshot::says_directory_missing(words@) {
                &&& turn.next == walk
                &&& turn.effects == if dir.remote_path.len() > 0 {
                    seq![missing, Effect::Mkdir(dir.remote_path)]
                } else {
                    seq![missing]
                }
                &&& after.stage matches RunStageView::Walking { items: none, walk: fresh, .. }
                    && none.len() == 0 && fresh == begun
            } else {
                &&& turn.next == Next::<Outcome, Seq<char>>::Ask(Request::RateLimitSeen)
                &&& turn.effects.len() == 0
                &&& after.stage == (RunStageView::Listed { result: Err(words@) })
            }
        }),
{
}

/// The walk goes on with the directory that it waits for; once it waits for
/// none, the snapshot is made of the exclusions, the rows, the listing and the
/// walk.
pub proof fn law_the_walk_goes_on_until_it_is_through(
    pass: SyncPassView,
    entries: Result<Vec<DirEntry>, String>,
    after: SyncPassView,
    turn: TurnView<Outcome>,
)
    requires
        pass.stage is Walking,
        pass.steps_to(Reply::Entries(entries), after, turn),
    ensures
        ({
            let (excluded, rows, items) = (
                pass.stage->Walking_excluded,
                pass.stage->Walking_rows,
                pass.stage->Walking_items,
            );
            let (walk, lines) = pass.stage->walk.read(entries, excluded.local);
            &&& turn.effects.len() == lines.len()
            &&& forall|i: int|
                0 <= i < lines.len() ==> #[trigger] turn.effects[i] == Effect::Log(lines[i])
            &&& if walk.open.len() > 0 {
                &&& turn.next == Next::<Outcome, Seq<char>>::Ask(
                    Request::ReadDir(walk.open.last().dir.path),
                )
                &&& after.stage == (RunStageView::Walking { excluded, rows, items, walk })
            } else {
                &&& turn.next == Next::<Outcome, Seq<char>>::Ask(Request::RateLimitSeen)
                &&& after.stage matches RunStageView::Listed { result: Ok(snap) } && snap
                    == snapshot::built(excluded, rows, items, walk)
            }
        }),
{
}

/// Where the provider limited the rate, nothing is planned and the pass is
/// degraded; where the listing failed, it is reported with its words and the
/// pass aborted; otherwise it is asked whether the pass was called off, and
/// where so it is aborted.
pub proof fn law_when_a_pass_refuses_to_act(
    pass: SyncPassView,
    rate_limited: bool,
    after: SyncPassView,
    turn: TurnView<Outcome>,
)
    ensures
        pass.stage is Listed && pass.steps_to(Reply::Flag(rate_limited), after, turn) ==> {
            let root = pass.sync_dir.remote_path;
            if rate_limited {
                &&& turn.next == Next::<Outcome, Seq<char>>::Done(Outcome::Degraded)
                &&& turn.effects == seq![
                    Effect::Log(Notice::SlowedListing),
                    pass.source.error(SyncError::General(root, Reason::RateLimited)),
                    pass.source.status(Message::SkippedRateLimited),
                    pass.source.state(SyncDirRunState::Warning),
                ]
            } else {
                match pass.stage->result {
                    Ok(snap) => {
                        &&& turn.next == Next::<Outcome, Seq<char>>::Ask(Request::IsCancelled)
                        &&& turn.effects.len() == 0
                        &&& after.stage == (RunStageView::Planning { snapshot: snap })
                    },
                    Err(words) => {
                        &&& turn.next == Next::<Outcome, Seq<char>>::Done(Outcome::Aborted)
                        &&& turn.effects == seq![
                            Effect::Log(Notice::FailedListing { words }),
                            pass.source.error(SyncError::General(root, Reason::Reported(words))),
                            pass.source.status(Message::SyncFailed),
                            pass.source.state(SyncDirRunState::Error),
                        ]
                    },
                }
            }
        },
        (pass.stage is Planning || pass.stage is Applied) && pass.steps_to(
            Reply::Flag(true),
            after,
            turn,
        ) ==> {
            &&& turn.next == Next::<Outcome, Seq<char>>::Done(Outcome::Aborted)
            &&& turn.effects == seq![pass.source.status(Message::SyncCancelled)]
        },
{
}

/// Once the plan was applied and the pass was not called off, it is synced, or
/// degraded where the provider limited the rate meanwhile.
pub proof fn law_how_a_pass_ends(
    pass: SyncPassView,
    rate_limited: bool,
    after: SyncPassView,
    turn: TurnView<Outcome>,
)
    ensures
        pass.stage is Applied && pass.steps_to(Reply::Flag(false), after, turn) ==> {
            &&& turn.next == Next::<Outcome, Seq<char>>::Ask(Request::RateLimitSeen)
            &&& turn.effects.len() == 0
            &&& after.stage is Finishing
        },
        pass.stage is Finishing && pass.steps_to(Reply::Flag(rate_limited), after, turn) ==> if
        rate_limited {
            &&& turn.next == Next::<Outcome, Seq<char>>::Done(Outcome::Degraded)
            &&& turn.effects == seq![
                Effect::Log(Notice::SlowedApply),
                pass.source.status(Message::SyncedRateLimited),
                pass.source.state(SyncDirRunState::Warning),
            ]
        } else {
            &&& turn.next == Next::<Outcome, Seq<char>>::Done(Outcome::Synced)
            &&& turn.effects == seq![pass.source.state(SyncDirRunState::Synced)]
        },
{
}

/// The plan that is applied is the plan for the snapshot, from its first
/// action: where there is one it is asked whether to go on, and where there is
/// none the pass is past applying. What the plan refrains from and the line
/// about it are logged.
pub proof fn law_the_plan_is_started(
    pass: SyncPassView,
    snap: SnapshotView,
    after: SyncPassView,
    turn: TurnView<Outcome>,
)
    requires
        pass.stage == (RunStageView::Planning { snapshot: snap }),
        pass.steps_to(Reply::Flag(false), after, turn),
    ensures
        turn.next == Next::<Outcome, Seq<char>>::Ask(Request::IsCancelled),
        exists|actions: Seq<Action<Seq<char>>>, summary: PlanSummary|
            {
                &&& planner::is_plan(snap, pass.sync_dir, actions)
                &&& #[trigger] summary::sums_up(summary, snap, actions)
                &&& turn.effects.contains(Effect::LogPlan(summary))
                &&& actions.len() > 0 <==> turn.effects.contains(
                    pass.source.pending(
                        Message::Applying { total: actions.len() as usize, done: 0 },
                    ),
                )
            },
        forall|i: int|
            0 <= i < remarks::commentary(snap).len() ==> turn.effects.contains(
                Effect::Log(#[trigger] remarks::commentary(snap)[i]),
            ),
        after.stage matches RunStageView::Applying { apply } ==> {
            &&& planner::is_plan(snap, pass.sync_dir, apply.actions)
            &&& apply.actions.len() > 0
            &&& apply.index == 0
            &&& apply.current is None
            &&& apply.source == pass.source
        },
        after.stage is Applying || (after.stage is Applied && planner::is_plan(
            snap,
            pass.sync_dir,
            Seq::empty(),
        )),
{
    let (actions, summary) = choose|actions: Seq<Action<Seq<char>>>, summary: PlanSummary|
        {
            &&& planner::is_plan(snap, pass.sync_dir, actions)
            &&& summary::sums_up(summary, snap, actions)
            &&& (after, turn) == #[trigger] pass.started(snap, actions, summary)
        };
    if actions.len() == 0 {
        assert(actions =~= Seq::empty());
    }
    let lines = remarks::commentary(snap);
    let pending = pass.source.pending(
        Message::Applying { total: actions.len() as usize, done: 0 },
    );
    assert(turn.effects[lines.len() as int] == Effect::<Seq<char>>::LogPlan(summary));
    if actions.len() > 0 {
        assert(turn.effects[lines.len() as int + 1] == pending);
    }
    assert forall|i: int| 0 <= i < lines.len() implies turn.effects.contains(
        Effect::Log(#[trigger] lines[i]),
    ) by {
        assert(turn.effects[i] == Effect::Log(lines[i]));
    }
    assert(summary::sums_up(summary, snap, actions));
}

/// What an action asks for first.
pub open spec fn first_request(action: Action<Seq<char>>) -> Option<Request<Seq<char>>> {
    match action {
        Action::Upload { local_path, .. } => Some(Request::Exists(local_path)),
        Action::Download { local_path, remote_path, is_dir } => Some(
            if is_dir {
                Request::Exists(local_path)
            } else {
                Request::CopyToLocal { local_path, remote_path }
            },
        ),
        Action::DeleteLocal { local_path, is_dir, .. } => Some(
            if is_dir {
                Request::RemoveDirAll(local_path)
            } else {
                Request::RemoveFile(local_path)
            },
        ),
        Action::DeleteRemote { remote_path, is_dir, .. } => Some(
            if is_dir {
                Request::Purge(remote_path)
            } else {
                Request::DeleteFile(remote_path)
            },
        ),
        _ => None,
    }
}

/// An action that may go on is started at its own two paths, with its place in
/// the plan counted from one; every sixteenth time the pending line is
/// refreshed first.
pub proof fn law_the_action_at_hand_is_started(pass: ApplyPassView, request: Request<Seq<char>>)
    requires
        pass.current is None,
        0 <= pass.index < pass.actions.len(),
        pass.actions.len() <= usize::MAX,
        first_request(pass.actions[pass.index]) == Some(request),
    ensures
        ({
            let (after, turn) = pass.next(Reply::Flag(false));
            let action = pass.actions[pass.index];
            let refreshed = pass.source.pending(
                Message::Applying {
                    total: pass.actions.len() as usize,
                    done: pass.index as usize,
                },
            );
            let place = after.current->0.place;
            &&& turn.next == Next::<(), Seq<char>>::Ask(request)
            &&& pass.index > 0 && pass.index % 16 == 0 <==> turn.effects.contains(refreshed)
            &&& after.index == pass.index
            &&& after.actions == pass.actions
            &&& after.current is Some
            &&& place.local_path == decision_laws::local_path_of(action)
            &&& place.remote_path == planner::path_of(action)
            &&& place.source == pass.source
            &&& place.progress is Some
            &&& place.progress->0.pos == pass.index + 1
            &&& place.progress->0.total == pass.actions.len()
        }),
{
    let refreshed = pass.source.pending(
        Message::Applying { total: pass.actions.len() as usize, done: pass.index as usize },
    );
    let start = DriverView::<ApplyItem>::fresh(
        pass.place(),
        applier::action_machine(pass.actions[pass.index]),
    );
    let made = start.next(Reply::Begin).1;
    let turn = pass.next(Reply::Flag(false)).1;
    assert(turn.effects =~= pass.refresh() + made.effects);
    assert(!made.effects.contains(refreshed));
    if pass.index > 0 && pass.index % 16 == 0 {
        assert(turn.effects[0] == refreshed);
    } else {
        assert(turn.effects =~= made.effects);
    }
}

/// What the action under way asks for and does reaches the world as it is, and
/// once it is over the next one comes, or the plan is applied.
pub proof fn law_the_action_under_way_is_followed(
    pass: ApplyPassView,
    driver: DriverView<ApplyItem>,
    reply: Reply,
)
    requires
        pass.current == Some(driver),
    ensures
        ({
            let (later, made) = driver.next(reply);
            let (after, turn) = pass.next(reply);
            &&& turn.effects == made.effects
            &&& match made.step {
                Step::Ask(request) => {
                    &&& turn.next == Next::<(), Seq<char>>::Ask(request)
                    &&& after.current == Some(later)
                    &&& after.index == pass.index
                },
                Step::Over => {
                    &&& after.current is None
                    &&& after.index == pass.index + 1
                    &&& turn.next == if pass.index + 1 < pass.actions.len() {
                        Next::<(), Seq<char>>::Ask(Request::IsCancelled)
                    } else {
                        Next::Done(())
                    }
                },
                _ => turn.next == Next::<(), Seq<char>>::Fault,
            }
        }),
{
    let made = driver.next(reply).1;
    assert(Seq::empty() + made.effects =~= made.effects);
}

/// While the plan is applied its requests are asked and its effects carried
/// out as they are; once it is through it is asked whether the pass was called
/// off.
pub proof fn law_the_plan_under_way_is_followed(
    pass: SyncPassView,
    apply: ApplyPassView,
    reply: Reply,
    after: SyncPassView,
    turn: TurnView<Outcome>,
)
    requires
        pass.stage == (RunStageView::Applying { apply }),
        pass.steps_to(reply, after, turn),
    ensures
        ({
            let (later, made) = apply.next(reply);
            &&& turn.effects == made.effects
            &&& match made.next {
                Next::Ask(request) => {
                    &&& turn.next == Next::<Outcome, Seq<char>>::Ask(request)
                    &&& after.stage == (RunStageView::Applying { apply: later })
                },
                Next::Done(_) => {
                    &&& turn.next == Next::<Outcome, Seq<char>>::Ask(Request::IsCancelled)
                    &&& after.stage is Applied
                },
                Next::Fault => turn.next == Next::<Outcome, Seq<char>>::Fault,
            }
        }),
{
}

} // verus!
