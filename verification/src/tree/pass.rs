//! The passes over a local and over a remote directory, and over everything
//! below it.

use vstd::prelude::*;

use crate::domain::{Message, Reason, Remote, RemoteItem, SyncDir, SyncError};
use crate::driver::{Driver, DriverView, Move, MoveView, Place, Step};
use crate::events::Source;
use crate::ignore;
use crate::ignore::{is_ignored, read_patterns, FILE_IGNORE_NAME};
use crate::ops::{Fact, Side};
use crate::paths;
use crate::paths::join;
use crate::ports::{
    add_effect, add_effects, no_effects, one_effect, DirEntry, Effect, Next, Reply, Request, Turn,
    TurnView,
};
use crate::text;
use crate::text::same;
use crate::tree::admission;
use crate::tree::admission::{admits_local, admits_remote, Admission, Candidate, TreeItem};

verus! {

/// What a directory holds.
pub enum Found {
    Entries(Vec<DirEntry>),
    Items(Vec<RemoteItem>),
}

/// What a [`Found`] holds.
#[verifier::ext_equal]
pub enum FoundView {
    Entries(Seq<DirEntry>),
    Items(Seq<RemoteItem>),
}

impl View for Found {
    type V = FoundView;

    open spec fn view(&self) -> FoundView {
        match *self {
            Found::Entries(list) => FoundView::Entries(list@),
            Found::Items(list) => FoundView::Items(list@),
        }
    }
}

impl FoundView {
    /// How many there are.
    pub open spec fn len(self) -> nat {
        match self {
            FoundView::Entries(list) => list.len(),
            FoundView::Items(list) => list.len(),
        }
    }

    /// What becomes of the one at `index`.
    pub open spec fn admission(self, index: int, dir: SyncDir<Seq<char>>) -> Admission<Seq<char>> {
        match self {
            FoundView::Entries(list) => admission::admit_local(list[index], dir),
            FoundView::Items(list) => admission::admit_remote(list[index], dir),
        }
    }
}

impl Found {
    fn len(&self) -> (count: usize)
        ensures
            count == self@.len(),
    {
        match self {
            Found::Entries(list) => list.len(),
            Found::Items(list) => list.len(),
        }
    }

    fn admission_of(&self, index: usize, sync_dir: &SyncDir) -> (result: Admission)
        requires
            index < self@.len(),
        ensures
            result@ == self@.admission(index as int, sync_dir@),
    {
        match self {
            Found::Entries(list) => admits_local(&list[index], sync_dir),
            Found::Items(list) => admits_remote(&list[index], sync_dir),
        }
    }
}

/// A directory that is being gone through.
pub struct Frame {
    pub dir: String,
    /// The lines of the ignore file.
    pub globs: Vec<String>,
    pub found: Found,
    /// The entry that is being looked at, or comes next.
    pub index: usize,
    /// The entry being synced, if one is.
    pub current: Option<Driver<TreeItem>>,
}

/// What a [`Frame`] holds.
#[verifier::ext_equal]
pub struct FrameView {
    pub dir: Seq<char>,
    pub globs: Seq<Seq<char>>,
    pub found: FoundView,
    pub index: int,
    pub current: Option<DriverView<TreeItem>>,
}

impl View for Frame {
    type V = FrameView;

    open spec fn view(&self) -> FrameView {
        FrameView {
            dir: self.dir@,
            globs: text::views(self.globs@),
            found: self.found@,
            index: self.index as int,
            current: text::opt_view(self.current),
        }
    }
}

impl FrameView {
    /// A directory of which nothing is known yet.
    pub open spec fn fresh(dir: Seq<char>) -> FrameView {
        FrameView {
            dir,
            globs: Seq::empty(),
            found: FoundView::Entries(Seq::empty()),
            index: 0,
            current: None,
        }
    }

    /// The entry at hand is done with.
    pub open spec fn advanced(self) -> FrameView {
        FrameView { current: None, index: self.index + 1, ..self }
    }

    /// There is an entry at hand.
    pub open spec fn has_entry(self) -> bool {
        0 <= self.index < self.found.len()
    }
}

/// What was asked last.
#[derive(Clone, Copy, Debug, PartialEq, Eq, Structural)]
pub enum TreeStage {
    Start,
    /// The ignore file of a directory just entered.
    Ignore,
    /// Whether the pair is on record, to announce a directory just entered.
    Announce,
    /// What a directory just entered holds.
    Read,
    /// Whether the pass was called off.
    Poll,
    /// Whether the pair is on record, to go on at all.
    Record,
    /// Whether the pair is on record, to announce an entry.
    Progress,
    /// Something for the entry being synced.
    Item,
    Over,
}

/// A pass over a directory of one side and everything below it.
pub struct TreePass {
    pub source: Source,
    pub sync_dir: SyncDir,
    pub side: Side,
    pub root: String,
    /// The pairs of paths that were synced so far.
    pub synced: Vec<(String, String)>,
    /// The directories being gone through, the innermost last.
    pub frames: Vec<Frame>,
    pub stage: TreeStage,
}

/// What a [`TreePass`] holds.
#[verifier::ext_equal]
pub struct TreePassView {
    pub source: Source,
    pub sync_dir: SyncDir<Seq<char>>,
    pub side: Side,
    pub root: Seq<char>,
    pub synced: Seq<(Seq<char>, Seq<char>)>,
    pub frames: Seq<FrameView>,
    pub stage: TreeStage,
}

impl View for TreePass {
    type V = TreePassView;

    open spec fn view(&self) -> TreePassView {
        TreePassView {
            source: self.source,
            sync_dir: self.sync_dir@,
            side: self.side,
            root: self.root@,
            synced: text::views(self.synced@),
            frames: text::views(self.frames@),
            stage: self.stage,
        }
    }
}

impl TreePassView {
    /// At another stage, asking something.
    pub open spec fn go(
        self,
        stage: TreeStage,
        effects: Seq<Effect<Seq<char>>>,
        request: Request<Seq<char>>,
    ) -> (TreePassView, TurnView<()>) {
        (TreePassView { stage, ..self }, TurnView { effects, next: Next::Ask(request) })
    }

    /// Gives up.
    pub open spec fn fault(self, effects: Seq<Effect<Seq<char>>>) -> (
        TreePassView,
        TurnView<()>,
    ) {
        (
            TreePassView { stage: TreeStage::Over, ..self },
            TurnView { effects, next: Next::Fault },
        )
    }

    /// With another innermost directory.
    pub open spec fn with_top(self, frame: FrameView) -> TreePassView {
        TreePassView { frames: self.frames.drop_last().push(frame), ..self }
    }

    /// Where the ignore file is.
    pub open spec fn ignore_file(self) -> Seq<char> {
        paths::joined(self.sync_dir.local_path, FILE_IGNORE_NAME@)
    }

    /// The line that says a path is being looked at.
    pub open spec fn examining(self, path: Seq<char>) -> Effect<Seq<char>> {
        self.source.pending(
            match self.side {
                Side::Local => Message::Examining(path),
                Side::Remote => Message::ExaminingRemote(path),
            },
        )
    }

    /// Enters a directory.
    pub open spec fn enter(self, dir: Seq<char>, effects: Seq<Effect<Seq<char>>>) -> (
        TreePassView,
        TurnView<()>,
    ) {
        let inside = TreePassView { frames: self.frames.push(FrameView::fresh(dir)), ..self };
        let begun = effects.push(Effect::ProcessDeletionRequests);
        match self.side {
            Side::Local => inside.go(TreeStage::Announce, begun, Request::SyncDirExists),
            Side::Remote => inside.go(
                TreeStage::Ignore,
                begun,
                Request::ReadIgnoreFile(self.ignore_file()),
            ),
        }
    }

    /// Leaves the innermost directory; the entry that led there goes on.
    pub open spec fn leave(self, effects: Seq<Effect<Seq<char>>>) -> (TreePassView, TurnView<()>)
        decreases self.frames.len(), 0nat,
    {
        if self.frames.len() == 0 {
            self.fault(effects)
        } else {
            let outside = TreePassView { frames: self.frames.drop_last(), ..self };
            if outside.frames.len() == 0 {
                (
                    TreePassView { stage: TreeStage::Over, ..outside },
                    TurnView { effects, next: Next::Done(()) },
                )
            } else {
                match outside.frames.last().current {
                    Some(driver) => {
                        let (after, result) = driver.advance(driver.words, Fact::Done);
                        outside.moved(effects, after, result)
                    },
                    None => outside.fault(effects),
                }
            }
        }
    }

    /// Goes on with the entry at hand, or leaves the directory.
    pub open spec fn resume(self, effects: Seq<Effect<Seq<char>>>) -> (TreePassView, TurnView<()>)
        decreases self.frames.len(), 1nat,
    {
        if self.frames.len() > 0 && self.frames.last().has_entry() {
            self.go(TreeStage::Poll, effects, Request::IsCancelled)
        } else {
            self.leave(effects)
        }
    }

    /// The entry at hand is done with.
    pub open spec fn skip(self, effects: Seq<Effect<Seq<char>>>) -> (TreePassView, TurnView<()>) {
        self.with_top(self.frames.last().advanced()).resume(effects)
    }

    /// The entry being synced made a move.
    pub open spec fn moved(
        self,
        before: Seq<Effect<Seq<char>>>,
        driver: DriverView<TreeItem>,
        result: MoveView,
    ) -> (TreePassView, TurnView<()>)
        decreases self.frames.len(), 2nat,
    {
        let effects = before + result.effects;
        let frame = self.frames.last();
        let held = self.with_top(FrameView { current: Some(driver), ..frame });
        if self.frames.len() == 0 {
            self.fault(effects)
        } else if !frame.has_entry() {
            held.fault(effects)
        } else {
            match result.step {
                Step::Ask(request) => held.go(TreeStage::Item, effects, request),
                Step::Descend => held.enter(
                    match self.side {
                        Side::Local => driver.place.local_path,
                        Side::Remote => driver.place.remote_path,
                    },
                    effects,
                ),
                Step::Over => self.with_top(frame.advanced()).resume(effects),
                Step::Fault => held.fault(effects),
            }
        }
    }

    /// Where a candidate is synced.
    pub open spec fn place(self, candidate: Candidate<Seq<char>>) -> Place<Seq<char>> {
        Place {
            source: self.source,
            local_path: candidate.local_path,
            remote_path: candidate.remote_path,
            progress: None,
            seen_on: self.side,
        }
    }

    /// A directory's content came, and it is gone through.
    pub open spec fn filled(self, found: FoundView) -> (TreePassView, TurnView<()>) {
        let inside = self.with_top(FrameView { found, ..self.frames.last() });
        match self.side {
            Side::Local => inside.go(
                TreeStage::Ignore,
                Seq::empty(),
                Request::ReadIgnoreFile(self.ignore_file()),
            ),
            Side::Remote => inside.resume(Seq::empty()),
        }
    }

    /// The pair is still on record: what becomes of the entry at hand?
    pub open spec fn consider(self) -> (TreePassView, TurnView<()>) {
        let frame = self.frames.last();
        match frame.found.admission(frame.index, self.sync_dir) {
            Admission::Skip => self.skip(Seq::empty()),
            Admission::Broken(words) => self.skip(
                seq![
                    self.source.error(
                        SyncError::General(frame.dir, Reason::Reported(words)),
                    ),
                ],
            ),
            Admission::Fault => self.fault(Seq::empty()),
            Admission::Item(candidate) => match self.side {
                Side::Local => self.go(
                    TreeStage::Progress,
                    Seq::empty(),
                    Request::SyncDirExists,
                ),
                Side::Remote => self.announced_unless(
                    ignore::ignored(frame.globs, candidate.glob_text),
                ),
            },
        }
    }

    /// An item of a remote directory is announced unless it is ignored.
    pub open spec fn announced_unless(self, ignored: bool) -> (TreePassView, TurnView<()>) {
        if ignored {
            self.skip(Seq::empty())
        } else {
            self.go(TreeStage::Progress, Seq::empty(), Request::SyncDirExists)
        }
    }

    /// The entry at hand is synced unless `unwanted`.
    pub open spec fn begun_unless(
        self,
        unwanted: bool,
        candidate: Candidate<Seq<char>>,
        effects: Seq<Effect<Seq<char>>>,
    ) -> (TreePassView, TurnView<()>) {
        if unwanted {
            self.skip(effects)
        } else {
            let start = DriverView::<TreeItem>::fresh(self.place(candidate), candidate.machine);
            let (after, result) = start.next(Reply::Begin);
            let noted = match self.side {
                Side::Local => TreePassView {
                    synced: self.synced.push((candidate.local_path, candidate.remote_path)),
                    ..self
                },
                Side::Remote => self,
            };
            noted.moved(effects, after, result)
        }
    }

    /// The entry at hand was announced, if the pair is on record.
    pub open spec fn announced(self, on_record: bool) -> (TreePassView, TurnView<()>) {
        let frame = self.frames.last();
        match frame.found.admission(frame.index, self.sync_dir) {
            Admission::Item(candidate) => {
                let effects = if on_record {
                    seq![
                        self.examining(
                            match self.side {
                                Side::Local => candidate.local_path,
                                Side::Remote => candidate.remote_path,
                            },
                        ),
                    ]
                } else {
                    Seq::empty()
                };
                self.begun_unless(
                    match self.side {
                        Side::Local => ignore::ignored(frame.globs, candidate.glob_text),
                        Side::Remote => self.synced.contains(
                            (candidate.local_path, candidate.remote_path),
                        ),
                    },
                    candidate,
                    effects,
                )
            },
            _ => self.fault(Seq::empty()),
        }
    }

    /// The directory just entered was announced, if the pair is on record.
    pub open spec fn opened(self, on_record: bool) -> (TreePassView, TurnView<()>) {
        let dir = self.frames.last().dir;
        self.go(
            TreeStage::Read,
            if on_record {
                seq![self.examining(dir)]
            } else {
                Seq::empty()
            },
            match self.side {
                Side::Local => Request::ReadDir(dir),
                Side::Remote => Request::List { path: dir, recursive: false },
            },
        )
    }

    /// The directory just entered cannot be read.
    pub open spec fn unreadable(self, words: Seq<char>) -> (TreePassView, TurnView<()>) {
        self.leave(
            seq![
                self.source.error(
                    SyncError::General(self.frames.last().dir, Reason::Reported(words)),
                ),
            ],
        )
    }

    /// The ignore file of the directory just entered came.
    pub open spec fn ignoring(self, content: Option<String>) -> (TreePassView, TurnView<()>) {
        let inside = self.with_top(
            FrameView { globs: ignore::patterns(content), ..self.frames.last() },
        );
        match self.side {
            Side::Local => inside.resume(Seq::empty()),
            Side::Remote => inside.go(TreeStage::Announce, Seq::empty(), Request::SyncDirExists),
        }
    }

    /// The pass takes in a reply.
    pub open spec fn next(self, reply: Reply) -> (TreePassView, TurnView<()>) {
        let yes = Ok::<bool, String>(true);
        if self.stage is Start {
            match reply {
                Reply::Begin => self.enter(self.root, Seq::empty()),
                _ => self.fault(Seq::empty()),
            }
        } else if self.frames.len() == 0 {
            self.fault(Seq::empty())
        } else {
            match (self.stage, reply) {
                (TreeStage::Announce, Reply::OnRecord(found)) => self.opened(found == yes),
                (TreeStage::Read, Reply::Entries(Ok(list))) => self.filled(
                    FoundView::Entries(list@),
                ),
                (TreeStage::Read, Reply::Entries(Err(words))) => self.unreadable(words@),
                (TreeStage::Read, Reply::Items(Ok(list))) => self.filled(FoundView::Items(list@)),
                (TreeStage::Read, Reply::Items(Err(words))) => self.unreadable(words@),
                (TreeStage::Ignore, Reply::Text(content)) => self.ignoring(content),
                (TreeStage::Poll, Reply::Flag(cancelled)) => if cancelled {
                    self.leave(Seq::empty())
                } else {
                    self.go(
                        TreeStage::Record,
                        seq![Effect::CheckOpenRequests],
                        Request::SyncDirExists,
                    )
                },
                (TreeStage::Record, Reply::OnRecord(found)) => if found != yes {
                    self.leave(Seq::empty())
                } else if self.frames.last().has_entry() {
                    self.consider()
                } else {
                    self.fault(Seq::empty())
                },
                (TreeStage::Progress, Reply::OnRecord(found)) =>
                    if self.frames.last().has_entry() {
                    self.announced(found == yes)
                } else {
                    self.fault(Seq::empty())
                },
                (TreeStage::Item, reply) => match self.frames.last().current {
                    Some(driver) => self.moved(
                        Seq::empty(),
                        driver.next(reply).0,
                        driver.next(reply).1,
                    ),
                    None => self.fault(Seq::empty()),
                },
                _ => self.fault(Seq::empty()),
            }
        }
    }
}

proof fn lemma_moved_whatever_was_current(
    pass: TreePassView,
    frame: FrameView,
    other: FrameView,
    before: Seq<Effect<Seq<char>>>,
    driver: DriverView<TreeItem>,
    result: MoveView,
)
    requires
        other == (FrameView { current: other.current, ..frame }),
    ensures
        (TreePassView { frames: pass.frames.push(frame), ..pass }).moved(before, driver, result)
            == (TreePassView { frames: pass.frames.push(other), ..pass }).moved(
            before,
            driver,
            result,
        ),
{
    let one = TreePassView { frames: pass.frames.push(frame), ..pass };
    let two = TreePassView { frames: pass.frames.push(other), ..pass };
    assert(one.frames.drop_last() =~= two.frames.drop_last());
}

fn says_yes(found: Result<bool, String>) -> (yes: bool)
    ensures
        yes == (found == Ok::<bool, String>(true)),
{
    match found {
        Ok(flag) => flag,
        Err(_) => false,
    }
}

fn holds_pair(pairs: &Vec<(String, String)>, local_path: &str, remote_path: &str) -> (found: bool)
    ensures
        found == text::views(pairs@).contains((local_path@, remote_path@)),
{
    let total: usize = pairs.len();
    let mut i: usize = 0;
    while i < total
        invariant
            total == pairs@.len(),
            i <= total,
            forall|k: int|
                0 <= k < i ==> (#[trigger] text::views(pairs@)[k]) != (local_path@, remote_path@),
        decreases total - i,
    {
        assert(text::views(pairs@)[i as int] == (pairs@[i as int].0@, pairs@[i as int].1@));
        if same(pairs[i].0.as_str(), local_path) && same(pairs[i].1.as_str(), remote_path) {
            return true;
        }
        i = i + 1;
    }
    false
}

impl TreePass {
    fn goes(&mut self, stage: TreeStage, effects: Vec<Effect>, request: Request) -> (turn: Turn<()>)
        ensures
            (final(self)@, turn@) == old(self)@.go(stage, text::views(effects@), request@),
    {
        self.stage = stage;
        Turn { effects, next: Next::Ask(request) }
    }

    fn faults(&mut self, effects: Vec<Effect>) -> (turn: Turn<()>)
        ensures
            (final(self)@, turn@) == old(self)@.fault(text::views(effects@)),
    {
        self.stage = TreeStage::Over;
        Turn { effects, next: Next::Fault }
    }

    fn ignore_path(&self) -> (path: String)
        ensures
            path@ == self@.ignore_file(),
    {
        join(self.sync_dir.local_path.as_str(), FILE_IGNORE_NAME)
    }

    fn examines(&self, path: String) -> (effect: Effect)
        ensures
            effect@ == self@.examining(path@),
    {
        self.source.pending_event(
            match self.side {
                Side::Local => Message::Examining(path),
                Side::Remote => Message::ExaminingRemote(path),
            },
        )
    }

    fn push_frame(&mut self, frame: Frame)
        ensures
            final(self)@ == (TreePassView { frames: old(self)@.frames.push(frame@), ..old(self)@ }),
    {
        let ghost before = self@.frames;
        self.frames.push(frame);
        assert(self@.frames =~= before.push(frame@));
    }

    fn pop_frame(&mut self) -> (frame: Option<Frame>)
        ensures
            match frame {
                Some(top) => {
                    &&& old(self)@.frames.len() > 0
                    &&& top@ == old(self)@.frames.last()
                    &&& final(self)@ == (TreePassView {
                        frames: old(self)@.frames.drop_last(),
                        ..old(self)@
                    })
                },
                None => old(self)@.frames.len() == 0 && final(self)@ == old(self)@,
            },
    {
        let ghost before = self@.frames;
        let frame = self.frames.pop();
        match &frame {
            Some(top) => {
                assert(self@.frames =~= before.drop_last());
            },
            None => {},
        }
        frame
    }

    fn enters(&mut self, dir: String, effects: Vec<Effect>) -> (turn: Turn<()>)
        ensures
            (final(self)@, turn@) == old(self)@.enter(dir@, text::views(effects@)),
    {
        let mut effects = effects;
        add_effect(&mut effects, Effect::ProcessDeletionRequests);
        let frame = Frame {
            dir,
            globs: Vec::new(),
            found: Found::Entries(Vec::new()),
            index: 0,
            current: None,
        };
        assert(frame@ =~= FrameView::fresh(dir@));
        self.push_frame(frame);
        match self.side {
            Side::Local => self.goes(TreeStage::Announce, effects, Request::SyncDirExists),
            Side::Remote => {
                let path = self.ignore_path();
                self.goes(TreeStage::Ignore, effects, Request::ReadIgnoreFile(path))
            },
        }
    }

    fn leaves(&mut self, effects: Vec<Effect>) -> (turn: Turn<()>)
        ensures
            (final(self)@, turn@) == old(self)@.leave(text::views(effects@)),
        decreases old(self)@.frames.len(), 0nat,
    {
        match self.pop_frame() {
            None => self.faults(effects),
            Some(_) => match self.pop_frame() {
                None => {
                    self.stage = TreeStage::Over;
                    Turn { effects, next: Next::Done(()) }
                },
                Some(frame) => {
                    let ghost outside = frame@;
                    let mut frame = frame;
                    let mut current: Option<Driver<TreeItem>> = None;
                    std::mem::swap(&mut current, &mut frame.current);
                    match current {
                        Some(driver) => {
                            let mut driver = driver;
                            let result = driver.advance(Fact::Done);
                            proof {
                                let held = old(self)@.frames.drop_last();
                                assert(held.drop_last().push(outside) =~= held);
                                lemma_moved_whatever_was_current(
                                    self@,
                                    outside,
                                    frame@,
                                    text::views(effects@),
                                    driver@,
                                    result@,
                                );
                            }
                            self.moves(effects, frame, driver, result)
                        },
                        None => {
                            self.push_frame(frame);
                            assert(self@.frames =~= old(self)@.frames.drop_last());
                            self.faults(effects)
                        },
                    }
                },
            },
        }
    }

    fn resumes(&mut self, effects: Vec<Effect>) -> (turn: Turn<()>)
        ensures
            (final(self)@, turn@) == old(self)@.resume(text::views(effects@)),
        decreases old(self)@.frames.len(), 1nat,
    {
        let depth: usize = self.frames.len();
        if depth > 0 {
            let frame = &self.frames[depth - 1];
            assert(self@.frames.last() == frame@);
            if frame.index < frame.found.len() {
                return self.goes(TreeStage::Poll, effects, Request::IsCancelled);
            }
        }
        self.leaves(effects)
    }

    /// The entry being synced, which belongs to `frame`, made a move. The
    /// frame was taken off the pass.
    fn moves(
        &mut self,
        before: Vec<Effect>,
        frame: Frame,
        driver: Driver<TreeItem>,
        result: Move,
    ) -> (turn: Turn<()>)
        ensures
            (final(self)@, turn@) == (TreePassView {
                frames: old(self)@.frames.push(frame@),
                ..old(self)@
            }).moved(text::views(before@), driver@, result@),
        decreases old(self)@.frames.len() + 1, 2nat,
    {
        let ghost outer = self@.frames;
        let ghost whole = TreePassView { frames: outer.push(frame@), ..self@ };
        let mut frame = frame;
        let mut effects = before;
        add_effects(&mut effects, result.effects);
        assert(outer.push(frame@).drop_last() =~= outer);
        let total: usize = frame.found.len();
        if frame.index >= total {
            frame.current = Some(driver);
            self.push_frame(frame);
            return self.faults(effects);
        }
        match result.step {
            Step::Ask(request) => {
                frame.current = Some(driver);
                self.push_frame(frame);
                self.goes(TreeStage::Item, effects, request)
            },
            Step::Descend => {
                let dir = match self.side {
                    Side::Local => driver.place.local_path.clone(),
                    Side::Remote => driver.place.remote_path.clone(),
                };
                frame.current = Some(driver);
                self.push_frame(frame);
                self.enters(dir, effects)
            },
            Step::Over => {
                frame.current = None;
                frame.index = frame.index + 1;
                self.push_frame(frame);
                self.resumes(effects)
            },
            Step::Fault => {
                frame.current = Some(driver);
                self.push_frame(frame);
                self.faults(effects)
            },
        }
    }

    fn skips(&mut self, effects: Vec<Effect>) -> (turn: Turn<()>)
        requires
            old(self)@.frames.len() > 0,
            old(self)@.frames.last().has_entry(),
        ensures
            (final(self)@, turn@) == old(self)@.skip(text::views(effects@)),
    {
        match self.pop_frame() {
            Some(frame) => {
                let mut frame = frame;
                let total: usize = frame.found.len();
                assert(frame.index < total);
                frame.current = None;
                frame.index = frame.index + 1;
                self.push_frame(frame);
                self.resumes(effects)
            },
            None => self.faults(effects),
        }
    }

    fn fills(&mut self, found: Found) -> (turn: Turn<()>)
        requires
            old(self)@.frames.len() > 0,
        ensures
            (final(self)@, turn@) == old(self)@.filled(found@),
    {
        match self.pop_frame() {
            Some(frame) => {
                let mut frame = frame;
                frame.found = found;
                self.push_frame(frame);
            },
            None => {},
        }
        match self.side {
            Side::Local => {
                let path = self.ignore_path();
                self.goes(TreeStage::Ignore, no_effects(), Request::ReadIgnoreFile(path))
            },
            Side::Remote => self.resumes(no_effects()),
        }
    }

    /// An item of a remote directory was held against the ignore patterns:
    /// it is announced unless it is ignored.
    pub fn announces_unless(&mut self, ignored: bool) -> (turn: Turn<()>)
        requires
            old(self)@.frames.len() > 0,
            old(self)@.frames.last().has_entry(),
        ensures
            (final(self)@, turn@) == old(self)@.announced_unless(ignored),
    {
        if ignored {
            self.skips(no_effects())
        } else {
            self.goes(TreeStage::Progress, no_effects(), Request::SyncDirExists)
        }
    }

    /// The entry at hand was held against the ignore patterns (local) or
    /// against what was synced already (remote): it is synced unless it is
    /// not wanted.
    pub fn begins_unless(&mut self, unwanted: bool, candidate: Candidate, effects: Vec<Effect>) -> (
    turn: Turn<()>)
        requires
            old(self)@.frames.len() > 0,
            old(self)@.frames.last().has_entry(),
        ensures
            (final(self)@, turn@) == old(self)@.begun_unless(
                unwanted,
                candidate@,
                text::views(effects@),
            ),
    {
        if unwanted {
            return self.skips(effects);
        }
        let ghost start = self@;
        match self.side {
            Side::Local => {
                let pair = (candidate.local_path.clone(), candidate.remote_path.clone());
                let ghost before = self@.synced;
                self.synced.push(pair);
                assert(self@.synced =~= before.push(
                    (candidate@.local_path, candidate@.remote_path),
                ));
            },
            Side::Remote => {},
        }
        let ghost noted = self@;
        let place = Place {
            source: self.source,
            local_path: candidate.local_path,
            remote_path: candidate.remote_path,
            progress: None,
            seen_on: self.side,
        };
        let mut driver = Driver::new(place, candidate.machine);
        let result = driver.step(Reply::Begin);
        match self.pop_frame() {
            Some(frame) => {
                assert(noted.frames.drop_last().push(frame@) =~= noted.frames);
                self.moves(effects, frame, driver, result)
            },
            None => self.faults(effects),
        }
    }

    fn considers(&mut self) -> (turn: Turn<()>)
        requires
            old(self)@.frames.len() > 0,
            old(self)@.frames.last().has_entry(),
        ensures
            (final(self)@, turn@) == old(self)@.consider(),
    {
        let depth: usize = self.frames.len();
        let frame = &self.frames[depth - 1];
        assert(self@.frames.last() == frame@);
        match frame.found.admission_of(frame.index, &self.sync_dir) {
            Admission::Skip => self.skips(no_effects()),
            Admission::Broken(words) => {
                let effect = self.source.error_event(
                    SyncError::General(frame.dir.clone(), Reason::Reported(words)),
                );
                self.skips(one_effect(effect))
            },
            Admission::Fault => self.faults(no_effects()),
            Admission::Item(candidate) => match self.side {
                Side::Local => self.goes(TreeStage::Progress, no_effects(), Request::SyncDirExists),
                Side::Remote => {
                    let ignored = is_ignored(&frame.globs, candidate.glob_text.as_str());
                    self.announces_unless(ignored)
                },
            },
        }
    }

    fn announces(&mut self, on_record: bool) -> (turn: Turn<()>)
        requires
            old(self)@.frames.len() > 0,
            old(self)@.frames.last().has_entry(),
        ensures
            (final(self)@, turn@) == old(self)@.announced(on_record),
    {
        let depth: usize = self.frames.len();
        let frame = &self.frames[depth - 1];
        assert(self@.frames.last() == frame@);
        match frame.found.admission_of(frame.index, &self.sync_dir) {
            Admission::Item(candidate) => {
                let unwanted = match self.side {
                    Side::Local => is_ignored(&frame.globs, candidate.glob_text.as_str()),
                    Side::Remote => holds_pair(
                        &self.synced,
                        candidate.local_path.as_str(),
                        candidate.remote_path.as_str(),
                    ),
                };
                let effects = if on_record {
                    let path = match self.side {
                        Side::Local => candidate.local_path.clone(),
                        Side::Remote => candidate.remote_path.clone(),
                    };
                    one_effect(self.examines(path))
                } else {
                    no_effects()
                };
                self.begins_unless(unwanted, candidate, effects)
            },
            _ => self.faults(no_effects()),
        }
    }

    fn opens(&mut self, on_record: bool) -> (turn: Turn<()>)
        requires
            old(self)@.frames.len() > 0,
        ensures
            (final(self)@, turn@) == old(self)@.opened(on_record),
    {
        let depth: usize = self.frames.len();
        let dir = self.frames[depth - 1].dir.clone();
        assert(self@.frames.last().dir == dir@);
        let effects = if on_record {
            one_effect(self.examines(dir.clone()))
        } else {
            no_effects()
        };
        let request = match self.side {
            Side::Local => Request::ReadDir(dir),
            Side::Remote => Request::List { path: dir, recursive: false },
        };
        self.goes(TreeStage::Read, effects, request)
    }

    fn cannot_read(&mut self, words: String) -> (turn: Turn<()>)
        requires
            old(self)@.frames.len() > 0,
        ensures
            (final(self)@, turn@) == old(self)@.unreadable(words@),
    {
        let depth: usize = self.frames.len();
        let dir = self.frames[depth - 1].dir.clone();
        assert(self@.frames.last().dir == dir@);
        let effect = self.source.error_event(SyncError::General(dir, Reason::Reported(words)));
        self.leaves(one_effect(effect))
    }

    fn ignores(&mut self, content: Option<String>) -> (turn: Turn<()>)
        requires
            old(self)@.frames.len() > 0,
        ensures
            (final(self)@, turn@) == old(self)@.ignoring(content),
    {
        match self.pop_frame() {
            Some(frame) => {
                let mut frame = frame;
                frame.globs = read_patterns(content);
                self.push_frame(frame);
            },
            None => {},
        }
        match self.side {
            Side::Local => self.resumes(no_effects()),
            Side::Remote => self.goes(TreeStage::Announce, no_effects(), Request::SyncDirExists),
        }
    }

    fn drives(&mut self, reply: Reply) -> (turn: Turn<()>)
        requires
            old(self)@.frames.len() > 0,
        ensures
            (final(self)@, turn@) == match old(self)@.frames.last().current {
                Some(driver) => old(self)@.moved(
                    Seq::empty(),
                    driver.next(reply).0,
                    driver.next(reply).1,
                ),
                None => old(self)@.fault(Seq::empty()),
            },
    {
        let ghost start = self@;
        match self.pop_frame() {
            Some(frame) => {
                let ghost held = frame@;
                let mut frame = frame;
                let mut current: Option<Driver<TreeItem>> = None;
                std::mem::swap(&mut current, &mut frame.current);
                assert(start.frames.drop_last().push(held) =~= start.frames);
                match current {
                    Some(driver) => {
                        let mut driver = driver;
                        let result = driver.step(reply);
                        let effects = no_effects();
                        proof {
                            lemma_moved_whatever_was_current(
                                self@,
                                held,
                                frame@,
                                Seq::empty(),
                                driver@,
                                result@,
                            );
                        }
                        self.moves(effects, frame, driver, result)
                    },
                    None => {
                        self.push_frame(frame);
                        self.faults(no_effects())
                    },
                }
            },
            None => self.faults(no_effects()),
        }
    }

    fn at_entry(&self) -> (yes: bool)
        requires
            self@.frames.len() > 0,
        ensures
            yes == self@.frames.last().has_entry(),
    {
        let depth: usize = self.frames.len();
        let frame = &self.frames[depth - 1];
        assert(self@.frames.last() == frame@);
        frame.index < frame.found.len()
    }

    /// Takes in a reply, [`Reply::Begin`] at first.
    pub fn step(&mut self, reply: Reply) -> (turn: Turn<()>)
        ensures
            (final(self)@, turn@) == old(self)@.next(reply),
    {
        if self.stage == TreeStage::Start {
            return match reply {
                Reply::Begin => {
                    let root = self.root.clone();
                    self.enters(root, no_effects())
                },
                _ => self.faults(no_effects()),
            };
        }
        if self.frames.len() == 0 {
            return self.faults(no_effects());
        }
        match (self.stage, reply) {
            (TreeStage::Announce, Reply::OnRecord(found)) => self.opens(says_yes(found)),
            (TreeStage::Read, Reply::Entries(result)) => match result {
                Ok(list) => self.fills(Found::Entries(list)),
                Err(words) => self.cannot_read(words),
            },
            (TreeStage::Read, Reply::Items(result)) => match result {
                Ok(list) => self.fills(Found::Items(list)),
                Err(words) => self.cannot_read(words),
            },
            (TreeStage::Ignore, Reply::Text(content)) => self.ignores(content),
            (TreeStage::Poll, Reply::Flag(cancelled)) => {
                if cancelled {
                    self.leaves(no_effects())
                } else {
                    self.goes(
                        TreeStage::Record,
                        one_effect(Effect::CheckOpenRequests),
                        Request::SyncDirExists,
                    )
                }
            },
            (TreeStage::Record, Reply::OnRecord(found)) => {
                if !says_yes(found) {
                    self.leaves(no_effects())
                } else if self.at_entry() {
                    self.considers()
                } else {
                    self.faults(no_effects())
                }
            },
            (TreeStage::Progress, Reply::OnRecord(found)) => {
                if self.at_entry() {
                    self.announces(says_yes(found))
                } else {
                    self.faults(no_effects())
                }
            },
            (TreeStage::Item, reply) => self.drives(reply),
            _ => self.faults(no_effects()),
        }
    }
}

/// A pass that was not started yet.
pub open spec fn fresh_pass(
    side: Side,
    root: Seq<char>,
    remote: Remote<Seq<char>>,
    dir: SyncDir<Seq<char>>,
    synced: Seq<(Seq<char>, Seq<char>)>,
) -> TreePassView {
    TreePassView {
        source: Source { remote_id: remote.id, sync_dir_id: dir.id },
        sync_dir: dir,
        side,
        root,
        synced,
        frames: Seq::empty(),
        stage: TreeStage::Start,
    }
}

/// Syncs the local directory `local_dir`, which lies in `sync_dir`, entry by
/// entry, and everything below it. `synced_items` collects the pairs of paths
/// that were synced.
pub fn sync_local_directory(
    local_dir: &str,
    remote: &Remote,
    sync_dir: &SyncDir,
    synced_items: Vec<(String, String)>,
) -> (pass: TreePass)
    ensures
        pass@ == fresh_pass(
            Side::Local,
            local_dir@,
            remote@,
            sync_dir@,
            text::views(synced_items@),
        ),
{
    let pass = TreePass {
        source: Source { remote_id: remote.id, sync_dir_id: sync_dir.id },
        sync_dir: sync_dir.clone(),
        side: Side::Local,
        root: local_dir.to_owned(),
        synced: synced_items,
        frames: Vec::new(),
        stage: TreeStage::Start,
    };
    assert(pass@.frames =~= Seq::empty());
    pass
}

/// Syncs the remote directory `remote_dir` item by item, and everything below
/// it, without the pairs of paths in `synced_items`. `remote_dir` has no slash
/// at either end and starts at the remote's top.
pub fn sync_remote_directory(
    remote_dir: &str,
    remote: &Remote,
    sync_dir: &SyncDir,
    synced_items: Vec<(String, String)>,
) -> (pass: TreePass)
    ensures
        pass@ == fresh_pass(
            Side::Remote,
            remote_dir@,
            remote@,
            sync_dir@,
            text::views(synced_items@),
        ),
{
    let pass = TreePass {
        source: Source { remote_id: remote.id, sync_dir_id: sync_dir.id },
        sync_dir: sync_dir.clone(),
        side: Side::Remote,
        root: remote_dir.to_owned(),
        synced: synced_items,
        frames: Vec::new(),
        stage: TreeStage::Start,
    };
    assert(pass@.frames =~= Seq::empty());
    pass
}

/// Once called off, or once the pair is no longer on record, a pass leaves
/// the directory without another look at its entries.
pub proof fn law_stopped_pass_leaves(pass: TreePassView, found: Result<bool, String>)
    requires
        pass.frames.len() > 0,
        found != Ok::<bool, String>(true),
    ensures
        pass.stage is Poll ==> pass.next(Reply::Flag(true)) == pass.leave(Seq::empty()),
        pass.stage is Record ==> pass.next(Reply::OnRecord(found)) == pass.leave(Seq::empty()),
{
}

/// A remote item whose pair of paths was synced already is not synced again:
/// the pass goes on to the next one, with at most a line about the item.
pub proof fn law_synced_items_are_passed_over(
    pass: TreePassView,
    candidate: Candidate<Seq<char>>,
    on_record: bool,
)
    requires
        pass.side is Remote,
        pass.frames.last().found.admission(pass.frames.last().index, pass.sync_dir)
            == Admission::Item(candidate),
        pass.synced.contains((candidate.local_path, candidate.remote_path)),
    ensures
        pass.announced(on_record) == pass.skip(
            if on_record {
                seq![pass.examining(candidate.remote_path)]
            } else {
                Seq::empty()
            },
        ),
{
}

/// A local entry that an ignore pattern matches is not synced: the pass goes
/// on to the next one, with at most a line about the entry, and does not note
/// it as synced.
pub proof fn law_ignored_entries_are_passed_over(
    pass: TreePassView,
    candidate: Candidate<Seq<char>>,
    on_record: bool,
)
    requires
        pass.side is Local,
        pass.frames.last().found.admission(pass.frames.last().index, pass.sync_dir)
            == Admission::Item(candidate),
        ignore::ignored(pass.frames.last().globs, candidate.glob_text),
    ensures
        pass.announced(on_record) == pass.skip(
            if on_record {
                seq![pass.examining(candidate.local_path)]
            } else {
                Seq::empty()
            },
        ),
{
}

} // verus!
