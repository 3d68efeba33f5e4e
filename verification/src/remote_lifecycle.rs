//! Removes a remote: every row of its items, its synced directories and
//! itself, then its configuration.

use vstd::prelude::*;

use crate::domain::{RemoteId, SyncDirId};
use crate::text::concat;

verus! {

/// Something to be done to remove a remote.
#[derive(Debug, PartialEq, Eq)]
pub enum Removal<S = String> {
    /// Find the remote of that name: [`Removed::Found`].
    Find(S),
    /// List the remote's synced directories: [`Removed::Listed`].
    ListSyncDirs(RemoteId),
    /// Delete the items of a synced directory: [`Removed::Done`].
    DeleteItems(SyncDirId),
    /// Delete a synced directory's row: [`Removed::Done`].
    DeleteSyncDir(SyncDirId),
    /// Delete the remote's row: [`Removed::Done`].
    DeleteRemote(RemoteId),
    /// Delete the configuration of that name: [`Removed::Done`].
    DeleteConfig(S),
}

impl View for Removal<String> {
    type V = Removal<Seq<char>>;

    open spec fn view(&self) -> Removal<Seq<char>> {
        match *self {
            Removal::Find(name) => Removal::Find(name@),
            Removal::ListSyncDirs(id) => Removal::ListSyncDirs(id),
            Removal::DeleteItems(id) => Removal::DeleteItems(id),
            Removal::DeleteSyncDir(id) => Removal::DeleteSyncDir(id),
            Removal::DeleteRemote(id) => Removal::DeleteRemote(id),
            Removal::DeleteConfig(name) => Removal::DeleteConfig(name@),
        }
    }
}

/// What came of it.
#[derive(Debug, PartialEq, Eq)]
pub enum Removed {
    Done(Result<(), String>),
    Found(Result<Option<RemoteId>, String>),
    Listed(Result<Vec<SyncDirId>, String>),
}

/// What is to be done next.
#[derive(Debug, PartialEq, Eq)]
pub enum Onward {
    Do(Removal),
    Finished(Result<(), String>),
    /// The report does not belong to what was to be done.
    Fault,
}

/// What an [`Onward`] holds.
pub enum OnwardView {
    Do(Removal<Seq<char>>),
    Finished(Result<(), Seq<char>>),
    Fault,
}

impl View for Onward {
    type V = OnwardView;

    open spec fn view(&self) -> OnwardView {
        match *self {
            Onward::Do(removal) => OnwardView::Do(removal@),
            Onward::Finished(Ok(_)) => OnwardView::Finished(Ok(())),
            Onward::Finished(Err(words)) => OnwardView::Finished(Err(words@)),
            Onward::Fault => OnwardView::Fault,
        }
    }
}

/// What was to be done last.
#[derive(Clone, Copy, Debug, PartialEq, Eq, Structural)]
pub enum RemovalStage {
    Start,
    Finding,
    Listing,
    /// The items of the directory at hand.
    Items,
    /// The directory at hand.
    Directory,
    Row,
    Config,
    Over,
}

/// The removal of a remote.
pub struct DeleteRemote {
    pub name: String,
    pub remote: RemoteId,
    pub sync_dirs: Vec<SyncDirId>,
    /// The directory at hand.
    pub index: usize,
    pub stage: RemovalStage,
}

/// What a [`DeleteRemote`] holds.
#[verifier::ext_equal]
pub struct DeleteRemoteView {
    pub name: Seq<char>,
    pub remote: RemoteId,
    pub sync_dirs: Seq<SyncDirId>,
    pub index: nat,
    pub stage: RemovalStage,
}

impl View for DeleteRemote {
    type V = DeleteRemoteView;

    open spec fn view(&self) -> DeleteRemoteView {
        DeleteRemoteView {
            name: self.name@,
            remote: self.remote,
            sync_dirs: self.sync_dirs@,
            index: self.index as nat,
            stage: self.stage,
        }
    }
}

impl DeleteRemoteView {
    /// At another stage.
    pub open spec fn at(self, stage: RemovalStage) -> DeleteRemoteView {
        DeleteRemoteView { stage, ..self }
    }

    /// Over, with these words.
    pub open spec fn failed(self, words: Seq<char>) -> (DeleteRemoteView, OnwardView) {
        (self.at(RemovalStage::Over), OnwardView::Finished(Err(words)))
    }

    /// Over, with a report that does not belong here.
    pub open spec fn fault(self) -> (DeleteRemoteView, OnwardView) {
        (self.at(RemovalStage::Over), OnwardView::Fault)
    }

    /// The first step: to find the remote.
    pub open spec fn begun(self) -> (DeleteRemoteView, OnwardView) {
        match self.stage {
            RemovalStage::Start => (
                self.at(RemovalStage::Finding),
                OnwardView::Do(Removal::Find(self.name)),
            ),
            _ => self.fault(),
        }
    }

    /// The next directory's items, or the remote's row when no directory is
    /// left.
    pub open spec fn advanced(self) -> (DeleteRemoteView, OnwardView) {
        if self.index < self.sync_dirs.len() {
            (
                self.at(RemovalStage::Items),
                OnwardView::Do(Removal::DeleteItems(self.sync_dirs[self.index as int])),
            )
        } else {
            (self.at(RemovalStage::Row), OnwardView::Do(Removal::DeleteRemote(self.remote)))
        }
    }

    /// What follows once the step at this stage has worked.
    pub open spec fn done(self) -> (DeleteRemoteView, OnwardView) {
        match self.stage {
            RemovalStage::Items => if self.index < self.sync_dirs.len() {
                (
                    self.at(RemovalStage::Directory),
                    OnwardView::Do(Removal::DeleteSyncDir(self.sync_dirs[self.index as int])),
                )
            } else {
                self.fault()
            },
            RemovalStage::Directory => if self.index < self.sync_dirs.len() {
                DeleteRemoteView { index: self.index + 1, ..self }.advanced()
            } else {
                self.fault()
            },
            RemovalStage::Row => (
                self.at(RemovalStage::Config),
                OnwardView::Do(Removal::DeleteConfig(self.name)),
            ),
            RemovalStage::Config => (
                self.at(RemovalStage::Over),
                OnwardView::Finished(Ok(())),
            ),
            _ => self.fault(),
        }
    }

    /// The step after a report: any failure ends the removal.
    pub open spec fn next(self, report: Removed) -> (DeleteRemoteView, OnwardView) {
        match (self.stage, report) {
            (RemovalStage::Finding, Removed::Found(Ok(Some(id)))) => (
                DeleteRemoteView { remote: id, stage: RemovalStage::Listing, ..self },
                OnwardView::Do(Removal::ListSyncDirs(id)),
            ),
            (RemovalStage::Finding, Removed::Found(Ok(None))) => self.failed(
                "remote '"@ + self.name + "' not found"@,
            ),
            (RemovalStage::Finding, Removed::Found(Err(words))) => self.failed(words@),
            (RemovalStage::Listing, Removed::Listed(Ok(ids))) => DeleteRemoteView {
                sync_dirs: ids@,
                index: 0,
                ..self
            }.advanced(),
            (RemovalStage::Listing, Removed::Listed(Err(words))) => self.failed(words@),
            (RemovalStage::Items, Removed::Done(Err(words))) => self.failed(words@),
            (RemovalStage::Directory, Removed::Done(Err(words))) => self.failed(words@),
            (RemovalStage::Row, Removed::Done(Err(words))) => self.failed(words@),
            (RemovalStage::Config, Removed::Done(Err(words))) => self.failed(words@),
            (_, Removed::Done(Ok(_))) => self.done(),
            _ => self.fault(),
        }
    }
}

impl DeleteRemote {
    fn fault(&mut self) -> (onward: Onward)
        ensures
            (final(self)@, onward@) == old(self)@.fault(),
    {
        self.stage = RemovalStage::Over;
        Onward::Fault
    }

    /// Starts.
    pub fn begin(&mut self) -> (onward: Onward)
        ensures
            (final(self)@, onward@) == old(self)@.begun(),
    {
        match self.stage {
            RemovalStage::Start => {
                self.stage = RemovalStage::Finding;
                Onward::Do(Removal::Find(self.name.clone()))
            },
            _ => self.fault(),
        }
    }

    fn advance(&mut self) -> (onward: Onward)
        ensures
            (final(self)@, onward@) == old(self)@.advanced(),
    {
        if self.index < self.sync_dirs.len() {
            self.stage = RemovalStage::Items;
            Onward::Do(Removal::DeleteItems(self.sync_dirs[self.index]))
        } else {
            self.stage = RemovalStage::Row;
            Onward::Do(Removal::DeleteRemote(self.remote))
        }
    }

    fn worked(&mut self) -> (onward: Onward)
        ensures
            (final(self)@, onward@) == old(self)@.done(),
    {
        let total: usize = self.sync_dirs.len();
        match self.stage {
            RemovalStage::Items => if self.index < total {
                self.stage = RemovalStage::Directory;
                Onward::Do(Removal::DeleteSyncDir(self.sync_dirs[self.index]))
            } else {
                self.fault()
            },
            RemovalStage::Directory => if self.index < total {
                self.index = self.index + 1;
                self.advance()
            } else {
                self.fault()
            },
            RemovalStage::Row => {
                self.stage = RemovalStage::Config;
                Onward::Do(Removal::DeleteConfig(self.name.clone()))
            },
            RemovalStage::Config => {
                self.stage = RemovalStage::Over;
                Onward::Finished(Ok(()))
            },
            _ => self.fault(),
        }
    }

    /// Takes in what came of the last step.
    pub fn step(&mut self, report: Removed) -> (onward: Onward)
        ensures
            (final(self)@, onward@) == old(self)@.next(report),
    {
        match (self.stage, report) {
            (RemovalStage::Finding, Removed::Found(found)) => match found {
                Ok(Some(id)) => {
                    self.remote = id;
                    self.stage = RemovalStage::Listing;
                    Onward::Do(Removal::ListSyncDirs(id))
                },
                Ok(None) => {
                    self.stage = RemovalStage::Over;
                    let mut words = concat("remote '", self.name.as_str());
                    words.append("' not found");
                    Onward::Finished(Err(words))
                },
                Err(words) => {
                    self.stage = RemovalStage::Over;
                    Onward::Finished(Err(words))
                },
            },
            (RemovalStage::Listing, Removed::Listed(listed)) => match listed {
                Ok(ids) => {
                    self.sync_dirs = ids;
                    self.index = 0;
                    self.advance()
                },
                Err(words) => {
                    self.stage = RemovalStage::Over;
                    Onward::Finished(Err(words))
                },
            },
            (stage, Removed::Done(result)) => match result {
                Ok(_) => self.worked(),
                Err(words) => {
                    self.stage = RemovalStage::Over;
                    match stage {
                        RemovalStage::Items
                        | RemovalStage::Directory
                        | RemovalStage::Row
                        | RemovalStage::Config => Onward::Finished(Err(words)),
                        _ => Onward::Fault,
                    }
                },
            },
            _ => self.fault(),
        }
    }
}

/// Removes the remote `remote_name` with everything recorded of it.
pub fn delete_remote(remote_name: &str) -> (removal: DeleteRemote)
    ensures
        removal@ == (DeleteRemoteView {
            name: remote_name@,
            remote: RemoteId(0),
            sync_dirs: Seq::empty(),
            index: 0,
            stage: RemovalStage::Start,
        }),
{
    DeleteRemote {
        name: remote_name.to_owned(),
        remote: RemoteId(0),
        sync_dirs: Vec::new(),
        index: 0,
        stage: RemovalStage::Start,
    }
}

/// Where the removal stands after the first `steps` reports that all say
/// that it worked, counted from the listing.
pub open spec fn after_steps(start: DeleteRemoteView, steps: nat) -> (DeleteRemoteView, OnwardView)
    decreases steps,
{
    if steps == 0 {
        start.advanced()
    } else {
        after_steps(start, (steps - 1) as nat).0.done()
    }
}

/// Where every step works, each directory's items go before its row, the
/// directories go in the order in which they were listed, the remote's own
/// row goes when no directory is left, and its configuration last.
pub proof fn law_rows_go_bottom_up(start: DeleteRemoteView, directory: nat)
    requires
        start.index == 0,
    ensures
        directory < start.sync_dirs.len() ==> {
            let id = start.sync_dirs[directory as int];
            &&& after_steps(start, 2 * directory).1 == OnwardView::Do(Removal::DeleteItems(id))
            &&& after_steps(start, 2 * directory + 1).1 == OnwardView::Do(
                Removal::DeleteSyncDir(id),
            )
        },
        after_steps(start, 2 * start.sync_dirs.len()).1 == OnwardView::Do(
            Removal::DeleteRemote(start.remote),
        ),
        after_steps(start, 2 * start.sync_dirs.len() + 1).1 == OnwardView::Do(
            Removal::DeleteConfig(start.name),
        ),
        after_steps(start, 2 * start.sync_dirs.len() + 2).1 == OnwardView::Finished(Ok(())),
{
    if directory < start.sync_dirs.len() {
        lemma_after_directories(start, directory);
    }
    lemma_after_directories(start, start.sync_dirs.len());
}

proof fn lemma_after_directories(start: DeleteRemoteView, count: nat)
    requires
        start.index == 0,
        count <= start.sync_dirs.len(),
    ensures
        after_steps(start, 2 * count) == (DeleteRemoteView { index: count, ..start }).advanced(),
    decreases count,
{
    if count > 0 {
        lemma_after_directories(start, (count - 1) as nat);
        reveal_with_fuel(after_steps, 3);
    }
}

/// A step that fails ends the removal with its own words: nothing further is
/// deleted, the configuration least of all.
pub proof fn law_failure_stops_the_removal(removal: DeleteRemoteView, words: String)
    requires
        removal.stage is Items || removal.stage is Directory || removal.stage is Row
            || removal.stage is Config,
    ensures
        removal.next(Removed::Done(Err(words))).1 == OnwardView::Finished(Err(words@)),
        removal.next(Removed::Done(Err(words))).0.stage is Over,
{
}

/// A removal finds the remote by its name, lists its synced directories by the
/// id that was found, and then goes through them from the first; a remote that
/// is not there, or any failure, ends it.
pub proof fn law_the_remote_is_found_first(
    start: DeleteRemoteView,
    id: RemoteId,
    ids: Vec<SyncDirId>,
    words: String,
)
    requires
        start.stage is Start,
    ensures
        ({
            let (finding, first) = start.begun();
            let (listing, second) = finding.next(Removed::Found(Ok(Some(id))));
            let (going, third) = listing.next(Removed::Listed(Ok(ids)));
            &&& first == OnwardView::Do(Removal::Find(start.name))
            &&& second == OnwardView::Do(Removal::<Seq<char>>::ListSyncDirs(id))
            &&& third == OnwardView::Do(
                if ids@.len() > 0 {
                    Removal::<Seq<char>>::DeleteItems(ids@[0])
                } else {
                    Removal::DeleteRemote(id)
                },
            )
            &&& going.sync_dirs == ids@
            &&& going.index == 0
            &&& going.remote == id
            &&& going.name == start.name
            &&& finding.next(Removed::Found(Ok(None))).1 == OnwardView::Finished(
                Err("remote '"@ + start.name + "' not found"@),
            )
            &&& finding.next(Removed::Found(Err(words))).1 == OnwardView::Finished(Err(words@))
            &&& listing.next(Removed::Listed(Err(words))).1 == OnwardView::Finished(Err(words@))
        }),
{
}

/// The reports of a removal lead from each step to the one that `after_steps`
/// counts.
pub proof fn law_a_step_that_worked_leads_on(removal: DeleteRemoteView, done: ())
    requires
        removal.stage is Items || removal.stage is Directory || removal.stage is Row
            || removal.stage is Config,
    ensures
        removal.next(Removed::Done(Ok(done))) == removal.done(),
{
}

} // verus!
