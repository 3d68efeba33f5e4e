//! The steps by which a remote is created or given a fresh configuration.

use vstd::prelude::*;

use crate::domain::{RemoteId, SyncPolicy};

verus! {

/// Something to be done for a remote.
#[derive(Debug, PartialEq, Eq)]
pub enum Task<S = String> {
    /// Drop the configuration of that name; whether it works does not
    /// matter.
    DropConfig(S),
    /// Create a configuration from a JSON document: [`Report::Done`].
    CreateConfig(S),
    /// Record a remote of that name: [`Report::Inserted`].
    InsertRemote(S),
    /// Log in to Proton: [`Report::LoggedIn`].
    Login { username: S, password: S, two_fa: S, mailbox_password: S },
    /// Create the directories above a file: [`Report::Done`].
    MakeParents(S),
    /// Save the session `uid` to a file: [`Report::Done`].
    SaveSession { uid: S, path: S },
    /// Record a native Proton remote: [`Report::Inserted`].
    InsertProtonRemote { name: S, session_path: S },
    /// Have the remote synced by that policy; whether it works does not
    /// matter.
    SetPolicy { id: RemoteId, policy: SyncPolicy },
    /// Serve the remote of that name from the session `uid`:
    /// [`Report::Done`].
    Register { name: S, uid: S },
}

impl View for Task<String> {
    type V = Task<Seq<char>>;

    open spec fn view(&self) -> Task<Seq<char>> {
        match *self {
            Task::DropConfig(name) => Task::DropConfig(name@),
            Task::CreateConfig(payload) => Task::CreateConfig(payload@),
            Task::InsertRemote(name) => Task::InsertRemote(name@),
            Task::Login { username, password, two_fa, mailbox_password } => Task::Login {
                username: username@,
                password: password@,
                two_fa: two_fa@,
                mailbox_password: mailbox_password@,
            },
            Task::MakeParents(path) => Task::MakeParents(path@),
            Task::SaveSession { uid, path } => Task::SaveSession { uid: uid@, path: path@ },
            Task::InsertProtonRemote { name, session_path } => Task::InsertProtonRemote {
                name: name@,
                session_path: session_path@,
            },
            Task::SetPolicy { id, policy } => Task::SetPolicy { id, policy },
            Task::Register { name, uid } => Task::Register { name: name@, uid: uid@ },
        }
    }
}

/// What came of a task.
#[derive(Debug, PartialEq, Eq)]
pub enum Report {
    Done(Result<(), String>),
    Inserted(Result<RemoteId, String>),
    /// The session's UID.
    LoggedIn(Result<String, String>),
}

/// What is to be done next.
#[derive(Debug, PartialEq, Eq)]
pub enum Course<R> {
    Do(Task),
    Finished(Result<R, String>),
    /// The report does not belong to the task.
    Fault,
}

/// What a [`Course`] holds.
pub enum CourseView<R> {
    Do(Task<Seq<char>>),
    Finished(Result<R, Seq<char>>),
    Fault,
}

impl<R> View for Course<R> {
    type V = CourseView<R>;

    open spec fn view(&self) -> CourseView<R> {
        match *self {
            Course::Do(task) => CourseView::Do(task@),
            Course::Finished(Ok(result)) => CourseView::Finished(Ok(result)),
            Course::Finished(Err(words)) => CourseView::Finished(Err(words@)),
            Course::Fault => CourseView::Fault,
        }
    }
}

/// How far the creation of a remote has come.
#[derive(Clone, Copy, Debug, PartialEq, Eq, Structural)]
pub enum AddStage {
    Start,
    Creating,
    Inserting,
    Over,
}

/// Creates a remote: its configuration first, then its row.
pub struct AddRemote {
    pub name: String,
    pub payload: String,
    pub stage: AddStage,
}

/// What an [`AddRemote`] holds.
pub struct AddRemoteView {
    pub name: Seq<char>,
    pub payload: Seq<char>,
    pub stage: AddStage,
}

impl View for AddRemote {
    type V = AddRemoteView;

    open spec fn view(&self) -> AddRemoteView {
        AddRemoteView { name: self.name@, payload: self.payload@, stage: self.stage }
    }
}

impl AddRemoteView {
    /// At another stage.
    pub open spec fn at(self, stage: AddStage) -> AddRemoteView {
        AddRemoteView { stage, ..self }
    }

    /// The first task.
    pub open spec fn begun(self) -> (AddRemoteView, CourseView<RemoteId>) {
        match self.stage {
            AddStage::Start => (
                self.at(AddStage::Creating),
                CourseView::Do(Task::CreateConfig(self.payload)),
            ),
            _ => (self.at(AddStage::Over), CourseView::Fault),
        }
    }

    /// The task after a report. A configuration that cannot be created ends
    /// it, and no row is recorded.
    pub open spec fn next(self, report: Report) -> (AddRemoteView, CourseView<RemoteId>) {
        let over = self.at(AddStage::Over);
        match (self.stage, report) {
            (AddStage::Creating, Report::Done(Ok(_))) => (
                self.at(AddStage::Inserting),
                CourseView::Do(Task::InsertRemote(self.name)),
            ),
            (AddStage::Creating, Report::Done(Err(words))) => (
                over,
                CourseView::Finished(Err(words@)),
            ),
            (AddStage::Inserting, Report::Inserted(Ok(id))) => (
                over,
                CourseView::Finished(Ok(id)),
            ),
            (AddStage::Inserting, Report::Inserted(Err(words))) => (
                over,
                CourseView::Finished(Err(words@)),
            ),
            _ => (over, CourseView::Fault),
        }
    }
}

impl AddRemote {
    /// The creation of the remote `name` from a JSON document.
    pub fn new(name: &str, payload: String) -> (add: AddRemote)
        ensures
            add@ == (AddRemoteView { name: name@, payload: payload@, stage: AddStage::Start }),
    {
        AddRemote { name: name.to_owned(), payload, stage: AddStage::Start }
    }

    /// Starts.
    pub fn begin(&mut self) -> (course: Course<RemoteId>)
        ensures
            (final(self)@, course@) == old(self)@.begun(),
    {
        match self.stage {
            AddStage::Start => {
                self.stage = AddStage::Creating;
                Course::Do(Task::CreateConfig(self.payload.clone()))
            },
            _ => {
                self.stage = AddStage::Over;
                Course::Fault
            },
        }
    }

    /// Takes in what came of the last task.
    pub fn step(&mut self, report: Report) -> (course: Course<RemoteId>)
        ensures
            (final(self)@, course@) == old(self)@.next(report),
    {
        let stage = self.stage;
        self.stage = AddStage::Over;
        match (stage, report) {
            (AddStage::Creating, Report::Done(result)) => match result {
                Ok(_) => {
                    self.stage = AddStage::Inserting;
                    Course::Do(Task::InsertRemote(self.name.clone()))
                },
                Err(words) => Course::Finished(Err(words)),
            },
            (AddStage::Inserting, Report::Inserted(result)) => Course::Finished(result),
            _ => Course::Fault,
        }
    }
}

/// How far the replacement of a configuration has come.
#[derive(Clone, Copy, Debug, PartialEq, Eq, Structural)]
pub enum RenewStage {
    Start,
    Dropping,
    Creating,
    Over,
}

/// Gives a remote a fresh configuration under its old name: drops the stale
/// one, whether or not that works, then creates the new one. Rows are left
/// untouched.
pub struct RenewConfig {
    pub name: String,
    pub payload: String,
    pub stage: RenewStage,
}

/// What a [`RenewConfig`] holds.
pub struct RenewConfigView {
    pub name: Seq<char>,
    pub payload: Seq<char>,
    pub stage: RenewStage,
}

impl View for RenewConfig {
    type V = RenewConfigView;

    open spec fn view(&self) -> RenewConfigView {
        RenewConfigView { name: self.name@, payload: self.payload@, stage: self.stage }
    }
}

impl RenewConfigView {
    /// At another stage.
    pub open spec fn at(self, stage: RenewStage) -> RenewConfigView {
        RenewConfigView { stage, ..self }
    }

    /// The first task.
    pub open spec fn begun(self) -> (RenewConfigView, CourseView<()>) {
        match self.stage {
            RenewStage::Start => (
                self.at(RenewStage::Dropping),
                CourseView::Do(Task::DropConfig(self.name)),
            ),
            _ => (self.at(RenewStage::Over), CourseView::Fault),
        }
    }

    /// The task after a report.
    pub open spec fn next(self, report: Report) -> (RenewConfigView, CourseView<()>) {
        let over = self.at(RenewStage::Over);
        match (self.stage, report) {
            (RenewStage::Dropping, Report::Done(_)) => (
                self.at(RenewStage::Creating),
                CourseView::Do(Task::CreateConfig(self.payload)),
            ),
            (RenewStage::Creating, Report::Done(Ok(_))) => (over, CourseView::Finished(Ok(()))),
            (RenewStage::Creating, Report::Done(Err(words))) => (
                over,
                CourseView::Finished(Err(words@)),
            ),
            _ => (over, CourseView::Fault),
        }
    }
}

impl RenewConfig {
    /// The replacement of the configuration of `name` by a JSON document.
    pub fn new(name: &str, payload: String) -> (renew: RenewConfig)
        ensures
            renew@ == (RenewConfigView {
                name: name@,
                payload: payload@,
                stage: RenewStage::Start,
            }),
    {
        RenewConfig { name: name.to_owned(), payload, stage: RenewStage::Start }
    }

    /// Starts.
    pub fn begin(&mut self) -> (course: Course<()>)
        ensures
            (final(self)@, course@) == old(self)@.begun(),
    {
        match self.stage {
            RenewStage::Start => {
                self.stage = RenewStage::Dropping;
                Course::Do(Task::DropConfig(self.name.clone()))
            },
            _ => {
                self.stage = RenewStage::Over;
                Course::Fault
            },
        }
    }

    /// Takes in what came of the last task.
    pub fn step(&mut self, report: Report) -> (course: Course<()>)
        ensures
            (final(self)@, course@) == old(self)@.next(report),
    {
        let stage = self.stage;
        self.stage = RenewStage::Over;
        match (stage, report) {
            (RenewStage::Dropping, Report::Done(_)) => {
                self.stage = RenewStage::Creating;
                Course::Do(Task::CreateConfig(self.payload.clone()))
            },
            (RenewStage::Creating, Report::Done(result)) => Course::Finished(result),
            _ => Course::Fault,
        }
    }
}

/// A remote whose configuration could not be created is not recorded: the
/// failure is handed on, and no further task follows.
pub proof fn law_no_row_without_a_config(add: AddRemoteView, words: String)
    requires
        add.stage is Creating,
    ensures
        add.next(Report::Done(Err(words))).1 == CourseView::<RemoteId>::Finished(Err(words@)),
        add.next(Report::Done(Err(words))).0.stage is Over,
{
}

/// A configuration is replaced whether or not the stale one could be
/// dropped.
pub proof fn law_renewal_ignores_the_stale_config(
    renew: RenewConfigView,
    one: Result<(), String>,
    other: Result<(), String>,
)
    requires
        renew.stage is Dropping,
    ensures
        renew.next(Report::Done(one)) == renew.next(Report::Done(other)),
        renew.next(Report::Done(one)).1 == CourseView::<()>::Do(
            Task::CreateConfig(renew.payload),
        ),
{
}

/// Giving a remote a fresh configuration never records a row: the one there
/// is stays as it is.
pub proof fn law_renewal_keeps_the_row(renew: RenewConfigView, report: Report)
    ensures
        !(renew.begun().1 matches CourseView::Do(Task::InsertRemote(_))),
        !(renew.next(report).1 matches CourseView::Do(Task::InsertRemote(_))),
{
}

} // verus!
