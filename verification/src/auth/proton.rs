//! Native Proton Drive remotes: username, password and an optional one-time
//! code, no browser.

use vstd::prelude::*;

use crate::auth::provision::{Course, CourseView, Report, Task};
use crate::domain::{ProviderKind, RemoteId, SyncPolicy};
use crate::paths;
use crate::paths::join;
use crate::text::{concat, ends_with};

verus! {

/// The character may stand in the name of a session file.
pub open spec fn is_plain(c: char) -> bool {
    ||| '0' <= c <= '9'
    ||| 'A' <= c <= 'Z'
    ||| 'a' <= c <= 'z'
    ||| c == '-'
    ||| c == '_'
}

/// `name` with each other character replaced.
pub open spec fn plain(name: Seq<char>) -> Seq<char> {
    name.map_values(
        |c: char|
            if is_plain(c) {
                c
            } else {
                '_'
            },
    )
}

/// The name of the file that holds a remote's session.
pub open spec fn session_file(name: Seq<char>) -> Seq<char> {
    "proton-session-"@ + plain(name) + ".json"@
}

/// A file in a directory; in the directory without a name, the file alone.
pub open spec fn in_directory(directory: Seq<char>, file: Seq<char>) -> Seq<char> {
    if directory.len() == 0 || directory.last() == '/' {
        directory + file
    } else {
        paths::joined(directory, file)
    }
}

fn plain_text(name: &str) -> (safe: String)
    ensures
        safe@ == plain(name@),
{
    let total: usize = name.unicode_len();
    let mut safe = String::new();
    let mut i: usize = 0;
    proof {
        reveal_strlit("_");
    }
    while i < total
        invariant
            total == name@.len(),
            i <= total,
            "_"@ == seq!['_'],
            safe@ == plain(name@.take(i as int)),
        decreases total - i,
    {
        let c = name.get_char(i);
        if ('0' <= c && c <= '9') || ('A' <= c && c <= 'Z') || ('a' <= c && c <= 'z') || c == '-'
            || c == '_' {
            safe.append(name.substring_char(i, i + 1));
        } else {
            safe.append("_");
        }
        i = i + 1;
    }
    safe
}

/// Where the session of the remote `name` lies.
pub fn proton_session_path(config_dir: &str, name: &str) -> (path: String)
    ensures
        path@ == in_directory(config_dir@, session_file(name@)),
{
    let safe = plain_text(name);
    let mut file = concat("proton-session-", safe.as_str());
    file.append(".json");
    proof {
        reveal_strlit("/");
        let dir = config_dir@;
        assert(dir.len() > 0 ==> dir.subrange(dir.len() - 1, dir.len() as int)[0] == dir.last());
    }
    if config_dir.unicode_len() == 0 || ends_with(config_dir, "/") {
        concat(config_dir, file.as_str())
    } else {
        join(config_dir, file.as_str())
    }
}

/// How far the flow has come.
#[derive(Debug, PartialEq, Eq)]
pub enum Stage<S = String> {
    Start,
    LoggingIn,
    MakingParents { uid: S },
    Saving { uid: S },
    Inserting { uid: S },
    SettingPolicy { uid: S, id: RemoteId },
    Registering { added: Option<RemoteId> },
    Over,
}

impl View for Stage<String> {
    type V = Stage<Seq<char>>;

    open spec fn view(&self) -> Stage<Seq<char>> {
        match *self {
            Stage::Start => Stage::Start,
            Stage::LoggingIn => Stage::LoggingIn,
            Stage::MakingParents { uid } => Stage::MakingParents { uid: uid@ },
            Stage::Saving { uid } => Stage::Saving { uid: uid@ },
            Stage::Inserting { uid } => Stage::Inserting { uid: uid@ },
            Stage::SettingPolicy { uid, id } => Stage::SettingPolicy { uid: uid@, id },
            Stage::Registering { added } => Stage::Registering { added },
            Stage::Over => Stage::Over,
        }
    }
}

/// Logs in, saves the session and has it served. A new remote is also
/// recorded; a known one keeps its row.
pub struct ProtonSetup {
    pub name: String,
    pub username: String,
    pub password: String,
    pub totp: String,
    pub session_path: String,
    /// The remote is recorded already.
    pub known: bool,
    pub stage: Stage,
}

/// What a [`ProtonSetup`] holds.
pub struct ProtonSetupView {
    pub name: Seq<char>,
    pub username: Seq<char>,
    pub password: Seq<char>,
    pub totp: Seq<char>,
    pub session_path: Seq<char>,
    pub known: bool,
    pub stage: Stage<Seq<char>>,
}

impl View for ProtonSetup {
    type V = ProtonSetupView;

    open spec fn view(&self) -> ProtonSetupView {
        ProtonSetupView {
            name: self.name@,
            username: self.username@,
            password: self.password@,
            totp: self.totp@,
            session_path: self.session_path@,
            known: self.known,
            stage: self.stage@,
        }
    }
}

impl ProtonSetupView {
    /// At another stage.
    pub open spec fn at(self, stage: Stage<Seq<char>>) -> ProtonSetupView {
        ProtonSetupView { stage, ..self }
    }

    /// Over, with these words.
    pub open spec fn failed(self, words: Seq<char>) -> (
        ProtonSetupView,
        CourseView<Option<RemoteId>>,
    ) {
        (self.at(Stage::Over), CourseView::Finished(Err(words)))
    }

    /// The first task: to log in.
    pub open spec fn begun(self) -> (ProtonSetupView, CourseView<Option<RemoteId>>) {
        match self.stage {
            Stage::Start => (
                self.at(Stage::LoggingIn),
                CourseView::Do(
                    Task::Login {
                        username: self.username,
                        password: self.password,
                        two_fa: self.totp,
                        mailbox_password: Seq::empty(),
                    },
                ),
            ),
            _ => (self.at(Stage::Over), CourseView::Fault),
        }
    }

    /// Has the session served; the last task.
    pub open spec fn registering(self, uid: Seq<char>, id: Option<RemoteId>) -> (
        ProtonSetupView,
        CourseView<Option<RemoteId>>,
    ) {
        (
            self.at(Stage::Registering { added: id }),
            CourseView::Do(Task::Register { name: self.name, uid }),
        )
    }

    /// The task after a report: a failure ends the flow, except that of the
    /// policy.
    pub open spec fn next(self, report: Report) -> (
        ProtonSetupView,
        CourseView<Option<RemoteId>>,
    ) {
        match (self.stage, report) {
            (Stage::LoggingIn, Report::LoggedIn(Ok(uid))) => (
                self.at(Stage::MakingParents { uid: uid@ }),
                CourseView::Do(Task::MakeParents(self.session_path)),
            ),
            (Stage::LoggingIn, Report::LoggedIn(Err(words))) => self.failed(words@),
            (Stage::MakingParents { uid }, Report::Done(Ok(_))) => (
                self.at(Stage::Saving { uid }),
                CourseView::Do(Task::SaveSession { uid, path: self.session_path }),
            ),
            (Stage::MakingParents { .. }, Report::Done(Err(words))) => self.failed(words@),
            (Stage::Saving { uid }, Report::Done(Ok(_))) => if self.known {
                self.registering(uid, None)
            } else {
                (
                    self.at(Stage::Inserting { uid }),
                    CourseView::Do(
                        Task::InsertProtonRemote {
                            name: self.name,
                            session_path: self.session_path,
                        },
                    ),
                )
            },
            (Stage::Saving { .. }, Report::Done(Err(words))) => self.failed(words@),
            (Stage::Inserting { uid }, Report::Inserted(Ok(id))) => (
                self.at(Stage::SettingPolicy { uid, id }),
                CourseView::Do(
                    Task::SetPolicy { id, policy: SyncPolicy::SuitedTo(ProviderKind::ProtonDrive) },
                ),
            ),
            (Stage::Inserting { .. }, Report::Inserted(Err(words))) => self.failed(words@),
            (Stage::SettingPolicy { uid, id }, Report::Done(_)) => self.registering(
                uid,
                Some(id),
            ),
            (Stage::Registering { added: id }, Report::Done(_)) => (
                self.at(Stage::Over),
                CourseView::Finished(Ok(id)),
            ),
            _ => (self.at(Stage::Over), CourseView::Fault),
        }
    }
}

impl ProtonSetup {
    /// Starts.
    pub fn begin(&mut self) -> (course: Course<Option<RemoteId>>)
        ensures
            (final(self)@, course@) == old(self)@.begun(),
    {
        match self.stage {
            Stage::Start => {
                self.stage = Stage::LoggingIn;
                proof {
                    reveal_strlit("");
                    assert(""@ =~= Seq::<char>::empty());
                }
                Course::Do(
                    Task::Login {
                        username: self.username.clone(),
                        password: self.password.clone(),
                        two_fa: self.totp.clone(),
                        mailbox_password: "".to_owned(),
                    },
                )
            },
            _ => {
                self.stage = Stage::Over;
                Course::Fault
            },
        }
    }

    fn register(&mut self, uid: String, id: Option<RemoteId>) -> (course: Course<Option<RemoteId>>)
        ensures
            (final(self)@, course@) == old(self)@.registering(uid@, id),
    {
        self.stage = Stage::Registering { added: id };
        Course::Do(Task::Register { name: self.name.clone(), uid })
    }

    /// Takes in what came of the last task.
    pub fn step(&mut self, report: Report) -> (course: Course<Option<RemoteId>>)
        ensures
            (final(self)@, course@) == old(self)@.next(report),
    {
        let mut stage: Stage = Stage::Over;
        std::mem::swap(&mut stage, &mut self.stage);
        match (stage, report) {
            (Stage::LoggingIn, Report::LoggedIn(result)) => match result {
                Ok(uid) => {
                    self.stage = Stage::MakingParents { uid };
                    Course::Do(Task::MakeParents(self.session_path.clone()))
                },
                Err(words) => Course::Finished(Err(words)),
            },
            (Stage::MakingParents { uid }, Report::Done(result)) => match result {
                Ok(_) => {
                    self.stage = Stage::Saving { uid: uid.clone() };
                    Course::Do(Task::SaveSession { uid, path: self.session_path.clone() })
                },
                Err(words) => Course::Finished(Err(words)),
            },
            (Stage::Saving { uid }, Report::Done(result)) => match result {
                Ok(_) => if self.known {
                    self.register(uid, None)
                } else {
                    self.stage = Stage::Inserting { uid };
                    Course::Do(
                        Task::InsertProtonRemote {
                            name: self.name.clone(),
                            session_path: self.session_path.clone(),
                        },
                    )
                },
                Err(words) => Course::Finished(Err(words)),
            },
            (Stage::Inserting { uid }, Report::Inserted(result)) => match result {
                Ok(id) => {
                    self.stage = Stage::SettingPolicy { uid, id };
                    // Proton Drive limits the rate of short polls.
                    let policy = SyncPolicy::SuitedTo(ProviderKind::ProtonDrive);
                    Course::Do(Task::SetPolicy { id, policy })
                },
                Err(words) => Course::Finished(Err(words)),
            },
            (Stage::SettingPolicy { uid, id }, Report::Done(_)) => self.register(uid, Some(id)),
            (Stage::Registering { added: id }, Report::Done(_)) => Course::Finished(Ok(id)),
            _ => Course::Fault,
        }
    }
}

/// Adds a Proton Drive remote. What comes of it, where it works, is the id
/// of the new remote.
pub fn add_proton_drive_remote(
    name: &str,
    username: &str,
    password: &str,
    totp: &str,
    config_dir: &str,
) -> (setup: ProtonSetup)
    ensures
        setup@ == (ProtonSetupView {
            name: name@,
            username: username@,
            password: password@,
            totp: totp@,
            session_path: in_directory(config_dir@, session_file(name@)),
            known: false,
            stage: Stage::Start,
        }),
{
    ProtonSetup {
        name: name.to_owned(),
        username: username.to_owned(),
        password: password.to_owned(),
        totp: totp.to_owned(),
        session_path: proton_session_path(config_dir, name),
        known: false,
        stage: Stage::Start,
    }
}

/// Gives a Proton Drive remote whose session has expired or gone missing a
/// fresh one. Its row stays untouched, and with it its synced directories
/// and exclusions.
pub fn reauth_proton_drive_remote(
    name: &str,
    username: &str,
    password: &str,
    totp: &str,
    config_dir: &str,
) -> (setup: ProtonSetup)
    ensures
        setup@ == (ProtonSetupView {
            name: name@,
            username: username@,
            password: password@,
            totp: totp@,
            session_path: in_directory(config_dir@, session_file(name@)),
            known: true,
            stage: Stage::Start,
        }),
{
    ProtonSetup {
        name: name.to_owned(),
        username: username.to_owned(),
        password: password.to_owned(),
        totp: totp.to_owned(),
        session_path: proton_session_path(config_dir, name),
        known: true,
        stage: Stage::Start,
    }
}

/// Only plain characters of a remote's name reach the file system: a session
/// file lies in the directory itself, whatever the name holds.
pub proof fn law_session_file_is_plain(name: Seq<char>)
    ensures
        plain(name).len() == name.len(),
        forall|i: int| 0 <= i < name.len() ==> is_plain(#[trigger] plain(name)[i]),
        !session_file(name).contains('/'),
{
    reveal_strlit("proton-session-");
    reveal_strlit(".json");
}

/// The stages at which a row is recorded or changed.
pub open spec fn changes_row(stage: Stage<Seq<char>>) -> bool {
    stage is Inserting || stage is SettingPolicy
}

/// A remote that is known already is never recorded again, and its row never
/// changed.
pub proof fn law_known_remotes_keep_their_row(setup: ProtonSetupView, report: Report)
    requires
        setup.known,
        !changes_row(setup.stage),
    ensures
        setup.begun().0.known && !changes_row(setup.begun().0.stage),
        setup.next(report).0.known && !changes_row(setup.next(report).0.stage),
        !(setup.next(report).1 matches CourseView::Do(Task::InsertProtonRemote { .. })),
        !(setup.next(report).1 matches CourseView::Do(Task::SetPolicy { .. })),
{
}

/// The session of a remote is saved to the same file whether the remote is
/// added or its session renewed.
pub proof fn law_sessions_are_saved_in_one_place(
    one: ProtonSetupView,
    other: ProtonSetupView,
    uid: Seq<char>,
    report: Report,
)
    requires
        one.session_path == other.session_path,
        one.stage == (Stage::MakingParents { uid }),
        other.stage == one.stage,
    ensures
        one.next(report).1 == other.next(report).1,
{
}

/// A setup logs in with what the user gave, makes the directories above the
/// session file, saves the session there, records a new remote and has it
/// synced as suits Proton Drive, and has the session served under the
/// remote's name. It gives the id of a remote that it recorded.
pub proof fn law_the_setup_goes_step_by_step(
    start: ProtonSetupView,
    uid: String,
    done: (),
    id: RemoteId,
    policy: Result<(), String>,
    served: Result<(), String>,
)
    requires
        start.stage is Start,
    ensures
        ({
            let (logging_in, first) = start.begun();
            let (making, second) = logging_in.next(Report::LoggedIn(Ok(uid)));
            let (saving, third) = making.next(Report::Done(Ok(done)));
            let (saved, fourth) = saving.next(Report::Done(Ok(done)));
            let (inserted, fifth) = saved.next(Report::Inserted(Ok(id)));
            let (suited, sixth) = inserted.next(Report::Done(policy));
            let serve = CourseView::<Option<RemoteId>>::Do(
                Task::Register { name: start.name, uid: uid@ },
            );
            &&& first == CourseView::<Option<RemoteId>>::Do(
                Task::Login {
                    username: start.username,
                    password: start.password,
                    two_fa: start.totp,
                    mailbox_password: Seq::empty(),
                },
            )
            &&& second == CourseView::<Option<RemoteId>>::Do(Task::MakeParents(start.session_path))
            &&& third == CourseView::<Option<RemoteId>>::Do(
                Task::SaveSession { uid: uid@, path: start.session_path },
            )
            &&& start.known ==> {
                &&& fourth == serve
                &&& saved.next(Report::Done(served)).1 == CourseView::Finished(
                    Ok(None::<RemoteId>),
                )
            }
            &&& !start.known ==> {
                &&& fourth == CourseView::<Option<RemoteId>>::Do(
                    Task::InsertProtonRemote {
                        name: start.name,
                        session_path: start.session_path,
                    },
                )
                &&& fifth == CourseView::<Option<RemoteId>>::Do(
                    Task::SetPolicy { id, policy: SyncPolicy::SuitedTo(ProviderKind::ProtonDrive) },
                )
                &&& sixth == serve
                &&& suited.next(Report::Done(served)).1 == CourseView::Finished(Ok(Some(id)))
            }
        }),
{
}

/// A failed login, directory, save or recording ends the setup with its own
/// words.
pub proof fn law_a_failed_step_ends_the_setup(setup: ProtonSetupView, words: String)
    ensures
        setup.stage is LoggingIn ==> setup.next(Report::LoggedIn(Err(words))).1 == CourseView::<
            Option<RemoteId>,
        >::Finished(Err(words@)),
        setup.stage is MakingParents || setup.stage is Saving ==> setup.next(
            Report::Done(Err(words)),
        ).1 == CourseView::<Option<RemoteId>>::Finished(Err(words@)),
        setup.stage is Inserting ==> setup.next(Report::Inserted(Err(words))).1 == CourseView::<
            Option<RemoteId>,
        >::Finished(Err(words@)),
{
}

/// Letters, digits, dashes and underscores of a name stay in the name of its
/// session file, every other character becomes an underscore; the file stands
/// in the directory, with one slash between them.
pub proof fn law_session_file_names(directory: Seq<char>, name: Seq<char>, i: int)
    requires
        0 <= i < name.len(),
    ensures
        session_file(name) == "proton-session-"@ + plain(name) + ".json"@,
        plain(name)[i] == if ('0' <= name[i] <= '9') || ('A' <= name[i] <= 'Z') || ('a' <= name[i]
            <= 'z') || name[i] == '-' || name[i] == '_' {
            name[i]
        } else {
            '_'
        },
        in_directory(directory + seq!['/'], session_file(name)) == directory + seq!['/']
            + session_file(name),
        directory.len() > 0 && directory.last() != '/' ==> in_directory(
            directory,
            session_file(name),
        ) == directory + seq!['/'] + session_file(name),
{
    assert(directory.push('/') =~= directory + seq!['/']);
}

} // verus!
