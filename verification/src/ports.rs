//! What the passes ask of the world, tell it and hear from it.
//!
//! A pass is handed a [`Reply`] and answers with a [`Turn`]: effects to carry
//! out in order, whose outcome does not matter, then either one request whose
//! reply it waits for, or its result.

use vstd::prelude::*;

use crate::domain::{RemoteItem, SyncEvent, SyncItem, SyncItemId};
use crate::notices::Notice;
use crate::ops::Destruction;
use crate::sync::summary::PlanSummary;
use crate::text;

verus! {

/// Something the pass needs to know or have done. Paths are local or remote
/// as the name says; rows are those of the synced directory.
#[derive(Debug, PartialEq, Eq)]
pub enum Request<S = String> {
    /// The user's exclusions: [`Reply::Texts`].
    ListExclusions,
    /// The recorded rows: [`Reply::Rows`].
    ListSyncItems,
    /// A recorded row: [`Reply::Row`].
    FindByPaths { local_path: S, remote_path: S },
    FindByLocal(S),
    FindByRemote(S),
    /// Is the pair of directories still on record: [`Reply::OnRecord`].
    SyncDirExists,
    /// What is in a remote directory: [`Reply::Items`].
    List { path: S, recursive: bool },
    /// A remote item: [`Reply::Item`].
    Stat(S),
    /// Changes on the remote: [`Reply::Done`].
    Mkdir(S),
    DeleteFile(S),
    Purge(S),
    CopyToRemote { local_path: S, remote_path: S },
    CopyToLocal { local_path: S, remote_path: S },
    /// What is in a local directory: [`Reply::Entries`].
    ReadDir(S),
    /// The paths that a glob pattern finds: [`Reply::Walked`].
    Walk(S),
    /// The modification time behind a path: [`Reply::Time`].
    LocalTime(S),
    /// The modification time of a directory entry itself: [`Reply::Time`].
    EntryTime(S),
    /// The modification time of the file once opened: [`Reply::Time`].
    OpenTime(S),
    /// Questions about a local path: [`Reply::Flag`].
    Exists(S),
    IsDir(S),
    /// Changes on the local side: [`Reply::Done`].
    CreateDir(S),
    CreateDirAll(S),
    RemoveDirAll(S),
    RemoveFile(S),
    /// The content of the ignore file, read under a lock, where there is
    /// one: [`Reply::Text`].
    ReadIgnoreFile(S),
    /// Was the pass called off: [`Reply::Flag`].
    IsCancelled,
    /// Was a rate limit seen since the pass began: [`Reply::Flag`].
    RateLimitSeen,
}

impl View for Request<String> {
    type V = Request<Seq<char>>;

    open spec fn view(&self) -> Request<Seq<char>> {
        match *self {
            Request::ListExclusions => Request::ListExclusions,
            Request::ListSyncItems => Request::ListSyncItems,
            Request::FindByPaths { local_path, remote_path } => Request::FindByPaths {
                local_path: local_path@,
                remote_path: remote_path@,
            },
            Request::FindByLocal(path) => Request::FindByLocal(path@),
            Request::FindByRemote(path) => Request::FindByRemote(path@),
            Request::SyncDirExists => Request::SyncDirExists,
            Request::List { path, recursive } => Request::List { path: path@, recursive },
            Request::Stat(path) => Request::Stat(path@),
            Request::Mkdir(path) => Request::Mkdir(path@),
            Request::DeleteFile(path) => Request::DeleteFile(path@),
            Request::Purge(path) => Request::Purge(path@),
            Request::CopyToRemote { local_path, remote_path } => Request::CopyToRemote {
                local_path: local_path@,
                remote_path: remote_path@,
            },
            Request::CopyToLocal { local_path, remote_path } => Request::CopyToLocal {
                local_path: local_path@,
                remote_path: remote_path@,
            },
            Request::ReadDir(path) => Request::ReadDir(path@),
            Request::Walk(pattern) => Request::Walk(pattern@),
            Request::LocalTime(path) => Request::LocalTime(path@),
            Request::EntryTime(path) => Request::EntryTime(path@),
            Request::OpenTime(path) => Request::OpenTime(path@),
            Request::Exists(path) => Request::Exists(path@),
            Request::IsDir(path) => Request::IsDir(path@),
            Request::CreateDir(path) => Request::CreateDir(path@),
            Request::CreateDirAll(path) => Request::CreateDirAll(path@),
            Request::RemoveDirAll(path) => Request::RemoveDirAll(path@),
            Request::RemoveFile(path) => Request::RemoveFile(path@),
            Request::ReadIgnoreFile(path) => Request::ReadIgnoreFile(path@),
            Request::IsCancelled => Request::IsCancelled,
            Request::RateLimitSeen => Request::RateLimitSeen,
        }
    }
}

/// Something to be carried out whose outcome the pass does not wait for.
#[derive(Debug, PartialEq, Eq)]
pub enum Effect<S = String> {
    Emit(SyncEvent<S>),
    LogDestructive { kind: Destruction, path: S },
    LogPlan(PlanSummary),
    Log(Notice<S>),
    UpdateTimestamps { id: SyncItemId, local_time: i64, remote_time: i64 },
    InsertItem { local_path: S, remote_path: S, local_time: i64, remote_time: i64 },
    DeleteItem(SyncItemId),
    DeleteItemByPaths { local_path: S, remote_path: S },
    /// Create the directories above a local path.
    CreateParentDirs(S),
    /// Create a directory on the remote.
    Mkdir(S),
    ProcessDeletionRequests,
    CheckOpenRequests,
}

impl View for Effect<String> {
    type V = Effect<Seq<char>>;

    open spec fn view(&self) -> Effect<Seq<char>> {
        match *self {
            Effect::Emit(event) => Effect::Emit(event@),
            Effect::LogDestructive { kind, path } => Effect::LogDestructive { kind, path: path@ },
            Effect::LogPlan(summary) => Effect::LogPlan(summary),
            Effect::Log(notice) => Effect::Log(notice@),
            Effect::UpdateTimestamps { id, local_time, remote_time } => Effect::UpdateTimestamps {
                id,
                local_time,
                remote_time,
            },
            Effect::InsertItem { local_path, remote_path, local_time, remote_time } =>
                Effect::InsertItem {
                local_path: local_path@,
                remote_path: remote_path@,
                local_time,
                remote_time,
            },
            Effect::DeleteItem(id) => Effect::DeleteItem(id),
            Effect::DeleteItemByPaths { local_path, remote_path } => Effect::DeleteItemByPaths {
                local_path: local_path@,
                remote_path: remote_path@,
            },
            Effect::CreateParentDirs(path) => Effect::CreateParentDirs(path@),
            Effect::Mkdir(path) => Effect::Mkdir(path@),
            Effect::ProcessDeletionRequests => Effect::ProcessDeletionRequests,
            Effect::CheckOpenRequests => Effect::CheckOpenRequests,
        }
    }
}

/// A modification time in seconds since the Unix epoch, as far as it can be
/// told.
#[derive(Clone, Copy, Debug, PartialEq, Eq, Structural)]
pub enum Reading {
    /// There is nothing to read it from.
    Missing,
    /// There is something, but its time cannot be told.
    Unreadable,
    At(u64),
}

/// One entry of a local directory.
#[derive(Debug, PartialEq, Eq)]
pub enum DirEntry {
    /// Reading the entry failed, with these words.
    Broken(String),
    /// Its name is not valid Unicode; this is how it is shown all the same.
    Nameless(String),
    /// `path` is the path itself where it is valid Unicode, else how it is
    /// shown all the same. `is_dir` is there where the entry's type could be
    /// told, else the words of the failure.
    Named {
        name: String,
        path: Result<String, String>,
        is_dir: Result<bool, String>,
        time: Reading,
    },
}

/// One path found by a glob pattern.
#[derive(Debug, PartialEq, Eq)]
pub enum WalkedPath {
    /// It could not be read.
    Broken,
    At(String),
}

/// What came of a request. The words of a failure are those of the side that
/// failed.
#[derive(Debug, PartialEq, Eq)]
pub enum Reply {
    /// Nothing was asked yet.
    Begin,
    Done(Result<(), String>),
    Flag(bool),
    OnRecord(Result<bool, String>),
    Time(Reading),
    Item(Result<Option<RemoteItem>, String>),
    Items(Result<Vec<RemoteItem>, String>),
    Row(Result<Option<SyncItem>, String>),
    Rows(Result<Vec<SyncItem>, String>),
    Texts(Result<Vec<String>, String>),
    Entries(Result<Vec<DirEntry>, String>),
    /// The paths, where the pattern is valid.
    Walked(Option<Vec<WalkedPath>>),
    Text(Option<String>),
}

/// What a pass does next.
#[derive(Debug, PartialEq, Eq)]
pub enum Next<R, S = String> {
    Ask(Request<S>),
    Done(R),
    /// What came cannot be gone on with.
    Fault,
}

/// What a pass answers to a reply.
#[derive(Debug, PartialEq, Eq)]
pub struct Turn<R> {
    pub effects: Vec<Effect>,
    pub next: Next<R>,
}

/// What a [`Turn`] holds.
#[verifier::ext_equal]
pub struct TurnView<R> {
    pub effects: Seq<Effect<Seq<char>>>,
    pub next: Next<R, Seq<char>>,
}

impl<R> View for Turn<R> {
    type V = TurnView<R>;

    open spec fn view(&self) -> TurnView<R> {
        TurnView {
            effects: text::views(self.effects@),
            next: match self.next {
                Next::Ask(request) => Next::Ask(request@),
                Next::Done(result) => Next::Done(result),
                Next::Fault => Next::Fault,
            },
        }
    }
}

/// Asks without any effect.
pub open spec fn ask<R>(request: Request<Seq<char>>) -> TurnView<R> {
    TurnView { effects: Seq::empty(), next: Next::Ask(request) }
}

/// Asks without any effect.
pub fn asking<R>(request: Request) -> (turn: Turn<R>)
    ensures
        turn@ == ask::<R>(request@),
{
    let turn = Turn { effects: Vec::new(), next: Next::Ask(request) };
    turn
}

/// Gives up without any effect.
pub open spec fn fault<R>() -> TurnView<R> {
    TurnView { effects: Seq::empty(), next: Next::Fault }
}

/// Gives up without any effect.
pub fn faulting<R>() -> (turn: Turn<R>)
    ensures
        turn@ == fault::<R>(),
{
    let turn = Turn { effects: Vec::new(), next: Next::Fault };
    turn
}

/// No effects.
pub fn no_effects() -> (effects: Vec<Effect>)
    ensures
        text::views(effects@) == Seq::<Effect<Seq<char>>>::empty(),
{
    let effects: Vec<Effect> = Vec::new();
    effects
}

/// One effect.
pub fn one_effect(effect: Effect) -> (effects: Vec<Effect>)
    ensures
        text::views(effects@) == seq![effect@],
{
    let mut effects: Vec<Effect> = Vec::new();
    add_effect(&mut effects, effect);
    effects
}

/// One more effect.
pub fn add_effect(effects: &mut Vec<Effect>, effect: Effect)
    ensures
        text::views(final(effects)@) == text::views(old(effects)@).push(effect@),
{
    effects.push(effect);
}

/// The effects that put notices into the log.
pub open spec fn logged(notices: Seq<Notice<Seq<char>>>) -> Seq<Effect<Seq<char>>> {
    notices.map_values(|notice: Notice<Seq<char>>| Effect::Log(notice))
}

/// The effects in `more` behind those in `effects`.
pub fn add_effects(effects: &mut Vec<Effect>, more: Vec<Effect>)
    ensures
        text::views(final(effects)@) == text::views(old(effects)@) + text::views(more@),
{
    let mut rest = more;
    effects.append(&mut rest);
}

/// Each notice becomes one line in the log, in its place.
pub proof fn law_every_notice_is_logged(notices: Seq<Notice<Seq<char>>>, i: int)
    requires
        0 <= i < notices.len(),
    ensures
        logged(notices).len() == notices.len(),
        logged(notices)[i] == Effect::Log(notices[i]),
{
}

/// Asking and giving up have no effects.
pub proof fn law_asking_has_no_effects<R>(request: Request<Seq<char>>)
    ensures
        ask::<R>(request).effects.len() == 0,
        ask::<R>(request).next == Next::<R, Seq<char>>::Ask(request),
        fault::<R>().effects.len() == 0,
        fault::<R>().next == Next::<R, Seq<char>>::Fault,
{
}

} // verus!
