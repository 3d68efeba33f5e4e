//! The values that a sync works on.
//!
//! Each type that holds text has the text's type as a parameter, so that the
//! same type, over sequences of characters, is its own mathematical model.

use vstd::prelude::*;

use crate::auth::{OAuthProvider, WebDavVendor};
use crate::labels::Interval;

verus! {

/// Identifies a remote.
#[derive(Clone, Copy, Debug, PartialEq, Eq, Structural)]
pub struct RemoteId(pub i32);

/// Identifies a synced directory.
#[derive(Clone, Copy, Debug, PartialEq, Eq, Structural)]
pub struct SyncDirId(pub i32);

/// Identifies a recorded item.
#[derive(Clone, Copy, Debug, PartialEq, Eq, Structural)]
pub struct SyncItemId(pub i32);

/// What serves a remote.
#[derive(Clone, Copy, Debug, PartialEq, Eq, Structural)]
pub enum Backend {
    Rclone,
    NativeProton,
}

/// What kind of account a remote is.
#[derive(Clone, Copy, Debug, PartialEq, Eq, Structural)]
pub enum ProviderKind {
    ProtonDrive,
    OAuth(OAuthProvider),
    WebDav(WebDavVendor),
}

/// How a remote is synced.
#[derive(Clone, Copy, Debug, PartialEq, Eq, Structural)]
pub enum SyncPolicy {
    /// As a remote is for which nothing was set.
    Standard,
    /// Enabled, at the interval that the kind of account is best served with.
    SuitedTo(ProviderKind),
    /// At an interval of the user's choice, where it is enabled.
    Chosen { interval: Interval, enabled: bool },
}

impl Default for SyncPolicy {
    fn default() -> (policy: SyncPolicy)
        ensures
            policy == SyncPolicy::Standard,
    {
        SyncPolicy::Standard
    }
}

/// A configured remote. Its kind is there where it is known.
#[derive(Debug, PartialEq, Eq)]
pub struct Remote<S = String> {
    pub id: RemoteId,
    pub name: S,
    pub policy: SyncPolicy,
    pub provider_kind: Option<ProviderKind>,
    pub backend: Backend,
    pub session_path: Option<S>,
}

impl View for Remote<String> {
    type V = Remote<Seq<char>>;

    open spec fn view(&self) -> Remote<Seq<char>> {
        Remote {
            id: self.id,
            name: self.name@,
            policy: self.policy,
            provider_kind: self.provider_kind,
            backend: self.backend,
            session_path: crate::text::opt_view(self.session_path),
        }
    }
}

/// A pair of directories that are kept in step.
#[derive(Debug, PartialEq, Eq)]
pub struct SyncDir<S = String> {
    pub id: SyncDirId,
    pub remote_id: RemoteId,
    pub local_path: S,
    pub remote_path: S,
}

impl View for SyncDir<String> {
    type V = SyncDir<Seq<char>>;

    open spec fn view(&self) -> SyncDir<Seq<char>> {
        SyncDir {
            id: self.id,
            remote_id: self.remote_id,
            local_path: self.local_path@,
            remote_path: self.remote_path@,
        }
    }
}

impl Clone for SyncDir<String> {
    fn clone(&self) -> (copy: Self)
        ensures
            copy@ == self@,
    {
        SyncDir {
            id: self.id,
            remote_id: self.remote_id,
            local_path: self.local_path.clone(),
            remote_path: self.remote_path.clone(),
        }
    }
}

/// What was recorded of an item at its last sync.
#[derive(Debug, PartialEq, Eq)]
pub struct SyncItem<S = String> {
    pub id: SyncItemId,
    pub sync_dir_id: SyncDirId,
    pub local_path: S,
    pub remote_path: S,
    pub last_local_timestamp: i64,
    pub last_remote_timestamp: i64,
}

impl View for SyncItem<String> {
    type V = SyncItem<Seq<char>>;

    open spec fn view(&self) -> SyncItem<Seq<char>> {
        SyncItem {
            id: self.id,
            sync_dir_id: self.sync_dir_id,
            local_path: self.local_path@,
            remote_path: self.remote_path@,
            last_local_timestamp: self.last_local_timestamp,
            last_remote_timestamp: self.last_remote_timestamp,
        }
    }
}

impl Clone for SyncItem<String> {
    fn clone(&self) -> (copy: Self)
        ensures
            copy@ == self@,
    {
        SyncItem {
            id: self.id,
            sync_dir_id: self.sync_dir_id,
            local_path: self.local_path.clone(),
            remote_path: self.remote_path.clone(),
            last_local_timestamp: self.last_local_timestamp,
            last_remote_timestamp: self.last_remote_timestamp,
        }
    }
}

/// An item as a remote shows it. `mod_time` is in seconds since the Unix
/// epoch.
#[derive(Debug, PartialEq, Eq)]
pub struct RemoteItem<S = String> {
    pub is_dir: bool,
    pub path: S,
    pub name: S,
    pub mod_time: i64,
}

impl View for RemoteItem<String> {
    type V = RemoteItem<Seq<char>>;

    open spec fn view(&self) -> RemoteItem<Seq<char>> {
        RemoteItem {
            is_dir: self.is_dir,
            path: self.path@,
            name: self.name@,
            mod_time: self.mod_time,
        }
    }
}

impl Clone for RemoteItem<String> {
    fn clone(&self) -> (copy: Self)
        ensures
            copy@ == self@,
    {
        RemoteItem {
            is_dir: self.is_dir,
            path: self.path.clone(),
            name: self.name.clone(),
            mod_time: self.mod_time,
        }
    }
}

/// Why something failed: the failing side's own words, or a message of ours.
#[derive(Debug, PartialEq, Eq)]
pub enum Reason<S = String> {
    Reported(S),
    RateLimited,
}

impl View for Reason<String> {
    type V = Reason<Seq<char>>;

    open spec fn view(&self) -> Reason<Seq<char>> {
        match *self {
            Reason::Reported(words) => Reason::Reported(words@),
            Reason::RateLimited => Reason::RateLimited,
        }
    }
}

/// What can go wrong with an item.
#[derive(Debug, PartialEq, Eq)]
pub enum SyncError<S = String> {
    /// Something failed at the path.
    General(S, Reason<S>),
    /// The local and the remote item both changed since the last sync.
    BothMoreCurrent(S, S),
}

impl View for SyncError<String> {
    type V = SyncError<Seq<char>>;

    open spec fn view(&self) -> SyncError<Seq<char>> {
        match *self {
            SyncError::General(path, reason) => SyncError::General(path@, reason@),
            SyncError::BothMoreCurrent(local, remote) => SyncError::BothMoreCurrent(
                local@,
                remote@,
            ),
        }
    }
}

/// What a synced directory's pass is doing.
#[derive(Clone, Copy, Debug, PartialEq, Eq, Structural)]
pub enum SyncDirRunState {
    Syncing,
    Warning,
    Error,
    Synced,
}

/// How far a pass has come: the action's number, from one, and their count.
#[derive(Clone, Copy, Debug, PartialEq, Eq, Structural)]
pub struct Progress {
    pub pos: usize,
    pub total: usize,
}

/// A line for the user.
#[derive(Debug, PartialEq, Eq)]
pub enum Message<S = String> {
    SkippedRateLimited,
    SyncFailed,
    SyncCancelled,
    SyncedRateLimited,
    FilesSynced,
    Applying { total: usize, done: usize },
    Examining(S),
    ExaminingRemote(S),
    Uploading(Option<Progress>, S),
    Downloading(Option<Progress>, S),
    RemovingLocally(Option<Progress>, S),
    RemovingOnRemote(Option<Progress>, S),
}

impl View for Message<String> {
    type V = Message<Seq<char>>;

    open spec fn view(&self) -> Message<Seq<char>> {
        match *self {
            Message::SkippedRateLimited => Message::SkippedRateLimited,
            Message::SyncFailed => Message::SyncFailed,
            Message::SyncCancelled => Message::SyncCancelled,
            Message::SyncedRateLimited => Message::SyncedRateLimited,
            Message::FilesSynced => Message::FilesSynced,
            Message::Applying { total, done } => Message::Applying { total, done },
            Message::Examining(path) => Message::Examining(path@),
            Message::ExaminingRemote(path) => Message::ExaminingRemote(path@),
            Message::Uploading(progress, path) => Message::Uploading(progress, path@),
            Message::Downloading(progress, path) => Message::Downloading(progress, path@),
            Message::RemovingLocally(progress, path) => Message::RemovingLocally(progress, path@),
            Message::RemovingOnRemote(progress, path) => Message::RemovingOnRemote(
                progress,
                path@,
            ),
        }
    }
}

/// What a pass tells its listeners.
#[derive(Debug, PartialEq, Eq)]
pub enum SyncEvent<S = String> {
    SyncDirStatus { remote_id: RemoteId, sync_dir_id: SyncDirId, text: Message<S> },
    SyncDirPending { remote_id: RemoteId, sync_dir_id: SyncDirId, text: Message<S> },
    SyncDirError { remote_id: RemoteId, sync_dir_id: SyncDirId, error: SyncError<S> },
    SyncDirStateChanged { remote_id: RemoteId, sync_dir_id: SyncDirId, state: SyncDirRunState },
}

impl View for SyncEvent<String> {
    type V = SyncEvent<Seq<char>>;

    open spec fn view(&self) -> SyncEvent<Seq<char>> {
        match *self {
            SyncEvent::SyncDirStatus { remote_id, sync_dir_id, text } => SyncEvent::SyncDirStatus {
                remote_id,
                sync_dir_id,
                text: text@,
            },
            SyncEvent::SyncDirPending { remote_id, sync_dir_id, text } =>
                SyncEvent::SyncDirPending { remote_id, sync_dir_id, text: text@ },
            SyncEvent::SyncDirError { remote_id, sync_dir_id, error } => SyncEvent::SyncDirError {
                remote_id,
                sync_dir_id,
                error: error@,
            },
            SyncEvent::SyncDirStateChanged { remote_id, sync_dir_id, state } =>
                SyncEvent::SyncDirStateChanged { remote_id, sync_dir_id, state },
        }
    }
}

} // verus!
