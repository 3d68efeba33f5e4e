//! The events of one synced directory.

use vstd::prelude::*;

use crate::domain::{
    Message, RemoteId, SyncDirId, SyncDirRunState, SyncError, SyncEvent,
};
use crate::ports::Effect;

verus! {

/// The synced directory that events are about.
#[derive(Clone, Copy, Debug, PartialEq, Eq, Structural)]
pub struct Source {
    pub remote_id: RemoteId,
    pub sync_dir_id: SyncDirId,
}

impl Source {
    /// Reports an error.
    pub open spec fn error(self, error: SyncError<Seq<char>>) -> Effect<Seq<char>> {
        Effect::Emit(
            SyncEvent::SyncDirError {
                remote_id: self.remote_id,
                sync_dir_id: self.sync_dir_id,
                error,
            },
        )
    }

    /// Sets the status line.
    pub open spec fn status(self, text: Message<Seq<char>>) -> Effect<Seq<char>> {
        Effect::Emit(
            SyncEvent::SyncDirStatus {
                remote_id: self.remote_id,
                sync_dir_id: self.sync_dir_id,
                text,
            },
        )
    }

    /// Sets the pending line.
    pub open spec fn pending(self, text: Message<Seq<char>>) -> Effect<Seq<char>> {
        Effect::Emit(
            SyncEvent::SyncDirPending {
                remote_id: self.remote_id,
                sync_dir_id: self.sync_dir_id,
                text,
            },
        )
    }

    /// Tells what the pass is doing.
    pub open spec fn state(self, state: SyncDirRunState) -> Effect<Seq<char>> {
        Effect::Emit(
            SyncEvent::SyncDirStateChanged {
                remote_id: self.remote_id,
                sync_dir_id: self.sync_dir_id,
                state,
            },
        )
    }

    /// Reports an error.
    pub fn error_event(&self, error: SyncError) -> (effect: Effect)
        ensures
            effect@ == self.error(error@),
    {
        Effect::Emit(
            SyncEvent::SyncDirError {
                remote_id: self.remote_id,
                sync_dir_id: self.sync_dir_id,
                error,
            },
        )
    }

    /// Sets the status line.
    pub fn status_event(&self, text: Message) -> (effect: Effect)
        ensures
            effect@ == self.status(text@),
    {
        Effect::Emit(
            SyncEvent::SyncDirStatus {
                remote_id: self.remote_id,
                sync_dir_id: self.sync_dir_id,
                text,
            },
        )
    }

    /// Sets the pending line.
    pub fn pending_event(&self, text: Message) -> (effect: Effect)
        ensures
            effect@ == self.pending(text@),
    {
        Effect::Emit(
            SyncEvent::SyncDirPending {
                remote_id: self.remote_id,
                sync_dir_id: self.sync_dir_id,
                text,
            },
        )
    }

    /// Tells what the pass is doing.
    pub fn state_event(&self, state: SyncDirRunState) -> (effect: Effect)
        ensures
            effect@ == self.state(state),
    {
        Effect::Emit(
            SyncEvent::SyncDirStateChanged {
                remote_id: self.remote_id,
                sync_dir_id: self.sync_dir_id,
                state,
            },
        )
    }
}

/// Every event is about the directory that it comes from, and says what it was
/// given to say.
pub proof fn law_events_name_their_directory(
    source: Source,
    error: SyncError<Seq<char>>,
    text: Message<Seq<char>>,
    state: SyncDirRunState,
)
    ensures
        ({
            let (remote_id, sync_dir_id) = (source.remote_id, source.sync_dir_id);
            &&& source.error(error) == Effect::Emit(
                SyncEvent::SyncDirError { remote_id, sync_dir_id, error },
            )
            &&& source.status(text) == Effect::Emit(
                SyncEvent::SyncDirStatus { remote_id, sync_dir_id, text },
            )
            &&& source.pending(text) == Effect::Emit(
                SyncEvent::SyncDirPending { remote_id, sync_dir_id, text },
            )
            &&& source.state(state) == Effect::Emit(
                SyncEvent::<Seq<char>>::SyncDirStateChanged { remote_id, sync_dir_id, state },
            )
        }),
{
}

} // verus!
