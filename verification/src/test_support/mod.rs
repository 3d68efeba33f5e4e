//! Scaffolding for tests.
//!
//! - [`FakeRepo`]: the recorded rows, in memory.
//! - [`FakeBackend`]: a remote whose every answer can be set, path by path,
//!   so that interruptions can be played through without a network.

use vstd::prelude::*;

use crate::domain::{Backend, Remote, RemoteId, RemoteItem, SyncDir, SyncDirId, SyncPolicy};
use crate::paths;
use crate::paths::name_of;

pub mod fake_backend;
pub mod fake_repository;

pub use fake_backend::FakeBackend;
pub use fake_repository::FakeRepo;

verus! {

/// [`FakeBackend`] under the name of what it most often stands for.
pub type FakeRclone = FakeBackend;

/// A remote with the given id and name, for which nothing else was set.
pub fn remote(id: i32, name: &str) -> (made: Remote)
    ensures
        made@ == (Remote {
            id: RemoteId(id),
            name: name@,
            policy: SyncPolicy::Standard,
            provider_kind: None,
            backend: Backend::Rclone,
            session_path: None,
        }),
{
    Remote {
        id: RemoteId(id),
        name: name.to_owned(),
        policy: SyncPolicy::default(),
        provider_kind: None,
        backend: Backend::Rclone,
        session_path: None,
    }
}

/// A synced directory.
pub fn sync_dir(id: i32, remote_id: i32, local_path: &str, remote_path: &str) -> (made: SyncDir)
    ensures
        made@ == (SyncDir {
            id: SyncDirId(id),
            remote_id: RemoteId(remote_id),
            local_path: local_path@,
            remote_path: remote_path@,
        }),
{
    SyncDir {
        id: SyncDirId(id),
        remote_id: RemoteId(remote_id),
        local_path: local_path.to_owned(),
        remote_path: remote_path.to_owned(),
    }
}

/// A remote item with the given Unix timestamp, which lies in the years
/// -9999 to 9999.
pub fn remote_item(path: &str, is_dir: bool, unix_ts: i64) -> (made: RemoteItem)
    requires
        -377_705_116_800 <= unix_ts <= 253_402_300_799,
    ensures
        made@ == (RemoteItem {
            is_dir,
            path: path@,
            name: paths::last_part(path@),
            mod_time: unix_ts,
        }),
{
    RemoteItem { is_dir, path: path.to_owned(), name: name_of(path), mod_time: unix_ts }
}

} // verus!
