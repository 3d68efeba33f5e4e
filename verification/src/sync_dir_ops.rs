//! The per-directory passes under one roof, and the trail that destructive
//! operations leave.

use vstd::prelude::*;

use crate::ops::Destruction;
use crate::text::concat;

pub use crate::domain::SyncError;
pub use crate::editor_temp::is_editor_temp;
pub use crate::ignore::FILE_IGNORE_NAME;
pub use crate::tree::pass::{sync_local_directory, sync_remote_directory};

verus! {

/// What a destruction is called in the log.
pub open spec fn kind_of(kind: Destruction) -> Seq<char> {
    match kind {
        Destruction::MirrorLocal => "mirror-local"@,
        Destruction::MirrorRemote => "mirror-remote"@,
        Destruction::LocalGoneRemoteMatchesRow => "sync_single_path/local-gone-remote-matches-db"@,
        Destruction::PurgeOnTypeMismatch => "purge-on-type-mismatch"@,
        Destruction::LocalDeleteMirroringRemote => "local-delete-mirroring-remote"@,
        Destruction::DeleteRemoteFileOnTypeMismatch => "delete-remote-file-on-type-mismatch"@,
        Destruction::PurgeRemoteDirOnTypeMismatch => "purge-remote-dir-on-type-mismatch"@,
        Destruction::DeleteRemoteMirroringLocal => "delete-remote-mirroring-local"@,
        Destruction::RemoveLocalOnTypeMismatch => "remove-local-on-type-mismatch"@,
    }
}

/// What a destruction is called in the log.
pub fn kind_name(kind: Destruction) -> (name: &'static str)
    ensures
        name@ == kind_of(kind),
{
    match kind {
        Destruction::MirrorLocal => "mirror-local",
        Destruction::MirrorRemote => "mirror-remote",
        Destruction::LocalGoneRemoteMatchesRow => "sync_single_path/local-gone-remote-matches-db",
        Destruction::PurgeOnTypeMismatch => "purge-on-type-mismatch",
        Destruction::LocalDeleteMirroringRemote => "local-delete-mirroring-remote",
        Destruction::DeleteRemoteFileOnTypeMismatch => "delete-remote-file-on-type-mismatch",
        Destruction::PurgeRemoteDirOnTypeMismatch => "purge-remote-dir-on-type-mismatch",
        Destruction::DeleteRemoteMirroringLocal => "delete-remote-mirroring-local",
        Destruction::RemoveLocalOnTypeMismatch => "remove-local-on-type-mismatch",
    }
}

/// The line by which a destructive operation announces itself before it
/// happens, so that incidents leave a trail.
pub fn log_destructive_op(kind: &str, remote_name: &str, path: &str) -> (line: String)
    ensures
        line@ == "sync: DELETE "@ + kind@ + " remote="@ + remote_name@ + " path="@ + path@,
{
    let mut line = concat("sync: DELETE ", kind);
    line.append(" remote=");
    line.append(remote_name);
    line.append(" path=");
    line.append(path);
    line
}

} // verus!
