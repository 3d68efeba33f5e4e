//! What the passes leave in the log, so that an incident can be traced
//! without having to be reproduced.

use vstd::prelude::*;

use crate::text;
use crate::text::{concat, write_decimal};

verus! {

/// Something worth a line in the log. `key` is the path on the remote that
/// belongs to a local one, `words` are those of the side that failed.
#[derive(Debug, PartialEq, Eq)]
pub enum Notice<S = String> {
    /// A local directory could not be read.
    UnreadDir { path: S, key: S, words: S },
    /// An entry of the local directory `path` could not be read.
    UnreadEntry { path: S, key: S, words: S },
    /// The name of an entry of the local directory `path` is not valid
    /// Unicode; `raw` is how it is shown all the same.
    UnreadName { path: S, key: S, raw: S },
    /// The type of a local entry could not be told.
    UnknownType { path: S, key: S, words: S },
    /// The path of a local entry is not valid Unicode.
    UnreadPath { path: S, key: S },
    /// The synced directory does not exist on the remote.
    MissingRoot { path: S, words: S },
    /// The provider limited the rate of requests while it listed.
    SlowedListing,
    /// The remote could not be listed.
    FailedListing { words: S },
    /// The provider limited the rate of requests while a plan was applied.
    SlowedApply,
    /// An upload failed because its source vanished meanwhile.
    VanishedSource { path: S, words: S },
    /// A deletion is not mirrored: the remote still lists the item.
    StillListed { path: S },
    /// A local copy stays: the listing showed nothing beside it.
    KeptLocal { path: S, parent: S },
    /// A file changed since the last sync is uploaded in place of being
    /// removed.
    Swapped { path: S, local_time: i64, recorded: i64 },
    /// A remote copy stays: the walk failed on the way to it.
    KeptUnwalked { path: S },
    /// A remote copy stays: the walk found nothing beside it.
    KeptRemote { path: S, parent: S },
}

impl View for Notice<String> {
    type V = Notice<Seq<char>>;

    open spec fn view(&self) -> Notice<Seq<char>> {
        match *self {
            Notice::UnreadDir { path, key, words } => Notice::UnreadDir {
                path: path@,
                key: key@,
                words: words@,
            },
            Notice::UnreadEntry { path, key, words } => Notice::UnreadEntry {
                path: path@,
                key: key@,
                words: words@,
            },
            Notice::UnreadName { path, key, raw } => Notice::UnreadName {
                path: path@,
                key: key@,
                raw: raw@,
            },
            Notice::UnknownType { path, key, words } => Notice::UnknownType {
                path: path@,
                key: key@,
                words: words@,
            },
            Notice::UnreadPath { path, key } => Notice::UnreadPath { path: path@, key: key@ },
            Notice::MissingRoot { path, words } => Notice::MissingRoot {
                path: path@,
                words: words@,
            },
            Notice::SlowedListing => Notice::SlowedListing,
            Notice::FailedListing { words } => Notice::FailedListing { words: words@ },
            Notice::SlowedApply => Notice::SlowedApply,
            Notice::VanishedSource { path, words } => Notice::VanishedSource {
                path: path@,
                words: words@,
            },
            Notice::StillListed { path } => Notice::StillListed { path: path@ },
            Notice::KeptLocal { path, parent } => Notice::KeptLocal {
                path: path@,
                parent: parent@,
            },
            Notice::Swapped { path, local_time, recorded } => Notice::Swapped {
                path: path@,
                local_time,
                recorded,
            },
            Notice::KeptUnwalked { path } => Notice::KeptUnwalked { path: path@ },
            Notice::KeptRemote { path, parent } => Notice::KeptRemote {
                path: path@,
                parent: parent@,
            },
        }
    }
}

impl Notice<Seq<char>> {
    /// The line in the log, for a pass on the remote of that name.
    pub open spec fn shown(self, remote: Seq<char>) -> Seq<char> {
        match self {
            Notice::UnreadDir { path, key, words } => "sync: walk read_dir failed for '"@ + path
                + "' (key='"@ + key + "'): "@ + words + "; marking subtree unreliable."@,
            Notice::UnreadEntry { path, key, words } =>
                "sync: walk entry iteration failed under '"@ + path + "' (key='"@ + key + "'): "@
                + words + "; marking subtree unreliable."@,
            Notice::UnreadName { path, raw, .. } => "sync: walk file_name non-UTF8 under '"@ + path
                + "' (bytes="@ + raw + "); marking subtree unreliable."@,
            Notice::UnknownType { path, key, words } => "sync: walk file_type failed for '"@ + path
                + "' (key='"@ + key + "'): "@ + words + "; marking entry unreliable."@,
            Notice::UnreadPath { path, key } => "sync: walk path non-UTF8 for '"@ + path
                + "' (key='"@ + key + "'); marking entry unreliable."@,
            Notice::MissingRoot { path, words } => "sync: remote dir '"@ + path
                + "' missing for remote='"@ + remote + "' ("@ + words
                + "); recreating and proceeding with empty listing."@,
            Notice::SlowedListing => "sync: DEGRADED for '"@ + remote
                + "' — rate-limit warnings observed during listing; skipping this pass for backoff."@,
            Notice::FailedListing { words } => "sync: list failed for "@ + remote + ": "@ + words,
            Notice::SlowedApply => "sync: pass for '"@ + remote
                + "' completed but rate-limit warnings surfaced during apply; flagging Degraded for backoff."@,
            Notice::VanishedSource { path, words } =>
                "sync: copy_to_remote raced with local delete for '"@ + path + "' — swallowing '"@
                + words + "'."@,
            Notice::StillListed { path } =>
                "sync: ABORT local-delete-mirroring-remote remote="@ + remote + " path="@ + path
                + " — stat returned None but list shows the file is still present (rclone cache race)."@,
            Notice::KeptLocal { path, parent } => "sync: SKIP DeleteLocal for '"@ + path
                + "' — listing enumerated no entries under '"@ + parent
                + "' (likely rate-limited / cache flush); preserving local copy."@,
            Notice::Swapped { path, local_time, recorded } =>
                "sync: SWAP DeleteLocal → Upload for '"@ + path + "' — local mtime "@
                + text::decimal(local_time as int) + " newer than last synced "@
                + text::decimal(recorded as int)
                + " (likely failed upload cleanup); retrying upload."@,
            Notice::KeptUnwalked { path } => "sync: SKIP DeleteRemote for '"@ + path
                + "' — local walk reported an error on this path or an ancestor; preserving remote copy."@,
            Notice::KeptRemote { path, parent } => "sync: SKIP DeleteRemote for '"@ + path
                + "' — walk found no entries under '"@ + parent
                + "' (likely concurrent-write race); preserving remote copy."@,
        }
    }
}

fn pieced(start: &str, path: &str, middle: &str, rest: &str, end: &str) -> (line: String)
    ensures
        line@ == start@ + path@ + middle@ + rest@ + end@,
{
    let mut line = concat(start, path);
    line.append(middle);
    line.append(rest);
    line.append(end);
    line
}

fn keyed(start: &str, path: &str, key: &str, words: &str, end: &str) -> (line: String)
    ensures
        line@ == start@ + path@ + "' (key='"@ + key@ + "'): "@ + words@ + end@,
{
    let mut line = pieced(start, path, "' (key='", key, "'): ");
    line.append(words);
    line.append(end);
    line
}

impl Notice<String> {
    /// The line in the log, for a pass on the remote of that name.
    pub fn line(&self, remote_name: &str) -> (line: String)
        ensures
            line@ == self@.shown(remote_name@),
    {
        match self {
            Notice::UnreadDir { path, key, words } => keyed(
                "sync: walk read_dir failed for '",
                path.as_str(),
                key.as_str(),
                words.as_str(),
                "; marking subtree unreliable.",
            ),
            Notice::UnreadEntry { path, key, words } => keyed(
                "sync: walk entry iteration failed under '",
                path.as_str(),
                key.as_str(),
                words.as_str(),
                "; marking subtree unreliable.",
            ),
            Notice::UnreadName { path, raw, .. } => pieced(
                "sync: walk file_name non-UTF8 under '",
                path.as_str(),
                "' (bytes=",
                raw.as_str(),
                "); marking subtree unreliable.",
            ),
            Notice::UnknownType { path, key, words } => keyed(
                "sync: walk file_type failed for '",
                path.as_str(),
                key.as_str(),
                words.as_str(),
                "; marking entry unreliable.",
            ),
            Notice::UnreadPath { path, key } => pieced(
                "sync: walk path non-UTF8 for '",
                path.as_str(),
                "' (key='",
                key.as_str(),
                "'); marking entry unreliable.",
            ),
            Notice::MissingRoot { path, words } => {
                let mut line = pieced(
                    "sync: remote dir '",
                    path.as_str(),
                    "' missing for remote='",
                    remote_name,
                    "' (",
                );
                line.append(words.as_str());
                line.append("); recreating and proceeding with empty listing.");
                line
            },
            Notice::SlowedListing => {
                let mut line = concat("sync: DEGRADED for '", remote_name);
                line.append(
                    "' — rate-limit warnings observed during listing; skipping this pass for backoff.",
                );
                line
            },
            Notice::FailedListing { words } => {
                let mut line = concat("sync: list failed for ", remote_name);
                line.append(": ");
                line.append(words.as_str());
                line
            },
            Notice::SlowedApply => {
                let mut line = concat("sync: pass for '", remote_name);
                line.append(
                    "' completed but rate-limit warnings surfaced during apply; flagging Degraded for backoff.",
                );
                line
            },
            Notice::VanishedSource { path, words } => pieced(
                "sync: copy_to_remote raced with local delete for '",
                path.as_str(),
                "' — swallowing '",
                words.as_str(),
                "'.",
            ),
            Notice::StillListed { path } => pieced(
                "sync: ABORT local-delete-mirroring-remote remote=",
                remote_name,
                " path=",
                path.as_str(),
                " — stat returned None but list shows the file is still present (rclone cache race).",
            ),
            Notice::KeptLocal { path, parent } => pieced(
                "sync: SKIP DeleteLocal for '",
                path.as_str(),
                "' — listing enumerated no entries under '",
                parent.as_str(),
                "' (likely rate-limited / cache flush); preserving local copy.",
            ),
            Notice::Swapped { path, local_time, recorded } => {
                let now = write_decimal(*local_time);
                let earlier = write_decimal(*recorded);
                let mut line = pieced(
                    "sync: SWAP DeleteLocal → Upload for '",
                    path.as_str(),
                    "' — local mtime ",
                    now.as_str(),
                    " newer than last synced ",
                );
                line.append(earlier.as_str());
                line.append(" (likely failed upload cleanup); retrying upload.");
                line
            },
            Notice::KeptUnwalked { path } => {
                let mut line = concat("sync: SKIP DeleteRemote for '", path.as_str());
                line.append(
                    "' — local walk reported an error on this path or an ancestor; preserving remote copy.",
                );
                line
            },
            Notice::KeptRemote { path, parent } => pieced(
                "sync: SKIP DeleteRemote for '",
                path.as_str(),
                "' — walk found no entries under '",
                parent.as_str(),
                "' (likely concurrent-write race); preserving remote copy.",
            ),
        }
    }
}

} // verus!
