//! Path-targeted sync: syncs exactly one local path against its remote
//! counterpart, without walking whole trees. A best-effort shortcut for the
//! common "one file changed" case: what it cannot handle cleanly is left for
//! the next full pass.

use vstd::prelude::*;

use crate::domain::{Remote, SyncDir};
use crate::driver;
use crate::driver::{as_whole_turn, Driver, DriverView, Place};
use crate::editor_temp;
use crate::editor_temp::is_editor_temp;
use crate::events::Source;
use crate::ops::Side;
use crate::path_item;
use crate::path_item::{PathItem, PathStage};
use crate::paths;
use crate::paths::{join, relative_to};
use crate::ports::{Next, Reply, Turn, TurnView};
use crate::text;
use crate::text::same;

verus! {

/// What an upload came to.
#[derive(Debug, PartialEq, Eq)]
pub enum PushOutcome {
    Done,
    /// The upload failed because the source had been removed meanwhile.
    SourceRacedAway,
    /// A failure, in the remote's words.
    Failed(String),
}

/// What an upload came to, from what the copy gave and from whether the
/// source is there afterwards. A failed upload whose source is gone is no
/// failure: the removal will be seen on its own.
pub fn push_tolerating_source_race(copied: Result<(), String>, source_exists: bool) -> (outcome:
    PushOutcome)
    ensures
        match copied {
            Ok(_) => outcome is Done,
            Err(words) => if source_exists {
                outcome matches PushOutcome::Failed(told) && told@ == words@
            } else {
                outcome is SourceRacedAway
            },
        },
{
    match copied {
        Ok(_) => PushOutcome::Done,
        Err(words) => {
            if source_exists {
                PushOutcome::Failed(words)
            } else {
                PushOutcome::SourceRacedAway
            }
        },
    }
}

/// The remote path that belongs to a local path inside the synced directory;
/// none for a path outside it, and none for an editor's temp file.
pub open spec fn target(
    local_path: Seq<char>,
    name: Option<Seq<char>>,
    dir: SyncDir<Seq<char>>,
) -> Option<Seq<char>> {
    if name matches Some(own) && editor_temp::editor_temp(own) {
        None
    } else {
        let inside = if local_path == dir.local_path {
            Some(Seq::<char>::empty())
        } else {
            paths::below(local_path, dir.local_path)
        };
        match inside {
            Some(rest) => Some(
                if dir.remote_path.len() == 0 {
                    rest
                } else if rest.len() == 0 {
                    dir.remote_path
                } else {
                    paths::joined(dir.remote_path, rest)
                },
            ),
            None => None,
        }
    }
}

fn target_of(local_path: &str, name: Option<&str>, sync_dir: &SyncDir) -> (path: Option<String>)
    ensures
        text::opt_view(path) == target(local_path@, text::opt_view(name), sync_dir@),
{
    match name {
        Some(own) => {
            if is_editor_temp(own) {
                return None;
            }
        },
        None => {},
    }
    let inside = if same(local_path, sync_dir.local_path.as_str()) {
        proof {
            reveal_strlit("");
        }
        let rest = "".to_owned();
        Some(rest)
    } else {
        relative_to(local_path, sync_dir.local_path.as_str())
    };
    match inside {
        Some(rest) => {
            if sync_dir.remote_path.as_str().unicode_len() == 0 {
                Some(rest)
            } else if rest.as_str().unicode_len() == 0 {
                Some(sync_dir.remote_path.clone())
            } else {
                Some(join(sync_dir.remote_path.as_str(), rest.as_str()))
            }
        },
        None => None,
    }
}

/// Syncs one local path.
pub struct PathPass {
    pub target: Option<Driver<PathItem>>,
}

impl View for PathPass {
    type V = Option<DriverView<PathItem>>;

    open spec fn view(&self) -> Option<DriverView<PathItem>> {
        text::opt_view(self.target)
    }
}

/// Where a single path is synced.
pub open spec fn place_of(
    local_path: Seq<char>,
    remote_path: Seq<char>,
    remote: Remote<Seq<char>>,
    dir: SyncDir<Seq<char>>,
) -> Place<Seq<char>> {
    Place {
        source: Source { remote_id: remote.id, sync_dir_id: dir.id },
        local_path,
        remote_path,
        progress: None,
        seen_on: Side::Local,
    }
}

/// Syncs a single local path, which must sit inside `sync_dir.local_path`;
/// `name` is the last component of the path, where it has one. Other paths
/// and editors' temp files are ignored, and so are directories: their child
/// events already cover the files.
pub fn sync_single_path(
    path: &str,
    name: Option<&str>,
    remote: &Remote,
    sync_dir: &SyncDir,
) -> (pass: PathPass)
    ensures
        pass@ == match target(path@, text::opt_view(name), sync_dir@) {
            Some(remote_path) => Some(
                DriverView::<PathItem>::fresh(
                    place_of(path@, remote_path, remote@, sync_dir@),
                    path_item::at(PathStage::Start),
                ),
            ),
            None => None,
        },
{
    match target_of(path, name, sync_dir) {
        Some(remote_path) => {
            let place = Place {
                source: Source { remote_id: remote.id, sync_dir_id: sync_dir.id },
                local_path: path.to_owned(),
                remote_path,
                progress: None,
                seen_on: Side::Local,
            };
            PathPass { target: Some(Driver::new(place, PathItem::new())) }
        },
        None => PathPass { target: None },
    }
}

impl PathPass {
    /// Takes in a reply, [`Reply::Begin`] at first.
    pub fn step(&mut self, reply: Reply) -> (turn: Turn<()>)
        ensures
            match old(self)@ {
                Some(driver) => {
                    &&& final(self)@ == Some(driver.next(reply).0)
                    &&& turn@ == driver::whole_turn(driver.next(reply).1)
                },
                None => {
                    &&& final(self)@ is None
                    &&& turn@ == (TurnView { effects: Seq::empty(), next: Next::Done(()) })
                },
            },
    {
        match &mut self.target {
            Some(driver) => as_whole_turn(driver.step(reply)),
            None => {
                let turn = Turn { effects: Vec::new(), next: Next::Done(()) };
                turn
            },
        }
    }
}

/// A path outside the synced directory is never touched.
pub proof fn law_outside_paths_are_ignored(
    local_path: Seq<char>,
    name: Option<Seq<char>>,
    dir: SyncDir<Seq<char>>,
)
    requires
        !paths::within(local_path, dir.local_path),
    ensures
        target(local_path, name, dir) is None,
{
}

/// An editor's temp file is never touched.
pub proof fn law_temp_files_are_ignored(
    local_path: Seq<char>,
    name: Seq<char>,
    dir: SyncDir<Seq<char>>,
)
    requires
        editor_temp::editor_temp(name),
    ensures
        target(local_path, Some(name), dir) is None,
{
}

} // verus!
