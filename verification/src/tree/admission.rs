//! Which entries a pass over a tree looks at, and under which paths.

use vstd::prelude::*;

use crate::domain::{RemoteItem, SyncDir};
use crate::editor_temp;
use crate::editor_temp::is_editor_temp;
use crate::item_laws::ItemMachine;
use crate::ops::{Answer, AnswerView, Fact, RemoteFact};
use crate::paths;
use crate::paths::{join, relative_to};
use crate::ports::DirEntry;
use crate::text;
use crate::text::{contains_char, strip_prefix, trim_front_slashes};
use crate::tree::local_item::{LocalItem, LocalStage};
use crate::tree::remote_item::{RemoteEntry, RemoteStage};

verus! {

/// The machine for an entry of either side.
#[derive(Clone, Copy, Debug, PartialEq, Eq, Structural)]
pub enum TreeItem {
    Local(LocalItem),
    Remote(RemoteEntry),
}

impl ItemMachine for TreeItem {
    open spec fn after(self, fact: Fact) -> (TreeItem, AnswerView) {
        match self {
            TreeItem::Local(item) => (TreeItem::Local(item.next(fact).0), item.next(fact).1),
            TreeItem::Remote(item) => (TreeItem::Remote(item.next(fact).0), item.next(fact).1),
        }
    }

    open spec fn quiet(self) -> bool {
        match self {
            TreeItem::Local(item) => item.quiet(),
            TreeItem::Remote(item) => item.quiet(),
        }
    }

    open spec fn armed(self) -> bool {
        match self {
            TreeItem::Local(item) => item.armed(),
            TreeItem::Remote(item) => item.armed(),
        }
    }

    open spec fn over(self) -> bool {
        match self {
            TreeItem::Local(item) => item.over(),
            TreeItem::Remote(item) => item.over(),
        }
    }

    open spec fn rank(self) -> nat {
        match self {
            TreeItem::Local(item) => item.rank(),
            TreeItem::Remote(item) => item.rank(),
        }
    }

    fn step(&mut self, fact: Fact) -> (answer: Answer) {
        match self {
            TreeItem::Local(item) => item.step(fact),
            TreeItem::Remote(item) => item.step(fact),
        }
    }

    proof fn quiet_stays(self, fact: Fact) {
        match self {
            TreeItem::Local(item) => item.quiet_stays(fact),
            TreeItem::Remote(item) => item.quiet_stays(fact),
        }
    }

    proof fn failure_quiets(self, fact: Fact, outcome: Fact) {
        match self {
            TreeItem::Local(item) => item.failure_quiets(fact, outcome),
            TreeItem::Remote(item) => item.failure_quiets(fact, outcome),
        }
    }

    proof fn arms_first(self, fact: Fact) {
        match self {
            TreeItem::Local(item) => item.arms_first(fact),
            TreeItem::Remote(item) => item.arms_first(fact),
        }
    }

    proof fn rank_falls(self, fact: Fact) {
        match self {
            TreeItem::Local(item) => item.rank_falls(fact),
            TreeItem::Remote(item) => item.rank_falls(fact),
        }
    }
}

/// An entry that is looked at.
pub struct Candidate<S = String> {
    pub local_path: S,
    pub remote_path: S,
    /// What the ignore patterns are held against.
    pub glob_text: S,
    pub machine: TreeItem,
}

impl View for Candidate<String> {
    type V = Candidate<Seq<char>>;

    open spec fn view(&self) -> Candidate<Seq<char>> {
        Candidate {
            local_path: self.local_path@,
            remote_path: self.remote_path@,
            glob_text: self.glob_text@,
            machine: self.machine,
        }
    }
}

/// What becomes of an entry.
pub enum Admission<S = String> {
    /// It is passed over.
    Skip,
    /// It could not be read, with these words.
    Broken(S),
    /// It cannot be gone on with.
    Fault,
    Item(Candidate<S>),
}

impl View for Admission<String> {
    type V = Admission<Seq<char>>;

    open spec fn view(&self) -> Admission<Seq<char>> {
        match *self {
            Admission::Skip => Admission::Skip,
            Admission::Broken(words) => Admission::Broken(words@),
            Admission::Fault => Admission::Fault,
            Admission::Item(candidate) => Admission::Item(candidate@),
        }
    }
}

/// A text without one slash at its end.
pub open spec fn without_slash(path: Seq<char>) -> Seq<char> {
    if path.len() > 0 && path.last() == '/' {
        path.drop_last()
    } else {
        path
    }
}

fn strip_slash(path: &str) -> (stripped: String)
    ensures
        stripped@ == without_slash(path@),
{
    let total: usize = path.unicode_len();
    if total > 0 && path.get_char(total - 1) == '/' {
        let stripped = path.substring_char(0, total - 1).to_owned();
        assert(stripped@ =~= path@.drop_last());
        stripped
    } else {
        path.to_owned()
    }
}

/// What becomes of an entry of a local directory. The remote path is the
/// local one with the remote root in place of the local root; patterns are
/// held against the remote path, without its root where the root holds a
/// slash.
pub open spec fn admit_local(entry: DirEntry, dir: SyncDir<Seq<char>>) -> Admission<Seq<char>> {
    match entry {
        DirEntry::Broken(words) => Admission::Broken(words@),
        DirEntry::Nameless(_) => Admission::Fault,
        DirEntry::Named { name, path, is_dir, .. } => match path {
            Err(_) => Admission::Fault,
            Ok(local_path) => if editor_temp::editor_temp(name@) {
                Admission::Skip
            } else {
                match paths::below(local_path@, dir.local_path) {
                    None => Admission::Fault,
                    Some(rest) => {
                        let inside = without_slash(rest);
                        let remote_path = if dir.remote_path.len() == 0 {
                            inside
                        } else {
                            paths::joined(dir.remote_path, inside)
                        };
                        Admission::Item(
                            Candidate {
                                local_path: local_path@,
                                remote_path,
                                glob_text: if dir.remote_path.contains('/') {
                                    inside
                                } else {
                                    remote_path
                                },
                                machine: TreeItem::Local(
                                    LocalItem {
                                        is_dir: is_dir.ok(),
                                        time: 0,
                                        remote: None,
                                        row: None,
                                        stage: LocalStage::Start,
                                    },
                                ),
                            },
                        )
                    },
                }
            },
        },
    }
}

/// What becomes of an entry of a local directory.
pub fn admits_local(entry: &DirEntry, sync_dir: &SyncDir) -> (result: Admission)
    ensures
        result@ == admit_local(*entry, sync_dir@),
{
    match entry {
        DirEntry::Broken(words) => Admission::Broken(words.clone()),
        DirEntry::Nameless(_) => Admission::Fault,
        DirEntry::Named { name, path, is_dir, .. } => match path {
            Err(_) => Admission::Fault,
            Ok(local_path) => {
                if is_editor_temp(name.as_str()) {
                    return Admission::Skip;
                }
                match relative_to(local_path.as_str(), sync_dir.local_path.as_str()) {
                    None => Admission::Fault,
                    Some(rest) => {
                        let inside = strip_slash(rest.as_str());
                        let remote_path = if sync_dir.remote_path.as_str().unicode_len() == 0 {
                            inside.clone()
                        } else {
                            join(sync_dir.remote_path.as_str(), inside.as_str())
                        };
                        let glob_text = if contains_char(sync_dir.remote_path.as_str(), '/') {
                            inside
                        } else {
                            remote_path.clone()
                        };
                        let is_dir: Option<bool> = match is_dir {
                            Ok(flag) => Some(*flag),
                            Err(_) => None,
                        };
                        Admission::Item(
                            Candidate {
                                local_path: local_path.clone(),
                                remote_path,
                                glob_text,
                                machine: TreeItem::Local(LocalItem::new(is_dir)),
                            },
                        )
                    },
                }
            },
        },
    }
}

/// The local path of a listed item: what stands behind the remote root, or
/// the whole path where the root does not stand there, without slashes at
/// its front, below the local root.
pub open spec fn local_path_of(path: Seq<char>, dir: SyncDir<Seq<char>>) -> Seq<char> {
    let behind = match text::after_prefix(path, dir.remote_path) {
        Some(rest) => rest,
        None => path,
    };
    let relative = text::without_front_slashes(behind);
    if relative.len() == 0 {
        dir.local_path
    } else {
        paths::joined(dir.local_path, relative)
    }
}

/// What becomes of an item of a remote directory.
pub open spec fn admit_remote(item: RemoteItem, dir: SyncDir<Seq<char>>) -> Admission<Seq<char>> {
    if editor_temp::editor_temp(item.name@) {
        Admission::Skip
    } else {
        Admission::Item(
            Candidate {
                local_path: local_path_of(item.path@, dir),
                remote_path: item.path@,
                glob_text: item.path@,
                machine: TreeItem::Remote(
                    RemoteEntry {
                        remote: RemoteFact { is_dir: item.is_dir, time: item.mod_time },
                        time: None,
                        row: None,
                        stage: RemoteStage::Start,
                    },
                ),
            },
        )
    }
}

/// What becomes of an item of a remote directory.
pub fn admits_remote(item: &RemoteItem, sync_dir: &SyncDir) -> (result: Admission)
    ensures
        result@ == admit_remote(*item, sync_dir@),
{
    if is_editor_temp(item.name.as_str()) {
        return Admission::Skip;
    }
    let behind = match strip_prefix(item.path.as_str(), sync_dir.remote_path.as_str()) {
        Some(rest) => rest,
        None => item.path.clone(),
    };
    let relative = trim_front_slashes(behind.as_str());
    let local_path = if relative.as_str().unicode_len() == 0 {
        sync_dir.local_path.clone()
    } else {
        join(sync_dir.local_path.as_str(), relative.as_str())
    };
    Admission::Item(
        Candidate {
            local_path,
            remote_path: item.path.clone(),
            glob_text: item.path.clone(),
            machine: TreeItem::Remote(
                RemoteEntry::new(RemoteFact { is_dir: item.is_dir, time: item.mod_time }),
            ),
        },
    )
}

/// A directory entry and the remote item that belongs to it lead to the same
/// pair of paths: what the pass over the local tree synced, the pass over the
/// remote tree recognises. `inside` is the entry's path below the local root.
pub proof fn law_both_sides_name_an_item_alike(
    entry: DirEntry,
    item: RemoteItem,
    dir: SyncDir<Seq<char>>,
    inside: Seq<char>,
)
    requires
        admit_local(entry, dir) is Item,
        admit_remote(item, dir) is Item,
        entry matches DirEntry::Named { path: Ok(path), .. } && path@ == paths::joined(
            dir.local_path,
            inside,
        ),
        inside.len() > 0,
        inside[0] != '/',
        inside.last() != '/',
        item.path@ == admit_local(entry, dir)->Item_0.remote_path,
    ensures
        admit_remote(item, dir)->Item_0.local_path == admit_local(entry, dir)->Item_0.local_path,
        admit_remote(item, dir)->Item_0.remote_path == admit_local(entry, dir)->Item_0.remote_path,
{
    let path = item.path@;
    paths::lemma_below(path, dir.local_path);
    assert(paths::below(paths::joined(dir.local_path, inside), dir.local_path) == Some(inside));
    if dir.remote_path.len() == 0 {
        assert(dir.remote_path.is_prefix_of(path));
        assert(path.skip(0) =~= path);
    } else {
        assert(path == paths::joined(dir.remote_path, inside));
        assert(dir.remote_path =~= path.subrange(0, dir.remote_path.len() as int));
        let rest = path.skip(dir.remote_path.len() as int);
        assert(rest[0] == '/');
        assert(rest.drop_first() =~= inside);
        reveal_with_fuel(text::without_front, 3);
    }
}

} // verus!
