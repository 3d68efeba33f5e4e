//! The passes, run against rows, a remote and a file tree in memory.

use std::cell::RefCell;
use std::collections::BTreeMap;

use celeste_sync::domain::{
    Message, Progress, Reason, Remote, RemoteItem, SyncDir, SyncDirId, SyncDirRunState, SyncError,
    SyncEvent,
};
use celeste_sync::notices::Notice;
use celeste_sync::ops::Destruction;
use celeste_sync::ports::{DirEntry, Effect, Next, Reading, Reply, Request, Turn, WalkedPath};
use celeste_sync::should_sync::{should_sync, ChangeCheck};
use celeste_sync::sync;
use celeste_sync::sync::summary::PlanSummary;
use celeste_sync::sync::{Outcome, SyncPass};
use celeste_sync::sync_dir_ops::{sync_local_directory, sync_remote_directory};
use celeste_sync::sync_dir_pass;
use celeste_sync::sync_dir_pass::DirPass;
use celeste_sync::sync_path::{
    push_tolerating_source_race, sync_single_path, PathPass, PushOutcome,
};
use celeste_sync::test_support::fake_backend::StatAnswer;
use celeste_sync::test_support::{
    remote, remote_item, sync_dir, FakeBackend, FakeRclone, FakeRepo,
};
use celeste_sync::tree::pass::TreePass;

// A file tree in memory

#[derive(Clone, Debug)]
enum Node {
    File { mtime: u64, contents: String },
    Dir { readable: bool, mtime: u64 },
}

/// A scratch directory.
struct TempDir {
    path: String,
    tree: RefCell<BTreeMap<String, Node>>,
}

fn parent(path: &str) -> Option<&str> {
    path.rsplit_once('/').map(|(front, _)| front)
}

impl TempDir {
    fn new(tag: &str) -> TempDir {
        let path = format!("/tmp/celeste_test_{tag}");
        let mut tree = BTreeMap::new();
        tree.insert(path.clone(), Node::Dir { readable: true, mtime: 0 });
        TempDir { path, tree: RefCell::new(tree) }
    }

    fn as_str(&self) -> &str {
        &self.path
    }

    fn write_file(&self, rel: &str, contents: &str) -> String {
        let full = format!("{}/{rel}", self.path);
        self.make_dirs(parent(&full).unwrap());
        let node = Node::File { mtime: 0, contents: contents.to_owned() };
        self.tree.borrow_mut().insert(full.clone(), node);
        full
    }

    fn make_dirs(&self, path: &str) {
        if path.is_empty() || self.is_there(path) {
            return;
        }
        if let Some(up) = parent(path) {
            self.make_dirs(up);
        }
        self.tree.borrow_mut().insert(path.to_owned(), Node::Dir { readable: true, mtime: 0 });
    }

    fn lock(&self, path: &str) {
        self.tree.borrow_mut().insert(path.to_owned(), Node::Dir { readable: false, mtime: 0 });
    }

    /// A path can be looked at where every directory above it can be read.
    fn node(&self, path: &str) -> Option<Node> {
        let tree = self.tree.borrow();
        let mut above = parent(path);
        while let Some(up) = above {
            if let Some(Node::Dir { readable: false, .. }) = tree.get(up) {
                return None;
            }
            above = parent(up);
        }
        tree.get(path).cloned()
    }

    fn is_there(&self, path: &str) -> bool {
        self.node(path).is_some()
    }

    fn is_dir(&self, path: &str) -> bool {
        matches!(self.node(path), Some(Node::Dir { .. }))
    }

    fn time(&self, path: &str) -> Reading {
        match self.node(path) {
            Some(Node::File { mtime, .. }) => Reading::At(mtime),
            Some(Node::Dir { mtime, .. }) => Reading::At(mtime),
            None => Reading::Missing,
        }
    }

    fn below(&self, path: &str) -> Vec<String> {
        let front = format!("{path}/");
        let tree = self.tree.borrow();
        tree.keys().filter(|held| held.starts_with(&front)).cloned().collect()
    }

    fn read_dir(&self, path: &str) -> Result<Vec<DirEntry>, String> {
        match self.node(path) {
            Some(Node::Dir { readable: true, .. }) => {},
            Some(_) => return Err("permission denied".to_owned()),
            None => return Err("no such file or directory".to_owned()),
        }
        let front = format!("{path}/");
        let mut entries = Vec::new();
        for held in self.below(path) {
            let name = held[front.len()..].to_owned();
            if !name.contains('/') {
                entries.push(DirEntry::Named {
                    name,
                    is_dir: Ok(self.is_dir(&held)),
                    time: self.time(&held),
                    path: Ok(held),
                });
            }
        }
        Ok(entries)
    }

    fn remove_file(&self, path: &str) -> Result<(), String> {
        match self.node(path) {
            Some(Node::File { .. }) => {
                self.tree.borrow_mut().remove(path);
                Ok(())
            },
            Some(_) => Err("is a directory".to_owned()),
            None => Err("no such file or directory".to_owned()),
        }
    }

    fn remove_dir_all(&self, path: &str) -> Result<(), String> {
        if !self.is_dir(path) {
            return Err("not a directory".to_owned());
        }
        for held in self.below(path) {
            self.tree.borrow_mut().remove(&held);
        }
        self.tree.borrow_mut().remove(path);
        Ok(())
    }

    fn create_dir(&self, path: &str) -> Result<(), String> {
        if self.is_there(path) {
            return Err("file exists".to_owned());
        }
        self.make_dirs(path);
        Ok(())
    }

    fn contents(&self, path: &str) -> Option<String> {
        match self.node(path) {
            Some(Node::File { contents, .. }) => Some(contents),
            _ => None,
        }
    }
}

fn touch_mtime(tmp: &TempDir, path: &str, unix_ts: u64) {
    match tmp.tree.borrow_mut().get_mut(path) {
        Some(Node::File { mtime, .. }) => *mtime = unix_ts,
        Some(Node::Dir { mtime, .. }) => *mtime = unix_ts,
        None => {},
    }
}

// Runs a pass

struct World<'a> {
    tmp: &'a TempDir,
    repo: &'a mut FakeRepo,
    client: &'a mut FakeBackend,
    cancelled: bool,
    rate_limited: bool,
    /// The probe answers as told only from this one on.
    quiet_probes: usize,
    /// Local files that vanish as soon as an upload of them is tried.
    vanishing: bool,
    exclusions: Vec<String>,
    events: Vec<SyncEvent>,
    destructions: Vec<(Destruction, String)>,
    plans: Vec<PlanSummary>,
    notices: Vec<Notice>,
}

impl<'a> World<'a> {
    fn new(tmp: &'a TempDir, repo: &'a mut FakeRepo, client: &'a mut FakeBackend) -> World<'a> {
        World {
            tmp,
            repo,
            client,
            cancelled: false,
            rate_limited: false,
            quiet_probes: 0,
            vanishing: false,
            exclusions: vec![],
            events: vec![],
            destructions: vec![],
            plans: vec![],
            notices: vec![],
        }
    }

    fn carry_out(&mut self, effect: Effect) {
        match effect {
            Effect::Emit(event) => self.events.push(event),
            Effect::LogDestructive { kind, path } => self.destructions.push((kind, path)),
            Effect::LogPlan(summary) => self.plans.push(summary),
            Effect::Log(notice) => self.notices.push(notice),
            Effect::UpdateTimestamps { id, local_time, remote_time } => {
                self.repo.update_sync_item_timestamps(id, local_time, remote_time)
            },
            Effect::InsertItem { local_path, remote_path, local_time, remote_time } => {
                self.repo.insert_sync_item(
                    SyncDirId(1),
                    local_path,
                    remote_path,
                    local_time,
                    remote_time,
                )
            },
            Effect::DeleteItem(id) => self.repo.delete_sync_item(id),
            Effect::DeleteItemByPaths { local_path, remote_path } => {
                self.repo.delete_sync_item_by_paths(SyncDirId(1), &local_path, &remote_path)
            },
            Effect::CreateParentDirs(path) => {
                if let Some(up) = parent(&path) {
                    self.tmp.make_dirs(up);
                }
            },
            Effect::Mkdir(path) => {
                let _ = self.client.mkdir(&path);
            },
            Effect::ProcessDeletionRequests | Effect::CheckOpenRequests => {},
        }
    }

    fn answer(&mut self, request: Request) -> Reply {
        let sd = SyncDirId(1);
        match request {
            Request::ListExclusions => Reply::Texts(Ok(self.exclusions.clone())),
            Request::ListSyncItems => Reply::Rows(Ok(self.repo.list_sync_items(sd))),
            Request::FindByPaths { local_path, remote_path } => {
                Reply::Row(Ok(self.repo.find_sync_item_by_paths(sd, &local_path, &remote_path)))
            },
            Request::FindByLocal(path) => {
                Reply::Row(Ok(self.repo.find_sync_item_by_local(sd, &path)))
            },
            Request::FindByRemote(path) => {
                Reply::Row(Ok(self.repo.find_sync_item_by_remote(sd, &path)))
            },
            Request::SyncDirExists => Reply::OnRecord(Ok(self.repo.sync_dir_exists)),
            Request::List { path, .. } => Reply::Items(self.client.list(&path)),
            Request::Stat(path) => Reply::Item(self.client.stat(&path)),
            Request::Mkdir(path) => Reply::Done(self.client.mkdir(&path)),
            Request::DeleteFile(path) => Reply::Done(self.client.delete_file(&path)),
            Request::Purge(path) => Reply::Done(self.client.purge(&path)),
            Request::CopyToRemote { local_path, remote_path } => {
                if self.vanishing {
                    let _ = self.tmp.remove_file(&local_path);
                }
                Reply::Done(self.client.copy_to_remote(&local_path, &remote_path))
            },
            Request::CopyToLocal { local_path, remote_path } => {
                Reply::Done(self.client.copy_to_local(&local_path, &remote_path))
            },
            Request::ReadDir(path) => Reply::Entries(self.tmp.read_dir(&path)),
            Request::Walk(pattern) => {
                let root = pattern.strip_suffix("/**/*").unwrap();
                let found = self.tmp.below(root);
                Reply::Walked(Some(found.into_iter().map(WalkedPath::At).collect()))
            },
            Request::LocalTime(path) | Request::EntryTime(path) | Request::OpenTime(path) => {
                Reply::Time(self.tmp.time(&path))
            },
            Request::Exists(path) => Reply::Flag(self.tmp.is_there(&path)),
            Request::IsDir(path) => Reply::Flag(self.tmp.is_dir(&path)),
            Request::CreateDir(path) => Reply::Done(self.tmp.create_dir(&path)),
            Request::CreateDirAll(path) => {
                self.tmp.make_dirs(&path);
                Reply::Done(Ok(()))
            },
            Request::RemoveDirAll(path) => Reply::Done(self.tmp.remove_dir_all(&path)),
            Request::RemoveFile(path) => Reply::Done(self.tmp.remove_file(&path)),
            Request::ReadIgnoreFile(path) => Reply::Text(self.tmp.contents(&path)),
            Request::IsCancelled => Reply::Flag(self.cancelled),
            Request::RateLimitSeen => {
                let limited = self.rate_limited && self.quiet_probes == 0;
                self.quiet_probes = self.quiet_probes.saturating_sub(1);
                Reply::Flag(limited)
            },
        }
    }

    fn drive<P: Pass>(&mut self, mut pass: P) -> P::Out {
        let mut reply = Reply::Begin;
        loop {
            let turn = pass.advance(reply);
            for effect in turn.effects {
                self.carry_out(effect);
            }
            reply = match turn.next {
                Next::Ask(request) => self.answer(request),
                Next::Done(out) => return out,
                Next::Fault => panic!("the pass cannot go on"),
            };
        }
    }

    fn errors(&self) -> Vec<&SyncError> {
        errors(&self.events)
    }

    fn states(&self) -> Vec<SyncDirRunState> {
        self.events
            .iter()
            .filter_map(|e| match e {
                SyncEvent::SyncDirStateChanged { state, .. } => Some(*state),
                _ => None,
            })
            .collect()
    }

    fn lines(&self) -> Vec<&Message> {
        self.events
            .iter()
            .filter_map(|e| match e {
                SyncEvent::SyncDirStatus { text, .. } => Some(text),
                _ => None,
            })
            .collect()
    }

    fn pending(&self) -> Vec<&Message> {
        self.events
            .iter()
            .filter_map(|e| match e {
                SyncEvent::SyncDirPending { text, .. } => Some(text),
                _ => None,
            })
            .collect()
    }
}

trait Pass {
    type Out;
    fn advance(&mut self, reply: Reply) -> Turn<Self::Out>;
}

impl Pass for SyncPass {
    type Out = Outcome;
    fn advance(&mut self, reply: Reply) -> Turn<Outcome> {
        self.step(reply)
    }
}

impl Pass for DirPass {
    type Out = sync_dir_pass::Outcome;
    fn advance(&mut self, reply: Reply) -> Turn<sync_dir_pass::Outcome> {
        self.step(reply)
    }
}

impl Pass for TreePass {
    type Out = ();
    fn advance(&mut self, reply: Reply) -> Turn<()> {
        self.step(reply)
    }
}

impl Pass for PathPass {
    type Out = ();
    fn advance(&mut self, reply: Reply) -> Turn<()> {
        self.step(reply)
    }
}

impl Pass for ChangeCheck {
    type Out = bool;
    fn advance(&mut self, reply: Reply) -> Turn<bool> {
        self.step(reply)
    }
}

fn pair(tmp: &TempDir) -> (Remote, SyncDir) {
    (remote(1, "TestRemote"), sync_dir(1, 1, tmp.as_str(), ""))
}

fn errors(events: &[SyncEvent]) -> Vec<&SyncError> {
    events
        .iter()
        .filter_map(|e| match e {
            SyncEvent::SyncDirError { error, .. } => Some(error),
            _ => None,
        })
        .collect()
}

fn run_full(
    tmp: &TempDir,
    repo: &mut FakeRepo,
    client: &mut FakeBackend,
) -> (Outcome, Vec<SyncEvent>) {
    let (r, sd) = pair(tmp);
    let mut world = World::new(tmp, repo, client);
    let outcome = world.drive(sync::run(&r, &sd, vec![]));
    (outcome, world.events)
}

fn run_local_sync(tmp: &TempDir, repo: &mut FakeRepo, client: &mut FakeRclone) -> Vec<SyncEvent> {
    let (r, sd) = pair(tmp);
    let mut world = World::new(tmp, repo, client);
    world.drive(sync_local_directory(tmp.as_str(), &r, &sd, vec![]));
    world.events
}

fn run_remote_sync(
    tmp: &TempDir,
    repo: &mut FakeRepo,
    client: &mut FakeRclone,
    remote_items_in_root: Vec<RemoteItem>,
) -> Vec<SyncEvent> {
    let (r, sd) = pair(tmp);
    client.set_list("", Ok(remote_items_in_root));
    let mut world = World::new(tmp, repo, client);
    world.drive(sync_remote_directory("", &r, &sd, vec![]));
    world.events
}

fn run_path(
    path: &str,
    tmp: &TempDir,
    repo: &mut FakeRepo,
    client: &mut FakeRclone,
) -> Vec<SyncEvent> {
    let (r, sd) = pair(tmp);
    let name = path.rsplit_once('/').map(|(_, name)| name);
    let mut world = World::new(tmp, repo, client);
    world.drive(sync_single_path(path, name, &r, &sd));
    world.events
}

fn check(tmp: &TempDir, repo: &mut FakeRepo, client: &mut FakeRclone) -> bool {
    let (r, sd) = pair(tmp);
    World::new(tmp, repo, client).drive(should_sync(&r, &sd))
}

// The whole pass

#[test]
fn snapshot_aborts_when_list_fails() {
    let tmp = TempDir::new("sync_list_err");
    let local = tmp.write_file("a.txt", "hi");
    touch_mtime(&tmp, &local, 1_700_000_000);
    let mut repo = FakeRepo::new();
    repo.insert_item(
        SyncDirId(1),
        &local,
        "a.txt",
        1_700_000_000,
        1_700_000_000,
    );

    let mut client = FakeBackend::default();
    client.set_list("", Err("connection reset".to_owned()));

    let (outcome, _events) = run_full(&tmp, &mut repo, &mut client);
    assert_eq!(outcome, Outcome::Aborted);
    assert!(tmp.is_there(&local));
    assert_eq!(repo.item_count(), 1);
}

#[test]
fn steady_state_produces_no_actions() {
    let tmp = TempDir::new("sync_steady");
    let local = tmp.write_file("a.txt", "v1");
    touch_mtime(&tmp, &local, 1_700_000_000);
    let mut repo = FakeRepo::new();
    repo.insert_item(
        SyncDirId(1),
        &local,
        "a.txt",
        1_700_000_000,
        1_700_000_000,
    );

    let mut client = FakeBackend::default();
    client.set_list("", Ok(vec![remote_item("a.txt", false, 1_700_000_000)]));

    let (outcome, events) = run_full(&tmp, &mut repo, &mut client);
    assert_eq!(outcome, Outcome::Synced);
    assert!(errors(&events).is_empty());
    assert!(client.copy_to_remote_calls.is_empty());
    assert!(client.copy_to_local_calls.is_empty());
    assert!(client.delete_file_calls.is_empty());
    assert!(tmp.is_there(&local));
}

#[test]
fn local_deleted_mirrors_to_remote() {
    let tmp = TempDir::new("sync_local_del");
    let mut repo = FakeRepo::new();
    let local_path = format!("{}/gone.txt", tmp.as_str());
    repo.insert_item(
        SyncDirId(1),
        &local_path,
        "gone.txt",
        1_700_000_000,
        1_700_000_000,
    );

    let mut client = FakeBackend::default();
    client.set_list("", Ok(vec![remote_item("gone.txt", false, 1_700_000_000)]));

    let (outcome, _events) = run_full(&tmp, &mut repo, &mut client);
    assert_eq!(outcome, Outcome::Synced);
    assert_eq!(client.delete_file_calls.len(), 1);
    assert!(!repo.has_item(&local_path, "gone.txt"));
}

#[test]
fn remote_deleted_mirrors_locally() {
    let tmp = TempDir::new("sync_remote_del");
    let local = tmp.write_file("gone.txt", "v1");
    touch_mtime(&tmp, &local, 1_700_000_000);
    let mut repo = FakeRepo::new();
    repo.insert_item(
        SyncDirId(1),
        &local,
        "gone.txt",
        1_700_000_000,
        1_700_000_000,
    );

    let mut client = FakeBackend::default();
    client.set_list("", Ok(vec![]));

    let (outcome, _events) = run_full(&tmp, &mut repo, &mut client);
    assert_eq!(outcome, Outcome::Synced);
    assert!(!tmp.is_there(&local));
    assert!(!repo.has_item(&local, "gone.txt"));
}

#[test]
fn both_sides_changed_remote_newer_downloads() {
    let tmp = TempDir::new("sync_conflict_remote_newer");
    let local = tmp.write_file("a.txt", "v2");
    touch_mtime(&tmp, &local, 1_700_000_500);
    let mut repo = FakeRepo::new();
    repo.insert_item(
        SyncDirId(1),
        &local,
        "a.txt",
        1_700_000_000,
        1_700_000_000,
    );

    let mut client = FakeBackend::default();
    client.set_list("", Ok(vec![remote_item("a.txt", false, 1_700_000_700)]));

    let (outcome, events) = run_full(&tmp, &mut repo, &mut client);
    assert_eq!(outcome, Outcome::Synced);
    assert!(
        !errors(&events)
            .iter()
            .any(|e| matches!(e, SyncError::BothMoreCurrent(..))),
        "newer-mtime resolution should not emit BothMoreCurrent",
    );
    let downloads = &client.copy_to_local_calls;
    assert_eq!(
        downloads.len(),
        1,
        "expected exactly one download, got {downloads:?}",
    );
    assert!(
        client.copy_to_remote_calls.is_empty(),
        "should not upload when remote is newer",
    );
}

#[test]
fn both_sides_changed_local_newer_uploads() {
    let tmp = TempDir::new("sync_conflict_local_newer");
    let local = tmp.write_file("a.txt", "v2");
    touch_mtime(&tmp, &local, 1_700_000_900);
    let mut repo = FakeRepo::new();
    repo.insert_item(
        SyncDirId(1),
        &local,
        "a.txt",
        1_700_000_000,
        1_700_000_000,
    );

    let mut client = FakeBackend::default();
    client.set_list("", Ok(vec![remote_item("a.txt", false, 1_700_000_700)]));

    let (outcome, events) = run_full(&tmp, &mut repo, &mut client);
    assert_eq!(outcome, Outcome::Synced);
    assert!(
        !errors(&events)
            .iter()
            .any(|e| matches!(e, SyncError::BothMoreCurrent(..))),
        "newer-mtime resolution should not emit BothMoreCurrent",
    );
    let uploads = &client.copy_to_remote_calls;
    assert_eq!(
        uploads.len(),
        1,
        "expected exactly one upload, got {uploads:?}",
    );
    assert_eq!(uploads[0].1, "a.txt", "uploaded the wrong remote path");
    assert!(
        client.copy_to_local_calls.is_empty(),
        "should not download when local is newer",
    );
}

#[test]
fn upload_swallows_source_gone_race() {
    let tmp = TempDir::new("sync_upload_race");
    let local = tmp.write_file("a.txt", "hi");
    touch_mtime(&tmp, &local, 1_700_000_000);
    let mut repo = FakeRepo::new();
    let mut client = FakeBackend::default();
    client.set_list("", Ok(vec![]));
    // The source is removed before the pass begins.
    tmp.remove_file(&local).unwrap();
    let (outcome, events) = run_full(&tmp, &mut repo, &mut client);
    assert_eq!(outcome, Outcome::Synced);
    assert!(client.copy_to_remote_calls.is_empty());
    assert!(errors(&events).is_empty());
}

#[test]
fn cancellation_between_snapshot_and_apply_stops_the_pass() {
    let tmp = TempDir::new("sync_cancel");
    let mut repo = FakeRepo::new();
    // Seed a DB row and no local file → plan would normally emit a
    // DeleteRemote, but we cancel first.
    let local_path = format!("{}/doomed.txt", tmp.as_str());
    repo.insert_item(
        SyncDirId(1),
        &local_path,
        "doomed.txt",
        1_700_000_000,
        1_700_000_000,
    );

    let mut client = FakeBackend::default();
    client.set_list(
        "",
        Ok(vec![remote_item("doomed.txt", false, 1_700_000_000)]),
    );

    let (r, sd) = pair(&tmp);
    let mut world = World::new(&tmp, &mut repo, &mut client);
    world.cancelled = true;
    let outcome = world.drive(sync::run(&r, &sd, vec![]));

    assert_eq!(outcome, Outcome::Aborted);
    assert!(
        client.delete_file_calls.is_empty(),
        "no remote deletes must fire when cancelled",
    );
    assert!(
        repo.has_item(&local_path, "doomed.txt"),
        "DB row must survive a cancelled pass",
    );
}

#[test]
fn rate_limit_probe_short_circuits_to_degraded() {
    let tmp = TempDir::new("sync_rate_limit_probe");
    let local = tmp.write_file("a.txt", "hi");
    touch_mtime(&tmp, &local, 1_700_000_000);
    let mut repo = FakeRepo::new();
    repo.insert_item(
        SyncDirId(1),
        &local,
        "a.txt",
        1_700_000_000,
        1_700_000_000,
    );

    let mut client = FakeBackend::default();
    // Listing is fine on its own — it's the probe that flags the pass.
    client.set_list("", Ok(vec![]));

    let (r, sd) = pair(&tmp);
    let mut world = World::new(&tmp, &mut repo, &mut client);
    world.rate_limited = true;
    let outcome = world.drive(sync::run(&r, &sd, vec![]));

    assert_eq!(outcome, Outcome::Degraded);
    assert!(tmp.is_there(&local), "local copy must survive degraded pass");
    assert!(
        repo.has_item(&local, "a.txt"),
        "DB row must survive degraded pass",
    );
    assert!(
        client.delete_file_calls.is_empty(),
        "no remote deletes may fire on a degraded pass",
    );
}

#[test]
fn delete_local_skipped_when_parent_listing_has_no_db_siblings() {
    let tmp = TempDir::new("sync_pd_listing_partial");
    // Five tracked siblings under "dir/" — all present locally, all
    // present in the DB, but the listing returns none of them (but
    // still enough root-level items to pass the global 2/3 threshold).
    let mut locals: Vec<String> = Vec::new();
    for i in 0..5 {
        let p = tmp.write_file(&format!("dir/file_{i}.txt"), "x");
        touch_mtime(&tmp, &p, 1_700_000_000);
        locals.push(p);
    }
    // Root-level padding so the global threshold (listing >= 2/3 of db)
    // still passes — isolates the per-parent check.
    let mut roots: Vec<String> = Vec::new();
    for i in 0..20 {
        let p = tmp.write_file(&format!("root_{i}.txt"), "r");
        touch_mtime(&tmp, &p, 1_700_000_000);
        roots.push(p);
    }

    let mut repo = FakeRepo::new();
    for (i, p) in locals.iter().enumerate() {
        repo.insert_item(
            SyncDirId(1),
            &p,
            &format!("dir/file_{i}.txt"),
            1_700_000_000,
            1_700_000_000,
        );
    }
    for (i, p) in roots.iter().enumerate() {
        repo.insert_item(
            SyncDirId(1),
            &p,
            &format!("root_{i}.txt"),
            1_700_000_000,
            1_700_000_000,
        );
    }

    let mut client = FakeBackend::default();
    // Listing: all root files present, NONE of the dir/ siblings
    // present (rate-limit returned an empty subfolder).
    let mut listing = Vec::new();
    for i in 0..20 {
        listing.push(remote_item(&format!("root_{i}.txt"), false, 1_700_000_000));
    }
    client.set_list("", Ok(listing));

    let (outcome, _events) = run_full(&tmp, &mut repo, &mut client);
    assert_eq!(outcome, Outcome::Synced, "global threshold should pass");
    // None of the dir/ files should have been removed locally.
    for p in &locals {
        assert!(
            tmp.is_there(p),
            "local file must survive a listing missing all DB siblings: {p}",
        );
    }
    // Their DB rows must stick around for the next pass.
    for (i, p) in locals.iter().enumerate() {
        assert!(
            repo.has_item(&p, &format!("dir/file_{i}.txt")),
            "DB row for dir/file_{i}.txt must survive",
        );
    }
}

#[test]
fn delete_local_still_fires_with_visible_sibling() {
    let tmp = TempDir::new("sync_pd_sibling_visible");
    let gone = tmp.write_file("dir/gone.txt", "x");
    let sibling = tmp.write_file("dir/kept.txt", "y");
    touch_mtime(&tmp, &gone, 1_700_000_000);
    touch_mtime(&tmp, &sibling, 1_700_000_000);

    let mut repo = FakeRepo::new();
    repo.insert_item(
        SyncDirId(1),
        &gone,
        "dir/gone.txt",
        1_700_000_000,
        1_700_000_000,
    );
    repo.insert_item(
        SyncDirId(1),
        &sibling,
        "dir/kept.txt",
        1_700_000_000,
        1_700_000_000,
    );

    let mut client = FakeBackend::default();
    // Listing has the sibling but not the deleted file.
    client.set_list(
        "",
        Ok(vec![remote_item("dir/kept.txt", false, 1_700_000_000)]),
    );

    let (outcome, _events) = run_full(&tmp, &mut repo, &mut client);
    assert_eq!(outcome, Outcome::Synced);
    assert!(!tmp.is_there(&gone), "legit delete must mirror locally");
    assert!(tmp.is_there(&sibling), "unaffected sibling must survive");
    assert!(!repo.has_item(&gone, "dir/gone.txt"));
    assert!(repo.has_item(&sibling, "dir/kept.txt"));
}

#[test]
fn delete_local_fires_when_listing_replaced_under_parent() {
    let tmp = TempDir::new("sync_pd_mass_replace");
    let old_a = tmp.write_file("dir/old_a.txt", "x");
    let old_b = tmp.write_file("dir/old_b.txt", "y");
    touch_mtime(&tmp, &old_a, 1_700_000_000);
    touch_mtime(&tmp, &old_b, 1_700_000_000);

    let mut repo = FakeRepo::new();
    repo.insert_item(
        SyncDirId(1),
        &old_a,
        "dir/old_a.txt",
        1_700_000_000,
        1_700_000_000,
    );
    repo.insert_item(
        SyncDirId(1),
        &old_b,
        "dir/old_b.txt",
        1_700_000_000,
        1_700_000_000,
    );

    let mut client = FakeBackend::default();
    // Listing: different content under the same parent — none of the
    // DB-tracked files survive, but two new ones are present. A true
    // rate-limit glitch would return zero items under dir/.
    client.set_list(
        "",
        Ok(vec![
            remote_item("dir/new_a.txt", false, 1_700_000_000),
            remote_item("dir/new_b.txt", false, 1_700_000_000),
        ]),
    );

    let (outcome, _events) = run_full(&tmp, &mut repo, &mut client);
    assert_eq!(outcome, Outcome::Synced);
    assert!(
        !tmp.is_there(&old_a),
        "old DB-tracked file must be removed locally when listing enumerates the parent",
    );
    assert!(
        !tmp.is_there(&old_b),
        "second old DB-tracked file must be removed locally",
    );
    assert!(!repo.has_item(&old_a, "dir/old_a.txt"));
    assert!(!repo.has_item(&old_b, "dir/old_b.txt"));
}

#[test]
fn delete_remote_skipped_when_parent_walk_has_no_db_siblings() {
    let tmp = TempDir::new("sync_pd_walk_partial");
    // The DB has five siblings under "dir/" and 20 at root, but the
    // walk sees none of the dir/ siblings (e.g. Syncthing just wiped
    // that subtree mid-pass). The listing still has everything.
    let mut repo = FakeRepo::new();
    for i in 0..5 {
        let local_path = format!("{}/dir/file_{i}.txt", tmp.as_str());
        repo.insert_item(
            SyncDirId(1),
            &local_path,
            &format!("dir/file_{i}.txt"),
            1_700_000_000,
            1_700_000_000,
        );
    }
    // Root-level padding passes the global threshold.
    let mut roots: Vec<String> = Vec::new();
    for i in 0..20 {
        let p = tmp.write_file(&format!("root_{i}.txt"), "r");
        touch_mtime(&tmp, &p, 1_700_000_000);
        repo.insert_item(
            SyncDirId(1),
            &p,
            &format!("root_{i}.txt"),
            1_700_000_000,
            1_700_000_000,
        );
        roots.push(p);
    }

    let mut client = FakeBackend::default();
    let mut listing = Vec::new();
    for i in 0..20 {
        listing.push(remote_item(&format!("root_{i}.txt"), false, 1_700_000_000));
    }
    for i in 0..5 {
        listing.push(remote_item(&format!("dir/file_{i}.txt"), false, 1_700_000_000));
    }
    client.set_list("", Ok(listing));

    let (outcome, _events) = run_full(&tmp, &mut repo, &mut client);
    assert_eq!(outcome, Outcome::Synced);
    assert!(
        client.delete_file_calls.is_empty(),
        "no remote deletes must fire when walk has no DB siblings under the parent",
    );
    assert!(
        client.purge_calls.is_empty(),
        "no remote purges must fire either",
    );
    // DB rows under dir/ must survive for the next pass.
    for i in 0..5 {
        let local_path = format!("{}/dir/file_{i}.txt", tmp.as_str());
        assert!(
            repo.has_item(&local_path, &format!("dir/file_{i}.txt")),
            "DB row for dir/file_{i}.txt must survive",
        );
    }
}

#[test]
fn walk_read_dir_error_blocks_delete_remote_under_subtree() {
    let tmp = TempDir::new("sync_walk_err");
    // Layout: one healthy file at root, one unreadable subtree with a
    // tracked child. The unreadable subtree is the simulation of the
    // failure mode.
    let healthy = tmp.write_file("ok.txt", "x");
    touch_mtime(&tmp, &healthy, 1_700_000_000);
    let trapped_dir = tmp.write_file("trap/child.txt", "x");
    touch_mtime(&tmp, &trapped_dir, 1_700_000_000);
    tmp.lock(&format!("{}/{}", tmp.as_str(), "trap"));

    let mut repo = FakeRepo::new();
    repo.insert_item(
        SyncDirId(1),
        &healthy,
        "ok.txt",
        1_700_000_000,
        1_700_000_000,
    );
    repo.insert_item(
        SyncDirId(1),
        &trapped_dir,
        "trap/child.txt",
        1_700_000_000,
        1_700_000_000,
    );

    let mut client = FakeBackend::default();
    client.set_list(
        "",
        Ok(vec![
            remote_item("ok.txt", false, 1_700_000_000),
            remote_item("trap", true, 1_700_000_000),
            remote_item("trap/child.txt", false, 1_700_000_000),
        ]),
    );

    let (outcome, _events) = run_full(&tmp, &mut repo, &mut client);
    assert_eq!(outcome, Outcome::Synced);
    assert!(
        client.delete_file_calls.is_empty(),
        "no file deletes may fire while the walk reported an error on the subtree",
    );
    assert!(
        client.purge_calls.is_empty(),
        "no directory purges may fire either",
    );
    assert!(
        repo.has_item(&trapped_dir, "trap/child.txt"),
        "DB row for trapped child must survive the pass",
    );
}

#[test]
fn editor_swap_files_are_not_seen() {
    let tmp = TempDir::new("sync_swap");
    let real = tmp.write_file("doc.txt", "v1");
    touch_mtime(&tmp, &real, 1_700_000_000);
    let swap = tmp.write_file(".doc.txt.kate-swp", "tmp");
    touch_mtime(&tmp, &swap, 1_700_000_000);

    let mut repo = FakeRepo::new();
    let mut client = FakeBackend::default();
    client.set_list("", Ok(vec![remote_item("doc.txt", false, 1_700_000_000)]));
    // doc.txt is brand new (no DB row); expected action: record it.
    // Stat after upsert returns the same item.
    client.set_stat(
        "doc.txt",
        Ok(Some(remote_item("doc.txt", false, 1_700_000_000))),
    );

    let (outcome, events) = run_full(&tmp, &mut repo, &mut client);
    assert_eq!(outcome, Outcome::Synced);
    assert!(errors(&events).is_empty());
    // No upload for the swap file.
    assert!(client.copy_to_remote_calls.is_empty());
}

// The tree passes

#[test]
fn list_verify_aborts_delete_when_stat_disagrees_with_list() {
    let tmp = TempDir::new("stat_lies");
    let local = tmp.write_file("important.pdf", "real data");
    touch_mtime(&tmp, &local, 1_700_000_000);

    let mut repo = FakeRepo::new();
    repo.insert_item(
        SyncDirId(1),
        &local,
        "important.pdf",
        1_700_000_000,
        1_700_000_000,
    );

    let mut client = FakeRclone::default();
    client.set_stat("important.pdf", Ok(None));
    client.set_list("", Ok(vec![remote_item("important.pdf", false, 1_700_000_000)]));

    let _ = run_local_sync(&tmp, &mut repo, &mut client);

    assert!(
        tmp.is_there(&local),
        "file must not be deleted locally when list confirms it's still on the remote",
    );
    assert!(
        repo.has_item(&local, "important.pdf"),
        "DB row must be preserved when the delete is aborted",
    );
    assert!(
        client.delete_file_calls.is_empty(),
        "no remote delete_file should have fired",
    );
}

#[test]
fn list_verify_allows_delete_when_stat_and_list_agree() {
    let tmp = TempDir::new("stat_truthful");
    let local = tmp.write_file("gone.txt", "doomed");
    touch_mtime(&tmp, &local, 1_700_000_000);

    let mut repo = FakeRepo::new();
    repo.insert_item(
        SyncDirId(1),
        &local,
        "gone.txt",
        1_700_000_000,
        1_700_000_000,
    );

    let mut client = FakeRclone::default();
    client.set_stat("gone.txt", Ok(None));
    client.set_list("", Ok(vec![])); // empty listing confirms it's really gone

    let _ = run_local_sync(&tmp, &mut repo, &mut client);

    assert!(!tmp.is_there(&local), "file must be deleted locally");
    assert!(
        !repo.has_item(&local, "gone.txt"),
        "DB row must be removed",
    );
}

#[test]
fn stat_error_does_not_delete_local_or_touch_db() {
    let tmp = TempDir::new("stat_err");
    let local = tmp.write_file("keep.pdf", "still here");
    touch_mtime(&tmp, &local, 1_700_000_000);

    let mut repo = FakeRepo::new();
    repo.insert_item(
        SyncDirId(1),
        &local,
        "keep.pdf",
        1_700_000_000,
        1_700_000_000,
    );

    let mut client = FakeRclone::default();
    client.set_stat("keep.pdf", Err("connection reset".to_owned()));

    let events = run_local_sync(&tmp, &mut repo, &mut client);

    assert!(tmp.is_there(&local), "file must survive a stat failure");
    assert_eq!(
        repo.item_count(),
        1,
        "DB row must not be touched on stat failure",
    );
    assert!(
        !errors(&events).is_empty(),
        "a SyncDirError event must be emitted on stat failure",
    );
}

#[test]
fn copy_to_remote_error_leaves_db_timestamps_unchanged() {
    let tmp = TempDir::new("upload_err");
    let local = tmp.write_file("doc.txt", "local v2");
    touch_mtime(&tmp, &local, 1_700_000_100); // newer than db

    let mut repo = FakeRepo::new();
    repo.insert_item(
        SyncDirId(1),
        &local,
        "doc.txt",
        1_700_000_000, // older db local_ts → local is newer → push
        1_700_000_000,
    );

    let mut client = FakeRclone::default();
    client.set_stat("doc.txt", Ok(Some(remote_item("doc.txt", false, 1_700_000_000))));
    client.set_copy_to_remote(Err("connection reset".to_owned()));

    let events = run_local_sync(&tmp, &mut repo, &mut client);

    let row = repo.items.iter().find(|it| it.remote_path == "doc.txt").unwrap();
    assert_eq!(
        row.last_local_timestamp, 1_700_000_000,
        "local_ts must not advance on failed upload",
    );
    assert_eq!(
        row.last_remote_timestamp, 1_700_000_000,
        "remote_ts must not advance on failed upload",
    );
    assert!(
        !errors(&events).is_empty(),
        "a SyncDirError event must be emitted on failed upload",
    );
}

#[test]
fn copy_to_local_error_leaves_db_timestamps_unchanged() {
    let tmp = TempDir::new("download_err");
    let local = tmp.write_file("doc.txt", "local v1");
    touch_mtime(&tmp, &local, 1_700_000_000);

    let mut repo = FakeRepo::new();
    repo.insert_item(
        SyncDirId(1),
        &local,
        "doc.txt",
        1_700_000_000,
        1_700_000_000, // old db remote_ts → remote newer → pull
    );

    let mut client = FakeRclone::default();
    client.set_stat(
        "doc.txt",
        Ok(Some(remote_item("doc.txt", false, 1_700_000_500))),
    );
    client.set_copy_to_local(Err("connection reset".to_owned()));

    let events = run_local_sync(&tmp, &mut repo, &mut client);

    let row = repo.items.iter().find(|it| it.remote_path == "doc.txt").unwrap();
    assert_eq!(
        row.last_remote_timestamp, 1_700_000_000,
        "remote_ts must not advance on failed download",
    );
    assert!(
        !errors(&events).is_empty(),
        "a SyncDirError event must be emitted on failed download",
    );
}

#[test]
fn purge_error_on_type_mismatch_aborts_push() {
    let tmp = TempDir::new("purge_err");
    let local = tmp.write_file("data", "now a file");
    touch_mtime(&tmp, &local, 1_700_000_500);

    let mut repo = FakeRepo::new();
    repo.insert_item(
        SyncDirId(1),
        &local,
        "data",
        1_700_000_000,
        1_700_000_000,
    );

    let mut client = FakeRclone::default();
    // Remote 'data' is currently a directory — type mismatch with
    // the new local file.
    client.set_stat("data", Ok(Some(remote_item("data", true, 1_700_000_000))));
    client.set_purge(Err("connection reset".to_owned()));

    let _ = run_local_sync(&tmp, &mut repo, &mut client);

    let row = repo.items.iter().find(|it| it.remote_path == "data").unwrap();
    assert_eq!(
        row.last_local_timestamp, 1_700_000_000,
        "DB row must not advance when purge fails",
    );
    assert!(
        client.copy_to_remote_calls.is_empty(),
        "upload must not run after a failed purge",
    );
}

#[test]
fn editor_swap_files_are_ignored() {
    let tmp = TempDir::new("editor_swap");
    let swap = tmp.write_file(".doc.txt.kate-swp", "temp");
    touch_mtime(&tmp, &swap, 1_700_000_000);

    let mut repo = FakeRepo::new();
    let mut client = FakeRclone::default();
    let _ = run_local_sync(&tmp, &mut repo, &mut client);

    assert!(
        client.stat_calls.is_empty(),
        "stat must not be called for editor swap files",
    );
    assert!(
        client.copy_to_remote_calls.is_empty(),
        "upload must not run for editor swap files",
    );
    assert_eq!(
        repo.item_count(),
        0,
        "no DB row should be inserted for editor swap files",
    );
}

#[test]
fn delete_file_error_on_remote_preserves_db_record() {
    let tmp = TempDir::new("remote_del_err");
    // No local file — simulates user deletion already happened.

    let mut repo = FakeRepo::new();
    let local_path = format!("{}/Text File.txt", tmp.as_str());
    repo.insert_item(
        SyncDirId(1),
        &local_path,
        "Text File.txt",
        1_700_000_000,
        1_700_000_000,
    );

    let mut client = FakeRclone::default();
    client.set_delete_file(Err("network error".to_owned()));

    let remote_items = vec![remote_item("Text File.txt", false, 1_700_000_000)];
    let _ = run_remote_sync(&tmp, &mut repo, &mut client, remote_items);

    assert!(
        repo.has_item(&local_path, "Text File.txt"),
        "DB record must be preserved when remote delete fails so the next pass retries",
    );
    assert_eq!(
        client.delete_file_calls.len(),
        1,
        "delete_file must have been attempted once",
    );
}

#[test]
fn successful_remote_delete_clears_db_record() {
    let tmp = TempDir::new("remote_del_ok");

    let mut repo = FakeRepo::new();
    let local_path = format!("{}/Text File.txt", tmp.as_str());
    repo.insert_item(
        SyncDirId(1),
        &local_path,
        "Text File.txt",
        1_700_000_000,
        1_700_000_000,
    );

    let mut client = FakeRclone::default();
    let remote_items = vec![remote_item("Text File.txt", false, 1_700_000_000)];
    let _ = run_remote_sync(&tmp, &mut repo, &mut client, remote_items);

    assert!(
        !repo.has_item(&local_path, "Text File.txt"),
        "DB record must be cleared after a successful remote delete",
    );
    assert_eq!(client.delete_file_calls.len(), 1);
}

// The change check

#[test]
fn returns_false_when_everything_matches() {
    let tmp = TempDir::new("ss_insync");
    let local = tmp.write_file("a.txt", "v1");
    touch_mtime(&tmp, &local, 1_700_000_000);

    let mut repo = FakeRepo::new();
    repo.insert_item(
        SyncDirId(1),
        &local,
        "a.txt",
        1_700_000_000,
        1_700_000_000,
    );

    let mut client = FakeRclone::default();
    client.set_list(
        "",
        Ok(vec![remote_item("a.txt", false, 1_700_000_000)]),
    );

    assert!(!check(&tmp, &mut repo, &mut client));
}

#[test]
fn returns_true_when_local_has_a_new_file() {
    let tmp = TempDir::new("ss_new_local");
    let local = tmp.write_file("fresh.txt", "v1");
    touch_mtime(&tmp, &local, 1_700_000_000);

    let mut repo = FakeRepo::new();
    let mut client = FakeRclone::default();

    assert!(check(&tmp, &mut repo, &mut client));
}

#[test]
fn returns_true_when_remote_has_a_new_file() {
    let tmp = TempDir::new("ss_new_remote");
    let mut repo = FakeRepo::new();
    let mut client = FakeRclone::default();
    client.set_list(
        "",
        Ok(vec![remote_item("fresh.txt", false, 1_700_000_000)]),
    );

    assert!(check(&tmp, &mut repo, &mut client));
}

#[test]
fn returns_true_when_tracked_local_file_is_missing() {
    let tmp = TempDir::new("ss_missing_local");
    let mut repo = FakeRepo::new();
    let local_path = format!("{}/gone.txt", tmp.as_str());
    repo.insert_item(
        SyncDirId(1),
        &local_path,
        "gone.txt",
        1_700_000_000,
        1_700_000_000,
    );

    let mut client = FakeRclone::default();
    client.set_list(
        "",
        Ok(vec![remote_item("gone.txt", false, 1_700_000_000)]),
    );

    assert!(check(&tmp, &mut repo, &mut client));
}

#[test]
fn editor_swap_files_do_not_force_a_sync() {
    let tmp = TempDir::new("ss_swap");
    let real = tmp.write_file("doc.txt", "v1");
    touch_mtime(&tmp, &real, 1_700_000_000);
    let swap = tmp.write_file(".doc.txt.kate-swp", "tmp");
    touch_mtime(&tmp, &swap, 1_700_000_000);

    let mut repo = FakeRepo::new();
    repo.insert_item(
        SyncDirId(1),
        &real,
        "doc.txt",
        1_700_000_000,
        1_700_000_000,
    );

    let mut client = FakeRclone::default();
    client.set_list(
        "",
        Ok(vec![remote_item("doc.txt", false, 1_700_000_000)]),
    );

    assert!(
        !check(&tmp, &mut repo, &mut client),
        "should_sync must not fire purely because of an editor swap file",
    );
}

#[test]
fn returns_true_when_remote_list_fails() {
    let tmp = TempDir::new("ss_list_err");
    let mut repo = FakeRepo::new();
    let mut client = FakeRclone::default();
    client.set_list("", Err("connection reset".to_owned()));

    assert!(check(&tmp, &mut repo, &mut client));
}

// A single path

#[test]
fn new_local_file_uploads_and_inserts_db_row() {
    let tmp = TempDir::new("spath_new");
    let local = tmp.write_file("hello.txt", "hi");
    touch_mtime(&tmp, &local, 1_700_000_000);

    let mut repo = FakeRepo::new();
    let mut client = FakeRclone::default();
    // First stat: file doesn't exist on remote → (None, None) branch
    // uploads. Second stat (from record_insert) returns the new
    // remote item so the DB row gets the correct mod_time.
    client.set_stat_sequence(
        "hello.txt",
        vec![
            StatAnswer(Ok(None)),
            StatAnswer(Ok(Some(remote_item("hello.txt", false, 1_700_000_100)))),
        ],
    );

    let _ = run_path(&local, &tmp, &mut repo, &mut client);

    assert_eq!(client.copy_to_remote_calls.len(), 1);
    assert!(repo.has_item(&local, "hello.txt"));
}

#[test]
fn upload_failure_keeps_db_empty() {
    let tmp = TempDir::new("spath_upload_err");
    let local = tmp.write_file("hello.txt", "hi");
    touch_mtime(&tmp, &local, 1_700_000_000);

    let mut repo = FakeRepo::new();
    let mut client = FakeRclone::default();
    client.set_copy_to_remote(Err("connection reset".to_owned()));

    let events = run_path(&local, &tmp, &mut repo, &mut client);

    assert_eq!(client.copy_to_remote_calls.len(), 1);
    assert_eq!(
        repo.item_count(),
        0,
        "no DB row must be created when upload fails",
    );
    assert!(
        !errors(&events).is_empty(),
        "a SyncDirError event must be emitted on upload failure",
    );
}

#[test]
fn local_gone_remote_matches_db_deletes_on_remote() {
    let tmp = TempDir::new("spath_delete_ok");
    // No local file.

    let mut repo = FakeRepo::new();
    let local_path = format!("{}/Text File.txt", tmp.as_str());
    repo.insert_item(
        SyncDirId(1),
        &local_path,
        "Text File.txt",
        1_700_000_000,
        1_700_000_000,
    );

    let mut client = FakeRclone::default();
    client.set_stat(
        "Text File.txt",
        Ok(Some(remote_item("Text File.txt", false, 1_700_000_000))),
    );

    let _ = run_path(&local_path, &tmp, &mut repo, &mut client);

    assert_eq!(client.delete_file_calls.len(), 1);
    assert!(
        !repo.has_item(&local_path, "Text File.txt"),
        "DB row must be cleared after successful remote delete",
    );
}

#[test]
fn delete_interrupted_preserves_db_record() {
    let tmp = TempDir::new("spath_delete_err");
    let mut repo = FakeRepo::new();
    let local_path = format!("{}/doomed.txt", tmp.as_str());
    repo.insert_item(
        SyncDirId(1),
        &local_path,
        "doomed.txt",
        1_700_000_000,
        1_700_000_000,
    );

    let mut client = FakeRclone::default();
    client.set_stat(
        "doomed.txt",
        Ok(Some(remote_item("doomed.txt", false, 1_700_000_000))),
    );
    client.set_delete_file(Err("connection reset".to_owned()));

    let events = run_path(&local_path, &tmp, &mut repo, &mut client);

    assert!(
        repo.has_item(&local_path, "doomed.txt"),
        "DB row must be preserved when remote delete fails",
    );
    assert!(
        !errors(&events).is_empty(),
        "a SyncDirError event must be emitted on remote delete failure",
    );
}

#[test]
fn local_gone_remote_moved_ahead_is_not_propagated() {
    let tmp = TempDir::new("spath_conflict");
    let mut repo = FakeRepo::new();
    let local_path = format!("{}/shared.txt", tmp.as_str());
    repo.insert_item(
        SyncDirId(1),
        &local_path,
        "shared.txt",
        1_700_000_000,
        1_700_000_000,
    );

    let mut client = FakeRclone::default();
    client.set_stat(
        "shared.txt",
        Ok(Some(remote_item("shared.txt", false, 1_700_000_500))), // newer
    );

    let _ = run_path(&local_path, &tmp, &mut repo, &mut client);

    assert!(
        client.delete_file_calls.is_empty(),
        "no remote delete when remote has moved ahead since last sync",
    );
    assert!(
        repo.has_item(&local_path, "shared.txt"),
        "DB row must be preserved so periodic pass can resolve the conflict",
    );
}

#[test]
fn editor_swap_files_are_skipped() {
    let tmp = TempDir::new("spath_swap");
    let swap = tmp.write_file(".hello.txt.kate-swp", "tmp");
    touch_mtime(&tmp, &swap, 1_700_000_000);

    let mut repo = FakeRepo::new();
    let mut client = FakeRclone::default();

    let _ = run_path(&swap, &tmp, &mut repo, &mut client);

    assert!(client.stat_calls.is_empty());
    assert!(client.copy_to_remote_calls.is_empty());
    assert_eq!(repo.item_count(), 0);
}

#[test]
fn both_sides_newer_than_db_emits_conflict() {
    let tmp = TempDir::new("spath_both_newer");
    let local = tmp.write_file("shared.txt", "v2");
    touch_mtime(&tmp, &local, 1_700_000_500); // local newer than db

    let mut repo = FakeRepo::new();
    repo.insert_item(
        SyncDirId(1),
        &local,
        "shared.txt",
        1_700_000_000,
        1_700_000_000,
    );

    let mut client = FakeRclone::default();
    client.set_stat(
        "shared.txt",
        Ok(Some(remote_item("shared.txt", false, 1_700_000_700))), // remote newer than db too
    );

    let events = run_path(&local, &tmp, &mut repo, &mut client);

    assert!(client.copy_to_remote_calls.is_empty());
    assert!(client.copy_to_local_calls.is_empty());
    assert!(
        errors(&events)
            .iter()
            .any(|e| matches!(e, SyncError::BothMoreCurrent(..))),
        "a BothMoreCurrent SyncError must be emitted",
    );
}

#[test]
fn push_tolerating_source_race_swallows_when_source_is_gone() {
    let tmp = TempDir::new("spath_race");
    // No file on disk → path.is_there() is false.
    let missing = format!("{}/{}", tmp.as_str(), "ghost.txt");

    let mut client = FakeRclone::default();
    client.set_copy_to_remote(Err(
        "failed to open source object: no such file or directory".to_owned(),
    ));

    let copied = client.copy_to_remote(&missing, "ghost.txt");
    let outcome = push_tolerating_source_race(copied, tmp.is_there(&missing));
    assert!(
        matches!(outcome, PushOutcome::SourceRacedAway),
        "source-gone must produce SourceRacedAway, got Failed/Done instead",
    );
}

#[test]
fn push_tolerating_source_race_surfaces_real_errors() {
    let tmp = TempDir::new("spath_real_err");
    let local = tmp.write_file("stable.txt", "still here");

    let mut client = FakeRclone::default();
    client.set_copy_to_remote(Err("permission denied".to_owned()));

    let copied = client.copy_to_remote(&local, "stable.txt");
    let outcome = push_tolerating_source_race(copied, tmp.is_there(&local));
    assert!(
        matches!(outcome, PushOutcome::Failed(_)),
        "real errors (source still present) must not be swallowed",
    );
}

#[test]
fn path_outside_sync_dir_is_ignored() {
    let tmp = TempDir::new("spath_outside");
    let outside_dir = TempDir::new("spath_outside_sibling");
    let outside = outside_dir.write_file("foreign.txt", "not ours");

    let mut repo = FakeRepo::new();
    let mut client = FakeRclone::default();

    let _ = run_path(&outside, &tmp, &mut repo, &mut client);

    assert!(client.stat_calls.is_empty());
    assert!(client.copy_to_remote_calls.is_empty());
}

// More of the whole pass

const T: i64 = 1_700_000_000;

fn reported(path: &str, words: &str) -> SyncError {
    SyncError::General(path.to_owned(), Reason::Reported(words.to_owned()))
}

#[test]
fn passes_tell_how_they_go() {
    let tmp = TempDir::new("events");
    let local = tmp.write_file("a.txt", "v1");
    touch_mtime(&tmp, &local, T as u64);
    let mut repo = FakeRepo::new();
    let mut client = FakeBackend::default();
    client.set_stat("a.txt", Ok(Some(remote_item("a.txt", false, T + 5))));
    let (r, sd) = pair(&tmp);
    let mut world = World::new(&tmp, &mut repo, &mut client);
    assert_eq!(world.drive(sync::run(&r, &sd, vec![])), Outcome::Synced);
    assert_eq!(world.states(), vec![SyncDirRunState::Syncing, SyncDirRunState::Synced]);
    let progress = Some(Progress { pos: 1, total: 1 });
    assert_eq!(world.lines(), vec![&Message::Uploading(progress, local.clone())]);
    assert_eq!(world.pending(), vec![&Message::Applying { total: 1, done: 0 }]);
    assert_eq!(world.plans.len(), 1);
    assert_eq!((world.plans[0].uploads, world.plans[0].walked), (1, 1));
    let row = repo.find_sync_item_by_paths(SyncDirId(1), &local, "a.txt").unwrap();
    assert_eq!((row.last_local_timestamp, row.last_remote_timestamp), (T, T + 5));
}

#[test]
fn long_plans_refresh_their_line() {
    let tmp = TempDir::new("refresh");
    for i in 0..34 {
        let _ = tmp.write_file(&format!("f{i}"), "x");
    }
    let mut repo = FakeRepo::new();
    let mut client = FakeBackend::default();
    let (r, sd) = pair(&tmp);
    let mut world = World::new(&tmp, &mut repo, &mut client);
    let _ = world.drive(sync::run(&r, &sd, vec![]));
    assert_eq!(
        world.pending(),
        vec![
            &Message::Applying { total: 34, done: 0 },
            &Message::Applying { total: 34, done: 16 },
            &Message::Applying { total: 34, done: 32 },
        ]
    );
    assert_eq!(client.copy_to_remote_calls.len(), 34);
}

#[test]
fn a_failed_listing_says_why() {
    let tmp = TempDir::new("list_err");
    let mut repo = FakeRepo::new();
    let mut client = FakeBackend::default();
    client.set_list("Foo", Err("quota".to_owned()));
    let (r, sd) = (remote(1, "R"), sync_dir(1, 1, tmp.as_str(), "Foo"));
    let mut world = World::new(&tmp, &mut repo, &mut client);
    assert_eq!(world.drive(sync::run(&r, &sd, vec![])), Outcome::Aborted);
    assert_eq!(world.errors(), vec![&reported("Foo", "quota")]);
    assert_eq!(world.notices, vec![Notice::FailedListing { words: "quota".to_owned() }]);
    assert_eq!(world.lines(), vec![&Message::SyncFailed]);
    assert_eq!(world.states(), vec![SyncDirRunState::Syncing, SyncDirRunState::Error]);
    assert!(client.mkdir_calls.is_empty());
}

#[test]
fn a_missing_root_is_made_anew() {
    let tmp = TempDir::new("root");
    let _ = tmp.write_file("a", "x");
    let mut repo = FakeRepo::new();
    let mut client = FakeBackend::default();
    client.set_list("Foo", Err("directory not found".to_owned()));
    let (r, sd) = (remote(1, "R"), sync_dir(1, 1, tmp.as_str(), "Foo"));
    let mut world = World::new(&tmp, &mut repo, &mut client);
    assert_eq!(world.drive(sync::run(&r, &sd, vec![])), Outcome::Synced);
    let words = "directory not found".to_owned();
    assert_eq!(world.notices, vec![Notice::MissingRoot { path: "Foo".to_owned(), words }]);
    assert_eq!(client.mkdir_calls, vec!["Foo"]);
    assert_eq!(client.copy_to_remote_calls.len(), 1);
    assert_eq!(client.copy_to_remote_calls[0].1, "Foo/a");
}

#[test]
fn complaints_while_applying_call_for_a_pause() {
    let tmp = TempDir::new("late_limit");
    let _ = tmp.write_file("a", "x");
    let mut repo = FakeRepo::new();
    let mut client = FakeBackend::default();
    let (r, sd) = pair(&tmp);
    let mut world = World::new(&tmp, &mut repo, &mut client);
    world.rate_limited = true;
    world.quiet_probes = 1;
    assert_eq!(world.drive(sync::run(&r, &sd, vec![])), Outcome::Degraded);
    assert_eq!(world.lines().last(), Some(&&Message::SyncedRateLimited));
    assert_eq!(world.notices, vec![Notice::SlowedApply]);
    assert_eq!(world.states().last(), Some(&SyncDirRunState::Warning));
    assert_eq!(client.copy_to_remote_calls.len(), 1);
}

#[test]
fn complaints_while_listing_are_told() {
    let tmp = TempDir::new("limit");
    let mut repo = FakeRepo::new();
    let mut client = FakeBackend::default();
    client.set_list("", Err("429".to_owned()));
    let (r, sd) = pair(&tmp);
    let mut world = World::new(&tmp, &mut repo, &mut client);
    world.rate_limited = true;
    assert_eq!(world.drive(sync::run(&r, &sd, vec![])), Outcome::Degraded);
    assert_eq!(world.errors(), vec![&SyncError::General(String::new(), Reason::RateLimited)]);
    assert_eq!(world.lines(), vec![&Message::SkippedRateLimited]);
    assert_eq!(world.notices, vec![Notice::SlowedListing]);
    assert_eq!(world.states().last(), Some(&SyncDirRunState::Warning));
}

#[test]
fn cancelled_passes_say_so() {
    let tmp = TempDir::new("cancel_line");
    let mut repo = FakeRepo::new();
    let mut client = FakeBackend::default();
    let (r, sd) = pair(&tmp);
    let mut world = World::new(&tmp, &mut repo, &mut client);
    world.cancelled = true;
    assert_eq!(world.drive(sync::run(&r, &sd, vec![])), Outcome::Aborted);
    assert_eq!(world.lines(), vec![&Message::SyncCancelled]);
    assert!(world.plans.is_empty());
}

#[test]
fn excluded_subtrees_are_left_alone() {
    let tmp = TempDir::new("excluded");
    let _ = tmp.write_file("out/x", "x");
    let _ = tmp.write_file("nested/y", "y");
    let _ = tmp.write_file("in", "z");
    let mut repo = FakeRepo::new();
    let mut client = FakeBackend::default();
    client.set_list("", Ok(vec![remote_item("out/z", false, T)]));
    let (r, sd) = pair(&tmp);
    let others = vec![sync_dir(2, 1, "/elsewhere", "nested")];
    let mut world = World::new(&tmp, &mut repo, &mut client);
    world.exclusions = vec!["out".to_owned()];
    assert_eq!(world.drive(sync::run(&r, &sd, others)), Outcome::Synced);
    let uploaded: Vec<&str> = client.copy_to_remote_calls.iter().map(|c| c.1.as_str()).collect();
    assert_eq!(uploaded, vec!["in"]);
    assert!(client.copy_to_local_calls.is_empty());
    assert!(client.mkdir_calls.is_empty());
}

#[test]
fn sources_that_vanish_while_uploading_are_passed_over() {
    let tmp = TempDir::new("vanish");
    let local = tmp.write_file("a", "x");
    let mut repo = FakeRepo::new();
    let mut client = FakeBackend::default();
    client.set_copy_to_remote(Err("no such file or directory".to_owned()));
    let (r, sd) = pair(&tmp);
    let mut world = World::new(&tmp, &mut repo, &mut client);
    world.vanishing = true;
    assert_eq!(world.drive(sync::run(&r, &sd, vec![])), Outcome::Synced);
    assert!(world.errors().is_empty());
    let words = "no such file or directory".to_owned();
    assert_eq!(world.notices, vec![Notice::VanishedSource { path: local, words }]);
    assert_eq!(client.copy_to_remote_calls.len(), 1);
    assert_eq!(repo.item_count(), 0);
}

#[test]
fn broken_walks_are_logged_in_order() {
    let tmp = TempDir::new("walk_log");
    for name in ["a/x", "b/y", "c/z"] {
        let _ = tmp.write_file(name, "x");
    }
    let (a, c) = (format!("{}/a", tmp.as_str()), format!("{}/c", tmp.as_str()));
    tmp.lock(&a);
    tmp.lock(&c);
    let mut repo = FakeRepo::new();
    let mut client = FakeBackend::default();
    let (r, sd) = pair(&tmp);
    let mut world = World::new(&tmp, &mut repo, &mut client);
    assert_eq!(world.drive(sync::run(&r, &sd, vec![])), Outcome::Synced);
    let unread = |path: String, key: &str| Notice::UnreadDir {
        path,
        key: key.to_owned(),
        words: "permission denied".to_owned(),
    };
    assert_eq!(world.notices, vec![unread(a, "a"), unread(c, "c")]);
    assert_eq!((world.plans[0].walked, world.plans[0].walk_unreliable), (4, 2));
}

#[test]
fn unconfirmed_deletions_are_logged() {
    for listing in [Ok(vec![remote_item("a.txt", false, T)]), Err("quota".to_owned())] {
        let tmp = TempDir::new("abort_log");
        let local = tmp.write_file("a.txt", "v1");
        touch_mtime(&tmp, &local, T as u64);
        let mut repo = FakeRepo::new();
        let _ = repo.insert_item(SyncDirId(1), &local, "a.txt", T, T);
        let mut client = FakeRclone::default();
        client.set_stat("a.txt", Ok(None));
        client.set_list("", listing);
        let (r, sd) = pair(&tmp);
        let mut world = World::new(&tmp, &mut repo, &mut client);
        world.drive(sync_local_directory(tmp.as_str(), &r, &sd, vec![]));
        assert_eq!(world.notices, vec![Notice::StillListed { path: "a.txt".to_owned() }]);
        assert!(world.destructions.is_empty());
        assert!(tmp.is_there(&local));
    }
}

#[test]
fn failed_transfers_are_told_and_not_recorded() {
    let tmp = TempDir::new("fail");
    let local = tmp.write_file("a", "x");
    let mut repo = FakeRepo::new();
    let mut client = FakeBackend::default();
    client.set_list("", Ok(vec![remote_item("b", false, T)]));
    client.set_copy_to_remote(Err("full".to_owned()));
    client.set_copy_to_local(Err("reset".to_owned()));
    let (outcome, events) = run_full(&tmp, &mut repo, &mut client);
    assert_eq!(outcome, Outcome::Synced);
    assert_eq!(errors(&events), vec![&reported(&local, "full"), &reported("b", "reset")]);
    assert_eq!(repo.item_count(), 0);
}

#[test]
fn removals_are_announced_and_planned() {
    let tmp = TempDir::new("announce");
    let kept = tmp.write_file("kept", "k");
    touch_mtime(&tmp, &kept, T as u64);
    let doomed = tmp.write_file("doomed", "d");
    touch_mtime(&tmp, &doomed, T as u64);
    let mut repo = FakeRepo::new();
    for name in ["kept", "doomed", "gone"] {
        let local = format!("{}/{name}", tmp.as_str());
        let _ = repo.insert_item(SyncDirId(1), &local, name, T, T);
    }
    let mut client = FakeBackend::default();
    client.set_list(
        "",
        Ok(vec![remote_item("kept", false, T), remote_item("gone", true, T)]),
    );
    let (r, sd) = pair(&tmp);
    let mut world = World::new(&tmp, &mut repo, &mut client);
    assert_eq!(world.drive(sync::run(&r, &sd, vec![])), Outcome::Synced);
    assert_eq!(
        world.destructions,
        vec![
            (Destruction::MirrorRemote, "gone".to_owned()),
            (Destruction::MirrorLocal, "doomed".to_owned()),
        ]
    );
    assert_eq!((world.plans[0].delete_local, world.plans[0].delete_remote), (1, 1));
    assert_eq!(client.purge_calls, vec!["gone"]);
    assert!(client.delete_file_calls.is_empty());
    assert!(tmp.is_there(&kept) && !tmp.is_there(&doomed));
    assert_eq!(repo.item_count(), 1);
}

#[test]
fn failed_removals_keep_their_row() {
    let tmp = TempDir::new("keep_row");
    let mut repo = FakeRepo::new();
    let local = format!("{}/gone", tmp.as_str());
    let _ = repo.insert_item(SyncDirId(1), &local, "gone", T, T);
    let mut client = FakeBackend::default();
    client.set_list("", Ok(vec![remote_item("gone", false, T)]));
    client.set_delete_file(Err("busy".to_owned()));
    let (_, events) = run_full(&tmp, &mut repo, &mut client);
    assert_eq!(errors(&events), vec![&reported("gone", "busy")]);
    assert!(repo.has_item(&local, "gone"));
}

#[test]
fn new_directories_are_made_on_both_sides() {
    let tmp = TempDir::new("dirs");
    let _ = tmp.write_file("up/a", "x");
    let mut repo = FakeRepo::new();
    let mut client = FakeBackend::default();
    client.set_list("", Ok(vec![remote_item("down", true, T)]));
    let (outcome, _) = run_full(&tmp, &mut repo, &mut client);
    assert_eq!(outcome, Outcome::Synced);
    assert_eq!(client.mkdir_calls, vec!["up"]);
    assert_eq!(client.copy_to_remote_calls[0].1, "up/a");
    assert!(tmp.is_dir(&format!("{}/down", tmp.as_str())));
}

// More of the tree passes

#[test]
fn ignored_entries_are_passed_over() {
    let tmp = TempDir::new("ignore");
    let _ = tmp.write_file(".sync-exclude.lst", "*.log\n.sync-exclude.lst\n");
    let _ = tmp.write_file("x.log", "l");
    let kept = tmp.write_file("x.txt", "t");
    let mut repo = FakeRepo::new();
    let mut client = FakeRclone::default();
    client.set_stat_sequence(
        "x.txt",
        vec![
            StatAnswer(Ok(None)),
            StatAnswer(Ok(Some(remote_item("x.txt", false, T)))),
            StatAnswer(Ok(Some(remote_item("x.txt", false, T)))),
            StatAnswer(Ok(Some(remote_item("x.txt", false, T)))),
        ],
    );
    let _ = run_local_sync(&tmp, &mut repo, &mut client);
    assert_eq!(client.stat_calls, vec!["x.txt"; 4]);
    assert_eq!(repo.item_count(), 1);
    assert!(repo.has_item(&kept, "x.txt"));

    let items = vec![remote_item("y.log", false, T)];
    let _ = run_remote_sync(&tmp, &mut repo, &mut client, items);
    assert!(client.copy_to_local_calls.is_empty());
}

#[test]
fn directories_are_descended_into() {
    let tmp = TempDir::new("descend");
    let inner = tmp.write_file("d/a", "x");
    touch_mtime(&tmp, &inner, T as u64);
    let mut repo = FakeRepo::new();
    let dir = format!("{}/d", tmp.as_str());
    // The row of the directory is older than the directory.
    let _ = repo.insert_item(SyncDirId(1), &dir, "d", T - 1, T);
    let mut client = FakeRclone::default();
    client.set_stat("d", Ok(Some(remote_item("d", true, T))));
    client.set_stat("d/a", Ok(Some(remote_item("d/a", false, T + 9))));
    touch_mtime(&tmp, &dir, T as u64);
    let _ = run_local_sync(&tmp, &mut repo, &mut client);
    assert_eq!(client.mkdir_calls, vec!["d"]);
    assert_eq!(client.copy_to_local_calls, vec![(inner.clone(), "d/a".to_owned())]);
    assert!(repo.has_item(&inner, "d/a"));
    let row = repo.find_sync_item_by_paths(SyncDirId(1), &dir, "d").unwrap();
    assert_eq!(row.last_local_timestamp, T);
}

#[test]
fn stopped_tree_passes_leave() {
    for (cancelled, on_record) in [(true, true), (false, false)] {
        let tmp = TempDir::new("stop");
        let _ = tmp.write_file("a", "x");
        let _ = tmp.write_file("b", "x");
        let mut repo = FakeRepo::new();
        repo.sync_dir_exists = on_record;
        let mut client = FakeRclone::default();
        let (r, sd) = pair(&tmp);
        let mut world = World::new(&tmp, &mut repo, &mut client);
        world.cancelled = cancelled;
        world.drive(sync_local_directory(tmp.as_str(), &r, &sd, vec![]));
        assert!(client.stat_calls.is_empty());
        assert_eq!(repo.item_count(), 0);
    }
}

#[test]
fn synced_items_are_passed_over() {
    let tmp = TempDir::new("again");
    let mut repo = FakeRepo::new();
    let mut client = FakeRclone::default();
    client.set_list("", Ok(vec![remote_item("a", false, T)]));
    let (r, sd) = pair(&tmp);
    let synced = vec![(format!("{}/a", tmp.as_str()), "a".to_owned())];
    let mut world = World::new(&tmp, &mut repo, &mut client);
    world.drive(sync_remote_directory("", &r, &sd, synced));
    assert!(client.copy_to_local_calls.is_empty());
}

#[test]
fn remote_items_are_pulled_and_recorded() {
    let tmp = TempDir::new("pull");
    let here = tmp.write_file("a", "x");
    touch_mtime(&tmp, &here, (T - 5) as u64);
    let mut repo = FakeRepo::new();
    let mut client = FakeRclone::default();
    client.set_stat("a", Ok(Some(remote_item("a", false, T))));
    let items = vec![remote_item("a", false, T)];
    let _ = run_remote_sync(&tmp, &mut repo, &mut client, items);
    assert_eq!(client.copy_to_local_calls, vec![(here.clone(), "a".to_owned())]);
    let row = repo.find_sync_item_by_paths(SyncDirId(1), &here, "a").unwrap();
    assert_eq!((row.last_local_timestamp, row.last_remote_timestamp), (T - 5, T));
}

#[test]
fn type_mismatches_are_announced() {
    let tmp = TempDir::new("mismatch");
    let local = tmp.write_file("data", "file");
    touch_mtime(&tmp, &local, (T + 5) as u64);
    let mut repo = FakeRepo::new();
    let _ = repo.insert_item(SyncDirId(1), &local, "data", T, T);
    let mut client = FakeRclone::default();
    client.set_stat("data", Ok(Some(remote_item("data", true, T))));
    let (r, sd) = pair(&tmp);
    let mut world = World::new(&tmp, &mut repo, &mut client);
    world.drive(sync_local_directory(tmp.as_str(), &r, &sd, vec![]));
    assert_eq!(world.destructions, vec![(Destruction::PurgeOnTypeMismatch, "data".to_owned())]);
    assert_eq!(client.purge_calls, vec!["data"]);
    assert_eq!(client.copy_to_remote_calls.len(), 1);
    assert_eq!(repo.items[0].last_local_timestamp, T + 5);
}

#[test]
fn tree_conflicts_are_reported() {
    let tmp = TempDir::new("tree_conflict");
    let local = tmp.write_file("a", "x");
    touch_mtime(&tmp, &local, (T + 1) as u64);
    let mut repo = FakeRepo::new();
    let _ = repo.insert_item(SyncDirId(1), &local, "a", T, T);
    let mut client = FakeRclone::default();
    client.set_stat("a", Ok(Some(remote_item("a", false, T + 1))));
    let events = run_local_sync(&tmp, &mut repo, &mut client);
    let conflict = SyncError::BothMoreCurrent(local.clone(), "a".to_owned());
    assert_eq!(errors(&events), vec![&conflict]);
    let items = vec![remote_item("a", false, T + 1)];
    let events = run_remote_sync(&tmp, &mut repo, &mut client, items);
    assert_eq!(errors(&events), vec![&conflict]);
}

#[test]
fn unreadable_directories_are_told() {
    let tmp = TempDir::new("unreadable");
    tmp.lock(tmp.as_str());
    let mut repo = FakeRepo::new();
    let mut client = FakeRclone::default();
    let events = run_local_sync(&tmp, &mut repo, &mut client);
    assert_eq!(errors(&events), vec![&reported(tmp.as_str(), "permission denied")]);
    client.set_list("", Err("offline".to_owned()));
    let (r, sd) = pair(&tmp);
    let mut world = World::new(&tmp, &mut repo, &mut client);
    world.drive(sync_remote_directory("", &r, &sd, vec![]));
    assert_eq!(world.errors(), vec![&reported("", "offline")]);
}

// The pass over a pair of directories

#[test]
fn unchanged_directories_are_left_alone() {
    let tmp = TempDir::new("up_to_date");
    let mut repo = FakeRepo::new();
    let mut client = FakeRclone::default();
    let (r, sd) = pair(&tmp);
    let mut world = World::new(&tmp, &mut repo, &mut client);
    let outcome = world.drive(sync_dir_pass::run(r, sd));
    assert_eq!(outcome, sync_dir_pass::Outcome::UpToDate);
    assert_eq!(world.lines(), vec![&Message::FilesSynced]);
    assert_eq!(client.list_calls.len(), 1);
}

#[test]
fn changed_directories_are_synced_both_ways() {
    let tmp = TempDir::new("both_ways");
    let up = tmp.write_file("up", "x");
    touch_mtime(&tmp, &up, T as u64);
    let mut repo = FakeRepo::new();
    let mut client = FakeRclone::default();
    client.set_list("", Ok(vec![remote_item("up", false, T), remote_item("down", false, T)]));
    client.set_stat("down", Ok(Some(remote_item("down", false, T))));
    client.set_stat_sequence("up", vec![StatAnswer(Ok(None))]);
    client.set_stat("up", Ok(Some(remote_item("up", false, T))));
    let (r, sd) = pair(&tmp);
    let down = tmp.write_file("down", "y");
    touch_mtime(&tmp, &down, (T - 1) as u64);
    let mut world = World::new(&tmp, &mut repo, &mut client);
    let outcome = world.drive(sync_dir_pass::run(r, sd));
    assert_eq!(outcome, sync_dir_pass::Outcome::Synced);
    assert_eq!(client.copy_to_remote_calls, vec![(up, "up".to_owned())]);
    assert_eq!(client.copy_to_local_calls, vec![(down, "down".to_owned())]);
    assert_eq!(repo.item_count(), 2);
}

// More of the change check

#[test]
fn rows_that_are_gone_on_both_sides_are_dropped() {
    let tmp = TempDir::new("ss_drop");
    let mut repo = FakeRepo::new();
    let gone = format!("{}/gone", tmp.as_str());
    let _ = repo.insert_item(SyncDirId(1), &gone, "gone", T, T);
    let mut client = FakeRclone::default();
    assert!(!check(&tmp, &mut repo, &mut client));
    assert_eq!(repo.item_count(), 0);
}

#[test]
fn drifted_times_force_a_sync() {
    let tmp = TempDir::new("ss_drift");
    let local = tmp.write_file("a", "x");
    touch_mtime(&tmp, &local, T as u64);
    for (local_time, remote_time) in [(T - 1, T), (T, T - 1), (T + 1, T)] {
        let mut repo = FakeRepo::new();
        let _ = repo.insert_item(SyncDirId(1), &local, "a", local_time, remote_time);
        let mut client = FakeRclone::default();
        client.set_list("", Ok(vec![remote_item("a", false, T)]));
        assert!(check(&tmp, &mut repo, &mut client));
        assert_eq!(repo.item_count(), 1);
    }
}

#[test]
fn the_remotes_own_word_counts_before_the_listing() {
    let tmp = TempDir::new("ss_stat");
    let local = tmp.write_file("a", "x");
    touch_mtime(&tmp, &local, T as u64);
    let mut repo = FakeRepo::new();
    let _ = repo.insert_item(SyncDirId(1), &local, "a", T, T);
    let mut client = FakeRclone::default();
    client.set_list("", Ok(vec![remote_item("a", false, T)]));
    client.set_stat("a", Ok(Some(remote_item("a", false, T + 1))));
    assert!(check(&tmp, &mut repo, &mut client));
}

#[test]
fn failed_looks_at_a_file_that_is_there_force_a_sync() {
    let tmp = TempDir::new("ss_look");
    let local = tmp.write_file("a", "x");
    touch_mtime(&tmp, &local, T as u64);
    let mut repo = FakeRepo::new();
    let _ = repo.insert_item(SyncDirId(1), &local, "a", T, T);
    let mut client = FakeRclone::default();
    client.set_list("", Ok(vec![remote_item("a", false, T)]));
    assert!(!check(&tmp, &mut repo, &mut client));
    client.set_stat("a", Err("timeout".to_owned()));
    assert!(check(&tmp, &mut repo, &mut client));
    assert_eq!(repo.item_count(), 1);
}

#[test]
fn rows_of_which_nothing_can_be_told_are_dropped() {
    let tmp = TempDir::new("ss_untold");
    let gone = format!("{}/gone", tmp.as_str());
    let mut repo = FakeRepo::new();
    let _ = repo.insert_item(SyncDirId(1), &gone, "gone", T, T);
    let mut client = FakeRclone::default();
    client.set_stat("gone", Err("timeout".to_owned()));
    assert!(!check(&tmp, &mut repo, &mut client));
    assert_eq!(repo.item_count(), 0);
}

#[test]
fn nested_items_are_compared_by_their_path() {
    for root in ["", "Foo"] {
        let tmp = TempDir::new("ss_nested");
        let file = tmp.write_file("sub/a", "x");
        let dir = format!("{}/sub", tmp.as_str());
        touch_mtime(&tmp, &file, T as u64);
        touch_mtime(&tmp, &dir, T as u64);
        let at = |path: &str| match root {
            "" => path.to_owned(),
            root => format!("{root}/{path}"),
        };
        let mut repo = FakeRepo::new();
        let _ = repo.insert_item(SyncDirId(1), &dir, &at("sub"), T, T);
        let _ = repo.insert_item(SyncDirId(1), &file, &at("sub/a"), T, T);
        let mut client = FakeRclone::default();
        let items = |time: i64| {
            Ok(vec![
                remote_item(&at("sub"), true, T),
                remote_item(&at("sub/a"), false, time),
            ])
        };
        client.set_list(root, items(T));
        let (r, sd) = (remote(1, "R"), sync_dir(1, 1, tmp.as_str(), root));
        assert!(!World::new(&tmp, &mut repo, &mut client).drive(should_sync(&r, &sd)));
        assert_eq!(client.stat_calls, vec![at("sub"), at("sub/a")]);
        client.set_list(root, items(T + 1));
        assert!(World::new(&tmp, &mut repo, &mut client).drive(should_sync(&r, &sd)));
        assert_eq!(repo.item_count(), 2);
    }
}

// More of a single path

#[test]
fn single_directories_are_left_alone() {
    let tmp = TempDir::new("spath_dir");
    let _ = tmp.write_file("d/a", "x");
    let mut repo = FakeRepo::new();
    let mut client = FakeRclone::default();
    let events = run_path(&format!("{}/d", tmp.as_str()), &tmp, &mut repo, &mut client);
    assert!(events.is_empty());
    assert!(client.stat_calls.is_empty());
}

#[test]
fn single_files_are_pulled_where_the_remote_changed() {
    let tmp = TempDir::new("spath_pull");
    let local = tmp.write_file("a", "x");
    touch_mtime(&tmp, &local, T as u64);
    let mut repo = FakeRepo::new();
    let _ = repo.insert_item(SyncDirId(1), &local, "a", T, T);
    let mut client = FakeRclone::default();
    client.set_stat("a", Ok(Some(remote_item("a", false, T + 3))));
    let _ = run_path(&local, &tmp, &mut repo, &mut client);
    assert_eq!(client.copy_to_local_calls, vec![(local, "a".to_owned())]);
    assert_eq!(repo.items[0].last_remote_timestamp, T + 3);
}

#[test]
fn vanished_remote_copies_are_left_to_the_full_pass() {
    let tmp = TempDir::new("spath_vanished");
    let local = tmp.write_file("a", "x");
    touch_mtime(&tmp, &local, T as u64);
    let mut repo = FakeRepo::new();
    let _ = repo.insert_item(SyncDirId(1), &local, "a", T, T);
    let mut client = FakeRclone::default();
    let events = run_path(&local, &tmp, &mut repo, &mut client);
    assert!(events.is_empty());
    assert!(tmp.is_there(&local));
    assert_eq!(repo.item_count(), 1);
    assert!(client.copy_to_remote_calls.is_empty());
}

#[test]
fn single_uploads_pass_over_a_vanished_source() {
    let tmp = TempDir::new("spath_silent");
    let local = tmp.write_file("a", "x");
    let mut repo = FakeRepo::new();
    let mut client = FakeRclone::default();
    client.set_copy_to_remote(Err("gone".to_owned()));
    let (r, sd) = pair(&tmp);
    let mut world = World::new(&tmp, &mut repo, &mut client);
    world.vanishing = true;
    world.drive(sync_single_path(&local, Some("a"), &r, &sd));
    assert!(world.errors().is_empty());
    assert!(world.notices.is_empty());
    assert_eq!(repo.item_count(), 0);
}

#[test]
fn single_removals_are_announced() {
    let tmp = TempDir::new("spath_announce");
    let gone = format!("{}/gone", tmp.as_str());
    let mut repo = FakeRepo::new();
    let _ = repo.insert_item(SyncDirId(1), &gone, "gone", T, T);
    let mut client = FakeRclone::default();
    client.set_stat("gone", Ok(Some(remote_item("gone", true, T))));
    let (r, sd) = pair(&tmp);
    let mut world = World::new(&tmp, &mut repo, &mut client);
    world.drive(sync_single_path(&gone, Some("gone"), &r, &sd));
    let kind = Destruction::LocalGoneRemoteMatchesRow;
    assert_eq!(world.destructions, vec![(kind, "gone".to_owned())]);
    assert_eq!(client.purge_calls, vec!["gone"]);
    assert_eq!(repo.item_count(), 0);
}

#[test]
fn both_trees_name_an_item_alike() {
    let tmp = TempDir::new("alike");
    let local = tmp.write_file("sub/a", "x");
    touch_mtime(&tmp, &local, T as u64);
    let mut repo = FakeRepo::new();
    let mut client = FakeRclone::default();
    client.set_stat("Foo/sub", Ok(Some(remote_item("Foo/sub", true, T))));
    client.set_stat("Foo/sub/a", Ok(Some(remote_item("Foo/sub/a", false, T + 1))));
    client.set_list("Foo", Ok(vec![remote_item("Foo/sub", true, T)]));
    client.set_list("Foo/sub", Ok(vec![remote_item("Foo/sub/a", false, T + 1)]));
    let (r, sd) = (remote(1, "R"), sync_dir(1, 1, tmp.as_str(), "Foo"));
    let mut world = World::new(&tmp, &mut repo, &mut client);
    let outcome = world.drive(sync_dir_pass::run(r, sd));
    assert_eq!(outcome, sync_dir_pass::Outcome::Synced);
    // What the pass over the local tree pulled is not pulled again.
    assert_eq!(client.copy_to_local_calls, vec![(local, "Foo/sub/a".to_owned())]);
    assert_eq!(repo.item_count(), 2);
}

#[test]
fn rows_with_something_left_are_kept() {
    let tmp = TempDir::new("ss_keep");
    let local = tmp.write_file("a", "x");
    touch_mtime(&tmp, &local, T as u64);
    let mut repo = FakeRepo::new();
    let _ = repo.insert_item(SyncDirId(1), &local, "a", T, T);
    let mut client = FakeRclone::default();
    assert!(check(&tmp, &mut repo, &mut client));
    assert_eq!(repo.item_count(), 1);
}
