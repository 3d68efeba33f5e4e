//! Plans, from snapshots made by hand.

use celeste_sync::domain::{RemoteItem, SyncDir, SyncDirId, SyncItem, SyncItemId};
use celeste_sync::notices::Notice;
use celeste_sync::path_map::{PathMap, PathSet};
use celeste_sync::ports::{DirEntry, Effect, Reading};
use celeste_sync::sync::planner::{group_db_keys_by_parent, parent_is_verified, phase, plan_one};
use celeste_sync::sync::remarks::remarks;
use celeste_sync::sync::snapshot::Exclusions;
use celeste_sync::sync::summary::{log_plan_summary, summarize, PlanSummary};
use celeste_sync::sync::walk::Walk;
use celeste_sync::sync::{plan, Action, LocalEntry, Snapshot};
use celeste_sync::test_support::{remote_item, sync_dir};

const T: i64 = 1_700_000_000;

struct Made {
    snapshot: Snapshot,
    dir: SyncDir,
}

impl Made {
    fn new() -> Made {
        Made {
            snapshot: Snapshot {
                remote: PathMap::new(),
                local: PathMap::new(),
                db: PathMap::new(),
                walk_unreliable: PathSet::new(),
            },
            dir: sync_dir(1, 1, "/l", ""),
        }
    }

    fn local(mut self, path: &str, is_dir: bool, time: i64) -> Made {
        let entry = LocalEntry {
            absolute_path: format!("/l/{path}"),
            is_dir,
            mtime_secs: time,
        };
        let _ = self.snapshot.local.insert(path.to_owned(), entry);
        self
    }

    fn remote(mut self, path: &str, is_dir: bool, time: i64) -> Made {
        let _ = self.snapshot.remote.insert(path.to_owned(), remote_item(path, is_dir, time));
        self
    }

    fn row(mut self, path: &str, local_time: i64, remote_time: i64) -> Made {
        let row = SyncItem {
            id: SyncItemId(7),
            sync_dir_id: SyncDirId(1),
            local_path: format!("/l/{path}"),
            remote_path: path.to_owned(),
            last_local_timestamp: local_time,
            last_remote_timestamp: remote_time,
        };
        let _ = self.snapshot.db.insert(path.to_owned(), row);
        self
    }

    fn broken(mut self, path: &str) -> Made {
        self.snapshot.walk_unreliable.insert(path.to_owned());
        self
    }

    fn plan(&self) -> Vec<Action> {
        plan(&self.snapshot, &self.dir)
    }
}

fn upload(path: &str, is_dir: bool) -> Action {
    Action::Upload { local_path: format!("/l/{path}"), remote_path: path.to_owned(), is_dir }
}

fn download(path: &str, is_dir: bool) -> Action {
    Action::Download { local_path: format!("/l/{path}"), remote_path: path.to_owned(), is_dir }
}

fn delete_local(path: &str, is_dir: bool) -> Action {
    Action::DeleteLocal { local_path: format!("/l/{path}"), remote_path: path.to_owned(), is_dir }
}

fn delete_remote(path: &str, is_dir: bool) -> Action {
    Action::DeleteRemote { local_path: format!("/l/{path}"), remote_path: path.to_owned(), is_dir }
}

#[test]
fn new_items_are_copied() {
    assert_eq!(Made::new().local("a", false, T).plan(), vec![upload("a", false)]);
    assert_eq!(Made::new().local("a", true, T).plan(), vec![upload("a", true)]);
    assert_eq!(Made::new().remote("a", false, T).plan(), vec![download("a", false)]);
    assert_eq!(Made::new().plan(), vec![]);
}

#[test]
fn unrecorded_pairs_go_by_their_times() {
    let pair = |local, remote| Made::new().local("a", false, local).remote("a", false, remote);
    assert_eq!(pair(T + 1, T).plan(), vec![upload("a", false)]);
    assert_eq!(pair(T, T + 1).plan(), vec![download("a", false)]);
    assert_eq!(pair(T, T).plan(), vec![download("a", false)]);
    let dirs = Made::new().local("a", true, T + 1).remote("a", true, T);
    assert_eq!(dirs.plan(), vec![]);
}

#[test]
fn stale_rows_are_cleared() {
    let plan = Made::new().row("a", T, T).plan();
    let clear = Action::ClearDbRow { local_path: "/l/a".to_owned(), remote_path: "a".to_owned() };
    assert_eq!(plan, vec![clear]);
}

#[test]
fn changed_sides_win() {
    let made = |local, remote| {
        Made::new().local("a", false, local).remote("a", false, remote).row("a", T, T)
    };
    assert_eq!(made(T, T).plan(), vec![]);
    assert_eq!(made(T - 1, T - 1).plan(), vec![]);
    assert_eq!(made(T + 1, T).plan(), vec![upload("a", false)]);
    assert_eq!(made(T, T + 1).plan(), vec![download("a", false)]);
    assert_eq!(made(T + 2, T + 1).plan(), vec![upload("a", false)]);
    assert_eq!(made(T + 1, T + 2).plan(), vec![download("a", false)]);
    // A tie goes to the local side.
    assert_eq!(made(T + 1, T + 1).plan(), vec![upload("a", false)]);
    let dirs = Made::new().local("a", true, T + 1).remote("a", true, T + 1).row("a", T, T);
    assert_eq!(dirs.plan(), vec![]);
}

#[test]
fn deletions_are_mirrored_where_the_parent_was_seen() {
    let gone_remotely = Made::new().local("d/a", false, T).row("d/a", T, T);
    assert_eq!(gone_remotely.plan(), vec![delete_local("d/a", false)]);
    let gone_locally = Made::new().remote("d/a", false, T).row("d/a", T, T);
    assert_eq!(gone_locally.plan(), vec![delete_remote("d/a", false)]);
    let changed_since = Made::new().local("d/a", false, T + 1).row("d/a", T, T);
    assert_eq!(changed_since.plan(), vec![upload("d/a", false)]);
    let directory = Made::new().local("d", true, T + 1).row("d", T, T);
    assert_eq!(directory.plan(), vec![delete_local("d", true)]);
}

#[test]
fn blank_enumerations_keep_both_copies() {
    // Two rows say that the parent holds something, and nothing was seen
    // there.
    let listing = Made::new()
        .local("d/a", false, T)
        .row("d/a", T, T)
        .local("d/b", false, T)
        .row("d/b", T, T)
        .local("e", false, T)
        .remote("e", false, T)
        .row("e", T, T);
    assert_eq!(listing.plan(), vec![]);
    let walk = Made::new()
        .remote("d/a", false, T)
        .row("d/a", T, T)
        .remote("d/b", false, T)
        .row("d/b", T, T);
    assert_eq!(walk.plan(), vec![]);
    // A stranger under the parent shows that it was enumerated.
    let replaced = Made::new()
        .local("d/a", false, T)
        .row("d/a", T, T)
        .local("d/b", false, T)
        .row("d/b", T, T)
        .remote("d/new", false, T);
    assert_eq!(
        replaced.plan(),
        vec![download("d/new", false), delete_local("d/a", false), delete_local("d/b", false)]
    );
}

#[test]
fn broken_walks_keep_remote_copies() {
    for broken in ["", "d", "d/sub", "d/sub/a"] {
        let made = Made::new().remote("d/sub/a", false, T).row("d/sub/a", T, T).broken(broken);
        assert_eq!(made.plan(), vec![], "{broken}");
    }
    let made = Made::new().remote("d/sub/a", false, T).row("d/sub/a", T, T).broken("d/other");
    assert_eq!(made.plan(), vec![delete_remote("d/sub/a", false)]);
}

#[test]
fn plans_go_by_phase_length_and_path() {
    let made = Made::new()
        .local("dir/deep", true, T)
        .local("zz", true, T)
        .remote("dir", true, T)
        .local("b", false, T)
        .local("a", false, T)
        .local("dir/long-name", false, T)
        .row("stale", T, T)
        .remote("gone", false, T)
        .row("gone", T, T)
        .local("seen", false, T)
        .remote("seen", false, T)
        .row("seen", T, T);
    let plan = made.plan();
    assert_eq!(
        plan,
        vec![
            upload("zz", true),
            download("dir", true),
            upload("dir/deep", true),
            upload("a", false),
            upload("b", false),
            upload("dir/long-name", false),
            Action::ClearDbRow { local_path: "/l/stale".to_owned(), remote_path: "stale".to_owned() },
            delete_remote("gone", false),
        ]
    );
    let phases: Vec<u8> = plan.iter().map(phase).collect();
    assert_eq!(phases, vec![0, 0, 0, 1, 1, 1, 3, 4]);
    assert_eq!(
        phase(&Action::Conflict { local_path: String::new(), remote_path: String::new() }),
        2
    );
}

#[test]
fn a_snapshot_has_one_plan() {
    let one = Made::new().local("a", false, T).local("b", true, T).remote("c", false, T);
    let other = Made::new().remote("c", false, T).local("b", true, T).local("a", false, T);
    assert_eq!(one.plan(), other.plan());
}

#[test]
fn plans_are_summed_up() {
    let made = Made::new()
        .local("a", false, T)
        .remote("b", false, T)
        .row("c", T, T)
        .local("d", false, T)
        .row("d", T, T)
        .remote("e", false, T)
        .row("e", T, T)
        .broken("x");
    let plan = made.plan();
    let sum = summarize(&made.snapshot, &plan);
    assert_eq!((sum.rows, sum.listed, sum.walked, sum.walk_unreliable), (3, 2, 2, 1));
    assert_eq!((sum.uploads, sum.downloads, sum.conflicts, sum.clear_rows), (1, 1, 0, 1));
    assert_eq!((sum.delete_local, sum.delete_remote), (1, 1));
}

#[test]
fn single_decisions_agree_with_the_plan() {
    let made = Made::new().local("a", false, T + 1).remote("a", false, T).row("a", T, T);
    let groups = group_db_keys_by_parent(&made.snapshot.db);
    let action = plan_one(
        "a",
        made.snapshot.local.get("a"),
        made.snapshot.remote.get("a"),
        made.snapshot.db.get("a"),
        &made.dir,
        &made.snapshot,
        &groups,
    );
    assert_eq!(action, Some(upload("a", false)));
    assert_eq!(
        plan_one("b", None, None, None, &made.dir, &made.snapshot, &groups),
        None
    );
}

#[test]
fn parents_are_verified_by_what_was_seen() {
    let made = Made::new().row("d/a", T, T).row("d/b", T, T).row("e/a", T, T);
    let groups = group_db_keys_by_parent(&made.snapshot.db);
    let db = &made.snapshot.db;
    let mut seen: PathMap<RemoteItem> = PathMap::new();
    assert!(!parent_is_verified("d/a", &seen, &groups, db));
    assert!(parent_is_verified("e/a", &seen, &groups, db));
    assert!(parent_is_verified("f/a", &seen, &groups, db));
    let _ = seen.insert("d/c".to_owned(), remote_item("d/c", false, T));
    assert!(parent_is_verified("d/a", &seen, &groups, db));
}

fn entry(name: &str, path: &str, is_dir: Option<bool>) -> DirEntry {
    DirEntry::Named {
        name: name.to_owned(),
        path: Ok(path.to_owned()),
        is_dir: is_dir.ok_or_else(|| "no type".to_owned()),
        time: Reading::At(T as u64),
    }
}

#[test]
fn walks_remember_where_they_failed() {
    let none: Vec<String> = vec![];
    let mut walk = Walk::new("/l", "Foo");
    walk.take_in(
        Ok(vec![
            entry("a", "/l/a", Some(false)),
            entry("sub", "/l/sub", Some(true)),
            entry(".a.swp", "/l/.a.swp", Some(false)),
            entry("odd", "/l/odd", None),
        ]),
        &none,
    );
    assert_eq!(walk.local.keys(), &vec!["Foo/a", "Foo/sub"]);
    assert_eq!(walk.open.len(), 2);
    walk.take_in(Err("permission denied".to_owned()), &none);
    assert_eq!(walk.unreliable.keys(), &vec!["Foo/odd", "Foo/sub"]);
    assert_eq!(walk.open.len(), 0);
}

#[test]
fn walks_note_broken_and_nameless_entries() {
    let mut walk = Walk::new("/l", "");
    let odd = vec![DirEntry::Broken("io".to_owned()), DirEntry::Nameless("raw".to_owned())];
    walk.take_in(Ok(odd), &vec![]);
    assert_eq!(walk.unreliable.keys(), &vec![""]);
    let mut walk = Walk::new("/l", "");
    let entries = vec![DirEntry::Named {
        name: "x".to_owned(),
        path: Err("/l/?".to_owned()),
        is_dir: Ok(false),
        time: Reading::Missing,
    }];
    walk.take_in(Ok(entries), &vec![]);
    assert_eq!(walk.unreliable.keys(), &vec!["x"]);
    assert_eq!(walk.local.len(), 0);
}

#[test]
fn unreadable_times_count_as_zero() {
    let mut walk = Walk::new("/l", "");
    for (name, time) in [("a", Reading::Missing), ("b", Reading::Unreadable)] {
        let mut walk = Walk::new("/l", "");
        let entries = vec![DirEntry::Named {
            name: name.to_owned(),
            path: Ok(format!("/l/{name}")),
            is_dir: Ok(false),
            time,
        }];
        walk.take_in(Ok(entries), &vec![]);
        assert_eq!(walk.local.get(name).unwrap().mtime_secs, 0);
    }
    walk.take_in(Ok(vec![entry("c", "/l/c", Some(false))]), &vec![]);
    assert_eq!(walk.local.get("c").unwrap().mtime_secs, T);
}

#[test]
fn snapshots_leave_excluded_subtrees_out() {
    let dir = sync_dir(1, 1, "/l", "");
    let excluded = Exclusions::collect(&dir, &vec![], &vec!["out".to_owned()]);
    let row = |path: &str| SyncItem {
        id: SyncItemId(1),
        sync_dir_id: SyncDirId(1),
        local_path: format!("/l/{path}"),
        remote_path: path.to_owned(),
        last_local_timestamp: T,
        last_remote_timestamp: T,
    };
    let rows = vec![row("in"), row("out/x")];
    let items = vec![
        remote_item("in", false, T),
        remote_item("out", true, T),
        remote_item("out/x", false, T),
    ];
    let mut walk = Walk::new("/l", "");
    walk.take_in(
        Ok(vec![entry("in", "/l/in", Some(false)), entry("out", "/l/out", Some(true))]),
        &excluded.local,
    );
    assert_eq!(walk.open.len(), 0);
    let snapshot = Snapshot::build(&excluded, &rows, &items, walk);
    assert_eq!(snapshot.remote.keys(), &vec!["in"]);
    assert_eq!(snapshot.local.keys(), &vec!["in"]);
    assert_eq!(snapshot.db.keys(), &vec!["in"]);
    assert_eq!(plan(&snapshot, &dir), vec![]);
}

fn logged(effects: Vec<Effect>) -> Vec<Notice> {
    effects
        .into_iter()
        .map(|effect| match effect {
            Effect::Log(notice) => notice,
            other => panic!("{other:?}"),
        })
        .collect()
}

#[test]
fn walks_go_depth_first_and_log_what_fails() {
    let none: Vec<String> = vec![];
    let mut walk = Walk::new("/l", "Foo");
    let first = walk.take_in(
        Ok(vec![
            DirEntry::Broken("io".to_owned()),
            entry("a", "/l/a", Some(true)),
            DirEntry::Nameless("raw".to_owned()),
            entry("b", "/l/b", Some(true)),
            DirEntry::Named {
                name: "p".to_owned(),
                path: Err("/l/p?".to_owned()),
                is_dir: Ok(false),
                time: Reading::Missing,
            },
        ]),
        &none,
    );
    let (root, key) = ("/l".to_owned(), "Foo".to_owned());
    assert_eq!(
        logged(first),
        vec![Notice::UnreadEntry {
            path: root.clone(),
            key: key.clone(),
            words: "io".to_owned(),
        }]
    );
    assert_eq!(walk.open.last().unwrap().dir.path, "/l/a");
    let second = walk.take_in(Ok(vec![entry("odd", "/l/a/odd", None)]), &none);
    assert_eq!(
        logged(second),
        vec![
            Notice::UnknownType {
                path: "/l/a/odd".to_owned(),
                key: "Foo/a/odd".to_owned(),
                words: "no type".to_owned(),
            },
            Notice::UnreadName { path: root, key, raw: "raw".to_owned() },
        ]
    );
    assert_eq!(walk.open.last().unwrap().dir.path, "/l/b");
    let third = walk.take_in(Err("denied".to_owned()), &none);
    assert_eq!(
        logged(third),
        vec![
            Notice::UnreadDir {
                path: "/l/b".to_owned(),
                key: "Foo/b".to_owned(),
                words: "denied".to_owned(),
            },
            Notice::UnreadPath { path: "/l/p?".to_owned(), key: "Foo/p".to_owned() },
        ]
    );
    assert!(walk.open.is_empty());
    assert_eq!(walk.local.keys(), &vec!["Foo/a", "Foo/b"]);
    assert_eq!(walk.unreliable.keys(), &vec!["Foo", "Foo/a/odd", "Foo/b", "Foo/p"]);
}

#[test]
fn walks_lose_nothing() {
    let prefixes = vec!["/l/out".to_owned()];
    let mut walk = Walk::new("/l", "");
    while let Some(open) = walk.open.last() {
        let listing = match open.dir.path.as_str() {
            "/l" => vec![
                entry("sub", "/l/sub", Some(true)),
                entry("out", "/l/out", Some(true)),
                entry("z", "/l/z", Some(false)),
            ],
            "/l/sub" => vec![
                entry("deep", "/l/sub/deep", Some(true)),
                entry(".x.swp", "/l/sub/.x.swp", Some(false)),
            ],
            "/l/sub/deep" => vec![entry("f", "/l/sub/deep/f", Some(false))],
            other => panic!("{other}"),
        };
        assert!(walk.take_in(Ok(listing), &prefixes).is_empty());
    }
    assert_eq!(walk.local.keys(), &vec!["sub", "sub/deep", "sub/deep/f", "z"]);
    assert_eq!(walk.unreliable.len(), 0);
}

#[test]
fn refrained_deletions_are_logged_by_path() {
    let made = Made::new()
        .local("d/a", false, T)
        .row("d/a", T, T)
        .row("d/b", T, T)
        .local("c", false, T + 1)
        .row("c", T, T)
        .remote("e/x", false, T)
        .row("e/x", T, T)
        .row("e/y", T, T)
        .remote("u/x", false, T)
        .row("u/x", T, T);
    let mut snapshot = made.snapshot;
    snapshot.walk_unreliable.insert("u".to_owned());
    let text = |text: &str| text.to_owned();
    assert_eq!(
        logged(remarks(&snapshot)),
        vec![
            Notice::Swapped { path: text("c"), local_time: T + 1, recorded: T },
            Notice::KeptLocal { path: text("d/a"), parent: text("d") },
            Notice::KeptRemote { path: text("e/x"), parent: text("e") },
            Notice::KeptUnwalked { path: text("u/x") },
        ]
    );
}

#[test]
fn log_lines_read_as_told() {
    let text = |text: &str| text.to_owned();
    let (path, key, words) = (text("/l/a"), text("a"), text("io"));
    let cases = vec![
        (
            Notice::UnreadDir { path: path.clone(), key: key.clone(), words: words.clone() },
            text("sync: walk read_dir failed for '/l/a' (key='a'): io; marking subtree unreliable."),
        ),
        (
            Notice::UnreadEntry { path: path.clone(), key: key.clone(), words: words.clone() },
            text("sync: walk entry iteration failed under '/l/a' (key='a'): io; marking subtree unreliable."),
        ),
        (
            Notice::UnreadName { path: path.clone(), key: key.clone(), raw: text("\"\\xFF\"") },
            text("sync: walk file_name non-UTF8 under '/l/a' (bytes=\"\\xFF\"); marking subtree unreliable."),
        ),
        (
            Notice::UnknownType { path: path.clone(), key: key.clone(), words: words.clone() },
            text("sync: walk file_type failed for '/l/a' (key='a'): io; marking entry unreliable."),
        ),
        (
            Notice::UnreadPath { path: path.clone(), key: key.clone() },
            text("sync: walk path non-UTF8 for '/l/a' (key='a'); marking entry unreliable."),
        ),
        (
            Notice::MissingRoot { path: text("Foo"), words: words.clone() },
            text("sync: remote dir 'Foo' missing for remote='R' (io); recreating and proceeding with empty listing."),
        ),
        (
            Notice::SlowedListing,
            text("sync: DEGRADED for 'R' — rate-limit warnings observed during listing; skipping this pass for backoff."),
        ),
        (Notice::FailedListing { words: words.clone() }, text("sync: list failed for R: io")),
        (
            Notice::SlowedApply,
            text("sync: pass for 'R' completed but rate-limit warnings surfaced during apply; flagging Degraded for backoff."),
        ),
        (
            Notice::VanishedSource { path: path.clone(), words },
            text("sync: copy_to_remote raced with local delete for '/l/a' — swallowing 'io'."),
        ),
        (
            Notice::StillListed { path: key.clone() },
            text("sync: ABORT local-delete-mirroring-remote remote=R path=a — stat returned None but list shows the file is still present (rclone cache race)."),
        ),
        (
            Notice::KeptLocal { path: text("d/a"), parent: text("d") },
            text("sync: SKIP DeleteLocal for 'd/a' — listing enumerated no entries under 'd' (likely rate-limited / cache flush); preserving local copy."),
        ),
        (
            Notice::Swapped { path: key.clone(), local_time: 1_700_000_000, recorded: -9 },
            text("sync: SWAP DeleteLocal → Upload for 'a' — local mtime 1700000000 newer than last synced -9 (likely failed upload cleanup); retrying upload."),
        ),
        (
            Notice::KeptUnwalked { path: key.clone() },
            text("sync: SKIP DeleteRemote for 'a' — local walk reported an error on this path or an ancestor; preserving remote copy."),
        ),
        (
            Notice::KeptRemote { path: text("d/a"), parent: text("d") },
            text("sync: SKIP DeleteRemote for 'd/a' — walk found no entries under 'd' (likely concurrent-write race); preserving remote copy."),
        ),
    ];
    for (notice, line) in cases {
        assert_eq!(notice.line("R"), line);
    }
}

#[test]
fn plan_lines_read_as_told() {
    let summary = PlanSummary {
        rows: 1,
        listed: 20,
        walked: 300,
        walk_unreliable: 0,
        uploads: 5,
        downloads: 6,
        delete_local: 7,
        delete_remote: 8,
        conflicts: 9,
        clear_rows: 10,
    };
    assert_eq!(
        log_plan_summary("R", "Foo", &summary),
        "sync: plan for remote='R' dir='Foo' — snapshot(db=1, listing=20, walk=300, walk_unreliable=0); actions(upload=5, download=6, delete_local=7, delete_remote=8, conflict=9, clear_db_row=10)."
    );
}
