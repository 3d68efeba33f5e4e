//! The rows and the remote that tests run on.

use celeste_sync::domain::{Backend, RemoteId, SyncDirId, SyncItemId, SyncPolicy};
use celeste_sync::labels::Interval;
use celeste_sync::test_support::fake_backend::StatAnswer;
use celeste_sync::test_support::{remote, remote_item, sync_dir, FakeBackend, FakeRepo};

#[test]
fn values_are_made_as_told() {
    let r = remote(3, "R");
    assert_eq!((r.id, r.name.as_str(), r.backend), (RemoteId(3), "R", Backend::Rclone));
    assert_eq!(r.session_path, None);
    assert_eq!((r.policy, r.provider_kind), (SyncPolicy::default(), None));
    assert_ne!(r.policy, SyncPolicy::Chosen { interval: Interval::OneHour, enabled: true });
    let sd = sync_dir(4, 3, "/l", "r");
    assert_eq!((sd.id, sd.remote_id), (SyncDirId(4), RemoteId(3)));
    assert_eq!((sd.local_path.as_str(), sd.remote_path.as_str()), ("/l", "r"));
    let item = remote_item("a/b.txt", false, -5);
    assert_eq!((item.path.as_str(), item.name.as_str()), ("a/b.txt", "b.txt"));
    assert_eq!((item.is_dir, item.mod_time), (false, -5));
    assert_eq!(remote_item("top", true, 0).name, "top");
}

#[test]
fn default_rows_belong_to_no_wanted_directory() {
    let repo = FakeRepo::default();
    assert_eq!((repo.items.len(), repo.next_id, repo.sync_dir_exists), (0, 0, false));
    let repo = FakeRepo::new();
    assert_eq!((repo.items.len(), repo.next_id, repo.sync_dir_exists), (0, 0, true));
}

fn filled() -> FakeRepo {
    let mut repo = FakeRepo::new();
    assert_eq!(repo.insert_item(SyncDirId(1), "/l/a", "a", 1, 2), SyncItemId(1));
    assert_eq!(repo.insert_item(SyncDirId(1), "/l/a/b", "a/b", 3, 4), SyncItemId(2));
    assert_eq!(repo.insert_item(SyncDirId(2), "/l/a", "a", 5, 6), SyncItemId(3));
    assert_eq!(repo.insert_item(SyncDirId(1), "/l/ab", "ab", 7, 8), SyncItemId(4));
    repo
}

#[test]
fn recorded_rows_are_found() {
    let repo = filled();
    assert_eq!(repo.item_count(), 4);
    assert!(repo.has_item("/l/a/b", "a/b"));
    assert!(!repo.has_item("/l/a/b", "a"));
    let ids = |sd| -> Vec<SyncItemId> { repo.list_sync_items(sd).iter().map(|i| i.id).collect() };
    assert_eq!(ids(SyncDirId(1)), vec![SyncItemId(1), SyncItemId(2), SyncItemId(4)]);
    assert_eq!(ids(SyncDirId(9)), vec![]);
    let found = repo.find_sync_item_by_paths(SyncDirId(2), "/l/a", "a").unwrap();
    assert_eq!((found.id, found.last_local_timestamp), (SyncItemId(3), 5));
    assert_eq!(repo.find_sync_item_by_paths(SyncDirId(2), "/l/a", "b"), None);
    assert_eq!(repo.find_sync_item_by_local(SyncDirId(1), "/l/ab").unwrap().id, SyncItemId(4));
    assert_eq!(repo.find_sync_item_by_remote(SyncDirId(1), "a/b").unwrap().id, SyncItemId(2));
    assert!(repo.sync_dir_exists);
}

#[test]
fn timestamps_are_updated_by_id() {
    let mut repo = filled();
    repo.update_sync_item_timestamps(SyncItemId(2), 30, 40);
    repo.update_sync_item_timestamps(SyncItemId(99), 1, 1);
    let times: Vec<(i64, i64)> =
        repo.items.iter().map(|i| (i.last_local_timestamp, i.last_remote_timestamp)).collect();
    assert_eq!(times, vec![(1, 2), (30, 40), (5, 6), (7, 8)]);
}

#[test]
fn discarded_rows_are_gone_and_no_others() {
    let left = |repo: &FakeRepo| -> Vec<i32> { repo.items.iter().map(|i| i.id.0).collect() };
    let mut repo = filled();
    repo.delete_sync_item(SyncItemId(1));
    assert_eq!(left(&repo), vec![2, 3, 4]);
    let mut repo = filled();
    repo.delete_sync_item_by_paths(SyncDirId(1), "/l/a", "a");
    assert_eq!(left(&repo), vec![2, 3, 4]);
    let mut repo = filled();
    repo.delete_sync_items_with_local_prefix(SyncDirId(1), "/l/a");
    assert_eq!(left(&repo), vec![3, 4]);
    assert_eq!(repo.insert_item(SyncDirId(1), "x", "y", 0, 0), SyncItemId(5));
}

#[test]
fn what_is_not_set_works_and_finds_nothing() {
    let mut client = FakeBackend::default();
    assert_eq!(client.stat("a"), Ok(None));
    assert_eq!(client.list(""), Ok(vec![]));
    assert_eq!(client.mkdir("d"), Ok(()));
    assert_eq!(client.delete_file("f"), Ok(()));
    assert_eq!(client.purge("p"), Ok(()));
    assert_eq!(client.copy_to_remote("/l", "r"), Ok(()));
    assert_eq!(client.copy_to_local("/m", "s"), Ok(()));
    assert_eq!(client.stat_calls, vec!["a"]);
    assert_eq!(client.list_calls, vec![""]);
    assert_eq!(client.mkdir_calls, vec!["d"]);
    assert_eq!(client.delete_file_calls, vec!["f"]);
    assert_eq!(client.purge_calls, vec!["p"]);
    assert_eq!(client.copy_to_remote_calls, vec![("/l".to_owned(), "r".to_owned())]);
    assert_eq!(client.copy_to_local_calls, vec![("/m".to_owned(), "s".to_owned())]);
}

#[test]
fn what_is_set_is_given() {
    let failure = || Err::<(), String>("no".to_owned());
    let mut client = FakeBackend::default();
    client.set_stat("a", Err("no".to_owned()));
    client.set_list("d", Ok(vec![remote_item("d/x", false, 1)]));
    client.set_copy_to_remote(failure());
    client.set_copy_to_local(failure());
    client.set_delete_file(failure());
    client.set_purge(failure());
    assert_eq!(client.stat("a"), Err("no".to_owned()));
    assert_eq!(client.stat("a"), Err("no".to_owned()));
    assert_eq!(client.list("d"), Ok(vec![remote_item("d/x", false, 1)]));
    assert_eq!(client.copy_to_remote("", ""), failure());
    assert_eq!(client.copy_to_local("", ""), failure());
    assert_eq!(client.delete_file(""), failure());
    assert_eq!(client.purge(""), failure());
}

#[test]
fn queued_answers_come_in_order() {
    let mut client = FakeBackend::default();
    client.set_stat("a", Ok(Some(remote_item("a", true, 9))));
    client.set_stat_sequence(
        "a",
        vec![StatAnswer(Ok(None)), StatAnswer(Err("flaky".to_owned()))],
    );
    assert_eq!(client.stat("a"), Ok(None));
    assert_eq!(client.stat("b"), Ok(None));
    assert_eq!(client.stat("a"), Err("flaky".to_owned()));
    assert_eq!(client.stat("a"), Ok(Some(remote_item("a", true, 9))));
    assert_eq!(client.stat_calls, vec!["a", "b", "a", "a"]);
}
