# celeste_sync

The core of a folder synchroniser, verified with Verus: it decides what has to
be copied, removed or left alone, and proves what the decisions promise.

- `src/` is the library. Passes are state machines: each is handed a reply and
  answers with effects to carry out and one request, or with its result
  (`ports.rs`).
  - `sync/` takes a snapshot of the remote, the local tree and the recorded
    rows, plans, and applies the plan; `sync/plan_laws.rs` states what holds of
    every plan, `sync/run.rs` what holds of a whole pass.
  - `tree/` goes through both trees item by item, `sync_path.rs` syncs a single
    file, `should_sync.rs` finds out whether anything changed (`change_laws.rs`
    states what its result means), and `sync_dir_pass.rs` puts these together.
  - `driver.rs` runs the machines that sync one item (`path_item.rs`,
    `tree/local_item.rs`, `tree/remote_item.rs`, `sync/apply_item.rs`) on real
    paths; `item_laws.rs` states what holds of every run of one.
  - `notices.rs` holds what the passes leave in the log, `sync/remarks.rs` says
    which deletions a plan refrains from and why.
  - `auth/`, `secrets.rs` and `remote_lifecycle.rs` add, renew and remove
    accounts.
  - `test_support/` holds rows and a remote in memory.
- `app/` carries requests out: files, providers, the rows' store, the keyring
  and the screen.
- `tests/` runs the passes on a file tree in memory.

Trusted are the calls into `glob` (`src/ignore.rs`) and `serde_json`
(`src/auth/config.rs`).
