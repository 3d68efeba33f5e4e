//! Accounts: adding, renewing and removing remotes, and their secrets.

use celeste_sync::auth::oauth::{
    add_oauth_remote, authorize_args, extract_token, read_authorize, reauth_oauth_remote,
    AuthorizeRun,
};
use celeste_sync::auth::proton::{
    add_proton_drive_remote, proton_session_path, reauth_proton_drive_remote,
};
use celeste_sync::auth::provision::{AddRemote, Course, RenewConfig, Report, Task};
use celeste_sync::auth::webdav::{add_webdav_remote, effective_url};
use celeste_sync::auth::{OAuthProvider, WebDavVendor};
use celeste_sync::domain::{ProviderKind, RemoteId, SyncDirId, SyncPolicy};
use celeste_sync::remote_lifecycle::{delete_remote, Onward, Removal, Removed};
use celeste_sync::secrets;
use celeste_sync::secrets::{proton_account, KeyringError};

/// Follows the creation of a remote where everything works; gives the
/// configurations that were created and the names that were recorded.
fn follow(mut add: AddRemote) -> (Result<RemoteId, String>, Vec<String>, Vec<String>) {
    let mut created = vec![];
    let mut inserted = vec![];
    let mut course = add.begin();
    loop {
        course = match course {
            Course::Do(Task::CreateConfig(payload)) => {
                created.push(payload);
                add.step(Report::Done(Ok(())))
            },
            Course::Do(Task::InsertRemote(name)) => {
                inserted.push(name);
                let id = RemoteId(inserted.len() as i32);
                add.step(Report::Inserted(Ok(id)))
            },
            Course::Do(task) => panic!("unexpected task {task:?}"),
            Course::Finished(result) => return (result, created, inserted),
            Course::Fault => panic!("fault"),
        };
    }
}

#[test]
fn webdav_webdav_creates_rclone_config_and_inserts_row() {
    let add = add_webdav_remote(
        "Home NAS",
        "https://nas.example.org/webdav",
        "alex",
        "hunter2",
        WebDavVendor::WebDav,
    );
    let (id, created, inserted) = follow(add);
    let id = id.expect("add should succeed against fakes");

    assert_eq!(id.0, 1);
    assert_eq!(inserted.as_slice(), &["Home NAS".to_owned()]);
    assert_eq!(created.len(), 1);
    assert!(created[0].contains("\"vendor\":\"webdav\""));
    assert!(created[0].contains("\"user\":\"alex\""));
}

#[test]
fn webdav_nextcloud_reformats_the_url() {
    let add = add_webdav_remote(
        "Work Nextcloud",
        "https://cloud.example.org",
        "alex",
        "hunter2",
        WebDavVendor::Nextcloud,
    );
    let (id, created, _) = follow(add);
    id.unwrap();

    assert!(
        created[0].contains("/remote.php/dav/files/alex"),
        "expected Nextcloud URL to be rewritten, got: {}",
        created[0]
    );
}

#[test]
fn auth_service_webdav_creates_rclone_config_and_inserts_row() {
    let add = add_webdav_remote(
        "Home NAS",
        "https://nas.example.org/webdav",
        "alex",
        "hunter2",
        WebDavVendor::WebDav,
    );
    let (id, created, inserted) = follow(add);
    let id = id.expect("add should succeed against fakes");

    assert_eq!(id.0, 1);
    assert_eq!(inserted.as_slice(), &["Home NAS".to_owned()]);
    assert_eq!(created.len(), 1);
    assert!(created[0].contains("\"vendor\":\"webdav\""));
    assert!(created[0].contains("\"user\":\"alex\""));
}

#[test]
fn auth_service_nextcloud_reformats_the_url() {
    let add = add_webdav_remote(
        "Work Nextcloud",
        "https://cloud.example.org",
        "alex",
        "hunter2",
        WebDavVendor::Nextcloud,
    );
    let (id, created, _) = follow(add);
    id.unwrap();

    assert!(
        created[0].contains("/remote.php/dav/files/alex"),
        "expected Nextcloud URL to be rewritten, got: {}",
        created[0]
    );
}

#[test]
fn webdav_payload_is_a_json_document() {
    let add = add_webdav_remote("a \"b\"", "https://x/", "u", "p\\", WebDavVendor::Owncloud);
    let (_, created, _) = follow(add);
    assert_eq!(
        created[0],
        "{\"name\":\"a \\\"b\\\"\",\"opt\":{\"obscure\":true},\"parameters\":{\
         \"pass\":\"p\\\\\",\"url\":\"https://x/remote.php/dav/files/u\",\"user\":\"u\",\
         \"vendor\":\"owncloud\"},\"type\":\"webdav\"}"
    );
}

#[test]
fn only_hosted_clouds_get_another_address() {
    let url = "https://cloud.example.org//";
    assert_eq!(effective_url(url, "u", WebDavVendor::WebDav), url);
    let files = "https://cloud.example.org/remote.php/dav/files/u";
    assert_eq!(effective_url(url, "u", WebDavVendor::Nextcloud), files);
    assert_eq!(effective_url(url, "u", WebDavVendor::Owncloud), files);
}

#[test]
fn a_config_that_cannot_be_created_leaves_no_row() {
    let mut add = AddRemote::new("r", "{}".to_owned());
    assert_eq!(add.begin(), Course::Do(Task::CreateConfig("{}".to_owned())));
    let course = add.step(Report::Done(Err("refused".to_owned())));
    assert_eq!(course, Course::Finished(Err("refused".to_owned())));
    assert_eq!(add.step(Report::Done(Ok(()))), Course::Fault);
}

#[test]
fn a_row_that_cannot_be_inserted_is_told() {
    let mut add = AddRemote::new("r", "{}".to_owned());
    let _ = add.begin();
    let course = add.step(Report::Done(Ok(())));
    assert_eq!(course, Course::Do(Task::InsertRemote("r".to_owned())));
    let course = add.step(Report::Inserted(Err("locked".to_owned())));
    assert_eq!(course, Course::Finished(Err("locked".to_owned())));
}

#[test]
fn a_report_to_another_task_is_a_fault() {
    let mut add = AddRemote::new("r", "{}".to_owned());
    let _ = add.begin();
    assert_eq!(add.step(Report::Inserted(Ok(RemoteId(3)))), Course::Fault);
}

#[test]
fn renewal_ignores_a_stale_config_that_stays() {
    for dropped in [Ok(()), Err("no such config".to_owned())] {
        let mut renew = RenewConfig::new("r", "{}".to_owned());
        assert_eq!(renew.begin(), Course::Do(Task::DropConfig("r".to_owned())));
        let course = renew.step(Report::Done(dropped));
        assert_eq!(course, Course::Do(Task::CreateConfig("{}".to_owned())));
        assert_eq!(renew.step(Report::Done(Ok(()))), Course::Finished(Ok(())));
    }
}

#[test]
fn a_failed_renewal_is_told() {
    let mut renew = RenewConfig::new("r", "{}".to_owned());
    let _ = renew.begin();
    let _ = renew.step(Report::Done(Ok(())));
    let course = renew.step(Report::Done(Err("refused".to_owned())));
    assert_eq!(course, Course::Finished(Err("refused".to_owned())));
}

#[test]
fn own_credentials_are_passed_only_in_pairs() {
    let plain = vec!["authorize".to_owned(), "drive".to_owned()];
    assert_eq!(authorize_args(OAuthProvider::GDrive, None, None), plain);
    assert_eq!(authorize_args(OAuthProvider::GDrive, Some("id"), None), plain);
    assert_eq!(authorize_args(OAuthProvider::GDrive, Some("id"), Some("")), plain);
    assert_eq!(authorize_args(OAuthProvider::GDrive, Some(""), Some("s")), plain);
    assert_eq!(
        authorize_args(OAuthProvider::Dropbox, Some("id"), Some("s")),
        vec!["authorize", "dropbox", "id", "s"]
    );
    assert_eq!(authorize_args(OAuthProvider::PCloud, None, None)[1], "pcloud");
}

#[test]
fn the_first_token_line_is_taken() {
    let printed = "Paste this\n--->\n  {\"access_token\":\"SECRET-REDACTED\"}\r\n{}\n<---";
    assert_eq!(extract_token(printed), Ok("{\"access_token\":\"SECRET-REDACTED\"}".to_owned()));
    assert_eq!(extract_token("{}"), Ok("{}".to_owned()));
}

#[test]
fn output_without_a_token_is_told() {
    let told = "couldn't parse rclone authorize output (expected a JSON token line). Raw:\n";
    assert_eq!(extract_token(" {x\ny} \n"), Err(format!("{told}{{x\ny}}")));
    assert_eq!(extract_token(""), Err(told.to_owned()));
}

#[test]
fn failed_authorizations_are_told() {
    let run = AuthorizeRun::NotRun("not found".to_owned());
    assert_eq!(
        read_authorize(run),
        Err("couldn't run `rclone authorize`: not found".to_owned())
    );
    let run = AuthorizeRun::Failed {
        status: "exit status: 1".to_owned(),
        stderr: " no browser\n".to_owned(),
    };
    assert_eq!(
        read_authorize(run),
        Err("rclone authorize exited with exit status: 1: no browser".to_owned())
    );
}

#[test]
fn oauth_payload_is_a_json_document() {
    let run = AuthorizeRun::Finished { stdout: "{\"t\":1}".to_owned() };
    let add = add_oauth_remote("d", OAuthProvider::GDrive, Some("id"), None, run).unwrap();
    let (id, created, inserted) = follow(add);
    assert_eq!(id, Ok(RemoteId(1)));
    assert_eq!(inserted, vec!["d"]);
    assert_eq!(
        created,
        vec![
            "{\"name\":\"d\",\"parameters\":{\"client_id\":\"id\",\"client_secret\":\"\",\
             \"config_refresh_token\":false,\"token\":\"{\\\"t\\\":1}\"},\"type\":\"drive\"}"
        ]
    );
}

#[test]
fn oauth_flows_need_a_token() {
    let run = || AuthorizeRun::NotRun("gone".to_owned());
    let told = "couldn't run `rclone authorize`: gone";
    let add = add_oauth_remote("d", OAuthProvider::PCloud, None, None, run());
    assert_eq!(add.err(), Some(told.to_owned()));
    let renew = reauth_oauth_remote("d", OAuthProvider::PCloud, None, None, run());
    assert_eq!(renew.err(), Some(told.to_owned()));
}

#[test]
fn reauth_replaces_the_config_under_its_name() {
    let run = AuthorizeRun::Finished { stdout: "{}".to_owned() };
    let mut renew = reauth_oauth_remote("d", OAuthProvider::Dropbox, None, None, run).unwrap();
    assert_eq!(renew.begin(), Course::Do(Task::DropConfig("d".to_owned())));
    match renew.step(Report::Done(Ok(()))) {
        Course::Do(Task::CreateConfig(payload)) => {
            assert!(payload.contains("\"name\":\"d\""));
            assert!(payload.contains("\"type\":\"dropbox\""));
        },
        other => panic!("unexpected {other:?}"),
    }
}

#[test]
fn session_files_have_plain_names() {
    assert_eq!(
        proton_session_path("/home/a/.local", "Mein Läufer/..-_9"),
        "/home/a/.local/proton-session-Mein_L_ufer___-_9.json"
    );
    assert_eq!(proton_session_path("", "x"), "proton-session-x.json");
    assert_eq!(proton_session_path("/", "x"), "/proton-session-x.json");
}

#[test]
fn proton_setup_goes_step_by_step() {
    let mut setup = add_proton_drive_remote("p", "u", "w", "123", "/c");
    let path = "/c/proton-session-p.json".to_owned();
    assert_eq!(
        setup.begin(),
        Course::Do(Task::Login {
            username: "u".to_owned(),
            password: "w".to_owned(),
            two_fa: "123".to_owned(),
            mailbox_password: String::new(),
        })
    );
    assert_eq!(
        setup.step(Report::LoggedIn(Ok("uid".to_owned()))),
        Course::Do(Task::MakeParents(path.clone()))
    );
    assert_eq!(
        setup.step(Report::Done(Ok(()))),
        Course::Do(Task::SaveSession { uid: "uid".to_owned(), path: path.clone() })
    );
    assert_eq!(
        setup.step(Report::Done(Ok(()))),
        Course::Do(Task::InsertProtonRemote { name: "p".to_owned(), session_path: path })
    );
    assert_eq!(
        setup.step(Report::Inserted(Ok(RemoteId(7)))),
        Course::Do(Task::SetPolicy {
            id: RemoteId(7),
            policy: SyncPolicy::SuitedTo(ProviderKind::ProtonDrive),
        })
    );
    assert_eq!(
        setup.step(Report::Done(Err("no policy".to_owned()))),
        Course::Do(Task::Register { name: "p".to_owned(), uid: "uid".to_owned() })
    );
    assert_eq!(setup.step(Report::Done(Ok(()))), Course::Finished(Ok(Some(RemoteId(7)))));
    assert_eq!(setup.step(Report::Done(Ok(()))), Course::Fault);
}

#[test]
fn known_proton_remotes_keep_their_row() {
    let mut setup = reauth_proton_drive_remote("p", "u", "w", "", "/c");
    let _ = setup.begin();
    let _ = setup.step(Report::LoggedIn(Ok("uid".to_owned())));
    assert_eq!(
        setup.step(Report::Done(Ok(()))),
        Course::Do(Task::SaveSession {
            uid: "uid".to_owned(),
            path: "/c/proton-session-p.json".to_owned(),
        })
    );
    assert_eq!(
        setup.step(Report::Done(Ok(()))),
        Course::Do(Task::Register { name: "p".to_owned(), uid: "uid".to_owned() })
    );
    assert_eq!(setup.step(Report::Done(Ok(()))), Course::Finished(Ok(None)));
}

#[test]
fn proton_failures_end_the_setup() {
    let words = || "bad".to_owned();
    for failing in 0..4 {
        let mut setup = add_proton_drive_remote("p", "u", "w", "", "/c");
        let _ = setup.begin();
        let reports = [
            Report::LoggedIn(Ok("uid".to_owned())),
            Report::Done(Ok(())),
            Report::Done(Ok(())),
        ];
        for report in reports.into_iter().take(failing) {
            let _ = setup.step(report);
        }
        let report = match failing {
            0 => Report::LoggedIn(Err(words())),
            3 => Report::Inserted(Err(words())),
            _ => Report::Done(Err(words())),
        };
        assert_eq!(setup.step(report), Course::Finished(Err(words())));
    }
}

#[test]
fn keyring_answers_are_told() {
    let init = || KeyringError::Init("locked".to_owned());
    let missing = || KeyringError::NoEntry("no entry".to_owned());
    let other = || KeyringError::Other("denied".to_owned());

    assert_eq!(secrets::store(Ok(())), Ok(()));
    let told = |words: &str| Err::<(), String>(words.to_owned());
    assert_eq!(secrets::store(Err(init())), told("keyring entry init failed: locked"));
    assert_eq!(secrets::store(Err(missing())), told("keyring write failed: no entry"));
    assert_eq!(secrets::store(Err(other())), told("keyring write failed: denied"));

    assert_eq!(secrets::load(Ok("v".to_owned())), Ok(Some("v".to_owned())));
    assert_eq!(secrets::load(Err(missing())), Ok(None));
    assert_eq!(secrets::load(Err(other())), Err("keyring read failed: denied".to_owned()));
    assert_eq!(secrets::load(Err(init())), Err("keyring entry init failed: locked".to_owned()));

    assert_eq!(secrets::delete(Ok(())), Ok(()));
    assert_eq!(secrets::delete(Err(missing())), Ok(()));
    assert_eq!(secrets::delete(Err(other())), told("keyring delete failed: denied"));
    assert_eq!(secrets::delete(Err(init())), told("keyring entry init failed: locked"));
}

#[test]
fn accounts_tell_remotes_apart() {
    assert_eq!(proton_account("Drive"), "proton-session-Drive");
    assert_ne!(proton_account("Drive"), proton_account("drive"));
    assert_eq!(secrets::SERVICE, "Celeste Keys");
    assert_eq!(secrets::RCLONE_ACCOUNT, "rclone-config");
}

#[test]
fn removal_goes_bottom_up() {
    let mut removal = delete_remote("r");
    assert_eq!(removal.begin(), Onward::Do(Removal::Find("r".to_owned())));
    let mut seen = vec![];
    let mut onward = removal.step(Removed::Found(Ok(Some(RemoteId(4)))));
    loop {
        onward = match onward {
            Onward::Do(Removal::ListSyncDirs(id)) => {
                assert_eq!(id, RemoteId(4));
                removal.step(Removed::Listed(Ok(vec![SyncDirId(9), SyncDirId(8)])))
            },
            Onward::Do(step) => {
                seen.push(step);
                removal.step(Removed::Done(Ok(())))
            },
            Onward::Finished(result) => {
                assert_eq!(result, Ok(()));
                break;
            },
            Onward::Fault => panic!("fault"),
        };
    }
    assert_eq!(
        seen,
        vec![
            Removal::DeleteItems(SyncDirId(9)),
            Removal::DeleteSyncDir(SyncDirId(9)),
            Removal::DeleteItems(SyncDirId(8)),
            Removal::DeleteSyncDir(SyncDirId(8)),
            Removal::DeleteRemote(RemoteId(4)),
            Removal::DeleteConfig("r".to_owned()),
        ]
    );
}

#[test]
fn unknown_remotes_are_not_removed() {
    let mut removal = delete_remote("r");
    let _ = removal.begin();
    let onward = removal.step(Removed::Found(Ok(None)));
    assert_eq!(onward, Onward::Finished(Err("remote 'r' not found".to_owned())));
}

#[test]
fn a_failure_stops_the_removal() {
    let failed = || Removed::Done(Err("locked".to_owned()));
    for worked in 0..4 {
        let mut removal = delete_remote("r");
        let _ = removal.begin();
        let _ = removal.step(Removed::Found(Ok(Some(RemoteId(4)))));
        let _ = removal.step(Removed::Listed(Ok(vec![SyncDirId(9)])));
        for _ in 0..worked {
            let _ = removal.step(Removed::Done(Ok(())));
        }
        assert_eq!(removal.step(failed()), Onward::Finished(Err("locked".to_owned())));
        assert_eq!(removal.step(Removed::Done(Ok(()))), Onward::Fault);
    }
    let mut removal = delete_remote("r");
    let _ = removal.begin();
    let onward = removal.step(Removed::Found(Err("locked".to_owned())));
    assert_eq!(onward, Onward::Finished(Err("locked".to_owned())));
    let mut removal = delete_remote("r");
    let _ = removal.begin();
    let _ = removal.step(Removed::Found(Ok(Some(RemoteId(4)))));
    let onward = removal.step(Removed::Listed(Err("locked".to_owned())));
    assert_eq!(onward, Onward::Finished(Err("locked".to_owned())));
}
