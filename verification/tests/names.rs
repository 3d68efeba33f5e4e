//! Names, paths and texts.

use celeste_sync::editor_temp;
use celeste_sync::ignore::{is_ignored, read_patterns};
use celeste_sync::labels::{Interval, SyncStatus};
use celeste_sync::ops::Destruction;
use celeste_sync::path_map::{PathMap, PathSet};
use celeste_sync::paths::{is_within, name_of, parent_of, relative_to};
use celeste_sync::sync::planner::{ancestor_in_set, db_local_path, derive_local_path};
use celeste_sync::sync::snapshot::{
    absolute_remote_path, is_directory_missing_error, path_is_excluded,
    remote_descendant_relative, Exclusions,
};
use celeste_sync::sync_dir_ops::{
    is_editor_temp, kind_name, log_destructive_op, FILE_IGNORE_NAME,
};
use celeste_sync::test_support::sync_dir;
use celeste_sync::text::{
    byte_length, ends_with, precedes, same, split_lines, starts_with, trim, write_decimal,
    write_digits,
};
use celeste_sync::theme::{celeste_theme, Mode, Theme};
use celeste_sync::util::{
    fmt_home, get_data_dir, get_legacy_config_dir, get_runtime_dir, strip_slashes,
};

#[test]
fn common_offenders_match() {
    assert!(editor_temp::is_editor_temp(".foo.kate-swp"));
    assert!(editor_temp::is_editor_temp(".bar.swp"));
    assert!(editor_temp::is_editor_temp(".bar.swo"));
    assert!(editor_temp::is_editor_temp(".bar.swn"));
    assert!(editor_temp::is_editor_temp(".#baz"));
    assert!(editor_temp::is_editor_temp("#baz#"));
    assert!(editor_temp::is_editor_temp("baz~"));
    assert!(editor_temp::is_editor_temp(".goutputstream-abc"));
    assert!(editor_temp::is_editor_temp("file.crdownload"));
    assert!(editor_temp::is_editor_temp("file.part"));
}

#[test]
fn real_files_dont_match() {
    assert!(!editor_temp::is_editor_temp("real-file.txt"));
    assert!(!editor_temp::is_editor_temp("swapfile"));
    assert!(!editor_temp::is_editor_temp(".hidden"));
}

#[test]
fn editor_temp_pattern_matches_common_offenders() {
    assert!(is_editor_temp(".foo.kate-swp"));
    assert!(is_editor_temp(".bar.swp"));
    assert!(is_editor_temp(".bar.swo"));
    assert!(is_editor_temp(".bar.swn"));
    assert!(is_editor_temp(".#baz"));
    assert!(is_editor_temp("#baz#"));
    assert!(is_editor_temp("baz~"));
    assert!(is_editor_temp(".goutputstream-abc"));
    assert!(is_editor_temp("file.crdownload"));
    assert!(is_editor_temp("file.part"));

    assert!(!is_editor_temp("real-file.txt"));
    assert!(!is_editor_temp("swapfile")); // not .swp
    assert!(!is_editor_temp(".hidden")); // dotfiles are real files
}

#[test]
fn ancestor_in_set_walks_up_to_root() {
    let mut set = PathSet::new();
    assert!(!ancestor_in_set("a/b/c", &set));
    set.insert("a/b".to_owned());
    assert!(ancestor_in_set("a/b/c", &set));
    assert!(ancestor_in_set("a/b", &set));
    assert!(!ancestor_in_set("a", &set));

    let mut root_set = PathSet::new();
    root_set.insert(String::new());
    assert!(ancestor_in_set("any/path", &root_set));
    assert!(ancestor_in_set("a", &root_set));
}


#[test]
fn temp_names_need_both_ends() {
    assert!(!is_editor_temp("foo.swp"));
    assert!(is_editor_temp(".swp"));
    assert!(is_editor_temp("#"));
    assert!(!is_editor_temp("#baz"));
    assert!(!is_editor_temp("part"));
    assert!(!is_editor_temp(""));
}

#[test]
fn home_is_shown_as_a_tilde() {
    let home = || Some("/home/alex".to_owned());
    assert_eq!(fmt_home("/home/alex/notes", home()), "~/notes");
    assert_eq!(fmt_home("/home/alex", home()), "~");
    assert_eq!(fmt_home("/srv/data", home()), "/srv/data");
    assert_eq!(fmt_home("/srv/data", None), "/srv/data");
    assert_eq!(fmt_home("/srv", Some(String::new())), "~/srv");
}

#[test]
fn one_slash_is_stripped_at_each_end() {
    assert_eq!(strip_slashes("/a/b/"), "a/b");
    assert_eq!(strip_slashes("//a//"), "/a/");
    assert_eq!(strip_slashes("/"), "");
    assert_eq!(strip_slashes(""), "");
    assert_eq!(strip_slashes("ä/"), "ä");
}

fn bytes(text: &str) -> Option<Vec<u8>> {
    Some(text.as_bytes().to_vec())
}

#[test]
fn directories_follow_the_environment() {
    let dir = |text: &str| text.as_bytes().to_vec();
    assert_eq!(get_data_dir(bytes("/d"), bytes("/h")), dir("/d/celeste"));
    assert_eq!(get_data_dir(bytes("/d/"), None), dir("/d/celeste"));
    assert_eq!(get_data_dir(bytes(""), bytes("/h")), dir("/h/.local/share/celeste"));
    assert_eq!(get_data_dir(None, bytes("/h")), dir("/h/.local/share/celeste"));
    assert_eq!(get_data_dir(None, None), dir(".local/share/celeste"));
    assert_eq!(get_legacy_config_dir(bytes("/c"), None), dir("/c/celeste"));
    assert_eq!(get_legacy_config_dir(None, bytes("/h")), dir("/h/.config/celeste"));
    assert_eq!(get_legacy_config_dir(bytes(""), None), dir(".config/celeste"));
    assert_eq!(get_runtime_dir(bytes("/run/user/1")), bytes("/run/user/1/celeste"));
    assert_eq!(get_runtime_dir(bytes("")), None);
    assert_eq!(get_runtime_dir(None), None);
}

#[test]
fn lines_and_trimming_follow_std() {
    for text in ["", "a", "a\n", "a\r\nb", "\n\n", "a\r", "x\n\r\ny\r\n"] {
        let lines: Vec<String> = text.lines().map(str::to_owned).collect();
        assert_eq!(split_lines(text), lines, "{text:?}");
    }
    for text in ["", " a ", "\u{a0}ä\u{3000}", "\t\r\n", "a b", "\u{85}x\u{200b}"] {
        assert_eq!(trim(text), text.trim(), "{text:?}");
    }
}

#[test]
fn texts_are_ordered_as_std_orders_them() {
    let texts = ["", "a", "aa", "b", "ä", "z", "a/b", "a-b", "\u{10ffff}", "\u{ffff}"];
    for a in texts {
        for b in texts {
            assert_eq!(precedes(a, b), a < b);
            assert_eq!(same(a, b), a == b);
            assert_eq!(starts_with(a, b), a.starts_with(b));
            assert_eq!(ends_with(a, b), a.ends_with(b));
        }
        assert_eq!(byte_length(a), a.len() as u128);
    }
}

#[test]
fn parents_and_names_come_together_again() {
    assert_eq!(parent_of("a/b/c"), "a/b");
    assert_eq!(name_of("a/b/c"), "c");
    assert_eq!(parent_of("a"), "");
    assert_eq!(name_of("a"), "a");
    assert_eq!(parent_of("/a"), "");
    assert_eq!(name_of("a/"), "");
    assert!(is_within("a/b", "a"));
    assert!(is_within("a", "a"));
    assert!(!is_within("ab", "a"));
    assert_eq!(relative_to("a/b/c", "a"), Some("b/c".to_owned()));
    assert_eq!(relative_to("a", "a"), None);
}

#[test]
fn ignore_patterns_match_as_globs_do() {
    let content = "*.tmp\nbuild/**\n[\na**\n\n".to_owned();
    let patterns = read_patterns(Some(content));
    assert_eq!(patterns, vec!["*.tmp", "build/**", "[", "a**", ""]);
    assert!(is_ignored(&patterns, "x.tmp"));
    assert!(is_ignored(&patterns, "dir/x.tmp"));
    assert!(is_ignored(&patterns, "build/out/x"));
    assert!(is_ignored(&patterns, ""));
    assert!(!is_ignored(&patterns, "x.tmpl"));
    // Not valid, so they match nothing, not even themselves.
    assert!(!is_ignored(&patterns, "["));
    assert!(!is_ignored(&patterns, "a**"));
    assert!(!is_ignored(&read_patterns(None), "x.tmp"));
    assert_eq!(FILE_IGNORE_NAME, ".sync-exclude.lst");
}

#[test]
fn maps_keep_one_value_per_key_in_order() {
    let mut map: PathMap<Vec<u8>> = PathMap::new();
    assert_eq!(map.insert("b".to_owned(), vec![1]), None);
    assert_eq!(map.insert("a".to_owned(), vec![2]), None);
    assert_eq!(map.insert("c".to_owned(), vec![3]), None);
    assert_eq!(map.insert("b".to_owned(), vec![4]), Some(vec![1]));
    assert_eq!(map.len(), 3);
    assert_eq!(map.keys(), &vec!["a", "b", "c"]);
    assert_eq!(map.get("b"), Some(&vec![4]));
    assert_eq!(map.get("d"), None);
    assert!(map.contains_key("a"));
}

#[test]
fn missing_directories_are_told_from_other_failures() {
    assert!(is_directory_missing_error("error in ListJSON: Directory Not Found"));
    assert!(is_directory_missing_error("'x' not found on remote"));
    assert!(is_directory_missing_error("lstat: no such file or directory"));
    assert!(!is_directory_missing_error("connection reset"));
    assert!(!is_directory_missing_error("not found"));
}

#[test]
fn remote_paths_are_taken_apart_and_put_together() {
    let root = sync_dir(1, 1, "/l", "");
    let deep = sync_dir(1, 1, "/l", "Foo");
    assert_eq!(remote_descendant_relative(&root, "bar"), Some("bar".to_owned()));
    assert_eq!(remote_descendant_relative(&root, ""), None);
    assert_eq!(remote_descendant_relative(&deep, "Foo/bar"), Some("bar".to_owned()));
    assert_eq!(remote_descendant_relative(&deep, "Foo"), None);
    assert_eq!(remote_descendant_relative(&deep, "Foobar"), None);
    assert_eq!(absolute_remote_path(&root, "bar"), "bar");
    assert_eq!(absolute_remote_path(&deep, "bar"), "Foo/bar");
    let prefixes = vec!["x/y".to_owned(), "z".to_owned()];
    assert!(path_is_excluded("x/y", &prefixes));
    assert!(path_is_excluded("z/a", &prefixes));
    assert!(!path_is_excluded("x", &prefixes));
    assert!(!path_is_excluded("za", &prefixes));
}

#[test]
fn local_paths_are_derived_from_remote_ones() {
    let root = sync_dir(1, 1, "/l", "");
    let deep = sync_dir(1, 1, "/l", "Foo");
    assert_eq!(derive_local_path("a/b", &root), "/l/a/b");
    assert_eq!(derive_local_path("", &root), "/l");
    assert_eq!(derive_local_path("Foo/a", &deep), "/l/a");
    assert_eq!(derive_local_path("Bar/a", &deep), "/l/Bar/a");
    assert_eq!(db_local_path("Foo/a", &deep), "/l/a");
}

#[test]
fn other_directories_and_the_users_choice_are_excluded() {
    let own = sync_dir(1, 1, "/l", "Foo");
    let all = vec![
        sync_dir(1, 1, "/l", "Foo"),
        sync_dir(2, 1, "/m", "Foo/sub"),
        sync_dir(3, 1, "/n", "Other"),
        sync_dir(4, 2, "/o", "Foo/elsewhere"),
    ];
    let found = Exclusions::collect(&own, &all, &vec!["keep/out".to_owned()]);
    assert_eq!(found.local, vec!["/l/sub", "/l/keep/out"]);
    assert_eq!(found.remote, vec!["Foo/sub", "sub", "Foo/keep/out", "keep/out"]);
}

#[test]
fn destructions_announce_themselves() {
    assert_eq!(
        log_destructive_op("mirror-local", "Drive", "a/b.txt"),
        "sync: DELETE mirror-local remote=Drive path=a/b.txt"
    );
    let kinds = [
        (Destruction::MirrorLocal, "mirror-local"),
        (Destruction::MirrorRemote, "mirror-remote"),
        (
            Destruction::LocalGoneRemoteMatchesRow,
            "sync_single_path/local-gone-remote-matches-db",
        ),
        (Destruction::PurgeOnTypeMismatch, "purge-on-type-mismatch"),
        (Destruction::LocalDeleteMirroringRemote, "local-delete-mirroring-remote"),
        (Destruction::DeleteRemoteFileOnTypeMismatch, "delete-remote-file-on-type-mismatch"),
        (Destruction::PurgeRemoteDirOnTypeMismatch, "purge-remote-dir-on-type-mismatch"),
        (Destruction::DeleteRemoteMirroringLocal, "delete-remote-mirroring-local"),
        (Destruction::RemoveLocalOnTypeMismatch, "remove-local-on-type-mismatch"),
    ];
    for (kind, name) in kinds {
        assert_eq!(kind_name(kind), name);
    }
}

#[test]
fn labels_and_themes_are_told() {
    let intervals = [
        (Interval::FiveSeconds, "5 s"),
        (Interval::FifteenSeconds, "15 s"),
        (Interval::ThirtySeconds, "30 s"),
        (Interval::OneMinute, "1 min"),
        (Interval::FiveMinutes, "5 min"),
        (Interval::FifteenMinutes, "15 min"),
        (Interval::ThirtyMinutes, "30 min"),
        (Interval::OneHour, "1 hour"),
    ];
    for (interval, label) in intervals {
        assert_eq!(interval.label(), label);
    }
    assert_eq!(SyncStatus::Idle.label(), "Idle");
    assert_eq!(SyncStatus::Syncing.label(), "Syncing…");
    assert_eq!(SyncStatus::Synced.label(), "Synced");
    assert_eq!(SyncStatus::Failed.label(), "Error");
    assert_eq!(celeste_theme(Mode::Light), Theme::Light);
    assert_eq!(celeste_theme(Mode::Dark), Theme::Dark);
    assert_eq!(celeste_theme(Mode::Unknown), Theme::Dark);
}

#[test]
fn numbers_are_written_in_decimal() {
    for number in [0, 7, 10, 4096, i64::MAX, -1, -10, i64::MIN] {
        assert_eq!(write_decimal(number), number.to_string());
    }
    assert_eq!(write_digits(u64::MAX), u64::MAX.to_string());
}
