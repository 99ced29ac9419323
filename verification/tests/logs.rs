use astrid_capsule::calendar::today_date_string;
use astrid_capsule::host_state::PrincipalMount;
use astrid_capsule::logs::{
    log_cutoff, open_capsule_log_at, prune_old_logs, LogFile, LOG_RETENTION_DAYS,
};
use astrid_capsule::paths::{join_paths, lies_under};
use astrid_capsule::principal_home::{
    build_principal_vfs_bundle_at, env_file_is_read, env_overlay_path, load_invocation_env_overlay,
    mount_dir, principal_home, principal_tmp_dir, FileMeta, MAX_ENV_FILE_BYTES,
};

#[test]
fn open_capsule_log_returns_none_for_unregistered_principal() {
    assert!(open_capsule_log_at(false, "/h/mallory/log", "some-capsule", false, 0).is_none());
    assert!(open_capsule_log_at(false, "/h/mallory/log", "some-capsule", true, 0).is_none());
}

#[test]
fn open_capsule_log_opens_file_under_principal_tree() {
    let now = 1_776_729_600;
    let plan = open_capsule_log_at(true, "/h/alice/log", "my-capsule", false, now).expect("planned");
    assert_eq!(plan.dir, "/h/alice/log/my-capsule");
    assert!(!plan.prune);
    let today = today_date_string(now);
    assert_eq!(today, "2026-04-21");
    assert_eq!(plan.file, format!("/h/alice/log/my-capsule/{today}.log"));
}

#[test]
fn open_capsule_log_isolates_distinct_principals() {
    let alice = open_capsule_log_at(true, "/h/alice/log", "shared", true, 0).unwrap();
    let bob = open_capsule_log_at(true, "/h/bob/log", "shared", true, 0).unwrap();
    assert_ne!(alice.file, bob.file);
    assert_ne!(alice.dir, bob.dir);
}

fn file(name: &str, modified: Option<i128>) -> LogFile {
    LogFile { name: name.into(), modified }
}

#[test]
fn open_capsule_log_with_prune_does_not_delete_todays_file() {
    let now: i128 = 1_776_729_600_000_000_000;
    let files = vec![file("2026-04-21.log", Some(now)), file("2026-04-01.log", Some(0))];
    assert_eq!(prune_old_logs(&files, now, LOG_RETENTION_DAYS), vec!["2026-04-01.log"]);
}

#[test]
fn only_old_rotated_logs_are_pruned() {
    let files = vec![
        file("2026-01-01.log", Some(9)),
        file("2026-01-02.log", Some(10)),
        file("2026-01-03.log", None),
        file("notes-2026.log", Some(0)),
        file("2026-01-0x.log", Some(0)),
        file("2026-01-01.txt", Some(0)),
        file("2026-01-011.log", Some(0)),
        file("2026/01/01.log", Some(0)),
        file("1999-12-31.log", Some(-5)),
    ];
    assert_eq!(
        prune_old_logs(&files, 86_400_000_000_010, 1),
        vec!["2026-01-01.log", "1999-12-31.log"]
    );
    // A cutoff that cannot be represented is the epoch.
    let many = 200_000_000_000_000;
    assert_eq!(prune_old_logs(&files, 0, many), vec!["1999-12-31.log"]);
    assert_eq!(log_cutoff(0, many), 0);
    assert_eq!(log_cutoff(604_800_000_000_001, 7), 1);
    assert_eq!(log_cutoff(0, 7), -604_800_000_000_000);
}

#[test]
fn principal_paths_follow_the_home_layout() {
    let home = principal_home("/root/.astrid", "alice");
    assert_eq!(home, "/root/.astrid/home/alice");
    assert_eq!(principal_tmp_dir(&home), "/root/.astrid/home/alice/.local/tmp");
    assert_eq!(
        env_overlay_path(&home, "git"),
        "/root/.astrid/home/alice/.config/env/git.env.json"
    );
}

#[test]
fn environment_files_are_flat_objects_of_strings() {
    let meta = Some(FileMeta { is_file: true, len: 10 });
    let mut pairs =
        load_invocation_env_overlay(meta, Some("{\"B\": \"2\", \"A\": \"1\"}")).expect("parsed");
    pairs.sort();
    assert_eq!(
        pairs,
        vec![("A".to_string(), "1".to_string()), ("B".to_string(), "2".to_string())]
    );
    assert_eq!(load_invocation_env_overlay(meta, Some("{\"A\": 1}")), None);
    assert_eq!(load_invocation_env_overlay(meta, Some("nonsense")), None);
    assert_eq!(load_invocation_env_overlay(meta, None), None);
    assert_eq!(load_invocation_env_overlay(None, Some("{}")), None);
    assert_eq!(load_invocation_env_overlay(meta, Some("{}")), Some(vec![]));
}

#[test]
fn environment_files_have_a_largest_size() {
    assert_eq!(MAX_ENV_FILE_BYTES, 1 << 20);
    let at = |len| Some(FileMeta { is_file: true, len });
    assert!(env_file_is_read(at(MAX_ENV_FILE_BYTES)));
    assert!(!env_file_is_read(at(MAX_ENV_FILE_BYTES + 1)));
    assert!(!env_file_is_read(Some(FileMeta { is_file: false, len: 1 })));
    assert_eq!(load_invocation_env_overlay(at(MAX_ENV_FILE_BYTES + 1), Some("{}")), None);
}

#[test]
fn build_bundle_returns_empty_for_unregistered_principal() {
    let home = mount_dir(false, "/h/mallory".into(), true);
    assert!(home.is_none());
    let bundle =
        build_principal_vfs_bundle_at(home, true, Some(PrincipalMount { root: "/t".into() }));
    assert!(bundle.home.is_none());
    assert!(bundle.tmp.is_none());
}

#[test]
fn build_bundle_populated_for_registered_principal() {
    let home = mount_dir(true, "/h/alice".into(), true);
    let tmp = mount_dir(true, "/h/alice/.local/tmp".into(), true);
    let bundle = build_principal_vfs_bundle_at(home, true, tmp);
    assert_eq!(bundle.home.map(|m| m.root).as_deref(), Some("/h/alice"));
    assert_eq!(bundle.tmp.map(|m| m.root).as_deref(), Some("/h/alice/.local/tmp"));
}

#[test]
fn build_bundle_isolates_distinct_principals() {
    let alice_root = principal_home("/a", "alice");
    let bob_root = principal_home("/a", "bob");
    let bundle = |root: &str| {
        let tmp = mount_dir(true, principal_tmp_dir(root), true);
        build_principal_vfs_bundle_at(mount_dir(true, root.to_string(), true), true, tmp)
    };
    let alice = bundle(&alice_root);
    let bob = bundle(&bob_root);
    let alice_home = alice.home.expect("alice's home").root;
    let bob_home = bob.home.expect("bob's home").root;
    assert_ne!(alice_home, bob_home, "distinct principals, distinct home roots");
    assert_eq!(alice_home, alice_root);
    assert_eq!(bob_home, bob_root);

    // Each principal's note lies under its own root.
    let note = |home: &str| join_paths(home, "note.txt");
    assert_eq!(note(&alice_home), "/a/home/alice/note.txt");
    assert_eq!(note(&bob_home), "/a/home/bob/note.txt");
    assert!(lies_under(&note(&alice_home), &alice_root));
    assert!(!lies_under(&note(&alice_home), &bob_root));
    assert!(!lies_under(&note(&bob_home), &alice_root));
    assert_ne!(alice.tmp.map(|m| m.root), bob.tmp.map(|m| m.root));
}

#[test]
fn unregistered_directories_are_not_mounted() {
    assert!(mount_dir(true, "/h".into(), false).is_none());
    let home = mount_dir(true, "/h".into(), true);
    let tmp = mount_dir(true, "/t".into(), true);
    let bundle = build_principal_vfs_bundle_at(home, false, tmp);
    assert!(bundle.home.is_some());
    assert!(bundle.tmp.is_none());
}
