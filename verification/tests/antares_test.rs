//! The mount lifecycle, driven as a caller drives it: provision, create the
//! directories (here: nothing to create), commit, and later tear down.

use scorpiofs::antares::manager::Removal;
use scorpiofs::antares::{
    AntaresConfig, AntaresError, AntaresManager, AntaresPaths, AntaresState, StateSource,
    UnmountOutcome, UnmountReport,
};

fn paths_under(root: &str) -> AntaresPaths {
    AntaresPaths::new(
        format!("{root}/upper"),
        format!("{root}/cl"),
        format!("{root}/mnt"),
        format!("{root}/state.toml"),
    )
}

fn fresh_manager(root: &str) -> AntaresManager {
    AntaresManager::new(paths_under(root), &StateSource::Missing).unwrap()
}

fn unmounted_cleanly() -> UnmountReport {
    UnmountReport::Exited { success: true, diagnostic: String::new() }
}

fn mount(manager: &mut AntaresManager, job_id: &str, cl: Option<&str>) -> (AntaresConfig, AntaresState) {
    let record = manager.mount_job(job_id, cl);
    let state = manager.commit_mount(record.clone(), Ok(())).unwrap();
    (record, state)
}

fn mount_at(
    manager: &mut AntaresManager,
    job_id: &str,
    mountpoint: &str,
    cl: Option<&str>,
) -> (AntaresConfig, AntaresState) {
    let record = manager.mount_job_at(job_id, mountpoint.to_string(), cl);
    let state = manager.commit_mount(record.clone(), Ok(())).unwrap();
    (record, state)
}

fn umount(manager: &mut AntaresManager, job_id: &str) -> Option<Removal> {
    manager.umount_job(job_id, &unmounted_cleanly()).unwrap()
}

fn same_record(a: &AntaresConfig, b: &AntaresConfig) -> bool {
    a.job_id == b.job_id
        && a.mountpoint == b.mountpoint
        && a.upper_id == b.upper_id
        && a.upper_dir == b.upper_dir
        && a.cl_dir == b.cl_dir
        && a.cl_id == b.cl_id
}

#[test]
fn test_mount_and_list_registers_instance() {
    let root = "/tmp/antares-a";
    let mut manager = fresh_manager(root);

    let (instance, state) = mount(&mut manager, "job1", Some("cl1"));
    assert_eq!(instance.job_id, "job1");
    assert!(instance.mountpoint.starts_with(&format!("{root}/mnt")));
    assert_eq!(instance.mountpoint, format!("{root}/mnt/job1"));

    // The document to persist names the job.
    assert_eq!(state.mounts.len(), 1);
    assert_eq!(state.mounts[0].job_id, "job1");

    let listed = manager.list();
    assert_eq!(listed.len(), 1);
    assert_eq!(listed[0].job_id, "job1");

    let removed = umount(&mut manager, "job1");
    assert!(removed.is_some());
    assert!(manager.list().is_empty());
}

#[test]
fn test_mount_job_at_custom_path() {
    let root = "/tmp/antares-b";
    let custom_mount = format!("{root}/custom_mountpoint");
    let mut manager = fresh_manager(root);

    let (instance, state) = mount_at(&mut manager, "job_custom", &custom_mount, None);

    assert_eq!(instance.mountpoint, custom_mount);
    assert!(!instance.mountpoint.starts_with(&format!("{root}/mnt")));

    // The mountpoint is among the directories to create.
    assert!(instance.layer_dirs().contains(&custom_mount));

    assert!(state.mounts[0].mountpoint.contains("custom_mountpoint"));

    let listed = manager.list();
    assert_eq!(listed.len(), 1);
    assert_eq!(listed[0].mountpoint, custom_mount);

    let removed = umount(&mut manager, "job_custom");
    assert!(removed.is_some());
}

#[test]
fn test_mount_job_at_multiple_custom_paths() {
    let root = "/tmp/antares-c";
    let mut manager = fresh_manager(root);

    let custom1 = format!("{root}/workspace1");
    let custom2 = format!("{root}/deeply/nested/workspace2");

    let (inst1, _) = mount_at(&mut manager, "job1", &custom1, None);
    let (inst2, _) = mount_at(&mut manager, "job2", &custom2, Some("cl-123"));

    assert_eq!(inst1.mountpoint, custom1);
    assert_eq!(inst2.mountpoint, custom2);
    assert!(inst2.cl_dir.is_some());

    assert!(inst1.layer_dirs().contains(&custom1));
    assert!(inst2.layer_dirs().contains(&custom2));

    let listed = manager.list();
    assert_eq!(listed.len(), 2);

    umount(&mut manager, "job1").unwrap();
    umount(&mut manager, "job2").unwrap();
    assert!(manager.list().is_empty());
}

#[test]
fn test_mount_job_at_with_pathbuf() {
    let root = "/tmp/antares-d";
    let mut manager = fresh_manager(root);

    let custom = format!("{root}/custom_path");
    let (inst, _) = mount_at(&mut manager, "job_pathbuf", &custom, None);
    assert_eq!(inst.mountpoint, custom);

    let custom_str = format!("{root}/string_path");
    let (inst2, _) = mount_at(&mut manager, "job_str", &custom_str, None);
    assert_eq!(inst2.mountpoint, custom_str);

    umount(&mut manager, "job_pathbuf").unwrap();
    umount(&mut manager, "job_str").unwrap();
}

#[test]
fn mount_with_changelist_gives_two_distinct_layers() {
    let mut manager = fresh_manager("/srv/a");
    let (record, state) = mount(&mut manager, "job1", Some("cl1"));
    let cl_dir = record.cl_dir.clone().unwrap();
    let cl_id = record.cl_id.clone().unwrap();
    assert!(!record.upper_dir.is_empty());
    assert!(!cl_dir.is_empty());
    assert_ne!(record.upper_dir, cl_dir);
    assert_eq!(record.upper_dir, format!("/srv/a/upper/{}", record.upper_id));
    assert_eq!(cl_dir, format!("/srv/a/cl/{cl_id}"));
    assert!(state.mounts.iter().any(|m| m.job_id == "job1"));
}

#[test]
fn mount_without_changelist_has_neither_id_nor_dir() {
    let manager = fresh_manager("/srv/a");
    let record = manager.mount_job_at("jobX", "/elsewhere/ws".to_string(), None);
    assert_eq!(record.mountpoint, "/elsewhere/ws");
    assert!(record.cl_id.is_none());
    assert!(record.cl_dir.is_none());
}

#[test]
fn provisioning_does_not_register() {
    let manager = fresh_manager("/srv/a");
    let _ = manager.mount_job("job1", None);
    assert!(manager.list().is_empty());
    assert!(manager.lookup("job1").is_none());
}

#[test]
fn layer_ids_are_fresh_and_shaped() {
    let manager = fresh_manager("/srv/a");
    let first = manager.mount_job("job1", Some("cl"));
    let second = manager.mount_job("job1", Some("cl"));
    for id in [
        first.upper_id.clone(),
        first.cl_id.clone().unwrap(),
        second.upper_id.clone(),
        second.cl_id.clone().unwrap(),
    ] {
        assert_eq!(id.len(), 36);
        for (i, c) in id.chars().enumerate() {
            if i == 8 || i == 13 || i == 18 || i == 23 {
                assert_eq!(c, '-');
            } else {
                assert!(c.is_ascii_digit() || ('a'..='f').contains(&c));
            }
        }
    }
    assert_ne!(first.upper_id, second.upper_id);
    assert_ne!(first.upper_id, first.cl_id.clone().unwrap());
    assert_ne!(first.upper_dir, second.upper_dir);
}

#[test]
fn layer_dirs_come_in_creation_order() {
    let manager = fresh_manager("/srv/a");
    let with_cl = manager.mount_job("j", Some("cl"));
    assert_eq!(
        with_cl.layer_dirs(),
        vec![with_cl.upper_dir.clone(), with_cl.cl_dir.clone().unwrap(), "/srv/a/mnt/j".to_string()]
    );
    let plain = manager.mount_job("k", None);
    assert_eq!(plain.layer_dirs(), vec![plain.upper_dir.clone(), "/srv/a/mnt/k".to_string()]);
}

#[test]
fn failed_directory_creation_registers_nothing() {
    let mut manager = fresh_manager("/srv/a");
    mount(&mut manager, "kept", None);
    let record = manager.mount_job("job1", None);
    let outcome = manager.commit_mount(record, Err("permission denied".to_string()));
    match outcome {
        Err(AntaresError::Io(why)) => assert_eq!(why, "permission denied"),
        other => panic!("expected an I/O failure, got {other:?}"),
    }
    let listed = manager.list();
    assert_eq!(listed.len(), 1);
    assert_eq!(listed[0].job_id, "kept");
}

#[test]
fn remount_replaces_the_record() {
    let mut manager = fresh_manager("/srv/a");
    let (first, _) = mount(&mut manager, "job1", None);
    mount(&mut manager, "other", None);
    let (second, state) = mount(&mut manager, "job1", Some("cl"));
    assert_ne!(first.upper_id, second.upper_id);

    let listed = manager.list();
    assert_eq!(listed.len(), 2);
    let found = manager.lookup("job1").unwrap();
    assert!(same_record(&found, &second));
    assert_eq!(state.mounts.len(), 2);
    assert_eq!(state.mounts.iter().filter(|m| m.job_id == "job1").count(), 1);
    assert!(state.mounts.iter().any(|m| same_record(m, &second)));
    assert!(manager.lookup("other").is_some());
}

#[test]
fn unmount_of_unknown_job_changes_nothing() {
    let mut manager = fresh_manager("/srv/a");
    let (record, _) = mount(&mut manager, "job1", None);
    for report in [
        unmounted_cleanly(),
        UnmountReport::SpawnFailed("no such tool".to_string()),
        UnmountReport::Exited { success: false, diagnostic: "boom".to_string() },
    ] {
        let done = manager.umount_job("ghost", &report).unwrap();
        assert!(done.is_none());
    }
    let listed = manager.list();
    assert_eq!(listed.len(), 1);
    assert!(same_record(&listed[0], &record));
}

#[test]
fn unmount_removes_the_record_whatever_the_tool_said() {
    let reports = [
        (true, "", "success"),
        (false, "fusermount: entry for /x not found: not mounted", "already"),
        (false, "fusermount: failed to unmount /x: Invalid argument", "already"),
        (false, "fusermount: failed to unmount /x: Device or resource busy", "other"),
    ];
    for (success, diagnostic, expected) in reports {
        let mut manager = fresh_manager("/srv/a");
        let (record, _) = mount(&mut manager, "job1", None);
        mount(&mut manager, "job2", None);
        let report = UnmountReport::Exited { success, diagnostic: diagnostic.to_string() };
        let removal = manager.umount_job("job1", &report).unwrap().unwrap();
        assert!(same_record(&removal.record, &record));
        match (&removal.outcome, expected) {
            (UnmountOutcome::Success, "success") => {}
            (UnmountOutcome::AlreadyUnmounted, "already") => {}
            (UnmountOutcome::OtherFailure(text), "other") => assert_eq!(text, diagnostic),
            (got, _) => panic!("{diagnostic:?} was classified as {got:?}"),
        }
        assert_eq!(removal.state.mounts.len(), 1);
        assert_eq!(removal.state.mounts[0].job_id, "job2");
        assert!(manager.lookup("job1").is_none());
        assert_eq!(manager.list().len(), 1);
    }
}

#[test]
fn unmount_fails_and_keeps_the_record_when_the_tool_cannot_start() {
    let mut manager = fresh_manager("/srv/a");
    mount(&mut manager, "job1", None);
    let report = UnmountReport::SpawnFailed("fusermount: command not found".to_string());
    match manager.umount_job("job1", &report) {
        Err(AntaresError::Spawn(why)) => assert_eq!(why, "fusermount: command not found"),
        other => panic!("expected a spawn failure, got {other:?}"),
    }
    assert!(manager.lookup("job1").is_some());
}

#[test]
fn reload_restores_every_record() {
    let mut manager = fresh_manager("/srv/a");
    let (plain, _) = mount(&mut manager, "plain", None);
    let (with_cl, _) = mount_at(&mut manager, "with-cl", "/elsewhere", Some("cl-9"));
    let state = manager.persist_state();
    assert_eq!(state.mounts.len(), 2);

    let reloaded = AntaresManager::new(paths_under("/srv/a"), &StateSource::Document(state)).unwrap();
    assert_eq!(reloaded.list().len(), 2);
    let a = reloaded.lookup("plain").unwrap();
    let b = reloaded.lookup("with-cl").unwrap();
    assert!(same_record(&a, &plain));
    assert!(same_record(&b, &with_cl));
    assert!(a.cl_id.is_none() && a.cl_dir.is_none());
    assert_eq!(b.cl_id, with_cl.cl_id);
    assert_eq!(b.cl_dir, with_cl.cl_dir);
}

fn record_of(job_id: &str, mountpoint: &str) -> AntaresConfig {
    AntaresConfig {
        job_id: job_id.to_string(),
        mountpoint: mountpoint.to_string(),
        upper_id: "u".to_string(),
        upper_dir: "/upper/u".to_string(),
        cl_dir: None,
        cl_id: None,
    }
}

#[test]
fn load_state_of_missing_document_is_empty() {
    let registry = AntaresManager::load_state(&StateSource::Missing).unwrap();
    assert!(registry.is_empty());
    assert_eq!(registry.len(), 0);
}

#[test]
fn load_state_of_malformed_document_is_an_error() {
    let source = StateSource::Malformed("expected `=`".to_string());
    match AntaresManager::load_state(&source) {
        Err(AntaresError::InvalidData(text)) => assert_eq!(text, "parse state: expected `=`"),
        other => panic!("expected a data-format failure, got {:?}", other.map(|r| r.len())),
    }
    let source = StateSource::Unreadable("permission denied".to_string());
    match AntaresManager::load_state(&source) {
        Err(AntaresError::Io(text)) => assert_eq!(text, "permission denied"),
        other => panic!("expected an I/O failure, got {:?}", other.map(|r| r.len())),
    }
}

#[test]
fn load_state_keeps_the_later_of_two_records_of_one_job() {
    let state = AntaresState {
        mounts: vec![record_of("a", "/1"), record_of("b", "/2"), record_of("a", "/3")],
    };
    let registry = AntaresManager::load_state(&StateSource::Document(state)).unwrap();
    assert_eq!(registry.len(), 2);
    assert_eq!(registry.get("a").unwrap().mountpoint, "/3");
    assert_eq!(registry.get("b").unwrap().mountpoint, "/2");
    assert!(registry.contains("a"));
    assert!(!registry.contains("c"));
}

#[test]
fn manager_is_not_built_over_an_unusable_document() {
    let source = StateSource::Malformed("x".to_string());
    match AntaresManager::new(paths_under("/srv/a"), &source) {
        Err(AntaresError::InvalidData(text)) => assert_eq!(text, "parse state: x"),
        Err(other) => panic!("expected a data-format failure, got {other:?}"),
        Ok(_) => panic!("a malformed document was taken for an empty one"),
    }
    let source = StateSource::Unreadable("denied".to_string());
    match AntaresManager::new(paths_under("/srv/a"), &source) {
        Err(AntaresError::Io(text)) => assert_eq!(text, "denied"),
        Err(other) => panic!("expected an I/O failure, got {other:?}"),
        Ok(_) => panic!("an unreadable document was taken for an empty one"),
    }
}

#[test]
fn manager_keeps_its_paths() {
    let manager = fresh_manager("/srv/a");
    assert!(manager.list().is_empty());
    assert_eq!(manager.paths().upper_root, "/srv/a/upper");
    assert_eq!(manager.paths().cl_root, "/srv/a/cl");
    assert_eq!(manager.paths().mount_root, "/srv/a/mnt");
    assert_eq!(manager.paths().state_file, "/srv/a/state.toml");
}

#[test]
fn error_message_is_its_text() {
    assert_eq!(AntaresError::Io("a".to_string()).message(), "a");
    assert_eq!(AntaresError::InvalidData("b".to_string()).message(), "b");
    assert_eq!(AntaresError::Spawn("c".to_string()).message(), "c");
}
