use xdbm::backups::{
    backups_file, Backup, BackupCommand, BackupCommandExt, BackupLog, BackupResult, BackupTarget, Backups,
    ExternallyInvoked, Timestamp,
};
use xdbm::cmd_backup::{cmd_backup_done, cmd_backup_list, new_backup, passes_filter};
use xdbm::cmd_check::{check_backups, check_storages, cmd_check};
use xdbm::cmd_status::parent_backups;
use xdbm::devices::Device;
use xdbm::error::Error;
use xdbm::name_map::NameMap;
use xdbm::storages::directory::Directory;
use xdbm::storages::online_storage::OnlineStorage;
use xdbm::storages::{Storage, StorageExt, Storages};
use xdbm::util::min_parent_storage;

fn device(name: &str) -> Device {
    Device::from_parts(name.to_string(), None, None, None)
}

fn online(name: &str, path: &str, device: &Device) -> Storage {
    Storage::Online(OnlineStorage::new(
        name.to_string(),
        "provider".to_string(),
        1_000_000,
        "alias".to_string(),
        path.to_string(),
        device,
    ))
}

fn command() -> BackupCommand {
    BackupCommand::ExternallyInvoked(ExternallyInvoked::new("cmd".to_string(), "".to_string()))
}

fn backup(name: &str, device: &str, from: (&str, &[&str]), to: (&str, &[&str])) -> Backup {
    Backup::new(
        name.to_string(),
        device.to_string(),
        BackupTarget::new(from.0.to_string(), from.1.iter().map(|s| s.to_string()).collect()),
        BackupTarget::new(to.0.to_string(), to.1.iter().map(|s| s.to_string()).collect()),
        command(),
    )
}

fn at(seconds: i64, nanoseconds: u32) -> Timestamp {
    Timestamp { seconds, nanoseconds }
}

#[test]
fn test_new_backup() {
    let device = Device::new("dev".to_string());
    let storage1 = Storage::Online(OnlineStorage::new(
        "online".to_string(),
        "provider".to_string(),
        1_000_000_000,
        "alias".to_string(),
        "/mnt/sample".to_string(),
        &device,
    ));
    let storage2 = Storage::Online(OnlineStorage::new(
        "online2".to_string(),
        "provider".to_string(),
        1_000_000_000,
        "alias".to_string(),
        "/mnt/different".to_string(),
        &device,
    ));
    let mut storages = Storages::new();
    storages.add(storage1).unwrap();
    storages.add(storage2).unwrap();
    let cmd = BackupCommand::ExternallyInvoked(ExternallyInvoked::new(
        "sampple_backup".to_string(),
        "This is just for test.".to_string(),
    ));
    let backup = new_backup(
        "new backup".to_string(),
        "/mnt/sample/docs".to_string(),
        "/mnt/sample/tmp".to_string(),
        cmd,
        &device,
        &storages,
    )
    .unwrap();
    assert!(backup.source().storage == "online");
    assert_eq!(backup.source().path, vec!["docs"]);
    assert!(backup.destination().storage == "online");
    assert!(backup.destination().path == vec!["tmp"]);
}

#[test]
fn test_parent_backups() {
    let device1 = Device::new("device_1".to_string());
    let mut storage1 = Storage::Online(OnlineStorage::new(
        "storage_1".to_string(),
        "smb".to_string(),
        1_000_000,
        "str1".to_string(),
        "/home/foo/".to_string(),
        &device1,
    ));
    let storage2 = Storage::Online(OnlineStorage::new(
        "storage_2".to_string(),
        "smb".to_string(),
        1_000_000_000,
        "str2".to_string(),
        "/".to_string(),
        &device1,
    ));
    let device2 = Device::new("device_2".to_string());
    storage1.bound_on_device("alias".to_string(), "/mnt/dev".to_string(), &device2);
    let storage3 = Storage::Online(OnlineStorage::new(
        "storage_3".to_string(),
        "smb".to_string(),
        2_000_000_000,
        "str2".to_string(),
        "/".to_string(),
        &device2,
    ));
    let storages = {
        let mut storages = Storages::new();
        storages.add(storage1).unwrap();
        storages.add(storage2).unwrap();
        storages.add(storage3).unwrap();
        storages
    };

    let backup1 = Backup::new(
        "backup_1".to_string(),
        device1.name().to_string(),
        BackupTarget { storage: "storage_1".to_string(), path: vec!["bar".to_string()] },
        BackupTarget { storage: "storage_1".to_string(), path: vec!["hoge".to_string()] },
        BackupCommand::ExternallyInvoked(ExternallyInvoked::new("cmd".to_string(), "".to_string())),
    );
    let backup2 = Backup::new(
        "backup_2".to_string(),
        device2.name().to_string(),
        BackupTarget { storage: "storage_1".to_string(), path: vec!["".to_string()] },
        BackupTarget { storage: "storage_3".to_string(), path: vec!["foo".to_string()] },
        BackupCommand::ExternallyInvoked(ExternallyInvoked::new("cmd".to_string(), "".to_string())),
    );

    let backups = {
        let mut backups = Backups::new();
        backups.add(backup1).unwrap();
        backups.add(backup2).unwrap();
        backups
    };

    let target_path1 = "/home/foo/bar/hoo".to_string();
    let (target_storage1, target_path_from_storage1) =
        min_parent_storage(&target_path1, &storages, &device1).expect("Failed to get storage");
    let covering_backups_1 =
        parent_backups(&target_path_from_storage1, target_storage1, &backups, &storages, &device1);
    assert_eq!(covering_backups_1.len(), 2);

    let target_path2 = "/mnt/".to_string();
    let (target_storage2, target_path_from_storage2) =
        min_parent_storage(&target_path2, &storages, &device2).expect("Failed to get storage");
    let covering_backups_2 =
        parent_backups(&target_path_from_storage2, target_storage2, &backups, &storages, &device2);
    assert_eq!(covering_backups_2.len(), 0);

    let target_path3 = "/mnt/dev/foo".to_string();
    let (target_storage3, target_path_from_storage3) =
        min_parent_storage(&target_path3, &storages, &device2).expect("Failed to get storage");
    let covering_backups_3 =
        parent_backups(&target_path_from_storage3, target_storage3, &backups, &storages, &device2);
    assert_eq!(covering_backups_3.len(), 1);
    let mut covering_backup_names_3 = covering_backups_3.iter().map(|(backup, _)| backup.name());
    assert_eq!(covering_backup_names_3.next().unwrap(), "backup_2");
    assert!(covering_backup_names_3.next().is_none());
    assert_eq!(covering_backups_3[0].1, "foo");
}

#[test]
fn parent_backups_of_unresolved_storage() {
    let d = device("D");
    let e = device("E");
    let storage = online("A", "/mnt", &d);
    let mut storages = Storages::new();
    storages.add(storage.clone()).unwrap();
    let mut backups = Backups::new();
    backups.add(backup("b", "D", ("A", &["x"]), ("A", &["y"]))).unwrap();
    assert_eq!(parent_backups(&"x/z".to_string(), &storage, &backups, &storages, &d).len(), 1);
    assert_eq!(parent_backups(&"x/z".to_string(), &storage, &backups, &storages, &e).len(), 0);
}

#[test]
fn new_backup_needs_both_ends_covered() {
    let d = device("D");
    let mut storages = Storages::new();
    storages.add(online("A", "/mnt", &d)).unwrap();
    let made = new_backup("b".to_string(), "/mnt/a".to_string(), "/other/b".to_string(), command(), &d, &storages);
    assert_eq!(made.unwrap_err(), Error::PathNotCovered);
    let made = new_backup("b".to_string(), "/other/a".to_string(), "/mnt/b".to_string(), command(), &d, &storages);
    assert_eq!(made.unwrap_err(), Error::PathNotCovered);
    let made =
        new_backup("b".to_string(), "/mnt/a/b".to_string(), "/mnt".to_string(), command(), &d, &storages).unwrap();
    assert_eq!(made.name(), "b");
    assert_eq!(made.device_name(), "D");
    assert_eq!(made.source().path, vec!["a", "b"]);
    assert!(made.destination().path.is_empty());
    assert!(made.logs().is_empty());
    assert!(made.last_backup().is_none());
}

#[test]
fn last_backup_is_the_latest_whatever_the_order() {
    let mut b = backup("b", "D", ("A", &[]), ("A", &[]));
    assert!(b.last_backup().is_none());
    b.add_log(BackupLog::new(at(200, 0), BackupResult::Success, "later".to_string()));
    b.add_log(BackupLog::new(at(100, 0), BackupResult::Failure, "earlier".to_string()));
    let last = b.last_backup().unwrap();
    assert_eq!(last.log(), "later");
    assert_eq!(last.status(), BackupResult::Success);
    assert_eq!(last.datetime(), at(200, 0));
    assert_eq!(b.logs().len(), 2);
    assert_eq!(b.logs()[1].log(), "earlier");

    let mut c = backup("c", "D", ("A", &[]), ("A", &[]));
    c.add_log(BackupLog::new(at(100, 0), BackupResult::Failure, "earlier".to_string()));
    c.add_log(BackupLog::new(at(200, 0), BackupResult::Success, "later".to_string()));
    assert_eq!(c.last_backup().unwrap().log(), "later");
    c.add_log(BackupLog::new(at(200, 5), BackupResult::Success, "by nanoseconds".to_string()));
    assert_eq!(c.last_backup().unwrap().log(), "by nanoseconds");
    c.add_log(BackupLog::new(at(200, 5), BackupResult::Failure, "same moment".to_string()));
    assert_eq!(c.last_backup().unwrap().log(), "same moment");
    c.add_log(BackupLog::new(at(-5, 999), BackupResult::Failure, "long ago".to_string()));
    assert_eq!(c.last_backup().unwrap().log(), "same moment");
    assert!(at(1, 5).is_before(&at(1, 6)));
    assert!(at(1, 5).is_before(&at(2, 0)));
    assert!(!at(1, 5).is_before(&at(1, 5)));
    assert!(!at(2, 0).is_before(&at(1, 5)));
}

#[test]
fn log_keeps_what_it_was_given() {
    let log = BackupLog::new(at(1_700_000_000, 25), BackupResult::from_exit_code(3), "note".to_string());
    assert_eq!(log.status(), BackupResult::Failure);
    assert_eq!(log.log(), "note");
    assert_eq!(log.datetime(), at(1_700_000_000, 25));
    assert_eq!(log.datetime.nanoseconds, 25);
    assert_eq!(BackupResult::from_exit_code(0), BackupResult::Success);
    assert_eq!(BackupResult::from_exit_code(1), BackupResult::Failure);
    assert_eq!(BackupResult::from_exit_code(u64::MAX), BackupResult::Failure);
}

#[test]
fn second_backup_with_same_name_conflicts() {
    let mut backups = Backups::new();
    assert_eq!(backups.add(backup("b", "D", ("A", &["x"]), ("A", &["y"]))), Ok(()));
    assert_eq!(backups.add(backup("c", "D", ("A", &["x"]), ("A", &["y"]))), Ok(()));
    assert_eq!(backups.add(backup("b", "E", ("B", &["z"]), ("B", &["w"]))), Err(Error::NameConflict));
    assert_eq!(backups.list.len(), 2);
    assert_eq!(backups.get(&"b".to_string()).unwrap().device_name(), "D");
    assert!(backups.get(&"zzz".to_string()).is_none());
}

#[test]
fn backup_done_appends_a_log() {
    let mut backups = Backups::new();
    backups.add(backup("b", "D", ("A", &["x"]), ("A", &["y"]))).unwrap();
    assert_eq!(cmd_backup_done(&mut backups, &"missing".to_string(), 0, None, at(1, 0)), Err(Error::NotFound));
    assert_eq!(cmd_backup_done(&mut backups, &"b".to_string(), 0, None, at(10, 0)), Ok(()));
    assert_eq!(
        cmd_backup_done(&mut backups, &"b".to_string(), 2, Some("broke".to_string()), at(5, 0)),
        Ok(())
    );
    let b = backups.get(&"b".to_string()).unwrap();
    assert_eq!(b.logs().len(), 2);
    assert_eq!(b.logs()[0].log(), "");
    assert_eq!(b.logs()[0].status(), BackupResult::Success);
    assert_eq!(b.logs()[1].log(), "broke");
    assert_eq!(b.logs()[1].status(), BackupResult::Failure);
    assert_eq!(b.last_backup().unwrap().datetime(), at(10, 0));
    assert_eq!(cmd_backup_done(&mut backups, &"b".to_string(), 0, Some("latest".to_string()), at(10, 1)), Ok(()));
    let b = backups.get(&"b".to_string()).unwrap();
    assert_eq!(b.logs().len(), 3);
    assert_eq!(b.last_backup().unwrap().log(), "latest");
    assert_eq!(backups.list.len(), 1);
}

#[test]
fn backups_are_filtered_by_storage() {
    let mut backups = Backups::new();
    backups.add(backup("one", "D", ("A", &["x"]), ("B", &["y"]))).unwrap();
    backups.add(backup("two", "D", ("A", &["x"]), ("C", &["y"]))).unwrap();
    backups.add(backup("three", "D", ("B", &["x"]), ("C", &["y"]))).unwrap();
    let a = Some("A".to_string());
    let c = Some("C".to_string());
    assert_eq!(cmd_backup_list(&backups, &None, &None), vec!["one", "three", "two"]);
    assert_eq!(cmd_backup_list(&backups, &a, &None), vec!["one", "two"]);
    assert_eq!(cmd_backup_list(&backups, &None, &c), vec!["three", "two"]);
    assert_eq!(cmd_backup_list(&backups, &a, &c), vec!["two"]);
    assert!(cmd_backup_list(&backups, &c, &None).is_empty());
    assert!(passes_filter(backups.get(&"one".to_string()).unwrap(), &a, &None));
    assert!(!passes_filter(backups.get(&"one".to_string()).unwrap(), &a, &c));
}

#[test]
fn target_path_goes_through_the_storage() {
    let d = device("D");
    let e = device("E");
    let mut storages = Storages::new();
    storages.add(online("A", "/mnt/a", &d)).unwrap();
    let target = BackupTarget::new("A".to_string(), vec!["x".to_string(), "y".to_string()]);
    assert_eq!(target.path(&storages, &d), Ok("/mnt/a/x/y".to_string()));
    assert_eq!(target.path(&storages, &e), Err(Error::Unbound));
    let lost = BackupTarget::new("gone".to_string(), vec![]);
    assert_eq!(lost.path(&storages, &d), Err(Error::UnresolvedReference));
}

#[test]
fn backups_file_is_named_after_the_device() {
    let file = backups_file(&device("first"));
    assert_eq!(std::path::PathBuf::from(file), std::path::PathBuf::from("backups").join("first.yml"));
}

#[test]
fn backup_keeps_what_it_was_given() {
    let b = backup("b", "D", ("A", &["x"]), ("B", &["y"]));
    assert_eq!(b.name(), "b");
    assert_eq!(b.source().storage, "A");
    assert_eq!(b.destination().storage, "B");
    assert_eq!(b.command().name(), "cmd");
    assert_eq!(b.command().note(), "");
    let cmd = ExternallyInvoked::new("rsync".to_string(), "with some note".to_string());
    assert_eq!(cmd.name(), "rsync");
    assert_eq!(cmd.note(), "with some note");
    let devices = vec![device("C"), device("D")];
    assert_eq!(b.device(&devices).unwrap().name(), "D");
    assert!(b.device(&devices[..1]).is_none());
}

#[test]
fn check_finds_dangling_names() {
    let d = device("D");
    let devices = vec![d.clone()];
    let mut storages = Storages::new();
    storages.add(online("A", "/mnt/a", &d)).unwrap();
    assert_eq!(check_storages(&storages), Ok(()));

    let mut good = Backups::new();
    good.add(backup("b", "D", ("A", &["x"]), ("A", &["y"]))).unwrap();
    assert_eq!(check_backups(&good, &devices, &storages), Ok(()));

    let mut no_device = Backups::new();
    no_device.add(backup("b", "gone", ("A", &[]), ("A", &[]))).unwrap();
    assert_eq!(check_backups(&no_device, &devices, &storages), Err(Error::UnresolvedReference));

    let mut no_source = Backups::new();
    no_source.add(backup("b", "D", ("gone", &[]), ("A", &[]))).unwrap();
    assert_eq!(check_backups(&no_source, &devices, &storages), Err(Error::UnresolvedReference));

    let mut no_destination = Backups::new();
    no_destination.add(backup("b", "D", ("A", &[]), ("gone", &[]))).unwrap();
    assert_eq!(check_backups(&no_destination, &devices, &storages), Err(Error::UnresolvedReference));

    let mut misfiled = Backups::new();
    misfiled.list.insert("key".to_string(), backup("b", "gone", ("A", &[]), ("A", &[])));
    assert_eq!(check_backups(&misfiled, &devices, &storages), Err(Error::NameMismatch));

    assert_eq!(cmd_check(&devices, &storages, &vec![]), Ok(()));
    assert_eq!(cmd_check(&devices, &storages, &vec![good.clone(), good.clone()]), Ok(()));
    assert_eq!(cmd_check(&devices, &storages, &vec![good.clone(), misfiled]), Err(Error::NameMismatch));

    storages
        .add(Storage::SubDirectory(Directory::new(
            "orphan".to_string(),
            "missing".to_string(),
            vec![],
            "".to_string(),
            NameMap::new(),
        )))
        .unwrap();
    assert_eq!(check_storages(&storages), Err(Error::UnresolvedReference));
    assert_eq!(cmd_check(&devices, &storages, &vec![good]), Err(Error::UnresolvedReference));
}

#[test]
fn get_mut_changes_in_place() {
    let mut backups = Backups::new();
    backups.add(backup("b", "D", ("A", &["x"]), ("A", &["y"]))).unwrap();
    backups.add(backup("c", "D", ("A", &["x"]), ("A", &["y"]))).unwrap();
    assert!(backups.get_mut(&"missing".to_string()).is_none());
    let b = backups.get_mut(&"b".to_string()).unwrap();
    b.add_log(BackupLog::new(at(7, 0), BackupResult::Success, "in place".to_string()));
    assert_eq!(backups.get(&"b".to_string()).unwrap().logs().len(), 1);
    assert_eq!(backups.get(&"b".to_string()).unwrap().last_backup().unwrap().log(), "in place");
    assert!(backups.get(&"c".to_string()).unwrap().logs().is_empty());
    assert_eq!(backups.list.len(), 2);
}
