use workfile_backupper::models::notify::BackupResult;
use workfile_backupper::path::{paths_equal};
use workfile_backupper::services::backup::{
    backup_path, backup_path_on, begin_backup, begin_backup_on, copy_result, destination_folder,
    destination_folder_on, epoch_offset, existing_copy, subfolder, subfolder_on, time_stamp,
    BackupStart, FileProbe, LocalDateTime,
};
use workfile_backupper::services::wait::FileTime;
use workfile_backupper::services::watch::{backup_folder_for, backup_folder_for_on};

fn same(a: &str, b: &str) -> bool {
    paths_equal(a, b)
}

#[test]
fn test_create_destination_folder() {
    let cases = [
        ("/tmp/x/src/file.txt", "/tmp/x/dest"),
        ("/tmp/x/src/folder1/file.txt", "/tmp/x/dest/folder1"),
        ("/tmp/x/src/folder1/folder2/file.txt", "/tmp/x/dest/folder1/folder2"),
    ];
    for (target, expected) in cases {
        let result = destination_folder("/tmp/x/src", "/tmp/x/dest", target);
        assert!(same(&result, expected), "{} vs {}", result, expected);
    }
    assert_eq!(destination_folder("/tmp/x/src", "/tmp/x/dest", "/tmp/x/src/a/b.txt"), "/tmp/x/dest/a");
    // A target outside the watched folder goes to the backup folder itself.
    assert_eq!(destination_folder("/tmp/x/src", "/tmp/x/dest", "/elsewhere/b.txt"), "/tmp/x/dest");
    // A target without a parent too.
    assert_eq!(destination_folder("/tmp/x/src", "/tmp/x/dest", "/"), "/tmp/x/dest");
    assert_eq!(subfolder("/tmp/x/src", "/tmp/x/dest", "/tmp/x/src/a/b.txt"), Some("/tmp/x/dest/a".to_string()));
    assert_eq!(subfolder("/tmp/x/src", "/tmp/x/dest", "/elsewhere/b.txt"), None);
}

#[test]
fn backup_folder_choice() {
    assert_eq!(backup_folder_for(false, "/s", "/d", "/s/a/b.txt"), "/d");
    assert_eq!(backup_folder_for(true, "/s", "/d", "/s/a/b.txt"), "/d/a");
}

fn stamp() -> String {
    time_stamp(&LocalDateTime { year: 2024, month: 1, day: 2, hour: 3, minute: 4, second: 5, nanosecond: 0 })
}

#[test]
fn time_stamp_format() {
    assert_eq!(stamp(), "[20240102_030405]");
    let t = LocalDateTime { year: 987, month: 12, day: 31, hour: 23, minute: 59, second: 59, nanosecond: 1_500_000_000 };
    assert_eq!(time_stamp(&t), "[09871231_235960]");
    let t = LocalDateTime { year: 12345, month: 1, day: 1, hour: 0, minute: 0, second: 0, nanosecond: 0 };
    assert_eq!(time_stamp(&t), "[+123450101_000000]");
    let t = LocalDateTime { year: -5, month: 1, day: 1, hour: 0, minute: 0, second: 0, nanosecond: 0 };
    assert_eq!(time_stamp(&t), "[-00050101_000000]");
}

#[test]
fn names_of_copies() {
    let s = stamp();
    let cases = [
        ("/src/exist.txt", "/dest/exist[20240102_030405].txt"),
        ("/src/no_ext", "/dest/no_ext[20240102_030405]"),
        ("/src/.hidden_file", "/dest/.hidden_file[20240102_030405]"),
        ("/src/double.dot.txt", "/dest/double.dot[20240102_030405].txt"),
        ("/src/folder1", "/dest/folder1[20240102_030405]"),
    ];
    for (target, expected) in cases {
        assert_eq!(backup_path("/dest", "/unused", false, target, &s), Ok(expected.to_string()));
    }
    assert_eq!(
        backup_path("/dest", "/dest/sub", true, "/src/sub/a.txt", &s),
        Ok("/dest/sub/a[20240102_030405].txt".to_string())
    );
    assert_eq!(
        backup_path("/dest", "/dest/sub", true, "/src/..", &s),
        Err(BackupResult::InvalidFileName("/src/..".to_string()))
    );
}

#[test]
fn steps_of_a_backup() {
    assert_eq!(
        begin_backup("/s", "/d", "/s/a.txt", FileProbe::MetadataFailed),
        BackupStart::Done(BackupResult::MetadataFailed("/s/a.txt".into()))
    );
    assert_eq!(
        begin_backup("/s", "/d", "/s/a.txt", FileProbe::ModifiedFailed),
        BackupStart::Done(BackupResult::ModifiedFailed("/s/a.txt".into()))
    );
    let ft = FileTime { before_epoch: false, secs: 1_700_000_000, nanos: 0 };
    match begin_backup("/s", "/d", "/s/x/a.txt", FileProbe::Modified(ft)) {
        BackupStart::Prepare { folder, time_stamp } => {
            assert_eq!(folder, Some("/d/x".to_string()));
            assert_eq!(time_stamp.chars().count(), 17);
            assert!(time_stamp.starts_with("[2023") && time_stamp.ends_with(']'));
        }
        other => panic!("unexpected {:?}", other),
    }
    match begin_backup("/s", "/d", "/elsewhere/a.txt", FileProbe::Modified(ft)) {
        BackupStart::Prepare { folder, .. } => assert_eq!(folder, None),
        other => panic!("unexpected {:?}", other),
    }
    let far = FileTime { before_epoch: false, secs: 9_000_000_000_000, nanos: 0 };
    assert_eq!(
        begin_backup("/s", "/d", "/s/a.txt", FileProbe::Modified(far)),
        BackupStart::Done(BackupResult::ModifiedFailed("/s/a.txt".into()))
    );
    let early = FileTime { before_epoch: true, secs: 8_334_601_228_800, nanos: 0 };
    assert!(matches!(begin_backup("/s", "/d", "/s/a.txt", FileProbe::Modified(early)), BackupStart::Prepare { .. }));
    let too_early = FileTime { before_epoch: true, secs: 8_334_601_228_801, nanos: 0 };
    assert_eq!(
        begin_backup("/s", "/d", "/s/a.txt", FileProbe::Modified(too_early)),
        BackupStart::Done(BackupResult::ModifiedFailed("/s/a.txt".into()))
    );
    assert_eq!(existing_copy("/d/a.txt".into(), true), Err(BackupResult::AlreadyExists("/d/a.txt".into())));
    assert_eq!(existing_copy("/d/a.txt".into(), false), Ok("/d/a.txt".to_string()));
    assert_eq!(copy_result("/d/a.txt".into(), true), BackupResult::Copied("/d/a.txt".into()));
    assert_eq!(copy_result("/d/a.txt".into(), false), BackupResult::CopyFailed("/d/a.txt".into()));
}

#[test]
fn epoch_offsets() {
    assert_eq!(epoch_offset(FileTime { before_epoch: false, secs: 10, nanos: 5 }), Some((10, 5)));
    assert_eq!(epoch_offset(FileTime { before_epoch: true, secs: 10, nanos: 0 }), Some((-10, 0)));
    assert_eq!(epoch_offset(FileTime { before_epoch: true, secs: 10, nanos: 250 }), Some((-11, 999_999_750)));
    assert_eq!(epoch_offset(FileTime { before_epoch: false, secs: u64::MAX, nanos: 0 }), None);
}

/// A backup of an unchanged file, repeated in the same time zone, gets the
/// same time stamp and so the same copy path.
#[test]
fn repeated_backup_same_stamp() {
    let ft = FileTime { before_epoch: false, secs: 1_700_000_000, nanos: 123 };
    let stamp = |r: BackupStart| match r {
        BackupStart::Prepare { time_stamp, .. } => time_stamp,
        other => panic!("unexpected {:?}", other),
    };
    let a = stamp(begin_backup("/s", "/d", "/s/a.txt", FileProbe::Modified(ft)));
    let b = stamp(begin_backup("/s", "/d", "/s/a.txt", FileProbe::Modified(ft)));
    assert_eq!(a, b);
    assert_eq!(
        backup_path("/d", "/d", false, "/s/a.txt", &a),
        backup_path("/d", "/d", false, "/s/a.txt", &b)
    );
}

/// On Windows the copy goes next to the other copies, named after the file.
#[test]
fn windows_backup_paths() {
    assert_eq!(
        backup_path_on(r"D:\d", r"D:\d", false, r"C:\a.txt", "[s]", true),
        Ok(r"D:\d\a[s].txt".to_string())
    );
    assert_eq!(
        backup_path_on(r"D:\d", r"D:\d\sub", true, r"\\?\C:\src\sub\a.b.psd", "[s]", true),
        Ok(r"D:\d\sub\a.b[s].psd".to_string())
    );
    assert_eq!(
        subfolder_on(r"\\?\C:\src", r"\\?\D:\dest", r"\\?\C:\src\x\y\a.txt", true),
        Some(r"\\?\D:\dest\x\y".to_string())
    );
    assert_eq!(subfolder_on(r"\\?\C:\src", r"\\?\D:\dest", r"\\?\E:\src\a.txt", true), None);
    assert_eq!(
        destination_folder_on(r"C:\src", r"D:\dest", r"C:\src\a.txt", true),
        r"D:\dest\".to_string()
    );
    assert_eq!(
        backup_folder_for_on(true, r"C:\src", r"D:\dest", r"C:\src\x\a.txt", true),
        r"D:\dest\x".to_string()
    );
    let ft = FileTime { before_epoch: false, secs: 1_700_000_000, nanos: 0 };
    match begin_backup_on(r"C:\s", r"D:\d", r"C:\s\x\a.txt", FileProbe::Modified(ft), true) {
        BackupStart::Prepare { folder, .. } => assert_eq!(folder, Some(r"D:\d\x".to_string())),
        other => panic!("unexpected {:?}", other),
    }
}
