use workfile_backupper::path::windows_paths;
use workfile_backupper::models::notify::{
    BackupResult, ConfigError, MockNotifier, NotifyLevel, NotifyPayload, NotifyRange, StartResult,
    StopResult, ToNotify, WaitResult, WatchInfo, _clean_path, _get_relative_path, clean_path_on, delivery_plan,
    dialog_message, get_filename, get_filename_on, get_relative_path_on,
};

#[test]
fn filename_for_display() {
    assert_eq!(get_filename("/src/folder/file.txt"), "file.txt");
    assert_eq!(get_filename("relative/file"), "file");
    assert_eq!(get_filename("dir/file.txt/."), "file.txt");
    assert_eq!(get_filename("dir/.."), "ファイル名が不明");
    assert_eq!(get_filename("/"), "ファイル名が不明");
    assert_eq!(get_filename(""), "ファイル名が不明");
    assert_eq!(get_filename("a//b///"), "b");
}

#[test]
fn clean_path_drops_verbatim_prefix_on_windows() {
    assert_eq!(clean_path_on(r"\\?\C:\work", true), r"C:\work");
    assert_eq!(clean_path_on(r"\\?\C:\work", false), r"\\?\C:\work");
    assert_eq!(clean_path_on("/home/user/work", true), "/home/user/work");
    assert_eq!(clean_path_on(r"\\?", true), r"\\?");
    assert_eq!(_clean_path("/home/user/work"), "/home/user/work");
    assert_eq!(_clean_path(r"\\?\C:\work"), clean_path_on(r"\\?\C:\work", windows_paths()));
}

#[test]
fn relative_path_under_base() {
    assert_eq!(_get_relative_path("/src/a/b.txt", "/src"), "a/b.txt");
    assert_eq!(_get_relative_path("/src//a/./b.txt", "/src/"), "a/b.txt");
    assert_eq!(_get_relative_path("/other/b.txt", "/src"), "/other/b.txt");
    assert_eq!(_get_relative_path("/src", "/src"), "");
}

#[test]
fn payloads_of_results() {
    let p = BackupResult::Copied("/dest/sub/file[20240102_030405].txt".into()).to_payload();
    assert_eq!(
        p,
        NotifyPayload {
            level: NotifyLevel::Info,
            range: NotifyRange::Desktop,
            title: "バックアップ",
            body: "file[20240102_030405].txt".into(),
        }
    );
    let p = BackupResult::AlreadyExists("/d/x.txt".into()).to_payload();
    assert_eq!((p.level, p.range, p.title), (NotifyLevel::Remark, NotifyRange::Log, "既にバックアップ済み"));
    let p = BackupResult::CopyFailed("/d/x.txt".into()).to_payload();
    assert_eq!((p.level, p.range, p.title, p.body.as_str()), (NotifyLevel::Error, NotifyRange::Desktop, "コピー失敗", "x.txt"));

    let p = WaitResult::Success.to_payload();
    assert_eq!((p.level, p.range, p.body.as_str()), (NotifyLevel::Remark, NotifyRange::Hidden, ""));
    let p = WaitResult::Locked("/a/b.psd".into()).to_payload();
    assert_eq!((p.title, p.body.as_str()), ("ファイルがロック中", "b.psd"));
    let p = WaitResult::Missing("/a/b.psd".into()).to_payload();
    assert_eq!(p.title, "ファイル消失または読取権限なし");

    let p = WatchInfo::Detected("/a/b.psd".into()).to_payload();
    assert_eq!((p.level, p.range, p.title, p.body.as_str()), (NotifyLevel::Remark, NotifyRange::Console, "変更を検出", "b.psd"));
    let p = WatchInfo::NotTarget("/a/c".into()).to_payload();
    assert_eq!((p.title, p.body.as_str()), ("対象外のためスキップ", "c"));
    let p = WatchInfo::DebounceError.to_payload();
    assert_eq!((p.level, p.range, p.body.as_str()), (NotifyLevel::Error, NotifyRange::Desktop, "デバウンスエラーが発生"));

    let p = StartResult::Success.to_payload();
    assert_eq!((p.level, p.title, p.body.as_str()), (NotifyLevel::Info, "自動バックアップを開始しました", ""));
    let p = StartResult::DebounceStartFailed.to_payload();
    assert_eq!((p.level, p.title, p.body.as_str()), (NotifyLevel::Error, "開始失敗", "デバウンサーの開始に失敗しました"));
    let p = StartResult::NewDebouncerFailed.to_payload();
    assert_eq!(p.body, "デバウンサーの生成に失敗しました");
    let p = StartResult::AlreadyRunning.to_payload();
    assert_eq!(p.title, "既に開始済みです");
    let p = StopResult::Success.to_payload();
    assert_eq!((p.level, p.range, p.title), (NotifyLevel::Info, NotifyRange::Desktop, "自動バックアップを停止しました"));
    let p = StopResult::AlreadyStopped.to_payload();
    assert_eq!(p.title, "既に停止済みです");
}

#[test]
fn payloads_of_config_errors() {
    let cases = [
        (ConfigError::InvalidSourcePath, "保存を検知するフォルダが無効です"),
        (ConfigError::InvalidDestinationPath, "バックアップ先フォルダが無効です"),
        (ConfigError::PathConflict, "保存検知フォルダとバックアップ先が同じです"),
        (ConfigError::NoExtension, "拡張子を一つ以上設定してください"),
        (ConfigError::InvalidNotifyInterval, "未保存通知は1分以上に設定してください"),
    ];
    for (error, body) in cases {
        let p = error.to_payload();
        assert_eq!(p.level, NotifyLevel::Error);
        assert_eq!(p.range, NotifyRange::Dialog);
        assert_eq!(p.title, "開始失敗");
        assert_eq!(p.body, body);
    }
}

#[test]
fn delivery_by_range() {
    let d = delivery_plan(NotifyRange::Dialog, false);
    assert!(d.console && d.log && d.dialog && !d.desktop);
    let d = delivery_plan(NotifyRange::Desktop, true);
    assert!(d.console && d.log && !d.dialog && d.desktop);
    let d = delivery_plan(NotifyRange::Desktop, false);
    assert!(d.console && d.log && !d.dialog && !d.desktop);
    let d = delivery_plan(NotifyRange::Log, true);
    assert!(d.console && d.log && !d.dialog && !d.desktop);
    let d = delivery_plan(NotifyRange::Console, true);
    assert!(d.console && !d.log && !d.dialog && !d.desktop);
    let d = delivery_plan(NotifyRange::Hidden, true);
    assert!(!d.console && !d.log && !d.dialog && !d.desktop);
}

#[test]
fn dialog_text() {
    let p = ConfigError::NoExtension.to_payload();
    assert_eq!(dialog_message(&p), "開始失敗:\n拡張子を一つ以上設定してください");
}

#[test]
fn mock_notifier_records_in_order() {
    let mut n = MockNotifier::new();
    assert!(n.log.is_empty());
    n.notify(&StartResult::Success);
    n.notify(&StopResult::AlreadyStopped);
    assert_eq!(n.log.len(), 2);
    assert_eq!(n.log[0], StartResult::Success.to_payload());
    assert_eq!(n.log[1], StopResult::AlreadyStopped.to_payload());
}

#[test]
fn windows_names_and_relative_paths() {
    assert_eq!(get_filename_on(r"C:\src\folder\file.txt", true), "file.txt");
    assert_eq!(get_filename_on(r"\\?\C:\src\file.txt", true), "file.txt");
    assert_eq!(get_filename_on(r"C:\", true), "ファイル名が不明");
    assert_eq!(get_relative_path_on(r"C:\src\a\b.txt", r"C:\src", true), r"a\b.txt");
    assert_eq!(get_relative_path_on(r"D:\src\a.txt", r"C:\src", true), r"D:\src\a.txt");
    let p = BackupResult::Copied(r"D:\dest\a[20240102_030405].txt".into()).to_payload_on(true);
    assert_eq!(p.body, "a[20240102_030405].txt");
}
