use workfile_backupper::models::message::{
    clean_path, get_filename, get_relative_path, BackupResult, Notify, NotifyLevel, StartResult,
    StopResult, WaitResult, WatchInfo,
};
use workfile_backupper::services::app_manager::{DebounceOutcome, DetectedPath, EventKindClass, WatchEvent};
use workfile_backupper::services::extensions::Extensions;
use workfile_backupper::services::watch::{watch_callback_actions, WatchAction};

#[test]
fn messages() {
    let d = StartResult::InvalidSourcePath(r"\\?\C:\work".into()).get_dto_on(true);
    assert_eq!((d.level, d.title, d.body.as_str()), (NotifyLevel::Error, "バックアップ元フォルダが無効", r"C:\work"));
    let d = StartResult::InvalidDestinationPath(r"\\?\C:\work".into()).get_dto_on(false);
    assert_eq!((d.title, d.body.as_str()), ("バックアップ先フォルダが無効", r"\\?\C:\work"));
    let d = StartResult::DebounceStartFailed("/w".into()).get_dto();
    assert_eq!((d.title, d.body.as_str()), ("フォルダの監視開始に失敗", "/w"));
    let d = StartResult::AlreadyRunning.get_dto();
    assert_eq!(d.level, NotifyLevel::Silent);
    let d = StopResult::Success.get_dto();
    assert_eq!((d.level, d.title), (NotifyLevel::Info, "バックアップを停止しました"));
    let d = WaitResult::Success.get_dto();
    assert_eq!(d.level, NotifyLevel::Debug);
    let d = BackupResult::CopyFailed("/d/a.txt".into()).get_dto();
    assert_eq!((d.title, d.body.as_str()), ("コピーに失敗", "a.txt"));
    let d = BackupResult::AlreadyExists("/d/a.txt".into()).get_dto();
    assert_eq!(d.level, NotifyLevel::Silent);
    let d = WatchInfo::UnspecifiedExtension("/s/a.md".into()).get_dto();
    assert_eq!((d.level, d.title, d.body.as_str()), (NotifyLevel::Debug, "指定外の拡張子をスキップ", "a.md"));
    let d = WatchInfo::DebounceError.get_dto();
    assert_eq!(d.body, "デバウンスエラーが発生");
    assert_eq!(clean_path("/x"), "/x");
    assert_eq!(get_filename("/x/y.z"), "y.z");
    assert_eq!(get_relative_path("/x/y/z", "/x"), "y/z");
}

#[test]
fn extension_list_watch_rule() {
    let mut exts = Extensions::new();
    exts.insert("txt");
    let outcome = DebounceOutcome::Events(vec![WatchEvent {
        kind: EventKindClass::Modify,
        paths: vec![
            DetectedPath { path: "/s/dir".into(), is_file: false },
            DetectedPath { path: "/s/a.TXT".into(), is_file: true },
            DetectedPath { path: "/s/b.md".into(), is_file: true },
        ],
    }]);
    // With all files: the folder is dropped silently, both files are backed up.
    assert_eq!(
        watch_callback_actions(&outcome, true, &exts),
        vec![
            WatchAction::Notify(WatchInfo::ModificationDetected("/s/a.TXT".into())),
            WatchAction::Backup("/s/a.TXT".into()),
            WatchAction::Notify(WatchInfo::ModificationDetected("/s/b.md".into())),
            WatchAction::Backup("/s/b.md".into()),
        ]
    );
    // With the listed extensions: the folder and the markdown file are skipped.
    assert_eq!(
        watch_callback_actions(&outcome, false, &exts),
        vec![
            WatchAction::Notify(WatchInfo::UnspecifiedExtension("/s/dir".into())),
            WatchAction::Notify(WatchInfo::ModificationDetected("/s/a.TXT".into())),
            WatchAction::Backup("/s/a.TXT".into()),
            WatchAction::Notify(WatchInfo::UnspecifiedExtension("/s/b.md".into())),
        ]
    );
    assert_eq!(
        watch_callback_actions(&DebounceOutcome::Errors, false, &exts),
        vec![WatchAction::Notify(WatchInfo::DebounceError)]
    );
}
