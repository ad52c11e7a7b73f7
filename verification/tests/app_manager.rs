use workfile_backupper::models::config::Config;
use workfile_backupper::models::notify::{MockNotifier, StartResult, StopResult, ToNotify, WatchInfo};
use workfile_backupper::services::app_manager::{
    plan_start, start_succeeded, BackupEventHandler, DebounceOutcome, DebouncerStart, DetectedPath,
    EventKindClass, HandlerAction, WatchEvent, WatchSession,
};
use workfile_backupper::services::file_manager::MockFileManager;
use workfile_backupper::services::target_checker::TargetChecker;

fn handler(all: bool, exts: &[&str]) -> BackupEventHandler {
    let exts: Vec<String> = exts.iter().map(|s| s.to_string()).collect();
    BackupEventHandler {
        target_checker: TargetChecker::new(all, &exts),
        source_path: "/tmp/t/src".into(),
        destination_path: "/tmp/t/dest".into(),
    }
}

fn one_event(kind: EventKindClass, path: &str, is_file: bool) -> DebounceOutcome {
    DebounceOutcome::Events(vec![WatchEvent {
        kind,
        paths: vec![DetectedPath { path: path.to_string(), is_file }],
    }])
}

/// The decisions after a debounced change, with a recording file manager.
#[test]
fn test_debouncer_callback_logic() {
    let h = handler(false, &["txt"]);
    // (file name, whether it is a file, backups expected)
    let cases = [
        ("test.txt", true, 1),
        ("deep/dir/a.txt", true, 1),
        ("IMAGE.TXT", true, 1),
        ("no_ext", true, 0),
        (".gitignore", true, 0),
        ("some_folder", false, 0),
    ];
    for (file_name, is_file, expected_count) in cases {
        let full_path = format!("/tmp/t/src/{}", file_name);
        let mut manager = MockFileManager::new();
        let mut notifier = MockNotifier::new();
        let result = one_event(EventKindClass::Modify, &full_path, is_file);
        for action in h.process_event(&result) {
            match action {
                HandlerAction::Notify(info) => notifier.notify(&info),
                HandlerAction::Backup(path) => manager.execute(&path),
            }
        }
        assert_eq!(manager.paths.len(), expected_count, "backups for {:?}", full_path);
        if manager.paths.len() > 0 {
            assert_eq!(manager.paths[0], full_path);
            assert_eq!(notifier.log[0], WatchInfo::Detected(full_path.clone()).to_payload());
        } else {
            assert_eq!(notifier.log[0], WatchInfo::NotTarget(full_path.clone()).to_payload());
        }
    }
}

#[test]
fn only_changes_and_creations_count() {
    let h = handler(true, &[]);
    for kind in [EventKindClass::Access, EventKindClass::Remove, EventKindClass::Any, EventKindClass::Other] {
        assert!(h.process_event(&one_event(kind, "/tmp/t/src/a.txt", true)).is_empty());
    }
    let acts = h.process_event(&one_event(EventKindClass::Create, "/tmp/t/src/a.txt", true));
    assert_eq!(
        acts,
        vec![
            HandlerAction::Notify(WatchInfo::Detected("/tmp/t/src/a.txt".into())),
            HandlerAction::Backup("/tmp/t/src/a.txt".into())
        ]
    );
    assert_eq!(h.process_event(&DebounceOutcome::Errors), vec![HandlerAction::Notify(WatchInfo::DebounceError)]);
}

#[test]
fn events_keep_their_order() {
    let h = handler(false, &["psd"]);
    let outcome = DebounceOutcome::Events(vec![
        WatchEvent {
            kind: EventKindClass::Modify,
            paths: vec![
                DetectedPath { path: "/s/a.psd".into(), is_file: true },
                DetectedPath { path: "/s/b.txt".into(), is_file: true },
            ],
        },
        WatchEvent { kind: EventKindClass::Remove, paths: vec![DetectedPath { path: "/s/c.psd".into(), is_file: true }] },
        WatchEvent { kind: EventKindClass::Create, paths: vec![DetectedPath { path: "/s/d.PSD".into(), is_file: true }] },
    ]);
    assert_eq!(
        h.process_event(&outcome),
        vec![
            HandlerAction::Notify(WatchInfo::Detected("/s/a.psd".into())),
            HandlerAction::Backup("/s/a.psd".into()),
            HandlerAction::Notify(WatchInfo::NotTarget("/s/b.txt".into())),
            HandlerAction::Notify(WatchInfo::Detected("/s/d.PSD".into())),
            HandlerAction::Backup("/s/d.PSD".into()),
        ]
    );
}

/// Start failing, starting, starting again, stopping, stopping again.
#[test]
fn session_start_and_stop() {
    let mut session = WatchSession::new();
    let mut notifier = MockNotifier::new();

    assert_eq!(session.request_start(), None);
    let r = session.on_debouncer(DebouncerStart::WatchFailed);
    notifier.notify(&r);
    assert_eq!(start_succeeded(r), Err(()));
    assert_eq!(notifier.log.last().unwrap(), &StartResult::DebounceStartFailed.to_payload());
    assert!(!session.is_running());

    assert_eq!(session.request_start(), None);
    let r = session.on_debouncer(DebouncerStart::Watching);
    notifier.notify(&r);
    assert_eq!(start_succeeded(r), Ok(()));
    assert_eq!(notifier.log.last().unwrap(), &StartResult::Success.to_payload());
    assert!(session.is_running());

    let r = session.request_start().unwrap();
    assert_eq!(r, StartResult::AlreadyRunning);
    assert_eq!(start_succeeded(r), Err(()));
    assert!(session.is_running());

    assert_eq!(session.stop(), StopResult::Success);
    assert_eq!(session.stop(), StopResult::AlreadyStopped);

    let mut session = WatchSession::new();
    assert_eq!(session.on_debouncer(DebouncerStart::CreateFailed), StartResult::NewDebouncerFailed);
    assert!(!session.is_running());
}

#[test]
fn start_plan_from_settings() {
    let mut config = Config::default();
    config.source_path = "/s".into();
    config.destination_path = "/d".into();
    config.all_files_enabled = false;
    config.extensions = vec!["TXT".into()];
    let plan = plan_start(&config);
    assert_eq!(plan.timer_minutes, None);
    assert!(plan.recursive);
    assert_eq!(plan.watch_path, "/s");
    assert!(plan.handler.target_checker.is_target_logic("/s/a.txt"));
    config.is_notify_unsaved = true;
    config.notify_interval = 15;
    assert_eq!(plan_start(&config).timer_minutes, Some(15));
}
