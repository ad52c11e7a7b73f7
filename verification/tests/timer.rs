use workfile_backupper::services::timer::UnsavedTimer;
use workfile_backupper::models::notify::{MockNotifier, TimerInfo, ToNotify};

/// Three timeouts of three units each, with a save after the second one.
#[test]
fn test_run_timer() {
    let mut notifier = MockNotifier::new();
    let mut timer = UnsavedTimer::new(3);

    assert!(timer.can_time_out());
    notifier.notify(&timer.on_timeout());
    assert!(timer.can_time_out());
    notifier.notify(&timer.on_timeout());
    timer.on_saved();
    assert!(timer.can_time_out());
    notifier.notify(&timer.on_timeout());

    let expectations = [
        TimerInfo::Elapsed { minutes: 3 },
        TimerInfo::Elapsed { minutes: 6 },
        TimerInfo::Elapsed { minutes: 3 },
    ];
    assert_eq!(notifier.log.len(), expectations.len());
    for i in 0..expectations.len() {
        assert_eq!(notifier.log[i], expectations[i].to_payload());
    }
}

#[test]
fn timer_payload_text() {
    let p = TimerInfo::Elapsed { minutes: 125 }.to_payload();
    assert_eq!(p.title, "ファイル未保存期間");
    assert_eq!(p.body, "125分経過");
    let p = TimerInfo::Elapsed { minutes: 0 }.to_payload();
    assert_eq!(p.body, "0分経過");
}

#[test]
fn timer_refuses_overflow() {
    let mut timer = UnsavedTimer::new(u64::MAX);
    assert!(timer.can_time_out());
    assert_eq!(timer.on_timeout(), TimerInfo::Elapsed { minutes: u64::MAX });
    assert!(!timer.can_time_out());
    timer.on_saved();
    assert!(timer.can_time_out());
}

/// The k-th timeout after a save announces k timeouts' worth of minutes.
#[test]
fn kth_timeout_after_a_save() {
    let mut timer = UnsavedTimer::new(5);
    timer.on_timeout();
    timer.on_timeout();
    timer.on_saved();
    for k in 1..=6u64 {
        assert!(timer.can_time_out());
        assert_eq!(timer.on_timeout(), TimerInfo::Elapsed { minutes: 5 * k });
    }
}
