use workfile_backupper::models::notify::WaitResult;
use workfile_backupper::services::wait::{FileTime, MetadataProbe, WaitStep, WaitTracker};

fn at(secs: u64) -> Option<FileTime> {
    Some(FileTime { before_epoch: false, secs, nanos: 0 })
}

#[test]
fn written_file_ends_the_wait() {
    let mut w = WaitTracker::new("/s/test.txt".into());
    assert_eq!(w.on_metadata(MetadataProbe::Present { size: 10, modified: at(100) }), WaitStep::Sleep);
    assert_eq!(w.on_metadata(MetadataProbe::Present { size: 12, modified: at(101) }), WaitStep::Sleep);
    assert_eq!(w.on_metadata(MetadataProbe::Present { size: 12, modified: at(101) }), WaitStep::CheckWritable);
    assert_eq!(w.on_writable(true), WaitStep::Finished(WaitResult::Success));
}

#[test]
fn empty_file_at_the_epoch_is_written_at_once() {
    let mut w = WaitTracker::new("/s/test.txt".into());
    assert_eq!(w.on_metadata(MetadataProbe::Present { size: 0, modified: None }), WaitStep::CheckWritable);
    assert_eq!(w.on_writable(true), WaitStep::Finished(WaitResult::Success));
}

#[test]
fn missing_file_is_given_up_after_five_looks() {
    let mut w = WaitTracker::new("/s/rewrite.txt".into());
    for _ in 0..4 {
        assert_eq!(w.on_metadata(MetadataProbe::Missing), WaitStep::Sleep);
    }
    assert_eq!(w.on_metadata(MetadataProbe::Missing), WaitStep::Finished(WaitResult::Missing("/s/rewrite.txt".into())));
}

#[test]
fn seeing_the_file_again_restarts_the_missing_count() {
    let mut w = WaitTracker::new("/s/a.tmp".into());
    for _ in 0..4 {
        assert_eq!(w.on_metadata(MetadataProbe::Missing), WaitStep::Sleep);
    }
    assert_eq!(w.on_metadata(MetadataProbe::Present { size: 3, modified: at(5) }), WaitStep::Sleep);
    for _ in 0..4 {
        assert_eq!(w.on_metadata(MetadataProbe::Missing), WaitStep::Sleep);
    }
    assert_eq!(w.on_metadata(MetadataProbe::Missing), WaitStep::Finished(WaitResult::Missing("/s/a.tmp".into())));
}

#[test]
fn locked_file_is_given_up_after_five_checks() {
    let mut w = WaitTracker::new("/s/rock.txt".into());
    assert_eq!(w.on_metadata(MetadataProbe::Present { size: 5, modified: at(9) }), WaitStep::Sleep);
    for _ in 0..4 {
        assert_eq!(w.on_metadata(MetadataProbe::Present { size: 5, modified: at(9) }), WaitStep::CheckWritable);
        assert_eq!(w.on_writable(false), WaitStep::Sleep);
    }
    assert_eq!(w.on_metadata(MetadataProbe::Present { size: 5, modified: at(9) }), WaitStep::CheckWritable);
    assert_eq!(w.on_writable(false), WaitStep::Finished(WaitResult::Locked("/s/rock.txt".into())));
}

#[test]
fn a_change_clears_the_locked_count() {
    let mut w = WaitTracker::new("/s/a.psd".into());
    assert_eq!(w.on_metadata(MetadataProbe::Present { size: 5, modified: at(9) }), WaitStep::Sleep);
    for _ in 0..4 {
        assert_eq!(w.on_metadata(MetadataProbe::Present { size: 5, modified: at(9) }), WaitStep::CheckWritable);
        assert_eq!(w.on_writable(false), WaitStep::Sleep);
    }
    assert_eq!(w.on_metadata(MetadataProbe::Present { size: 6, modified: at(9) }), WaitStep::Sleep);
    for _ in 0..4 {
        assert_eq!(w.on_metadata(MetadataProbe::Present { size: 6, modified: at(9) }), WaitStep::CheckWritable);
        assert_eq!(w.on_writable(false), WaitStep::Sleep);
    }
}
