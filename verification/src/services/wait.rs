//! Waiting until a detected file is no longer being written.
//!
//! The file is looked at every few seconds. It counts as written when its size
//! and modification time are the same as at the previous look and it can be
//! opened for writing. It is given up as locked after five such looks in a row
//! that could not open it, and as missing after five looks in a row that found
//! no metadata: a look that finds the file again starts the missing count anew.

use vstd::prelude::*;
use crate::models::notify::WaitResult;

verus! {

/// How many failed looks end the wait.
pub const FILE_ERROR_COUNT_MAX: u32 = 5;

/// A modification time: the time since the Unix epoch, or before it.
#[derive(Debug, Clone, Copy, PartialEq, Eq, Structural)]
pub struct FileTime {
    /// Whether the time lies before the epoch.
    pub before_epoch: bool,
    /// Whole seconds from the epoch.
    pub secs: u64,
    /// Nanoseconds beyond the whole seconds (under one second).
    pub nanos: u32,
}

impl FileTime {
    /// The epoch itself.
    pub fn epoch() -> (t: FileTime)
        ensures
            t == (FileTime { before_epoch: false, secs: 0, nanos: 0 }),
    {
        FileTime { before_epoch: false, secs: 0, nanos: 0 }
    }
}

/// What one look at the file's metadata gave.
#[derive(Debug, Clone, Copy, PartialEq, Eq, Structural)]
pub enum MetadataProbe {
    /// No metadata (the file is gone or cannot be read).
    Missing,
    /// The size, and the modification time when the system gave one.
    Present { size: u64, modified: Option<FileTime> },
}

/// What the waiting loop does next.
#[derive(Debug, Clone, PartialEq, Eq)]
pub enum WaitStep {
    /// Sleep for the check interval, then look at the metadata again.
    Sleep,
    /// Try to open the file for writing, and report whether that worked.
    CheckWritable,
    /// The wait is over with this result.
    Finished(WaitResult),
}

/// The state of one wait.
pub struct WaitTracker {
    path: String,
    last_size: u64,
    last_modified: FileTime,
    missing_count: u32,
    locked_count: u32,
    checking: bool,
}

/// The state of one wait, as values.
pub struct WaitView {
    pub path: Seq<char>,
    pub last_size: u64,
    pub last_modified: FileTime,
    pub missing_count: u32,
    pub locked_count: u32,
    /// Whether a writability check is due.
    pub checking: bool,
}

impl View for WaitTracker {
    type V = WaitView;

    closed spec fn view(&self) -> WaitView {
        WaitView {
            path: self.path@,
            last_size: self.last_size,
            last_modified: self.last_modified,
            missing_count: self.missing_count,
            locked_count: self.locked_count,
            checking: self.checking,
        }
    }
}

impl WaitTracker {
    /// The counters stay below the limit.
    #[verifier::type_invariant]
    closed spec fn counts_below_limit(self) -> bool {
        &&& self.missing_count < FILE_ERROR_COUNT_MAX
        &&& self.locked_count < FILE_ERROR_COUNT_MAX
    }

    /// A fresh wait for `path`: size 0, time at the epoch, no failed look.
    pub fn new(path: String) -> (w: Self)
        ensures
            w@.path == path@,
            w@.last_size == 0,
            w@.last_modified == (FileTime { before_epoch: false, secs: 0, nanos: 0 }),
            w@.missing_count == 0,
            w@.locked_count == 0,
            !w@.checking,
    {
        WaitTracker {
            path,
            last_size: 0,
            last_modified: FileTime::epoch(),
            missing_count: 0,
            locked_count: 0,
            checking: false,
        }
    }

    /// A look at the metadata. Missing metadata counts one more missing look,
    /// and ends the wait as missing at the limit. Any metadata clears the
    /// missing count. Metadata with the size and time of the previous look asks
    /// for a writability check. Other metadata clears the locked count, and is
    /// remembered for the next look. A missing time counts as the previous one.
    pub fn on_metadata(&mut self, probe: MetadataProbe) -> (step: WaitStep)
        requires
            !old(self)@.checking,
        ensures
            final(self)@.path == old(self)@.path,
            match probe {
                MetadataProbe::Missing => {
                    &&& final(self)@.locked_count == old(self)@.locked_count
                    &&& final(self)@.last_size == old(self)@.last_size
                    &&& final(self)@.last_modified == old(self)@.last_modified
                    &&& !final(self)@.checking
                    &&& if old(self)@.missing_count + 1 >= FILE_ERROR_COUNT_MAX {
                        step matches WaitStep::Finished(WaitResult::Missing(p)) && p@ == old(
                            self,
                        )@.path
                    } else {
                        &&& step is Sleep
                        &&& final(self)@.missing_count == old(self)@.missing_count + 1
                    }
                },
                MetadataProbe::Present { size, modified } => {
                    let time = match modified {
                        Some(t) => t,
                        None => old(self)@.last_modified,
                    };
                    &&& final(self)@.missing_count == 0
                    &&& final(self)@.last_size == size
                    &&& final(self)@.last_modified == time
                    &&& if size == old(self)@.last_size && time == old(self)@.last_modified {
                        &&& step is CheckWritable
                        &&& final(self)@.checking
                        &&& final(self)@.locked_count == old(self)@.locked_count
                    } else {
                        &&& step is Sleep
                        &&& !final(self)@.checking
                        &&& final(self)@.locked_count == 0
                    }
                },
            },
            final(self)@.missing_count < FILE_ERROR_COUNT_MAX,
            final(self)@.locked_count < FILE_ERROR_COUNT_MAX,
    {
        proof {
            use_type_invariant(&*self);
        }
        match probe {
            MetadataProbe::Missing => {
                if self.missing_count + 1 >= FILE_ERROR_COUNT_MAX {
                    return WaitStep::Finished(WaitResult::Missing(self.path.clone()));
                }
                self.missing_count = self.missing_count + 1;
                WaitStep::Sleep
            },
            MetadataProbe::Present { size, modified } => {
                let time = match modified {
                    Some(t) => t,
                    None => self.last_modified,
                };
                let unchanged = size == self.last_size && time == self.last_modified;
                self.missing_count = 0;
                self.last_size = size;
                self.last_modified = time;
                if unchanged {
                    self.checking = true;
                    WaitStep::CheckWritable
                } else {
                    self.locked_count = 0;
                    WaitStep::Sleep
                }
            },
        }
    }

    /// The result of the writability check: success ends the wait; failure
    /// counts one more locked look, and ends the wait as locked at the limit.
    pub fn on_writable(&mut self, writable: bool) -> (step: WaitStep)
        requires
            old(self)@.checking,
        ensures
            final(self)@.path == old(self)@.path,
            final(self)@.last_size == old(self)@.last_size,
            final(self)@.last_modified == old(self)@.last_modified,
            final(self)@.missing_count == old(self)@.missing_count,
            !final(self)@.checking,
            writable ==> step == WaitStep::Finished(WaitResult::Success),
            !writable ==> {
                if old(self)@.locked_count + 1 >= FILE_ERROR_COUNT_MAX {
                    step matches WaitStep::Finished(WaitResult::Locked(p)) && p@ == old(self)@.path
                } else {
                    &&& step is Sleep
                    &&& final(self)@.locked_count == old(self)@.locked_count + 1
                }
            },
            final(self)@.missing_count < FILE_ERROR_COUNT_MAX,
            final(self)@.locked_count < FILE_ERROR_COUNT_MAX,
    {
        proof {
            use_type_invariant(&*self);
        }
        self.checking = false;
        if writable {
            return WaitStep::Finished(WaitResult::Success);
        }
        if self.locked_count + 1 >= FILE_ERROR_COUNT_MAX {
            return WaitStep::Finished(WaitResult::Locked(self.path.clone()));
        }
        self.locked_count = self.locked_count + 1;
        WaitStep::Sleep
    }
}


/// The same result as a level-only message result.
pub fn as_message_result(r: &WaitResult) -> (m: crate::models::message::WaitResult)
    ensures
        match (*r, m) {
            (WaitResult::Success, crate::models::message::WaitResult::Success) => true,
            (WaitResult::Locked(a), crate::models::message::WaitResult::Locked(b)) => a@ == b@,
            (WaitResult::Missing(a), crate::models::message::WaitResult::Missing(b)) => a@ == b@,
            _ => false,
        },
{
    match r {
        WaitResult::Success => crate::models::message::WaitResult::Success,
        WaitResult::Locked(p) => crate::models::message::WaitResult::Locked(p.clone()),
        WaitResult::Missing(p) => crate::models::message::WaitResult::Missing(p.clone()),
    }
}

} // verus!
