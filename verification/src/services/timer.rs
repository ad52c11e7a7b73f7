//! The timer that announces how long no file has been saved.
//!
//! Each time the timeout passes without a save, the time since the last save
//! is announced; a save (a completed backup) restarts the count.

use vstd::prelude::*;
use crate::models::notify::TimerInfo;

verus! {

/// The count of timeouts since the last save.
pub struct UnsavedTimer {
    timeout_mins: u64,
    count: u64,
}

/// The timer as values.
pub struct TimerView {
    pub timeout_mins: u64,
    pub count: u64,
}

impl View for UnsavedTimer {
    type V = TimerView;

    closed spec fn view(&self) -> TimerView {
        TimerView { timeout_mins: self.timeout_mins, count: self.count }
    }
}

/// The timer after one more timeout without a save.
pub open spec fn after_timeout(t: TimerView) -> TimerView {
    TimerView { count: (t.count + 1) as u64, ..t }
}

/// The timer after a save.
pub open spec fn after_save(t: TimerView) -> TimerView {
    TimerView { count: 0, ..t }
}

/// The minutes announced at the next timeout.
pub open spec fn next_minutes(t: TimerView) -> int {
    t.timeout_mins * (t.count + 1)
}

/// Whether the next timeout can be counted: the count and the minutes fit in a `u64`.
pub open spec fn can_count(t: TimerView) -> bool {
    t.count < u64::MAX && next_minutes(t) <= u64::MAX
}

impl UnsavedTimer {
    /// A timer that announces every `timeout_mins` minutes, with no timeout passed yet.
    pub fn new(timeout_mins: u64) -> (t: Self)
        ensures
            t@ == (TimerView { timeout_mins, count: 0 }),
    {
        UnsavedTimer { timeout_mins, count: 0 }
    }

    /// Whether the next timeout can be counted (the count and the minutes fit in a `u64`).
    pub fn can_time_out(&self) -> (r: bool)
        ensures
            r == can_count(self@),
    {
        if self.count == u64::MAX {
            return false;
        }
        let next = self.count as u128 + 1;
        assert((self.timeout_mins as u128) * next <= u128::MAX) by (nonlinear_arith)
            requires
                next <= u64::MAX,
                self.timeout_mins <= u64::MAX,
        ;
        let product: u128 = (self.timeout_mins as u128) * next;
        assert(product == self.timeout_mins * (self.count + 1)) by (nonlinear_arith)
            requires
                next == self.count + 1,
                product == (self.timeout_mins as u128) * next,
        ;
        product <= u64::MAX as u128
    }

    /// One more timeout without a save: announces the minutes since the last save.
    pub fn on_timeout(&mut self) -> (info: TimerInfo)
        requires
            can_count(old(self)@),
        ensures
            final(self)@ == after_timeout(old(self)@),
            info == (TimerInfo::Elapsed { minutes: next_minutes(old(self)@) as u64 }),
    {
        self.count = self.count + 1;
        TimerInfo::Elapsed { minutes: self.timeout_mins * self.count }
    }

    /// A save: the count starts again.
    pub fn on_saved(&mut self)
        ensures
            final(self)@ == after_save(old(self)@),
    {
        self.count = 0;
    }
}

/// Laws of the timer: the first timeout after a save announces exactly one
/// timeout's worth of minutes, and every timeout adds one timeout's worth to
/// the announced minutes.
pub proof fn lemma_timer_laws(t: TimerView)
    ensures
        next_minutes(after_save(t)) == t.timeout_mins,
        can_count(t) ==> next_minutes(after_timeout(t)) == next_minutes(t)
            + t.timeout_mins,
{
    assert(t.timeout_mins * (0 + 1) == t.timeout_mins) by (nonlinear_arith);
    if can_count(t) {
        assert(t.timeout_mins * (t.count + 1 + 1) == t.timeout_mins * (t.count + 1)
            + t.timeout_mins) by (nonlinear_arith);
    }
}

/// The timer after `k` timeouts without a save.
pub open spec fn after_timeouts(t: TimerView, k: nat) -> TimerView
    decreases k,
{
    if k == 0 {
        t
    } else {
        after_timeout(after_timeouts(t, (k - 1) as nat))
    }
}

proof fn lemma_count_since_save(t: TimerView, j: nat)
    requires
        j <= u64::MAX,
    ensures
        after_timeouts(after_save(t), j) == (TimerView { timeout_mins: t.timeout_mins, count: j as u64 }),
    decreases j,
{
    if j > 0 {
        lemma_count_since_save(t, (j - 1) as nat);
    }
}

/// Law of the timer: counted from a save (or from the start, which has the
/// same count), the `k`-th timeout announces `k` timeouts' worth of minutes,
/// and it can be counted whenever those minutes fit in a `u64`.
pub proof fn lemma_kth_timeout(t: TimerView, k: nat)
    requires
        1 <= k <= u64::MAX,
    ensures
        ({
            let before = after_timeouts(after_save(t), (k - 1) as nat);
            &&& before.count == k - 1
            &&& next_minutes(before) == t.timeout_mins * k
            &&& t.timeout_mins * k <= u64::MAX ==> can_count(before)
        }),
        (TimerView { timeout_mins: t.timeout_mins, count: 0 }) == after_save(t),
{
    lemma_count_since_save(t, (k - 1) as nat);
}

} // verus!
