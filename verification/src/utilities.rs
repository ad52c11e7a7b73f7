//! A record of calls, for spies in tests.

use vstd::prelude::*;
use vstd::pervasive::cloned;

verus! {

/// The values that a spy was called with, in order.
///
/// A clone is a record of its own: a call pushed to one is not seen through
/// the other. Sharing one history between clones takes a lock around it,
/// which this record does not hold.
#[derive(Clone)]
pub struct CallLog<T: Clone> {
    calls: Vec<T>,
}

impl<T: Clone> View for CallLog<T> {
    type V = Seq<T>;

    closed spec fn view(&self) -> Seq<T> {
        self.calls@
    }
}

impl<T: Clone> CallLog<T> {
    /// An empty record.
    pub fn new() -> (r: Self)
        ensures
            r@ == Seq::<T>::empty(),
    {
        CallLog { calls: Vec::new() }
    }

    /// Records one call.
    pub fn push(&mut self, item: T)
        ensures
            final(self)@ == old(self)@.push(item),
    {
        self.calls.push(item);
    }

    /// How many calls were recorded.
    pub fn len(&self) -> (n: usize)
        ensures
            n == self@.len(),
    {
        self.calls.len()
    }

    /// A clone of the last recorded call (there must be one).
    pub fn last(&self) -> (r: T)
        requires
            self@.len() > 0,
        ensures
            cloned(self@.last(), r),
    {
        self.calls[self.calls.len() - 1].clone()
    }
}

} // verus!
