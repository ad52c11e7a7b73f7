//! Bookkeeping of the files being processed: a file is taken up at most once
//! at a time, and no more than a fixed number of tasks run together.

use vstd::prelude::*;
use crate::text::{chars_of, chars_eq};
use crate::path::views;

verus! {

/// How many tasks may run at once.
pub const MAX_CONCURRENCY: usize = 8;

/// Whether a new task must wait for a running one to finish first.
pub fn must_wait_for_slot(running: usize) -> (r: bool)
    ensures
        r == (running >= MAX_CONCURRENCY),
{
    running >= MAX_CONCURRENCY
}

/// The paths of the files being processed, each held once.
pub struct ActiveFiles {
    items: Vec<Vec<char>>,
}

impl ActiveFiles {
    #[verifier::type_invariant]
    closed spec fn inv(self) -> bool {
        views(self.items@).no_duplicates()
    }
}

impl View for ActiveFiles {
    type V = Set<Seq<char>>;

    closed spec fn view(&self) -> Set<Seq<char>> {
        views(self.items@).to_set()
    }
}

fn position(items: &Vec<Vec<char>>, p: &Vec<char>) -> (r: Option<usize>)
    ensures
        match r {
            Some(i) => i < items.len() && views(items@)[i as int] == p@,
            None => !views(items@).contains(p@),
        },
{
    let mut i: usize = 0;
    while i < items.len()
        invariant
            i <= items.len(),
            forall|j: int| 0 <= j < i ==> views(items@)[j] != p@,
        decreases items.len() - i,
    {
        assert(views(items@)[i as int] == items@[i as int]@);
        if chars_eq(&items[i], p) {
            return Some(i);
        }
        i = i + 1;
    }
    None
}

impl ActiveFiles {
    /// No file in process.
    pub fn new() -> (r: Self)
        ensures
            r@ == Set::<Seq<char>>::empty(),
    {
        let r = ActiveFiles { items: Vec::new() };
        assert(r@ =~= Set::<Seq<char>>::empty());
        r
    }

    /// How many files are in process.
    pub fn len(&self) -> (n: usize)
        ensures
            n == self@.len(),
    {
        proof {
            use_type_invariant(self);
            views(self.items@).unique_seq_to_set();
        }
        self.items.len()
    }

    /// Whether `path` is in process.
    pub fn contains(&self, path: &str) -> (r: bool)
        ensures
            r == self@.contains(path@),
    {
        let p = chars_of(path);
        position(&self.items, &p).is_some()
    }

    /// Takes `path` up: false, with nothing changed, when it is already in
    /// process; true when it was not, and now is.
    pub fn register(&mut self, path: &str) -> (r: bool)
        ensures
            r == !old(self)@.contains(path@),
            final(self)@ == old(self)@.insert(path@),
    {
        proof {
            use_type_invariant(&*self);
        }
        let p = chars_of(path);
        if position(&self.items, &p).is_some() {
            assert(old(self)@.insert(path@) =~= old(self)@);
            return false;
        }
        let mut items: Vec<Vec<char>> = Vec::new();
        std::mem::swap(&mut items, &mut self.items);
        let ghost pre = items@;
        items.push(p);
        proof {
            assert(views(items@) =~= views(pre).push(path@));
            views(pre).lemma_push_to_set_commute(path@);
            assert forall|a: int, b: int|
                0 <= a < views(items@).len() && 0 <= b < views(items@).len() && a != b implies views(
                items@,
            )[a] != views(items@)[b] by {
                if a < pre.len() && b < pre.len() {
                    assert(views(pre)[a] != views(pre)[b]);
                } else if a < pre.len() {
                    assert(views(pre).contains(views(pre)[a]));
                } else if b < pre.len() {
                    assert(views(pre).contains(views(pre)[b]));
                }
            }
        }
        self.items = items;
        true
    }

    /// Releases `path` when its task ends.
    pub fn release(&mut self, path: &str)
        ensures
            final(self)@ == old(self)@.remove(path@),
    {
        proof {
            use_type_invariant(&*self);
        }
        let p = chars_of(path);
        match position(&self.items, &p) {
            None => {
                assert(old(self)@.remove(path@) =~= old(self)@);
            },
            Some(i) => {
                let mut items: Vec<Vec<char>> = Vec::new();
                std::mem::swap(&mut items, &mut self.items);
                let ghost pre = items@;
                let _gone = items.remove(i);
                proof {
                    assert(views(items@) =~= views(pre).remove(i as int));
                    assert(views(items@).to_set() =~= views(pre).to_set().remove(path@)) by {
                        assert forall|x: Seq<char>| views(items@).to_set().contains(x) implies views(
                            pre,
                        ).to_set().remove(path@).contains(x) by {
                            let k = choose|k: int| 0 <= k < views(items@).len() && views(items@)[k] == x;
                            if k < i {
                                assert(views(pre)[k] == x);
                                assert(k != i);
                            } else {
                                assert(views(pre)[k + 1] == x);
                                assert(k + 1 != i);
                            }
                        }
                        assert forall|x: Seq<char>| views(pre).to_set().remove(path@).contains(x) implies views(
                            items@,
                        ).to_set().contains(x) by {
                            let k = choose|k: int| 0 <= k < views(pre).len() && views(pre)[k] == x;
                            assert(k != i);
                            if k < i {
                                assert(views(items@)[k] == x);
                            } else {
                                assert(views(items@)[k - 1] == x);
                            }
                        }
                    }
                    assert forall|a: int, b: int|
                        0 <= a < views(items@).len() && 0 <= b < views(items@).len() && a != b implies views(
                        items@,
                    )[a] != views(items@)[b] by {
                        let a2 = if a < i { a } else { a + 1 };
                        let b2 = if b < i { b } else { b + 1 };
                        assert(views(items@)[a] == views(pre)[a2]);
                        assert(views(items@)[b] == views(pre)[b2]);
                    }
                }
                self.items = items;
            },
        }
    }
}

/// A file manager that only records the paths that it is given (for tests).
pub struct MockFileManager {
    pub paths: Vec<String>,
}

impl MockFileManager {
    pub fn new() -> (m: Self)
        ensures
            m.paths@.len() == 0,
    {
        MockFileManager { paths: Vec::new() }
    }

    /// Records `path` (the work that a real manager would start is not run).
    pub fn execute(&mut self, path: &str)
        ensures
            final(self).paths@.len() == old(self).paths@.len() + 1,
            final(self).paths@.last()@ == path@,
            forall|i: int| 0 <= i < old(self).paths@.len() ==> final(self).paths@[i] == old(self).paths@[i],
    {
        let p = crate::text::string_of(&chars_of(path));
        self.paths.push(p);
    }
}


/// Law of the bookkeeping: a path taken up and then released leaves the set as
/// it was, and while it is taken up a second registration is refused.
pub proof fn lemma_register_release(active: Set<Seq<char>>, path: Seq<char>)
    requires
        !active.contains(path),
    ensures
        active.insert(path).remove(path) == active,
        active.insert(path).contains(path),
        active.insert(path).insert(path) == active.insert(path),
{
    assert(active.insert(path).remove(path) =~= active);
    assert(active.insert(path).insert(path) =~= active.insert(path));
}

/// The count of the tasks that have been started and not yet waited for, kept
/// within the limit.
pub struct TaskSlots {
    running: usize,
}

impl TaskSlots {
    #[verifier::type_invariant]
    closed spec fn within_limit(self) -> bool {
        self.running <= MAX_CONCURRENCY
    }

    /// The number of tasks started and not yet waited for.
    pub closed spec fn count(self) -> nat {
        self.running as nat
    }

    /// No task yet.
    pub fn new() -> (r: Self)
        ensures
            r.count() == 0,
    {
        TaskSlots { running: 0 }
    }

    /// The number of tasks started and not yet waited for.
    pub fn running(&self) -> (n: usize)
        ensures
            n == self.count(),
            n <= MAX_CONCURRENCY,
    {
        proof {
            use_type_invariant(self);
        }
        self.running
    }

    /// A new task is about to start: true when a running task must be
    /// waited for first (the limit is reached). Afterwards the count includes
    /// the new task, and the one waited for is gone; it never exceeds the
    /// limit.
    pub fn start(&mut self) -> (wait_first: bool)
        ensures
            wait_first == (old(self).count() >= MAX_CONCURRENCY),
            final(self).count() == (if wait_first {
                old(self).count()
            } else {
                old(self).count() + 1
            }),
            final(self).count() <= MAX_CONCURRENCY,
    {
        proof {
            use_type_invariant(&*self);
        }
        let wait_first = must_wait_for_slot(self.running);
        if !wait_first {
            self.running = self.running + 1;
        }
        wait_first
    }

    /// Every task has been waited for.
    pub fn clear(&mut self)
        ensures
            final(self).count() == 0,
    {
        self.running = 0;
    }
}

} // verus!
