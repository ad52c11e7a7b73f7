//! The extensions of the files to back up, compared without regard to ASCII case.

use vstd::prelude::*;
use crate::text::{chars_of, lower_chars, lower_seq, is_lower, chars_eq};
use crate::path::{extension_in, path_extension_in, views, windows_paths};

verus! {

/// The lower-cased forms of a list of extensions.
pub open spec fn lowered(exts: Seq<Seq<char>>) -> Set<Seq<char>> {
    exts.map_values(|e: Seq<char>| lower_seq(e)).to_set()
}

/// Whether the extension of `path` (read as on Windows when `windows`),
/// lower-cased, is in `set`.
pub open spec fn has_listed_extension(set: Set<Seq<char>>, path: Seq<char>, windows: bool) -> bool {
    match extension_in(path, windows) {
        Some(e) => set.contains(lower_seq(e)),
        None => false,
    }
}

/// A set of extensions, each held in lower case and once.
pub struct Extensions {
    items: Vec<Vec<char>>,
}

impl Extensions {
    #[verifier::type_invariant]
    closed spec fn inv(self) -> bool {
        &&& views(self.items@).no_duplicates()
        &&& forall|i: int| 0 <= i < self.items@.len() ==> is_lower(#[trigger] self.items@[i]@)
    }
}

impl View for Extensions {
    type V = Set<Seq<char>>;

    closed spec fn view(&self) -> Set<Seq<char>> {
        views(self.items@).to_set()
    }
}

/// Whether `items` holds `e`.
fn holds(items: &Vec<Vec<char>>, e: &Vec<char>) -> (r: bool)
    ensures
        r == views(items@).contains(e@),
{
    let mut i: usize = 0;
    while i < items.len()
        invariant
            i <= items.len(),
            forall|j: int| 0 <= j < i ==> views(items@)[j] != e@,
        decreases items.len() - i,
    {
        assert(views(items@)[i as int] == items@[i as int]@);
        if chars_eq(&items[i], e) {
            assert(views(items@)[i as int] == e@);
            return true;
        }
        i = i + 1;
    }
    false
}

/// `items` with `e` added at the end when it is not already there.
fn add_once(items: Vec<Vec<char>>, e: Vec<char>) -> (r: Vec<Vec<char>>)
    requires
        views(items@).no_duplicates(),
    ensures
        views(r@).no_duplicates(),
        views(r@).to_set() == views(items@).to_set().insert(e@),
        forall|x: Vec<char>| r@.contains(x) ==> items@.contains(x) || x == e,
{
    if holds(&items, &e) {
        assert(views(items@).to_set().insert(e@) =~= views(items@).to_set());
        items
    } else {
        let mut items = items;
        let ghost pre = items@;
        items.push(e);
        assert(views(items@) =~= views(pre).push(e@));
        proof {
            views(pre).lemma_push_to_set_commute(e@);
            assert forall|x: Vec<char>| items@.contains(x) implies pre.contains(x) || x == e by {
                let k = choose|k: int| 0 <= k < items@.len() && items@[k] == x;
                if k < pre.len() {
                    assert(pre[k] == x);
                }
            }
        }
        items
    }
}

impl Extensions {
    /// No extension.
    pub fn new() -> (r: Self)
        ensures
            r@ == Set::<Seq<char>>::empty(),
    {
        let r = Extensions { items: Vec::new() };
        assert(r@ =~= Set::<Seq<char>>::empty());
        r
    }

    /// Adds `extension`, lower-cased.
    pub fn insert(&mut self, extension: &str)
        ensures
            final(self)@ == old(self)@.insert(lower_seq(extension@)),
    {
        proof {
            use_type_invariant(&*self);
        }
        let e = lower_chars(&chars_of(extension));
        let mut items: Vec<Vec<char>> = Vec::new();
        std::mem::swap(&mut items, &mut self.items);
        let ghost old_items = items@;
        let grown = add_once(items, e);
        proof {
            assert forall|i: int| 0 <= i < grown@.len() implies is_lower(#[trigger] grown@[i]@) by {
                assert(grown@.contains(grown@[i]));
                if old_items.contains(grown@[i]) {
                    let k = choose|k: int| 0 <= k < old_items.len() && old_items[k] == grown@[i];
                    assert(is_lower(old_items[k]@));
                }
            }
        }
        self.items = grown;
    }

    /// Removes every extension.
    pub fn clear(&mut self)
        ensures
            final(self)@ == Set::<Seq<char>>::empty(),
    {
        self.items = Vec::new();
        assert(self@ =~= Set::<Seq<char>>::empty());
    }

    /// Whether the extension of `path` (read as on Windows when `windows`),
    /// lower-cased, is in the set.
    pub fn contains_on(&self, path: &str, windows: bool) -> (r: bool)
        ensures
            r == has_listed_extension(self@, path@, windows),
    {
        let p = chars_of(path);
        match path_extension_in(&p, windows) {
            Some(e) => {
                let low = lower_chars(&e);
                holds(&self.items, &low)
            },
            None => false,
        }
    }

    /// Whether the extension of `path`, read as on the platform the crate was
    /// built for and lower-cased, is in the set.
    pub fn contains(&self, path: &str) -> (r: bool)
        ensures
            r == has_listed_extension(self@, path@, false) || r == has_listed_extension(
                self@,
                path@,
                true,
            ),
    {
        self.contains_on(path, windows_paths())
    }

    /// The set of the given extensions, lower-cased.
    pub fn from_list(source: &[String]) -> (r: Self)
        ensures
            r@ == lowered(source@.map_values(|s: String| s@)),
    {
        let mut r = Extensions::new();
        let mut i: usize = 0;
        let ghost src = source@.map_values(|s: String| s@);
        while i < source.len()
            invariant
                i <= source.len(),
                src == source@.map_values(|s: String| s@),
                r@ == lowered(src.take(i as int)),
            decreases source.len() - i,
        {
            r.insert(source[i].as_str());
            proof {
                let pre = src.take(i as int);
                let post = src.take(i + 1);
                assert(post =~= pre.push(src[i as int]));
                assert(post.map_values(|e: Seq<char>| lower_seq(e)) =~= pre.map_values(
                    |e: Seq<char>| lower_seq(e),
                ).push(lower_seq(src[i as int])));
                pre.map_values(|e: Seq<char>| lower_seq(e)).lemma_push_to_set_commute(lower_seq(src[i as int]));
            }
            i = i + 1;
        }
        assert(src.take(source.len() as int) =~= src);
        r
    }
}


/// Law of the extension check: it ignores ASCII case on both sides. A path
/// whose extension equals a listed one up to case is taken; a path without
/// extension never is.
pub proof fn lemma_extension_case(exts: Seq<Seq<char>>, path: Seq<char>, i: int, windows: bool)
    requires
        0 <= i < exts.len(),
    ensures
        extension_in(path, windows) matches Some(e) && lower_seq(e) == lower_seq(exts[i])
            ==> has_listed_extension(lowered(exts), path, windows),
        extension_in(path, windows) is None ==> !has_listed_extension(lowered(exts), path, windows),
{
    let m = exts.map_values(|e: Seq<char>| lower_seq(e));
    assert(m[i] == lower_seq(exts[i]));
    assert(m.contains(lower_seq(exts[i])));
}

} // verus!
