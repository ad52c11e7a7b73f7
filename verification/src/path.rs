//! A model of path syntax after `std::path::Path` as its documentation
//! describes it.
//!
//! The core reads Unix syntax: a path is a sequence of components (a leading
//! root `"/"`, a leading current directory `"."`, then the non-empty segments
//! between separators other than `"."`); a path's file name is its last
//! component when that is a normal one; stem and extension split the file name
//! at its last dot.
//!
//! On Windows (the functions with a `w` or `windows` flag) a path may start
//! with a drive prefix, a disk `C:` or a verbatim disk `\\?\C:`, and both `\`
//! and `/` separate components. The part after the prefix, with its separators
//! written as `/`, is read by the core; the prefix stays as written and is
//! compared without regard to the case of its drive letter, and results are
//! written with `\`. Other prefixes (verbatim names other than disks,
//! `\\server\share`, `\\.\device`) are read as ordinary text, and in a
//! verbatim path `/` separates and `.` is dropped as elsewhere, where `std`
//! keeps `/` inside a name and `.` as a component.
//!
//! Paths travel through the library as UTF-8 strings.

use vstd::prelude::*;
use crate::text::{chars_eq, lower_seq, lower_chars};

verus! {

/// The segments of `s` between `'/'` separators, empty ones included
/// (`"a//b"` has the segments `"a"`, `""`, `"b"`).
pub open spec fn split_slash(s: Seq<char>) -> Seq<Seq<char>>
    decreases s.len(),
{
    if s.len() == 0 {
        seq![Seq::<char>::empty()]
    } else {
        let p = split_slash(s.drop_last());
        if s.last() == '/' {
            p.push(Seq::<char>::empty())
        } else {
            p.update(p.len() - 1, p.last().push(s.last()))
        }
    }
}

/// The segments that name something: neither empty nor `"."`.
pub open spec fn normal_parts(segs: Seq<Seq<char>>) -> Seq<Seq<char>>
    decreases segs.len(),
{
    if segs.len() == 0 {
        Seq::<Seq<char>>::empty()
    } else {
        let rest = normal_parts(segs.drop_last());
        let last = segs.last();
        if last.len() == 0 || last == seq!['.'] {
            rest
        } else {
            rest.push(last)
        }
    }
}

pub open spec fn root() -> Seq<char> {
    seq!['/']
}

pub open spec fn cur_dir() -> Seq<char> {
    seq!['.']
}

pub open spec fn parent_dir() -> Seq<char> {
    seq!['.', '.']
}

/// Whether the path is absolute (starts at the root).
pub open spec fn is_absolute(s: Seq<char>) -> bool {
    s.len() > 0 && s[0] == '/'
}

/// The components of a path: `"/"` for the root, `"."` for a leading current
/// directory, `".."` for a parent directory, any other value for a normal name.
pub open spec fn components(s: Seq<char>) -> Seq<Seq<char>> {
    let segs = split_slash(s);
    if is_absolute(s) {
        seq![root()] + normal_parts(segs.skip(1))
    } else if segs[0] == cur_dir() {
        seq![cur_dir()] + normal_parts(segs.skip(1))
    } else {
        normal_parts(segs)
    }
}

/// Whether a component is a normal name (not root, `.` or `..`).
pub open spec fn is_normal(c: Seq<char>) -> bool {
    c != root() && c != cur_dir() && c != parent_dir()
}

/// `Path::file_name`: the final component when it is a normal name.
pub open spec fn file_name(s: Seq<char>) -> Option<Seq<char>> {
    let cs = components(s);
    if cs.len() > 0 && is_normal(cs.last()) {
        Some(cs.last())
    } else {
        None
    }
}

/// The index of the last `'.'` in `n`, or `-1`.
pub open spec fn last_dot(n: Seq<char>) -> int
    decreases n.len(),
{
    if n.len() == 0 {
        -1
    } else if n.last() == '.' {
        n.len() - 1
    } else {
        last_dot(n.drop_last())
    }
}

/// The stem of a file name: all of it when it has no dot after its first
/// character, else what precedes its last dot.
pub open spec fn name_stem(n: Seq<char>) -> Seq<char> {
    if last_dot(n) <= 0 {
        n
    } else {
        n.take(last_dot(n))
    }
}

/// The extension of a file name: none when it has no dot after its first
/// character, else what follows its last dot.
pub open spec fn name_extension(n: Seq<char>) -> Option<Seq<char>> {
    if last_dot(n) <= 0 {
        None
    } else {
        Some(n.skip(last_dot(n) + 1))
    }
}

/// `Path::file_stem`.
pub open spec fn file_stem(s: Seq<char>) -> Option<Seq<char>> {
    match file_name(s) {
        Some(n) => Some(name_stem(n)),
        None => None,
    }
}

/// `Path::extension`.
pub open spec fn extension(s: Seq<char>) -> Option<Seq<char>> {
    match file_name(s) {
        Some(n) => name_extension(n),
        None => None,
    }
}

/// Normal components written one after another with `'/'` between them.
pub open spec fn intercalate(cs: Seq<Seq<char>>) -> Seq<char>
    decreases cs.len(),
{
    if cs.len() == 0 {
        Seq::<char>::empty()
    } else if cs.len() == 1 {
        cs[0]
    } else {
        intercalate(cs.drop_last()).push('/') + cs.last()
    }
}

/// A path written from its components.
pub open spec fn join_components(cs: Seq<Seq<char>>) -> Seq<char> {
    if cs.len() > 0 && cs[0] == root() {
        seq!['/'] + intercalate(cs.skip(1))
    } else {
        intercalate(cs)
    }
}

/// `Path::parent`: the path without its final component; none for a path
/// that is empty or only the root.
pub open spec fn parent(s: Seq<char>) -> Option<Seq<char>> {
    let cs = components(s);
    if cs.len() == 0 || cs.last() == root() {
        None
    } else {
        Some(join_components(cs.drop_last()))
    }
}

/// `Path::strip_prefix`: what follows `base` when the components of `base`
/// begin those of `s`.
pub open spec fn strip_prefix(s: Seq<char>, base: Seq<char>) -> Option<Seq<char>> {
    let cs = components(s);
    let bs = components(base);
    if bs.len() <= cs.len() && cs.take(bs.len() as int) == bs {
        Some(join_components(cs.skip(bs.len() as int)))
    } else {
        None
    }
}

/// `Path::join` (`PathBuf::push`): an absolute `tail` replaces the path; else
/// `tail` is appended, with a `'/'` between unless `base` is empty or already
/// ends with one.
pub open spec fn join(base: Seq<char>, tail: Seq<char>) -> Seq<char> {
    if is_absolute(tail) {
        tail
    } else if base.len() == 0 || base.last() == '/' {
        base + tail
    } else {
        base.push('/') + tail
    }
}

/// Path equality as `Path`'s `==` has it: the same components.
pub open spec fn same_path(a: Seq<char>, b: Seq<char>) -> bool {
    components(a) == components(b)
}

pub open spec fn views(v: Seq<Vec<char>>) -> Seq<Seq<char>> {
    v.map_values(|x: Vec<char>| x@)
}

proof fn lemma_split_nonempty(s: Seq<char>)
    ensures
        split_slash(s).len() >= 1,
    decreases s.len(),
{
    if s.len() > 0 {
        lemma_split_nonempty(s.drop_last());
    }
}

/// The segments of `s`.
pub fn split_segments(s: &Vec<char>) -> (r: Vec<Vec<char>>)
    ensures
        views(r@) == split_slash(s@),
{
    let mut done: Vec<Vec<char>> = Vec::new();
    let mut cur: Vec<char> = Vec::new();
    let mut i: usize = 0;
    assert(s@.take(0) =~= Seq::<char>::empty());
    assert(views(done@).push(cur@) =~= split_slash(s@.take(0)));
    while i < s.len()
        invariant
            i <= s.len(),
            views(done@).push(cur@) == split_slash(s@.take(i as int)),
        decreases s.len() - i,
    {
        let c = s[i];
        let ghost before = s@.take(i as int);
        proof {
            lemma_split_nonempty(before);
        }
        if c == '/' {
            let full = cur;
            done.push(full);
            cur = Vec::new();
            assert(views(done@) =~= views(done@.drop_last()).push(full@));
        } else {
            cur.push(c);
        }
        i = i + 1;
        assert(s@.take(i as int).drop_last() =~= before);
        assert(views(done@).push(cur@) =~= split_slash(s@.take(i as int)));
    }
    assert(s@.take(s.len() as int) =~= s@);
    let last = cur;
    done.push(last);
    assert(views(done@) =~= views(done@.drop_last()).push(last@));
    done
}

fn is_dot(c: &Vec<char>) -> (r: bool)
    ensures
        r == (c@ == cur_dir()),
{
    let r = c.len() == 1 && c[0] == '.';
    if c.len() == 1 && c[0] == '.' {
        assert(c@ =~= cur_dir());
    }
    r
}

fn is_dot_dot(c: &Vec<char>) -> (r: bool)
    ensures
        r == (c@ == parent_dir()),
{
    let r = c.len() == 2 && c[0] == '.' && c[1] == '.';
    if r {
        assert(c@ =~= parent_dir());
    }
    r
}

fn is_root(c: &Vec<char>) -> (r: bool)
    ensures
        r == (c@ == root()),
{
    let r = c.len() == 1 && c[0] == '/';
    if r {
        assert(c@ =~= root());
    }
    r
}

/// The components of the path `s`.
pub fn path_components(s: &Vec<char>) -> (r: Vec<Vec<char>>)
    ensures
        views(r@) == components(s@),
{
    let segs = split_segments(s);
    proof {
        lemma_split_nonempty(s@);
    }
    let mut r: Vec<Vec<char>> = Vec::new();
    let mut start: usize = 0;
    if s.len() > 0 && s[0] == '/' {
        let mut rt: Vec<char> = Vec::new();
        rt.push('/');
        assert(rt@ =~= root());
        r.push(rt);
        start = 1;
    } else if is_dot(&segs[0]) {
        let mut cd: Vec<char> = Vec::new();
        cd.push('.');
        assert(cd@ =~= cur_dir());
        r.push(cd);
        start = 1;
    }
    let ghost head = views(r@);
    let ghost lead = if is_absolute(s@) {
        seq![root()]
    } else if split_slash(s@)[0] == cur_dir() {
        seq![cur_dir()]
    } else {
        Seq::<Seq<char>>::empty()
    };
    assert(views(segs@)[0] == segs@[0]@);
    assert(head =~= lead);
    assert(start as int == lead.len());
    let ghost rest = split_slash(s@).skip(start as int);
    assert(rest.take(0) =~= Seq::<Seq<char>>::empty());
    assert(views(r@) =~= head + normal_parts(rest.take(0)));
    let mut k: usize = start;
    while k < segs.len()
        invariant
            start <= k <= segs.len(),
            start <= 1,
            head == lead,
            start as int == lead.len(),
            lead == (if is_absolute(s@) {
                seq![root()]
            } else if split_slash(s@)[0] == cur_dir() {
                seq![cur_dir()]
            } else {
                Seq::<Seq<char>>::empty()
            }),
            views(segs@) == split_slash(s@),
            rest == split_slash(s@).skip(start as int),
            views(r@) == head + normal_parts(rest.take(k - start)),
        decreases segs.len() - k,
    {
        let seg = segs[k].clone();
        assert(seg@ == split_slash(s@)[k as int]);
        let ghost before = rest.take(k - start);
        let ghost after = rest.take(k + 1 - start);
        assert(after.drop_last() =~= before);
        assert(after.last() == seg@);
        assert(after.len() > 0);
        let skip = seg.len() == 0 || is_dot(&seg);
        assert(skip == (seg@.len() == 0 || seg@ == seq!['.']));
        assert(normal_parts(after) == if skip {
            normal_parts(before)
        } else {
            normal_parts(before).push(seg@)
        });
        if skip {
        } else {
            r.push(seg);
            assert(views(r@) =~= views(r@.drop_last()).push(seg@));
            assert(head + normal_parts(before).push(seg@) =~= (head + normal_parts(before)).push(seg@));
        }
        k = k + 1;
        assert(views(r@) =~= head + normal_parts(rest.take(k - start)));
    }
    assert(rest.take(segs.len() - start) =~= rest);
    assert(split_slash(s@).skip(0) =~= split_slash(s@));
    assert(views(r@) =~= lead + normal_parts(split_slash(s@).skip(lead.len() as int)));
    assert(views(r@) =~= components(s@));
    r
}


pub open spec fn opt_view(o: Option<Vec<char>>) -> Option<Seq<char>> {
    match o {
        Some(v) => Some(v@),
        None => None,
    }
}

/// The characters of `v` from `from` up to (not including) `to`.
pub fn sub_chars(v: &Vec<char>, from: usize, to: usize) -> (r: Vec<char>)
    requires
        from <= to <= v.len(),
    ensures
        r@ == v@.subrange(from as int, to as int),
{
    let mut r: Vec<char> = Vec::new();
    let mut i: usize = from;
    while i < to
        invariant
            from <= i <= to,
            to <= v.len(),
            r@ == v@.subrange(from as int, i as int),
        decreases to - i,
    {
        r.push(v[i]);
        i = i + 1;
        assert(r@ =~= v@.subrange(from as int, i as int));
    }
    r
}

/// The final component of `s` when it is a normal name.
pub fn path_file_name(s: &Vec<char>) -> (r: Option<Vec<char>>)
    ensures
        opt_view(r) == file_name(s@),
{
    let cs = path_components(s);
    if cs.len() == 0 {
        return None;
    }
    let last = cs[cs.len() - 1].clone();
    assert(views(cs@).last() == last@);
    if is_root(&last) || is_dot(&last) || is_dot_dot(&last) {
        None
    } else {
        Some(last)
    }
}

/// The index of the last dot of `n`.
pub fn name_last_dot(n: &Vec<char>) -> (r: Option<usize>)
    ensures
        match r {
            Some(k) => k as int == last_dot(n@) && k < n.len(),
            None => last_dot(n@) == -1,
        },
{
    let mut found: Option<usize> = None;
    let mut i: usize = 0;
    assert(n@.take(0) =~= Seq::<char>::empty());
    while i < n.len()
        invariant
            i <= n.len(),
            match found {
                Some(k) => k as int == last_dot(n@.take(i as int)) && k < i,
                None => last_dot(n@.take(i as int)) == -1,
            },
        decreases n.len() - i,
    {
        let ghost before = n@.take(i as int);
        if n[i] == '.' {
            found = Some(i);
        }
        i = i + 1;
        assert(n@.take(i as int).drop_last() =~= before);
    }
    assert(n@.take(n.len() as int) =~= n@);
    found
}

/// The stem of the file name `n`.
pub fn name_stem_exec(n: &Vec<char>) -> (r: Vec<char>)
    ensures
        r@ == name_stem(n@),
{
    match name_last_dot(n) {
        Some(k) => {
            if k == 0 {
                sub_chars(n, 0, n.len())
            } else {
                sub_chars(n, 0, k)
            }
        },
        None => sub_chars(n, 0, n.len()),
    }
}

/// The extension of the file name `n`.
pub fn name_extension_exec(n: &Vec<char>) -> (r: Option<Vec<char>>)
    ensures
        opt_view(r) == name_extension(n@),
{
    match name_last_dot(n) {
        Some(k) => {
            if k == 0 {
                None
            } else {
                Some(sub_chars(n, k + 1, n.len()))
            }
        },
        None => None,
    }
}

/// `Path::file_stem` of `s`.
pub fn path_file_stem(s: &Vec<char>) -> (r: Option<Vec<char>>)
    ensures
        opt_view(r) == file_stem(s@),
{
    match path_file_name(s) {
        Some(n) => Some(name_stem_exec(&n)),
        None => None,
    }
}

/// `Path::extension` of `s`.
pub fn path_extension(s: &Vec<char>) -> (r: Option<Vec<char>>)
    ensures
        opt_view(r) == extension(s@),
{
    match path_file_name(s) {
        Some(n) => name_extension_exec(&n),
        None => None,
    }
}

/// The components `cs[from..]` written with `'/'` between them.
fn intercalate_exec(cs: &Vec<Vec<char>>, from: usize) -> (r: Vec<char>)
    requires
        from <= cs.len(),
    ensures
        r@ == intercalate(views(cs@).skip(from as int)),
{
    let mut r: Vec<char> = Vec::new();
    let ghost all = views(cs@).skip(from as int);
    let mut i: usize = from;
    assert(all.take(0) =~= Seq::<Seq<char>>::empty());
    while i < cs.len()
        invariant
            from <= i <= cs.len(),
            all == views(cs@).skip(from as int),
            r@ == intercalate(all.take(i - from)),
        decreases cs.len() - i,
    {
        let ghost before = all.take(i - from);
        let ghost after = all.take(i + 1 - from);
        assert(after.drop_last() =~= before);
        assert(after.last() == cs@[i as int]@);
        if i > from {
            r.push('/');
        }
        crate::text::append_chars(&mut r, &cs[i]);
        i = i + 1;
        if i - from == 1 {
            assert(after =~= seq![cs@[(i - 1) as int]@]);
        }
    }
    assert(all.take(cs.len() - from) =~= all);
    r
}

/// The path written from the components `cs`.
pub fn join_components_exec(cs: &Vec<Vec<char>>) -> (r: Vec<char>)
    ensures
        r@ == join_components(views(cs@)),
{
    assert(views(cs@).skip(0) =~= views(cs@));
    if cs.len() > 0 && is_root(&cs[0]) {
        let mut r: Vec<char> = Vec::new();
        r.push('/');
        let tail = intercalate_exec(cs, 1);
        crate::text::append_chars(&mut r, &tail);
        assert(r@ =~= seq!['/'] + tail@);
        r
    } else {
        intercalate_exec(cs, 0)
    }
}

/// `Path::parent` of `s`.
pub fn path_parent(s: &Vec<char>) -> (r: Option<Vec<char>>)
    ensures
        opt_view(r) == parent(s@),
{
    let mut cs = path_components(s);
    if cs.len() == 0 {
        return None;
    }
    assert(views(cs@).last() == cs@[cs.len() - 1]@);
    if is_root(&cs[cs.len() - 1]) {
        return None;
    }
    let ghost all = views(cs@);
    cs.pop();
    assert(views(cs@) =~= all.drop_last());
    Some(join_components_exec(&cs))
}

/// `Path::strip_prefix`: what follows `base` in `s`, when `s` begins with it.
pub fn path_strip_prefix(s: &Vec<char>, base: &Vec<char>) -> (r: Option<Vec<char>>)
    ensures
        opt_view(r) == strip_prefix(s@, base@),
{
    let cs = path_components(s);
    let bs = path_components(base);
    assert(views(cs@).len() == cs@.len());
    assert(views(bs@).len() == bs@.len());
    if bs.len() > cs.len() {
        return None;
    }
    let mut i: usize = 0;
    while i < bs.len()
        invariant
            i <= bs.len() <= cs.len(),
            views(cs@) == components(s@),
            views(bs@) == components(base@),
            forall|j: int| 0 <= j < i ==> views(cs@)[j] == views(bs@)[j],
        decreases bs.len() - i,
    {
        assert(views(cs@)[i as int] == cs@[i as int]@);
        assert(views(bs@)[i as int] == bs@[i as int]@);
        if !chars_eq(&cs[i], &bs[i]) {
            assert(views(cs@).take(bs.len() as int)[i as int] != views(bs@)[i as int]);
            return None;
        }
        i = i + 1;
    }
    assert(views(cs@).take(bs.len() as int) =~= views(bs@));
    let mut rest: Vec<Vec<char>> = Vec::new();
    let mut k: usize = bs.len();
    while k < cs.len()
        invariant
            bs.len() <= k <= cs.len(),
            views(rest@) == views(cs@).subrange(bs.len() as int, k as int),
        decreases cs.len() - k,
    {
        let c = cs[k].clone();
        assert(views(cs@)[k as int] == c@);
        let ghost prev = views(rest@);
        rest.push(c);
        assert(views(rest@) =~= prev.push(c@));
        assert(views(cs@).subrange(bs.len() as int, k + 1) =~= views(cs@).subrange(
            bs.len() as int,
            k as int,
        ).push(views(cs@)[k as int]));
        k = k + 1;
    }
    assert(views(rest@) =~= views(cs@).skip(bs.len() as int));
    Some(join_components_exec(&rest))
}

/// `Path::join`: `tail` appended to `base`.
pub fn path_join(base: &Vec<char>, tail: &Vec<char>) -> (r: Vec<char>)
    ensures
        r@ == join(base@, tail@),
{
    if tail.len() > 0 && tail[0] == '/' {
        return sub_chars(tail, 0, tail.len());
    }
    let mut r = sub_chars(base, 0, base.len());
    assert(r@ =~= base@);
    if base.len() > 0 && base[base.len() - 1] != '/' {
        r.push('/');
    }
    crate::text::append_chars(&mut r, tail);
    r
}

/// `Path`'s `==`: whether the two paths have the same components.
pub fn path_eq(a: &Vec<char>, b: &Vec<char>) -> (r: bool)
    ensures
        r == same_path(a@, b@),
{
    let ca = path_components(a);
    let cb = path_components(b);
    assert(views(ca@).len() == ca@.len());
    assert(views(cb@).len() == cb@.len());
    if ca.len() != cb.len() {
        return false;
    }
    let mut i: usize = 0;
    while i < ca.len()
        invariant
            i <= ca.len() == cb.len(),
            views(ca@) == components(a@),
            views(cb@) == components(b@),
            forall|j: int| 0 <= j < i ==> views(ca@)[j] == views(cb@)[j],
        decreases ca.len() - i,
    {
        assert(views(ca@)[i as int] == ca@[i as int]@);
        assert(views(cb@)[i as int] == cb@[i as int]@);
        if !chars_eq(&ca[i], &cb[i]) {
            assert(views(ca@)[i as int] != views(cb@)[i as int]);
            return false;
        }
        i = i + 1;
    }
    assert(views(ca@) =~= views(cb@));
    true
}


//=============================================================================
// Laws of the model
//=============================================================================

/// Whether `x` holds no separator.
pub open spec fn no_slash(x: Seq<char>) -> bool {
    forall|i: int| 0 <= i < x.len() ==> x[i] != '/'
}

/// A plain name: non-empty, without separator, neither `.` nor `..`.
pub open spec fn plain_name(x: Seq<char>) -> bool {
    x.len() > 0 && no_slash(x) && x != cur_dir() && x != parent_dir()
}

proof fn lemma_split_segments_no_slash(s: Seq<char>)
    ensures
        forall|i: int| 0 <= i < split_slash(s).len() ==> no_slash(#[trigger] split_slash(s)[i]),
    decreases s.len(),
{
    lemma_split_nonempty(s);
    if s.len() > 0 {
        lemma_split_segments_no_slash(s.drop_last());
        lemma_split_nonempty(s.drop_last());
        let p = split_slash(s.drop_last());
        if s.last() != '/' {
            assert forall|i: int| 0 <= i < split_slash(s).len() implies no_slash(
                #[trigger] split_slash(s)[i],
            ) by {
                if i == p.len() - 1 {
                    assert(no_slash(p[i]));
                    assert(split_slash(s)[i] == p[i].push(s.last()));
                }
            }
        } else {
            assert forall|i: int| 0 <= i < split_slash(s).len() implies no_slash(
                #[trigger] split_slash(s)[i],
            ) by {
                if i < p.len() {
                    assert(no_slash(p[i]));
                }
            }
        }
    }
}

proof fn lemma_normal_parts_from(segs: Seq<Seq<char>>)
    ensures
        forall|i: int|
            0 <= i < normal_parts(segs).len() ==> segs.contains(#[trigger] normal_parts(segs)[i])
                && normal_parts(segs)[i].len() > 0 && normal_parts(segs)[i] != cur_dir(),
    decreases segs.len(),
{
    if segs.len() > 0 {
        lemma_normal_parts_from(segs.drop_last());
        let rest = normal_parts(segs.drop_last());
        assert forall|i: int| 0 <= i < normal_parts(segs).len() implies segs.contains(
            #[trigger] normal_parts(segs)[i],
        ) && normal_parts(segs)[i].len() > 0 && normal_parts(segs)[i] != cur_dir() by {
            if i < rest.len() {
                let x = rest[i];
                assert(segs.drop_last().contains(x));
                let k = choose|k: int| 0 <= k < segs.drop_last().len() && segs.drop_last()[k] == x;
                assert(segs[k] == x);
            } else {
                assert(segs[segs.len() - 1] == segs.last());
            }
        }
    }
}

/// A file name is a plain name.
pub proof fn lemma_file_name_plain(s: Seq<char>)
    ensures
        file_name(s) matches Some(n) ==> plain_name(n),
{
    let segs = split_slash(s);
    lemma_split_nonempty(s);
    lemma_split_segments_no_slash(s);
    let cs = components(s);
    if cs.len() > 0 && is_normal(cs.last()) {
        let n = cs.last();
        let k: int = if is_absolute(s) || segs[0] == cur_dir() { 1 } else { 0 };
        let tail = segs.skip(k);
        lemma_normal_parts_from(tail);
        if k == 1 {
            assert(cs == seq![if is_absolute(s) { root() } else { cur_dir() }] + normal_parts(tail));
        } else {
            assert(tail =~= segs);
        }
        assert(normal_parts(tail).len() > 0);
        assert(n == normal_parts(tail)[normal_parts(tail).len() - 1]);
        assert(tail.contains(n));
        let j = choose|j: int| 0 <= j < tail.len() && tail[j] == n;
        assert(segs[j + k] == n);
        assert(no_slash(segs[j + k]));
    }
}

proof fn lemma_split_append(s: Seq<char>, b: Seq<char>)
    requires
        no_slash(b),
    ensures
        split_slash(s + b) == split_slash(s).update(
            split_slash(s).len() - 1,
            split_slash(s).last() + b,
        ),
    decreases b.len(),
{
    lemma_split_nonempty(s);
    let sp = split_slash(s);
    if b.len() == 0 {
        assert(s + b =~= s);
        assert(sp.last() + b =~= sp.last());
        assert(sp.update(sp.len() - 1, sp.last()) =~= sp);
    } else {
        let b2 = b.drop_last();
        lemma_split_append(s, b2);
        assert((s + b).drop_last() =~= s + b2);
        assert((s + b).last() == b.last());
        let p = split_slash(s + b2);
        lemma_split_nonempty(s + b2);
        assert(p.last() == sp.last() + b2);
        assert(p.last().push(b.last()) =~= sp.last() + b);
        assert(split_slash(s + b) =~= sp.update(sp.len() - 1, sp.last() + b));
    }
}

proof fn lemma_normal_parts_push(x: Seq<Seq<char>>, b: Seq<char>)
    requires
        b.len() > 0,
        b != cur_dir(),
    ensures
        normal_parts(x.push(b)) == normal_parts(x).push(b),
{
    assert(x.push(b).drop_last() =~= x);
}

/// A segment that stays a component: non-empty, without separator, not `.`.
pub open spec fn seg_ok(x: Seq<char>) -> bool {
    x.len() > 0 && no_slash(x) && x != cur_dir()
}

/// Appending a segment after a separator (or to the empty path) appends
/// one component.
pub proof fn lemma_components_append(s: Seq<char>, b: Seq<char>)
    requires
        s.len() == 0 || s.last() == '/',
        seg_ok(b),
    ensures
        components(s + b) == components(s).push(b),
{
    lemma_split_nonempty(s);
    lemma_split_append(s, b);
    let segs = split_slash(s);
    let n = segs.len();
    if s.len() == 0 {
        assert(segs =~= seq![Seq::<char>::empty()]);
        assert(s + b =~= b);
        assert(split_slash(s + b) =~= seq![b]);
        assert(!is_absolute(b));
        assert(seq![b].drop_last() =~= Seq::<Seq<char>>::empty());
        assert(segs.drop_last() =~= Seq::<Seq<char>>::empty());
        reveal_with_fuel(normal_parts, 2);
        assert(normal_parts(seq![b]) =~= seq![b]);
        assert(normal_parts(segs) =~= Seq::<Seq<char>>::empty());
        assert(components(s) =~= Seq::<Seq<char>>::empty());
    } else {
        lemma_split_nonempty(s.drop_last());
        assert(segs == split_slash(s.drop_last()).push(Seq::<char>::empty()));
        assert(n >= 2);
        assert(segs.last() =~= Seq::<char>::empty());
        assert(segs.last() + b =~= b);
        let segs2 = split_slash(s + b);
        assert(segs2 == segs.update(n - 1, b));
        assert((s + b)[0] == s[0]);
        assert(segs2[0] == segs[0]);
        let k: int = if is_absolute(s) || segs[0] == cur_dir() { 1 } else { 0 };
        let x = segs.skip(k).drop_last();
        assert(segs.skip(k) =~= x.push(Seq::<char>::empty()));
        assert(segs2.skip(k) =~= x.push(b));
        lemma_normal_parts_push(x, b);
        assert(normal_parts(segs.skip(k)) == normal_parts(x)) by {
            assert(x.push(Seq::<char>::empty()).drop_last() =~= x);
        }
        if k == 0 {
            assert(segs.skip(0) =~= segs);
            assert(segs2.skip(0) =~= segs2);
        }
        assert(components(s + b) =~= components(s).push(b));
    }
}

/// A plain name joined to a folder is the file name of the result.
pub proof fn lemma_join_file_name(folder: Seq<char>, name: Seq<char>)
    requires
        plain_name(name),
    ensures
        file_name(join(folder, name)) == Some(name),
{
    assert(!is_absolute(name));
    if folder.len() == 0 || folder.last() == '/' {
        lemma_components_append(folder, name);
    } else {
        lemma_components_append(folder.push('/'), name);
        assert(folder.push('/') + name =~= join(folder, name));
    }
    assert(name != root());
}


/// `Path`'s `==` on two path strings.
pub fn paths_equal(a: &str, b: &str) -> (r: bool)
    ensures
        r == same_path(a@, b@),
{
    let x = crate::text::chars_of(a);
    let y = crate::text::chars_of(b);
    path_eq(&x, &y)
}


/// A trailing separator changes no component.
pub proof fn lemma_components_trailing_slash(s: Seq<char>)
    requires
        s.len() > 0,
    ensures
        components(s.push('/')) == components(s),
{
    lemma_split_nonempty(s);
    let segs = split_slash(s);
    assert(s.push('/').drop_last() =~= s);
    let segs2 = split_slash(s.push('/'));
    assert(segs2 == segs.push(Seq::<char>::empty()));
    assert(segs2[0] == segs[0]);
    assert(s.push('/')[0] == s[0]);
    let k: int = if is_absolute(s) || segs[0] == cur_dir() { 1 } else { 0 };
    assert(segs2.skip(k) =~= segs.skip(k).push(Seq::<char>::empty()));
    assert(segs.skip(k).push(Seq::<char>::empty()).drop_last() =~= segs.skip(k));
    if k == 0 {
        assert(segs.skip(0) =~= segs);
        assert(segs2.skip(0) =~= segs2);
    }
}

/// The components after the first one are segments that stay components.
pub proof fn lemma_components_tail(s: Seq<char>)
    ensures
        forall|i: int| 1 <= i < components(s).len() ==> seg_ok(#[trigger] components(s)[i]),
{
    let segs = split_slash(s);
    lemma_split_nonempty(s);
    lemma_split_segments_no_slash(s);
    let k: int = if is_absolute(s) || segs[0] == cur_dir() { 1 } else { 0 };
    let tail = segs.skip(k);
    lemma_normal_parts_from(tail);
    if k == 0 {
        assert(tail =~= segs);
    }
    assert forall|i: int| 1 <= i < components(s).len() implies seg_ok(#[trigger] components(s)[i]) by {
        let j = i - k;
        assert(components(s)[i] == normal_parts(tail)[j]);
        let x = normal_parts(tail)[j];
        assert(tail.contains(x));
        let m = choose|m: int| 0 <= m < tail.len() && tail[m] == x;
        assert(segs[m + k] == x);
        assert(no_slash(segs[m + k]));
    }
}

/// Segments written one after another after a separator (or from the
/// empty path) become the following components.
pub proof fn lemma_components_append_all(s: Seq<char>, rest: Seq<Seq<char>>)
    requires
        s.len() == 0 || s.last() == '/',
        forall|i: int| 0 <= i < rest.len() ==> seg_ok(#[trigger] rest[i]),
    ensures
        components(s + intercalate(rest)) == components(s) + rest,
    decreases rest.len(),
{
    if rest.len() == 0 {
        assert(s + intercalate(rest) =~= s);
        assert(components(s) + rest =~= components(s));
    } else if rest.len() == 1 {
        assert(seg_ok(rest[0]));
        lemma_components_append(s, rest[0]);
        assert(components(s) + rest =~= components(s).push(rest[0]));
    } else {
        let r2 = rest.drop_last();
        let x = rest.last();
        assert(seg_ok(rest[rest.len() - 1]));
        assert forall|i: int| 0 <= i < r2.len() implies seg_ok(#[trigger] r2[i]) by {
            assert(r2[i] == rest[i]);
        }
        lemma_components_append_all(s, r2);
        let u = s + intercalate(r2);
        assert(seg_ok(r2[0]));
        lemma_intercalate_nonempty(r2);
        assert(u.len() > 0);
        assert(s + intercalate(rest) =~= u.push('/') + x);
        lemma_components_append(u.push('/'), x);
        lemma_components_trailing_slash(u);
        assert(components(s) + rest =~= (components(s) + r2).push(x));
    }
}

proof fn lemma_intercalate_nonempty(cs: Seq<Seq<char>>)
    requires
        cs.len() > 0,
        cs[0].len() > 0,
    ensures
        intercalate(cs).len() > 0,
        intercalate(cs)[0] == cs[0][0],
    decreases cs.len(),
{
    if cs.len() > 1 {
        assert(cs.drop_last()[0] == cs[0]);
        lemma_intercalate_nonempty(cs.drop_last());
    }
}

/// Joining segments to a folder adds them as components.
pub proof fn lemma_join_components(base: Seq<char>, rest: Seq<Seq<char>>)
    requires
        forall|i: int| 0 <= i < rest.len() ==> seg_ok(#[trigger] rest[i]),
    ensures
        components(join(base, intercalate(rest))) == components(base) + rest,
{
    let rel = intercalate(rest);
    if rest.len() > 0 {
        assert(seg_ok(rest[0]));
        lemma_intercalate_nonempty(rest);
        assert(!is_absolute(rel));
    } else {
        assert(rel.len() == 0);
    }
    if base.len() == 0 || base.last() == '/' {
        lemma_components_append_all(base, rest);
    } else {
        lemma_components_append_all(base.push('/'), rest);
        lemma_components_trailing_slash(base);
        assert(base.push('/') + rel =~= join(base, rel));
    }
}

/// Law of `strip_prefix` and `join`: joining a folder with what follows a
/// (non-empty) base in a path gives the folder's components followed by those
/// of the path after the base.
pub proof fn lemma_rebase(path: Seq<char>, base: Seq<char>, folder: Seq<char>)
    requires
        components(base).len() > 0,
        strip_prefix(path, base) is Some,
    ensures
        components(join(folder, strip_prefix(path, base)->0)) == components(folder) + components(
            path,
        ).skip(components(base).len() as int),
{
    let cs = components(path);
    let n = components(base).len() as int;
    let rest = cs.skip(n);
    lemma_components_tail(path);
    assert forall|i: int| 0 <= i < rest.len() implies seg_ok(#[trigger] rest[i]) by {
        assert(rest[i] == cs[i + n]);
    }
    if rest.len() > 0 {
        assert(seg_ok(rest[0]));
        if rest[0] == root() {
            assert(rest[0][0] == '/');
        }
    }
    assert(join_components(rest) == intercalate(rest));
    lemma_join_components(folder, rest);
}

//=============================================================================
// Windows paths
//=============================================================================

/// Whether `c` can name a drive.
pub open spec fn is_drive_letter(c: char) -> bool {
    ('a' <= c && c <= 'z') || ('A' <= c && c <= 'Z')
}

/// The length of the drive prefix of a Windows (`w`) path: 6 for a verbatim
/// disk `\\?\C:`, 2 for a disk `C:`, 0 when there is none. Off Windows a path
/// has no prefix.
pub open spec fn prefix_len(s: Seq<char>, w: bool) -> int {
    if !w {
        0
    } else if s.len() >= 6 && s[0] == '\\' && s[1] == '\\' && s[2] == '?' && s[3] == '\\'
        && is_drive_letter(s[4]) && s[5] == ':' {
        6
    } else if s.len() >= 2 && is_drive_letter(s[0]) && s[1] == ':' {
        2
    } else {
        0
    }
}

/// The drive prefix of a path, as written.
pub open spec fn path_prefix(s: Seq<char>, w: bool) -> Seq<char> {
    s.take(prefix_len(s, w))
}

/// Whether `c` separates components: `/`, and on Windows also `\`.
pub open spec fn is_sep(c: char, w: bool) -> bool {
    c == '/' || (w && c == '\\')
}

/// A character with a separator written as `/`.
pub open spec fn unify_char(c: char, w: bool) -> char {
    if is_sep(c, w) {
        '/'
    } else {
        c
    }
}

/// A text with every separator written as `/`.
pub open spec fn unify(s: Seq<char>, w: bool) -> Seq<char> {
    Seq::new(s.len(), |i: int| unify_char(s[i], w))
}

/// The separator that a path is written with: `\` on Windows, else `/`.
pub open spec fn main_sep(w: bool) -> char {
    if w {
        '\\'
    } else {
        '/'
    }
}

/// A text written with `/` as separator, with the platform's separator instead.
pub open spec fn native(s: Seq<char>, w: bool) -> Seq<char> {
    Seq::new(s.len(), |i: int| if s[i] == '/' { main_sep(w) } else { s[i] })
}

/// What follows the drive prefix, with separators written as `/`: the part
/// that the model of Unix syntax reads.
pub open spec fn body(s: Seq<char>, w: bool) -> Seq<char> {
    unify(s.skip(prefix_len(s, w)), w)
}

/// The components of a path after its drive prefix.
pub open spec fn components_in(s: Seq<char>, w: bool) -> Seq<Seq<char>> {
    components(body(s, w))
}

/// `Path::file_name` on a platform (Windows when `w`).
pub open spec fn file_name_in(s: Seq<char>, w: bool) -> Option<Seq<char>> {
    file_name(body(s, w))
}

/// `Path::file_stem` on a platform.
pub open spec fn file_stem_in(s: Seq<char>, w: bool) -> Option<Seq<char>> {
    file_stem(body(s, w))
}

/// `Path::extension` on a platform.
pub open spec fn extension_in(s: Seq<char>, w: bool) -> Option<Seq<char>> {
    extension(body(s, w))
}

/// `Path::parent` on a platform: the drive prefix, then the parent of what
/// follows it, written with the platform's separator.
pub open spec fn parent_in(s: Seq<char>, w: bool) -> Option<Seq<char>> {
    match parent(body(s, w)) {
        Some(p) => Some(path_prefix(s, w) + native(p, w)),
        None => None,
    }
}

/// Whether two paths have the same drive prefix: the same kind and the same
/// drive letter, in either case.
pub open spec fn same_prefix(a: Seq<char>, b: Seq<char>, w: bool) -> bool {
    lower_seq(path_prefix(a, w)) == lower_seq(path_prefix(b, w))
}

/// `Path::strip_prefix` on a platform: the two paths must have the same drive
/// prefix, then what follows `base`, written with the platform's separator.
pub open spec fn strip_prefix_in(s: Seq<char>, base: Seq<char>, w: bool) -> Option<Seq<char>> {
    if same_prefix(s, base, w) {
        match strip_prefix(body(s, w), body(base, w)) {
            Some(r) => Some(native(r, w)),
            None => None,
        }
    } else {
        None
    }
}

/// `Path::join` on a platform: a `tail` with a drive prefix replaces the
/// path; one that starts at a root keeps only the drive prefix of `base`;
/// otherwise `tail` is appended, with the platform's separator between unless
/// `base` is empty, ends with a separator, or is a bare disk `C:`.
pub open spec fn join_in(base: Seq<char>, tail: Seq<char>, w: bool) -> Seq<char> {
    if prefix_len(tail, w) > 0 {
        tail
    } else if tail.len() > 0 && is_sep(tail[0], w) {
        path_prefix(base, w) + tail
    } else if base.len() == 0 || is_sep(base.last(), w) || (prefix_len(base, w) == 2 && base.len()
        == 2) {
        base + tail
    } else {
        base.push(main_sep(w)) + tail
    }
}

/// `Path`'s `==` on a platform: the same drive prefix and the same components.
pub open spec fn same_path_in(a: Seq<char>, b: Seq<char>, w: bool) -> bool {
    same_prefix(a, b, w) && same_path(body(a, w), body(b, w))
}

/// A plain name on a platform: a plain name without `\` on Windows and
/// without a drive prefix.
pub open spec fn plain_name_in(x: Seq<char>, w: bool) -> bool {
    &&& plain_name(x)
    &&& forall|i: int| 0 <= i < x.len() ==> !is_sep(#[trigger] x[i], w)
    &&& prefix_len(x, w) == 0
}

proof fn lemma_unify_concat(a: Seq<char>, b: Seq<char>, w: bool)
    ensures
        unify(a + b, w) == unify(a, w) + unify(b, w),
{
    assert(unify(a + b, w) =~= unify(a, w) + unify(b, w));
}

proof fn lemma_unify_plain(x: Seq<char>, w: bool)
    requires
        forall|i: int| 0 <= i < x.len() ==> !is_sep(#[trigger] x[i], w),
    ensures
        unify(x, w) == x,
{
    assert(unify(x, w) =~= x);
}

/// Joining a relative text that does not start like a drive prefix keeps the
/// drive prefix of the base.
proof fn lemma_join_keeps_prefix(base: Seq<char>, x: Seq<char>, w: bool)
    requires
        x.len() > 0,
        !is_sep(x[0], w),
        x[0] != '?',
        prefix_len(x, w) == 0,
    ensures
        prefix_len(join_in(base, x, w), w) == prefix_len(base, w),
        prefix_len(base, w) <= base.len(),
{
    let s = join_in(base, x, w);
    let plain = base.len() == 0 || is_sep(base.last(), w) || (prefix_len(base, w) == 2
        && base.len() == 2);
    let head = if plain {
        base
    } else {
        base.push(main_sep(w))
    };
    assert(s == head + x);
    assert forall|i: int| 0 <= i < head.len() implies s[i] == head[i] by {}
    assert forall|i: int| head.len() <= i < s.len() implies s[i] == x[i - head.len()] by {}
    assert forall|i: int| 0 <= i < base.len() implies head[i] == base[i] by {}
    if !plain {
        assert(head[base.len() as int] == main_sep(w));
    }
    if w {
        if base.len() < 6 {
            if base.len() == 0 {
                assert(s =~= x);
            } else if base.len() == 1 {
                if plain {
                    assert(s[1] == x[0]);
                }
            } else if base.len() == 2 {
                if plain && prefix_len(base, w) != 2 {
                    assert(s[2] == x[0]);
                    assert(s[3] == x[1] || x.len() < 2);
                }
            } else if base.len() == 3 {
                if plain {
                    assert(s[3] == x[0]);
                } else {
                    assert(s[3] == main_sep(w));
                    if x.len() >= 2 {
                        assert(s[4] == x[0]);
                        assert(s[5] == x[1]);
                    }
                }
            } else if base.len() == 4 {
                if plain {
                    assert(s[4] == x[0]);
                    if x.len() >= 2 {
                        assert(s[5] == x[1]);
                    }
                } else {
                    assert(s[4] == main_sep(w));
                }
            } else {
                if plain {
                    assert(s[5] == x[0]);
                } else {
                    assert(s[5] == main_sep(w));
                }
            }
        }
    }
}

/// The body of a joined path: that of the base (followed by a `/` when a
/// separator was put between), then the tail.
proof fn lemma_join_body(base: Seq<char>, x: Seq<char>, w: bool) -> (head: Seq<char>)
    requires
        x.len() > 0,
        !is_sep(x[0], w),
        x[0] != '?',
        prefix_len(x, w) == 0,
    ensures
        body(join_in(base, x, w), w) == head + unify(x, w),
        head.len() == 0 || head.last() == '/',
        head == body(base, w) || head == body(base, w).push('/'),
        head == body(base, w) || body(base, w).len() > 0 ==> components(head) == components(
            body(base, w),
        ),
        path_prefix(join_in(base, x, w), w) == path_prefix(base, w),
{
    lemma_join_keeps_prefix(base, x, w);
    let p = prefix_len(base, w);
    let s = join_in(base, x, w);
    let plain = base.len() == 0 || is_sep(base.last(), w) || (p == 2 && base.len() == 2);
    let hs = if plain {
        base
    } else {
        base.push(main_sep(w))
    };
    assert(s == hs + x);
    assert(s.skip(p) =~= hs.skip(p) + x);
    lemma_unify_concat(hs.skip(p), x, w);
    let head = unify(hs.skip(p), w);
    if plain {
        assert(head == body(base, w));
        if base.len() > 0 && is_sep(base.last(), w) {
            if p == base.len() {
                assert(base.last() == base[p - 1]);
            }
            assert(head.last() == unify_char(base.last(), w));
        }
    } else {
        assert(hs.skip(p) =~= base.skip(p).push(main_sep(w)));
        assert(head =~= body(base, w).push('/'));
        if body(base, w).len() > 0 {
            lemma_components_trailing_slash(body(base, w));
        }
    }
    assert(path_prefix(s, w) =~= path_prefix(base, w)) by {
        assert forall|i: int| 0 <= i < p implies s[i] == base[i] by {}
    }
    head
}

/// A text with separators written as `/` holds no `\`.
proof fn lemma_unify_no_backslash(s: Seq<char>, w: bool)
    requires
        w,
    ensures
        forall|i: int| 0 <= i < unify(s, w).len() ==> unify(s, w)[i] != '\\',
{
}

proof fn lemma_split_avoids(s: Seq<char>, c: char)
    requires
        forall|i: int| 0 <= i < s.len() ==> s[i] != c,
    ensures
        forall|i: int, j: int|
            0 <= i < split_slash(s).len() && 0 <= j < split_slash(s)[i].len() ==> #[trigger] split_slash(
                s,
            )[i][j] != c,
    decreases s.len(),
{
    lemma_split_nonempty(s);
    if s.len() > 0 {
        lemma_split_avoids(s.drop_last(), c);
        lemma_split_nonempty(s.drop_last());
        let p = split_slash(s.drop_last());
        assert forall|i: int, j: int|
            0 <= i < split_slash(s).len() && 0 <= j < split_slash(s)[i].len() implies #[trigger] split_slash(
            s,
        )[i][j] != c by {
            if s.last() != '/' && i == p.len() - 1 {
                assert(split_slash(s)[i] == p[i].push(s.last()));
                if j < p[i].len() {
                    assert(p[i][j] != c);
                }
            } else if i < p.len() {
                assert(split_slash(s)[i] == p[i]);
                assert(p[i][j] != c);
            }
        }
    }
}

/// The components of a path after the first one hold no character that the
/// path does not hold.
proof fn lemma_components_avoid(s: Seq<char>, c: char)
    requires
        forall|i: int| 0 <= i < s.len() ==> s[i] != c,
    ensures
        forall|i: int, j: int|
            1 <= i < components(s).len() && 0 <= j < components(s)[i].len() ==> #[trigger] components(
                s,
            )[i][j] != c,
{
    let segs = split_slash(s);
    lemma_split_nonempty(s);
    lemma_split_avoids(s, c);
    let k: int = if is_absolute(s) || segs[0] == cur_dir() { 1 } else { 0 };
    let tail = segs.skip(k);
    lemma_normal_parts_from(tail);
    if k == 0 {
        assert(tail =~= segs);
    }
    assert forall|i: int, j: int|
        1 <= i < components(s).len() && 0 <= j < components(s)[i].len() implies #[trigger] components(
        s,
    )[i][j] != c by {
        let x = normal_parts(tail)[i - k];
        assert(components(s)[i] == x);
        assert(tail.contains(x));
        let m = choose|m: int| 0 <= m < tail.len() && tail[m] == x;
        assert(segs[m + k] == x);
        assert(segs[m + k][j] != c);
    }
}

/// Whether a name keeps its meaning when joined on a platform: a plain name
/// without `\` on Windows, without a drive prefix, and not starting with `?`.
pub open spec fn joinable_name(x: Seq<char>, w: bool) -> bool {
    &&& plain_name(x)
    &&& forall|i: int| 0 <= i < x.len() ==> !is_sep(#[trigger] x[i], w)
    &&& prefix_len(x, w) == 0
    &&& x[0] != '?'
}

/// A name joined to a folder is the file name of the result, and the result
/// keeps the folder's drive prefix.
pub proof fn lemma_join_file_name_in(folder: Seq<char>, name: Seq<char>, w: bool)
    requires
        joinable_name(name, w),
    ensures
        file_name_in(join_in(folder, name, w), w) == Some(name),
        path_prefix(join_in(folder, name, w), w) == path_prefix(folder, w),
{
    let head = lemma_join_body(folder, name, w);
    lemma_unify_plain(name, w);
    assert(no_slash(name));
    lemma_components_append(head, name);
    assert(name != root());
}

/// A file name holds no separator of its platform.
pub proof fn lemma_file_name_in_plain(s: Seq<char>, w: bool)
    ensures
        file_name_in(s, w) matches Some(n) ==> plain_name(n) && forall|i: int|
            0 <= i < n.len() ==> !is_sep(#[trigger] n[i], w),
{
    let b = body(s, w);
    lemma_file_name_plain(b);
    if w {
        lemma_unify_no_backslash(s.skip(prefix_len(s, w)), w);
        lemma_components_avoid(b, '\\');
        let cs = components(b);
        if cs.len() > 0 && is_normal(cs.last()) {
            let n = cs.last();
            if cs.len() == 1 {
                lemma_split_nonempty(b);
                lemma_split_avoids(b, '\\');
                if !is_absolute(b) && split_slash(b)[0] != cur_dir() {
                    assert(split_slash(b).skip(0) =~= split_slash(b));
                    lemma_normal_parts_from(split_slash(b));
                    assert(split_slash(b).contains(n));
                }
            }
            assert forall|i: int| 0 <= i < n.len() implies !is_sep(#[trigger] n[i], w) by {
                assert(n == cs[cs.len() - 1]);
                assert(cs[cs.len() - 1][i] != '\\');
            }
        }
    }
}

/// Joining the empty text keeps the drive prefix and the components.
proof fn lemma_join_empty(base: Seq<char>, w: bool)
    requires
        !(prefix_len(base, w) == 6 && base.len() == 6),
    ensures
        path_prefix(join_in(base, Seq::<char>::empty(), w), w) == path_prefix(base, w),
        components_in(join_in(base, Seq::<char>::empty(), w), w) == components_in(base, w),
{
    let e = Seq::<char>::empty();
    let p = prefix_len(base, w);
    let s = join_in(base, e, w);
    let plain = base.len() == 0 || is_sep(base.last(), w) || (p == 2 && base.len() == 2);
    if plain {
        assert(s =~= base);
    } else {
        assert(s =~= base.push(main_sep(w)));
        assert forall|i: int| 0 <= i < base.len() implies s[i] == base[i] by {}
        assert(s[base.len() as int] == main_sep(w));
        assert(prefix_len(s, w) == p);
        assert(s.skip(p) =~= base.skip(p).push(main_sep(w)));
        assert(body(s, w) =~= body(base, w).push('/'));
        assert(body(base, w).len() > 0);
        lemma_components_trailing_slash(body(base, w));
        assert(path_prefix(s, w) =~= path_prefix(base, w));
    }
}

proof fn lemma_unify_native(t: Seq<char>, w: bool)
    requires
        w ==> forall|i: int| 0 <= i < t.len() ==> t[i] != '\\',
    ensures
        unify(native(t, w), w) == t,
{
    assert(unify(native(t, w), w) =~= t);
}

proof fn lemma_intercalate_avoids(cs: Seq<Seq<char>>, c: char)
    requires
        c != '/',
        forall|i: int, j: int| 0 <= i < cs.len() && 0 <= j < cs[i].len() ==> #[trigger] cs[i][j] != c,
    ensures
        forall|j: int| 0 <= j < intercalate(cs).len() ==> intercalate(cs)[j] != c,
    decreases cs.len(),
{
    if cs.len() > 1 {
        let a = cs.drop_last();
        assert forall|i: int, j: int| 0 <= i < a.len() && 0 <= j < a[i].len() implies #[trigger] a[i][j] != c by {
            assert(a[i] == cs[i]);
        }
        lemma_intercalate_avoids(a, c);
        let x = cs.last();
        assert forall|j: int| 0 <= j < intercalate(cs).len() implies intercalate(cs)[j] != c by {
            let l = intercalate(a).len();
            if j > l {
                assert(intercalate(cs)[j] == x[j - l - 1]);
                assert(cs[cs.len() - 1][j - l - 1] != c);
            }
        }
    } else if cs.len() == 1 {
        assert forall|j: int| 0 <= j < intercalate(cs).len() implies intercalate(cs)[j] != c by {
            assert(cs[0][j] != c);
        }
    }
}

/// Law of `strip_prefix` and `join` on a platform: joining a folder with
/// what follows a (non-empty) base in a path keeps the folder's drive prefix
/// and gives the folder's components followed by those of the path after the
/// base. It needs a folder that is not a bare verbatim disk `\\?\C:`, and a
/// remainder that does not start like a drive prefix or with `?`.
pub proof fn lemma_rebase_in(path: Seq<char>, base: Seq<char>, folder: Seq<char>, w: bool)
    requires
        components_in(base, w).len() > 0,
        strip_prefix_in(path, base, w) matches Some(rel) && prefix_len(rel, w) == 0 && (rel.len()
            > 0 ==> rel[0] != '?'),
        !(prefix_len(folder, w) == 6 && folder.len() == 6),
    ensures
        path_prefix(join_in(folder, strip_prefix_in(path, base, w)->0, w), w) == path_prefix(
            folder,
            w,
        ),
        components_in(join_in(folder, strip_prefix_in(path, base, w)->0, w), w) == components_in(
            folder,
            w,
        ) + components_in(path, w).skip(components_in(base, w).len() as int),
{
    let bp = body(path, w);
    let cs = components(bp);
    let n = components(body(base, w)).len() as int;
    let rest = cs.skip(n);
    let rel = strip_prefix_in(path, base, w)->0;
    lemma_components_tail(bp);
    assert forall|i: int| 0 <= i < rest.len() implies seg_ok(#[trigger] rest[i]) by {
        assert(rest[i] == cs[i + n]);
    }
    if rest.len() > 0 {
        assert(seg_ok(rest[0]));
        if rest[0] == root() {
            assert(rest[0][0] == '/');
        }
    }
    assert(join_components(rest) == intercalate(rest));
    let t = intercalate(rest);
    assert(rel == native(t, w));
    if w {
        lemma_unify_no_backslash(path.skip(prefix_len(path, w)), w);
        lemma_components_avoid(bp, '\\');
        assert forall|i: int, j: int| 0 <= i < rest.len() && 0 <= j < rest[i].len() implies #[trigger] rest[i][j] != '\\' by {
            assert(rest[i] == cs[i + n]);
        }
        lemma_intercalate_avoids(rest, '\\');
    }
    lemma_unify_native(t, w);
    if rest.len() == 0 {
        assert(t.len() == 0);
        assert(rel =~= Seq::<char>::empty());
        lemma_join_empty(folder, w);
        assert(components_in(folder, w) + rest =~= components_in(folder, w));
    } else {
        lemma_intercalate_nonempty(rest);
        assert(rel[0] == t[0]);
        assert(t[0] == rest[0][0]);
        let head = lemma_join_body(folder, rel, w);
        lemma_components_append_all(head, rest);
        if head != body(folder, w) {
            if body(folder, w).len() == 0 {
                assert(folder.skip(prefix_len(folder, w)).len() == 0);
            }
        }
    }
}

fn is_drive_letter_exec(c: char) -> (r: bool)
    ensures
        r == is_drive_letter(c),
{
    ('a' <= c && c <= 'z') || ('A' <= c && c <= 'Z')
}

fn is_sep_exec(c: char, w: bool) -> (r: bool)
    ensures
        r == is_sep(c, w),
{
    c == '/' || (w && c == '\\')
}

/// The length of the drive prefix of `s`.
pub fn prefix_len_exec(s: &Vec<char>, w: bool) -> (r: usize)
    ensures
        r as int == prefix_len(s@, w),
{
    if !w {
        0
    } else if s.len() >= 6 && s[0] == '\\' && s[1] == '\\' && s[2] == '?' && s[3] == '\\'
        && is_drive_letter_exec(s[4]) && s[5] == ':' {
        6
    } else if s.len() >= 2 && is_drive_letter_exec(s[0]) && s[1] == ':' {
        2
    } else {
        0
    }
}

/// What follows the drive prefix of `s`, with separators written as `/`.
pub fn body_exec(s: &Vec<char>, w: bool) -> (r: Vec<char>)
    ensures
        r@ == body(s@, w),
{
    let p = prefix_len_exec(s, w);
    let mut r: Vec<char> = Vec::new();
    let mut i: usize = p;
    let ghost rest = s@.skip(p as int);
    while i < s.len()
        invariant
            p <= i <= s.len(),
            rest == s@.skip(p as int),
            r@ == unify(rest.take(i - p), w),
        decreases s.len() - i,
    {
        let c = s[i];
        if is_sep_exec(c, w) {
            r.push('/');
        } else {
            r.push(c);
        }
        i = i + 1;
        assert(r@ =~= unify(rest.take(i - p), w));
    }
    assert(rest.take(s.len() - p) =~= rest);
    r
}

/// `v` with `/` written as the platform's separator.
pub fn native_exec(v: &Vec<char>, w: bool) -> (r: Vec<char>)
    ensures
        r@ == native(v@, w),
{
    let mut r: Vec<char> = Vec::new();
    let mut i: usize = 0;
    while i < v.len()
        invariant
            i <= v.len(),
            r@ == native(v@.take(i as int), w),
        decreases v.len() - i,
    {
        if v[i] == '/' {
            if w {
                r.push('\\');
            } else {
                r.push('/');
            }
        } else {
            r.push(v[i]);
        }
        i = i + 1;
        assert(r@ =~= native(v@.take(i as int), w));
    }
    assert(v@.take(v.len() as int) =~= v@);
    r
}

/// `Path::file_name` of `s` on a platform.
pub fn path_file_name_in(s: &Vec<char>, w: bool) -> (r: Option<Vec<char>>)
    ensures
        opt_view(r) == file_name_in(s@, w),
{
    path_file_name(&body_exec(s, w))
}

/// `Path::file_stem` of `s` on a platform.
pub fn path_file_stem_in(s: &Vec<char>, w: bool) -> (r: Option<Vec<char>>)
    ensures
        opt_view(r) == file_stem_in(s@, w),
{
    path_file_stem(&body_exec(s, w))
}

/// `Path::extension` of `s` on a platform.
pub fn path_extension_in(s: &Vec<char>, w: bool) -> (r: Option<Vec<char>>)
    ensures
        opt_view(r) == extension_in(s@, w),
{
    path_extension(&body_exec(s, w))
}

/// `Path::parent` of `s` on a platform.
pub fn path_parent_in(s: &Vec<char>, w: bool) -> (r: Option<Vec<char>>)
    ensures
        opt_view(r) == parent_in(s@, w),
{
    match path_parent(&body_exec(s, w)) {
        Some(p) => {
            let n = prefix_len_exec(s, w);
            let mut r = sub_chars(s, 0, n);
            let tail = native_exec(&p, w);
            crate::text::append_chars(&mut r, &tail);
            assert(s@.subrange(0, n as int) =~= path_prefix(s@, w));
            Some(r)
        },
        None => None,
    }
}

/// `Path::strip_prefix` on a platform: what follows `base` in `s`.
pub fn path_strip_prefix_in(s: &Vec<char>, base: &Vec<char>, w: bool) -> (r: Option<Vec<char>>)
    ensures
        opt_view(r) == strip_prefix_in(s@, base@, w),
{
    let ps = sub_chars(s, 0, prefix_len_exec(s, w));
    let pb = sub_chars(base, 0, prefix_len_exec(base, w));
    assert(ps@ =~= path_prefix(s@, w));
    assert(pb@ =~= path_prefix(base@, w));
    if !chars_eq(&lower_chars(&ps), &lower_chars(&pb)) {
        return None;
    }
    match path_strip_prefix(&body_exec(s, w), &body_exec(base, w)) {
        Some(rel) => Some(native_exec(&rel, w)),
        None => None,
    }
}

/// `Path::join` on a platform: `tail` appended to `base`.
pub fn path_join_in(base: &Vec<char>, tail: &Vec<char>, w: bool) -> (r: Vec<char>)
    ensures
        r@ == join_in(base@, tail@, w),
{
    if prefix_len_exec(tail, w) > 0 {
        return sub_chars(tail, 0, tail.len());
    }
    if tail.len() > 0 && is_sep_exec(tail[0], w) {
        let mut r = sub_chars(base, 0, prefix_len_exec(base, w));
        assert(r@ =~= path_prefix(base@, w));
        crate::text::append_chars(&mut r, tail);
        return r;
    }
    let mut r = sub_chars(base, 0, base.len());
    assert(r@ =~= base@);
    let bare_disk = prefix_len_exec(base, w) == 2 && base.len() == 2;
    if base.len() > 0 && !is_sep_exec(base[base.len() - 1], w) && !bare_disk {
        if w {
            r.push('\\');
        } else {
            r.push('/');
        }
    }
    crate::text::append_chars(&mut r, tail);
    r
}

/// `Path`'s `==` on a platform.
pub fn path_eq_in(a: &Vec<char>, b: &Vec<char>, w: bool) -> (r: bool)
    ensures
        r == same_path_in(a@, b@, w),
{
    let pa = sub_chars(a, 0, prefix_len_exec(a, w));
    let pb = sub_chars(b, 0, prefix_len_exec(b, w));
    assert(pa@ =~= path_prefix(a@, w));
    assert(pb@ =~= path_prefix(b@, w));
    chars_eq(&lower_chars(&pa), &lower_chars(&pb)) && path_eq(&body_exec(a, w), &body_exec(b, w))
}

/// `std::path::MAIN_SEPARATOR`: the main separator of path components on the
/// platform the crate was built for. Which character that is depends on the
/// platform, so nothing is claimed of it.
#[verifier::external_body]
fn main_separator() -> (c: char) {
    std::path::MAIN_SEPARATOR
}

/// Whether paths on the platform the crate was built for are Windows paths,
/// whose main separator is a backslash.
pub fn windows_paths() -> bool {
    main_separator() == '\\'
}

} // verus!
