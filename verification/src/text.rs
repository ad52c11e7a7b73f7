//! Character-level helpers shared by the path model and the message builders.

use vstd::prelude::*;

verus! {

/// The characters of `s`, in order.
pub fn chars_of(s: &str) -> (v: Vec<char>)
    ensures
        v@ == s@,
{
    let mut v: Vec<char> = Vec::new();
    for c in it: s.chars()
        invariant
            it.seq() == s@,
            v@ == it.seq().take(it.index() as int),
    {
        v.push(c);
    }
    v
}

/// std's `String::from_iter` over a slice of characters: the contract claims
/// that the string holds exactly these characters, in this order.
#[verifier::external_body]
pub(crate) fn string_from_chars(chars: &[char]) -> (s: String)
    ensures
        s@ == chars@,
{
    String::from_iter(chars)
}

/// The characters of the literal-free character sequence `v` turned into a `String`.
pub fn string_of(v: &Vec<char>) -> (s: String)
    ensures
        s@ == v@,
{
    string_from_chars(v.as_slice())
}

/// ASCII lower-casing of one character, as `char::to_ascii_lowercase` documents it:
/// `A`..=`Z` become `a`..=`z`, every other character stays.
pub open spec fn lower_char(c: char) -> char {
    if 65 <= (c as u32) <= 90 {
        ((c as u32) + 32) as char
    } else {
        c
    }
}

/// ASCII lower-casing of a character sequence.
pub open spec fn lower_seq(s: Seq<char>) -> Seq<char> {
    s.map_values(|c: char| lower_char(c))
}

/// Whether no character of `s` is an ASCII capital letter.
pub open spec fn is_lower(s: Seq<char>) -> bool {
    forall|i: int| 0 <= i < s.len() ==> !(65 <= (#[trigger] s[i] as u32) <= 90)
}

pub fn lower_char_exec(c: char) -> (r: char)
    ensures
        r == lower_char(c),
{
    let n: u32 = c as u32;
    if 65 <= n && n <= 90 {
        let b: u8 = (n + 32) as u8;
        b as char
    } else {
        c
    }
}

/// ASCII lower-casing, as `str::to_ascii_lowercase` documents it.
pub fn lower_chars(s: &Vec<char>) -> (r: Vec<char>)
    ensures
        r@ == lower_seq(s@),
        is_lower(r@),
{
    let mut r: Vec<char> = Vec::new();
    let mut i: usize = 0;
    while i < s.len()
        invariant
            i <= s.len(),
            r@ == lower_seq(s@.take(i as int)),
        decreases s.len() - i,
    {
        r.push(lower_char_exec(s[i]));
        i = i + 1;
        assert(s@.take(i as int) == s@.take(i - 1).push(s@[i - 1]));
        assert(lower_seq(s@.take(i as int)) =~= lower_seq(s@.take(i - 1)).push(lower_char(s@[i - 1])));
    }
    assert(s@.take(s.len() as int) =~= s@);
    r
}

/// The decimal digit character for `d < 10`.
pub open spec fn digit_char(d: nat) -> char {
    (d + 48) as char
}

/// The decimal representation of `n`, without sign or leading zeros
/// (what `u64::to_string` writes).
pub open spec fn decimal(n: nat) -> Seq<char>
    decreases n,
{
    if n < 10 {
        seq![digit_char(n)]
    } else {
        decimal(n / 10).push(digit_char(n % 10))
    }
}

fn digit_exec(d: u64) -> (c: char)
    requires
        d < 10,
    ensures
        c == digit_char(d as nat),
{
    let b: u8 = (d as u8) + 48;
    b as char
}

/// The decimal representation of `n`.
pub fn decimal_chars(n: u64) -> (v: Vec<char>)
    ensures
        v@ == decimal(n as nat),
    decreases n,
{
    if n < 10 {
        let mut v: Vec<char> = Vec::new();
        v.push(digit_exec(n));
        assert(v@ =~= seq![digit_char(n as nat)]);
        v
    } else {
        let mut v = decimal_chars(n / 10);
        v.push(digit_exec(n % 10));
        v
    }
}

/// `s` left-padded with `'0'` to at least `width` characters.
pub open spec fn zero_pad(s: Seq<char>, width: nat) -> Seq<char> {
    if s.len() < width {
        Seq::new((width - s.len()) as nat, |i: int| '0') + s
    } else {
        s
    }
}

pub fn zero_pad_exec(s: &Vec<char>, width: usize) -> (r: Vec<char>)
    ensures
        r@ == zero_pad(s@, width as nat),
{
    let mut r: Vec<char> = Vec::new();
    if s.len() < width {
        let fill = width - s.len();
        let mut i: usize = 0;
        while i < fill
            invariant
                i <= fill,
                r@ == Seq::new(i as nat, |j: int| '0'),
            decreases fill - i,
        {
            r.push('0');
            i = i + 1;
            assert(r@ =~= Seq::new(i as nat, |j: int| '0'));
        }
    }
    let mut k: usize = 0;
    let ghost pre = r@;
    while k < s.len()
        invariant
            k <= s.len(),
            r@ == pre + s@.take(k as int),
        decreases s.len() - k,
    {
        r.push(s[k]);
        k = k + 1;
        assert(r@ =~= pre + s@.take(k as int));
    }
    assert(s@.take(s.len() as int) =~= s@);
    assert(r@ =~= zero_pad(s@, width as nat));
    r
}

/// Appends all of `tail` to `v`.
pub fn append_chars(v: &mut Vec<char>, tail: &Vec<char>)
    ensures
        final(v)@ == old(v)@ + tail@,
{
    let mut k: usize = 0;
    let ghost pre = v@;
    while k < tail.len()
        invariant
            k <= tail.len(),
            v@ == pre + tail@.take(k as int),
        decreases tail.len() - k,
    {
        v.push(tail[k]);
        k = k + 1;
        assert(v@ =~= pre + tail@.take(k as int));
    }
    assert(tail@.take(tail.len() as int) =~= tail@);
}

/// Whether the two character sequences are equal.
pub fn chars_eq(a: &Vec<char>, b: &Vec<char>) -> (r: bool)
    ensures
        r == (a@ == b@),
{
    if a.len() != b.len() {
        return false;
    }
    let mut i: usize = 0;
    while i < a.len()
        invariant
            i <= a.len(),
            a.len() == b.len(),
            forall|j: int| 0 <= j < i ==> a@[j] == b@[j],
        decreases a.len() - i,
    {
        if a[i] != b[i] {
            return false;
        }
        i = i + 1;
    }
    assert(a@ =~= b@);
    true
}

} // verus!
