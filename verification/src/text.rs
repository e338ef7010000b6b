//! Character-sequence helpers shared by the path guard and the header parser.
//!
//! Strings are modelled by their views, `Seq<char>`. The executable helpers work
//! on `&[char]` so that every scan is a plain indexed loop.

use vstd::prelude::*;
use vstd::slice::slice_subrange;

verus! {

/// ASCII lower-casing of one character; every other character is left alone.
pub open spec fn lower(c: char) -> char {
    if 'A' <= c && c <= 'Z' {
        ((c as u8) + 32) as char
    } else {
        c
    }
}

/// `s` with every character lower-cased.
pub open spec fn lower_all(s: Seq<char>) -> Seq<char> {
    Seq::new(s.len(), |i: int| lower(s[i]))
}

/// Index of the first occurrence of `d` in `s`, or `s.len()` where `d` does not occur.
pub open spec fn first_index(s: Seq<char>, d: char) -> int
    decreases s.len(),
{
    if s.len() == 0 || s[0] == d {
        0
    } else {
        1 + first_index(s.drop_first(), d)
    }
}

/// The part of `s` in front of the first `d`; all of `s` where `d` does not occur.
pub open spec fn before(s: Seq<char>, d: char) -> Seq<char> {
    s.take(first_index(s, d))
}

/// `first_index` stays inside the sequence, nothing in front of it is `d`, and
/// where it is not the length it points at a `d`.
pub proof fn lemma_first_index(s: Seq<char>, d: char)
    ensures
        0 <= first_index(s, d) <= s.len(),
        forall|j: int| 0 <= j < first_index(s, d) ==> s[j] != d,
        first_index(s, d) < s.len() ==> s[first_index(s, d)] == d,
    decreases s.len(),
{
    if s.len() == 0 || s[0] == d {
    } else {
        let rest = s.drop_first();
        lemma_first_index(rest, d);
        assert forall|j: int| 0 <= j < first_index(s, d) implies s[j] != d by {
            if j > 0 {
                assert(s[j] == rest[j - 1]);
            }
        }
        assert(first_index(s, d) < s.len() ==> s[first_index(s, d)] == rest[first_index(rest, d)]);
    }
}

/// Any index with the three properties of `lemma_first_index` is `first_index`.
pub proof fn lemma_first_index_is(s: Seq<char>, d: char, k: int)
    requires
        0 <= k <= s.len(),
        forall|j: int| 0 <= j < k ==> s[j] != d,
        k < s.len() ==> s[k] == d,
    ensures
        first_index(s, d) == k,
    decreases s.len(),
{
    if s.len() == 0 || s[0] == d {
    } else {
        let rest = s.drop_first();
        assert forall|j: int| 0 <= j < k - 1 implies rest[j] != d by {
            assert(rest[j] == s[j + 1]);
        }
        lemma_first_index_is(rest, d, k - 1);
    }
}

/// Lower-cases one character.
pub fn to_lower(c: char) -> (r: char)
    ensures
        r == lower(c),
{
    if 'A' <= c && c <= 'Z' {
        ((c as u8) + 32) as char
    } else {
        c
    }
}

/// Position of the first `d` in `s`, or the length of `s`.
pub fn position(s: &[char], d: char) -> (k: usize)
    ensures
        k == first_index(s@, d),
        k <= s.len(),
{
    let mut i: usize = 0;
    while i < s.len() && s[i] != d
        invariant
            i <= s.len(),
            forall|j: int| 0 <= j < i ==> s@[j] != d,
        decreases s.len() - i,
    {
        i += 1;
    }
    proof {
        lemma_first_index_is(s@, d, i as int);
    }
    i
}

/// The part of `s` in front of the first `d`.
pub fn head<'a>(s: &'a [char], d: char) -> (r: &'a [char])
    ensures
        r@ == before(s@, d),
{
    let k = position(s, d);
    slice_subrange(s, 0, k)
}

/// Std's `String::push` appends the character to the end of the string.
pub assume_specification[ String::push ](s: &mut String, c: char)
    ensures
        final(s)@ == old(s)@.push(c),
;

/// The characters of `s`, in order.
pub fn chars_of(s: &str) -> (v: Vec<char>)
    ensures
        v@ == s@,
{
    let mut v: Vec<char> = Vec::new();
    for c in it: s.chars()
        invariant
            v@ == it.seq().take(it.index() as int),
    {
        v.push(c);
    }
    v
}

/// Appends the characters of `s` to `out`.
pub fn push_all(out: &mut String, s: &[char])
    ensures
        final(out)@ == old(out)@ + s@,
{
    let mut i: usize = 0;
    while i < s.len()
        invariant
            i <= s.len(),
            out@ == old(out)@ + s@.take(i as int),
        decreases s.len() - i,
    {
        out.push(s[i]);
        proof {
            assert((old(out)@ + s@.take(i as int)).push(s@[i as int]) =~= old(out)@ + s@.take(
                i + 1,
            ));
        }
        i += 1;
    }
    proof {
        assert(s@.take(s@.len() as int) =~= s@);
    }
}

/// A string made of the characters of `s`, in order.
pub fn string_of(s: &[char]) -> (r: String)
    ensures
        r@ == s@,
{
    let mut r = String::new();
    push_all(&mut r, s);
    proof {
        assert(Seq::<char>::empty() + s@ =~= s@);
    }
    r
}

} // verus!
