//! Text is carried through the library as vectors of characters, so that
//! splitting, slicing and comparing stay plain index arithmetic.

use vstd::prelude::*;

verus! {

use vstd::std_specs::iter::IteratorSpec;

/// Builds the character vector of a string slice. This is how literal text
/// enters the library's character-vector representation.
pub fn chars_of(s: &str) -> (r: Vec<char>)
    ensures
        r@ == s@,
{
    broadcast use vstd::string::axiom_spec_iter, vstd::string::next_postcondition;

    let mut it = s.chars();
    let mut r: Vec<char> = Vec::new();
    loop
        invariant_except_break
            r@ + it.remaining() == s@,
            r@.len() <= s@.len(),
        ensures
            r@ == s@,
        decreases s@.len() - r@.len(),
    {
        match it.next() {
            Some(c) => {
                r.push(c);
            },
            None => {
                assert(r@ =~= s@);
                break ;
            },
        }
    }
    r
}

/// The sequence of character sequences behind a vector of character vectors.
pub open spec fn texts_view(v: Seq<Vec<char>>) -> Seq<Seq<char>> {
    Seq::new(v.len(), |i: int| v[i]@)
}

/// Copies a character vector.
pub fn copy_text(v: &Vec<char>) -> (r: Vec<char>)
    ensures
        r@ == v@,
{
    let mut r: Vec<char> = Vec::new();
    let mut i: usize = 0;
    while i < v.len()
        invariant
            i <= v.len(),
            r@ == v@.take(i as int),
        decreases v.len() - i,
    {
        r.push(v[i]);
        assert(v@.take(i as int).push(v@[i as int]) =~= v@.take(i as int + 1));
        i = i + 1;
    }
    assert(v@.take(v.len() as int) =~= v@);
    r
}

/// The position of the first `sep` at or after `pos`, or the text's length
/// when none follows.
pub open spec fn first_sep_from(s: Seq<char>, pos: int, sep: char) -> int
    decreases s.len() - pos,
    when 0 <= pos
{
    if pos >= s.len() {
        s.len() as int
    } else if s[pos] == sep {
        pos
    } else {
        first_sep_from(s, pos + 1, sep)
    }
}

/// The first position lies between `pos` and the text's length, nothing
/// before it is `sep`, and the position itself carries `sep` unless it is the
/// length.
pub proof fn lemma_first_sep_from(s: Seq<char>, pos: int, sep: char)
    requires
        0 <= pos <= s.len(),
    ensures
        pos <= first_sep_from(s, pos, sep) <= s.len(),
        first_sep_from(s, pos, sep) < s.len() ==> s[first_sep_from(s, pos, sep)] == sep,
        forall|m: int| pos <= m < first_sep_from(s, pos, sep) ==> s[m] != sep,
    decreases s.len() - pos,
{
    if pos < s.len() && s[pos] != sep {
        lemma_first_sep_from(s, pos + 1, sep);
    }
}

/// The position of the first `sep` at or after `pos` but before `upto`, or
/// `upto` when none lies in between.
pub open spec fn first_sep_before(s: Seq<char>, pos: int, upto: int, sep: char) -> int
    decreases upto - pos,
    when true
{
    if pos >= upto {
        upto
    } else if 0 <= pos < s.len() && s[pos] == sep {
        pos
    } else {
        first_sep_before(s, pos + 1, upto, sep)
    }
}

/// Finds the first `sep` at or after `pos`.
pub fn find_from(v: &Vec<char>, pos: usize, sep: char) -> (r: usize)
    requires
        pos <= v.len(),
    ensures
        r == first_sep_from(v@, pos as int, sep),
        pos <= r <= v.len(),
        r < v.len() ==> v@[r as int] == sep,
{
    let mut i: usize = pos;
    while i < v.len()
        invariant
            pos <= i <= v.len(),
            first_sep_from(v@, pos as int, sep) == first_sep_from(v@, i as int, sep),
        decreases v.len() - i,
    {
        if v[i] == sep {
            return i;
        }
        i = i + 1;
    }
    i
}

/// Finds the first `sep` at or after `pos` but before `upto`.
pub fn find_before(v: &Vec<char>, pos: usize, upto: usize, sep: char) -> (r: usize)
    requires
        pos <= upto <= v.len(),
    ensures
        r == first_sep_before(v@, pos as int, upto as int, sep),
        pos <= r <= upto,
        r < upto ==> v@[r as int] == sep,
{
    let mut i: usize = pos;
    while i < upto
        invariant
            pos <= i <= upto,
            upto <= v.len(),
            first_sep_before(v@, pos as int, upto as int, sep) == first_sep_before(
                v@,
                i as int,
                upto as int,
                sep,
            ),
        decreases upto - i,
    {
        if v[i] == sep {
            return i;
        }
        i = i + 1;
    }
    i
}

/// Copies the characters of `v` between `a` and `b`.
pub fn copy_range(v: &Vec<char>, a: usize, b: usize) -> (r: Vec<char>)
    requires
        a <= b <= v.len(),
    ensures
        r@ == v@.subrange(a as int, b as int),
{
    let mut r: Vec<char> = Vec::new();
    let mut i: usize = a;
    while i < b
        invariant
            a <= i <= b,
            b <= v.len(),
            r@ == v@.subrange(a as int, i as int),
        decreases b - i,
    {
        r.push(v[i]);
        assert(v@.subrange(a as int, i as int).push(v@[i as int]) =~= v@.subrange(
            a as int,
            i as int + 1,
        ));
        i = i + 1;
    }
    r
}

/// Appends the characters of `src` to `dst`.
pub fn append_text(dst: &mut Vec<char>, src: &Vec<char>)
    ensures
        final(dst)@ == old(dst)@ + src@,
{
    let mut i: usize = 0;
    proof {
        assert(dst@ + src@.take(0) =~= dst@);
    }
    while i < src.len()
        invariant
            i <= src.len(),
            dst@ == old(dst)@ + src@.take(i as int),
        decreases src.len() - i,
    {
        dst.push(src[i]);
        proof {
            assert((old(dst)@ + src@.take(i as int)).push(src@[i as int]) =~= old(dst)@
                + src@.take(i as int + 1));
        }
        i = i + 1;
    }
    proof {
        assert(src@.take(src@.len() as int) =~= src@);
    }
}

/// Character-wise equality of two character vectors.
pub fn text_eq(a: &Vec<char>, b: &Vec<char>) -> (r: bool)
    ensures
        r == (a@ == b@),
{
    if a.len() != b.len() {
        assert(a@ != b@) by {
            assert(a@.len() != b@.len());
        }
        return false;
    }
    let mut i: usize = 0;
    while i < a.len()
        invariant
            i <= a.len(),
            a@.len() == b@.len(),
            forall|k: int| 0 <= k < i ==> a@[k] == b@[k],
        decreases a.len() - i,
    {
        if a[i] != b[i] {
            return false;
        }
        i = i + 1;
    }
    assert(a@ =~= b@);
    true
}

} // verus!
