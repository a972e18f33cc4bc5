//! Small text helpers shared by the message composer, the secret masker and
//! the session record codec.

use vstd::prelude::*;

verus! {

/// Relies on `String::push`: appends one character at the end of the string.
#[verifier::external_body]
pub fn push_char(s: &mut String, c: char)
    ensures
        final(s)@ == old(s)@.push(c),
{
    s.push(c);
}

/// Character-for-character equality of two string slices.
pub fn str_eq(a: &str, b: &str) -> (r: bool)
    ensures
        r == (a@ == b@),
{
    let sa = String::from_str(a);
    let sb = String::from_str(b);
    sa == sb
}

/// A character's code is never negative.
pub proof fn lemma_char_nonneg(c: char)
    ensures
        0 <= c as int,
        c as int == c as u32 as int,
{
    assert(c as u32 >= 0);
    assert(c as int == c as u32 as int);
}

/// `n` copies of `c`.
pub open spec fn repeated(c: char, n: int) -> Seq<char>
    recommends
        n >= 0,
{
    Seq::new(n as nat, |i: int| c)
}

/// Build a string of `n` copies of `c`.
pub fn repeat_char(c: char, n: usize) -> (r: String)
    ensures
        r@ == repeated(c, n as int),
{
    let mut r = String::new();
    let mut i: usize = 0;
    while i < n
        invariant
            i <= n,
            r@ =~= repeated(c, i as int),
        decreases n - i,
    {
        push_char(&mut r, c);
        i = i + 1;
        proof {
            assert(r@ =~= repeated(c, i as int));
        }
    }
    r
}

} // verus!
