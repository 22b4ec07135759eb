//! Character-sequence utilities shared by the address handling: prefix
//! matching, vector append, and the conversions between strings and
//! character vectors.

use vstd::prelude::*;

verus! {

/// `pre` is a prefix of `s`.
pub open spec fn starts_with(s: Seq<char>, pre: Seq<char>) -> bool {
    &&& pre.len() <= s.len()
    &&& s.subrange(0, pre.len() as int) == pre
}

/// Relies on str::chars and Vec's FromIterator: collects the characters
/// of the slice, in order.
#[verifier::external_body]
pub(crate) fn str_to_chars(s: &str) -> (r: Vec<char>)
    ensures
        r@ == s@,
{
    s.chars().collect()
}

/// Relies on String's FromIterator over char: the string whose
/// characters are those of the vector, in order.
#[verifier::external_body]
pub(crate) fn chars_to_string(v: &Vec<char>) -> (r: String)
    ensures
        r@ == v@,
{
    v.iter().collect()
}

/// Relies on str's PartialEq: two slices are equal exactly when their
/// character sequences are equal.
#[verifier::external_body]
pub(crate) fn str_eq(a: &str, b: &str) -> (r: bool)
    ensures
        r == (a@ == b@),
{
    a == b
}

/// Appends every character of `tail` to `out`, in order.
pub(crate) fn push_all(out: &mut Vec<char>, tail: &Vec<char>)
    ensures
        final(out)@ == old(out)@ + tail@,
{
    let mut k: usize = 0;
    while k < tail.len()
        invariant
            k <= tail@.len(),
            out@ == old(out)@ + tail@.subrange(0, k as int),
        decreases tail@.len() - k,
    {
        out.push(tail[k]);
        proof {
            assert(old(out)@ + tail@.subrange(0, k as int) + seq![tail@[k as int]] =~= old(out)@
                + tail@.subrange(0, k + 1));
        }
        k += 1;
    }
    proof {
        assert(tail@.subrange(0, tail@.len() as int) =~= tail@);
    }
}

} // verus!
