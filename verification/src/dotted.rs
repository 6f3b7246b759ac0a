//! Byte strings cut at full stops: the labels of a name, the octets of a
//! dotted address.

use vstd::prelude::*;

verus! {

/// The full stop, as a byte.
pub const DOT: u8 = 0x2e;

/// Where the first full stop of `s` stands, or the length of `s` if it holds
/// none.
pub open spec fn first_dot(s: Seq<u8>) -> int
    decreases s.len(),
{
    if s.len() == 0 || s[0] == DOT {
        0
    } else {
        1 + first_dot(s.drop_first())
    }
}

/// The pieces of `s` between its full stops, in order. A text without a full
/// stop is one piece; two adjacent full stops hold an empty piece.
pub open spec fn split_on_dot(s: Seq<u8>) -> Seq<Seq<u8>>
    decreases s.len(),
{
    let n = first_dot(s);
    if 0 <= n < s.len() {
        seq![s.subrange(0, n)] + split_on_dot(s.subrange(n + 1, s.len() as int))
    } else {
        seq![s]
    }
}

/// `first_dot` points at a full stop, or past the end, and nothing before it
/// is one.
pub proof fn lemma_first_dot(s: Seq<u8>)
    ensures
        0 <= first_dot(s) <= s.len(),
        forall|i: int| 0 <= i < first_dot(s) ==> s[i] != DOT,
        first_dot(s) < s.len() ==> s[first_dot(s)] == DOT,
    decreases s.len(),
{
    if s.len() == 0 || s[0] == DOT {
    } else {
        let rest = s.drop_first();
        lemma_first_dot(rest);
        assert forall|i: int| 0 <= i < first_dot(s) implies s[i] != DOT by {
            if i > 0 {
                assert(s[i] == rest[i - 1]);
            }
        }
        assert(first_dot(s) < s.len() ==> s[first_dot(s)] == rest[first_dot(rest)]);
    }
}

/// Only one position has no full stop before it and a full stop, or the end,
/// at it.
pub proof fn lemma_first_dot_unique(s: Seq<u8>, n: int)
    requires
        0 <= n <= s.len(),
        forall|i: int| 0 <= i < n ==> s[i] != DOT,
        n < s.len() ==> s[n] == DOT,
    ensures
        first_dot(s) == n,
{
    lemma_first_dot(s);
    let m = first_dot(s);
    if m < n {
        assert(s[m] == DOT);
    } else if n < m {
        assert(s[n] == DOT);
    }
}

/// The position of the first full stop at or after `from`, or the length of
/// `bytes` if none follows.
pub fn find_dot(bytes: &[u8], from: usize) -> (at: usize)
    requires
        from <= bytes@.len(),
    ensures
        from <= at <= bytes@.len(),
        at == from + first_dot(bytes@.subrange(from as int, bytes@.len() as int)),
{
    let mut i: usize = from;
    while i < bytes.len() && bytes[i] != DOT
        invariant
            from <= i <= bytes@.len(),
            forall|j: int| from <= j < i ==> bytes@[j] != DOT,
        decreases bytes@.len() - i,
    {
        i += 1;
    }
    proof {
        let tail = bytes@.subrange(from as int, bytes@.len() as int);
        assert forall|j: int| 0 <= j < i - from implies tail[j] != DOT by {
            assert(tail[j] == bytes@[from + j]);
        }
        lemma_first_dot_unique(tail, i - from);
    }
    i
}

} // verus!
