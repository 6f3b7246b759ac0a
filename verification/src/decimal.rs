//! Unsigned decimal numbers in text: an optional plus sign, then digits.

use vstd::prelude::*;

verus! {

/// The plus sign, as a byte.
pub const PLUS: u8 = 0x2b;

/// Whether `b` is one of the ten ASCII digits.
pub open spec fn is_digit(b: u8) -> bool {
    0x30 <= b <= 0x39
}

/// Whether every byte of `s` is a digit.
pub open spec fn all_digits(s: Seq<u8>) -> bool {
    forall|i: int| 0 <= i < s.len() ==> is_digit(#[trigger] s[i])
}

/// The number that a run of digits spells.
pub open spec fn digits_value(s: Seq<u8>) -> nat
    decreases s.len(),
{
    if s.len() == 0 {
        0
    } else {
        digits_value(s.drop_last()) * 10 + (s.last() - 0x30) as nat
    }
}

/// `s` without its leading plus sign, if it has one.
pub open spec fn after_sign(s: Seq<u8>) -> Seq<u8> {
    if s.len() > 0 && s[0] == PLUS {
        s.drop_first()
    } else {
        s
    }
}

/// The number that `s` spells, if it is an optional plus sign followed by one
/// or more digits and the number is at most `max`. Anything else, the empty
/// text and a lone sign included, spells nothing.
pub open spec fn decimal(s: Seq<u8>, max: u32) -> Option<u32> {
    let d = after_sign(s);
    if d.len() > 0 && all_digits(d) && digits_value(d) <= max {
        Some(digits_value(d) as u32)
    } else {
        None
    }
}

/// A run of digits spells at least what any of its prefixes spells.
pub proof fn lemma_digits_value_grows(s: Seq<u8>, n: int)
    requires
        0 <= n <= s.len(),
        all_digits(s),
    ensures
        digits_value(s.take(n)) <= digits_value(s),
    decreases s.len() - n,
{
    if n == s.len() {
        assert(s.take(n) =~= s);
    } else {
        lemma_digits_value_grows(s, n + 1);
        assert(s.take(n + 1).drop_last() =~= s.take(n));
        assert(is_digit(s[n]));
    }
}

/// Reads an unsigned decimal number of at most `max`.
pub fn parse_decimal(s: &[u8], max: u32) -> (r: Option<u32>)
    ensures
        r == decimal(s@, max),
{
    let start: usize = if s.len() > 0 && s[0] == PLUS { 1 } else { 0 };
    let ghost d = after_sign(s@);
    assert(d =~= s@.subrange(start as int, s@.len() as int));
    if start == s.len() {
        return None;
    }
    let mut acc: u64 = 0;
    let mut i: usize = start;
    while i < s.len()
        invariant
            start <= i <= s@.len(),
            d == after_sign(s@),
            d == s@.subrange(start as int, s@.len() as int),
            all_digits(d.take(i - start)),
            acc == digits_value(d.take(i - start)),
            acc <= max,
        decreases s@.len() - i,
    {
        let b = s[i];
        assert(b == d[i - start]);
        if b < 0x30 || b > 0x39 {
            assert(!is_digit(d[i - start]));
            return None;
        }
        let next: u64 = acc * 10 + (b - 0x30) as u64;
        proof {
            assert(d.take(i + 1 - start).drop_last() =~= d.take(i - start));
            assert(d.take(i + 1 - start).last() == b);
            assert(next == digits_value(d.take(i + 1 - start)));
            assert forall|j: int| 0 <= j < i + 1 - start implies is_digit(
                #[trigger] d.take(i + 1 - start)[j],
            ) by {
                if j < i - start {
                    assert(d.take(i - start)[j] == d[j]);
                }
            }
        }
        if next > max as u64 {
            proof {
                if all_digits(d) {
                    lemma_digits_value_grows(d, i + 1 - start);
                }
            }
            return None;
        }
        acc = next;
        i += 1;
    }
    assert(d.take(i - start) =~= d);
    Some(acc as u32)
}

} // verus!
