//! The wire format of every frame payload: a count rendered as ASCII decimal
//! text, most significant digit first, with no leading zeros, no sign, no
//! framing and no checksum.  Outbound broadcasts and acknowledgments carry the
//! sender's rolling sum in this form; inbound payloads that do not parse are
//! treated as malformed and the whole frame is ignored.

use vstd::prelude::*;

verus! {

/// ASCII code of the digit `0`.
pub const DIGIT_ZERO: u8 = 48;

/// The decimal digits of `n` as ASCII bytes, most significant first.
pub open spec fn dec_digits(n: nat) -> Seq<u8>
    decreases n,
{
    if n < 10 {
        seq![(DIGIT_ZERO + n) as u8]
    } else {
        dec_digits(n / 10).push((DIGIT_ZERO + n % 10) as u8)
    }
}

/// Every byte of `s` is an ASCII decimal digit.
pub open spec fn all_digits(s: Seq<u8>) -> bool {
    forall|i: int| 0 <= i < s.len() ==> DIGIT_ZERO <= #[trigger] s[i] <= DIGIT_ZERO + 9
}

/// `s` is the canonical decimal text of some count: nonempty, digits only,
/// and no leading zero except for `"0"` itself.
pub open spec fn is_canonical_decimal(s: Seq<u8>) -> bool {
    &&& s.len() >= 1
    &&& all_digits(s)
    &&& (s.len() > 1 ==> s[0] != DIGIT_ZERO)
}

/// A payload that `parse_count` accepts: canonical decimal text whose value
/// fits the counter width.
pub open spec fn payload_valid(s: Seq<u8>) -> bool {
    is_canonical_decimal(s) && decimal_value(s) <= u64::MAX
}

/// The count that the digit string `s` denotes.
pub open spec fn decimal_value(s: Seq<u8>) -> int
    decreases s.len(),
{
    if s.len() == 0 {
        0
    } else {
        decimal_value(s.drop_last()) * 10 + (s.last() - DIGIT_ZERO)
    }
}

/// A digit string denotes a nonnegative count.
proof fn lemma_decimal_nonneg(s: Seq<u8>)
    requires
        all_digits(s),
    ensures
        decimal_value(s) >= 0,
    decreases s.len(),
{
    if s.len() > 0 {
        assert(all_digits(s.drop_last()));
        lemma_decimal_nonneg(s.drop_last());
    }
}

/// Dropping trailing digits never increases the denoted count.
proof fn lemma_decimal_prefix_le(s: Seq<u8>, k: int)
    requires
        all_digits(s),
        0 <= k <= s.len(),
    ensures
        decimal_value(s.take(k)) <= decimal_value(s),
    decreases s.len() - k,
{
    if k == s.len() {
        assert(s.take(k) =~= s);
    } else {
        assert(s.take(k + 1).drop_last() =~= s.take(k));
        assert(all_digits(s.take(k)));
        lemma_decimal_nonneg(s.take(k));
        lemma_decimal_prefix_le(s, k + 1);
    }
}

/// Renders `n` as its canonical decimal text.
pub fn format_count(n: u64) -> (digits: Vec<u8>)
    ensures
        digits@ == dec_digits(n as nat),
    decreases n,
{
    if n < 10 {
        let mut v: Vec<u8> = Vec::new();
        v.push(DIGIT_ZERO + n as u8);
        proof {
            assert(v@ =~= dec_digits(n as nat));
        }
        v
    } else {
        let mut v: Vec<u8> = format_count(n / 10);
        v.push(DIGIT_ZERO + (n % 10) as u8);
        proof {
            assert(v@ =~= dec_digits(n as nat));
        }
        v
    }
}

/// Reads a count back from its decimal text.  Returns `Some` exactly on the
/// canonical texts whose value fits the counter width; anything else is a
/// malformed payload.
pub fn parse_count(s: &Vec<u8>) -> (r: Option<u64>)
    ensures
        match r {
            Some(v) => is_canonical_decimal(s@) && decimal_value(s@) == v as int,
            None => !is_canonical_decimal(s@) || decimal_value(s@) > u64::MAX,
        },
{
    if s.len() == 0 {
        return None;
    }
    if s.len() > 1 && s[0] == DIGIT_ZERO {
        return None;
    }
    let mut acc: u64 = 0;
    let mut i: usize = 0;
    while i < s.len()
        invariant
            0 <= i <= s@.len(),
            s@.len() >= 1,
            s@.len() > 1 ==> s@[0] != DIGIT_ZERO,
            forall|j: int| 0 <= j < i ==> DIGIT_ZERO <= #[trigger] s@[j] <= DIGIT_ZERO + 9,
            acc as int == decimal_value(s@.take(i as int)),
        decreases s@.len() - i,
    {
        let b: u8 = s[i];
        if b < DIGIT_ZERO || b > DIGIT_ZERO + 9 {
            proof {
                assert(!all_digits(s@)) by {
                    assert(!(DIGIT_ZERO <= s@[i as int] <= DIGIT_ZERO + 9));
                }
            }
            return None;
        }
        let d: u64 = (b - DIGIT_ZERO) as u64;
        proof {
            assert(s@.take(i as int + 1).drop_last() =~= s@.take(i as int));
            assert(s@.take(i as int + 1).last() == s@[i as int]);
        }
        if acc > (u64::MAX - d) / 10 {
            proof {
                if is_canonical_decimal(s@) {
                    lemma_decimal_prefix_le(s@, i as int + 1);
                }
            }
            return None;
        }
        acc = acc * 10 + d;
        i += 1;
    }
    proof {
        assert(s@.take(i as int) =~= s@);
    }
    Some(acc)
}

/// **Round trip**: the canonical text of a count is well formed and denotes
/// that count again, so a payload written by `format_count` is never taken
/// for malformed and always parses back to the count that was sent.
pub proof fn lemma_decimal_round_trip(n: nat)
    ensures
        is_canonical_decimal(dec_digits(n)),
        decimal_value(dec_digits(n)) == n,
    decreases n,
{
    if n < 10 {
        let s = dec_digits(n);
        assert(s =~= seq![(DIGIT_ZERO + n) as u8]);
        assert(s.drop_last() =~= Seq::<u8>::empty());
        assert(decimal_value(s) == decimal_value(s.drop_last()) * 10 + (s.last() - DIGIT_ZERO));
    } else {
        lemma_decimal_round_trip(n / 10);
        vstd::arithmetic::div_mod::lemma_fundamental_div_mod(n as int, 10);
        vstd::arithmetic::div_mod::lemma_mod_bound(n as int, 10);
        let head = dec_digits(n / 10);
        let s = dec_digits(n);
        assert(s == head.push((DIGIT_ZERO + n % 10) as u8));
        assert(s.drop_last() =~= head);
        assert(decimal_value(s) == decimal_value(head) * 10 + (s.last() - DIGIT_ZERO));
        assert(s[0] == head[0]);
        assert(head[0] != DIGIT_ZERO) by {
            if head.len() == 1 {
                // A single digit denoting n / 10 >= 1 cannot be the zero digit.
                assert(head.drop_last() =~= Seq::<u8>::empty());
                assert(decimal_value(head) == decimal_value(head.drop_last()) * 10 + (
                head.last() - DIGIT_ZERO));
            }
        }
    }
}

} // verus!
