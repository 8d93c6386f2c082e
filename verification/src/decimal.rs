//! Decimal numbers as they stand on the wire: how a line is read as a number
//! and how a number is written as digits.

use vstd::prelude::*;

verus! {

/// Whether `b` is one of the ASCII digits `0` to `9`.
pub open spec fn is_digit(b: u8) -> bool {
    0x30 <= b <= 0x39
}

/// Length of the run of digits that `s` starts with.
pub open spec fn digit_run(s: Seq<u8>) -> nat
    decreases s.len(),
{
    if s.len() > 0 && is_digit(s[0]) {
        1 + digit_run(s.skip(1))
    } else {
        0
    }
}

/// The number that the digits of `s` spell in base ten; 0 for no digits.
pub open spec fn decimal_value(s: Seq<u8>) -> nat
    decreases s.len(),
{
    if s.len() == 0 {
        0
    } else {
        10 * decimal_value(s.drop_last()) + (s.last() - 0x30) as nat
    }
}

/// The number spelled by the run of digits that `s` starts with.
pub open spec fn leading_number(s: Seq<u8>) -> nat {
    decimal_value(s.take(digit_run(s) as int))
}

/// How a line of text is read as an unsigned 64-bit number.
///
/// One sign may come first. After it, or from the start where there is none,
/// the longest run of digits is read and whatever follows is ignored. Without
/// a sign at least one digit is needed. After `+` the run may be empty and
/// then counts as 0. After `-` only zero is in range. A number above
/// `u64::MAX` is not read.
pub open spec fn spec_atoi(text: Seq<u8>) -> Option<u64> {
    if text.len() > 0 && text[0] == 0x2b {
        let v = leading_number(text.skip(1));
        if v <= u64::MAX {
            Some(v as u64)
        } else {
            None
        }
    } else if text.len() > 0 && text[0] == 0x2d {
        if leading_number(text.skip(1)) == 0 {
            Some(0u64)
        } else {
            None
        }
    } else if digit_run(text) == 0 {
        None
    } else {
        let v = leading_number(text);
        if v <= u64::MAX {
            Some(v as u64)
        } else {
            None
        }
    }
}

/// The digits of `n` in base ten, without leading zeros.
pub open spec fn spec_digits(n: nat) -> Seq<u8>
    decreases n,
{
    if n < 10 {
        seq![(0x30 + n) as u8]
    } else {
        spec_digits(n / 10).push((0x30 + n % 10) as u8)
    }
}

/// What `spec_digits` gives is never empty and holds digits only.
pub proof fn lemma_digits_shape(n: nat)
    ensures
        spec_digits(n).len() >= 1,
        forall|i: int| 0 <= i < spec_digits(n).len() ==> is_digit(#[trigger] spec_digits(n)[i]),
    decreases n,
{
    if n >= 10 {
        lemma_digits_shape(n / 10);
    }
}

/// The digits of `n` spell `n`.
pub proof fn lemma_digits_value(n: nat)
    ensures
        decimal_value(spec_digits(n)) == n,
    decreases n,
{
    let d = spec_digits(n);
    if n < 10 {
        assert(d.drop_last() =~= Seq::<u8>::empty());
        assert(decimal_value(d.drop_last()) == 0);
        assert(d.last() == (0x30 + n) as u8);
    } else {
        lemma_digits_value(n / 10);
        assert(d.drop_last() =~= spec_digits(n / 10));
        assert(d.last() == (0x30 + n % 10) as u8);
    }
}

/// A sequence of digits is its own leading run.
pub proof fn lemma_digit_run_full(s: Seq<u8>)
    requires
        forall|i: int| 0 <= i < s.len() ==> is_digit(#[trigger] s[i]),
    ensures
        digit_run(s) == s.len(),
    decreases s.len(),
{
    if s.len() > 0 {
        lemma_digit_run_full(s.skip(1));
    }
}

/// Reading the digits of a 64-bit number gives that number back.
pub proof fn lemma_atoi_digits(n: u64)
    ensures
        spec_atoi(spec_digits(n as nat)) == Some(n),
{
    let d = spec_digits(n as nat);
    lemma_digits_shape(n as nat);
    lemma_digits_value(n as nat);
    lemma_digit_run_full(d);
    assert(is_digit(d[0]));
    assert(d.take(d.len() as int) =~= d);
}

/// Appends the digits of `n` to `out`.
pub fn push_decimal(out: &mut Vec<u8>, n: u64)
    ensures
        final(out)@ == old(out)@ + spec_digits(n as nat),
    decreases n,
{
    if n >= 10 {
        push_decimal(out, n / 10);
    }
    let digit: u8 = (n % 10) as u8;
    out.push(0x30u8 + digit);
    proof {
        if n >= 10 {
            assert(final(out)@ =~= old(out)@ + spec_digits(n as nat));
        } else {
            assert(final(out)@ =~= old(out)@ + spec_digits(n as nat));
        }
    }
}

} // verus!
