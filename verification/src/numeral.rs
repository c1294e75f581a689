//! Decimal numeral rendering for 128-bit constants whose value escapes the
//! native 64-bit numeral path. The backend hands the solver such constants
//! as decimal strings; the functions here produce those digits and are
//! proved to denote exactly the constant's mathematical value.

use vstd::prelude::*;

verus! {

/// The canonical decimal digits of an unsigned value, most significant
/// first, as ASCII bytes: no sign, no leading zero (a lone zero for zero).
pub open spec fn dec_rep(n: nat) -> Seq<u8>
    decreases n,
{
    if n < 10 {
        seq![(0x30 + n) as u8]
    } else {
        dec_rep(n / 10).push((0x30 + n % 10) as u8)
    }
}

/// The canonical decimal numeral of a signed value: the digits of the
/// magnitude, preceded by an ASCII minus sign when the value is negative.
pub open spec fn dec_rep_signed(v: int) -> Seq<u8> {
    if v < 0 {
        seq![0x2du8] + dec_rep((-v) as nat)
    } else {
        dec_rep(v as nat)
    }
}

/// The value an unsigned ASCII digit string denotes.
pub open spec fn digits_value(s: Seq<u8>) -> int
    decreases s.len(),
{
    if s.len() == 0 {
        0
    } else {
        digits_value(s.drop_last()) * 10 + (s.last() - 0x30)
    }
}

/// The value a decimal numeral denotes, minus sign included.
pub open spec fn numeral_value(s: Seq<u8>) -> int {
    if s.len() > 0 && s[0] == 0x2d {
        -digits_value(s.subrange(1, s.len() as int))
    } else {
        digits_value(s)
    }
}

/// The digits of an unsigned value denote that value.
pub proof fn lemma_dec_rep_value(n: nat)
    ensures
        digits_value(dec_rep(n)) == n,
    decreases n,
{
    if n < 10 {
        let s = dec_rep(n);
        assert(s =~= seq![(0x30 + n) as u8]);
        assert(s.drop_last() =~= Seq::<u8>::empty());
        assert(digits_value(s.drop_last()) == 0);
        assert(s.last() == (0x30 + n) as u8);
    } else {
        lemma_dec_rep_value(n / 10);
        let s = dec_rep(n);
        assert(s == dec_rep(n / 10).push((0x30 + n % 10) as u8));
        assert(s.drop_last() =~= dec_rep(n / 10));
        assert(s.last() == (0x30 + n % 10) as u8);
        vstd::arithmetic::div_mod::lemma_fundamental_div_mod(n as int, 10);
    }
}

/// The numeral of a signed value denotes that value.
pub proof fn lemma_dec_rep_signed_value(v: int)
    ensures
        numeral_value(dec_rep_signed(v)) == v,
{
    if v < 0 {
        lemma_dec_rep_value((-v) as nat);
        let s = seq![0x2du8] + dec_rep((-v) as nat);
        assert(s.subrange(1, s.len() as int) =~= dec_rep((-v) as nat));
    } else {
        lemma_dec_rep_value(v as nat);
        assert(dec_rep(v as nat).len() > 0 ==> dec_rep(v as nat)[0] != 0x2d) by {
            if dec_rep(v as nat).len() > 0 {
                lemma_dec_rep_digits(v as nat);
            }
        }
    }
}

/// Every byte of an unsigned decimal representation is an ASCII digit.
pub proof fn lemma_dec_rep_digits(n: nat)
    ensures
        forall|i: int| 0 <= i < dec_rep(n).len() ==> 0x30 <= #[trigger] dec_rep(n)[i] <= 0x39,
    decreases n,
{
    if n < 10 {
        assert(dec_rep(n) =~= seq![(0x30 + n) as u8]);
        assert(forall|i: int|
            0 <= i < dec_rep(n).len() ==> 0x30 <= #[trigger] dec_rep(n)[i] <= 0x39);
    } else {
        lemma_dec_rep_digits(n / 10);
        let s = dec_rep(n);
        assert(s == dec_rep(n / 10).push((0x30 + n % 10) as u8));
        assert forall|i: int| 0 <= i < s.len() implies 0x30 <= #[trigger] s[i] <= 0x39 by {
            if i < s.len() - 1 {
                assert(s[i] == dec_rep(n / 10)[i]);
            } else {
                assert(s[i] == (0x30 + n % 10) as u8);
            }
        }
    }
}

/// The decimal digits of an unsigned 128-bit value, most significant first.
pub fn decimal_digits_u128(v: u128) -> (r: Vec<u8>)
    ensures
        r@ == dec_rep(v as nat),
    decreases v,
{
    if v < 10 {
        let mut r: Vec<u8> = Vec::new();
        r.push(0x30 + (v as u8));
        proof {
            assert(r@ =~= dec_rep(v as nat));
        }
        r
    } else {
        let mut r = decimal_digits_u128(v / 10);
        r.push(0x30 + ((v % 10) as u8));
        proof {
            assert(r@ =~= dec_rep(v as nat));
        }
        r
    }
}

/// The decimal numeral of a signed 128-bit value, minus sign included.
pub fn decimal_digits_i128(v: i128) -> (r: Vec<u8>)
    ensures
        r@ == dec_rep_signed(v as int),
{
    if v >= 0 {
        decimal_digits_u128(v as u128)
    } else {
        // the magnitude, computed without overflowing at the minimum value
        let mag: u128 = ((-(v + 1)) as u128) + 1;
        let digits = decimal_digits_u128(mag);
        let mut r: Vec<u8> = Vec::new();
        r.push(0x2d);
        let mut i: usize = 0;
        while i < digits.len()
            invariant
                i <= digits.len(),
                digits@ == dec_rep(mag as nat),
                r@ == seq![0x2du8] + digits@.subrange(0, i as int),
            decreases digits.len() - i,
        {
            r.push(digits[i]);
            i = i + 1;
            proof {
                assert(r@ =~= seq![0x2du8] + digits@.subrange(0, i as int));
            }
        }
        proof {
            assert(digits@.subrange(0, digits@.len() as int) =~= digits@);
            assert(mag as nat == (-(v as int)) as nat);
            assert(r@ =~= dec_rep_signed(v as int));
        }
        r
    }
}

} // verus!
