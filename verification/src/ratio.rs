//! Whole-number percentages: a ratio scaled to a hundred and rounded to the
//! nearest integer, a tie going to the even neighbour.

use vstd::prelude::*;
use vstd::arithmetic::div_mod::lemma_fundamental_div_mod;
use vstd::string::*;
use crate::text::{decimal, lemma_decimal_len_small, push_decimal, right_align, right_aligned};

verus! {

/// The integer nearest to `num / den`; when `num / den` lies exactly halfway
/// between two integers, the even one.
pub open spec fn nearest(num: nat, den: nat) -> nat
    recommends
        den > 0,
{
    let floor = num / den;
    let rest = num % den;
    if 2 * rest < den {
        floor
    } else if 2 * rest > den {
        floor + 1
    } else if floor % 2 == 0 {
        floor
    } else {
        floor + 1
    }
}

/// `part` as a rounded percentage of `whole`. Nothing is a share of an empty
/// whole: the percentage of anything in zero is zero.
pub open spec fn percent(part: nat, whole: nat) -> nat {
    if whole == 0 {
        0
    } else {
        nearest(100 * part, whole)
    }
}

/// A percentage as it is displayed: the numeral right-aligned in three
/// characters, then a percent sign. A numeral of more than three digits is
/// written out in full.
pub open spec fn percent_text(part: nat, whole: nat) -> Seq<char> {
    right_aligned(decimal(percent(part, whole)), 3).push('%')
}

/// `nearest` is within half a unit of the exact quotient, and on a tie it is
/// even.
pub proof fn lemma_nearest_is_closest(num: nat, den: nat)
    requires
        den > 0,
    ensures
        -(den as int) <= 2 * (num - nearest(num, den) * den) <= den,
        2 * (num - nearest(num, den) * den) == den || 2 * (num - nearest(num, den) * den) == -(
        den as int) ==> nearest(num, den) % 2 == 0,
{
    let floor = num / den;
    let rest = num % den;
    lemma_fundamental_div_mod(num as int, den as int);
    assert(num == den * floor + rest);
    assert((floor + 1) * den == floor * den + den) by (nonlinear_arith);
    assert(den * floor == floor * den) by (nonlinear_arith);
}

/// No other integer is as close to the exact quotient, ties aside: whatever is
/// strictly within half a unit of `num / den` is `nearest(num, den)`.
pub proof fn lemma_nearest_is_unique(num: nat, den: nat, k: nat)
    requires
        den > 0,
        -(den as int) < 2 * (num - k * den) < den,
    ensures
        k == nearest(num, den),
{
    let n = nearest(num, den);
    lemma_nearest_is_closest(num, den);
    // Two distinct integers cannot both be within half a unit of one quotient
    // unless one of them sits exactly on the tie.
    if k < n {
        assert(n * den - k * den >= den) by (nonlinear_arith)
            requires
                k < n,
                den > 0,
        ;
    } else if k > n {
        assert(k * den - n * den >= den) by (nonlinear_arith)
            requires
                k > n,
                den > 0,
        ;
    }
}

/// An exact quotient is its own rounding.
pub proof fn lemma_nearest_exact(k: nat, den: nat)
    requires
        den > 0,
    ensures
        nearest(k * den, den) == k,
{
    lemma_nearest_is_unique(k * den, den, k);
}

/// A part of a whole is at most a hundred percent of it, and all of it is
/// exactly a hundred.
pub proof fn lemma_percent_of_part(part: nat, whole: nat)
    requires
        part <= whole,
    ensures
        percent(part, whole) <= 100,
        whole > 0 ==> percent(whole, whole) == 100,
        percent(0, whole) == 0,
{
    if whole > 0 {
        let p = percent(part, whole);
        lemma_nearest_is_closest(100 * part, whole);
        if p > 100 {
            assert(p * whole >= 101 * whole) by (nonlinear_arith)
                requires
                    p >= 101,
                    whole > 0,
            ;
        }
        lemma_nearest_exact(100, whole);
        lemma_nearest_exact(0, whole);
        assert(0 * whole == 0) by (nonlinear_arith);
    }
}

/// `part` as a rounded percentage of `whole`.
pub fn percent_of(part: u64, whole: u64) -> (p: u128)
    ensures
        p == percent(part as nat, whole as nat),
{
    if whole == 0 {
        return 0;
    }
    let scaled: u128 = 100 * (part as u128);
    let den: u128 = whole as u128;
    let floor: u128 = scaled / den;
    let rest: u128 = scaled % den;
    proof {
        lemma_fundamental_div_mod(scaled as int, den as int);
        assert(floor <= scaled) by (nonlinear_arith)
            requires
                floor == scaled / den,
                den > 0,
        ;
    }
    if 2 * rest < den {
        floor
    } else if 2 * rest > den {
        floor + 1
    } else if floor % 2 == 0 {
        floor
    } else {
        floor + 1
    }
}

/// The displayed percentage of a part of a whole is exactly four characters
/// wide.
pub proof fn lemma_percent_text_width(part: nat, whole: nat)
    requires
        part <= whole,
    ensures
        percent_text(part, whole).len() == 4,
{
    lemma_percent_of_part(part, whole);
    lemma_decimal_len_small(percent(part, whole));
}

/// Renders `part` as a percentage of `whole`, as it is displayed.
pub fn percent_string(part: u64, whole: u64) -> (out: String)
    ensures
        out@ == percent_text(part as nat, whole as nat),
{
    let mut numeral = String::new();
    push_decimal(&mut numeral, percent_of(part, whole));
    assert(numeral@ =~= decimal(percent(part as nat, whole as nat)));
    let mut out = right_align(numeral.as_str(), 3);
    proof {
        reveal_strlit("%");
    }
    out.append("%");
    assert(out@ =~= percent_text(part as nat, whole as nat));
    out
}

} // verus!
