//! Theosophic reduction: a number is replaced by the sum of its decimal digits
//! until it no longer exceeds a ceiling.

use vstd::prelude::*;

verus! {

/// The sum of the decimal digits of `n`.
pub open spec fn digit_sum(n: nat) -> nat
    decreases n,
{
    if n == 0 {
        0
    } else {
        n % 10 + digit_sum(n / 10)
    }
}

/// The largest number that a reduction leaves as it is: 9 where `sw_9` is set,
/// 22 where it is not, so that the master numbers 11 and 22 survive.
pub open spec fn ceiling(sw_9: bool) -> nat {
    if sw_9 {
        9
    } else {
        22
    }
}

/// The reduction of `n`: `n` itself while it does not exceed the ceiling,
/// otherwise the reduction of its digit sum.
pub open spec fn reduced(n: nat, sw_9: bool) -> nat
    decreases n,
{
    if n <= ceiling(sw_9) {
        n
    } else {
        proof {
            lemma_digit_sum_decreases(n);
        }
        reduced(digit_sum(n), sw_9)
    }
}

/// No number is smaller than its digit sum.
pub proof fn lemma_digit_sum_bounded(n: nat)
    ensures
        digit_sum(n) <= n,
    decreases n,
{
    if n != 0 {
        lemma_digit_sum_bounded(n / 10);
    }
}

/// A number of two digits or more is larger than its digit sum.
pub proof fn lemma_digit_sum_decreases(n: nat)
    requires
        n >= 10,
    ensures
        digit_sum(n) < n,
{
    lemma_digit_sum_bounded(n / 10);
}

/// A number other than zero has a digit sum other than zero.
pub proof fn lemma_digit_sum_positive(n: nat)
    requires
        n > 0,
    ensures
        digit_sum(n) > 0,
    decreases n,
{
    if n % 10 == 0 {
        lemma_digit_sum_positive(n / 10);
    }
}

/// A reduction never exceeds its ceiling, leaves alone what is already under
/// it, and turns only zero into zero.
pub proof fn lemma_reduced_bounded(n: nat, sw_9: bool)
    ensures
        reduced(n, sw_9) <= ceiling(sw_9),
        n <= ceiling(sw_9) ==> reduced(n, sw_9) == n,
        n > 0 ==> reduced(n, sw_9) > 0,
    decreases n,
{
    if n > ceiling(sw_9) {
        lemma_digit_sum_decreases(n);
        lemma_digit_sum_positive(n);
        lemma_reduced_bounded(digit_sum(n), sw_9);
    }
}

/// Reducing twice is reducing once: every reduction is a fixed point.
pub proof fn lemma_reduced_idempotent(n: nat, sw_9: bool)
    ensures
        reduced(reduced(n, sw_9), sw_9) == reduced(n, sw_9),
{
    lemma_reduced_bounded(n, sw_9);
}

/// The reduction of a number of up to 128 bits, which fits in a byte.
pub(crate) fn reduce_wide(n: u128, sw_9: bool) -> (r: u8)
    ensures
        r == reduced(n as nat, sw_9),
        r <= ceiling(sw_9),
{
    let t: u128 = if sw_9 {
        9
    } else {
        22
    };
    let mut current: u128 = n;
    while current > t
        invariant
            t == ceiling(sw_9),
            reduced(current as nat, sw_9) == reduced(n as nat, sw_9),
        decreases current,
    {
        let mut sum: u128 = 0;
        let mut rest: u128 = current;
        proof {
            lemma_digit_sum_bounded(current as nat);
        }
        while rest > 0
            invariant
                sum + digit_sum(rest as nat) == digit_sum(current as nat),
                digit_sum(current as nat) <= current,
            decreases rest,
        {
            sum = sum + rest % 10;
            rest = rest / 10;
        }
        proof {
            lemma_digit_sum_decreases(current as nat);
        }
        current = sum;
    }
    current as u8
}

/// Reduces `n` by repeated digit sums: to at most 9 where `sw_9` is set, to at
/// most 22 where it is not.
pub fn reduction_theosophique(n: usize, sw_9: bool) -> (r: usize)
    ensures
        r == reduced(n as nat, sw_9),
        r <= ceiling(sw_9),
        n <= ceiling(sw_9) ==> r == n,
        reduced(r as nat, sw_9) == r,
{
    reduce_wide(n as u128, sw_9) as usize
}

} // verus!
