//! Saturating and rounding arithmetic used throughout the address search.

use vstd::prelude::*;

verus! {

/// Smallest multiple of `multiple` that is at least `number`
/// (with `multiple == 0` treated as "no rounding").
pub open spec fn spec_round_up(number: int, multiple: int) -> int {
    if multiple == 0 {
        number
    } else if number % multiple == 0 {
        number
    } else {
        number + multiple - number % multiple
    }
}

/// Largest multiple of `multiple` that is at most `number`
/// (with `multiple == 0` treated as "no rounding").
pub open spec fn spec_round_down(number: int, multiple: int) -> int {
    if multiple == 0 {
        number
    } else {
        number - number % multiple
    }
}

/// Addition capped at the machine word's maximum.
pub open spec fn spec_add_cap(a: int, b: int) -> int {
    if a + b > usize::MAX {
        usize::MAX as int
    } else {
        a + b
    }
}

/// Subtraction capped at zero.
pub open spec fn spec_sub_cap(a: int, b: int) -> int {
    if a - b < 0 {
        0
    } else {
        a - b
    }
}

/// Rounding up, capped at the machine word's maximum: near the top of the
/// address space, which the allocator deliberately probes, rounding must
/// saturate rather than wrap.
pub open spec fn spec_round_up_capped(number: int, multiple: int) -> int {
    if spec_round_up(number, multiple) > usize::MAX {
        usize::MAX as int
    } else {
        spec_round_up(number, multiple)
    }
}

/// Rounds up a specified number to the next multiple of `multiple`,
/// saturating at the top of the address space.
pub fn round_up(number: usize, multiple: usize) -> (r: usize)
    ensures
        r == spec_round_up_capped(number as int, multiple as int),
        r >= number,
        multiple != 0 && spec_round_up(number as int, multiple as int) <= usize::MAX ==> r
            % multiple == 0,
{
    if multiple == 0 {
        return number;
    }

    let remainder: usize = number % multiple;
    if remainder == 0 {
        return number;
    }

    proof {
        vstd::arithmetic::div_mod::lemma_fundamental_div_mod(
            number as int,
            multiple as int,
        );
        let q = number as int / multiple as int;
        vstd::arithmetic::div_mod::lemma_div_pos_is_pos(number as int, multiple as int);
        assert(number - remainder == q * multiple) by {
            assert(multiple as int * q == q * multiple as int) by (nonlinear_arith);
        }
        assert(q * multiple as int >= 0) by (nonlinear_arith)
            requires
                q >= 0,
                multiple as int > 0,
        ;
        assert(number - remainder + multiple == (q + 1) * multiple) by {
            assert((q + 1) * multiple as int == q * multiple as int + multiple as int)
                by (nonlinear_arith);
        }
        vstd::arithmetic::div_mod::lemma_mod_multiples_basic(q + 1, multiple as int);
    }

    if number - remainder > usize::MAX - multiple {
        return usize::MAX;
    }

    number - remainder + multiple
}

/// Rounds down a specified number to the previous multiple of `multiple`.
pub fn round_down(number: usize, multiple: usize) -> (r: usize)
    ensures
        r == spec_round_down(number as int, multiple as int),
        r <= number,
        multiple != 0 ==> r % multiple == 0,
{
    if multiple == 0 {
        return number;
    }

    let remainder: usize = number % multiple;
    if remainder == 0 {
        return number;
    }

    proof {
        vstd::arithmetic::div_mod::lemma_fundamental_div_mod(
            number as int,
            multiple as int,
        );
        let q = number as int / multiple as int;
        assert(number - remainder == q * multiple) by {
            assert(multiple as int * q == q * multiple as int) by (nonlinear_arith);
        }
        vstd::arithmetic::div_mod::lemma_div_pos_is_pos(number as int, multiple as int);
        vstd::arithmetic::div_mod::lemma_mod_multiples_basic(q, multiple as int);
    }
    number - remainder
}

/// Returns the smaller of the two values.
pub fn min(a: usize, b: usize) -> (r: usize)
    ensures
        r == if a <= b { a as int } else { b as int },
{
    if a <= b {
        a
    } else {
        b
    }
}

/// Adds the two values, but caps the result at the maximum value if it overflows.
pub fn add_with_overflow_cap(a: usize, b: usize) -> (r: usize)
    ensures
        r == spec_add_cap(a as int, b as int),
{
    a.saturating_add(b)
}

/// Subtracts the two values, but caps the result at zero if it underflows.
pub fn subtract_with_underflow_cap(a: usize, b: usize) -> (r: usize)
    ensures
        r == spec_sub_cap(a as int, b as int),
{
    a.saturating_sub(b)
}

/// Rounding up is idempotent: rounding an already rounded number changes nothing.
pub proof fn lemma_round_up_idempotent(n: int, m: int)
    requires
        m >= 0,
        0 <= n <= usize::MAX,
    ensures
        spec_round_up_capped(spec_round_up_capped(n, m), m) == spec_round_up_capped(n, m),
{
    if m != 0 && n % m != 0 {
        vstd::arithmetic::div_mod::lemma_fundamental_div_mod(n, m);
        let q = n / m;
        assert(n + m - n % m == (q + 1) * m) by {
            assert(m * q == q * m) by (nonlinear_arith);
            assert((q + 1) * m == q * m + m) by (nonlinear_arith);
        }
        vstd::arithmetic::div_mod::lemma_mod_multiples_basic(q + 1, m);
        if spec_round_up(n, m) > usize::MAX {
            // The first rounding saturates; rounding the cap stays at the cap.
            if usize::MAX as int % m != 0 {
                vstd::arithmetic::div_mod::lemma_mod_bound(usize::MAX as int, m);
            }
        }
    }
}

/// Saturation never exceeds the exact sum: adding a delta with a cap and
/// subtracting the same delta with a floor stays bounded by what plain
/// arithmetic would give, as long as the subtraction does not bottom out
/// (for `b > c` the floored subtraction loses less than the addition gains).
pub proof fn lemma_saturation_never_exceeds(a: int, b: int, c: int)
    requires
        0 <= a,
        0 <= b,
        b <= c,
        a <= usize::MAX,
        c <= usize::MAX,
    ensures
        spec_add_cap(a, b) + spec_sub_cap(c, b) <= a + c,
{
}

} // verus!
