//! The swap engine: prices a one-directional trade with the zero-fee
//! constant-product formula and proves that no single trade can drain a
//! reserve or shrink the reserve product.

use vstd::prelude::*;

use vstd::arithmetic::div_mod::lemma_fundamental_div_mod;
use vstd::arithmetic::div_mod::lemma_mod_division_less_than_divisor;
use vstd::arithmetic::div_mod::lemma_multiply_divide_lt;
use vstd::arithmetic::mul::lemma_mul_strict_inequality;

use crate::Balance;
use crate::pool::AmmError;
use crate::pool::Pool;
use vstd::arithmetic::mul::lemma_mul_is_commutative;

verus! {

/// The output amount of a zero-fee constant-product trade:
/// `floor(amount_in * reserve_out / (reserve_in + amount_in))`.
pub open spec fn spec_swap_out(amount_in: int, reserve_in: int, reserve_out: int) -> int {
    (amount_in * reserve_out) / (reserve_in + amount_in)
}

/// Both intermediate values of the pricing formula fit in `Balance`.
pub open spec fn swap_fits(amount_in: int, reserve_in: int, reserve_out: int) -> bool {
    &&& amount_in * reserve_out <= Balance::MAX
    &&& reserve_in + amount_in <= Balance::MAX
}

/// The output of a trade is non-negative and strictly smaller than the
/// outgoing reserve: one swap can never fully drain the pool.
pub proof fn lemma_swap_output_bound(amount_in: int, reserve_in: int, reserve_out: int)
    requires
        amount_in > 0,
        reserve_in > 0,
        reserve_out > 0,
    ensures
        0 <= spec_swap_out(amount_in, reserve_in, reserve_out) < reserve_out,
{
    let d = reserve_in + amount_in;
    assert(amount_in * reserve_out >= 0) by (nonlinear_arith)
        requires
            amount_in > 0,
            reserve_out > 0,
    ;
    assert(spec_swap_out(amount_in, reserve_in, reserve_out) >= 0) by {
        lemma_fundamental_div_mod(amount_in * reserve_out, d);
        lemma_mod_division_less_than_divisor(amount_in * reserve_out, d);
        assert((amount_in * reserve_out) / d >= 0) by (nonlinear_arith)
            requires
                d > 0,
                amount_in * reserve_out >= 0,
                amount_in * reserve_out == d * ((amount_in * reserve_out) / d) + (amount_in
                    * reserve_out) % d,
                0 <= (amount_in * reserve_out) % d < d,
        ;
    }
    lemma_mul_strict_inequality(amount_in, d, reserve_out);
    lemma_multiply_divide_lt(amount_in * reserve_out, d, reserve_out);
}

/// Rounding favors the pool: after a trade, the product of the reserves is at
/// least what it was before.
pub proof fn lemma_swap_preserves_product(amount_in: int, reserve_in: int, reserve_out: int)
    requires
        amount_in > 0,
        reserve_in > 0,
        reserve_out > 0,
    ensures
        (reserve_in + amount_in) * (reserve_out - spec_swap_out(amount_in, reserve_in, reserve_out))
            >= reserve_in * reserve_out,
{
    let d = reserve_in + amount_in;
    let x = amount_in * reserve_out;
    let q = x / d;
    lemma_fundamental_div_mod(x, d);
    lemma_mod_division_less_than_divisor(x, d);
    assert(d * (reserve_out - q) >= reserve_in * reserve_out) by (nonlinear_arith)
        requires
            d == reserve_in + amount_in,
            x == amount_in * reserve_out,
            x == d * q + x % d,
            x % d >= 0,
    ;
}

/// The pool after one attempted trade: amount in on one side, the
/// constant-product output out on the other. A trade the engine would
/// reject — a zero input, an empty reserve, or a value that does not fit in
/// `Balance` — leaves the pool exactly as it was.
pub open spec fn spec_swap_step(p: Pool, a_for_b: bool, amount: int) -> Pool {
    let reserve_in = if a_for_b {
        p.reserve_a as int
    } else {
        p.reserve_b as int
    };
    let reserve_out = if a_for_b {
        p.reserve_b as int
    } else {
        p.reserve_a as int
    };
    if amount > 0 && reserve_in > 0 && reserve_out > 0 && swap_fits(
        amount,
        reserve_in,
        reserve_out,
    ) {
        let out = spec_swap_out(amount, reserve_in, reserve_out);
        if a_for_b {
            Pool {
                reserve_a: (p.reserve_a + amount) as Balance,
                reserve_b: (p.reserve_b - out) as Balance,
                total_shares: p.total_shares,
            }
        } else {
            Pool {
                reserve_a: (p.reserve_a - out) as Balance,
                reserve_b: (p.reserve_b + amount) as Balance,
                total_shares: p.total_shares,
            }
        }
    } else {
        p
    }
}

/// The pool after a whole sequence of attempted trades, applied in order;
/// each entry gives the direction and the input amount.
pub open spec fn spec_swap_trace(p: Pool, trades: Seq<(bool, int)>) -> Pool
    decreases trades.len(),
{
    if trades.len() == 0 {
        p
    } else {
        spec_swap_step(spec_swap_trace(p, trades.drop_last()), trades.last().0, trades.last().1)
    }
}

/// One attempted trade never shrinks the product of the reserves.
pub proof fn lemma_swap_step_preserves_product(p: Pool, a_for_b: bool, amount: int)
    ensures
        spec_swap_step(p, a_for_b, amount).reserve_a * spec_swap_step(
            p,
            a_for_b,
            amount,
        ).reserve_b >= p.reserve_a * p.reserve_b,
{
    let reserve_in: int = if a_for_b {
        p.reserve_a as int
    } else {
        p.reserve_b as int
    };
    let reserve_out: int = if a_for_b {
        p.reserve_b as int
    } else {
        p.reserve_a as int
    };
    if amount > 0 && reserve_in > 0 && reserve_out > 0 && swap_fits(
        amount,
        reserve_in,
        reserve_out,
    ) {
        lemma_swap_output_bound(amount, reserve_in, reserve_out);
        lemma_swap_preserves_product(amount, reserve_in, reserve_out);
        if !a_for_b {
            let out = spec_swap_out(amount, reserve_in, reserve_out);
            lemma_mul_is_commutative(reserve_in + amount, reserve_out - out);
            lemma_mul_is_commutative(p.reserve_a as int, p.reserve_b as int);
        }
    }
}

/// Law: over any sequence of trades, however long and in whatever
/// directions, the product of the reserves never decreases — rounding
/// always favors the pool.
pub proof fn lemma_swap_trace_preserves_product(p: Pool, trades: Seq<(bool, int)>)
    ensures
        spec_swap_trace(p, trades).reserve_a * spec_swap_trace(p, trades).reserve_b
            >= p.reserve_a * p.reserve_b,
    decreases trades.len(),
{
    if trades.len() > 0 {
        lemma_swap_trace_preserves_product(p, trades.drop_last());
        lemma_swap_step_preserves_product(
            spec_swap_trace(p, trades.drop_last()),
            trades.last().0,
            trades.last().1,
        );
    }
}

/// Prices a one-directional trade. Returns the output amount without touching
/// any state: the caller commits `reserve_in + amount_in` and
/// `reserve_out - amount_out` once custody of the input is settled.
///
/// Succeeds exactly when the input is positive, both reserves are positive,
/// and the intermediate values fit in `Balance`; a zero reserve is reported
/// as an arithmetic failure rather than risking a division by zero.
pub fn swap(amount_in: Balance, reserve_in: Balance, reserve_out: Balance) -> (r: Result<
    Balance,
    AmmError,
>)
    ensures
        match r {
            Ok(amount_out) => {
                &&& amount_in > 0
                &&& reserve_in > 0
                &&& reserve_out > 0
                &&& swap_fits(amount_in as int, reserve_in as int, reserve_out as int)
                &&& amount_out == spec_swap_out(
                    amount_in as int,
                    reserve_in as int,
                    reserve_out as int,
                )
                &&& amount_out < reserve_out
            },
            Err(AmmError::InvalidAmount) => amount_in == 0,
            Err(AmmError::ArithmeticError) => {
                &&& amount_in > 0
                &&& (reserve_in == 0 || reserve_out == 0 || !swap_fits(
                    amount_in as int,
                    reserve_in as int,
                    reserve_out as int,
                ))
            },
            _ => false,
        },
{
    if amount_in == 0 {
        return Err(AmmError::InvalidAmount);
    }
    if reserve_in == 0 || reserve_out == 0 {
        return Err(AmmError::ArithmeticError);
    }
    let numerator = match amount_in.checked_mul(reserve_out) {
        Some(n) => n,
        None => {
            return Err(AmmError::ArithmeticError);
        },
    };
    let denominator = match reserve_in.checked_add(amount_in) {
        Some(d) => d,
        None => {
            return Err(AmmError::ArithmeticError);
        },
    };
    let amount_out = numerator / denominator;
    proof {
        lemma_swap_output_bound(amount_in as int, reserve_in as int, reserve_out as int);
    }
    Ok(amount_out)
}

} // verus!
