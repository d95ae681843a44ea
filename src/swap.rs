//! Constant-product swap arithmetic: output amounts, the tolerance band on the
//! product invariant, and the fee.
use vstd::prelude::*;
use crate::error::AmmError;
use crate::instruction::Direction;
use crate::state::AmmPool;

verus! {

/// Fee rates are parts of this many.
pub const PERCENT_MUL: u64 = 1000000;

/// What a trade of `input` pays out when the in-side reserve is `reserve_in` and the
/// out-side reserve `reserve_out`: the out side keeps `floor(k / (reserve_in + input))`
/// of the product `k = reserve_in * reserve_out`, and the rest is paid out.
pub open spec fn constant_product_output(input: int, reserve_in: int, reserve_out: int) -> int {
    reserve_out - (reserve_in * reserve_out) / (reserve_in + input)
}

/// The result of pricing a trade: a zero input is refused with `InvalidInput`, an
/// output that would take the whole out-side reserve with `CalculationError`.
pub open spec fn swap_output(input: u64, reserve_in: u64, reserve_out: u64) -> Result<u64, AmmError> {
    if input == 0 {
        Err(AmmError::InvalidInput)
    } else if constant_product_output(input as int, reserve_in as int, reserve_out as int)
        >= reserve_out {
        Err(AmmError::CalculationError)
    } else {
        Ok(constant_product_output(input as int, reserve_in as int, reserve_out as int) as u64)
    }
}

proof fn lemma_output_bounds(input: u64, reserve_in: u64, reserve_out: u64)
    requires
        input > 0,
    ensures
        0 <= (reserve_in as int * reserve_out as int) / (reserve_in as int + input as int)
            <= reserve_out,
        reserve_in as int * reserve_out as int <= u128::MAX,
{
    let a = reserve_in as int;
    let b = reserve_out as int;
    let c = a + input as int;
    assert(a * b <= u128::MAX) by (nonlinear_arith)
        requires
            0 <= a <= u64::MAX,
            0 <= b <= u64::MAX,
    ;
    assert(a * b <= c * b) by (nonlinear_arith)
        requires
            0 <= a <= c,
            0 <= b,
    ;
    vstd::arithmetic::div_mod::lemma_div_is_ordered(a * b, c * b, c);
    vstd::arithmetic::div_mod::lemma_div_multiples_vanish(b, c);
    assert(c * b == b * c) by (nonlinear_arith);
    assert(a * b >= 0) by (nonlinear_arith)
        requires
            0 <= a,
            0 <= b,
    ;
    vstd::arithmetic::div_mod::lemma_div_pos_is_pos(a * b, c);
}

/// Prices a trade of `amount` against reserves `reserve_in` / `reserve_out`.
fn constant_product_swap(amount: u64, reserve_in: u64, reserve_out: u64) -> (r: Result<
    u64,
    AmmError,
>)
    ensures
        r == swap_output(amount, reserve_in, reserve_out),
        r is Ok ==> r->Ok_0 < reserve_out,
{
    if amount == 0 {
        return Err(AmmError::InvalidInput);
    }
    proof {
        lemma_output_bounds(amount, reserve_in, reserve_out);
    }
    let k: u128 = (reserve_in as u128) * (reserve_out as u128);
    let changed: u128 = reserve_in as u128 + amount as u128;
    let kept: u128 = k / changed;
    let out: u128 = reserve_out as u128 - kept;
    if out >= reserve_out as u128 {
        return Err(AmmError::CalculationError);
    }
    Ok(out as u64)
}

/// Output in asset B of paying `amount` of asset A into a pool whose live
/// reserves are `reserve_a` and `reserve_b`.
pub fn calculate_amount_a2b(amount: u64, reserve_a: u64, reserve_b: u64) -> (r: Result<
    u64,
    AmmError,
>)
    ensures
        r == swap_output(amount, reserve_a, reserve_b),
        r is Ok ==> r->Ok_0 < reserve_b,
{
    constant_product_swap(amount, reserve_a, reserve_b)
}

/// Output in asset A of paying `amount` of asset B into a pool whose live
/// reserves are `reserve_a` and `reserve_b`.
pub fn calculate_amount_b2a(amount: u64, reserve_a: u64, reserve_b: u64) -> (r: Result<
    u64,
    AmmError,
>)
    ensures
        r == swap_output(amount, reserve_b, reserve_a),
        r is Ok ==> r->Ok_0 < reserve_a,
{
    constant_product_swap(amount, reserve_b, reserve_a)
}

/// Live reserves (A, B) once a trade of `amount` in `direction` that pays out
/// `output` has settled.
pub open spec fn reserves_after(
    direction: Direction,
    amount: u64,
    output: u64,
    reserve_a: u64,
    reserve_b: u64,
) -> (int, int) {
    match direction {
        Direction::A2B => (reserve_a + amount, reserve_b - output),
        Direction::B2A => (reserve_a - output, reserve_b + amount),
    }
}

/// Distance between two integers.
pub open spec fn drift(x: int, y: int) -> int {
    if x >= y {
        x - y
    } else {
        y - x
    }
}

/// The tolerance check of a trade: the settled reserves must be non-negative with a
/// product that fits 128 bits (else `CalculationError`), and that product may differ
/// from the checkpoint product `ka * kb` by at most `tolerance` (else `OutOfTolerance`).
pub open spec fn tolerance_check(
    ka: u64,
    kb: u64,
    tolerance: u64,
    direction: Direction,
    amount: u64,
    output: u64,
    reserve_a: u64,
    reserve_b: u64,
) -> Result<(), AmmError> {
    let (na, nb) = reserves_after(direction, amount, output, reserve_a, reserve_b);
    if na < 0 || nb < 0 || na * nb > u128::MAX {
        Err(AmmError::CalculationError)
    } else if drift(na * nb, ka * kb) > tolerance {
        Err(AmmError::OutOfTolerance)
    } else {
        Ok(())
    }
}

/// Checks that a trade keeps the product invariant within the pool's tolerance
/// of its checkpoint `pool.ka * pool.kb`.
pub fn check_amount_tolerance(
    pool: &AmmPool,
    direction: Direction,
    amount: u64,
    amount_transfer: u64,
    reserve_a: u64,
    reserve_b: u64,
) -> (r: Result<(), AmmError>)
    ensures
        r == tolerance_check(
            pool.ka,
            pool.kb,
            pool.tolerance,
            direction,
            amount,
            amount_transfer,
            reserve_a,
            reserve_b,
        ),
        r is Ok ==> ({
            let (na, nb) = reserves_after(direction, amount, amount_transfer, reserve_a, reserve_b);
            drift(na * nb, pool.ka * pool.kb) <= pool.tolerance
        }),
{
    let ka = pool.ka as u128;
    let kb = pool.kb as u128;
    proof {
        lemma_output_bounds(1, pool.ka, pool.kb);
    }
    let k_origin: u128 = ka * kb;
    let ka_new: u128;
    let kb_new: u128;
    match direction {
        Direction::A2B => {
            if amount_transfer > reserve_b {
                return Err(AmmError::CalculationError);
            }
            ka_new = reserve_a as u128 + amount as u128;
            kb_new = (reserve_b - amount_transfer) as u128;
        },
        Direction::B2A => {
            if amount_transfer > reserve_a {
                return Err(AmmError::CalculationError);
            }
            ka_new = (reserve_a - amount_transfer) as u128;
            kb_new = reserve_b as u128 + amount as u128;
        },
    }
    let k_new: u128 = match ka_new.checked_mul(kb_new) {
        Some(k) => k,
        None => {
            return Err(AmmError::CalculationError);
        },
    };
    let distance: u128 = if k_origin > k_new {
        k_origin - k_new
    } else {
        k_new - k_origin
    };
    if distance > pool.tolerance as u128 {
        return Err(AmmError::OutOfTolerance);
    }
    Ok(())
}

/// The fee on a trade that pays out `output` at `fee_rate` parts per `PERCENT_MUL`.
pub open spec fn fee_of(output: u64, fee_rate: u64) -> int {
    (output as int * fee_rate as int) / (PERCENT_MUL as int)
}

/// `floor(output * fee_rate / PERCENT_MUL)`; `CalculationError` where that does not
/// fit 64 bits.
pub fn fee_amount(output: u64, fee_rate: u64) -> (r: Result<u64, AmmError>)
    ensures
        fee_of(output, fee_rate) <= u64::MAX ==> r == Ok::<u64, AmmError>(
            fee_of(output, fee_rate) as u64,
        ),
        fee_of(output, fee_rate) > u64::MAX ==> r == Err::<u64, AmmError>(
            AmmError::CalculationError,
        ),
{
    proof {
        lemma_output_bounds(1, output, fee_rate);
    }
    let product: u128 = (output as u128) * (fee_rate as u128);
    let fee: u128 = product / (PERCENT_MUL as u128);
    if fee > u64::MAX as u128 {
        return Err(AmmError::CalculationError);
    }
    Ok(fee as u64)
}

} // verus!
