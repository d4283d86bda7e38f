use vstd::prelude::*;

use crate::errors::SwapSimulationError;
use crate::u256::{fits_u256, value_of, U256};

verus! {

/// Output of a constant-product swap: `amount_in` weighted by
/// `fee_numerator / fee_denominator` is added to the input reserve, and the
/// output is what keeps the product of the reserves, rounded down.  Zero when
/// the input or either reserve is zero; `Overflow` when an intermediate
/// product does not fit in 256 bits.
pub open spec fn constant_product_out(
    amount_in: nat,
    reserve_in: nat,
    reserve_out: nat,
    fee_numerator: nat,
    fee_denominator: nat,
) -> Result<nat, SwapSimulationError> {
    let with_fee = amount_in * fee_numerator;
    if amount_in == 0 || reserve_in == 0 || reserve_out == 0 {
        Ok(0)
    } else if !fits_u256(with_fee as int) || !fits_u256(with_fee * reserve_out as int)
        || !fits_u256(reserve_in * fee_denominator as int) || !fits_u256(
        reserve_in * fee_denominator + with_fee as int,
    ) {
        Err(SwapSimulationError::Overflow)
    } else {
        Ok((with_fee * reserve_out) / (reserve_in * fee_denominator + with_fee))
    }
}

/// Computes `constant_product_out` on 256-bit values.
pub fn constant_product_amount_out(
    amount_in: U256,
    reserve_in: U256,
    reserve_out: U256,
    fee_numerator: u64,
    fee_denominator: u64,
) -> (r: Result<U256, SwapSimulationError>)
    requires
        fee_denominator > 0,
    ensures
        value_of(r) == constant_product_out(
            amount_in@,
            reserve_in@,
            reserve_out@,
            fee_numerator as nat,
            fee_denominator as nat,
        ),
{
    if amount_in.is_zero() || reserve_in.is_zero() || reserve_out.is_zero() {
        return Ok(U256::zero());
    }
    let with_fee = match amount_in.checked_mul(U256::from_u64(fee_numerator)) {
        Some(v) => v,
        None => return Err(SwapSimulationError::Overflow),
    };
    let numerator = match with_fee.checked_mul(reserve_out) {
        Some(v) => v,
        None => return Err(SwapSimulationError::Overflow),
    };
    let scaled_reserve = match reserve_in.checked_mul(U256::from_u64(fee_denominator)) {
        Some(v) => v,
        None => return Err(SwapSimulationError::Overflow),
    };
    let denominator = match scaled_reserve.checked_add(with_fee) {
        Some(v) => v,
        None => return Err(SwapSimulationError::Overflow),
    };
    proof {
        assert(scaled_reserve@ > 0) by (nonlinear_arith)
            requires
                scaled_reserve@ == reserve_in@ * fee_denominator,
                reserve_in@ > 0,
                fee_denominator > 0,
        ;
    }
    Ok(numerator.div(denominator))
}

/// A swap of nothing yields nothing, whatever the reserves and the fee.
pub proof fn lemma_zero_in_zero_out(
    reserve_in: nat,
    reserve_out: nat,
    fee_numerator: nat,
    fee_denominator: nat,
)
    ensures
        constant_product_out(0, reserve_in, reserve_out, fee_numerator, fee_denominator) == Ok::<
            nat,
            SwapSimulationError,
        >(0),
{
}

/// A constant-product swap never lowers the product of the reserves: with
/// the input counted at its fee-reduced weight, and so also with the whole
/// input, for a fee that keeps at most the whole input.  The output stays
/// below the output reserve.
pub proof fn lemma_constant_product_invariant(
    amount_in: nat,
    reserve_in: nat,
    reserve_out: nat,
    fee_numerator: nat,
    fee_denominator: nat,
)
    requires
        reserve_in > 0,
        reserve_out > 0,
        0 < fee_denominator,
        fee_numerator <= fee_denominator,
        constant_product_out(amount_in, reserve_in, reserve_out, fee_numerator, fee_denominator) is Ok,
    ensures
        ({
            let out = constant_product_out(
                amount_in,
                reserve_in,
                reserve_out,
                fee_numerator,
                fee_denominator,
            )->Ok_0;
            &&& out < reserve_out
            &&& (reserve_in * fee_denominator + amount_in * fee_numerator) * (reserve_out - out)
                >= reserve_in * fee_denominator * reserve_out
            &&& (reserve_in + amount_in) * (reserve_out - out) >= reserve_in * reserve_out
        }),
{
    let out = constant_product_out(
        amount_in,
        reserve_in,
        reserve_out,
        fee_numerator,
        fee_denominator,
    )->Ok_0;
    if amount_in == 0 {
        assert(out == 0);
        assert(reserve_in * fee_denominator * reserve_out == reserve_in * fee_denominator
            * reserve_out);
        assert((reserve_in + amount_in) * (reserve_out - out) == reserve_in * reserve_out);
        assert((reserve_in * fee_denominator + amount_in * fee_numerator) * (reserve_out - out)
            == reserve_in * fee_denominator * reserve_out) by (nonlinear_arith)
            requires
                amount_in == 0,
                out == 0,
        ;
    } else {
        let w = (amount_in * fee_numerator) as int;
        let s = (reserve_in * fee_denominator) as int;
        let ro = reserve_out as int;
        assert(s > 0) by (nonlinear_arith)
            requires
                s == reserve_in * fee_denominator,
                reserve_in > 0,
                fee_denominator > 0,
        ;
        assert(w >= 0) by (nonlinear_arith)
            requires
                w == amount_in * fee_numerator,
        ;
        let o = out as int;
        assert(o == (w * ro) / (s + w));
        vstd::arithmetic::div_mod::lemma_fundamental_div_mod(w * ro, s + w);
        vstd::arithmetic::div_mod::lemma_mod_bound(w * ro, s + w);
        assert((s + w) * o <= w * ro) by (nonlinear_arith)
            requires
                w * ro == (s + w) * ((w * ro) / (s + w)) + (w * ro) % (s + w),
                (w * ro) % (s + w) >= 0,
                o == (w * ro) / (s + w),
        ;
        assert(o < ro) by (nonlinear_arith)
            requires
                (s + w) * o <= w * ro,
                s > 0,
                w >= 0,
                ro > 0,
        ;
        assert((s + w) * (ro - o) >= s * ro) by (nonlinear_arith)
            requires
                (s + w) * o <= w * ro,
        ;
        assert((reserve_in + amount_in) * fee_denominator >= s + w) by (nonlinear_arith)
            requires
                s == reserve_in * fee_denominator,
                w == amount_in * fee_numerator,
                fee_numerator <= fee_denominator,
        ;
        assert((reserve_in + amount_in) * (ro - o) >= reserve_in * ro) by (nonlinear_arith)
            requires
                (s + w) * (ro - o) >= s * ro,
                (reserve_in + amount_in) * fee_denominator >= s + w,
                s == reserve_in * fee_denominator,
                fee_denominator > 0,
                ro - o > 0,
        ;
    }
}

} // verus!
