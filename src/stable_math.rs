use vstd::arithmetic::power::pow;
use vstd::prelude::*;

use crate::errors::SwapSimulationError;
use crate::u256::{fits_u256, U256};

verus! {

/// 10^18, the fixed scale of the stable curve.
pub open spec fn e18() -> nat {
    1_000_000_000_000_000_000
}

/// 10^n.
pub open spec fn pow10(n: nat) -> int {
    pow(10, n)
}

/// `a * b / c` rounded down, or `None` when `a * b` does not fit in 256 bits.
pub open spec fn mul_div(a: nat, b: nat, c: nat) -> Option<nat>
    recommends
        c != 0,
{
    if fits_u256(a * b as int) {
        Some(a * b / c)
    } else {
        None
    }
}

/// The value carried by a computation that yields a `U256` or overflows.
pub open spec fn opt_value(r: Option<U256>) -> Option<nat> {
    match r {
        Some(v) => Some(v@),
        None => None,
    }
}

/// An amount with `decimals` decimals rescaled to 18 decimals.
pub open spec fn adjust_spec(amount: nat, decimals: nat) -> Option<nat> {
    if fits_u256(pow10(decimals)) {
        mul_div(amount, e18(), pow10(decimals) as nat)
    } else {
        None
    }
}

/// An amount with 18 decimals rescaled to `decimals` decimals.
pub open spec fn unadjust_spec(amount: nat, decimals: nat) -> Option<nat> {
    if fits_u256(pow10(decimals)) {
        mul_div(amount, pow10(decimals) as nat, e18())
    } else {
        None
    }
}

/// The curve's invariant `x*y^2 + y*x^2` on 18-decimal amounts, each
/// product scaled back by 10^18.
pub open spec fn f_spec(x: nat, y: nat) -> Option<nat> {
    match (mul_div(x, x, e18()), mul_div(y, y, e18())) {
        (Some(xx), Some(yy)) => match (mul_div(x, yy, e18()), mul_div(y, xx, e18())) {
            (Some(p), Some(q)) => if fits_u256(p + q as int) {
                Some(p + q)
            } else {
                None
            },
            _ => None,
        },
        _ => None,
    }
}

/// The derivative term `3*x^2*y + y^2` that scales each solver step.
pub open spec fn d_spec(x: nat, y: nat) -> Option<nat> {
    match (mul_div(x, x, e18()), mul_div(y, y, e18())) {
        (Some(xx), Some(yy)) => match mul_div(xx, y, e18()) {
            Some(t) => if fits_u256(3 * t + yy as int) {
                Some(3 * t + yy)
            } else {
                None
            },
            None => None,
        },
        _ => None,
    }
}

/// One Newton-Raphson step towards the `y` with `f_spec(x0, y) == xy`: `y`
/// moves by the gap in the invariant, scaled by 10^18 and divided by
/// `d_spec(x0, y)`; a step down stops at zero.
pub open spec fn newton_step(x0: nat, xy: nat, y: nat) -> Result<nat, SwapSimulationError> {
    match f_spec(x0, y) {
        None => Err(SwapSimulationError::Overflow),
        Some(k) => {
            let gap: nat = if k < xy {
                (xy - k) as nat
            } else {
                (k - xy) as nat
            };
            if !fits_u256(gap * e18() as int) {
                Err(SwapSimulationError::Overflow)
            } else {
                match d_spec(x0, y) {
                    None => Err(SwapSimulationError::Overflow),
                    Some(d) => if d == 0 {
                        Err(SwapSimulationError::DivisionByZero)
                    } else {
                        let dy = gap * e18() / d;
                        if k < xy {
                            if fits_u256(y + dy as int) {
                                Ok(y + dy)
                            } else {
                                Err(SwapSimulationError::Overflow)
                            }
                        } else if dy >= y {
                            Ok(0)
                        } else {
                            Ok((y - dy) as nat)
                        }
                    },
                }
            }
        },
    }
}

/// Whether two iterates differ by at most one unit.
pub open spec fn close(a: nat, b: nat) -> bool {
    if a > b {
        a - b <= 1
    } else {
        b - a <= 1
    }
}

/// The solver: at most `rounds` Newton steps from `y`, stopping at the first
/// step that moves by at most one unit; after the last round the last
/// iterate is returned as it stands.
pub open spec fn solve_y(x0: nat, xy: nat, y: nat, rounds: nat) -> Result<
    nat,
    SwapSimulationError,
>
    decreases rounds,
{
    if rounds == 0 {
        Ok(y)
    } else {
        match newton_step(x0, xy, y) {
            Err(e) => Err(e),
            Ok(next) => if close(next, y) {
                Ok(next)
            } else {
                solve_y(x0, xy, next, (rounds - 1) as nat)
            },
        }
    }
}

/// The number of solver rounds.
pub open spec fn solver_rounds() -> nat {
    255
}

/// Output of a swap on the stable curve: the amounts are rescaled to 18
/// decimals, the new output reserve is solved for so that the invariant of
/// the reserves is kept, and the drop of the output reserve is rescaled back.
pub open spec fn stable_amount_out(
    amount_in: nat,
    reserve_in: nat,
    reserve_out: nat,
    decimals_in: nat,
    decimals_out: nat,
) -> Result<nat, SwapSimulationError> {
    let xy = match (adjust_spec(reserve_in, decimals_in), adjust_spec(reserve_out, decimals_out)) {
        (Some(x), Some(y)) => f_spec(x, y),
        _ => None,
    };
    match (
        xy,
        adjust_spec(amount_in, decimals_in),
        adjust_spec(reserve_in, decimals_in),
        adjust_spec(reserve_out, decimals_out),
    ) {
        (Some(xy), Some(a), Some(x), Some(y)) => if !fits_u256(a + x as int) {
            Err(SwapSimulationError::Overflow)
        } else {
            match solve_y(a + x, xy, y, solver_rounds()) {
                Err(e) => Err(e),
                Ok(y_new) => if y_new > y {
                    Err(SwapSimulationError::Overflow)
                } else {
                    match unadjust_spec((y - y_new) as nat, decimals_out) {
                        Some(out) => Ok(out),
                        None => Err(SwapSimulationError::Overflow),
                    }
                },
            }
        },
        _ => Err(SwapSimulationError::Overflow),
    }
}

/// `a * b / c`, rounded down; `None` when `a * b` does not fit in 256 bits.
pub fn mul_div_exec(a: U256, b: U256, c: U256) -> (r: Option<U256>)
    requires
        c@ != 0,
    ensures
        opt_value(r) == mul_div(a@, b@, c@),
{
    match a.checked_mul(b) {
        Some(p) => Some(p.div(c)),
        None => None,
    }
}

/// A stable swap never pays out more than the output reserve.
pub proof fn lemma_stable_out_bounded(
    amount_in: nat,
    reserve_in: nat,
    reserve_out: nat,
    decimals_in: nat,
    decimals_out: nat,
)
    requires
        stable_amount_out(amount_in, reserve_in, reserve_out, decimals_in, decimals_out) is Ok,
    ensures
        stable_amount_out(amount_in, reserve_in, reserve_out, decimals_in, decimals_out)->Ok_0
            <= reserve_out,
{
    let p = pow10(decimals_out);
    vstd::arithmetic::power::lemma_pow_positive(10, decimals_out);
    let ro_adj = adjust_spec(reserve_out, decimals_out)->Some_0;
    let out = stable_amount_out(amount_in, reserve_in, reserve_out, decimals_in, decimals_out)->Ok_0;
    let e = e18() as int;
    let x_adj = adjust_spec(reserve_in, decimals_in)->Some_0;
    let a_adj = adjust_spec(amount_in, decimals_in)->Some_0;
    let xy = f_spec(x_adj, ro_adj)->Some_0;
    let y_new = solve_y(a_adj + x_adj, xy, ro_adj, solver_rounds())->Ok_0;
    let w = (ro_adj - y_new) as nat;
    assert(w <= ro_adj);
    assert(ro_adj == (reserve_out * e18()) / (p as nat));
    assert(out == (w * (p as nat)) / e18());
    let ro = reserve_out as int;
    let ra = ro_adj as int;
    let wi = w as int;
    vstd::arithmetic::div_mod::lemma_fundamental_div_mod(ro * e, p);
    vstd::arithmetic::div_mod::lemma_mod_bound(ro * e, p);
    assert(ra * p <= ro * e) by (nonlinear_arith)
        requires
            ro * e == p * ((ro * e) / p) + (ro * e) % p,
            (ro * e) % p >= 0,
            ra == (ro * e) / p,
    ;
    assert(wi * p <= ro * e) by (nonlinear_arith)
        requires
            ra * p <= ro * e,
            wi <= ra,
            p > 0,
    ;
    vstd::arithmetic::div_mod::lemma_div_is_ordered(wi * p, ro * e, e);
    vstd::arithmetic::div_mod::lemma_div_multiples_vanish(ro, e);
    assert(ro * e == e * ro) by (nonlinear_arith);
}

} // verus!
