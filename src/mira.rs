use vstd::arithmetic::power::{lemma_pow_positive, pow};
use vstd::prelude::*;

use crate::constant_product::{constant_product_amount_out, constant_product_out};
use crate::errors::{ArithmeticError, SwapSimulationError};
use crate::fixed_point::{div_uu, div_uu_outcome};
use crate::ids::{AssetId, ContractId};
use crate::price::Price;
use crate::stable_math::{
    adjust_spec,
    close,
    d_spec,
    e18,
    f_spec,
    mul_div_exec,
    newton_step,
    opt_value,
    pow10,
    solve_y,
    solver_rounds,
    stable_amount_out,
    unadjust_spec,
};
use crate::u256::{fits_u256, value_of, U256};

verus! {

/// The key of a pool in the exchange's contract: its two assets and whether
/// it trades on the stable curve.
pub type PoolId = (AssetId, AssetId, bool);

/// A pool of the Mira exchange, trading either on the constant-product curve
/// (volatile) or on the stable curve.
#[derive(Clone, Copy, Debug)]
pub struct MiraV1 {
    pub address: ContractId,
    pub pool_id: PoolId,
    pub token_0: AssetId,
    pub token_0_decimals: u8,
    pub token_1: AssetId,
    pub token_1_decimals: u8,
    pub reserve_0: u64,
    pub reserve_1: u64,
    /// (lp_fee_volatile, lp_fee_stable, protocol_fee_volatile, protocol_fee_stable)
    pub fee: (u64, u64, u64, u64),
    pub is_stable: bool,
}

/// `10^decimals`, or `None` when it does not fit in 256 bits.
pub open spec fn ten_pow_spec(decimals: nat) -> Option<nat> {
    if fits_u256(pow10(decimals)) {
        Some(pow10(decimals) as nat)
    } else {
        None
    }
}

/// The price of `x` in `y` on the stable curve,
/// `(x^3 + 10^18*x*y) / (y^3 + 10^18*x*y)` on 18-decimal amounts, scaled by
/// 10^18 and shifted by the difference of the decimals.
pub open spec fn stable_price(reserve_x: nat, reserve_y: nat, decimals_x: nat, decimals_y: nat) -> Result<
    nat,
    ArithmeticError,
> {
    match (adjust_spec(reserve_x, decimals_x), adjust_spec(reserve_y, decimals_y)) {
        (Some(x), Some(y)) => {
            let e = e18();
            let exy = e * x * y;
            let numerator = pow(x as int, 3) + exy;
            let denominator = pow(y as int, 3) + exy;
            if !fits_u256(pow(x as int, 3)) || !fits_u256(pow(y as int, 3)) || !fits_u256(
                e * x as int,
            ) || !fits_u256(exy as int) || !fits_u256(numerator) || !fits_u256(denominator)
                || !fits_u256(numerator * e) {
                Err(ArithmeticError::Overflow)
            } else if denominator == 0 {
                Err(ArithmeticError::DivisionByZero)
            } else {
                let price = (numerator * e) / denominator;
                if decimals_x >= decimals_y {
                    match ten_pow_spec((decimals_x - decimals_y) as nat) {
                        Some(p) => if fits_u256(price * p) {
                            Ok((price * p) as nat)
                        } else {
                            Err(ArithmeticError::Overflow)
                        },
                        None => Err(ArithmeticError::Overflow),
                    }
                } else {
                    match ten_pow_spec((decimals_y - decimals_x) as nat) {
                        Some(p) => Ok((price / p as int) as nat),
                        None => Err(ArithmeticError::Overflow),
                    }
                }
            }
        },
        _ => Err(ArithmeticError::Overflow),
    }
}

impl MiraV1 {
    /// Whether the volatile fees keep at most the whole input.
    pub open spec fn fee_valid(&self) -> bool {
        (self.fee.0 + self.fee.2) / 10 <= 10000
    }

    /// Parts per thousand of the input that reach a volatile pool's reserve,
    /// from the sum of the volatile fees (997 for a sum of 300).
    pub open spec fn volatile_fee_multiplier(&self) -> nat {
        ((10000 - (self.fee.0 + self.fee.2) / 10) / 10) as nat
    }

    /// Whether the pool's fees can be used for a swap.
    pub open spec fn swappable(&self) -> bool {
        self.is_stable || self.fee_valid()
    }

    /// The amount a swap returns against the given reserves: zero for a zero
    /// input or reserve, else by the pool's curve.
    pub open spec fn amount_out(
        &self,
        amount_in: nat,
        reserve_in: nat,
        reserve_out: nat,
        decimals_in: nat,
        decimals_out: nat,
    ) -> Result<nat, SwapSimulationError> {
        if amount_in == 0 || reserve_in == 0 || reserve_out == 0 {
            Ok(0)
        } else if self.is_stable {
            stable_amount_out(amount_in, reserve_in, reserve_out, decimals_in, decimals_out)
        } else {
            constant_product_out(
                amount_in,
                reserve_in,
                reserve_out,
                self.volatile_fee_multiplier(),
                1000,
            )
        }
    }

    /// Input reserve, output reserve, input decimals and output decimals for
    /// a given input asset.
    pub open spec fn sides(&self, base_token: Seq<u8>) -> (u64, u64, u8, u8) {
        if self.token_0@ == base_token {
            (self.reserve_0, self.reserve_1, self.token_0_decimals, self.token_1_decimals)
        } else {
            (self.reserve_1, self.reserve_0, self.token_1_decimals, self.token_0_decimals)
        }
    }

    /// Whether a swap of `amount_in` of `base_token` can be simulated: the
    /// fees are usable, or the swap yields nothing before they are read.
    pub open spec fn swap_defined(&self, base_token: Seq<u8>, amount_in: nat) -> bool {
        let (reserve_in, reserve_out, _, _) = self.sides(base_token);
        self.swappable() || amount_in == 0 || reserve_in == 0 || reserve_out == 0
    }

    /// What a swap of `amount_in` of `base_token` returns.
    pub open spec fn swap_result(&self, base_token: Seq<u8>, amount_in: nat) -> Result<
        nat,
        SwapSimulationError,
    > {
        let (reserve_in, reserve_out, decimals_in, decimals_out) = self.sides(base_token);
        self.amount_out(
            amount_in,
            reserve_in as nat,
            reserve_out as nat,
            decimals_in as nat,
            decimals_out as nat,
        )
    }

    /// The pool after a swap of `amount_in` of `base_token` that returned `amount_out`.
    pub open spec fn after_swap(self, base_token: Seq<u8>, amount_in: nat, amount_out: nat) -> MiraV1 {
        if self.token_0@ == base_token {
            MiraV1 {
                reserve_0: (self.reserve_0 + amount_in) as u64,
                reserve_1: (self.reserve_1 - amount_out) as u64,
                ..self
            }
        } else {
            MiraV1 {
                reserve_0: (self.reserve_0 - amount_out) as u64,
                reserve_1: (self.reserve_1 + amount_in) as u64,
                ..self
            }
        }
    }

    /// The reserves with the one of fewer decimals scaled up to the decimals
    /// of the other, or `None` when that does not fit in 256 bits.
    pub open spec fn normalized_reserves(&self) -> Option<(nat, nat)> {
        if self.token_0_decimals < self.token_1_decimals {
            match ten_pow_spec((self.token_1_decimals - self.token_0_decimals) as nat) {
                Some(p) => if fits_u256(self.reserve_0 * p) {
                    Some(((self.reserve_0 * p) as nat, self.reserve_1 as nat))
                } else {
                    None
                },
                None => None,
            }
        } else {
            match ten_pow_spec((self.token_0_decimals - self.token_1_decimals) as nat) {
                Some(p) => if fits_u256(self.reserve_1 * p) {
                    Some((self.reserve_0 as nat, (self.reserve_1 * p) as nat))
                } else {
                    None
                },
                None => None,
            }
        }
    }

    /// What `calculate_price_64_x_64` may return for `base_token`: the 64.64
    /// ratio of the other reserve to the base one after normalizing the
    /// decimals, `u128::MAX` when the base reserve is empty.
    pub open spec fn price_64_x_64_outcome(&self, base_token: Seq<u8>, r: Result<u128, ArithmeticError>) -> bool {
        let base_reserve = if base_token == self.token_0@ {
            self.reserve_0
        } else {
            self.reserve_1
        };
        if base_reserve == 0 {
            r == Ok::<u128, ArithmeticError>(u128::MAX)
        } else {
            match self.normalized_reserves() {
                None => r == Err::<u128, ArithmeticError>(ArithmeticError::Overflow),
                Some((r_0, r_1)) => if base_token == self.token_0@ {
                    div_uu_outcome(r_1, r_0, r)
                } else {
                    div_uu_outcome(r_0, r_1, r)
                },
            }
        }
    }

    /// What `calculate_price` may return for `base_token`: on the stable
    /// curve the 10^18-scaled price, else the outcome of the 64.64 price.
    pub open spec fn price_outcome(&self, base_token: Seq<u8>, r: Result<Price, ArithmeticError>) -> bool {
        if self.is_stable {
            match self.stable_price_for(base_token) {
                Ok(p) => r matches Ok(Price::Wad(w)) && w@ == p,
                Err(e) => r == Err::<Price, ArithmeticError>(e),
            }
        } else {
            match r {
                Ok(Price::Q64(q)) => self.price_64_x_64_outcome(
                    base_token,
                    Ok::<u128, ArithmeticError>(q),
                ),
                Err(e) => self.price_64_x_64_outcome(base_token, Err::<u128, ArithmeticError>(e)),
                _ => false,
            }
        }
    }

    /// The stable-curve price of `base_token`.
    pub open spec fn stable_price_for(&self, base_token: Seq<u8>) -> Result<nat, ArithmeticError> {
        if self.token_0@ == base_token {
            stable_price(
                self.reserve_0 as nat,
                self.reserve_1 as nat,
                self.token_0_decimals as nat,
                self.token_1_decimals as nat,
            )
        } else {
            stable_price(
                self.reserve_1 as nat,
                self.reserve_0 as nat,
                self.token_1_decimals as nat,
                self.token_0_decimals as nat,
            )
        }
    }

    #[allow(clippy::too_many_arguments)]
    pub fn new(
        address: ContractId,
        pool_id: PoolId,
        token_0: AssetId,
        token_0_decimals: u8,
        token_1: AssetId,
        token_1_decimals: u8,
        reserve_0: u64,
        reserve_1: u64,
        fee: (u64, u64, u64, u64),
        is_stable: bool,
    ) -> (r: MiraV1)
        ensures
            r == (MiraV1 {
                address,
                pool_id,
                token_0,
                token_0_decimals,
                token_1,
                token_1_decimals,
                reserve_0,
                reserve_1,
                fee,
                is_stable,
            }),
    {
        MiraV1 {
            address,
            pool_id,
            token_0,
            token_0_decimals,
            token_1,
            token_1_decimals,
            reserve_0,
            reserve_1,
            fee,
            is_stable,
        }
    }

    pub fn address(&self) -> (r: ContractId)
        ensures
            r == self.address,
    {
        self.address
    }

    pub fn tokens(&self) -> (r: Vec<AssetId>)
        ensures
            r@ == seq![self.token_0, self.token_1],
    {
        vec![self.token_0, self.token_1]
    }

    /// The other asset of the pool.
    pub fn get_token_out(&self, token_in: AssetId) -> (r: AssetId)
        ensures
            r == (if self.token_0@ == token_in@ {
                self.token_1
            } else {
                self.token_0
            }),
    {
        if self.token_0 == token_in {
            self.token_1
        } else {
            self.token_0
        }
    }

    /// Tests `swap_defined`.
    pub fn can_swap(&self, base_token: AssetId, amount_in: U256) -> (r: bool)
        ensures
            r == self.swap_defined(base_token@, amount_in@),
    {
        let (reserve_in, reserve_out, _, _) = self.sides_exec(&base_token);
        self.has_valid_fee() || amount_in.is_zero() || reserve_in == 0 || reserve_out == 0
    }

    /// Tests `swappable`.
    pub fn has_valid_fee(&self) -> (r: bool)
        ensures
            r == self.swappable(),
    {
        self.is_stable || (self.fee.0 as u128 + self.fee.2 as u128) / 10 <= 10000
    }

    /// 10^18.
    fn one_e_18(&self) -> (r: U256)
        ensures
            r@ == e18(),
    {
        U256::from_u64(1_000_000_000_000_000_000)
    }

    /// `10^decimals`, or `None` when it does not fit in 256 bits.
    fn ten_pow(&self, decimals: U256) -> (r: Option<U256>)
        ensures
            opt_value(r) == ten_pow_spec(decimals@),
            r matches Some(p) ==> p@ > 0,
    {
        proof {
            lemma_pow_positive(10, decimals@);
        }
        U256::from_u64(10).checked_pow(decimals)
    }

    /// Rescales an amount with `decimals` decimals to 18 decimals.
    fn adjust(&self, amount: U256, decimals: U256) -> (r: Option<U256>)
        ensures
            opt_value(r) == adjust_spec(amount@, decimals@),
    {
        match self.ten_pow(decimals) {
            Some(p) => mul_div_exec(amount, self.one_e_18(), p),
            None => None,
        }
    }

    /// Rescales an amount with 18 decimals to `decimals` decimals.
    fn unadjust(&self, amount: U256, decimals: U256) -> (r: Option<U256>)
        ensures
            opt_value(r) == unadjust_spec(amount@, decimals@),
    {
        match self.ten_pow(decimals) {
            Some(p) => mul_div_exec(amount, p, self.one_e_18()),
            None => None,
        }
    }

    /// The stable invariant of two reserves with their decimals.
    fn k(&self, x: U256, y: U256, decimals_x: U256, decimals_y: U256) -> (r: Option<U256>)
        ensures
            opt_value(r) == (match (adjust_spec(x@, decimals_x@), adjust_spec(y@, decimals_y@)) {
                (Some(xa), Some(ya)) => f_spec(xa, ya),
                _ => None,
            }),
    {
        let x_adjusted = match self.adjust(x, decimals_x) {
            Some(v) => v,
            None => return None,
        };
        let y_adjusted = match self.adjust(y, decimals_y) {
            Some(v) => v,
            None => return None,
        };
        self.f(x_adjusted, y_adjusted)
    }

    /// The invariant `x*y^2 + y*x^2`, each product scaled back by 10^18.
    fn f(&self, x: U256, y: U256) -> (r: Option<U256>)
        ensures
            opt_value(r) == f_spec(x@, y@),
    {
        let e = self.one_e_18();
        let x_squared = match mul_div_exec(x, x, e) {
            Some(v) => v,
            None => return None,
        };
        let y_squared = match mul_div_exec(y, y, e) {
            Some(v) => v,
            None => return None,
        };
        let p = match mul_div_exec(x, y_squared, e) {
            Some(v) => v,
            None => return None,
        };
        let q = match mul_div_exec(y, x_squared, e) {
            Some(v) => v,
            None => return None,
        };
        p.checked_add(q)
    }

    /// The derivative term of a solver step.
    fn d(&self, x: U256, y: U256) -> (r: Option<U256>)
        ensures
            opt_value(r) == d_spec(x@, y@),
    {
        let e = self.one_e_18();
        let x_squared = match mul_div_exec(x, x, e) {
            Some(v) => v,
            None => return None,
        };
        let y_squared = match mul_div_exec(y, y, e) {
            Some(v) => v,
            None => return None,
        };
        let t = match mul_div_exec(x_squared, y, e) {
            Some(v) => v,
            None => return None,
        };
        match U256::from_u64(3).checked_mul(t) {
            Some(three_t) => three_t.checked_add(y_squared),
            None => None,
        }
    }

    /// One Newton-Raphson step of the solver.
    fn step(&self, x_0: U256, xy: U256, y: U256) -> (r: Result<U256, SwapSimulationError>)
        ensures
            value_of(r) == newton_step(x_0@, xy@, y@),
    {
        let k = match self.f(x_0, y) {
            Some(v) => v,
            None => return Err(SwapSimulationError::Overflow),
        };
        let below = k.lt(&xy);
        let gap = if below {
            xy.sub(k)
        } else {
            k.sub(xy)
        };
        let scaled = match gap.checked_mul(self.one_e_18()) {
            Some(v) => v,
            None => return Err(SwapSimulationError::Overflow),
        };
        let d = match self.d(x_0, y) {
            Some(v) => v,
            None => return Err(SwapSimulationError::Overflow),
        };
        if d.is_zero() {
            return Err(SwapSimulationError::DivisionByZero);
        }
        let dy = scaled.div(d);
        if below {
            match y.checked_add(dy) {
                Some(v) => Ok(v),
                None => Err(SwapSimulationError::Overflow),
            }
        } else {
            let (v, under) = y.overflowing_sub(dy);
            if under {
                Ok(U256::zero())
            } else {
                Ok(v)
            }
        }
    }

    /// Solves for the output reserve `y` with `f(x_0, y) == xy` by at most
    /// 255 Newton-Raphson steps, stopping once a step moves `y` by at most one.
    fn y(&self, x_0: U256, xy: U256, y_start: U256) -> (r: Result<U256, SwapSimulationError>)
        ensures
            value_of(r) == solve_y(x_0@, xy@, y_start@, solver_rounds()),
    {
        let mut y = y_start;
        let mut i: u32 = 0;
        while i < 255
            invariant
                i <= 255,
                solve_y(x_0@, xy@, y_start@, solver_rounds()) == solve_y(
                    x_0@,
                    xy@,
                    y@,
                    (255 - i) as nat,
                ),
            decreases 255 - i,
        {
            let y_prev = y;
            let stepped = self.step(x_0, xy, y);
            proof {
                let n = (255 - i) as nat;
                assert(solve_y(x_0@, xy@, y_prev@, n) == match newton_step(x_0@, xy@, y_prev@) {
                    Err(e) => Err(e),
                    Ok(next) => if close(next, y_prev@) {
                        Ok(next)
                    } else {
                        solve_y(x_0@, xy@, next, (n - 1) as nat)
                    },
                });
            }
            y = match stepped {
                Ok(v) => v,
                Err(e) => return Err(e),
            };
            if y_prev.lt(&y) {
                if y.sub(y_prev).le(&U256::one()) {
                    return Ok(y);
                }
            } else if y_prev.sub(y).le(&U256::one()) {
                return Ok(y);
            }
            i = i + 1;
        }
        Ok(y)
    }

    /// The amount a stable swap returns.
    fn get_stable_amount_out(
        &self,
        amount_in: U256,
        reserve_in: U256,
        reserve_out: U256,
        decimals_in: U256,
        decimals_out: U256,
    ) -> (r: Result<U256, SwapSimulationError>)
        ensures
            value_of(r) == stable_amount_out(
                amount_in@,
                reserve_in@,
                reserve_out@,
                decimals_in@,
                decimals_out@,
            ),
    {
        let xy = match self.k(reserve_in, reserve_out, decimals_in, decimals_out) {
            Some(v) => v,
            None => return Err(SwapSimulationError::Overflow),
        };
        let amount_in_adjusted = match self.adjust(amount_in, decimals_in) {
            Some(v) => v,
            None => return Err(SwapSimulationError::Overflow),
        };
        let reserve_in_adjusted = match self.adjust(reserve_in, decimals_in) {
            Some(v) => v,
            None => return Err(SwapSimulationError::Overflow),
        };
        let reserve_out_adjusted = match self.adjust(reserve_out, decimals_out) {
            Some(v) => v,
            None => return Err(SwapSimulationError::Overflow),
        };
        let x_0 = match amount_in_adjusted.checked_add(reserve_in_adjusted) {
            Some(v) => v,
            None => return Err(SwapSimulationError::Overflow),
        };
        let y_new = match self.y(x_0, xy, reserve_out_adjusted) {
            Ok(v) => v,
            Err(e) => return Err(e),
        };
        if reserve_out_adjusted.lt(&y_new) {
            return Err(SwapSimulationError::Overflow);
        }
        match self.unadjust(reserve_out_adjusted.sub(y_new), decimals_out) {
            Some(v) => Ok(v),
            None => Err(SwapSimulationError::Overflow),
        }
    }

    /// The amount a volatile swap returns.
    fn get_volatile_amount_out(&self, amount_in: U256, reserve_in: U256, reserve_out: U256) -> (r:
        Result<U256, SwapSimulationError>)
        requires
            self.fee_valid(),
        ensures
            value_of(r) == constant_product_out(
                amount_in@,
                reserve_in@,
                reserve_out@,
                self.volatile_fee_multiplier(),
                1000,
            ),
    {
        let fee_multiplier = (10000 - ((self.fee.0 + self.fee.2) / 10)) / 10;
        constant_product_amount_out(amount_in, reserve_in, reserve_out, fee_multiplier, 1000)
    }

    /// The amount received for `amount_in` against `reserve_in` and `reserve_out`.
    pub fn get_amount_out(
        &self,
        amount_in: U256,
        reserve_in: U256,
        reserve_out: U256,
        decimals_in: U256,
        decimals_out: U256,
    ) -> (r: Result<U256, SwapSimulationError>)
        requires
            self.swappable() || amount_in@ == 0 || reserve_in@ == 0 || reserve_out@ == 0,
        ensures
            value_of(r) == self.amount_out(
                amount_in@,
                reserve_in@,
                reserve_out@,
                decimals_in@,
                decimals_out@,
            ),
    {
        if amount_in.is_zero() || reserve_in.is_zero() || reserve_out.is_zero() {
            return Ok(U256::zero());
        }
        if self.is_stable {
            self.get_stable_amount_out(amount_in, reserve_in, reserve_out, decimals_in, decimals_out)
        } else {
            self.get_volatile_amount_out(amount_in, reserve_in, reserve_out)
        }
    }

    /// The price of `base_token` in the other asset as an unsigned 64.64
    /// fixed-point number, after scaling the reserve of fewer decimals up to
    /// the decimals of the other; `u128::MAX` when the base reserve is empty.
    pub fn calculate_price_64_x_64(&self, base_token: AssetId) -> (r: Result<u128, ArithmeticError>)
        ensures
            self.price_64_x_64_outcome(base_token@, r),
    {
        let base_is_0 = base_token == self.token_0;
        let base_reserve = if base_is_0 {
            self.reserve_0
        } else {
            self.reserve_1
        };
        if base_reserve == 0 {
            return Ok(u128::MAX);
        }
        let (r_0, r_1) = if self.token_0_decimals < self.token_1_decimals {
            let shift = U256::from_u64((self.token_1_decimals - self.token_0_decimals) as u64);
            let p = match self.ten_pow(shift) {
                Some(v) => v,
                None => return Err(ArithmeticError::Overflow),
            };
            match U256::from_u64(self.reserve_0).checked_mul(p) {
                Some(v) => (v, U256::from_u64(self.reserve_1)),
                None => return Err(ArithmeticError::Overflow),
            }
        } else {
            let shift = U256::from_u64((self.token_0_decimals - self.token_1_decimals) as u64);
            let p = match self.ten_pow(shift) {
                Some(v) => v,
                None => return Err(ArithmeticError::Overflow),
            };
            match U256::from_u64(self.reserve_1).checked_mul(p) {
                Some(v) => (U256::from_u64(self.reserve_0), v),
                None => return Err(ArithmeticError::Overflow),
            }
        };
        if base_is_0 {
            div_uu(r_1, r_0)
        } else {
            div_uu(r_0, r_1)
        }
    }

    /// The stable-curve price of `x` in `y`, scaled by 10^18.
    pub fn get_stable_price(
        &self,
        reserve_x: U256,
        reserve_y: U256,
        decimals_x: U256,
        decimals_y: U256,
    ) -> (r: Result<U256, ArithmeticError>)
        ensures
            value_of(r) == stable_price(reserve_x@, reserve_y@, decimals_x@, decimals_y@),
    {
        let e = self.one_e_18();
        let x = match self.adjust(reserve_x, decimals_x) {
            Some(v) => v,
            None => return Err(ArithmeticError::Overflow),
        };
        let y = match self.adjust(reserve_y, decimals_y) {
            Some(v) => v,
            None => return Err(ArithmeticError::Overflow),
        };
        let x_cubed = match x.checked_pow(U256::from_u64(3)) {
            Some(v) => v,
            None => return Err(ArithmeticError::Overflow),
        };
        let y_cubed = match y.checked_pow(U256::from_u64(3)) {
            Some(v) => v,
            None => return Err(ArithmeticError::Overflow),
        };
        let ex = match e.checked_mul(x) {
            Some(v) => v,
            None => return Err(ArithmeticError::Overflow),
        };
        let exy = match ex.checked_mul(y) {
            Some(v) => v,
            None => return Err(ArithmeticError::Overflow),
        };
        let numerator = match x_cubed.checked_add(exy) {
            Some(v) => v,
            None => return Err(ArithmeticError::Overflow),
        };
        let denominator = match y_cubed.checked_add(exy) {
            Some(v) => v,
            None => return Err(ArithmeticError::Overflow),
        };
        let scaled = match numerator.checked_mul(e) {
            Some(v) => v,
            None => return Err(ArithmeticError::Overflow),
        };
        if denominator.is_zero() {
            return Err(ArithmeticError::DivisionByZero);
        }
        let price = scaled.div(denominator);
        if decimals_y.le(&decimals_x) {
            match self.ten_pow(decimals_x.sub(decimals_y)) {
                Some(p) => match price.checked_mul(p) {
                    Some(v) => Ok(v),
                    None => Err(ArithmeticError::Overflow),
                },
                None => Err(ArithmeticError::Overflow),
            }
        } else {
            match self.ten_pow(decimals_y.sub(decimals_x)) {
                Some(p) => Ok(price.div(p)),
                None => Err(ArithmeticError::Overflow),
            }
        }
    }

    /// The price of `base_token` in the other asset: on the stable curve as
    /// a ratio scaled by 10^18, else as a 64.64 fixed-point ratio.
    pub fn calculate_price(&self, base_token: AssetId, _quote_token: AssetId) -> (r: Result<
        Price,
        ArithmeticError,
    >)
        ensures
            self.price_outcome(base_token@, r),
    {
        if self.is_stable {
            let price = if self.token_0 == base_token {
                self.get_stable_price(
                    U256::from_u64(self.reserve_0),
                    U256::from_u64(self.reserve_1),
                    U256::from_u64(self.token_0_decimals as u64),
                    U256::from_u64(self.token_1_decimals as u64),
                )
            } else {
                self.get_stable_price(
                    U256::from_u64(self.reserve_1),
                    U256::from_u64(self.reserve_0),
                    U256::from_u64(self.token_1_decimals as u64),
                    U256::from_u64(self.token_0_decimals as u64),
                )
            };
            match price {
                Ok(p) => Ok(Price::Wad(p)),
                Err(e) => Err(e),
            }
        } else {
            match self.calculate_price_64_x_64(base_token) {
                Ok(q) => Ok(Price::Q64(q)),
                Err(e) => Err(e),
            }
        }
    }

    fn sides_exec(&self, base_token: &AssetId) -> (r: (u64, u64, u8, u8))
        ensures
            r == self.sides(base_token@),
    {
        if self.token_0 == *base_token {
            (self.reserve_0, self.reserve_1, self.token_0_decimals, self.token_1_decimals)
        } else {
            (self.reserve_1, self.reserve_0, self.token_1_decimals, self.token_0_decimals)
        }
    }

    /// Simulates a swap of `amount_in` of `base_token` without changing the pool.
    pub fn simulate_swap(&self, base_token: AssetId, _quote_token: AssetId, amount_in: U256) -> (r:
        Result<U256, SwapSimulationError>)
        requires
            self.swap_defined(base_token@, amount_in@),
        ensures
            value_of(r) == self.swap_result(base_token@, amount_in@),
    {
        let (reserve_in, reserve_out, decimals_in, decimals_out) = self.sides_exec(&base_token);
        self.get_amount_out(
            amount_in,
            U256::from_u64(reserve_in),
            U256::from_u64(reserve_out),
            U256::from_u64(decimals_in as u64),
            U256::from_u64(decimals_out as u64),
        )
    }

    /// Simulates a swap of `amount_in` of `base_token` and moves the pool's
    /// reserves to their state after it.
    pub fn simulate_swap_mut(&mut self, base_token: AssetId, _quote_token: AssetId, amount_in: U256) -> (r:
        Result<U256, SwapSimulationError>)
        requires
            old(self).swap_defined(base_token@, amount_in@),
            old(self).sides(base_token@).0 + amount_in@ <= u64::MAX,
        ensures
            value_of(r) == old(self).swap_result(base_token@, amount_in@),
            r matches Ok(out) ==> *final(self) == old(self).after_swap(
                base_token@,
                amount_in@,
                out@,
            ),
            r is Err ==> *final(self) == *old(self),
    {
        let r = self.simulate_swap(base_token, _quote_token, amount_in);
        match r {
            Ok(out) => {
                let (reserve_in, reserve_out, decimals_in, decimals_out) = self.sides_exec(
                    &base_token,
                );
                proof {
                    if reserve_in > 0 && reserve_out > 0 && amount_in@ > 0 {
                        if self.is_stable {
                            crate::stable_math::lemma_stable_out_bounded(
                                amount_in@,
                                reserve_in as nat,
                                reserve_out as nat,
                                decimals_in as nat,
                                decimals_out as nat,
                            );
                        } else {
                            crate::constant_product::lemma_constant_product_invariant(
                                amount_in@,
                                reserve_in as nat,
                                reserve_out as nat,
                                self.volatile_fee_multiplier(),
                                1000,
                            );
                        }
                    }
                }
                let amount_out = out.as_u64();
                let amount = amount_in.as_u64();
                if self.token_0 == base_token {
                    self.reserve_0 = self.reserve_0 + amount;
                    self.reserve_1 = self.reserve_1 - amount_out;
                } else {
                    self.reserve_0 = self.reserve_0 - amount_out;
                    self.reserve_1 = self.reserve_1 + amount;
                }
                Ok(out)
            },
            Err(e) => Err(e),
        }
    }
}

} // verus!
