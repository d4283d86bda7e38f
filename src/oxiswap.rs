use vstd::prelude::*;

use crate::constant_product::{constant_product_amount_out, constant_product_out};
use crate::errors::{ArithmeticError, SwapSimulationError};
use crate::fixed_point::{div_uu, q64_result};
use crate::ids::{AssetId, ContractId};
use crate::price::Price;
use crate::u256::{value_of, U256};

verus! {

/// A constant-product pool of the Oxiswap exchange.
#[derive(Clone, Copy, Debug)]
pub struct Oxiswap {
    pub address: ContractId,
    pub token_a: AssetId,
    pub token_b: AssetId,
    pub reserve_a: u64,
    pub reserve_b: u64,
    /// The fee, in units of 0.001% of the input (300 keeps 0.3%).
    pub fee: u64,
}

impl Oxiswap {
    /// Whether the fee keeps at most the whole input.
    pub open spec fn fee_valid(&self) -> bool {
        self.fee / 10 <= 10000
    }

    /// Parts per thousand of the input that reach the reserve (997 for a fee of 300).
    pub open spec fn fee_multiplier(&self) -> nat {
        ((10000 - self.fee / 10) / 10) as nat
    }

    /// The reserves on the input side and the output side, for a given input asset.
    pub open spec fn reserves_for(&self, base_token: Seq<u8>) -> (u64, u64) {
        if self.token_a@ == base_token {
            (self.reserve_a, self.reserve_b)
        } else {
            (self.reserve_b, self.reserve_a)
        }
    }

    /// Whether a swap of `amount_in` of `base_token` can be simulated: the
    /// fee is valid, or the swap yields nothing before the fee is read.
    pub open spec fn swap_defined(&self, base_token: Seq<u8>, amount_in: nat) -> bool {
        let (reserve_in, reserve_out) = self.reserves_for(base_token);
        self.fee_valid() || amount_in == 0 || reserve_in == 0 || reserve_out == 0
    }

    /// What a swap of `amount_in` of `base_token` returns.
    pub open spec fn swap_result(&self, base_token: Seq<u8>, amount_in: nat) -> Result<
        nat,
        SwapSimulationError,
    > {
        let (reserve_in, reserve_out) = self.reserves_for(base_token);
        constant_product_out(
            amount_in,
            reserve_in as nat,
            reserve_out as nat,
            self.fee_multiplier(),
            1000,
        )
    }

    /// The pool after a swap of `amount_in` of `base_token` that returned `amount_out`.
    pub open spec fn after_swap(self, base_token: Seq<u8>, amount_in: nat, amount_out: nat) -> Oxiswap {
        if self.token_a@ == base_token {
            Oxiswap {
                reserve_a: (self.reserve_a + amount_in) as u64,
                reserve_b: (self.reserve_b - amount_out) as u64,
                ..self
            }
        } else {
            Oxiswap {
                reserve_a: (self.reserve_a - amount_out) as u64,
                reserve_b: (self.reserve_b + amount_in) as u64,
                ..self
            }
        }
    }

    /// What `calculate_price` returns for `base_token`: the output reserve
    /// over the input reserve as a 64.64 fixed-point number.
    pub open spec fn price_outcome(&self, base_token: Seq<u8>, r: Result<Price, ArithmeticError>) -> bool {
        let (reserve_in, reserve_out) = self.reserves_for(base_token);
        r == if reserve_in == 0 {
            Err::<Price, ArithmeticError>(ArithmeticError::DivisionByZero)
        } else {
            Ok(Price::Q64(q64_result(reserve_out as nat, reserve_in as nat)))
        }
    }

    pub fn new(
        address: ContractId,
        token_a: AssetId,
        token_b: AssetId,
        reserve_a: u64,
        reserve_b: u64,
        fee: u64,
    ) -> (r: Oxiswap)
        ensures
            r == (Oxiswap { address, token_a, token_b, reserve_a, reserve_b, fee }),
    {
        Oxiswap { address, token_a, token_b, reserve_a, reserve_b, fee }
    }

    pub fn address(&self) -> (r: ContractId)
        ensures
            r == self.address,
    {
        self.address
    }

    pub fn tokens(&self) -> (r: Vec<AssetId>)
        ensures
            r@ == seq![self.token_a, self.token_b],
    {
        vec![self.token_a, self.token_b]
    }

    /// The other asset of the pool.
    pub fn get_token_out(&self, token_in: AssetId) -> (r: AssetId)
        ensures
            r == (if self.token_a@ == token_in@ {
                self.token_b
            } else {
                self.token_a
            }),
    {
        if self.token_a == token_in {
            self.token_b
        } else {
            self.token_a
        }
    }

    /// Tests `swap_defined`.
    pub fn can_swap(&self, base_token: AssetId, amount_in: U256) -> (r: bool)
        ensures
            r == self.swap_defined(base_token@, amount_in@),
    {
        let (reserve_in, reserve_out) = self.reserves_for_exec(&base_token);
        self.has_valid_fee() || amount_in.is_zero() || reserve_in == 0 || reserve_out == 0
    }

    /// Tests `fee_valid`.
    pub fn has_valid_fee(&self) -> (r: bool)
        ensures
            r == self.fee_valid(),
    {
        self.fee / 10 <= 10000
    }

    /// The price of `base_token` in the other asset: the output reserve over
    /// the input reserve, as a 64.64 fixed-point number.
    pub fn calculate_price(&self, base_token: AssetId, _quote_token: AssetId) -> (r: Result<
        Price,
        ArithmeticError,
    >)
        ensures
            self.price_outcome(base_token@, r),
    {
        let (reserve_in, reserve_out) = if base_token == self.token_a {
            (self.reserve_a, self.reserve_b)
        } else {
            (self.reserve_b, self.reserve_a)
        };
        proof {
            crate::u256::lemma_pow2_limbs();
        }
        match div_uu(U256::from_u64(reserve_out), U256::from_u64(reserve_in)) {
            Ok(q) => Ok(Price::Q64(q)),
            Err(e) => Err(e),
        }
    }

    /// The amount received for `amount_in` against the given reserves.
    pub fn get_amount_out(&self, amount_in: U256, reserve_in: U256, reserve_out: U256) -> (r:
        Result<U256, SwapSimulationError>)
        requires
            self.fee_valid() || amount_in@ == 0 || reserve_in@ == 0 || reserve_out@ == 0,
        ensures
            value_of(r) == constant_product_out(
                amount_in@,
                reserve_in@,
                reserve_out@,
                self.fee_multiplier(),
                1000,
            ),
    {
        if amount_in.is_zero() || reserve_in.is_zero() || reserve_out.is_zero() {
            return Ok(U256::zero());
        }
        let fee_multiplier = (10000 - (self.fee / 10)) / 10;
        constant_product_amount_out(amount_in, reserve_in, reserve_out, fee_multiplier, 1000)
    }

    /// Simulates a swap of `amount_in` of `base_token` without changing the pool.
    pub fn simulate_swap(&self, base_token: AssetId, _quote_token: AssetId, amount_in: U256) -> (r:
        Result<U256, SwapSimulationError>)
        requires
            self.swap_defined(base_token@, amount_in@),
        ensures
            value_of(r) == self.swap_result(base_token@, amount_in@),
    {
        if self.token_a == base_token {
            self.get_amount_out(
                amount_in,
                U256::from_u64(self.reserve_a),
                U256::from_u64(self.reserve_b),
            )
        } else {
            self.get_amount_out(
                amount_in,
                U256::from_u64(self.reserve_b),
                U256::from_u64(self.reserve_a),
            )
        }
    }

    /// Simulates a swap of `amount_in` of `base_token` and moves the pool's
    /// reserves to their state after it.
    pub fn simulate_swap_mut(&mut self, base_token: AssetId, _quote_token: AssetId, amount_in: U256) -> (r:
        Result<U256, SwapSimulationError>)
        requires
            old(self).swap_defined(base_token@, amount_in@),
            old(self).reserves_for(base_token@).0 + amount_in@ <= u64::MAX,
        ensures
            value_of(r) == old(self).swap_result(base_token@, amount_in@),
            r matches Ok(out) ==> *final(self) == old(self).after_swap(
                base_token@,
                amount_in@,
                out@,
            ),
            r is Err ==> *final(self) == *old(self),
    {
        let r = self.simulate_swap(base_token, _quote_token, amount_in);
        match r {
            Ok(out) => {
                let (reserve_in, reserve_out) = self.reserves_for_exec(&base_token);
                proof {
                    if reserve_in > 0 && reserve_out > 0 && amount_in@ > 0 {
                        crate::constant_product::lemma_constant_product_invariant(
                            amount_in@,
                            reserve_in as nat,
                            reserve_out as nat,
                            self.fee_multiplier(),
                            1000,
                        );
                    }
                }
                let amount_out = out.as_u64();
                let amount = amount_in.as_u64();
                if self.token_a == base_token {
                    self.reserve_a = self.reserve_a + amount;
                    self.reserve_b = self.reserve_b - amount_out;
                } else {
                    self.reserve_a = self.reserve_a - amount_out;
                    self.reserve_b = self.reserve_b + amount;
                }
                Ok(out)
            },
            Err(e) => Err(e),
        }
    }

    fn reserves_for_exec(&self, base_token: &AssetId) -> (r: (u64, u64))
        ensures
            r == self.reserves_for(base_token@),
    {
        if self.token_a == *base_token {
            (self.reserve_a, self.reserve_b)
        } else {
            (self.reserve_b, self.reserve_a)
        }
    }
}

} // verus!
