use vstd::prelude::*;

use crate::constant_product::lemma_constant_product_invariant;
use crate::errors::{ArithmeticError, SwapSimulationError};
use crate::ids::{AssetId, ContractId};
use crate::mira::MiraV1;
use crate::oxiswap::Oxiswap;
use crate::price::Price;
use crate::u256::{value_of, U256};

verus! {

/// A pool of one of the supported exchanges.
#[derive(Clone, Copy, Debug)]
#[allow(clippy::upper_case_acronyms)]
pub enum AMM {
    Oxiswap(Oxiswap),
    MiraV1(MiraV1),
}

impl AMM {
    pub open spec fn address_spec(&self) -> ContractId {
        match self {
            AMM::Oxiswap(pool) => pool.address,
            AMM::MiraV1(pool) => pool.address,
        }
    }

    pub open spec fn token_list(&self) -> Seq<AssetId> {
        match self {
            AMM::Oxiswap(pool) => seq![pool.token_a, pool.token_b],
            AMM::MiraV1(pool) => seq![pool.token_0, pool.token_1],
        }
    }

    /// Whether the pool's fees can be used for a swap.
    pub open spec fn swappable(&self) -> bool {
        match self {
            AMM::Oxiswap(pool) => pool.fee_valid(),
            AMM::MiraV1(pool) => pool.swappable(),
        }
    }

    /// Whether a swap of `amount_in` of `base_token` can be simulated.
    pub open spec fn swap_defined(&self, base_token: Seq<u8>, amount_in: nat) -> bool {
        match self {
            AMM::Oxiswap(pool) => pool.swap_defined(base_token, amount_in),
            AMM::MiraV1(pool) => pool.swap_defined(base_token, amount_in),
        }
    }

    /// The reserve that a swap of `base_token` adds to.
    pub open spec fn input_reserve(&self, base_token: Seq<u8>) -> u64 {
        match self {
            AMM::Oxiswap(pool) => pool.reserves_for(base_token).0,
            AMM::MiraV1(pool) => pool.sides(base_token).0,
        }
    }

    /// The reserve that a swap of `base_token` takes from.
    pub open spec fn output_reserve(&self, base_token: Seq<u8>) -> u64 {
        match self {
            AMM::Oxiswap(pool) => pool.reserves_for(base_token).1,
            AMM::MiraV1(pool) => pool.sides(base_token).1,
        }
    }

    /// Whether the pool trades on the constant-product curve.
    pub open spec fn is_constant_product(&self) -> bool {
        match self {
            AMM::Oxiswap(_) => true,
            AMM::MiraV1(pool) => !pool.is_stable,
        }
    }

    pub open spec fn swap_result(&self, base_token: Seq<u8>, amount_in: nat) -> Result<
        nat,
        SwapSimulationError,
    > {
        match self {
            AMM::Oxiswap(pool) => pool.swap_result(base_token, amount_in),
            AMM::MiraV1(pool) => pool.swap_result(base_token, amount_in),
        }
    }

    pub open spec fn after_swap(self, base_token: Seq<u8>, amount_in: nat, amount_out: nat) -> AMM {
        match self {
            AMM::Oxiswap(pool) => AMM::Oxiswap(pool.after_swap(base_token, amount_in, amount_out)),
            AMM::MiraV1(pool) => AMM::MiraV1(pool.after_swap(base_token, amount_in, amount_out)),
        }
    }

    pub open spec fn price_outcome(&self, base_token: Seq<u8>, r: Result<Price, ArithmeticError>) -> bool {
        match self {
            AMM::Oxiswap(pool) => pool.price_outcome(base_token, r),
            AMM::MiraV1(pool) => pool.price_outcome(base_token, r),
        }
    }

    pub fn address(&self) -> (r: ContractId)
        ensures
            r == self.address_spec(),
    {
        match self {
            AMM::Oxiswap(pool) => pool.address,
            AMM::MiraV1(pool) => pool.address,
        }
    }

    pub fn tokens(&self) -> (r: Vec<AssetId>)
        ensures
            r@ == self.token_list(),
    {
        match self {
            AMM::Oxiswap(pool) => pool.tokens(),
            AMM::MiraV1(pool) => pool.tokens(),
        }
    }

    /// The reserve that a swap of `base_token` adds to.
    pub fn input_reserve_of(&self, base_token: AssetId) -> (r: u64)
        ensures
            r == self.input_reserve(base_token@),
    {
        match self {
            AMM::Oxiswap(pool) => if pool.token_a == base_token {
                pool.reserve_a
            } else {
                pool.reserve_b
            },
            AMM::MiraV1(pool) => if pool.token_0 == base_token {
                pool.reserve_0
            } else {
                pool.reserve_1
            },
        }
    }

    /// Tests `swap_defined`.
    pub fn can_swap(&self, base_token: AssetId, amount_in: U256) -> (r: bool)
        ensures
            r == self.swap_defined(base_token@, amount_in@),
    {
        match self {
            AMM::Oxiswap(pool) => pool.can_swap(base_token, amount_in),
            AMM::MiraV1(pool) => pool.can_swap(base_token, amount_in),
        }
    }

    /// Tests `swappable`.
    pub fn has_valid_fee(&self) -> (r: bool)
        ensures
            r == self.swappable(),
    {
        match self {
            AMM::Oxiswap(pool) => pool.has_valid_fee(),
            AMM::MiraV1(pool) => pool.has_valid_fee(),
        }
    }

    pub fn calculate_price(&self, base_token: AssetId, quote_token: AssetId) -> (r: Result<
        Price,
        ArithmeticError,
    >)
        ensures
            self.price_outcome(base_token@, r),
    {
        match self {
            AMM::Oxiswap(pool) => pool.calculate_price(base_token, quote_token),
            AMM::MiraV1(pool) => pool.calculate_price(base_token, quote_token),
        }
    }

    pub fn simulate_swap(&self, base_token: AssetId, quote_token: AssetId, amount_in: U256) -> (r:
        Result<U256, SwapSimulationError>)
        requires
            self.swap_defined(base_token@, amount_in@),
        ensures
            value_of(r) == self.swap_result(base_token@, amount_in@),
    {
        match self {
            AMM::Oxiswap(pool) => pool.simulate_swap(base_token, quote_token, amount_in),
            AMM::MiraV1(pool) => pool.simulate_swap(base_token, quote_token, amount_in),
        }
    }

    pub fn simulate_swap_mut(&mut self, base_token: AssetId, quote_token: AssetId, amount_in: U256) -> (r:
        Result<U256, SwapSimulationError>)
        requires
            old(self).swap_defined(base_token@, amount_in@),
            old(self).input_reserve(base_token@) + amount_in@ <= u64::MAX,
        ensures
            value_of(r) == old(self).swap_result(base_token@, amount_in@),
            r matches Ok(out) ==> *final(self) == old(self).after_swap(
                base_token@,
                amount_in@,
                out@,
            ),
            r is Err ==> *final(self) == *old(self),
    {
        match self {
            AMM::Oxiswap(pool) => pool.simulate_swap_mut(base_token, quote_token, amount_in),
            AMM::MiraV1(pool) => pool.simulate_swap_mut(base_token, quote_token, amount_in),
        }
    }

    /// The other asset of the pool.
    pub fn get_token_out(&self, token_in: AssetId) -> (r: AssetId)
        ensures
            r == (if self.token_list()[0]@ == token_in@ {
                self.token_list()[1]
            } else {
                self.token_list()[0]
            }),
    {
        match self {
            AMM::Oxiswap(pool) => pool.get_token_out(token_in),
            AMM::MiraV1(pool) => pool.get_token_out(token_in),
        }
    }
}

/// A swap of nothing yields nothing, in every pool, whatever its reserves,
/// decimals and fees.
pub proof fn lemma_swap_of_nothing(amm: AMM, base_token: Seq<u8>)
    ensures
        amm.swap_result(base_token, 0) == Ok::<nat, SwapSimulationError>(0),
{
}

/// A swap in a constant-product pool never lowers the product of the
/// reserves, and never empties the output reserve.
pub proof fn lemma_swap_keeps_product(amm: AMM, base_token: Seq<u8>, amount_in: nat)
    requires
        amm.swappable(),
        amm.is_constant_product(),
        amm.input_reserve(base_token) > 0,
        amm.output_reserve(base_token) > 0,
        amm.swap_result(base_token, amount_in) is Ok,
    ensures
        ({
            let reserve_in = amm.input_reserve(base_token) as nat;
            let reserve_out = amm.output_reserve(base_token) as nat;
            let out = amm.swap_result(base_token, amount_in)->Ok_0;
            &&& out < reserve_out
            &&& (reserve_in + amount_in) * (reserve_out - out) >= reserve_in * reserve_out
        }),
{
    let reserve_in = amm.input_reserve(base_token) as nat;
    let reserve_out = amm.output_reserve(base_token) as nat;
    match amm {
        AMM::Oxiswap(pool) => {
            lemma_constant_product_invariant(
                amount_in,
                reserve_in,
                reserve_out,
                pool.fee_multiplier(),
                1000,
            );
        },
        AMM::MiraV1(pool) => {
            if amount_in > 0 {
                lemma_constant_product_invariant(
                    amount_in,
                    reserve_in,
                    reserve_out,
                    pool.volatile_fee_multiplier(),
                    1000,
                );
            } else {
                assert((reserve_in + amount_in) * (reserve_out - 0) == reserve_in * reserve_out);
            }
        },
    }
}

} // verus!
