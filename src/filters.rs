use vstd::prelude::*;

use crate::amm::AMM;
use crate::ids::{AssetId, ContractId};

verus! {

/// Whether `token` is in `blacklist`.
pub open spec fn asset_listed(blacklist: Seq<AssetId>, token: AssetId) -> bool {
    exists|j: int| 0 <= j < blacklist.len() && #[trigger] blacklist[j]@ == token@
}

/// Whether `address` is in `blacklist`.
pub open spec fn contract_listed(blacklist: Seq<ContractId>, address: ContractId) -> bool {
    exists|j: int| 0 <= j < blacklist.len() && #[trigger] blacklist[j]@ == address@
}

/// Whether one of the pool's tokens is in `blacklist`.
pub open spec fn holds_listed_token(amm: AMM, blacklist: Seq<AssetId>) -> bool {
    exists|i: int| 0 <= i < amm.token_list().len() && asset_listed(blacklist, #[trigger] amm.token_list()[i])
}

/// Whether the pool has no assets: both of its tokens are the all-zero identifier.
pub open spec fn is_empty_pool(amm: AMM) -> bool {
    amm.token_list()[0]@ == Seq::new(32, |i: int| 0u8) && amm.token_list()[1]@ == Seq::new(
        32,
        |i: int| 0u8,
    )
}

/// Whether both of the pool's reserves are zero, that is, the pool is not initialized.
pub open spec fn has_empty_reserves(amm: AMM) -> bool {
    match amm {
        AMM::Oxiswap(pool) => pool.reserve_a == 0 && pool.reserve_b == 0,
        AMM::MiraV1(pool) => pool.reserve_0 == 0 && pool.reserve_1 == 0,
    }
}

/// One more element of `s` handed to a filter.
proof fn lemma_filter_extend(s: Seq<AMM>, i: int, pred: spec_fn(AMM) -> bool)
    requires
        0 <= i < s.len(),
    ensures
        s.subrange(0, i + 1).filter(pred) == (if pred(s[i]) {
            s.subrange(0, i).filter(pred).push(s[i])
        } else {
            s.subrange(0, i).filter(pred)
        }),
{
    reveal(Seq::filter);
    assert(s.subrange(0, i + 1).drop_last() =~= s.subrange(0, i));
}

/// Filtering twice with one predicate keeps what filtering once keeps.
proof fn lemma_filter_twice<A>(s: Seq<A>, pred: spec_fn(A) -> bool)
    ensures
        s.filter(pred).filter(pred) == s.filter(pred),
    decreases s.len(),
{
    reveal(Seq::filter);
    if s.len() > 0 {
        lemma_filter_twice(s.drop_last(), pred);
        let sub = s.drop_last().filter(pred);
        if pred(s.last()) {
            assert(sub.push(s.last()).drop_last() =~= sub);
        }
    }
}

/// Whether the bytes are all zero.
fn is_zeroed(token: &AssetId) -> (r: bool)
    ensures
        r == (token@ == Seq::new(32, |i: int| 0u8)),
{
    let zero = AssetId::zeroed();
    *token == zero
}

/// Whether `token` is in `blacklist`.
fn asset_in(blacklist: &Vec<AssetId>, token: &AssetId) -> (r: bool)
    ensures
        r == asset_listed(blacklist@, *token),
{
    let mut j: usize = 0;
    while j < blacklist.len()
        invariant
            0 <= j <= blacklist@.len(),
            forall|k: int| 0 <= k < j ==> blacklist@[k]@ != token@,
        decreases blacklist@.len() - j,
    {
        if blacklist[j] == *token {
            return true;
        }
        j = j + 1;
    }
    false
}

/// Removes the pools that hold a blacklisted token.
pub fn filter_blacklisted_tokens(amms: Vec<AMM>, blacklisted_addresses: Vec<AssetId>) -> (r: Vec<
    AMM,
>)
    ensures
        r@ == amms@.filter(|a: AMM| !holds_listed_token(a, blacklisted_addresses@)),
{
    let mut filtered_pools: Vec<AMM> = Vec::new();
    let mut i: usize = 0;
    while i < amms.len()
        invariant
            0 <= i <= amms@.len(),
            filtered_pools@ == amms@.subrange(0, i as int).filter(|a: AMM| !holds_listed_token(a, blacklisted_addresses@)),
        decreases amms@.len() - i,
    {
        let amm = amms[i];
        let tokens = amm.tokens();
        let mut blacklisted_token_in_amm = false;
        let mut t: usize = 0;
        while t < tokens.len()
            invariant
                0 <= t <= tokens@.len(),
                tokens@ == amm.token_list(),
                blacklisted_token_in_amm == exists|k: int|
                    0 <= k < t && asset_listed(blacklisted_addresses@, #[trigger] tokens@[k]),
            decreases tokens@.len() - t,
        {
            if asset_in(&blacklisted_addresses, &tokens[t]) {
                blacklisted_token_in_amm = true;
            }
            t = t + 1;
        }
        proof {
            lemma_filter_extend(amms@, i as int, |a: AMM| !holds_listed_token(a, blacklisted_addresses@));
            assert(amm == amms@[i as int]);
            if blacklisted_token_in_amm {
                let k = choose|k: int|
                    0 <= k < t && asset_listed(blacklisted_addresses@, #[trigger] tokens@[k]);
                assert(asset_listed(blacklisted_addresses@, amm.token_list()[k]));
            } else {
                assert(!holds_listed_token(amm, blacklisted_addresses@));
            }
        }
        if !blacklisted_token_in_amm {
            filtered_pools.push(amm);
        }
        i = i + 1;
    }
    assert(amms@.subrange(0, amms@.len() as int) =~= amms@);
    filtered_pools
}

/// Removes the pools whose address is blacklisted.
pub fn filter_blacklisted_amms(amms: Vec<AMM>, blacklisted_addresses: Vec<ContractId>) -> (r: Vec<
    AMM,
>)
    ensures
        r@ == amms@.filter(|a: AMM| !contract_listed(blacklisted_addresses@, a.address_spec())),
{
    let mut filtered_amms: Vec<AMM> = Vec::new();
    let mut i: usize = 0;
    while i < amms.len()
        invariant
            0 <= i <= amms@.len(),
            filtered_amms@ == amms@.subrange(0, i as int).filter(|a: AMM| !contract_listed(blacklisted_addresses@, a.address_spec())),
        decreases amms@.len() - i,
    {
        let amm = amms[i];
        let address = amm.address();
        let mut listed = false;
        let mut j: usize = 0;
        while j < blacklisted_addresses.len()
            invariant
                0 <= j <= blacklisted_addresses@.len(),
                listed == exists|k: int|
                    0 <= k < j && #[trigger] blacklisted_addresses@[k]@ == address@,
            decreases blacklisted_addresses@.len() - j,
        {
            if blacklisted_addresses[j] == address {
                listed = true;
            }
            j = j + 1;
        }
        proof {
            lemma_filter_extend(amms@, i as int, |a: AMM| !contract_listed(blacklisted_addresses@, a.address_spec()));
            assert(amm == amms@[i as int]);
        }
        if !listed {
            filtered_amms.push(amm);
        }
        i = i + 1;
    }
    assert(amms@.subrange(0, amms@.len() as int) =~= amms@);
    filtered_amms
}

/// Removes the pools whose two tokens are both the all-zero identifier.
pub fn filter_empty_amms(amms: Vec<AMM>) -> (r: Vec<AMM>)
    ensures
        r@ == amms@.filter(|a: AMM| !is_empty_pool(a)),
{
    let mut cleaned_amms: Vec<AMM> = Vec::new();
    let mut i: usize = 0;
    while i < amms.len()
        invariant
            0 <= i <= amms@.len(),
            cleaned_amms@ == amms@.subrange(0, i as int).filter(|a: AMM| !is_empty_pool(a)),
        decreases amms@.len() - i,
    {
        let amm = amms[i];
        let empty = match amm {
            AMM::MiraV1(pool) => is_zeroed(&pool.token_0) && is_zeroed(&pool.token_1),
            AMM::Oxiswap(pool) => is_zeroed(&pool.token_a) && is_zeroed(&pool.token_b),
        };
        proof {
            lemma_filter_extend(amms@, i as int, |a: AMM| !is_empty_pool(a));
            assert(amm == amms@[i as int]);
        }
        if !empty {
            cleaned_amms.push(amm);
        }
        i = i + 1;
    }
    assert(amms@.subrange(0, amms@.len() as int) =~= amms@);
    cleaned_amms
}

/// Removes the pools whose two reserves are both zero.
pub fn filter_amms_with_empty_reserves(amms: Vec<AMM>) -> (r: Vec<AMM>)
    ensures
        r@ == amms@.filter(|a: AMM| !has_empty_reserves(a)),
{
    let mut cleaned_amms: Vec<AMM> = Vec::new();
    let mut i: usize = 0;
    while i < amms.len()
        invariant
            0 <= i <= amms@.len(),
            cleaned_amms@ == amms@.subrange(0, i as int).filter(|a: AMM| !has_empty_reserves(a)),
        decreases amms@.len() - i,
    {
        let amm = amms[i];
        let empty = match amm {
            AMM::MiraV1(pool) => pool.reserve_0 == 0 && pool.reserve_1 == 0,
            AMM::Oxiswap(pool) => pool.reserve_a == 0 && pool.reserve_b == 0,
        };
        proof {
            lemma_filter_extend(amms@, i as int, |a: AMM| !has_empty_reserves(a));
            assert(amm == amms@[i as int]);
            assert(has_empty_reserves(amm) == empty);
        }
        if !empty {
            cleaned_amms.push(amm);
        }
        i = i + 1;
    }
    assert(amms@.subrange(0, amms@.len() as int) =~= amms@);
    cleaned_amms
}

/// Removing the pools that hold a blacklisted token a second time, with the
/// same blacklist, removes nothing more.
pub proof fn lemma_filter_blacklisted_tokens_idempotent(amms: Seq<AMM>, blacklist: Seq<AssetId>)
    ensures
        amms.filter(|a: AMM| !holds_listed_token(a, blacklist)).filter(
            |a: AMM| !holds_listed_token(a, blacklist),
        ) == amms.filter(|a: AMM| !holds_listed_token(a, blacklist)),
{
    lemma_filter_twice(amms, |a: AMM| !holds_listed_token(a, blacklist));
}

/// Removing the pools whose address is blacklisted a second time, with the
/// same blacklist, removes nothing more.
pub proof fn lemma_filter_blacklisted_amms_idempotent(amms: Seq<AMM>, blacklist: Seq<ContractId>)
    ensures
        amms.filter(|a: AMM| !contract_listed(blacklist, a.address_spec())).filter(
            |a: AMM| !contract_listed(blacklist, a.address_spec()),
        ) == amms.filter(|a: AMM| !contract_listed(blacklist, a.address_spec())),
{
    lemma_filter_twice(amms, |a: AMM| !contract_listed(blacklist, a.address_spec()));
}

} // verus!
