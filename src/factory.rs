use vstd::prelude::*;

use crate::ids::ContractId;

verus! {

/// The number of pools read in one batched call during discovery.
pub const DISCOVERY_STEP: u64 = 766;

/// The factory contract of the Mira exchange.
#[derive(Clone, Copy, Debug)]
pub struct MiraV1Factory {
    pub contract_id: ContractId,
    pub creation_block: u64,
}

/// The factories of the supported exchanges.
#[derive(Clone, Copy, Debug)]
pub enum Factory {
    MiraV1Factory(MiraV1Factory),
}

impl MiraV1Factory {
    pub fn new(contract_id: ContractId, creation_block: u64) -> (r: MiraV1Factory)
        ensures
            r == (MiraV1Factory { contract_id, creation_block }),
    {
        MiraV1Factory { contract_id, creation_block }
    }

    pub fn address(&self) -> (r: ContractId)
        ensures
            r == self.contract_id,
    {
        self.contract_id
    }
}

/// The number of pages of at most `step` pools that cover `n` pools.
pub open spec fn page_count(n: nat, step: nat) -> nat
    recommends
        step > 0,
{
    ((n + step - 1) / step as int) as nat
}

/// The `j`-th page: the pool indices from `j * step` up to, not including,
/// `(j + 1) * step`, cut at `n`.
pub open spec fn page(n: nat, step: nat, j: nat) -> (nat, nat) {
    let end = (j + 1) * step;
    (j * step, if end < n {
        end
    } else {
        n
    })
}

/// The index windows `[from, to)` in which discovery reads `n` pools, at
/// most `step` at a time, in order.
pub fn page_bounds(n: u64, step: u64) -> (r: Vec<(u64, u64)>)
    requires
        step > 0,
    ensures
        r@.len() == page_count(n as nat, step as nat),
        forall|j: int|
            0 <= j < r@.len() ==> (#[trigger] r@[j]).0 == page(n as nat, step as nat, j as nat).0
                && r@[j].1 == page(n as nat, step as nat, j as nat).1,
{
    let mut pages: Vec<(u64, u64)> = Vec::new();
    let mut from: u64 = 0;
    assert(pages@.len() * step == 0) by (nonlinear_arith)
        requires
            pages@.len() == 0,
    ;
    while from < n
        invariant
            step > 0,
            from <= n,
            from == pages@.len() * step || (from == n && n <= pages@.len() * step),
            from < n ==> from == pages@.len() * step,
            pages@.len() > 0 ==> (pages@.len() - 1) * step < n,
            forall|j: int|
                0 <= j < pages@.len() ==> (#[trigger] pages@[j]).0 == page(
                    n as nat,
                    step as nat,
                    j as nat,
                ).0 && pages@[j].1 == page(n as nat, step as nat, j as nat).1,
        decreases n - from,
    {
        let to = if n - from > step {
            from + step
        } else {
            n
        };
        proof {
            let c = pages@.len();
            assert((c + 1) * step == c * step + step) by (nonlinear_arith);
        }
        pages.push((from, to));
        from = to;
    }
    proof {
        let c = pages@.len() as int;
        let s = step as int;
        let nn = n as int;
        if c == 0 {
            assert(nn == 0);
            assert(page_count(n as nat, step as nat) == 0) by {
                assert((nn + s - 1) / s == 0) by (nonlinear_arith)
                    requires
                        nn == 0,
                        s > 0,
                ;
            }
        } else {
            assert((c - 1) * s < nn && nn <= c * s);
            assert((nn + s - 1) / s == c) by (nonlinear_arith)
                requires
                    (c - 1) * s < nn,
                    nn <= c * s,
                    s > 0,
            ;
        }
    }
    pages
}

/// Discovery reads every pool index below `n` exactly once: index `k` lies
/// in page `k / step` and in no other, and the pages follow one another
/// without gaps from `0` to `n`.
pub proof fn lemma_pages_partition(n: nat, step: nat, k: nat)
    requires
        step > 0,
        k < n,
    ensures
        k / step < page_count(n, step),
        page(n, step, k / step).0 <= k < page(n, step, k / step).1,
        forall|j: nat|
            j < page_count(n, step) && (#[trigger] page(n, step, j)).0 <= k < page(n, step, j).1
                ==> j == k / step,
        page(n, step, 0).0 == 0,
        forall|j: nat| j + 1 < page_count(n, step) ==> #[trigger] page(n, step, j).1 == page(n, step, j + 1).0,
        page(n, step, (page_count(n, step) - 1) as nat).1 == n,
{
    let s = step as int;
    let kk = k as int;
    let nn = n as int;
    let q = kk / s;
    vstd::arithmetic::div_mod::lemma_fundamental_div_mod(kk, s);
    vstd::arithmetic::div_mod::lemma_mod_bound(kk, s);
    assert(q * s <= kk < (q + 1) * s) by (nonlinear_arith)
        requires
            kk == s * q + kk % s,
            0 <= kk % s < s,
    ;
    let c = (nn + s - 1) / s;
    vstd::arithmetic::div_mod::lemma_fundamental_div_mod(nn + s - 1, s);
    vstd::arithmetic::div_mod::lemma_mod_bound(nn + s - 1, s);
    assert((c - 1) * s < nn <= c * s) by (nonlinear_arith)
        requires
            nn + s - 1 == s * c + (nn + s - 1) % s,
            0 <= (nn + s - 1) % s < s,
            nn > 0,
    ;
    assert(q < c) by (nonlinear_arith)
        requires
            q * s <= kk,
            kk < nn,
            nn <= c * s,
            s > 0,
    ;
    assert forall|j: nat|
        j < page_count(n, step) && (#[trigger] page(n, step, j)).0 <= k < page(n, step, j).1 implies j
        == k / step by {
        let ji = j as int;
        assert(ji * s <= kk);
        assert(kk < (ji + 1) * s);
        assert(ji == q) by (nonlinear_arith)
            requires
                ji * s <= kk < (ji + 1) * s,
                q * s <= kk < (q + 1) * s,
                s > 0,
        ;
    }
    assert forall|j: nat| j + 1 < page_count(n, step) implies #[trigger] page(n, step, j).1 == page(
        n,
        step,
        j + 1,
    ).0 by {
        let ji = j as int;
        assert((ji + 1) * s < nn) by (nonlinear_arith)
            requires
                ji + 1 < c,
                (c - 1) * s < nn,
                s > 0,
        ;
    }
    assert(((c - 1) + 1) * s >= nn);
}

} // verus!
