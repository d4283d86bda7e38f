use vstd::prelude::*;

use crate::u256::U256;

verus! {

/// A price as the pool computes it, before any conversion to floating point.
#[derive(Clone, Copy, Debug)]
pub enum Price {
    /// An unsigned 64.64 fixed-point ratio.
    Q64(u128),
    /// A ratio scaled by 10^18.
    Wad(U256),
}

} // verus!
