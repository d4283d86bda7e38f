use vstd::arithmetic::power2::*;
use vstd::prelude::*;

verus! {

/// 2^64, the weight of the second limb.
pub open spec fn limb_base() -> nat {
    0x1_0000_0000_0000_0000nat
}

/// 2^128.
pub open spec fn two_pow_128() -> nat {
    0x1_0000_0000_0000_0000_0000_0000_0000_0000nat
}

/// 2^192.
pub open spec fn two_pow_192() -> nat {
    0x1_0000_0000_0000_0000_0000_0000_0000_0000_0000_0000_0000_0000nat
}

/// 2^256: every value of `U256` lies below it.
pub open spec fn u256_modulus() -> nat {
    0x1_0000_0000_0000_0000_0000_0000_0000_0000_0000_0000_0000_0000_0000_0000_0000_0000nat
}

/// Whether a mathematical integer can be held by a `U256`.
pub open spec fn fits_u256(v: int) -> bool {
    0 <= v < u256_modulus()
}

/// An unsigned 256-bit integer, stored as four little-endian 64-bit limbs
/// (the layout of the chain SDK's `U256`, to which it converts one for one).
#[derive(Clone, Copy, Debug)]
pub struct U256 {
    pub limbs: [u64; 4],
}

impl View for U256 {
    type V = nat;

    open spec fn view(&self) -> nat {
        (self.limbs[0] as int + self.limbs[1] as int * limb_base() + self.limbs[2] as int
            * two_pow_128() + self.limbs[3] as int * two_pow_192()) as nat
    }
}

/// The powers of two that weigh the limbs.
pub proof fn lemma_pow2_limbs()
    ensures
        pow2(64) == limb_base(),
        pow2(128) == two_pow_128(),
        pow2(192) == two_pow_192(),
        pow2(256) == u256_modulus(),
{
    lemma2_to64();
    lemma_pow2_adds(64, 64);
    lemma_pow2_adds(128, 64);
    lemma_pow2_adds(192, 64);
}

impl U256 {
    /// The value zero.
    pub fn zero() -> (r: U256)
        ensures
            r@ == 0,
    {
        U256 { limbs: [0, 0, 0, 0] }
    }

    /// The value one.
    pub fn one() -> (r: U256)
        ensures
            r@ == 1,
    {
        U256 { limbs: [1, 0, 0, 0] }
    }

    /// The largest value, 2^256 - 1.
    pub fn max_value() -> (r: U256)
        ensures
            r@ == u256_modulus() - 1,
    {
        U256 { limbs: [u64::MAX, u64::MAX, u64::MAX, u64::MAX] }
    }

    /// Widens a `u64`.
    pub fn from_u64(v: u64) -> (r: U256)
        ensures
            r@ == v,
    {
        U256 { limbs: [v, 0, 0, 0] }
    }

    /// Widens a `u128`.
    pub fn from_u128(v: u128) -> (r: U256)
        ensures
            r@ == v,
    {
        let lo = v as u64;
        let hi = (v >> 64u32) as u64;
        assert(v == lo + hi * 0x1_0000_0000_0000_0000) by (bit_vector)
            requires
                lo == v as u64,
                hi == (v >> 64u32) as u64,
        ;
        U256 { limbs: [lo, hi, 0, 0] }
    }

    /// The limbs of `2^exp`, for `exp < 256`.
    pub fn pow2(exp: u32) -> (r: U256)
        requires
            exp < 256,
        ensures
            r@ == pow2(exp as nat),
    {
        let one = U256::one();
        proof {
            lemma_pow2_limbs();
            lemma_pow2_strictly_increases(exp as nat, 256);
            vstd::arithmetic::div_mod::lemma_small_mod(pow2(exp as nat), pow2(256));
        }
        one.shl(exp)
    }

    pub fn is_zero(&self) -> (r: bool)
        ensures
            r == (self@ == 0),
    {
        self.limbs[0] == 0 && self.limbs[1] == 0 && self.limbs[2] == 0 && self.limbs[3] == 0
    }

    /// Whether the value fits in 64 bits.
    pub fn fits_u64(&self) -> (r: bool)
        ensures
            r == (self@ <= u64::MAX),
    {
        self.limbs[1] == 0 && self.limbs[2] == 0 && self.limbs[3] == 0
    }

    /// Whether the value fits in 128 bits.
    pub fn fits_u128(&self) -> (r: bool)
        ensures
            r == (self@ <= u128::MAX),
    {
        self.limbs[2] == 0 && self.limbs[3] == 0
    }

    /// Narrows a value that fits in 64 bits.
    pub fn as_u64(&self) -> (r: u64)
        requires
            self@ <= u64::MAX,
        ensures
            r == self@,
    {
        self.limbs[0]
    }

    /// Narrows a value that fits in 128 bits.
    pub fn as_u128(&self) -> (r: u128)
        requires
            self@ <= u128::MAX,
        ensures
            r == self@,
    {
        self.limbs[1] as u128 * 0x1_0000_0000_0000_0000u128 + self.limbs[0] as u128
    }

    /// Relies on uint's `U256::cmp`, which compares the limbs from the most
    /// significant one down, that is, compares the values.
    #[verifier::external_body]
    pub(crate) fn cmp(&self, other: &U256) -> (r: core::cmp::Ordering)
        ensures
            (r == core::cmp::Ordering::Less) == (self@ < other@),
            (r == core::cmp::Ordering::Equal) == (self@ == other@),
            (r == core::cmp::Ordering::Greater) == (self@ > other@),
    {
        fuels::types::U256(self.limbs).cmp(&fuels::types::U256(other.limbs))
    }

    pub fn lt(&self, other: &U256) -> (r: bool)
        ensures
            r == (self@ < other@),
    {
        match self.cmp(other) {
            core::cmp::Ordering::Less => true,
            _ => false,
        }
    }

    pub fn le(&self, other: &U256) -> (r: bool)
        ensures
            r == (self@ <= other@),
    {
        match self.cmp(other) {
            core::cmp::Ordering::Greater => false,
            _ => true,
        }
    }

    pub fn eq_value(&self, other: &U256) -> (r: bool)
        ensures
            r == (self@ == other@),
    {
        match self.cmp(other) {
            core::cmp::Ordering::Equal => true,
            _ => false,
        }
    }

    /// Relies on uint's `U256::checked_add`: `None` exactly when the sum
    /// does not fit in 256 bits, else the sum.
    #[verifier::external_body]
    pub(crate) fn checked_add(self, other: U256) -> (r: Option<U256>)
        ensures
            r is Some == fits_u256(self@ + other@ as int),
            r matches Some(s) ==> s@ == self@ + other@,
    {
        fuels::types::U256(self.limbs).checked_add(fuels::types::U256(other.limbs)).map(
            |v: fuels::types::U256| U256 { limbs: v.0 },
        )
    }

    /// Relies on uint's `U256::overflowing_sub`: the difference modulo 2^256,
    /// and whether it wrapped.
    #[verifier::external_body]
    pub(crate) fn overflowing_sub(self, other: U256) -> (r: (U256, bool))
        ensures
            r.1 == (self@ < other@),
            r.0@ == (if self@ < other@ {
                self@ - other@ + u256_modulus()
            } else {
                self@ - other@
            }),
    {
        let (v, o) = fuels::types::U256(self.limbs).overflowing_sub(fuels::types::U256(other.limbs));
        (U256 { limbs: v.0 }, o)
    }

    /// Relies on uint's `U256::checked_mul`: `None` exactly when the product
    /// does not fit in 256 bits, else the product.
    #[verifier::external_body]
    pub(crate) fn checked_mul(self, other: U256) -> (r: Option<U256>)
        ensures
            r is Some == fits_u256(self@ * other@ as int),
            r matches Some(p) ==> p@ == self@ * other@,
    {
        fuels::types::U256(self.limbs).checked_mul(fuels::types::U256(other.limbs)).map(
            |v: fuels::types::U256| U256 { limbs: v.0 },
        )
    }

    /// Relies on uint's `U256::checked_div`: `None` exactly when the divisor
    /// is zero, else the quotient rounded down.
    #[verifier::external_body]
    pub(crate) fn checked_div(self, other: U256) -> (r: Option<U256>)
        ensures
            r is Some == (other@ != 0),
            r matches Some(q) ==> q@ == self@ / other@,
    {
        fuels::types::U256(self.limbs).checked_div(fuels::types::U256(other.limbs)).map(
            |v: fuels::types::U256| U256 { limbs: v.0 },
        )
    }

    /// Relies on uint's `U256::checked_rem`: `None` exactly when the divisor
    /// is zero, else the remainder.
    #[verifier::external_body]
    pub(crate) fn checked_rem(self, other: U256) -> (r: Option<U256>)
        ensures
            r is Some == (other@ != 0),
            r matches Some(m) ==> m@ == self@ % other@,
    {
        fuels::types::U256(self.limbs).checked_rem(fuels::types::U256(other.limbs)).map(
            |v: fuels::types::U256| U256 { limbs: v.0 },
        )
    }

    /// Relies on uint's `U256::checked_pow`: `None` exactly when the power
    /// does not fit in 256 bits, else the power.
    #[verifier::external_body]
    pub(crate) fn checked_pow(self, exp: U256) -> (r: Option<U256>)
        ensures
            r is Some == fits_u256(vstd::arithmetic::power::pow(self@ as int, exp@)),
            r matches Some(p) ==> p@ == vstd::arithmetic::power::pow(self@ as int, exp@),
    {
        fuels::types::U256(self.limbs).checked_pow(fuels::types::U256(exp.limbs)).map(
            |v: fuels::types::U256| U256 { limbs: v.0 },
        )
    }

    /// Relies on uint's `Shl` for `U256`: bits shifted past the top are lost.
    #[verifier::external_body]
    pub(crate) fn shl(self, shift: u32) -> (r: U256)
        ensures
            r@ == (self@ * pow2(shift as nat)) % u256_modulus(),
    {
        U256 { limbs: (fuels::types::U256(self.limbs) << shift).0 }
    }

    /// Relies on uint's `Shr` for `U256`: the quotient by `2^shift`, rounded down.
    #[verifier::external_body]
    pub(crate) fn shr(self, shift: u32) -> (r: U256)
        ensures
            r@ == self@ / pow2(shift as nat),
    {
        U256 { limbs: (fuels::types::U256(self.limbs) >> shift).0 }
    }

    /// The sum; the caller shows that it fits.
    pub fn add(self, other: U256) -> (r: U256)
        requires
            fits_u256(self@ + other@ as int),
        ensures
            r@ == self@ + other@,
    {
        self.checked_add(other).unwrap()
    }

    /// The difference; the caller shows that it is not negative.
    pub fn sub(self, other: U256) -> (r: U256)
        requires
            other@ <= self@,
        ensures
            r@ == self@ - other@,
    {
        self.overflowing_sub(other).0
    }

    /// The product; the caller shows that it fits.
    pub fn mul(self, other: U256) -> (r: U256)
        requires
            fits_u256(self@ * other@ as int),
        ensures
            r@ == self@ * other@,
    {
        self.checked_mul(other).unwrap()
    }

    /// The quotient rounded down; the caller shows that the divisor is not zero.
    pub fn div(self, other: U256) -> (r: U256)
        requires
            other@ != 0,
        ensures
            r@ == self@ / other@,
    {
        self.checked_div(other).unwrap()
    }
}

} // verus!

verus! {

/// The value carried by a computation that yields a `U256` or fails.
pub open spec fn value_of<E>(r: Result<U256, E>) -> Result<nat, E> {
    match r {
        Ok(v) => Ok(v@),
        Err(e) => Err(e),
    }
}

} // verus!
