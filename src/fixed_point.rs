use vstd::arithmetic::div_mod::*;
use vstd::arithmetic::power2::*;
use vstd::prelude::*;

use crate::errors::ArithmeticError;
use crate::u256::{limb_base, two_pow_128, two_pow_192, u256_modulus, lemma_pow2_limbs, U256};

verus! {

/// `floor(x * 2^64 / y)`: the quotient `x / y` as an unbounded 64.64
/// fixed-point number.
pub open spec fn q64_quotient(x: nat, y: nat) -> nat
    recommends
        y != 0,
{
    (x * limb_base()) / y
}

/// The 64.64 quotient when it fits in 128 bits, and zero when it does not.
pub open spec fn q64_result(x: nat, y: nat) -> u128
    recommends
        y != 0,
{
    let q = q64_quotient(x, y);
    if q <= u128::MAX {
        q as u128
    } else {
        0
    }
}

/// What `div_uu` may return for `x / y`: `DivisionByZero` for a zero `y`;
/// else the 64.64 quotient (zero when it does not fit in 128 bits), where
/// `x >= 2^192` together with `y >= 2^256 - 2^192` may instead give
/// `RoundingError`.
pub open spec fn div_uu_outcome(x: nat, y: nat, r: Result<u128, ArithmeticError>) -> bool {
    if y == 0 {
        r == Err::<u128, ArithmeticError>(ArithmeticError::DivisionByZero)
    } else if x < two_pow_192() || y < u256_modulus() - two_pow_192() {
        r == Ok::<u128, ArithmeticError>(q64_result(x, y))
    } else {
        r == Ok::<u128, ArithmeticError>(q64_result(x, y)) || r == Err::<u128, ArithmeticError>(
            ArithmeticError::RoundingError,
        )
    }
}

/// Splits `v * 2^k` into the part at or above 2^256 and the part below it.
proof fn lemma_shl_split(v: nat, k: nat)
    requires
        k <= 256,
    ensures
        v * pow2(k) == (v / pow2((256 - k) as nat)) * pow2(256) + (v * pow2(k)) % pow2(256),
        (v * pow2(k)) / pow2(256) == v / pow2((256 - k) as nat),
{
    let p = pow2(k) as int;
    let q = pow2((256 - k) as nat) as int;
    let m = pow2(256) as int;
    lemma_pow2_pos(k);
    lemma_pow2_pos((256 - k) as nat);
    lemma_pow2_adds(k, (256 - k) as nat);
    assert(p * q == m);
    lemma_fundamental_div_mod(v as int, q);
    lemma_mod_bound(v as int, q);
    let hi = v as int / q;
    let lo = v as int % q;
    assert(v * p == hi * m + lo * p) by (nonlinear_arith)
        requires
            v == q * hi + lo,
            p * q == m,
    ;
    assert(0 <= lo * p < m) by (nonlinear_arith)
        requires
            0 <= lo < q,
            p > 0,
            p * q == m,
    ;
    lemma_fundamental_div_mod_converse(v * p, m, hi, lo * p);
}

/// One halving step of the search for the most significant bit of `x`:
/// `xc` is `x` shifted down by `msb`, below `2^(2j)`; when it is at least
/// `2^j` it is shifted down by `j` more.
fn msb_step(xc: U256, msb: u32, j: u32, Ghost(x): Ghost<nat>) -> (r: (U256, u32))
    requires
        1 <= j <= 32,
        msb + j <= 255,
        xc@ == x / pow2(msb as nat),
        xc@ < pow2(2 * j as nat),
    ensures
        r.0@ == x / pow2(r.1 as nat),
        r.0@ < pow2(j as nat),
        r.1 == msb || r.1 == msb + j,
{
    proof {
        lemma_pow2_strictly_increases(j as nat, 256);
        lemma_pow2_limbs();
    }
    if xc.lt(&U256::pow2(j)) {
        (xc, msb)
    } else {
        let shifted = xc.shr(j);
        proof {
            lemma_pow2_pos(msb as nat);
            lemma_pow2_pos(j as nat);
            lemma_div_denominator(x as int, pow2(msb as nat) as int, pow2(j as nat) as int);
            lemma_pow2_adds(msb as nat, j as nat);
            lemma_pow2_adds(j as nat, j as nat);
            assert(2 * j as nat == j as nat + j as nat);
            lemma_fundamental_div_mod(xc@ as int, pow2(j as nat) as int);
            lemma_mod_bound(xc@ as int, pow2(j as nat) as int);
            let pj = pow2(j as nat) as int;
            assert(shifted@ < pj) by (nonlinear_arith)
                requires
                    xc@ as int == pj * shifted@ + xc@ as int % pj,
                    xc@ as int % pj >= 0,
                    xc@ < pj * pj,
                    pj > 0,
            ;
        }
        (shifted, msb + j)
    }
}

/// A value whose quotient by `2^m` is below `c` is below `c * 2^m`.
proof fn lemma_below_scaled(x: nat, m: nat, c: nat)
    requires
        x / pow2(m) < c,
    ensures
        x < c * pow2(m),
{
    lemma_pow2_pos(m);
    let p = pow2(m) as int;
    lemma_fundamental_div_mod(x as int, p);
    lemma_mod_bound(x as int, p);
    assert(x < c * p) by (nonlinear_arith)
        requires
            x == p * (x as int / p) + x as int % p,
            x as int % p < p,
            x as int / p < c,
            p > 0,
    ;
}

/// The estimate that the quotient `x * 2^64 / y` is built from when
/// `x * 2^64` does not fit in 256 bits: the position of `x`'s most
/// significant bit is found by halving steps, `x` is shifted up to bit 255,
/// and `y` is shifted down by as much, rounding up.  The estimate never
/// exceeds the true quotient, and falls short of it by less than what
/// leaves a remainder of `r * 2^64 + y`.
fn estimate_quotient(x: U256, y: U256) -> (r: U256)
    requires
        y@ != 0,
        x@ >= two_pow_192(),
    ensures
        r@ * y@ <= x@ * limb_base(),
        x@ * limb_base() - r@ * y@ < r@ * limb_base() + y@,
{
    let ghost xv = x@;
    proof {
        lemma_pow2_limbs();
        lemma_pow2_adds(64, 64);
        lemma_pow2_adds(32, 32);
        lemma_pow2_adds(16, 16);
        lemma_pow2_adds(8, 8);
        lemma_pow2_adds(4, 4);
        lemma_pow2_adds(2, 2);
        lemma2_to64();
        lemma_div_is_ordered(x@ as int, (u256_modulus() - 1) as int, two_pow_192() as int);
    }
    let xc = x.shr(192);
    assert(xc@ < pow2(64));
    let (xc, msb) = msb_step(xc, 192, 32, Ghost(xv));
    let (xc, msb) = msb_step(xc, msb, 16, Ghost(xv));
    let (xc, msb) = msb_step(xc, msb, 8, Ghost(xv));
    let (xc, msb) = msb_step(xc, msb, 4, Ghost(xv));
    let (xc, msb) = msb_step(xc, msb, 2, Ghost(xv));
    let msb = if !xc.lt(&U256::from_u64(0x2)) {
        proof {
            lemma_below_scaled(xv, msb as nat, 4);
            lemma_pow2_adds(msb as nat, 2);
        }
        msb + 1
    } else {
        proof {
            lemma_below_scaled(xv, msb as nat, 2);
            lemma_pow2_adds(msb as nat, 1);
        }
        msb
    };
    assert(192 <= msb <= 255);
    assert(x@ < pow2(msb as nat + 1));
    let up: u32 = 255 - msb;
    let down: u32 = msb - 191;
    let num = x.shl(up);
    let y_less = y.sub(U256::one());
    let shifted = y_less.shr(down);
    proof {
        lemma_pow2_pos(down as nat);
        lemma_pow2_pos(up as nat);
        lemma_pow2_strictly_increases(0, down as nat);
        assert(pow2(0) == 1);
        lemma_div_is_ordered(y_less@ as int, (u256_modulus() - 1) as int, pow2(down as nat) as int);
        assert(y_less@ as int / pow2(down as nat) as int <= (u256_modulus() - 1) as int / 2) by {
            vstd::arithmetic::div_mod::lemma_div_is_ordered_by_denominator(
                (u256_modulus() - 1) as int,
                2,
                pow2(down as nat) as int,
            );
        }
        // Shifting x up to bit 255 loses no bits.
        lemma_pow2_adds(msb as nat + 1, up as nat);
        let p_up = pow2(up as nat) as int;
        assert(x@ * p_up < pow2(msb as nat + 1) * p_up) by (nonlinear_arith)
            requires
                x@ < pow2(msb as nat + 1),
                p_up > 0,
        ;
        assert(msb as nat + 1 + up as nat == 256);
        lemma_small_mod((x@ * p_up) as nat, pow2(256));
    }
    let den = shifted.add(U256::one());
    let answer = num.div(den);
    proof {
        let p_up = pow2(up as nat) as int;
        let p_down = pow2(down as nat) as int;
        let est = answer@ as int;
        let yv = y@ as int;
        let f = shifted@ as int;
        let g = y_less@ as int % p_down;
        let d = den@ as int;
        let t = num@ as int;
        let r1 = t % d;
        lemma_pow2_adds(up as nat, down as nat);
        assert(p_up * p_down == limb_base());
        assert(t == x@ * p_up);
        if down < 64 {
            lemma_pow2_strictly_increases(down as nat, 64);
        }
        assert(p_down <= limb_base());
        lemma_fundamental_div_mod(y_less@ as int, p_down);
        lemma_mod_bound(y_less@ as int, p_down);
        assert(yv - 1 == p_down * f + g);
        lemma_fundamental_div_mod(t, d);
        lemma_mod_bound(t, d);
        assert(x@ * limb_base() == t * p_down) by (nonlinear_arith)
            requires
                t == x@ * p_up,
                p_up * p_down == limb_base(),
        ;
        assert(t * p_down == est * (d * p_down) + r1 * p_down) by (nonlinear_arith)
            requires
                t == d * est + r1,
        ;
        assert(d * p_down == yv - 1 - g + p_down) by (nonlinear_arith)
            requires
                d == f + 1,
                yv - 1 == p_down * f + g,
        ;
        assert(r1 * p_down <= f * p_down) by (nonlinear_arith)
            requires
                r1 <= d - 1,
                d == f + 1,
                p_down > 0,
        ;
        assert(est * (p_down - 1 - g) <= est * limb_base()) by (nonlinear_arith)
            requires
                est >= 0,
                0 <= g,
                p_down <= limb_base(),
        ;
        assert(est * (d * p_down) == est * yv + est * (p_down - 1 - g)) by (nonlinear_arith)
            requires
                d * p_down == yv - 1 - g + p_down,
        ;
        assert(est * (p_down - 1 - g) >= 0) by (nonlinear_arith)
            requires
                est >= 0,
                g < p_down,
        ;
        assert(r1 * p_down >= 0) by (nonlinear_arith)
            requires
                r1 >= 0,
                p_down > 0,
        ;
        assert(answer@ * y@ <= x@ * limb_base());
        assert(x@ * limb_base() - answer@ * y@ < answer@ * limb_base() + y@);
    }
    answer
}

/// Given an estimate `a < 2^128` of `x * 2^64 / y`, rebuilds `x * 2^64 - a * y`
/// in two 256-bit words, fails with `RoundingError` when its high word is not
/// zero (or would be negative), and else adds the remaining quotient.
fn correct_quotient(x: U256, y: U256, a: U256) -> (r: Result<u128, ArithmeticError>)
    requires
        y@ != 0,
        a@ <= u128::MAX,
    ensures
        r matches Ok(v) ==> v == q64_result(x@, y@),
        r matches Err(e) ==> e == ArithmeticError::RoundingError,
        (a@ * y@ <= x@ * limb_base() && x@ * limb_base() - a@ * y@ < u256_modulus()) ==> r is Ok,
{
    let ghost xx: int = (x@ * limb_base()) as int;
    let ghost ay: int = (a@ * y@) as int;
    let ghost m: int = u256_modulus() as int;
    proof {
        lemma_pow2_limbs();
    }
    let y_high = y.shr(128);
    let y_low = y.checked_rem(U256::pow2(128)).unwrap();
    proof {
        lemma_fundamental_div_mod(y@ as int, two_pow_128() as int);
        lemma_mod_bound(y@ as int, two_pow_128() as int);
        assert(a@ * y_high@ < m) by (nonlinear_arith)
            requires
                a@ <= u128::MAX,
                y_high@ == y@ as int / two_pow_128() as int,
                y@ < m,
                m == two_pow_128() * two_pow_128(),
        ;
        assert(a@ * y_low@ < m) by (nonlinear_arith)
            requires
                a@ <= u128::MAX,
                y_low@ < two_pow_128(),
                m == two_pow_128() * two_pow_128(),
        ;
    }
    let hi = a.mul(y_high);
    let mut lo = a.mul(y_low);
    proof {
        assert(ay == hi@ * two_pow_128() + lo@) by (nonlinear_arith)
            requires
                y@ as int == two_pow_128() * y_high@ + y_low@,
                hi@ == a@ * y_high@,
                lo@ == a@ * y_low@,
                ay == a@ * y@,
        ;
    }
    let mut xh = x.shr(192);
    let mut xl = x.shl(64);
    proof {
        lemma_shl_split(x@, 64);
        assert(xx == xh@ * m + xl@);
    }
    if xl.lt(&lo) {
        if xh.is_zero() {
            return Err(ArithmeticError::RoundingError);
        }
        xh = xh.sub(U256::one());
    }
    xl = xl.overflowing_sub(lo).0;
    let ghost lo_first: int = lo@ as int;
    assert(xh@ * m + xl@ == xx - lo_first);
    lo = hi.shl(128);
    proof {
        lemma_shl_split(hi@, 128);
        assert(hi@ * two_pow_128() == (hi@ / two_pow_128()) * m + lo@);
    }
    if xl.lt(&lo) {
        if xh.is_zero() {
            return Err(ArithmeticError::RoundingError);
        }
        xh = xh.sub(U256::one());
    }
    xl = xl.overflowing_sub(lo).0;
    let hi_high = hi.shr(128);
    assert(xh@ * m + xl@ == xx - ay + hi_high@ * m);
    if !xh.eq_value(&hi_high) {
        return Err(ArithmeticError::RoundingError);
    }
    // Now xl holds x * 2^64 - a * y exactly.
    assert(xl@ == xx - ay);
    let rest = xl.div(y);
    proof {
        lemma_hoist_over_denominator(xl@ as int, a@ as int, y@);
        assert(a@ * y@ == a@ as int * y@ as int);
        assert(xx == xl@ + a@ * y@);
        assert(xl@ as int / y@ as int + a@ == xx / y@ as int);
    }
    match a.checked_add(rest) {
        None => Ok(0),
        Some(total) => {
            if total.fits_u128() {
                Ok(total.as_u128())
            } else {
                Ok(0)
            }
        },
    }
}

/// Divides `x` by `y` into an unsigned 64.64 fixed-point number: computes
/// `floor(x * 2^64 / y)` even where `x * 2^64` does not fit in 256 bits.
/// A quotient that does not fit in 128 bits gives zero, not an error.
pub fn div_uu(x: U256, y: U256) -> (r: Result<u128, ArithmeticError>)
    ensures
        (r == Err::<u128, ArithmeticError>(ArithmeticError::DivisionByZero)) == (y@ == 0),
        r matches Ok(v) ==> v == q64_result(x@, y@),
        r matches Err(e) ==> (e == ArithmeticError::DivisionByZero || (e
            == ArithmeticError::RoundingError && x@ >= two_pow_192())),
        y@ != 0 && x@ < two_pow_192() ==> r is Ok,
        y@ != 0 && y@ < u256_modulus() - two_pow_192() ==> r is Ok,
        y@ != 0 && q64_quotient(x@, y@) > u128::MAX ==> r == Ok::<u128, ArithmeticError>(0),
        div_uu_outcome(x@, y@, r),
{
    if y.is_zero() {
        return Err(ArithmeticError::DivisionByZero);
    }
    proof {
        lemma_pow2_limbs();
    }
    let small = x.lt(&U256::pow2(192));
    let ghost xx: int = (x@ * limb_base()) as int;
    let ghost q: int = q64_quotient(x@, y@) as int;
    proof {
        lemma_fundamental_div_mod(xx, y@ as int);
        lemma_mod_bound(xx, y@ as int);
    }
    let answer = if small {
        let shifted = x.shl(64);
        proof {
            lemma_shl_split(x@, 64);
            assert(x@ as int / two_pow_192() as int == 0) by {
                vstd::arithmetic::div_mod::lemma_basic_div(x@ as int, two_pow_192() as int);
            }
            assert(shifted@ == xx);
        }
        let exact = shifted.div(y);
        proof {
            assert(exact@ == q);
            assert(exact@ * y@ == xx - xx % (y@ as int)) by (nonlinear_arith)
                requires
                    exact@ == q,
                    xx == y@ * q + xx % (y@ as int),
            ;
        }
        proof {
            assert(xx - exact@ * y@ < exact@ * limb_base() + y@) by (nonlinear_arith)
                requires
                    exact@ * y@ == xx - xx % (y@ as int),
                    xx % (y@ as int) < y@,
            ;
        }
        exact
    } else {
        estimate_quotient(x, y)
    };
    proof {
        // The estimate is never above the quotient.
        let rm = xx % (y@ as int);
        assert(answer@ <= q) by (nonlinear_arith)
            requires
                answer@ * y@ <= xx,
                xx == y@ * q + rm,
                0 <= rm < y@,
        ;
    }
    proof {
        // A quotient beyond 128 bits needs a small divisor.
        if q > u128::MAX {
            assert(y@ < u256_modulus() - two_pow_192()) by (nonlinear_arith)
                requires
                    q > u128::MAX,
                    q * y@ <= xx,
                    xx == x@ * limb_base(),
                    x@ < u256_modulus(),
                    u256_modulus() == two_pow_192() * limb_base(),
                    two_pow_192() == two_pow_128() * limb_base(),
                    limb_base() > 1,
            ;
        }
    }
    if !answer.fits_u128() {
        return Ok(0);
    }
    proof {
        assert(answer@ * limb_base() <= u128::MAX * limb_base()) by (nonlinear_arith)
            requires
                answer@ <= u128::MAX,
        ;
    }
    correct_quotient(x, y, answer)
}

} // verus!
