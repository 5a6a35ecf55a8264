//! Wide integer arithmetic for pricing formulas. Products of two balances
//! need a double-width (256-bit) intermediate; those computations are made
//! through `primitive_types::U256` behind trusted wrappers whose contracts
//! state the exact result, saturation included.

use vstd::prelude::*;

use primitive_types::U256;

verus! {

/// Largest value a 256-bit intermediate can hold.
pub open spec fn u256_max() -> int {
    0xffffffffffffffffffffffffffffffffffffffffffffffffffffffffffffffffint
}

/// Saturation of a 256-bit intermediate.
pub open spec fn sat256(x: int) -> int {
    if x > u256_max() {
        u256_max()
    } else {
        x
    }
}

pub open spec fn sat_add_spec(a: int, b: int) -> int {
    if a + b > u128::MAX {
        u128::MAX as int
    } else {
        a + b
    }
}

pub open spec fn sat_sub_spec(a: int, b: int) -> int {
    if a >= b {
        a - b
    } else {
        0
    }
}

pub open spec fn sat_mul_spec(a: int, b: int) -> int {
    if a * b > u128::MAX {
        u128::MAX as int
    } else {
        a * b
    }
}

pub fn sat_add_u128(a: u128, b: u128) -> (r: u128)
    ensures
        r == sat_add_spec(a as int, b as int),
{
    match a.checked_add(b) {
        Some(v) => v,
        None => u128::MAX,
    }
}

pub fn sat_sub_u128(a: u128, b: u128) -> (r: u128)
    ensures
        r == sat_sub_spec(a as int, b as int),
{
    if a >= b {
        a - b
    } else {
        0
    }
}

pub fn sat_mul_u128(a: u128, b: u128) -> (r: u128)
    ensures
        r == sat_mul_spec(a as int, b as int),
{
    match a.checked_mul(b) {
        Some(v) => v,
        None => u128::MAX,
    }
}

/// `r` is the integer square root of `n`.
pub open spec fn is_int_sqrt(n: int, r: int) -> bool {
    0 <= r && r * r <= n && n < (r + 1) * (r + 1)
}

/// The integer square root, as a mathematical function.
pub closed spec fn isqrt(n: int) -> int {
    choose|r: int| is_int_sqrt(n, r)
}

pub proof fn lemma_isqrt_exists(n: int)
    requires
        n >= 0,
    ensures
        is_int_sqrt(n, isqrt(n)),
    decreases n,
{
    if n == 0 {
        assert(is_int_sqrt(0, 0));
    } else {
        lemma_isqrt_exists(n - 1);
        let r = isqrt(n - 1);
        if (r + 1) * (r + 1) <= n {
            assert(n == (r + 1) * (r + 1));
            assert((r + 1) * (r + 1) < (r + 2) * (r + 2)) by (nonlinear_arith)
                requires
                    r >= 0,
            ;
            assert(is_int_sqrt(n, r + 1));
        } else {
            assert(is_int_sqrt(n, r));
        }
    }
}

pub proof fn lemma_isqrt_unique(n: int, a: int, b: int)
    requires
        is_int_sqrt(n, a),
        is_int_sqrt(n, b),
    ensures
        a == b,
{
    if a < b {
        assert(false) by (nonlinear_arith)
            requires
                0 <= a < b,
                n < (a + 1) * (a + 1),
                b * b <= n,
        ;
    }
    if b < a {
        assert(false) by (nonlinear_arith)
            requires
                0 <= b < a,
                n < (b + 1) * (b + 1),
                a * a <= n,
        ;
    }
}

/// Relies on `primitive_types::U256`: the full 256-bit product of two
/// `u128` values (never saturating), divided by the third; `None` when the
/// divisor is zero or the quotient does not fit in `u128`.
#[verifier::external_body]
pub(crate) fn mul_div_floor(a: u128, b: u128, c: u128) -> (r: Option<u128>)
    ensures
        r == if c == 0 || (a as int * b as int) / (c as int) > u128::MAX {
            None::<u128>
        } else {
            Some((((a as int) * (b as int)) / (c as int)) as u128)
        },
{
    U256::from(a)
        .saturating_mul(U256::from(b))
        .checked_div(U256::from(c))
        .and_then(|n| u128::try_from(n).ok())
}

/// Relies on `integer_sqrt::IntegerSquareRoot` for `u128`: the floor of
/// the square root.
#[verifier::external_body]
pub(crate) fn sqrt_floor(n: u128) -> (r: u128)
    ensures
        is_int_sqrt(n as int, r as int),
{
    integer_sqrt::IntegerSquareRoot::integer_sqrt(&n)
}

/// Relies on `primitive_types::U256`: full-width products of `u128`
/// factors (never saturating), compared.
#[verifier::external_body]
pub(crate) fn product_ge(a: u128, b: u128, c: u128, d: u128) -> (r: bool)
    ensures
        r <==> (a as int * b as int >= c as int * d as int),
{
    U256::from(a).saturating_mul(U256::from(b)) >= U256::from(c).saturating_mul(U256::from(d))
}

/// Output-side pricing core: the fee-discounted input, times the output
/// reserve, divided by the grown input reserve, all in a saturating
/// 256-bit intermediate, with overflow of the narrowing conversion and a
/// zero divisor both collapsing to zero.
pub open spec fn swap_out_formula(a: int, rin: int, rout: int, fee_n: int, fee_d: int) -> int {
    let x = a * fee_n;
    let num = sat256(x * rout);
    let den = sat256(rin * fee_d + x);
    if den == 0 {
        0
    } else {
        let q = num / den;
        if q > u128::MAX {
            0
        } else {
            q
        }
    }
}

/// Relies on `primitive_types::U256` saturating/checked arithmetic; the
/// result is exactly `swap_out_formula` of the arguments.
#[verifier::external_body]
pub(crate) fn swap_out_core(
    amount_in: u128,
    reserve_in: u128,
    reserve_out: u128,
    fee_n: u128,
    fee_d: u128,
) -> (r: u128)
    ensures
        r == swap_out_formula(
            amount_in as int,
            reserve_in as int,
            reserve_out as int,
            fee_n as int,
            fee_d as int,
        ),
{
    let amount_with_fee = U256::from(amount_in).saturating_mul(U256::from(fee_n));
    let numerator = amount_with_fee.saturating_mul(U256::from(reserve_out));
    let denominator = U256::from(reserve_in)
        .saturating_mul(U256::from(fee_d))
        .saturating_add(amount_with_fee);
    numerator
        .checked_div(denominator)
        .and_then(|n| u128::try_from(n).ok())
        .unwrap_or(0)
}

/// Input-side pricing core: the inverse computation, rounded up by one so
/// the router never under-charges, with zero divisor and overflow of the
/// increment or of the narrowing conversion all collapsing to zero.
pub open spec fn swap_in_formula(out: int, rin: int, rout: int, fee_n: int, fee_d: int) -> int {
    let num = sat256(rin * out * fee_d);
    let den = sat_sub_spec(rout, out) * fee_n;
    if den == 0 {
        0
    } else {
        let q = num / den;
        if q + 1 > u256_max() {
            0
        } else if q + 1 > u128::MAX {
            0
        } else {
            q + 1
        }
    }
}

/// Relies on `primitive_types::U256` saturating/checked arithmetic; the
/// result is exactly `swap_in_formula` of the arguments.
#[verifier::external_body]
pub(crate) fn swap_in_core(
    amount_out: u128,
    reserve_in: u128,
    reserve_out: u128,
    fee_n: u128,
    fee_d: u128,
) -> (r: u128)
    ensures
        r == swap_in_formula(
            amount_out as int,
            reserve_in as int,
            reserve_out as int,
            fee_n as int,
            fee_d as int,
        ),
{
    let numerator = U256::from(reserve_in)
        .saturating_mul(U256::from(amount_out))
        .saturating_mul(U256::from(fee_d));
    let denominator = U256::from(reserve_out)
        .saturating_sub(U256::from(amount_out))
        .saturating_mul(U256::from(fee_n));
    numerator
        .checked_div(denominator)
        .and_then(|r| r.checked_add(U256::from(1u8)))
        .and_then(|n| u128::try_from(n).ok())
        .unwrap_or(0)
}

} // verus!
