use vstd::prelude::*;

verus! {

/// The nearest signed 128-bit number to `v`.
pub open spec fn clamp_i128(v: int) -> i128 {
    if v > i128::MAX {
        i128::MAX
    } else if v < i128::MIN {
        i128::MIN
    } else {
        v as i128
    }
}

/// The quotient of `x` by `d`, rounded towards zero. Meaningful for `d != 0`.
pub open spec fn trunc_div(x: int, d: int) -> int {
    if x >= 0 && d > 0 {
        x / d
    } else if x < 0 && d < 0 {
        (-x) / (-d)
    } else if x < 0 {
        -((-x) / d)
    } else {
        -(x / (-d))
    }
}

/// What is left of `x` after `trunc_div(x, d)` parts of size `d`; it has the
/// sign of `x`. Meaningful for `d != 0`.
pub open spec fn trunc_rem(x: int, d: int) -> int {
    if x >= 0 && d > 0 {
        x % d
    } else if x < 0 && d < 0 {
        -((-x) % (-d))
    } else if x < 0 {
        -((-x) % d)
    } else {
        x % (-d)
    }
}

/// Quotient and remainder rebuild the dividend, and the remainder is smaller
/// in magnitude than the divisor.
pub proof fn lemma_trunc_div_rem(x: int, d: int)
    requires
        d != 0,
    ensures
        x == d * trunc_div(x, d) + trunc_rem(x, d),
        -abs(d) < trunc_rem(x, d) < abs(d),
        x >= 0 ==> trunc_rem(x, d) >= 0,
        x <= 0 ==> trunc_rem(x, d) <= 0,
{
    let ax = abs(x);
    let ad = abs(d);
    let q = ax / ad;
    let r = ax % ad;
    assert(ax == ad * q + r && 0 <= r < ad) by (nonlinear_arith)
        requires
            ad > 0,
            q == ax / ad,
            r == ax % ad,
    ;
    if x >= 0 && d > 0 {
    } else if x < 0 && d < 0 {
        assert(d * q == -(ad * q)) by (nonlinear_arith)
            requires
                ad == -d,
        ;
    } else if x < 0 {
        assert(d * (-q) == -(ad * q)) by (nonlinear_arith)
            requires
                ad == d,
        ;
    } else {
        assert(d * (-q) == ad * q) by (nonlinear_arith)
            requires
                ad == -d,
        ;
    }
}

pub open spec fn abs(v: int) -> int {
    if v < 0 {
        -v
    } else {
        v
    }
}

/// `a + b`, held within the range of `i128`.
pub fn saturating_add(a: i128, b: i128) -> (sum: i128)
    ensures
        sum == clamp_i128(a + b),
{
    match a.checked_add(b) {
        Some(v) => v,
        None => if b > 0 {
            i128::MAX
        } else {
            i128::MIN
        },
    }
}

/// `a - b`, held within the range of `i128`.
pub fn saturating_sub(a: i128, b: i128) -> (difference: i128)
    ensures
        difference == clamp_i128(a - b),
{
    match a.checked_sub(b) {
        Some(v) => v,
        None => if b < 0 {
            i128::MAX
        } else {
            i128::MIN
        },
    }
}

/// `a * b`, held within the range of `i128`.
pub fn saturating_mul(a: i128, b: i128) -> (product: i128)
    ensures
        product == clamp_i128(a * b),
{
    match a.checked_mul(b) {
        Some(v) => v,
        None => {
            if (a < 0) == (b < 0) {
                assert(a * b >= 0) by (nonlinear_arith)
                    requires
                        (a < 0) == (b < 0),
                ;
                i128::MAX
            } else {
                assert(a * b <= 0) by (nonlinear_arith)
                    requires
                        (a < 0) != (b < 0),
                ;
                i128::MIN
            }
        },
    }
}

/// The quotient rounded towards zero; `None` for a zero divisor and for the
/// one quotient that `i128` cannot hold.
pub fn checked_div(a: i128, b: i128) -> (quotient: Option<i128>)
    ensures
        quotient is None <==> b == 0 || (a == i128::MIN && b == -1),
        quotient matches Some(q) ==> q == trunc_div(a as int, b as int),
{
    let q = a.checked_div(b);
    proof {
        if b != 0 {
            let x = a as int;
            let d = b as int;
            assert(x * -1 == -x && d * -1 == -d);
            assert(((x * -1) / d) * -1 == -((-x) / d));
            assert((x / (d * -1)) * -1 == -(x / (-d)));
            lemma_trunc_div_rem(x, d);
            lemma_quotient_bound(x, d);
        }
    }
    q
}

/// The remainder with the sign of the dividend; `None` where `checked_div`
/// gives `None`.
pub fn checked_rem(a: i128, b: i128) -> (remainder: Option<i128>)
    ensures
        remainder is None <==> b == 0 || (a == i128::MIN && b == -1),
        remainder matches Some(r) ==> r == trunc_rem(a as int, b as int),
{
    let r = a.checked_rem(b);
    proof {
        if b != 0 {
            let x = a as int;
            let d = b as int;
            assert(x * -1 == -x && d * -1 == -d);
            lemma_trunc_div_rem(x, d);
        }
    }
    r
}

/// The magnitude of a quotient is at most that of the dividend.
pub proof fn lemma_quotient_bound(x: int, d: int)
    requires
        d != 0,
    ensures
        abs(trunc_div(x, d)) <= abs(x),
        abs(d) > 1 ==> abs(trunc_div(x, d)) <= abs(x) / 2,
        d == 1 ==> trunc_div(x, d) == x,
        d == -1 ==> trunc_div(x, d) == -x,
{
    let ax = abs(x);
    let ad = abs(d);
    assert(0 <= ax / ad <= ax && (ad > 1 ==> ax / ad <= ax / 2) && (ad == 1 ==> ax / ad == ax))
        by (nonlinear_arith)
        requires
            ax >= 0,
            ad > 0,
    ;
}

/// The magnitude of `v`; `None` for the one number whose magnitude `i128`
/// cannot hold.
pub fn checked_abs(v: i128) -> (magnitude: Option<i128>)
    ensures
        magnitude is None <==> v == i128::MIN,
        magnitude matches Some(m) ==> m == abs(v as int),
{
    if v == i128::MIN {
        None
    } else if v < 0 {
        Some(-v)
    } else {
        Some(v)
    }
}

} // verus!
