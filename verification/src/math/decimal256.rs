use vstd::prelude::*;
use crate::error::ContractError;
use crate::math::uint256::{clamp_uint256, uint256_max, Order, order_of, Uint256};

verus! {

/// The number of atomic units in one whole: ten to the eighteenth.
pub open spec fn decimal_fractional() -> nat {
    1_000_000_000_000_000_000
}

/// What `cosmwasm_std::Decimal256::sqrt` gives for a decimal of `atomics`
/// atomic units, in atomic units.
pub uninterp spec fn decimal256_sqrt(atomics: nat) -> nat;

/// What `cosmwasm_std::Decimal256::from_str` reads out of `text`, in atomic
/// units, or `None` where it reports an error.
pub uninterp spec fn decimal256_parsed(text: Seq<char>) -> Option<nat>;

/// `atomics` without its fractional part.
pub open spec fn decimal_floor(atomics: nat) -> nat {
    (atomics / decimal_fractional()) * decimal_fractional()
}

/// The least whole number of units that is not below `atomics`.
pub open spec fn decimal_ceil(atomics: nat) -> nat {
    if atomics % decimal_fractional() == 0 {
        atomics
    } else {
        decimal_floor(atomics) + decimal_fractional()
    }
}

/// The product of two decimals in atomic units, rounded down.
pub open spec fn decimal_product(a: nat, b: nat) -> nat {
    (a * b) / decimal_fractional()
}

/// The quotient of two decimals in atomic units, rounded down. Meaningful
/// for `b != 0`.
pub open spec fn decimal_quotient(a: nat, b: nat) -> nat {
    (a * decimal_fractional()) / b
}

/// An unsigned decimal number with eighteen fractional digits, held as its
/// count of atomic units.
#[derive(Clone, Copy, Debug, PartialEq, Eq)]
pub struct Decimal256 {
    pub atomics: Uint256,
}

impl View for Decimal256 {
    type V = nat;

    open spec fn view(&self) -> nat {
        self.atomics@
    }
}

impl Decimal256 {
    pub fn zero() -> (r: Decimal256)
        ensures
            r@ == 0,
    {
        Decimal256 { atomics: Uint256::zero() }
    }

    pub fn one() -> (r: Decimal256)
        ensures
            r@ == decimal_fractional(),
    {
        Decimal256 { atomics: Uint256::from_u128(1_000_000_000_000_000_000) }
    }

    /// The largest value.
    pub fn max_value() -> (r: Decimal256)
        ensures
            r@ == uint256_max(),
    {
        Decimal256 { atomics: Uint256::max_value() }
    }

    /// How `self` stands to `other` as a number.
    pub fn order(&self, other: &Decimal256) -> (r: Order)
        ensures
            r == order_of(self@ as int, other@ as int),
    {
        self.atomics.order(&other.atomics)
    }
}

/// Calls `cosmwasm_std::Decimal256::saturating_add`, which adds and gives the
/// largest value where the sum does not fit.
#[verifier::external_body]
pub(crate) fn decimal256_saturating_add(a: Decimal256, b: Decimal256) -> (r: Decimal256)
    ensures
        r@ == clamp_uint256((a@ + b@) as int),
{
    let x = cosmwasm_std::Decimal256::new(cosmwasm_std::Uint256::from_be_bytes(a.atomics.be));
    let y = cosmwasm_std::Decimal256::new(cosmwasm_std::Uint256::from_be_bytes(b.atomics.be));
    Decimal256 { atomics: Uint256 { be: x.saturating_add(y).atomics().to_be_bytes() } }
}

/// Calls `cosmwasm_std::Decimal256::saturating_sub`, which subtracts and
/// gives zero where the subtrahend is the larger.
#[verifier::external_body]
pub(crate) fn decimal256_saturating_sub(a: Decimal256, b: Decimal256) -> (r: Decimal256)
    ensures
        r@ == clamp_uint256(a@ - b@),
{
    let x = cosmwasm_std::Decimal256::new(cosmwasm_std::Uint256::from_be_bytes(a.atomics.be));
    let y = cosmwasm_std::Decimal256::new(cosmwasm_std::Uint256::from_be_bytes(b.atomics.be));
    Decimal256 { atomics: Uint256 { be: x.saturating_sub(y).atomics().to_be_bytes() } }
}

/// Calls `cosmwasm_std::Decimal256::saturating_mul`, which multiplies,
/// rounds down to eighteen fractional digits, and gives the largest value
/// where the product does not fit.
#[verifier::external_body]
pub(crate) fn decimal256_saturating_mul(a: Decimal256, b: Decimal256) -> (r: Decimal256)
    ensures
        r@ == clamp_uint256(decimal_product(a@, b@) as int),
{
    let x = cosmwasm_std::Decimal256::new(cosmwasm_std::Uint256::from_be_bytes(a.atomics.be));
    let y = cosmwasm_std::Decimal256::new(cosmwasm_std::Uint256::from_be_bytes(b.atomics.be));
    Decimal256 { atomics: Uint256 { be: x.saturating_mul(y).atomics().to_be_bytes() } }
}

/// Calls `cosmwasm_std::Decimal256::checked_div`, which divides and rounds
/// down to eighteen fractional digits; it reports a zero divisor, and a
/// quotient that does not fit.
#[verifier::external_body]
pub(crate) fn decimal256_checked_div(a: Decimal256, b: Decimal256) -> (r: Result<
    Decimal256,
    ContractError,
>)
    ensures
        b@ == 0 ==> r is Err && r->Err_0 == ContractError::DivisionByZero,
        b@ != 0 && decimal_quotient(a@, b@) > uint256_max() ==> r is Err && r->Err_0
            == ContractError::Overflow,
        b@ != 0 && decimal_quotient(a@, b@) <= uint256_max() ==> r is Ok && r->Ok_0@
            == decimal_quotient(a@, b@),
{
    let x = cosmwasm_std::Decimal256::new(cosmwasm_std::Uint256::from_be_bytes(a.atomics.be));
    let y = cosmwasm_std::Decimal256::new(cosmwasm_std::Uint256::from_be_bytes(b.atomics.be));
    match x.checked_div(y) {
        Ok(q) => Ok(Decimal256 { atomics: Uint256 { be: q.atomics().to_be_bytes() } }),
        Err(cosmwasm_std::CheckedFromRatioError::DivideByZero) => Err(ContractError::DivisionByZero),
        Err(cosmwasm_std::CheckedFromRatioError::Overflow) => Err(ContractError::Overflow),
    }
}

/// Calls `cosmwasm_std::Decimal256::checked_rem`, which gives the remainder
/// of the atomic units, and an error for a zero divisor.
#[verifier::external_body]
pub(crate) fn decimal256_checked_rem(a: Decimal256, b: Decimal256) -> (r: Option<Decimal256>)
    ensures
        r is None <==> b@ == 0,
        r matches Some(m) ==> m@ == a@ % b@,
{
    let x = cosmwasm_std::Decimal256::new(cosmwasm_std::Uint256::from_be_bytes(a.atomics.be));
    let y = cosmwasm_std::Decimal256::new(cosmwasm_std::Uint256::from_be_bytes(b.atomics.be));
    match x.checked_rem(y) {
        Ok(m) => Some(Decimal256 { atomics: Uint256 { be: m.atomics().to_be_bytes() } }),
        Err(_) => None,
    }
}

/// Calls `cosmwasm_std::Decimal256::abs_diff`, which gives the distance
/// between the two numbers.
#[verifier::external_body]
pub(crate) fn decimal256_abs_diff(a: Decimal256, b: Decimal256) -> (r: Decimal256)
    ensures
        r@ == if a@ < b@ { b@ - a@ } else { a@ - b@ },
{
    let x = cosmwasm_std::Decimal256::new(cosmwasm_std::Uint256::from_be_bytes(a.atomics.be));
    let y = cosmwasm_std::Decimal256::new(cosmwasm_std::Uint256::from_be_bytes(b.atomics.be));
    Decimal256 { atomics: Uint256 { be: x.abs_diff(y).atomics().to_be_bytes() } }
}

/// Calls `cosmwasm_std::Decimal256::floor`, which drops the fractional part.
#[verifier::external_body]
pub(crate) fn decimal256_floor(a: Decimal256) -> (r: Decimal256)
    ensures
        r@ == decimal_floor(a@),
{
    let x = cosmwasm_std::Decimal256::new(cosmwasm_std::Uint256::from_be_bytes(a.atomics.be));
    Decimal256 { atomics: Uint256 { be: x.floor().atomics().to_be_bytes() } }
}

/// Calls `cosmwasm_std::Decimal256::checked_ceil`, which rounds up to the
/// next whole number, and reports an error where that does not fit.
#[verifier::external_body]
pub(crate) fn decimal256_checked_ceil(a: Decimal256) -> (r: Option<Decimal256>)
    ensures
        r is None <==> decimal_ceil(a@) > uint256_max(),
        r matches Some(c) ==> c@ == decimal_ceil(a@),
{
    let x = cosmwasm_std::Decimal256::new(cosmwasm_std::Uint256::from_be_bytes(a.atomics.be));
    match x.checked_ceil() {
        Ok(c) => Some(Decimal256 { atomics: Uint256 { be: c.atomics().to_be_bytes() } }),
        Err(_) => None,
    }
}

/// Calls `cosmwasm_std::Decimal256::sqrt`, which approximates the square
/// root; the result is `decimal256_sqrt` of the operand.
#[verifier::external_body]
pub(crate) fn decimal256_sqrt_of(a: Decimal256) -> (r: Decimal256)
    ensures
        r@ == decimal256_sqrt(a@),
{
    let x = cosmwasm_std::Decimal256::new(cosmwasm_std::Uint256::from_be_bytes(a.atomics.be));
    Decimal256 { atomics: Uint256 { be: x.sqrt().atomics().to_be_bytes() } }
}

/// Calls `cosmwasm_std::Decimal256::from_str`, which reads a decimal number
/// with at most eighteen fractional digits; the result is
/// `decimal256_parsed` of the text.
#[verifier::external_body]
pub(crate) fn decimal256_from_str(text: &str) -> (r: Option<Decimal256>)
    ensures
        r is None <==> decimal256_parsed(text@) is None,
        r matches Some(v) ==> decimal256_parsed(text@) == Some(v@),
{
    match <cosmwasm_std::Decimal256 as std::str::FromStr>::from_str(text) {
        Ok(v) => Some(Decimal256 { atomics: Uint256 { be: v.atomics().to_be_bytes() } }),
        Err(_) => None,
    }
}

} // verus!
