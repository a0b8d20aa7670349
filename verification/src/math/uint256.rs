use vstd::prelude::*;

verus! {

/// The number that `bytes` spell in base 256, most significant byte first.
pub open spec fn be_value(bytes: Seq<u8>) -> nat
    decreases bytes.len(),
{
    if bytes.len() == 0 {
        0
    } else {
        be_value(bytes.drop_last()) * 256 + bytes.last() as nat
    }
}

/// 256 to the power `n`.
pub open spec fn radix_pow(n: nat) -> nat
    decreases n,
{
    if n == 0 {
        1
    } else {
        256 * radix_pow((n - 1) as nat)
    }
}

/// The largest unsigned 256-bit number.
pub open spec fn uint256_max() -> nat {
    0xffff_ffff_ffff_ffff_ffff_ffff_ffff_ffff_ffff_ffff_ffff_ffff_ffff_ffff_ffff_ffffnat
}

/// `v`, held within the unsigned 256-bit range.
pub open spec fn clamp_uint256(v: int) -> nat {
    if v < 0 {
        0
    } else if v > uint256_max() {
        uint256_max()
    } else {
        v as nat
    }
}

pub proof fn lemma_radix_pow_16()
    ensures
        radix_pow(16) == 0x1_0000_0000_0000_0000_0000_0000_0000_0000nat,
{
    reveal_with_fuel(radix_pow, 17);
}

pub proof fn lemma_radix_pow_32()
    ensures
        radix_pow(32) == uint256_max() + 1,
{
    lemma_radix_pow_16();
    lemma_radix_pow_add(16, 16);
}

pub proof fn lemma_radix_pow_add(m: nat, n: nat)
    ensures
        radix_pow(m + n) == radix_pow(m) * radix_pow(n),
    decreases n,
{
    if n == 0 {
        assert(radix_pow(m) * 1 == radix_pow(m));
    } else {
        lemma_radix_pow_add(m, (n - 1) as nat);
        let p = radix_pow(m);
        let q = radix_pow((n - 1) as nat);
        assert(256 * (p * q) == p * (256 * q)) by (nonlinear_arith);
    }
}

/// A number of `n` bytes lies below 256 to the `n`.
pub proof fn lemma_be_value_bound(bytes: Seq<u8>)
    ensures
        be_value(bytes) < radix_pow(bytes.len()),
    decreases bytes.len(),
{
    if bytes.len() > 0 {
        lemma_be_value_bound(bytes.drop_last());
    }
}

/// Changing one byte changes the value by the difference of the two bytes,
/// weighted by the place.
pub proof fn lemma_be_value_update(bytes: Seq<u8>, place: int, byte: u8)
    requires
        0 <= place < bytes.len(),
    ensures
        be_value(bytes.update(place, byte)) == be_value(bytes) + (byte - bytes[place])
            * radix_pow((bytes.len() - 1 - place) as nat),
    decreases bytes.len(),
{
    let changed = bytes.update(place, byte);
    let delta = byte - bytes[place];
    if place == bytes.len() - 1 {
        assert(changed.drop_last() =~= bytes.drop_last());
        assert(radix_pow(0) == 1);
        assert(delta * 1 == delta);
    } else {
        lemma_be_value_update(bytes.drop_last(), place, byte);
        assert(changed.drop_last() =~= bytes.drop_last().update(place, byte));
        let weight = radix_pow((bytes.len() - 2 - place) as nat);
        assert(radix_pow((bytes.len() - 1 - place) as nat) == 256 * weight);
        assert((be_value(bytes.drop_last()) + delta * weight) * 256 == be_value(
            bytes.drop_last(),
        ) * 256 + delta * (256 * weight)) by (nonlinear_arith);
    }
}

/// Of two numbers of equal length that agree before `place`, the one with the
/// smaller byte at `place` is the smaller.
pub proof fn lemma_first_difference(a: Seq<u8>, b: Seq<u8>, place: int)
    requires
        a.len() == b.len(),
        0 <= place < a.len(),
        forall|j: int| 0 <= j < place ==> a[j] == b[j],
        a[place] < b[place],
    ensures
        be_value(a) < be_value(b),
    decreases a.len(),
{
    if place == a.len() - 1 {
        assert(a.drop_last() =~= b.drop_last());
    } else {
        lemma_first_difference(a.drop_last(), b.drop_last(), place);
    }
}

/// A number all of whose bytes are zero is zero.
pub proof fn lemma_all_zero(bytes: Seq<u8>)
    requires
        forall|j: int| 0 <= j < bytes.len() ==> bytes[j] == 0,
    ensures
        be_value(bytes) == 0,
    decreases bytes.len(),
{
    if bytes.len() > 0 {
        lemma_all_zero(bytes.drop_last());
    }
}

/// A number all of whose bytes are 255 is the largest of its length.
pub proof fn lemma_all_ones(bytes: Seq<u8>)
    requires
        forall|j: int| 0 <= j < bytes.len() ==> bytes[j] == 0xff,
    ensures
        be_value(bytes) + 1 == radix_pow(bytes.len()),
    decreases bytes.len(),
{
    if bytes.len() > 0 {
        lemma_all_ones(bytes.drop_last());
    }
}

/// An unsigned 256-bit number, held as its 32 bytes, most significant first.
#[derive(Clone, Copy, Debug, PartialEq, Eq)]
pub struct Uint256 {
    pub be: [u8; 32],
}

impl View for Uint256 {
    type V = nat;

    open spec fn view(&self) -> nat {
        be_value(self.be@)
    }
}

/// How two numbers stand to each other.
#[derive(Clone, Copy, Debug, PartialEq, Eq, Structural)]
pub enum Order {
    Below,
    Level,
    Above,
}

pub open spec fn order_of(a: int, b: int) -> Order {
    if a < b {
        Order::Below
    } else if a == b {
        Order::Level
    } else {
        Order::Above
    }
}

impl Uint256 {
    /// Every value lies within the 256-bit range.
    pub proof fn lemma_in_range(self)
        ensures
            self@ <= uint256_max(),
    {
        lemma_be_value_bound(self.be@);
        lemma_radix_pow_32();
    }

    /// Two numbers of equal value are the same number.
    pub proof fn lemma_value_decides(self, other: Uint256)
        ensures
            self@ == other@ <==> self == other,
    {
        if exists|j: int| 0 <= j < 32 && self.be@[j] != other.be@[j] {
            lemma_least_difference(self.be@, other.be@, 32);
            let place = choose|j: int|
                #![trigger self.be@[j]]
                {
                    &&& 0 <= j < 32
                    &&& self.be@[j] != other.be@[j]
                    &&& forall|k: int| 0 <= k < j ==> self.be@[k] == other.be@[k]
                };
            if self.be@[place] < other.be@[place] {
                lemma_first_difference(self.be@, other.be@, place);
            } else {
                lemma_first_difference(other.be@, self.be@, place);
            }
        } else {
            assert(self.be@ =~= other.be@);
            assert(self.be =~= other.be);
        }
    }

    pub fn zero() -> (r: Uint256)
        ensures
            r@ == 0,
    {
        let r = Uint256 { be: [0u8; 32] };
        proof {
            lemma_all_zero(r.be@);
        }
        r
    }

    pub fn one() -> (r: Uint256)
        ensures
            r@ == 1,
    {
        Uint256::from_u128(1)
    }

    /// The largest value.
    pub fn max_value() -> (r: Uint256)
        ensures
            r@ == uint256_max(),
    {
        let r = Uint256 { be: [0xffu8; 32] };
        proof {
            lemma_all_ones(r.be@);
            lemma_radix_pow_32();
        }
        r
    }

    pub fn from_u128(value: u128) -> (r: Uint256)
        ensures
            r@ == value,
    {
        let mut be = [0u8; 32];
        let mut rest: u128 = value;
        let mut done: usize = 0;
        proof {
            lemma_all_zero(be@);
            assert(rest * radix_pow(0) == rest) by (nonlinear_arith)
                requires
                    radix_pow(0) == 1,
            ;
        }
        while done < 16
            invariant
                done <= 16,
                be_value(be@) + rest * radix_pow(done as nat) == value,
                forall|j: int| 0 <= j < 32 - done ==> be@[j] == 0,
            decreases 16 - done,
        {
            let place: usize = 31 - done;
            let byte: u8 = (rest % 256) as u8;
            proof {
                lemma_be_value_update(be@, place as int, byte);
                let weight = radix_pow(done as nat);
                assert((rest / 256) * (256 * weight) + byte * weight == rest * weight)
                    by (nonlinear_arith)
                    requires
                        byte == rest % 256,
                ;
            }
            be[place] = byte;
            rest = rest / 256;
            done = done + 1;
        }
        proof {
            lemma_radix_pow_16();
            assert(rest == 0) by (nonlinear_arith)
                requires
                    rest * 0x1_0000_0000_0000_0000_0000_0000_0000_0000nat <= value,
                    value < 0x1_0000_0000_0000_0000_0000_0000_0000_0000nat,
            ;
        }
        Uint256 { be }
    }

    /// How `self` stands to `other` as a number.
    pub fn order(&self, other: &Uint256) -> (r: Order)
        ensures
            r == order_of(self@ as int, other@ as int),
    {
        let mut place: usize = 0;
        while place < 32
            invariant
                place <= 32,
                forall|j: int| 0 <= j < place ==> self.be@[j] == other.be@[j],
            decreases 32 - place,
        {
            if self.be[place] < other.be[place] {
                proof {
                    lemma_first_difference(self.be@, other.be@, place as int);
                }
                return Order::Below;
            }
            if self.be[place] > other.be[place] {
                proof {
                    lemma_first_difference(other.be@, self.be@, place as int);
                }
                return Order::Above;
            }
            place = place + 1;
        }
        assert(self.be@ =~= other.be@);
        Order::Level
    }

    pub fn is_zero(&self) -> (r: bool)
        ensures
            r == (self@ == 0),
    {
        let zero = Uint256::zero();
        matches!(self.order(&zero), Order::Level)
    }
}

/// What `cosmwasm_std::Uint256::from_str` reads out of `text`: the number, or
/// `None` where it reports an error.
pub uninterp spec fn uint256_parsed(text: Seq<char>) -> Option<nat>;

/// Calls `cosmwasm_std::Uint256::saturating_add`, which adds and gives the
/// largest value where the sum does not fit.
#[verifier::external_body]
pub(crate) fn uint256_saturating_add(a: Uint256, b: Uint256) -> (r: Uint256)
    ensures
        r@ == clamp_uint256((a@ + b@) as int),
{
    let sum = cosmwasm_std::Uint256::from_be_bytes(a.be).saturating_add(
        cosmwasm_std::Uint256::from_be_bytes(b.be),
    );
    Uint256 { be: sum.to_be_bytes() }
}

/// Calls `cosmwasm_std::Uint256::saturating_sub`, which subtracts and gives
/// zero where the subtrahend is the larger.
#[verifier::external_body]
pub(crate) fn uint256_saturating_sub(a: Uint256, b: Uint256) -> (r: Uint256)
    ensures
        r@ == clamp_uint256(a@ - b@),
{
    let difference = cosmwasm_std::Uint256::from_be_bytes(a.be).saturating_sub(
        cosmwasm_std::Uint256::from_be_bytes(b.be),
    );
    Uint256 { be: difference.to_be_bytes() }
}

/// Calls `cosmwasm_std::Uint256::saturating_mul`, which multiplies and gives
/// the largest value where the product does not fit.
#[verifier::external_body]
pub(crate) fn uint256_saturating_mul(a: Uint256, b: Uint256) -> (r: Uint256)
    ensures
        r@ == clamp_uint256((a@ * b@) as int),
{
    let product = cosmwasm_std::Uint256::from_be_bytes(a.be).saturating_mul(
        cosmwasm_std::Uint256::from_be_bytes(b.be),
    );
    Uint256 { be: product.to_be_bytes() }
}

/// Calls `cosmwasm_std::Uint256::checked_div`, which gives the quotient
/// rounded down, and an error for a zero divisor.
#[verifier::external_body]
pub(crate) fn uint256_checked_div(a: Uint256, b: Uint256) -> (r: Option<Uint256>)
    ensures
        r is None <==> b@ == 0,
        r matches Some(q) ==> q@ == a@ / b@,
{
    match cosmwasm_std::Uint256::from_be_bytes(a.be).checked_div(
        cosmwasm_std::Uint256::from_be_bytes(b.be),
    ) {
        Ok(quotient) => Some(Uint256 { be: quotient.to_be_bytes() }),
        Err(_) => None,
    }
}

/// Calls `cosmwasm_std::Uint256::checked_rem`, which gives the remainder, and
/// an error for a zero divisor.
#[verifier::external_body]
pub(crate) fn uint256_checked_rem(a: Uint256, b: Uint256) -> (r: Option<Uint256>)
    ensures
        r is None <==> b@ == 0,
        r matches Some(m) ==> m@ == a@ % b@,
{
    match cosmwasm_std::Uint256::from_be_bytes(a.be).checked_rem(
        cosmwasm_std::Uint256::from_be_bytes(b.be),
    ) {
        Ok(remainder) => Some(Uint256 { be: remainder.to_be_bytes() }),
        Err(_) => None,
    }
}

/// Calls `cosmwasm_std::Uint256::abs_diff`, which gives the distance between
/// the two numbers.
#[verifier::external_body]
pub(crate) fn uint256_abs_diff(a: Uint256, b: Uint256) -> (r: Uint256)
    ensures
        r@ == if a@ < b@ { b@ - a@ } else { a@ - b@ },
{
    let distance = cosmwasm_std::Uint256::from_be_bytes(a.be).abs_diff(
        cosmwasm_std::Uint256::from_be_bytes(b.be),
    );
    Uint256 { be: distance.to_be_bytes() }
}

/// Calls `cosmwasm_std::Uint256::from_str`, which reads a number in decimal
/// digits; the result is `uint256_parsed` of the text.
#[verifier::external_body]
pub(crate) fn uint256_from_str(text: &str) -> (r: Option<Uint256>)
    ensures
        r is None <==> uint256_parsed(text@) is None,
        r matches Some(v) ==> uint256_parsed(text@) == Some(v@),
{
    match <cosmwasm_std::Uint256 as std::str::FromStr>::from_str(text) {
        Ok(value) => Some(Uint256 { be: value.to_be_bytes() }),
        Err(_) => None,
    }
}

/// Two byte strings that differ have a least place at which they differ.
pub proof fn lemma_least_difference(a: Seq<u8>, b: Seq<u8>, upto: int)
    requires
        a.len() == b.len(),
        0 <= upto <= a.len(),
        exists|j: int| 0 <= j < upto && a[j] != b[j],
    ensures
        exists|j: int|
            #![trigger a[j]]
            {
                &&& 0 <= j < upto
                &&& a[j] != b[j]
                &&& forall|k: int| 0 <= k < j ==> a[k] == b[k]
            },
    decreases upto,
{
    if exists|j: int| 0 <= j < upto - 1 && a[j] != b[j] {
        lemma_least_difference(a, b, upto - 1);
    } else {
        let j = upto - 1;
        assert(a[j] != b[j]);
    }
}

} // verus!
