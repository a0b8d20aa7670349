use std::str::FromStr;

use warp_controller::math::decimal256::Decimal256;
use warp_controller::math::int128::{
    checked_abs, checked_div, checked_rem, saturating_add, saturating_mul, saturating_sub,
};
use warp_controller::math::uint256::{Order, Uint256};

fn outside(value: &Uint256) -> cosmwasm_std::Uint256 {
    cosmwasm_std::Uint256::from_be_bytes(value.be)
}

#[test]
fn from_u128_spells_the_number_in_big_endian() {
    assert_eq!(Uint256::from_u128(0).be, [0u8; 32]);
    let mut one = [0u8; 32];
    one[31] = 1;
    assert_eq!(Uint256::from_u128(1).be, one);
    let mut word = [0u8; 32];
    word[30] = 0x01;
    word[31] = 0x02;
    assert_eq!(Uint256::from_u128(258).be, word);
    let mut all = [0u8; 32];
    for byte in all.iter_mut().skip(16) {
        *byte = 0xff;
    }
    assert_eq!(Uint256::from_u128(u128::MAX).be, all);
    for value in [0u128, 1, 255, 256, 65_535, 1 << 64, u128::MAX - 1, u128::MAX] {
        assert_eq!(outside(&Uint256::from_u128(value)), cosmwasm_std::Uint256::from(value));
    }
}

#[test]
fn constants_agree_with_the_outside_type() {
    assert_eq!(outside(&Uint256::zero()), cosmwasm_std::Uint256::zero());
    assert_eq!(outside(&Uint256::one()), cosmwasm_std::Uint256::one());
    assert_eq!(outside(&Uint256::max_value()), cosmwasm_std::Uint256::MAX);
    assert_eq!(outside(&Decimal256::zero().atomics), cosmwasm_std::Decimal256::zero().atomics());
    assert_eq!(outside(&Decimal256::one().atomics), cosmwasm_std::Decimal256::one().atomics());
    assert_eq!(outside(&Decimal256::max_value().atomics), cosmwasm_std::Decimal256::MAX.atomics());
}

#[test]
fn order_is_the_order_of_the_numbers() {
    let texts = [
        "0",
        "1",
        "255",
        "256",
        "65536",
        "340282366920938463463374607431768211455",
        "340282366920938463463374607431768211456",
        "115792089237316195423570985008687907853269984665640564039457584007913129639935",
    ];
    for (i, left) in texts.iter().enumerate() {
        for (j, right) in texts.iter().enumerate() {
            let a = Uint256 { be: cosmwasm_std::Uint256::from_str(left).unwrap().to_be_bytes() };
            let b = Uint256 { be: cosmwasm_std::Uint256::from_str(right).unwrap().to_be_bytes() };
            let expected = if i < j {
                Order::Below
            } else if i == j {
                Order::Level
            } else {
                Order::Above
            };
            assert_eq!(a.order(&b), expected);
            assert_eq!(Decimal256 { atomics: a }.order(&Decimal256 { atomics: b }), expected);
        }
    }
}

#[test]
fn is_zero_only_for_zero() {
    assert!(Uint256::zero().is_zero());
    assert!(!Uint256::one().is_zero());
    assert!(!Uint256::max_value().is_zero());
}

#[test]
fn signed_helpers_agree_with_std() {
    let samples = [i128::MIN, i128::MIN + 1, -7, -2, -1, 0, 1, 2, 7, i128::MAX - 1, i128::MAX];
    for a in samples {
        for b in samples {
            assert_eq!(saturating_add(a, b), a.saturating_add(b));
            assert_eq!(saturating_sub(a, b), a.saturating_sub(b));
            assert_eq!(saturating_mul(a, b), a.saturating_mul(b));
            assert_eq!(checked_div(a, b), a.checked_div(b));
            assert_eq!(checked_rem(a, b), a.checked_rem(b));
        }
        assert_eq!(checked_abs(a), a.checked_abs());
    }
}
