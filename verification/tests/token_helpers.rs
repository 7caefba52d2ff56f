use near_openrpc_client::token_helpers::{InvalidAmount, GAS_PER_TGAS, YOCTO_PER_NEAR};
use near_openrpc_client::{NearGas, NearToken};

#[test]
fn near_token_yoctonear_round_trip() {
    let amount: u128 = 999_999_999_999_999_999_999_999;
    let token = NearToken::from_yoctonear(amount);
    assert_eq!(token.as_yoctonear(), amount);
}

#[test]
fn near_token_from_near() {
    let token = NearToken::from_near(1);
    assert_eq!(
        token.0, "1000000000000000000000000",
        "1 NEAR should be 10^24 yoctoNEAR"
    );
    assert_eq!(token.as_yoctonear(), YOCTO_PER_NEAR);
}

#[test]
fn near_token_from_near_multiple() {
    let token = NearToken::from_near(5);
    assert_eq!(token.as_yoctonear(), 5 * YOCTO_PER_NEAR);
}

// The approximate amount in NEAR, for display.
fn as_near_f64(token: &NearToken) -> f64 {
    token.as_yoctonear() as f64 / YOCTO_PER_NEAR as f64
}

// The approximate amount in TGas, for display.
fn as_tgas(gas: &NearGas) -> f64 {
    gas.as_gas() as f64 / GAS_PER_TGAS as f64
}

#[test]
fn near_token_as_near_f64() {
    let token = NearToken::from_near(3);
    let approx = as_near_f64(&token);
    assert!((approx - 3.0).abs() < 1e-10, "Expected ~3.0, got {approx}");
}

#[test]
fn near_token_as_near_f64_fractional() {
    // 0.5 NEAR
    let half = YOCTO_PER_NEAR / 2;
    let token = NearToken::from_yoctonear(half);
    let approx = as_near_f64(&token);
    assert!((approx - 0.5).abs() < 1e-10, "Expected ~0.5, got {approx}");
}

#[test]
fn near_gas_round_trip() {
    let gas = 300_000_000_000_000_u64;
    let g = NearGas::from_gas(gas);
    assert_eq!(g.as_gas(), gas);
}

#[test]
fn near_gas_tgas_conversion() {
    let g = NearGas::from_tgas(300);
    assert_eq!(g.as_gas(), 300 * GAS_PER_TGAS);
    assert!((as_tgas(&g) - 300.0).abs() < 1e-10);
}

#[test]
fn near_gas_from_tgas_round_trip() {
    let g = NearGas::from_tgas(1);
    assert_eq!(g.as_gas(), GAS_PER_TGAS);
    assert!((as_tgas(&g) - 1.0).abs() < 1e-10);
}

#[test]
fn near_token_to_near_token_crate() {
    let ours = NearToken::from_near(10);
    let theirs: near_token::NearToken = ours.try_into().expect("a valid amount");
    assert_eq!(theirs.as_yoctonear(), 10 * YOCTO_PER_NEAR);
}

#[test]
fn near_token_from_near_token_crate() {
    let theirs = near_token::NearToken::from_yoctonear(YOCTO_PER_NEAR);
    let ours: NearToken = theirs.into();
    assert_eq!(ours.as_yoctonear(), YOCTO_PER_NEAR);
}

#[test]
fn near_gas_to_near_gas_crate() {
    let ours = NearGas::from_tgas(5);
    let theirs: near_gas::NearGas = ours.into();
    assert_eq!(theirs.as_gas(), 5 * GAS_PER_TGAS);
}

#[test]
fn near_gas_from_near_gas_crate() {
    let theirs = near_gas::NearGas::from_gas(GAS_PER_TGAS);
    let ours: NearGas = theirs.into();
    assert_eq!(ours.as_gas(), GAS_PER_TGAS);
}

#[test]
fn near_token_with_bad_text_has_no_amount() {
    for text in [
        "",
        "+",
        "12a",
        "-1",
        " 1",
        "340282366920938463463374607431768211456",
    ] {
        let token = NearToken(text.to_string());
        assert_eq!(token.checked_yoctonear(), None, "{text:?}");
        let outside: Result<near_token::NearToken, InvalidAmount> = token.try_into();
        assert_eq!(outside, Err(InvalidAmount));
    }
}

#[test]
fn near_token_text_may_carry_a_plus_sign_and_leading_zeros() {
    assert_eq!(NearToken("+0042".to_string()).checked_yoctonear(), Some(42));
    assert_eq!(
        NearToken("340282366920938463463374607431768211455".to_string()).checked_yoctonear(),
        Some(u128::MAX)
    );
    assert_eq!(NearToken::from_yoctonear(0).0, "0");
    assert_eq!(
        NearToken::from_yoctonear(u128::MAX).0,
        "340282366920938463463374607431768211455"
    );
}

#[test]
fn near_token_serde_round_trip() {
    let token = NearToken::from_near(2);
    let json = serde_json::to_string(&token.0).expect("serialize");
    let deserialized = NearToken(serde_json::from_str(&json).expect("deserialize"));
    assert_eq!(token.as_yoctonear(), deserialized.as_yoctonear());
}

#[test]
fn near_gas_serde_round_trip() {
    let gas = NearGas::from_tgas(100);
    let json = serde_json::to_string(&gas.0).expect("serialize");
    let deserialized = NearGas(serde_json::from_str(&json).expect("deserialize"));
    assert_eq!(gas.as_gas(), deserialized.as_gas());
}
