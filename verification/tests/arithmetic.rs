use dvn::gas::{CurrentGasConfig, GasManager};
use dvn::nonce::NonceManager;
use dvn::u256::U256;

fn value(v: &U256) -> u128 {
    assert_eq!(v.w2, 0);
    assert_eq!(v.w3, 0);
    (v.w1 as u128) << 64 | v.w0 as u128
}

#[test]
fn u256_from_words_keeps_the_words() {
    let v = U256::from_words([1, 2, 3, 4]);
    assert_eq!(v.words(), [1, 2, 3, 4]);
    assert_eq!(U256::from_u64(7).words(), [7, 0, 0, 0]);
    assert_eq!(U256::zero().words(), [0, 0, 0, 0]);
    assert_eq!(U256::max_value().words(), [u64::MAX; 4]);
}

#[test]
fn u256_add_carries_and_overflows() {
    let a = U256::from_u64(u64::MAX);
    let b = U256::from_u64(1);
    let s = a.checked_add(&b).unwrap();
    assert_eq!(s.words(), [0, 1, 0, 0]);
    assert!(U256::max_value().checked_add(&b).is_none());
    assert_eq!(U256::max_value().checked_add(&U256::zero()).unwrap().words(), [u64::MAX; 4]);
    assert_eq!(a.add_one().words(), [0, 1, 0, 0]);
}

#[test]
fn u256_mul_and_div_by_small_numbers() {
    let a = U256::from_u64(u64::MAX);
    let m = a.checked_mul_u64(11).unwrap();
    assert_eq!(value(&m), u64::MAX as u128 * 11);
    let d = m.checked_div_u64(10).unwrap();
    assert_eq!(value(&d), u64::MAX as u128 * 11 / 10);
    assert!(U256::max_value().checked_mul_u64(2).is_none());
    assert_eq!(U256::max_value().checked_mul_u64(1).unwrap().words(), [u64::MAX; 4]);
    assert!(a.checked_div_u64(0).is_none());
}

#[test]
fn u256_narrowing_and_bytes() {
    assert!(U256::from_u64(5).fits_u64());
    assert_eq!(U256::from_u64(5).as_u64(), 5);
    assert!(!U256::from_words([0, 1, 0, 0]).fits_u64());
    let mut bytes = [0u8; 32];
    bytes[31] = 0x02;
    bytes[30] = 0x01;
    bytes[0] = 0x80;
    let v = U256::from_be_bytes32(&bytes);
    assert_eq!(v.words(), [0x0102, 0, 0, 0x8000_0000_0000_0000]);
    assert!(U256::from_u64(3).equals(&U256::from_words([3, 0, 0, 0])));
    assert!(!U256::from_u64(3).equals(&U256::from_u64(4)));
}

fn fees(base: u64, priority: u64) -> CurrentGasConfig {
    CurrentGasConfig { base_fees: U256::from_u64(base), priority_fees: U256::from_u64(priority) }
}

#[test]
fn gas_starts_at_zero() {
    let g = GasManager::new();
    assert!(g.can_predict());
    let p = g.predicted_fees();
    assert_eq!(p.max_fees.words(), [0, 0, 0, 0]);
    assert_eq!(p.max_priority_fees.words(), [0, 0, 0, 0]);
}

#[test]
fn gas_prediction_adds_ten_percent_and_the_priority_fee() {
    let mut g = GasManager::new();
    g.current_fees(fees(1_000_000_000, 2_000_000));
    let p = g.predicted_fees();
    assert_eq!(value(&p.max_fees), 1_100_000_000 + 2_000_000);
    assert_eq!(value(&p.max_priority_fees), 2_000_000);
    // the margin is rounded down
    g.current_fees(fees(7, 0));
    assert_eq!(value(&g.predicted_fees().max_fees), 7);
    g.current_fees(fees(19, 1));
    assert_eq!(value(&g.predicted_fees().max_fees), 20 + 1);
}

#[test]
fn gas_max_fee_covers_base_and_priority() {
    for (base, prio) in [(0u64, 0u64), (1, 1), (9, 3), (123_456_789, 42), (u64::MAX, u64::MAX)] {
        let mut g = GasManager::new();
        g.current_fees(fees(base, prio));
        let p = g.predicted_fees();
        assert!(value(&p.max_fees) >= base as u128 + prio as u128);
        assert!(value(&p.max_fees) >= value(&p.max_priority_fees));
    }
}

#[test]
fn gas_prediction_that_overflows_is_refused() {
    let mut g = GasManager::new();
    g.current_fees(CurrentGasConfig { base_fees: U256::max_value(), priority_fees: U256::zero() });
    assert!(!g.can_predict());
    g.current_fees(CurrentGasConfig { base_fees: U256::zero(), priority_fees: U256::max_value() });
    assert!(g.can_predict());
    g.current_fees(CurrentGasConfig { base_fees: U256::from_u64(10), priority_fees: U256::max_value() });
    assert!(!g.can_predict());
}

#[test]
fn nonces_are_issued_consecutively_from_the_last_update() {
    let mut n = NonceManager::new();
    assert_eq!(n.peek().words(), [0, 0, 0, 0]);
    assert_eq!(n.nonce().words(), [0, 0, 0, 0]);
    assert_eq!(n.nonce().words(), [1, 0, 0, 0]);
    n.update(U256::from_u64(41));
    assert_eq!(n.nonce().words(), [41, 0, 0, 0]);
    assert_eq!(n.nonce().words(), [42, 0, 0, 0]);
    assert_eq!(n.peek().words(), [43, 0, 0, 0]);
}

#[test]
fn issued_nonces_are_distinct() {
    let mut n = NonceManager::new();
    n.update(U256::from_u64(100));
    let issued: Vec<[u64; 4]> = (0..10).map(|_| n.nonce().words()).collect();
    for i in 0..issued.len() {
        for j in 0..issued.len() {
            assert_eq!(issued[i] == issued[j], i == j);
        }
    }
}

#[test]
fn the_last_nonce_cannot_be_followed() {
    let mut n = NonceManager::new();
    n.update(U256::max_value());
    assert!(!n.can_issue());
    n.update(U256::from_u64(3));
    assert!(n.can_issue());
}

#[test]
fn json_strings_and_hex_are_written_as_serde_and_ethers_write_them() {
    let text: String = (0u8..128).map(|b| b as char).chain("é→".chars()).collect();
    let mut out = Vec::new();
    dvn::text::append_json_string(&mut out, &text);
    assert_eq!(out, serde_json::to_vec(&text).unwrap());
    assert!(String::from_utf8(out).unwrap().contains("\\u001f"));
    let mut hex = Vec::new();
    dvn::text::append_hex_of_bytes(&mut hex, &[0x00, 0xab, 0x10]);
    assert_eq!(hex, b"00ab10".to_vec());
    let mut q = Vec::new();
    dvn::text::append_u256_json(&mut q, U256::from_words([0, 1, 0, 0]));
    assert_eq!(q, b"\"0x10000000000000000\"".to_vec());
}
