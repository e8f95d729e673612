use dvn::contracts::dvn::{FunctionExecConfig, DVN};
use dvn::gas::{CurrentGasConfig, GasManager};
use dvn::hex::{address_hex, parse_address};
use dvn::signer::Signer;
use dvn::transaction::Transaction;
use dvn::u256::U256;
use ethers_core::k256::ecdsa::SigningKey;
use ethers_core::types::transaction::eip2718::TypedTransaction;
use ethers_core::types::{Eip1559TransactionRequest, H160, U256 as EthU256};

fn key_one() -> SigningKey {
    let mut secret = [0u8; 32];
    secret[31] = 1;
    SigningKey::from_slice(&secret).unwrap()
}

fn public_key(key: &SigningKey) -> Vec<u8> {
    key.verifying_key().to_encoded_point(false).as_bytes().to_vec()
}

const KEY_ONE_ADDRESS: &str = "0x7e5f4552091a69125d5dfcb7b8c2659029395bdf";

#[test]
fn signer_address_is_derived_from_the_public_key() {
    let mut signer = Signer::new("dfx_test_key".to_string());
    assert!(signer.try_address().is_none());
    signer.init(public_key(&key_one()));
    let address = signer.address();
    assert_eq!(String::from_utf8(address_hex(&address)).unwrap(), KEY_ONE_ADDRESS);
    // the compressed form of the same key names the same address
    let compressed = key_one().verifying_key().to_encoded_point(true).as_bytes().to_vec();
    let mut other = Signer::new("key_1".to_string());
    other.init(compressed);
    assert_eq!(other.try_address(), Some(address));
    assert_eq!(other.key_name, "key_1");
}

#[test]
fn a_public_key_that_does_not_parse_has_no_address() {
    let mut signer = Signer::new("k".to_string());
    signer.init(vec![4, 1, 2, 3]);
    assert!(signer.try_address().is_none());
}

fn prepared(chain: u64) -> Transaction {
    let mut gas = GasManager::new();
    gas.current_fees(CurrentGasConfig { base_fees: U256::from_u64(30_000_000_000), priority_fees: U256::from_u64(1_500_000_000) });
    let mut tx = Transaction::new(FunctionExecConfig { data: vec![0xde, 0xad, 0xbe, 0xef], gas: U256::from_u64(0x300000) });
    tx.contract(&DVN::new([0x22; 20], chain));
    tx.gas(&gas);
    tx.nonce(&U256::from_u64(7));
    tx.signer(parse_address(KEY_ONE_ADDRESS).unwrap());
    tx
}

fn ethers_request(chain: u64) -> Eip1559TransactionRequest {
    Eip1559TransactionRequest::new()
        .data(vec![0xde, 0xad, 0xbe, 0xef])
        .gas(0x300000u64)
        .chain_id(chain)
        .to(H160([0x22; 20]))
        .max_fee_per_gas(33_000_000_000u64 + 1_500_000_000u64)
        .max_priority_fee_per_gas(1_500_000_000u64)
        .nonce(7u64)
        .from(H160(parse_address(KEY_ONE_ADDRESS).unwrap()))
}

#[test]
fn a_prepared_transaction_holds_every_field() {
    let tx = prepared(42161);
    assert_eq!(tx.chain_id, Some(42161));
    assert_eq!(tx.to, Some([0x22; 20]));
    assert_eq!(tx.gas.unwrap().words(), [0x300000, 0, 0, 0]);
    assert_eq!(tx.max_fee_per_gas.unwrap().words(), [34_500_000_000, 0, 0, 0]);
    assert_eq!(tx.max_priority_fee_per_gas.unwrap().words(), [1_500_000_000, 0, 0, 0]);
    assert_eq!(tx.nonce.unwrap().words(), [7, 0, 0, 0]);
    assert!(tx.value.is_none());
}

#[test]
fn signing_hash_and_encoding_match_ethers() {
    let chain = 137;
    let tx = prepared(chain);
    let expected = TypedTransaction::Eip1559(ethers_request(chain));
    let hash = tx.signing_hash();
    assert_eq!(hash, expected.sighash().0);

    let key = key_one();
    let (sig, recid) = key.sign_prehash_recoverable(&hash).unwrap();
    let raw: Vec<u8> = sig.to_bytes().to_vec();
    let mut signer = Signer::new("dfx_test_key".to_string());
    signer.init(public_key(&key));
    let signature = signer.complete_signature(&tx, &raw);
    assert_eq!(signature.v, recid.to_byte() as u64 + 35 + chain * 2);
    let r = EthU256::from_big_endian(&raw[..32]);
    let s = EthU256::from_big_endian(&raw[32..]);
    assert_eq!(signature.r.words(), r.0);
    assert_eq!(signature.s.words(), s.0);
    assert!(tx.can_encode(&signature));
    let bad = dvn::transaction::Signature { r: signature.r, s: signature.s, v: 2 };
    assert!(!tx.can_encode(&bad));
    let ethers_sig = ethers_core::types::Signature { r, s, v: signature.v };
    assert_eq!(tx.encode_signed(&signature), expected.rlp_signed(&ethers_sig).to_vec());
    // the signature recovers the signer
    let recovered = ethers_sig.recover(expected.sighash()).unwrap();
    assert_eq!(recovered.0, signer.address());
    assert!(signer.try_complete_signature(&tx, &raw).is_some());
    assert_eq!(Signer::recover_signer(&tx, &raw, recid.to_byte()), Some(signer.address()));
    assert_ne!(Signer::recover_signer(&tx, &raw, recid.to_byte() ^ 1), Some(signer.address()));
    assert_eq!(Signer::recover_signer(&tx, &raw, 9), None);
}

#[test]
fn a_signature_of_another_key_cannot_be_completed() {
    let tx = prepared(1);
    let hash = tx.signing_hash();
    let mut secret = [0u8; 32];
    secret[31] = 2;
    let other = SigningKey::from_slice(&secret).unwrap();
    let (sig, _) = other.sign_prehash_recoverable(&hash).unwrap();
    let mut signer = Signer::new("dfx_test_key".to_string());
    signer.init(public_key(&key_one()));
    assert!(signer.try_complete_signature(&tx, &sig.to_bytes()).is_none());
    assert!(signer.try_complete_signature(&tx, &[0u8; 10]).is_none());
    let unkeyed = Signer::new("dfx_test_key".to_string());
    assert!(unkeyed.try_complete_signature(&tx, &sig.to_bytes()).is_none());
}

#[test]
fn addresses_parse_as_h160_from_str() {
    let expected: [u8; 20] = [
        0x7f, 0x6f, 0xa7, 0x93, 0x8f, 0xf6, 0x6d, 0xb7, 0x94, 0x4a, 0xf8, 0xca, 0x32, 0x69, 0x00, 0xfd, 0x62, 0xed,
        0x58, 0x62,
    ];
    assert_eq!(parse_address("0x7f6fa7938ff66db7944af8ca326900fd62ed5862"), Some(expected));
    assert_eq!(parse_address("7F6FA7938FF66DB7944AF8CA326900FD62ED5862"), Some(expected));
    assert_eq!(parse_address("0x7f6f a793\t8ff66db7944af8ca326900fd62ed5862\n"), Some(expected));
    assert_eq!(parse_address("0x7f6fa7938ff66db7944af8ca326900fd62ed58"), None);
    assert_eq!(parse_address("0x7f6fa7938ff66db7944af8ca326900fd62ed586200"), None);
    assert_eq!(parse_address("0x7f6fa7938ff66db7944af8ca326900fd62ed586g"), None);
    assert_eq!(parse_address(""), None);
    for text in ["0x7f6fa7938ff66db7944af8ca326900fd62ed5862", "0X7f6fa7938ff66db7944af8ca326900fd62ed5862"] {
        let ours = parse_address(text);
        let theirs = text.parse::<H160>().ok().map(|h| h.0);
        assert_eq!(ours, theirs);
    }
}

#[test]
fn written_addresses_read_back() {
    for a in [[0u8; 20], [0xff; 20], [0x0a; 20]] {
        let text = String::from_utf8(address_hex(&a)).unwrap();
        assert_eq!(text.len(), 42);
        assert_eq!(parse_address(&text), Some(a));
        assert_eq!(text, format!("{:?}", H160(a)));
    }
}
