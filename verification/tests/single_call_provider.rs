use dvn::ether_utils::provider::base::{BaseProvider, HttpMethod};
use dvn::ether_utils::provider::Provider;
use dvn::provider::{BlockNumber, LogFilter, Topic, TopicFilter};
use dvn::transaction::Transaction;
use dvn::u256::U256;
use ethers_core::k256::ecdsa::SigningKey;

fn s(b: &[u8]) -> String {
    String::from_utf8(b.to_vec()).unwrap()
}

fn key_one_public() -> Vec<u8> {
    let mut secret = [0u8; 32];
    secret[31] = 1;
    SigningKey::from_slice(&secret).unwrap().verifying_key().to_encoded_point(false).as_bytes().to_vec()
}

#[test]
fn one_call_per_request_with_id_one() {
    let base = BaseProvider::new("https://node".to_string());
    let r = base.request("eth_chainId", b"[]");
    assert_eq!(r.url, "https://node");
    assert_eq!(s(&r.body), "{\"jsonrpc\":\"2.0\",\"id\":1,\"method\":\"eth_chainId\",\"params\":[]}");
    assert_eq!(r.method, HttpMethod::Post);
    assert_eq!(r.headers, vec![("Content-Type".to_string(), "application/json".to_string())]);
    assert_eq!(r.max_response_bytes, None);
    assert_eq!(r.transform_context, None);
    assert_eq!(r.cycles, 2_000_000_000);
}

#[test]
fn account_calls_name_the_latest_block() {
    let p = Provider::new("https://node".to_string(), 10);
    assert_eq!(p.chain, 10);
    assert_eq!(p.signer.key_name, "dfx_test_key");
    assert_eq!(
        s(&p.get_balance("0xabc").body),
        "{\"jsonrpc\":\"2.0\",\"id\":1,\"method\":\"eth_getBalance\",\"params\":[\"0xabc\",\"latest\"]}"
    );
    assert_eq!(
        s(&p.get_nonce("a\"b").body),
        "{\"jsonrpc\":\"2.0\",\"id\":1,\"method\":\"eth_getTransactionCount\",\"params\":[\"a\\\"b\",\"latest\"]}"
    );
    assert_eq!(
        s(&p.get_current_base_fees().body),
        "{\"jsonrpc\":\"2.0\",\"id\":1,\"method\":\"eth_gasPrice\",\"params\":[]}"
    );
    assert_eq!(
        s(&p.get_current_priority_fees().body),
        "{\"jsonrpc\":\"2.0\",\"id\":1,\"method\":\"eth_maxPriorityFeePerGas\",\"params\":[]}"
    );
    assert_eq!(
        s(&p.send_raw_transaction(&[0xab, 0x01]).body),
        "{\"jsonrpc\":\"2.0\",\"id\":1,\"method\":\"eth_sendRawTransaction\",\"params\":[\"0xab01\"]}"
    );
    let filter = LogFilter {
        address: [1; 20],
        from: BlockNumber::Number(1),
        to: BlockNumber::Number(2),
        topics: TopicFilter { topic0: Topic::Any, topic1: Topic::Any, topic2: Topic::Any, topic3: Topic::Any },
    };
    assert!(s(&p.get_logs(&filter).body).starts_with(
        "{\"jsonrpc\":\"2.0\",\"id\":1,\"method\":\"eth_getLogs\",\"params\":[{\"fromBlock\":\"0x1\",\"toBlock\":\"0x2\""
    ));
}

#[test]
fn send_transaction_fills_fees_gas_chain_sender_and_nonce() {
    let mut p = Provider::new("https://node".to_string(), 137);
    p.init(key_one_public());
    let txn = Transaction {
        from: None,
        to: Some([9; 20]),
        gas: None,
        value: Some(U256::from_u64(5)),
        data: Some(vec![1, 2]),
        nonce: None,
        max_priority_fee_per_gas: None,
        max_fee_per_gas: None,
        chain_id: None,
    };
    let t = p.send_transaction(txn, U256::from_u64(1000), U256::from_u64(7), U256::from_u64(12));
    assert_eq!(t.max_fee_per_gas.unwrap().words(), [1100 + 7, 0, 0, 0]);
    assert_eq!(t.max_priority_fee_per_gas.unwrap().words(), [7, 0, 0, 0]);
    // a decimal 300000, unlike the 0x300000 of the batched pipeline
    assert_eq!(t.gas.unwrap().words(), [300000, 0, 0, 0]);
    assert_eq!(t.chain_id, Some(137));
    assert_eq!(t.from, Some(p.address()));
    assert_eq!(t.nonce.unwrap().words(), [12, 0, 0, 0]);
    assert_eq!(t.to, Some([9; 20]));
    assert_eq!(t.value.unwrap().words(), [5, 0, 0, 0]);
    assert_eq!(t.data, Some(vec![1, 2]));
}

#[test]
fn replies_are_read_for_their_result() {
    let base = BaseProvider::new("https://node".to_string());
    let reply = b"{\"jsonrpc\":\"2.0\",\"id\":1,\"result\":\"0x1bc16d674ec80000\"}";
    assert_eq!(base.reply_result(reply), Some(b"\"0x1bc16d674ec80000\"".to_vec()));
    assert_eq!(base.reply_quantity(reply).unwrap().words(), [0x1bc16d674ec80000, 0, 0, 0]);
    let error = b"{\"jsonrpc\":\"2.0\",\"id\":1,\"error\":{\"code\":-32000,\"message\":\"x\"}}";
    assert!(base.reply_result(error).is_none());
    assert!(base.reply_quantity(b"{\"result\":null}").is_none());
    assert!(base.reply_quantity(b"{\"result\":\"latest\"}").is_none());
    assert!(base.reply_result(b"not json").is_none());
    assert_eq!(base.reply_result(b"{\"result\": {\"a\" : 1.50}}"), Some(b"{\"a\" : 1.50}".to_vec()));
}
