use dvn::provider::receipt::Receipt;
use dvn::provider::base::{check_responses, fulfill_responses, transform_rpc, BaseProvider, RpcResponse};
use dvn::provider::batch::Batcher;
use dvn::provider::{BlockNumber, LogFilter, Provider, Topic, TopicFilter};
use ethers_core::types::{Filter, FilterBlockOption, ValueOrArray, H160, H256};

fn s(b: &[u8]) -> String {
    String::from_utf8(b.to_vec()).unwrap()
}

fn urls() -> Vec<String> {
    vec!["https://rpc-a.example".to_string(), "https://rpc-b.example".to_string()]
}

fn any_topics() -> TopicFilter {
    TopicFilter { topic0: Topic::Any, topic1: Topic::Any, topic2: Topic::Any, topic3: Topic::Any }
}

#[test]
fn uid_hashes_the_urls_and_the_cycle_balance() {
    let mut p = BaseProvider::new(urls(), 987654321);
    let expected_uid = blake3::hash(b"https://rpc-a.examplehttps://rpc-b.example987654321").to_string();
    let first = p.commit();
    assert_eq!(s(&first.idempotency_key), format!("{}-0", expected_uid));
    let second = p.commit();
    assert_eq!(s(&second.idempotency_key), format!("{}-1", expected_uid));
    assert_ne!(first.idempotency_key, second.idempotency_key);
}

#[test]
fn batches_go_round_robin_starting_after_the_first_url() {
    let mut p = BaseProvider::new(urls(), 0);
    assert_eq!(p.url_count(), 2);
    assert_eq!(p.commit().url, "https://rpc-b.example");
    assert_eq!(p.commit().url, "https://rpc-a.example");
    assert_eq!(p.commit().url, "https://rpc-b.example");
    assert_eq!(p.batch_counter(), 3);
    let mut single = BaseProvider::new(vec!["https://only".to_string()], 5);
    assert_eq!(single.commit().url, "https://only");
    assert_eq!(single.commit().url, "https://only");
}

#[test]
fn requests_are_framed_as_json_rpc_and_batched() {
    let mut p = Provider::new(urls(), 1);
    let a = p.block_number();
    let b = p.nonce(&[0xab; 20]);
    assert_eq!((a.id, b.id), (0, 1));
    let batch = p.commit();
    let body = s(&batch.body);
    let expected = format!(
        "[{{\"jsonrpc\":\"2.0\",\"id\":0,\"method\":\"eth_blockNumber\"}},{{\"jsonrpc\":\"2.0\",\"id\":1,\"method\":\"eth_getTransactionCount\",\"params\":[\"0x{}\",\"latest\"]}}]",
        "ab".repeat(20)
    );
    assert_eq!(body, expected);
    assert_eq!(batch.max_response_bytes, 80 + 1000);
    assert_eq!(s(&batch.transform_context), "[\"eth_blockNumber\",\"eth_getTransactionCount\"]");
    // the queue is empty again: the next batch starts at id 0
    assert_eq!(p.block_number().id, 0);
}

#[test]
fn gas_and_send_requests() {
    let mut p = Provider::new(urls(), 1);
    let gas = p.gas();
    assert_eq!((gas.base_fees_receipt.id, gas.priority_fees_receipt.id), (0, 1));
    let send = p.send(vec![0x02, 0xf8, 0x00]);
    assert_eq!(send.id, 2);
    let batch = p.commit();
    assert_eq!(
        s(&batch.body),
        "[{\"jsonrpc\":\"2.0\",\"id\":0,\"method\":\"eth_gasPrice\"},{\"jsonrpc\":\"2.0\",\"id\":1,\"method\":\"eth_maxPriorityFeePerGas\"},{\"jsonrpc\":\"2.0\",\"id\":2,\"method\":\"eth_sendRawTransaction\",\"params\":[\"0x02f800\"]}]"
    );
    assert_eq!(batch.max_response_bytes, 80 + 80 + 100 + 1000);
}

#[test]
fn log_filters_are_written_as_ethers_writes_them() {
    let mut p = Provider::new(urls(), 1);
    let filter = LogFilter {
        address: [0x11; 20],
        from: BlockNumber::Number(16),
        to: BlockNumber::Latest,
        topics: TopicFilter { topic0: Topic::This([0xaa; 32]), topic1: Topic::Any, topic2: Topic::This([0x0b; 32]), topic3: Topic::Any },
    };
    p.logs(filter);
    let batch = p.commit();
    let ethers_filter = Filter {
        block_option: FilterBlockOption::Range {
            from_block: Some(ethers_core::types::BlockNumber::Number(16u64.into())),
            to_block: Some(ethers_core::types::BlockNumber::Latest),
        },
        address: Some(ValueOrArray::Value(H160([0x11; 20]))),
        topics: [
            Some(ValueOrArray::Value(Some(H256([0xaa; 32])))),
            None,
            Some(ValueOrArray::Value(Some(H256([0x0b; 32])))),
            None,
        ],
    };
    let expected = format!(
        "[{{\"jsonrpc\":\"2.0\",\"id\":0,\"method\":\"eth_getLogs\",\"params\":[{}]}}]",
        serde_json::to_string(&ethers_filter).unwrap()
    );
    assert_eq!(s(&batch.body), expected);
    assert_eq!(batch.max_response_bytes, 8000 + 1000);
}

#[test]
fn log_filter_block_tags_and_no_topics() {
    let mut p = Provider::new(urls(), 1);
    p.logs(LogFilter { address: [0; 20], from: BlockNumber::Earliest, to: BlockNumber::Pending, topics: any_topics() });
    p.logs(LogFilter { address: [0; 20], from: BlockNumber::Safe, to: BlockNumber::Finalized, topics: any_topics() });
    p.logs(LogFilter { address: [0; 20], from: BlockNumber::Number(0), to: BlockNumber::Number(255), topics: any_topics() });
    let body = s(&p.commit().body);
    let zero = "0x".to_string() + &"00".repeat(20);
    assert!(body.contains(&format!("{{\"fromBlock\":\"earliest\",\"toBlock\":\"pending\",\"address\":\"{}\",\"topics\":[]}}", zero)));
    assert!(body.contains("{\"fromBlock\":\"safe\",\"toBlock\":\"finalized\""));
    assert!(body.contains("{\"fromBlock\":\"0x0\",\"toBlock\":\"0xff\""));
}

fn response(id: u32, result: &str) -> RpcResponse {
    RpcResponse { id, result: Some(result.as_bytes().to_vec()), result_items: None, error: None }
}

#[test]
fn a_receipt_reads_the_response_to_its_request() {
    let mut p = Provider::new(urls(), 1);
    let block = p.block_number();
    let gas = p.gas();
    let mut request = p.commit();
    let responses = vec![response(2, "\"0x5\""), response(0, "\"0x10\""), response(1, "\"0x3b9aca00\"")];
    assert!(check_responses(&request.batch, &responses));
    fulfill_responses(&mut request.batch, responses);
    assert_eq!(s(&block.take(&request.batch)), "\"0x10\"");
    let (base, priority) = gas.take(&request.batch);
    assert_eq!((s(&base), s(&priority)), ("\"0x3b9aca00\"".to_string(), "\"0x5\"".to_string()));
}

#[test]
fn responses_that_do_not_fit_the_batch_are_refused() {
    let mut p = Provider::new(urls(), 1);
    p.block_number();
    p.block_number();
    let request = p.commit();
    assert!(!check_responses(&request.batch, &vec![response(2, "1")]));
    assert!(!check_responses(&request.batch, &vec![response(0, "1"), response(0, "2")]));
    let no_result = RpcResponse { id: 0, result: None, result_items: None, error: Some(b"{}".to_vec()) };
    assert!(!check_responses(&request.batch, &vec![no_result]));
    assert!(check_responses(&request.batch, &vec![response(1, "1")]));
    assert!(check_responses(&request.batch, &vec![]));
}

#[test]
fn batcher_queues_with_consecutive_ids() {
    let mut b = Batcher::new();
    assert_eq!(b.next_id(), 0);
    let (r0, id0) = b.queue_request(b"{}".to_vec(), "m0".to_string(), 10);
    let (r1, id1) = b.queue_request(b"[]".to_vec(), "m1".to_string(), 20);
    assert_eq!((r0.id, id0, r1.id, id1), (0, 0, 1, 1));
    assert_eq!(b.next_id(), 2);
    let mut c = b.collect_requests();
    assert_eq!(b.next_id(), 0);
    assert_eq!(c.max_response_bytes(), 30);
    assert_eq!(s(&c.context()), "[\"m0\",\"m1\"]");
    assert_eq!(c.request_count(), 2);
    let data = c.data();
    assert_eq!(s(&dvn::provider::batch::BatchRequestCollection::body(&data)), "[{},[]]");
    assert!(!c.has_result(1));
    c.fulfill(1, b"42".to_vec());
    assert!(c.has_result(1));
    assert_eq!(c.take_result(1), b"42".to_vec());
}

fn logs_response(id: u32, items: &[&str]) -> RpcResponse {
    let items: Vec<Vec<u8>> = items.iter().map(|i| i.as_bytes().to_vec()).collect();
    let text = format!("[{}]", items.iter().map(|i| s(i)).collect::<Vec<_>>().join(","));
    RpcResponse { id, result: Some(text.into_bytes()), result_items: Some(items), error: None }
}

fn methods() -> Vec<String> {
    vec!["eth_getLogs".to_string(), "eth_blockNumber".to_string()]
}

#[test]
fn transform_sorts_logs_and_responses() {
    let responses = vec![
        response(1, "\"0x10\""),
        logs_response(0, &["{\"b\":1}", "{\"a\":2}", "{\"a\":10}"]),
    ];
    let body = transform_rpc(&methods(), &responses);
    assert_eq!(
        s(&body),
        "[{\"id\":0,\"result\":[{\"a\":10},{\"a\":2},{\"b\":1}],\"error\":null},{\"id\":1,\"result\":\"0x10\",\"error\":null}]"
    );
}

#[test]
fn transform_gives_every_replica_the_same_body() {
    let one = vec![logs_response(0, &["{\"x\":1}", "{\"x\":0}"]), response(1, "\"0x10\"")];
    let other = vec![response(1, "\"0x10\""), logs_response(0, &["{\"x\":0}", "{\"x\":1}"])];
    assert_eq!(transform_rpc(&methods(), &one), transform_rpc(&methods(), &other));
}

#[test]
fn transform_keeps_errors_and_empty_results() {
    let err = RpcResponse { id: 1, result: None, result_items: None, error: Some(b"{\"code\":-32000,\"message\":\"x\"}".to_vec()) };
    let body = transform_rpc(&methods(), &vec![err, logs_response(0, &[])]);
    assert_eq!(
        s(&body),
        "[{\"id\":0,\"result\":[],\"error\":null},{\"id\":1,\"result\":null,\"error\":{\"code\":-32000,\"message\":\"x\"}}]"
    );
}

#[test]
fn receipts_decode_quantities_and_logs() {
    let mut p = Provider::new(urls(), 1);
    let logs = p.logs(LogFilter { address: [0; 20], from: BlockNumber::Number(1), to: BlockNumber::Latest, topics: any_topics() });
    let block = p.block_number();
    let gas = p.gas();
    let mut request = p.commit();
    let log = format!(
        "{{\"address\":\"0x{}\",\"topics\":[\"0x{}\"],\"data\":\"0x0102\",\"blockNumber\":\"0x1\",\"transactionHash\":\"0x{}\",\"transactionIndex\":\"0x0\",\"blockHash\":\"0x{}\",\"logIndex\":\"0x0\",\"removed\":false}}",
        "11".repeat(20),
        "aa".repeat(32),
        "bb".repeat(32),
        "cc".repeat(32)
    );
    fulfill_responses(
        &mut request.batch,
        vec![response(0, &format!("[{}]", log)), response(1, "\"0xff\""), response(2, "\"0x3\""), response(3, "\"oops\"")],
    );
    let decoded = logs.take_logs(&request.batch).unwrap();
    assert_eq!(decoded.len(), 1);
    assert_eq!(decoded[0].topics, vec![[0xaa; 32]]);
    assert_eq!(decoded[0].data, vec![1, 2]);
    assert_eq!(block.take_quantity(&request.batch).unwrap().words(), [255, 0, 0, 0]);
    assert!(gas.base_fees_receipt.take_quantity(&request.batch).is_some());
    assert!(gas.priority_fees_receipt.take_quantity(&request.batch).is_none());
    assert!(gas.take_fees(&request.batch).is_none());
    assert!(block.take_logs(&request.batch).is_none());
}

#[test]
fn transform_on_raw_input_splits_log_arrays() {
    let context = b"[\"eth_getLogs\",\"eth_blockNumber\"]";
    let raw = |id: u32, text: &str| RpcResponse { id, result: Some(text.as_bytes().to_vec()), result_items: None, error: None };
    let one = vec![raw(1, "\"0x10\""), raw(0, "[{\"b\":1}, {\"a\":2}]")];
    let body = dvn::provider::base::transform_raw(context, one).unwrap();
    assert_eq!(s(&body), "[{\"id\":0,\"result\":[{\"a\":2},{\"b\":1}],\"error\":null},{\"id\":1,\"result\":\"0x10\",\"error\":null}]");
    let other = vec![raw(0, "[{\"a\":2},{\"b\":1}]"), raw(1, "\"0x10\"")];
    assert_eq!(dvn::provider::base::transform_raw(context, other).unwrap(), body);
    assert!(dvn::provider::base::transform_raw(b"not json", vec![]).is_none());
    assert!(dvn::provider::base::transform_raw(context, vec![raw(2, "1")]).is_none());
    assert!(dvn::provider::base::transform_raw(context, vec![raw(0, "\"not an array\"")]).is_none());
    assert_eq!(s(&dvn::provider::base::transform_raw(context, vec![]).unwrap()), "[]");
}
