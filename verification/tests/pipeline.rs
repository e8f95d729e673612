use dvn::provider::receipt::Receipt;
use dvn::chain::{ChainState, RawLog};
use dvn::contracts::base::{BaseContract, RawTopic, RawTopicFilter};
use dvn::contracts::dvn::DVN;
use dvn::gas::CurrentGasConfig;
use dvn::provider::base::{fulfill_responses, RpcResponse};
use dvn::provider::{BlockNumber, Topic};
use dvn::state::GlobalState;
use dvn::task::Task;
use dvn::u256::U256;
use ethers_core::abi::{Contract, Token};
use ethers_core::types::U256 as EthU256;

const ABI: &str = r#"[
  {"type":"event","name":"TaskAssigned","anonymous":false,"inputs":[
    {"name":"dstEid","type":"uint32","indexed":false},
    {"name":"task","type":"bytes","indexed":false},
    {"name":"maxUnitGasPrice","type":"uint256","indexed":false}]},
  {"type":"function","name":"verify","stateMutability":"nonpayable",
   "inputs":[{"name":"task","type":"bytes"}],"outputs":[]}
]"#;

const DVN_ADDRESS: &str = "0x7f6fa7938ff66db7944af8ca326900fd62ed5862";

fn abi() -> Contract {
    Contract::load(ABI.as_bytes()).unwrap()
}

fn topic0() -> [u8; 32] {
    abi().event("TaskAssigned").unwrap().signature().0
}

fn raw_log(dst: u64, task: &[u8], gas: u64) -> RawLog {
    let data = ethers_core::abi::encode(&[
        Token::Uint(EthU256::from(dst)),
        Token::Bytes(task.to_vec()),
        Token::Uint(EthU256::from(gas)),
    ]);
    RawLog { topics: vec![topic0()], data }
}

fn s(b: &[u8]) -> String {
    String::from_utf8(b.to_vec()).unwrap()
}

fn chain() -> ChainState {
    ChainState::new(
        vec!["https://a".to_string(), "https://b".to_string()],
        42161,
        30110,
        DVN_ADDRESS,
        [0x33; 20],
        100,
    )
}

fn fees(base: u64, priority: u64) -> CurrentGasConfig {
    CurrentGasConfig { base_fees: U256::from_u64(base), priority_fees: U256::from_u64(priority) }
}

#[test]
fn jobs_filter_asks_for_task_assigned_events_of_the_contract() {
    let dvn = DVN::new([0x44; 20], 1);
    let f = dvn.jobs_filter(&abi(), BlockNumber::Number(5), BlockNumber::Latest).unwrap();
    assert_eq!(f.address, [0x44; 20]);
    assert_eq!(f.from, BlockNumber::Number(5));
    assert_eq!(f.to, BlockNumber::Latest);
    assert!(matches!(f.topics.topic0, Topic::This(h) if h == topic0()));
    assert!(matches!(f.topics.topic1, Topic::Any));
    let empty = Contract::load("[]".as_bytes()).unwrap();
    assert!(dvn.jobs_filter(&empty, BlockNumber::Number(5), BlockNumber::Latest).is_none());
}

#[test]
fn event_topic_filter_with_values() {
    let raw = RawTopicFilter { topic0: RawTopic::Any, topic1: RawTopic::Any, topic2: RawTopic::Any };
    assert!(BaseContract::event_topic_filter(&abi(), "Missing", raw).is_none());
}

#[test]
fn jobs_parse_reads_the_task_of_a_log() {
    let dvn = DVN::new([0x44; 20], 42161);
    let log = raw_log(30101, b"payload", 1_000_000);
    let task = dvn.jobs_parse(&abi(), log.topics, log.data).unwrap();
    assert_eq!(task.src_chain, 42161);
    assert_eq!(task.dest_chain, 30101);
    assert_eq!(task.gas.words(), [1_000_000, 0, 0, 0]);
    assert_eq!(task.message, Token::Bytes(b"payload".to_vec()));
    assert!(dvn.jobs_parse(&abi(), vec![[0u8; 32]], vec![1, 2, 3]).is_none());
}

#[test]
fn verify_config_calls_verify_with_gas_0x300000() {
    let dvn = DVN::new([0x44; 20], 1);
    let task = Task::new(1, 2, U256::from_u64(3), Token::Bytes(b"job".to_vec()));
    let config = dvn.verify_config(&abi(), &task).unwrap();
    assert_eq!(config.gas.words(), [0x300000, 0, 0, 0]);
    let expected = abi().function("verify").unwrap().encode_input(&[Token::Bytes(b"job".to_vec())]).unwrap();
    assert_eq!(config.data, expected);
    assert_eq!(
        BaseContract::function_data(&abi(), "verify", &[Token::Bytes(b"job".to_vec())]),
        Some(expected)
    );
    assert!(BaseContract::function_data(&abi(), "missing", &[]).is_none());
    assert!(BaseContract::function_data(&abi(), "verify", &[Token::Bool(true)]).is_none());
}

fn answer(id: u32, result: &str) -> RpcResponse {
    RpcResponse { id, result: Some(result.as_bytes().to_vec()), result_items: None, error: None }
}

#[test]
fn chain_starts_from_the_current_block() {
    let mut c = chain();
    assert!(ChainState::try_new(vec![], 1, 2, "not an address", [0; 20], 0).is_none());
    assert_eq!(c.id(), 42161);
    assert_eq!(c.endpoint(), 30110);
    assert!(c.ready());
    let (receipts, mut request) = c.begin_init();
    assert_eq!(request.url, "https://b");
    assert_eq!(request.max_response_bytes, 1240);
    let body = s(&request.body);
    assert!(body.starts_with("[{\"jsonrpc\":\"2.0\",\"id\":0,\"method\":\"eth_blockNumber\"}"));
    assert!(body.contains(&format!("\"params\":[\"0x{}\",\"latest\"]", "33".repeat(20))));
    fulfill_responses(&mut request.batch, vec![answer(0, "\"0x64\""), answer(1, "\"0x5\""), answer(2, "\"0x10\""), answer(3, "\"0x1\"")]);
    assert_eq!(s(&receipts.block_number.take(&request.batch)), "\"0x64\"");
    assert_eq!(s(&receipts.nonce.take(&request.batch)), "\"0x5\"");
    assert_eq!(receipts.nonce.take_quantity(&request.batch).unwrap().words(), [5, 0, 0, 0]);
    assert_eq!(receipts.block_number.take_quantity(&request.batch).unwrap().words(), [0x64, 0, 0, 0]);
    let read = receipts.gas.take_fees(&request.batch).unwrap();
    assert_eq!((read.base_fees.words()[0], read.priority_fees.words()[0]), (0x10, 1));
    c.finish_init(U256::from_u64(0x64), U256::from_u64(5), fees(0x10, 1));

    let (check, check_request) = c.begin_check(&abi()).unwrap();
    assert_eq!(check.logs.id, 0);
    assert_eq!(check_request.url, "https://a");
    assert_eq!(check_request.max_response_bytes, 9160);
    let body = s(&check_request.body);
    assert!(body.contains("\"method\":\"eth_getLogs\",\"params\":[{\"fromBlock\":\"0x64\",\"toBlock\":\"latest\""));
    assert!(body.contains(&DVN_ADDRESS.to_string()));
}

#[test]
fn tasks_are_approved_once_two_checks_saw_them_and_answered_in_order() {
    let mut c = chain();
    c.finish_init(U256::from_u64(10), U256::from_u64(5), fees(100, 2));
    let logs = || vec![raw_log(30101, b"one", 7), raw_log(30102, b"two", 8)];
    let tasks = c.parse_logs(&abi(), logs()).unwrap();
    assert_eq!(tasks.len(), 2);
    assert!(c.check_finish(2, &U256::from_u64(20)));
    assert!(c.finish_check(tasks, fees(100, 2), U256::from_u64(20)).is_empty());
    let again = c.parse_logs(&abi(), logs()).unwrap();
    let approved = c.finish_check(again, fees(200, 3), U256::from_u64(30));
    assert_eq!(approved.len(), 2);
    assert_eq!(approved[0].message, Token::Bytes(b"one".to_vec()));
    assert!(c.check_process(2));
    let txns = c.process_tasks(&abi(), approved).unwrap();
    assert_eq!(txns.len(), 2);
    assert_eq!(txns[0].nonce.unwrap().words(), [5, 0, 0, 0]);
    assert_eq!(txns[1].nonce.unwrap().words(), [6, 0, 0, 0]);
    for t in &txns {
        assert_eq!(t.chain_id, Some(42161));
        assert_eq!(t.from, Some([0x33; 20]));
        assert_eq!(t.gas.unwrap().words(), [0x300000, 0, 0, 0]);
        assert_eq!(t.max_fee_per_gas.unwrap().words(), [220 + 3, 0, 0, 0]);
        assert_eq!(t.max_priority_fee_per_gas.unwrap().words(), [3, 0, 0, 0]);
    }
    let (receipt, request) = c.send(vec![1, 2, 3]);
    assert_eq!(receipt.id, 0);
    assert_eq!(request.max_response_bytes, 1100);
    assert_eq!(
        s(&request.body),
        "[{\"jsonrpc\":\"2.0\",\"id\":0,\"method\":\"eth_sendRawTransaction\",\"params\":[\"0x010203\"]}]"
    );
}

#[test]
fn a_log_that_names_no_task_fails_the_check() {
    let c = chain();
    let bad = RawLog { topics: vec![topic0()], data: vec![0; 5] };
    assert!(c.parse_logs(&abi(), vec![raw_log(1, b"x", 1), bad]).is_none());
    assert_eq!(c.parse_logs(&abi(), vec![]).map(|v| v.len()), Some(0));
}

#[test]
fn global_state_finds_chains_by_endpoint_id() {
    let mut g = GlobalState::init("dfx_test_key".to_string());
    assert_eq!(g.num_chains(), 0);
    assert_eq!(g.try_chain_by_id(30110), None);
    let first = g.add_chain(chain());
    let second = g.add_chain(
        ChainState::new(vec!["https://c".to_string()], 137, 30109, DVN_ADDRESS, [0; 20], 0),
    );
    assert_eq!((first, second), (0, 1));
    assert_eq!(g.num_chains(), 2);
    assert_eq!(g.chain_by_id(30109), 1);
    assert_eq!(g.chain_by_id(30110), 0);
    assert_eq!(g.try_chain_by_id(1), None);
    assert_eq!(g.chain(1).id(), 137);
    g.set_public_key(vec![4; 65]);
    assert_eq!(g.signer().public_key, Some(vec![4; 65]));
    assert_eq!(g.signer().key_name, "dfx_test_key");
}
