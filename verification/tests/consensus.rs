use dvn::consensus::Consensus;
use dvn::state::group_tasks_by_chain;
use dvn::task::Task;
use dvn::u256::U256;
use ethers_core::abi::Token;

fn task(dest: u64, payload: &[u8]) -> Task {
    Task::new(1, dest, U256::from_u64(100), Token::Bytes(payload.to_vec()))
}

fn messages(ts: &[Task]) -> Vec<Token> {
    ts.iter().map(|t| t.message.clone()).collect()
}

#[test]
fn a_task_is_approved_on_its_second_sighting() {
    let mut c = Consensus::new();
    let first = c.consensus(vec![task(30101, b"a"), task(30102, b"b")]);
    assert!(first.is_empty());
    let second = c.consensus(vec![task(30101, b"a"), task(30103, b"c")]);
    assert_eq!(messages(&second), vec![Token::Bytes(b"a".to_vec())]);
    assert_eq!(second[0].dest_chain, 30101);
    let third = c.consensus(vec![task(30101, b"a"), task(30102, b"b"), task(30103, b"c")]);
    assert_eq!(messages(&third), vec![Token::Bytes(b"b".to_vec()), Token::Bytes(b"c".to_vec())]);
}

#[test]
fn a_task_seen_twice_in_one_call_is_approved_once() {
    let mut c = Consensus::new();
    let r = c.consensus(vec![task(1, b"x"), task(1, b"x"), task(1, b"x")]);
    assert_eq!(messages(&r), vec![Token::Bytes(b"x".to_vec())]);
    let later = c.consensus(vec![task(1, b"x")]);
    assert!(later.is_empty());
}

#[test]
fn tasks_that_differ_in_any_field_are_counted_apart() {
    let mut c = Consensus::new();
    let a = Task::new(1, 2, U256::from_u64(3), Token::Bytes(vec![1]));
    let b = Task::new(1, 2, U256::from_u64(4), Token::Bytes(vec![1]));
    let d = Task::new(9, 2, U256::from_u64(3), Token::Bytes(vec![1]));
    let e = Task::new(1, 2, U256::from_u64(3), Token::Bytes(vec![2]));
    assert!(c.consensus(vec![a, b, d, e]).is_empty());
    assert!(c.room_for(10));
}

#[test]
fn task_key_is_its_json() {
    let t = Task::new(10, 30101, U256::from_u64(0x1f), Token::Bool(true));
    let key = String::from_utf8(t.key_bytes()).unwrap();
    let expected = format!(
        "{{\"src_chain\":10,\"dest_chain\":30101,\"gas\":\"0x1f\",\"message\":{}}}",
        String::from_utf8(serde_json::to_vec(&Token::Bool(true)).unwrap()).unwrap()
    );
    assert_eq!(key, expected);
    let zero = Task::new(0, 0, U256::zero(), Token::Bool(false));
    assert!(String::from_utf8(zero.key_bytes()).unwrap().contains("\"gas\":\"0x0\""));
}

#[test]
fn tasks_are_grouped_by_destination_in_order() {
    let tasks = vec![task(7, b"1"), task(8, b"2"), task(7, b"3"), task(9, b"4"), task(8, b"5")];
    let groups = group_tasks_by_chain(tasks);
    let chains: Vec<u64> = groups.iter().map(|g| g.0).collect();
    assert_eq!(chains, vec![7, 8, 9]);
    assert_eq!(messages(&groups[0].1), vec![Token::Bytes(b"1".to_vec()), Token::Bytes(b"3".to_vec())]);
    assert_eq!(messages(&groups[1].1), vec![Token::Bytes(b"2".to_vec()), Token::Bytes(b"5".to_vec())]);
    assert_eq!(messages(&groups[2].1), vec![Token::Bytes(b"4".to_vec())]);
    assert!(group_tasks_by_chain(vec![]).is_empty());
}
