//! JSON-RPC access to a chain: requests are queued, sent together in one
//! batch over HTTP, and read back through receipts.
pub mod base;
pub mod batch;
pub mod receipt;

use vstd::prelude::*;
use crate::provider::base::{BaseProvider, HttpBatchRequest, idempotency_key, request_json};
use crate::provider::receipt::{CurrentGasConfigReceipt, GenericReceipt};
use crate::text::{
    append_ascii, append_bytes, append_hex_of_bytes, ascii_bytes, hex_numeral, hex_of_bytes,
    comma_join, json_array, json_strings,
};
use crate::u256::U256;
use ethers_core::types::{BlockNumber as EthBlock, Filter, FilterBlockOption, ValueOrArray, H160, H256};

verus! {

/// A block named in a log filter.
#[derive(Clone, Copy, Debug, PartialEq, Eq, Structural)]
pub enum BlockNumber {
    Latest,
    Finalized,
    Safe,
    Earliest,
    Pending,
    Number(u64),
}

/// A condition on one topic of a log.
#[derive(Debug)]
pub enum Topic {
    /// Any value.
    Any,
    /// One of the given values.
    OneOf(Vec<[u8; 32]>),
    /// Exactly this value.
    This([u8; 32]),
}

/// The conditions on the four topics of a log.
#[derive(Debug)]
pub struct TopicFilter {
    pub topic0: Topic,
    pub topic1: Topic,
    pub topic2: Topic,
    pub topic3: Topic,
}

/// Which logs to fetch: those of one contract in a block range whose topics
/// match.
#[derive(Debug)]
pub struct LogFilter {
    pub address: [u8; 20],
    pub from: BlockNumber,
    pub to: BlockNumber,
    pub topics: TopicFilter,
}

/// The JSON string of a block number: `"0x…"` with the number in lowercase
/// hexadecimal, or the block's tag.
pub open spec fn block_json(b: BlockNumber) -> Seq<u8> {
    match b {
        BlockNumber::Number(n) => ascii_bytes("\"0x"@) + hex_numeral(n as nat) + ascii_bytes("\""@),
        BlockNumber::Latest => ascii_bytes("\"latest\""@),
        BlockNumber::Finalized => ascii_bytes("\"finalized\""@),
        BlockNumber::Safe => ascii_bytes("\"safe\""@),
        BlockNumber::Earliest => ascii_bytes("\"earliest\""@),
        BlockNumber::Pending => ascii_bytes("\"pending\""@),
    }
}

/// The JSON string of bytes: `"0x"` and two lowercase hex digits per byte.
pub open spec fn hex_string_json(b: Seq<u8>) -> Seq<u8> {
    ascii_bytes("\"0x"@) + hex_of_bytes(b) + ascii_bytes("\""@)
}

/// The value a topic condition puts into the request: only an exact value
/// is kept.
pub open spec fn topic_value(t: Topic) -> Option<Seq<u8>> {
    match t {
        Topic::This(h) => Some(h@),
        _ => None,
    }
}

/// The topic values without the trailing absent ones.
pub open spec fn trim_trailing(ts: Seq<Option<Seq<u8>>>) -> Seq<Option<Seq<u8>>>
    decreases ts.len(),
{
    if ts.len() == 0 {
        ts
    } else if ts.last() is None {
        trim_trailing(ts.drop_last())
    } else {
        ts
    }
}

/// The JSON of one topic value: its hex string, or `null`.
pub open spec fn topic_json(t: Option<Seq<u8>>) -> Seq<u8> {
    match t {
        Some(h) => hex_string_json(h),
        None => ascii_bytes("null"@),
    }
}

/// The `topics` array: trailing absent values are left out, others are
/// `null`.
pub open spec fn topics_json(ts: Seq<Option<Seq<u8>>>) -> Seq<u8> {
    json_array(trim_trailing(ts).map_values(|t: Option<Seq<u8>>| topic_json(t)))
}

/// The topic values of a filter, in order.
pub open spec fn filter_topics(f: TopicFilter) -> Seq<Option<Seq<u8>>> {
    seq![topic_value(f.topic0), topic_value(f.topic1), topic_value(f.topic2), topic_value(f.topic3)]
}

/// The JSON object of a log filter, as `ethers_core` writes a `Filter`.
pub open spec fn filter_json(f: LogFilter) -> Seq<u8> {
    ascii_bytes("{\"fromBlock\":"@) + block_json(f.from) + ascii_bytes(",\"toBlock\":"@) + block_json(
        f.to,
    ) + ascii_bytes(",\"address\":"@) + hex_string_json(f.address@) + ascii_bytes(",\"topics\":"@)
        + topics_json(filter_topics(f.topics)) + ascii_bytes("}"@)
}

pub(crate) fn append_hex_string_json(out: &mut Vec<u8>, b: &[u8])
    ensures
        final(out)@ == old(out)@ + hex_string_json(b@),
{
    proof {
        reveal_strlit("\"0x");
        reveal_strlit("\"");
    }
    let ghost start = out@;
    append_ascii(out, "\"0x");
    append_hex_of_bytes(out, b);
    append_ascii(out, "\"");
    assert(out@ =~= start + hex_string_json(b@));
}

fn topic_of(t: &Topic) -> (r: Option<[u8; 32]>)
    ensures
        match r {
            Some(h) => topic_value(*t) == Some(h@),
            None => topic_value(*t) is None,
        },
{
    match t {
        Topic::This(h) => Some(*h),
        _ => None,
    }
}

/// `serde_json::to_vec` of the `ethers_core` `Filter` of a block range, an
/// address and topic values, moved over one for one. Its hand-written
/// `Serialize` writes `fromBlock`, `toBlock` (hex number or tag),
/// `address` and `topics`: the values up to the last present one, an absent
/// one before it as `null`. Claims the bytes are `filter_json` of the filter.
#[verifier::external_body]
fn ethers_filter_json(f: &LogFilter, topics: [Option<[u8; 32]>; 4]) -> (r: Vec<u8>)
    requires
        forall|i: int|
            0 <= i < 4 ==> match #[trigger] topics@[i] {
                Some(h) => filter_topics(f.topics)[i] == Some(h@),
                None => filter_topics(f.topics)[i] is None,
            },
    ensures
        r@ == filter_json(*f),
{
    let b = |n: BlockNumber| match n {
        BlockNumber::Latest => EthBlock::Latest,
        BlockNumber::Finalized => EthBlock::Finalized,
        BlockNumber::Safe => EthBlock::Safe,
        BlockNumber::Earliest => EthBlock::Earliest,
        BlockNumber::Pending => EthBlock::Pending,
        BlockNumber::Number(x) => EthBlock::Number(x.into()),
    };
    let block_option = FilterBlockOption::Range { from_block: Some(b(f.from)), to_block: Some(b(f.to)) };
    let topics = topics.map(|t| t.map(|h| ValueOrArray::Value(Some(H256(h)))));
    let filter = Filter { block_option, address: Some(ValueOrArray::Value(H160(f.address))), topics };
    serde_json::to_vec(&filter).unwrap()
}

/// Appends the JSON object of a log filter: a topic condition is sent only
/// where it names one exact value.
pub fn append_filter_json(out: &mut Vec<u8>, f: &LogFilter)
    ensures
        final(out)@ == old(out)@ + filter_json(*f),
{
    let topics = [topic_of(&f.topics.topic0), topic_of(&f.topics.topic1), topic_of(&f.topics.topic2), topic_of(&f.topics.topic3)];
    let json = ethers_filter_json(f, topics);
    append_bytes(out, json.as_slice());
}

/// The JSON-RPC client of one chain, with one method per request kind.
pub struct Provider {
    pub base: BaseProvider,
}

/// Whether `n` more requests allowing `bytes` more response bytes fit into
/// the pending batch of a provider.
pub open spec fn can_issue(p: BaseProvider, n: nat, bytes: nat) -> bool {
    &&& p.wf()
    &&& p.batcher().requests().len() + n <= u32::MAX + 1
    &&& p.batcher().max_bytes() + bytes <= u64::MAX
}

impl Provider {
    /// A provider for the given RPC URLs (see `BaseProvider::new`).
    pub fn new(urls: Vec<String>, cycles_balance: u128) -> (r: Provider)
        ensures
            r.base.wf(),
            r.base.urls() == urls@.map_values(|u: String| u@),
            r.base.batcher().requests() == Seq::<Seq<u8>>::empty(),
            r.base.batcher().methods() == Seq::<Seq<char>>::empty(),
            r.base.batcher().max_bytes() == 0,
            r.base.counter() == 0,
    {
        Provider { base: BaseProvider::new(urls, cycles_balance) }
    }

    /// Queues `eth_blockNumber`.
    pub fn block_number(&mut self) -> (r: GenericReceipt)
        requires
            can_issue(old(self).base, 1, 0),
        ensures
            final(self).base.wf(),
            r.id == old(self).base.batcher().requests().len(),
            final(self).base.batcher().requests() == old(self).base.batcher().requests().push(
                request_json(r.id as nat, "eth_blockNumber"@, None),
            ),
            final(self).base.batcher().max_bytes() == old(self).base.batcher().max_bytes(),
            final(self).base.urls() == old(self).base.urls(),
            final(self).base.counter() == old(self).base.counter(),
            final(self).base.batcher().methods() == old(self).base.batcher().methods().push("eth_blockNumber"@),
            final(self).base.last_used() == old(self).base.last_used(),
            final(self).base.uid() == old(self).base.uid(),
    {
        self.base.issue_request("eth_blockNumber", None, 0)
    }

    /// Queues `eth_getTransactionCount` of an account at the latest block.
    pub fn nonce(&mut self, account: &[u8; 20]) -> (r: GenericReceipt)
        requires
            can_issue(old(self).base, 1, 80),
        ensures
            final(self).base.wf(),
            r.id == old(self).base.batcher().requests().len(),
            final(self).base.batcher().requests() == old(self).base.batcher().requests().push(
                request_json(
                    r.id as nat,
                    "eth_getTransactionCount"@,
                    Some(
                        ascii_bytes("["@) + hex_string_json(account@) + ascii_bytes(
                            ",\"latest\"]"@,
                        ),
                    ),
                ),
            ),
            final(self).base.batcher().max_bytes() == old(self).base.batcher().max_bytes() + 80,
            final(self).base.urls() == old(self).base.urls(),
            final(self).base.counter() == old(self).base.counter(),
            final(self).base.batcher().methods() == old(self).base.batcher().methods().push("eth_getTransactionCount"@),
            final(self).base.last_used() == old(self).base.last_used(),
            final(self).base.uid() == old(self).base.uid(),
    {
        let mut params: Vec<u8> = Vec::new();
        proof {
            reveal_strlit("[");
            reveal_strlit(",\"latest\"]");
        }
        append_ascii(&mut params, "[");
        append_hex_string_json(&mut params, account.as_slice());
        append_ascii(&mut params, ",\"latest\"]");
        self.base.issue_request("eth_getTransactionCount", Some(params), 80)
    }

    /// Queues `eth_gasPrice` (the base fee) and then
    /// `eth_maxPriorityFeePerGas`.
    pub fn gas(&mut self) -> (r: CurrentGasConfigReceipt)
        requires
            can_issue(old(self).base, 2, 160),
        ensures
            final(self).base.wf(),
            r.base_fees_receipt.id == old(self).base.batcher().requests().len(),
            r.priority_fees_receipt.id == old(self).base.batcher().requests().len() + 1,
            final(self).base.batcher().requests() == old(self).base.batcher().requests().push(
                request_json(r.base_fees_receipt.id as nat, "eth_gasPrice"@, None),
            ).push(request_json(r.priority_fees_receipt.id as nat, "eth_maxPriorityFeePerGas"@, None)),
            final(self).base.batcher().max_bytes() == old(self).base.batcher().max_bytes() + 160,
            final(self).base.urls() == old(self).base.urls(),
            final(self).base.counter() == old(self).base.counter(),
            final(self).base.batcher().methods() == old(self).base.batcher().methods().push("eth_gasPrice"@).push(
                "eth_maxPriorityFeePerGas"@,
            ),
            final(self).base.last_used() == old(self).base.last_used(),
            final(self).base.uid() == old(self).base.uid(),
    {
        let base_fees = self.base.issue_request("eth_gasPrice", None, 80);
        let priority_fees = self.base.issue_request("eth_maxPriorityFeePerGas", None, 80);
        CurrentGasConfigReceipt::new(base_fees, priority_fees)
    }

    /// Queues `eth_sendRawTransaction` of a signed transaction.
    pub fn send(&mut self, txn: Vec<u8>) -> (r: GenericReceipt)
        requires
            can_issue(old(self).base, 1, 100),
        ensures
            final(self).base.wf(),
            r.id == old(self).base.batcher().requests().len(),
            final(self).base.batcher().requests() == old(self).base.batcher().requests().push(
                request_json(
                    r.id as nat,
                    "eth_sendRawTransaction"@,
                    Some(ascii_bytes("["@) + hex_string_json(txn@) + ascii_bytes("]"@)),
                ),
            ),
            final(self).base.batcher().max_bytes() == old(self).base.batcher().max_bytes() + 100,
            final(self).base.urls() == old(self).base.urls(),
            final(self).base.counter() == old(self).base.counter(),
            final(self).base.batcher().methods() == old(self).base.batcher().methods().push("eth_sendRawTransaction"@),
            final(self).base.last_used() == old(self).base.last_used(),
            final(self).base.uid() == old(self).base.uid(),
    {
        let mut params: Vec<u8> = Vec::new();
        proof {
            reveal_strlit("[");
            reveal_strlit("]");
        }
        append_ascii(&mut params, "[");
        append_hex_string_json(&mut params, txn.as_slice());
        append_ascii(&mut params, "]");
        self.base.issue_request("eth_sendRawTransaction", Some(params), 100)
    }

    /// Queues `eth_getLogs` with a filter.
    pub fn logs(&mut self, filter: LogFilter) -> (r: GenericReceipt)
        requires
            can_issue(old(self).base, 1, 8000),
        ensures
            final(self).base.wf(),
            r.id == old(self).base.batcher().requests().len(),
            final(self).base.batcher().requests() == old(self).base.batcher().requests().push(
                request_json(
                    r.id as nat,
                    "eth_getLogs"@,
                    Some(ascii_bytes("["@) + filter_json(filter) + ascii_bytes("]"@)),
                ),
            ),
            final(self).base.batcher().max_bytes() == old(self).base.batcher().max_bytes() + 8000,
            final(self).base.urls() == old(self).base.urls(),
            final(self).base.counter() == old(self).base.counter(),
            final(self).base.batcher().methods() == old(self).base.batcher().methods().push("eth_getLogs"@),
            final(self).base.last_used() == old(self).base.last_used(),
            final(self).base.uid() == old(self).base.uid(),
    {
        let mut params: Vec<u8> = Vec::new();
        proof {
            reveal_strlit("[");
            reveal_strlit("]");
        }
        append_ascii(&mut params, "[");
        append_filter_json(&mut params, &filter);
        append_ascii(&mut params, "]");
        self.base.issue_request("eth_getLogs", Some(params), 8000)
    }

    /// Takes the queued requests as one batch (see `BaseProvider::commit`).
    pub fn commit(&mut self) -> (r: HttpBatchRequest)
        requires
            old(self).base.wf(),
            old(self).base.urls().len() > 0,
            old(self).base.counter() < u128::MAX,
            old(self).base.batcher().max_bytes() + 1000 <= u64::MAX,
        ensures
            final(self).base.wf(),
            r.body@ == json_array(old(self).base.batcher().requests()),
            r.max_response_bytes == old(self).base.batcher().max_bytes() + 1000,
            r.batch.wf(),
            r.batch.sent(),
            r.batch.requests() == old(self).base.batcher().requests(),
            r.batch.methods() == old(self).base.batcher().methods(),
            forall|i: int| 0 <= i < r.batch.requests().len() ==> #[trigger] r.batch.result(i) is None,
            final(self).base.batcher().requests() == Seq::<Seq<u8>>::empty(),
            final(self).base.batcher().max_bytes() == 0,
            final(self).base.counter() == old(self).base.counter() + 1,
            final(self).base.urls() == old(self).base.urls(),
            final(self).base.last_used() == (old(self).base.last_used() + 1) % old(self).base.urls().len(),
            r.url@ == old(self).base.urls()[final(self).base.last_used() as int],
            r.idempotency_key@ == idempotency_key(old(self).base.uid(), old(self).base.counter()),
            r.transform_context@ == json_array(json_strings(old(self).base.batcher().methods())),
            final(self).base.batcher().methods() == Seq::<Seq<char>>::empty(),
            final(self).base.uid() == old(self).base.uid(),
    {
        self.base.commit()
    }
}

} // verus!
