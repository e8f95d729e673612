//! The state of one chain and the steps of its task pipeline. Each step
//! queues the JSON-RPC requests it needs and hands back one batch for the
//! HTTP outcall; the step that follows takes the decoded results.
use vstd::prelude::*;
use vstd::string::StringSliceAdditionalSpecFns;
use crate::consensus::{Consensus, approved, counts_after};
use crate::contracts::base::{event_topic_filter_of, function_call_data};
use crate::contracts::dvn::{DVN, any_topics, is_task_of_log, log_has_task};
use crate::gas::{CurrentGasConfig, GasManager, predicted_max_fee, prediction_fits};
use crate::hex::{parse_address, parse_address_spec};
use crate::nonce::NonceManager;
use crate::provider::{BlockNumber, LogFilter, Provider, hex_string_json, filter_json};
use crate::provider::base::{HttpBatchRequest, idempotency_key, request_json};
use crate::provider::receipt::{CurrentGasConfigReceipt, GenericReceipt};
use crate::task::Task;
use crate::text::{ascii_bytes, json_array, json_strings};
use crate::transaction::Transaction;
use crate::u256::{U256, pow256};
use ethers_core::abi::Contract;

verus! {

/// The receipts of the requests that start a chain.
pub struct InitReceipts {
    pub block_number: GenericReceipt,
    pub nonce: GenericReceipt,
    pub gas: CurrentGasConfigReceipt,
}

/// The receipts of the requests that look for new tasks.
pub struct CheckReceipts {
    pub logs: GenericReceipt,
    pub gas: CurrentGasConfigReceipt,
    pub block_number: GenericReceipt,
}

/// A raw event log: its topics and data.
pub struct RawLog {
    pub topics: Vec<[u8; 32]>,
    pub data: Vec<u8>,
}

/// The topics of a raw log, as byte strings.
pub open spec fn log_topics(log: RawLog) -> Seq<Seq<u8>> {
    log.topics@.map_values(|t: [u8; 32]| t@)
}

/// One chain the DVN serves.
pub struct ChainState {
    chain_id: u64,
    endpoint_id: u64,
    dvn: DVN,
    gas: GasManager,
    nonce: NonceManager,
    consensus: Consensus,
    signer_address: [u8; 20],
    provider: Provider,
    last_processed_block: u64,
    last_consensed_block: u64,
}

/// The requests of the first batch of a chain: its block number, the
/// signer's transaction count, the base fee and the priority fee.
pub open spec fn init_requests(signer: Seq<u8>) -> Seq<Seq<u8>> {
    seq![
        request_json(0, "eth_blockNumber"@, None),
        request_json(
            1,
            "eth_getTransactionCount"@,
            Some(ascii_bytes("["@) + hex_string_json(signer) + ascii_bytes(",\"latest\"]"@)),
        ),
        request_json(2, "eth_gasPrice"@, None),
        request_json(3, "eth_maxPriorityFeePerGas"@, None),
    ]
}

/// The requests that look for tasks: the logs matching the filter, the
/// base fee, the priority fee and the block number.
pub open spec fn check_requests(filter: LogFilter) -> Seq<Seq<u8>> {
    seq![
        request_json(0, "eth_getLogs"@, Some(ascii_bytes("["@) + filter_json(filter) + ascii_bytes("]"@))),
        request_json(1, "eth_gasPrice"@, None),
        request_json(2, "eth_maxPriorityFeePerGas"@, None),
        request_json(3, "eth_blockNumber"@, None),
    ]
}

/// Two states of a chain share their configuration: ids, contract, signer,
/// RPC URLs and consensus threshold.
pub open spec fn same_config(a: ChainState, b: ChainState) -> bool {
    &&& a.chain_id() == b.chain_id()
    &&& a.endpoint_id() == b.endpoint_id()
    &&& a.dvn() == b.dvn()
    &&& a.signer_address() == b.signer_address()
    &&& a.rpc_urls() == b.rpc_urls()
    &&& a.threshold() == b.threshold()
}

/// The methods of the first batch of a chain.
pub open spec fn init_methods() -> Seq<Seq<char>> {
    seq!["eth_blockNumber"@, "eth_getTransactionCount"@, "eth_gasPrice"@, "eth_maxPriorityFeePerGas"@]
}

/// The methods of a batch that looks for tasks.
pub open spec fn check_methods() -> Seq<Seq<char>> {
    seq!["eth_getLogs"@, "eth_gasPrice"@, "eth_maxPriorityFeePerGas"@, "eth_blockNumber"@]
}

/// Two states of a chain have sent the same batches: same URL position,
/// batch count and uid.
pub open spec fn same_batches(a: ChainState, b: ChainState) -> bool {
    &&& a.url_position() == b.url_position()
    &&& a.batch_count() == b.batch_count()
    &&& a.provider_uid() == b.provider_uid()
}

/// `b` is `a` after one more batch, whose methods are `methods`: it went to
/// the next URL round-robin, under the next idempotency key.
pub open spec fn one_batch_sent(a: ChainState, b: ChainState, request: HttpBatchRequest, methods: Seq<Seq<char>>) -> bool {
    &&& b.url_position() == (a.url_position() + 1) % a.rpc_urls().len()
    &&& request.url@ == a.rpc_urls()[b.url_position() as int]
    &&& request.idempotency_key@ == idempotency_key(a.provider_uid(), a.batch_count())
    &&& b.batch_count() == a.batch_count() + 1
    &&& b.provider_uid() == a.provider_uid()
    &&& request.batch.methods() == methods
    &&& request.transform_context@ == json_array(json_strings(methods))
}

/// Two states of a chain agree on everything but their pending requests.
pub open spec fn same_except_provider(a: ChainState, b: ChainState) -> bool {
    &&& same_config(a, b)
    &&& a.gas() == b.gas()
    &&& a.next_nonce() == b.next_nonce()
    &&& a.approvals() == b.approvals()
    &&& a.last_processed() == b.last_processed()
    &&& a.last_consensed() == b.last_consensed()
}

impl ChainState {
    pub closed spec fn chain_id(&self) -> u64 {
        self.chain_id
    }

    pub closed spec fn endpoint_id(&self) -> u64 {
        self.endpoint_id
    }

    pub closed spec fn dvn(&self) -> DVN {
        self.dvn
    }

    pub closed spec fn gas(&self) -> (nat, nat) {
        self.gas@
    }

    /// The next nonce of the signer on this chain.
    pub closed spec fn next_nonce(&self) -> nat {
        self.nonce@
    }

    pub closed spec fn approvals(&self) -> Map<Seq<u8>, nat> {
        self.consensus.approvals()
    }

    pub closed spec fn threshold(&self) -> nat {
        self.consensus.threshold()
    }

    pub closed spec fn signer_address(&self) -> Seq<u8> {
        self.signer_address@
    }

    pub closed spec fn rpc_urls(&self) -> Seq<Seq<char>> {
        self.provider.base.urls()
    }

    /// The index of the RPC URL the last batch went to.
    pub closed spec fn url_position(&self) -> nat {
        self.provider.base.last_used()
    }

    /// The number of batches sent so far, which indexes the next batch's
    /// idempotency key.
    pub closed spec fn batch_count(&self) -> nat {
        self.provider.base.counter()
    }

    /// The uid that keys the chain's outcalls.
    pub closed spec fn provider_uid(&self) -> Seq<char> {
        self.provider.base.uid()
    }

    /// The last block whose tasks have been read.
    pub closed spec fn last_processed(&self) -> u64 {
        self.last_processed_block
    }

    /// The last block whose tasks have been read twice, once by each of two
    /// batches.
    pub closed spec fn last_consensed(&self) -> u64 {
        self.last_consensed_block
    }

    /// Nothing is left queued between steps, and the consensus is sound.
    pub closed spec fn wf(&self) -> bool {
        &&& self.provider.base.wf()
        &&& self.provider.base.batcher().requests().len() == 0
        &&& self.provider.base.batcher().methods().len() == 0
        &&& self.provider.base.batcher().max_bytes() == 0
        &&& self.consensus.wf()
    }

    /// A batch can be sent: there is an RPC URL and the batch counter has
    /// not run out.
    pub closed spec fn can_commit(&self) -> bool {
        &&& self.provider.base.urls().len() > 0
        &&& self.provider.base.counter() < u128::MAX
    }

    /// The chain's endpoint id.
    pub fn endpoint(&self) -> (r: u64)
        ensures
            r == self.endpoint_id(),
    {
        self.endpoint_id
    }

    /// The chain id.
    pub fn id(&self) -> (r: u64)
        ensures
            r == self.chain_id(),
    {
        self.chain_id
    }

    /// The last block whose tasks have been counted twice.
    pub fn consensed_block(&self) -> (r: u64)
        ensures
            r == self.last_consensed(),
    {
        self.last_consensed_block
    }

    /// Whether a batch can be sent (see `can_commit`).
    pub fn ready(&self) -> (r: bool)
        ensures
            r == self.can_commit(),
    {
        self.provider.base.url_count() > 0 && self.provider.base.batch_counter() < u128::MAX
    }

    /// A chain served through the given RPC URLs, whose DVN contract has the
    /// given address; nothing read yet.
    pub fn new(
        rpc_urls: Vec<String>,
        chain_id: u64,
        endpoint_id: u64,
        dvn_address: &str,
        signer_address: [u8; 20],
        cycles_balance: u128,
    ) -> (r: ChainState)
        requires
            parse_address_spec(dvn_address.spec_bytes()) is Some,
        ensures
            r.wf(),
            r.chain_id() == chain_id,
            r.endpoint_id() == endpoint_id,
            r.dvn().chain == chain_id,
            Some(r.dvn().address@) == parse_address_spec(dvn_address.spec_bytes()),
            r.signer_address() == signer_address@,
            r.rpc_urls() == rpc_urls@.map_values(|u: String| u@),
            r.gas() == (0nat, 0nat),
            r.next_nonce() == 0,
            r.approvals() == Map::<Seq<u8>, nat>::empty(),
            r.threshold() == 2,
            r.last_processed() == 0,
            r.last_consensed() == 0,
    {
        let provider = Provider::new(rpc_urls, cycles_balance);
        let address = match parse_address(dvn_address) {
            Some(a) => a,
            None => vstd::pervasive::unreached(),
        };
        let dvn = DVN::new(address, chain_id);
        ChainState {
            chain_id,
            endpoint_id,
            dvn,
            gas: GasManager::new(),
            nonce: NonceManager::new(),
            consensus: Consensus::new(),
            signer_address,
            provider,
            last_processed_block: 0,
            last_consensed_block: 0,
        }
    }

    /// The chain of `new`, or `None` where the DVN address does not parse.
    pub fn try_new(
        rpc_urls: Vec<String>,
        chain_id: u64,
        endpoint_id: u64,
        dvn_address: &str,
        signer_address: [u8; 20],
        cycles_balance: u128,
    ) -> (r: Option<ChainState>)
        ensures
            r is Some <==> parse_address_spec(dvn_address.spec_bytes()) is Some,
            r matches Some(c) ==> c.wf() && c.chain_id() == chain_id && c.endpoint_id() == endpoint_id,
    {
        match parse_address(dvn_address) {
            Some(_) => Some(
                ChainState::new(rpc_urls, chain_id, endpoint_id, dvn_address, signer_address, cycles_balance),
            ),
            None => None,
        }
    }

    /// Queues the requests that start the chain and takes them as a batch.
    pub fn begin_init(&mut self) -> (r: (InitReceipts, HttpBatchRequest))
        requires
            old(self).wf(),
            old(self).can_commit(),
        ensures
            final(self).wf(),
            r.0.block_number.id == 0,
            r.0.nonce.id == 1,
            r.0.gas.base_fees_receipt.id == 2,
            r.0.gas.priority_fees_receipt.id == 3,
            r.1.batch.wf(),
            r.1.batch.sent(),
            r.1.batch.requests() == init_requests(old(self).signer_address()),
            forall|i: int| 0 <= i < r.1.batch.requests().len() ==> #[trigger] r.1.batch.result(i) is None,
            r.1.max_response_bytes == 1240,
            one_batch_sent(*old(self), *final(self), r.1, init_methods()),
            same_except_provider(*final(self), *old(self)),
    {
        let block_number = self.provider.block_number();
        let nonce = self.provider.nonce(&self.signer_address);
        let gas = self.provider.gas();
        let request = self.provider.commit();
        proof {
            reveal_strlit("[");
            reveal_strlit(",\"latest\"]");
            assert(request.batch.requests() =~= init_requests(old(self).signer_address()));
            assert(request.batch.methods() =~= init_methods());
        }
        (InitReceipts { block_number, nonce, gas }, request)
    }

    /// Starts the chain from the results of the first batch: the tasks of
    /// the current block and later are read next, transactions start at the
    /// signer's transaction count, and the fees are recorded.
    pub fn finish_init(&mut self, block_number: U256, nonce: U256, gas: CurrentGasConfig)
        requires
            1 <= block_number@ <= u64::MAX,
        ensures
            same_batches(*final(self), *old(self)),
            final(self).last_consensed() == block_number@ - 1,
            final(self).last_processed() == block_number@ - 1,
            final(self).next_nonce() == nonce@,
            final(self).gas() == (gas.base_fees@, gas.priority_fees@),
            old(self).wf() ==> final(self).wf(),
            old(self).can_commit() ==> final(self).can_commit(),
            same_config(*final(self), *old(self)),
            final(self).approvals() == old(self).approvals(),
    {
        self.last_consensed_block = block_number.as_u64() - 1;
        self.last_processed_block = self.last_consensed_block;
        self.nonce.update(nonce);
        self.gas.current_fees(gas);
    }

    /// Queues the requests that look for new tasks, from the block after the
    /// last consensed one to the latest, and takes them as a batch; `None`
    /// where the ABI has no `TaskAssigned` event.
    pub fn begin_check(&mut self, abi: &Contract) -> (r: Option<(CheckReceipts, HttpBatchRequest)>)
        requires
            old(self).wf(),
            old(self).can_commit(),
            old(self).last_consensed() < u64::MAX,
        ensures
            final(self).wf(),
            r is Some <==> event_topic_filter_of(*abi, "TaskAssigned"@, any_topics()) is Some,
            r is None ==> same_batches(*final(self), *old(self)),
            r matches Some((receipts, request)) ==> {
                &&& receipts.logs.id == 0
                &&& receipts.gas.base_fees_receipt.id == 1
                &&& receipts.gas.priority_fees_receipt.id == 2
                &&& receipts.block_number.id == 3
                &&& request.batch.wf()
                &&& request.batch.sent()
                &&& request.max_response_bytes == 9160
                &&& one_batch_sent(*old(self), *final(self), request, check_methods())
                &&& forall|i: int| 0 <= i < request.batch.requests().len() ==> #[trigger] request.batch.result(i) is None
                &&& exists|f: LogFilter|
                    f.address == old(self).dvn().address && f.from == BlockNumber::Number(
                        (old(self).last_consensed() + 1) as u64,
                    ) && f.to == BlockNumber::Latest && Some(f.topics) == event_topic_filter_of(
                        *abi,
                        "TaskAssigned"@,
                        any_topics(),
                    ) && request.batch.requests() == check_requests(f)
            },
            same_except_provider(*final(self), *old(self)),
    {
        let from_block = self.last_consensed_block + 1;
        let filter = match self.dvn.jobs_filter(abi, BlockNumber::Number(from_block), BlockNumber::Latest) {
            Some(f) => f,
            None => {
                return None;
            },
        };
        let ghost f = filter;
        let logs = self.provider.logs(filter);
        let gas = self.provider.gas();
        let block_number = self.provider.block_number();
        let request = self.provider.commit();
        proof {
            reveal_strlit("[");
            reveal_strlit("]");
            assert(request.batch.requests() =~= check_requests(f));
            assert(request.batch.methods() =~= check_methods());
        }
        Some((CheckReceipts { logs, gas, block_number }, request))
    }

    /// The tasks of raw `TaskAssigned` logs, one per log in order, or `None`
    /// where a log does not decode to a task.
    pub fn parse_logs(&self, abi: &Contract, logs: Vec<RawLog>) -> (r: Option<Vec<Task>>)
        ensures
            r is Some <==> forall|i: int|
                0 <= i < logs@.len() ==> log_has_task(*abi, log_topics(#[trigger] logs@[i]), logs@[i].data@),
            r matches Some(ts) ==> ts@.len() == logs@.len() && forall|i: int|
                0 <= i < ts@.len() ==> is_task_of_log(
                    *abi,
                    self.dvn().chain,
                    log_topics(logs@[i]),
                    logs@[i].data@,
                    #[trigger] ts@[i],
                ),
    {
        let ghost orig = logs@;
        let ghost n = logs@.len();
        let mut logs = logs;
        let mut tasks: Vec<Task> = Vec::new();
        #[verifier::loop_isolation(false)]
        while logs.len() > 0
            invariant
                tasks@.len() + logs@.len() == n,
                logs@ == orig.skip(tasks@.len() as int),
                forall|i: int| 0 <= i < tasks@.len() ==> log_has_task(*abi, log_topics(#[trigger] orig[i]), orig[i].data@),
                forall|i: int|
                    0 <= i < tasks@.len() ==> is_task_of_log(
                        *abi,
                        self.dvn.chain,
                        log_topics(orig[i]),
                        orig[i].data@,
                        #[trigger] tasks@[i],
                    ),
            decreases logs.len(),
        {
            let k = tasks.len();
            let log = logs.remove(0);
            assert(log == orig[k as int]);
            assert(orig.skip(k as int).drop_first() =~= orig.skip(k + 1));
            match self.dvn.jobs_parse(abi, log.topics, log.data) {
                Some(t) => tasks.push(t),
                None => {
                    return None;
                },
            }
        }
        Some(tasks)
    }

    /// Whether `finish_check` can take `n` tasks and a block number.
    pub open spec fn can_finish_check(&self, n: nat, block_number: nat) -> bool {
        &&& self.wf()
        &&& block_number <= u64::MAX
        &&& self.room_for_tasks(n)
    }

    /// No approval count overflows when `n` more tasks are counted.
    pub closed spec fn room_for_tasks(&self, n: nat) -> bool {
        self.consensus.has_room(n)
    }

    /// Whether `finish_check` can take `n` tasks and a block number.
    pub fn check_finish(&self, n: usize, block_number: &U256) -> (r: bool)
        requires
            self.wf(),
        ensures
            r == self.can_finish_check(n as nat, block_number@),
    {
        block_number.fits_u64() && self.consensus.room_for(n)
    }

    /// Takes the results of a check: the tasks reported in the blocks read
    /// are counted, those seen for the second time are returned, the fees
    /// are recorded, and the block window moves on: the blocks read before
    /// are now consensed, and the blocks up to the reported block number are
    /// read.
    pub fn finish_check(&mut self, tasks: Vec<Task>, gas: CurrentGasConfig, block_number: U256) -> (r: Vec<Task>)
        requires
            old(self).can_finish_check(tasks@.len(), block_number@),
        ensures
            same_batches(*final(self), *old(self)),
            final(self).wf(),
            r@ == approved(old(self).approvals(), tasks@, old(self).threshold()),
            final(self).approvals() == counts_after(old(self).approvals(), tasks@),
            final(self).threshold() == old(self).threshold(),
            final(self).gas() == (gas.base_fees@, gas.priority_fees@),
            final(self).last_consensed() == old(self).last_processed(),
            final(self).last_processed() == block_number@,
            same_config(*final(self), *old(self)),
            final(self).next_nonce() == old(self).next_nonce(),
            old(self).can_commit() ==> final(self).can_commit(),
    {
        let consensed_tasks = self.consensus.consensus(tasks);
        self.gas.current_fees(gas);
        self.last_consensed_block = self.last_processed_block;
        self.last_processed_block = block_number.as_u64();
        consensed_tasks
    }

    /// Whether `process_tasks` can take `n` tasks: the nonces do not run out
    /// and the fee prediction fits.
    pub open spec fn can_process(&self, n: nat) -> bool {
        &&& self.next_nonce() + n < pow256()
        &&& prediction_fits(self.gas().0, self.gas().1)
    }

    /// Whether `process_tasks` can take `n` tasks.
    pub fn check_process(&self, n: usize) -> (r: bool)
        ensures
            r == self.can_process(n as nat),
    {
        let next = U256::from_u64(n as u64);
        let room = self.nonce_value().checked_add(&next).is_some();
        room && self.gas.can_predict()
    }

    fn nonce_value(&self) -> (r: U256)
        ensures
            r@ == self.next_nonce(),
    {
        self.nonce.peek()
    }

    /// The transactions that answer the tasks, in order: each calls
    /// `verify` on the DVN contract with the task's message, from the
    /// signer, with the predicted fees and the next nonce; `None` where the
    /// ABI cannot encode a call.
    pub fn process_tasks(&mut self, abi: &Contract, tasks: Vec<Task>) -> (r: Option<Vec<Transaction>>)
        requires
            old(self).can_process(tasks@.len()),
        ensures
            same_batches(*final(self), *old(self)),
            r is Some <==> forall|i: int|
                0 <= i < tasks@.len() ==> (function_call_data(*abi, "verify"@, seq![(#[trigger] tasks@[i]).message]) is Some),
            r matches Some(txns) ==> {
                &&& txns@.len() == tasks@.len()
                &&& final(self).next_nonce() == old(self).next_nonce() + tasks@.len()
                &&& forall|i: int| 0 <= i < txns@.len() ==> {
                    let t = #[trigger] txns@[i];
                    &&& t.nonce matches Some(n) && n@ == old(self).next_nonce() + i
                    &&& t.chain_id == Some(old(self).dvn().chain)
                    &&& t.to == Some(old(self).dvn().address)
                    &&& t.from matches Some(a) && a@ == old(self).signer_address()
                    &&& t.gas matches Some(g) && g@ == 0x300000
                    &&& t.max_fee_per_gas matches Some(f) && f@ == predicted_max_fee(old(self).gas().0, old(self).gas().1)
                    &&& t.max_priority_fee_per_gas matches Some(p) && p@ == old(self).gas().1
                    &&& t.value is None
                    &&& t.data matches Some(d) && function_call_data(*abi, "verify"@, seq![tasks@[i].message]) == Some(d@)
                }
            },
            same_config(*final(self), *old(self)),
            final(self).gas() == old(self).gas(),
            final(self).approvals() == old(self).approvals(),
            final(self).last_processed() == old(self).last_processed(),
            final(self).last_consensed() == old(self).last_consensed(),
            old(self).wf() ==> final(self).wf(),
            old(self).can_commit() ==> final(self).can_commit(),
    {
        let ghost n0 = self.nonce@;
        let ghost n = tasks@.len();
        let ghost orig = tasks@;
        let mut tasks = tasks;
        let mut txns: Vec<Transaction> = Vec::new();
        #[verifier::loop_isolation(false)]
        while tasks.len() > 0
            invariant
                self.nonce@ == n0 + txns@.len(),
                txns@.len() + tasks@.len() == n,
                n0 + n < pow256(),
                prediction_fits(self.gas@.0, self.gas@.1),
                self.chain_id == old(self).chain_id,
                self.endpoint_id == old(self).endpoint_id,
                self.dvn == old(self).dvn,
                self.gas == old(self).gas,
                self.consensus == old(self).consensus,
                self.signer_address == old(self).signer_address,
                self.provider == old(self).provider,
                self.last_processed_block == old(self).last_processed_block,
                self.last_consensed_block == old(self).last_consensed_block,
                forall|i: int| 0 <= i < txns@.len() ==> {
                    let t = #[trigger] txns@[i];
                    &&& t.nonce matches Some(x) && x@ == n0 + i
                    &&& t.chain_id == Some(self.dvn.chain)
                    &&& t.to == Some(self.dvn.address)
                    &&& t.from matches Some(a) && a@ == self.signer_address@
                    &&& t.gas matches Some(g) && g@ == 0x300000
                    &&& t.max_fee_per_gas matches Some(f) && f@ == predicted_max_fee(self.gas@.0, self.gas@.1)
                    &&& t.max_priority_fee_per_gas matches Some(p) && p@ == self.gas@.1
                    &&& t.value is None
                    &&& t.data matches Some(d) && function_call_data(*abi, "verify"@, seq![orig[i].message]) == Some(d@)
                },
                tasks@ == orig.skip(txns@.len() as int),
                forall|i: int| 0 <= i < txns@.len() ==> (function_call_data(*abi, "verify"@, seq![(#[trigger] orig[i]).message]) is Some),
            decreases tasks.len(),
        {
            let k = txns.len();
            let task = tasks.remove(0);
            assert(task == orig[k as int]);
            assert(orig.skip(k as int).drop_first() =~= orig.skip(k + 1));
            let nonce = self.nonce.nonce();
            let exec_config = match self.dvn.verify_config(abi, &task) {
                Some(c) => c,
                None => {
                    return None;
                },
            };
            let mut txn = Transaction::new(exec_config);
            txn.contract(&self.dvn);
            txn.gas(&self.gas);
            txn.nonce(&nonce);
            txn.signer(self.signer_address);
            txns.push(txn);
        }
        Some(txns)
    }

    /// Queues `eth_sendRawTransaction` of a signed transaction and takes it
    /// as a batch.
    pub fn send(&mut self, raw_txn: Vec<u8>) -> (r: (GenericReceipt, HttpBatchRequest))
        requires
            old(self).wf(),
            old(self).can_commit(),
        ensures
            final(self).wf(),
            r.0.id == 0,
            r.1.batch.wf(),
            r.1.batch.sent(),
            r.1.batch.requests() == seq![
                request_json(
                    0,
                    "eth_sendRawTransaction"@,
                    Some(ascii_bytes("["@) + hex_string_json(raw_txn@) + ascii_bytes("]"@)),
                ),
            ],
            r.1.max_response_bytes == 1100,
            one_batch_sent(*old(self), *final(self), r.1, seq!["eth_sendRawTransaction"@]),
            forall|i: int| 0 <= i < r.1.batch.requests().len() ==> #[trigger] r.1.batch.result(i) is None,
            same_except_provider(*final(self), *old(self)),
    {
        let ghost raw = raw_txn@;
        let receipt = self.provider.send(raw_txn);
        let request = self.provider.commit();
        assert(request.batch.methods() =~= seq!["eth_sendRawTransaction"@]);
        assert(request.batch.requests() =~= seq![
            request_json(0, "eth_sendRawTransaction"@, Some(ascii_bytes("["@) + hex_string_json(raw) + ascii_bytes("]"@))),
        ]);
        (receipt, request)
    }
}


/// The first block a check from state `c` asks logs for.
pub open spec fn window_start(c: ChainState) -> nat {
    c.last_consensed() as nat + 1
}

/// Each block is fed to consensus by exactly two checks in a row. Take
/// three states, each after `finish_check` from the one before (so the last
/// consensed block moves to the last processed one, and the last processed
/// block to the number the check reported, `b1` and then `b2`), with block
/// numbers that do not go back. Then a block `x` that the first of these
/// checks reported for the first time (`c0.last_processed() < x <= b1`) lies
/// in the window of the check from `c0` (which reads up to `b1`) and of the
/// check from `c1` (which reads up to `b2`), and before the window of the
/// check from `c2`.
pub proof fn lemma_blocks_read_by_two_checks(c0: ChainState, c1: ChainState, c2: ChainState, x: nat)
    requires
        c0.last_consensed() <= c0.last_processed(),
        c1.last_consensed() == c0.last_processed(),
        c2.last_consensed() == c1.last_processed(),
        c0.last_processed() <= c1.last_processed() <= c2.last_processed(),
        c0.last_processed() < x <= c1.last_processed(),
    ensures
        window_start(c0) <= x <= c1.last_processed(),
        window_start(c1) <= x <= c2.last_processed(),
        x < window_start(c2),
{
}


/// A check can always finish once its block number fits: with no tasks
/// found, and with `n` tasks whenever every approval count leaves room for
/// `n` more, whatever those counts are.
pub proof fn lemma_check_can_finish(c: ChainState, n: nat, block_number: nat, m: nat)
    requires
        c.wf(),
        block_number <= u64::MAX,
        forall|k: Seq<u8>| #[trigger] c.approvals().contains_key(k) ==> c.approvals()[k] <= m,
        m + n <= u64::MAX,
    ensures
        c.can_finish_check(n, block_number),
        c.can_finish_check(0, block_number),
{
    assert forall|k: Seq<u8>| #[trigger] c.consensus.approvals().contains_key(k) implies c.consensus.approvals()[k]
        <= m by {
        assert(c.approvals().contains_key(k));
    }
    crate::consensus::lemma_room_under_count_bound(c.consensus, m, n);
    crate::consensus::lemma_room_for_nothing(c.consensus);
}

/// A check that found no tasks finishes whenever its block number fits.
pub proof fn lemma_empty_check_can_finish(c: ChainState, block_number: nat)
    requires
        c.wf(),
        block_number <= u64::MAX,
    ensures
        c.can_finish_check(0, block_number),
{
    crate::consensus::lemma_room_for_nothing(c.consensus);
}

} // verus!
