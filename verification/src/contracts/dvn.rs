//! The DVN contract on one chain: the filter for its `TaskAssigned` events,
//! the tasks they carry, and the `verify` call that answers a task.
use vstd::prelude::*;
use crate::contracts::base::{BaseContract, LogParam, RawTopic, RawTopicFilter, event_log_params, event_topic_filter_of, function_call_data};
use crate::provider::{BlockNumber, LogFilter};
use crate::task::{Task, token_clone, token_uint, token_uint_value};
use crate::text::str_eq;
use crate::u256::U256;
use ethers_core::abi::{Contract, Token};

verus! {

/// The call data and gas limit of a contract call.
pub struct FunctionExecConfig {
    pub data: Vec<u8>,
    pub gas: U256,
}

/// A decoded parameter of a `TaskAssigned` event, with its value read as an
/// unsigned integer where it is one.
pub struct TaskParam {
    pub name: String,
    pub uint: Option<U256>,
    pub value: Token,
}

/// A parameter as the specifications read it: its name, its value as an
/// unsigned integer where it is one, and its value.
pub type ParamView = (Seq<char>, Option<nat>, Token);

pub open spec fn param_view(p: TaskParam) -> ParamView {
    (p.name@, match p.uint {
        Some(u) => Some(u@),
        None => None,
    }, p.value)
}

pub open spec fn params_view(ps: Seq<TaskParam>) -> Seq<ParamView> {
    ps.map_values(|p: TaskParam| param_view(p))
}

/// The unsigned value of the last parameter called `name` that holds one.
pub open spec fn last_uint(ps: Seq<ParamView>, name: Seq<char>) -> Option<nat>
    decreases ps.len(),
{
    if ps.len() == 0 {
        None
    } else if ps.last().0 == name && ps.last().1 is Some {
        ps.last().1
    } else {
        last_uint(ps.drop_last(), name)
    }
}

/// The value of the last parameter called `name`.
pub open spec fn last_value(ps: Seq<ParamView>, name: Seq<char>) -> Option<Token>
    decreases ps.len(),
{
    if ps.len() == 0 {
        None
    } else if ps.last().0 == name {
        Some(ps.last().2)
    } else {
        last_value(ps.drop_last(), name)
    }
}

/// The parameters name a task: a destination endpoint id (every unsigned
/// `dstEid` fits in 64 bits), a `task` and a `maxUnitGasPrice`.
pub open spec fn params_complete(ps: Seq<ParamView>) -> bool {
    &&& forall|i: int|
        0 <= i < ps.len() && (#[trigger] ps[i]).0 == "dstEid"@ && ps[i].1 is Some
            ==> ps[i].1.unwrap() <= u64::MAX
    &&& last_uint(ps, "dstEid"@) is Some
    &&& last_value(ps, "task"@) is Some
    &&& last_uint(ps, "maxUnitGasPrice"@) is Some
}

/// No condition on any of the three indexed parameters of an event.
pub open spec fn any_topics() -> RawTopicFilter {
    RawTopicFilter { topic0: RawTopic::Any, topic1: RawTopic::Any, topic2: RawTopic::Any }
}

/// The parameters of a raw `TaskAssigned` log as the ABI decodes them.
pub open spec fn log_params(abi: Contract, topics: Seq<Seq<u8>>, data: Seq<u8>) -> Option<Seq<ParamView>> {
    match event_log_params(abi, "TaskAssigned"@, topics, data) {
        Some(ps) => Some(
            ps.map_values(|p: (Seq<char>, Token)| (p.0, token_uint_value(p.1), p.1)),
        ),
        None => None,
    }
}

/// A raw log names a task: it decodes as `TaskAssigned` and its parameters
/// are complete.
pub open spec fn log_has_task(abi: Contract, topics: Seq<Seq<u8>>, data: Seq<u8>) -> bool {
    log_params(abi, topics, data) matches Some(ps) && params_complete(ps)
}

/// `t` is the task of a raw log on chain `chain`: assigned there, for the
/// last `dstEid`, with the last `maxUnitGasPrice` and the last `task`.
pub open spec fn is_task_of_log(abi: Contract, chain: u64, topics: Seq<Seq<u8>>, data: Seq<u8>, t: Task) -> bool {
    &&& log_params(abi, topics, data) matches Some(ps)
    &&& t.src_chain == chain
    &&& t.dest_chain == last_uint(ps, "dstEid"@).unwrap()
    &&& t.gas@ == last_uint(ps, "maxUnitGasPrice"@).unwrap()
    &&& t.message == last_value(ps, "task"@).unwrap()
}

/// The DVN contract of one chain.
#[derive(Clone, Copy, Debug)]
pub struct DVN {
    pub address: [u8; 20],
    pub chain: u64,
}

impl DVN {
    pub fn new(address: [u8; 20], chain: u64) -> (r: DVN)
        ensures
            r.address == address,
            r.chain == chain,
    {
        DVN { address, chain }
    }

    /// The filter for the contract's `TaskAssigned` events in a block range:
    /// the event's topic filter with no condition on its parameters, or
    /// `None` where the ABI gives none.
    pub fn jobs_filter(&self, abi: &Contract, from_block: BlockNumber, to_block: BlockNumber) -> (r:
        Option<LogFilter>)
        ensures
            match r {
                Some(f) => {
                    &&& f.address == self.address
                    &&& f.from == from_block
                    &&& f.to == to_block
                    &&& event_topic_filter_of(*abi, "TaskAssigned"@, any_topics()) == Some(f.topics)
                },
                None => event_topic_filter_of(*abi, "TaskAssigned"@, any_topics()) is None,
            },
    {
        let raw = RawTopicFilter { topic0: RawTopic::Any, topic1: RawTopic::Any, topic2: RawTopic::Any };
        match BaseContract::event_topic_filter(abi, "TaskAssigned", raw) {
            Some(topics) => Some(LogFilter { address: self.address, from: from_block, to: to_block, topics }),
            None => None,
        }
    }

    /// Whether the parameters name a task (see `params_complete`).
    pub fn check_params(params: &Vec<TaskParam>) -> (r: bool)
        ensures
            r == params_complete(params_view(params@)),
    {
        let ghost ps = params_view(params@);
        let n = params.len();
        let mut dest = false;
        let mut task = false;
        let mut gas = false;
        let mut fits = true;
        for i in 0..n
            invariant
                n == ps.len(),
                ps == params_view(params@),
                dest == last_uint(ps.take(i as int), "dstEid"@) is Some,
                task == last_value(ps.take(i as int), "task"@) is Some,
                gas == last_uint(ps.take(i as int), "maxUnitGasPrice"@) is Some,
                fits == (forall|j: int|
                    0 <= j < i && (#[trigger] ps[j]).0 == "dstEid"@ && ps[j].1 is Some
                        ==> ps[j].1.unwrap() <= u64::MAX),
        {
            let p = &params[i];
            assert(ps.take(i + 1).drop_last() =~= ps.take(i as int));
            assert(ps.take(i + 1).last() == ps[i as int]);
            assert(ps[i as int] == param_view(*p));
            let is_dest = str_eq(p.name.as_str(), "dstEid");
            let is_task = str_eq(p.name.as_str(), "task");
            let is_gas = str_eq(p.name.as_str(), "maxUnitGasPrice");
            match &p.uint {
                Some(v) => {
                    if is_dest {
                        dest = true;
                        if !v.fits_u64() {
                            fits = false;
                        }
                    }
                    if is_gas {
                        gas = true;
                    }
                },
                None => {},
            }
            if is_task {
                task = true;
            }
        }
        assert(ps.take(n as int) =~= ps);
        fits && dest && task && gas
    }

    /// The task the parameters of a `TaskAssigned` event describe: assigned
    /// on this contract's chain, for the last `dstEid`, with the last `task`
    /// and the last `maxUnitGasPrice`.
    pub fn task_from_params(&self, params: Vec<TaskParam>) -> (r: Task)
        requires
            params_complete(params_view(params@)),
        ensures
            r.src_chain == self.chain,
            r.dest_chain == last_uint(params_view(params@), "dstEid"@).unwrap(),
            r.gas@ == last_uint(params_view(params@), "maxUnitGasPrice"@).unwrap(),
            r.message == last_value(params_view(params@), "task"@).unwrap(),
    {
        let ghost ps = params_view(params@);
        let mut params = params;
        let ghost orig = params@;
        let n = params.len();
        let mut dest_chain: Option<u64> = None;
        let mut message: Option<Token> = None;
        let mut gas: Option<U256> = None;
        let mut i: usize = 0;
        proof {
            reveal_strlit("dstEid");
            reveal_strlit("task");
            reveal_strlit("maxUnitGasPrice");
            assert("dstEid"@.len() == 6);
            assert("task"@.len() == 4);
            assert("maxUnitGasPrice"@.len() == 15);
        }
        while i < n
            invariant
                n == ps.len(),
                n == orig.len(),
                ps == params_view(orig),
                i <= n,
                params@ == orig.skip(i as int),
                params_complete(ps),
                "dstEid"@ != "task"@,
                "dstEid"@ != "maxUnitGasPrice"@,
                "task"@ != "maxUnitGasPrice"@,
                match dest_chain {
                    Some(d) => last_uint(ps.take(i as int), "dstEid"@) == Some(d as nat),
                    None => last_uint(ps.take(i as int), "dstEid"@) is None,
                },
                message == last_value(ps.take(i as int), "task"@),
                match gas {
                    Some(g) => last_uint(ps.take(i as int), "maxUnitGasPrice"@) == Some(g@),
                    None => last_uint(ps.take(i as int), "maxUnitGasPrice"@) is None,
                },
            decreases n - i,
        {
            let param = params.remove(0);
            assert(param == orig[i as int]);
            assert(orig.skip(i as int).drop_first() =~= orig.skip(i + 1));
            assert(ps.take(i + 1).drop_last() =~= ps.take(i as int));
            assert(ps.take(i + 1).last() == ps[i as int]);
            assert(ps[i as int] == param_view(param));
            if str_eq(param.name.as_str(), "dstEid") {
                match param.uint {
                    Some(v) => {
                        assert(ps[i as int].1.unwrap() <= u64::MAX);
                        dest_chain = Some(v.as_u64());
                    },
                    None => {},
                }
            } else if str_eq(param.name.as_str(), "task") {
                message = Some(param.value);
            } else if str_eq(param.name.as_str(), "maxUnitGasPrice") {
                match param.uint {
                    Some(v) => {
                        gas = Some(v);
                    },
                    None => {},
                }
            }
            i = i + 1;
        }
        assert(ps.take(n as int) =~= ps);
        match (dest_chain, gas, message) {
            (Some(d), Some(g), Some(m)) => Task::new(self.chain, d, g, m),
            _ => vstd::pervasive::unreached(),
        }
    }

    /// The task of a raw `TaskAssigned` log (its topics and data), or `None`
    /// where the ABI cannot decode it or it names no complete task.
    pub fn jobs_parse(&self, abi: &Contract, topics: Vec<[u8; 32]>, data: Vec<u8>) -> (r: Option<Task>)
        ensures
            r is Some <==> log_has_task(*abi, topics@.map_values(|t: [u8; 32]| t@), data@),
            r matches Some(t) ==> is_task_of_log(*abi, self.chain, topics@.map_values(|t: [u8; 32]| t@), data@, t),
    {
        let ghost tv = topics@.map_values(|t: [u8; 32]| t@);
        let ghost dv = data@;
        let params = match BaseContract::event_parse_raw_log(abi, "TaskAssigned", topics, data) {
            Some(p) => p,
            None => {
                return None;
            },
        };
        let ghost raw = params@;
        let ghost decoded = log_params(*abi, tv, dv).unwrap();
        assert(decoded =~= raw.map_values(|p: LogParam| (p.name@, token_uint_value(p.value), p.value)));
        let n = params.len();
        let mut params = params;
        let mut task_params: Vec<TaskParam> = Vec::new();
        let mut i: usize = 0;
        while i < n
            invariant
                n == raw.len(),
                i <= n,
                params@ == raw.skip(i as int),
                decoded == raw.map_values(|p: LogParam| (p.name@, token_uint_value(p.value), p.value)),
                params_view(task_params@) == decoded.take(i as int),
            decreases n - i,
        {
            let p = params.remove(0);
            assert(p == raw[i as int]);
            assert(raw.skip(i as int).drop_first() =~= raw.skip(i + 1));
            let uint = token_uint(&p.value);
            let ghost before = task_params@;
            task_params.push(TaskParam { name: p.name, uint, value: p.value });
            assert(params_view(task_params@) =~= params_view(before).push(decoded[i as int]));
            assert(decoded.take(i + 1) =~= decoded.take(i as int).push(decoded[i as int]));
            i = i + 1;
        }
        assert(decoded.take(n as int) =~= decoded);
        if DVN::check_params(&task_params) {
            Some(self.task_from_params(task_params))
        } else {
            None
        }
    }

    /// The call answering a task: `verify` with the task's message as the
    /// argument, and a gas limit of 0x300000 (`U256::from("300000")` reads
    /// its text as hexadecimal); `None` where the ABI cannot encode it.
    pub fn verify_config(&self, abi: &Contract, job: &Task) -> (r: Option<FunctionExecConfig>)
        ensures
            match r {
                Some(c) => {
                    &&& function_call_data(*abi, "verify"@, seq![job.message]) == Some(c.data@)
                    &&& c.gas@ == 0x300000
                },
                None => function_call_data(*abi, "verify"@, seq![job.message]) is None,
            },
    {
        let args: Vec<Token> = vec![token_clone(&job.message)];
        assert(args@ =~= seq![job.message]);
        match BaseContract::function_data(abi, "verify", args.as_slice()) {
            Some(data) => Some(FunctionExecConfig { data, gas: U256::from_u64(0x300000) }),
            None => None,
        }
    }
}

} // verus!
