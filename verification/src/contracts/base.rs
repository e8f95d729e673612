//! Calls into the contract ABI of `ethers_core`: encoding a function call,
//! building an event's topic filter and decoding an event log.
use vstd::prelude::*;
use crate::provider::{Topic, TopicFilter};
use ethers_core::abi::{Contract, Event, Function, Token};
use ethers_core::abi::Topic as AbiTopic;
use ethers_core::abi::RawTopicFilter as AbiRawTopicFilter;
use ethers_core::types::H256;

verus! {

/// A contract ABI of `ethers_core`.
#[verifier::external_type_specification]
#[verifier::external_body]
pub struct ExContract(ethers_core::abi::Contract);

/// An event of a contract ABI.
#[verifier::external_type_specification]
#[verifier::external_body]
pub struct ExEvent(ethers_core::abi::Event);

/// A function of a contract ABI.
#[verifier::external_type_specification]
#[verifier::external_body]
pub struct ExFunction(ethers_core::abi::Function);

/// A condition on an event parameter, given as a value.
pub enum RawTopic {
    Any,
    OneOf(Vec<Token>),
    This(Token),
}

/// Conditions on the three indexed parameters of an event.
pub struct RawTopicFilter {
    pub topic0: RawTopic,
    pub topic1: RawTopic,
    pub topic2: RawTopic,
}

/// A decoded event parameter.
pub struct LogParam {
    pub name: String,
    pub value: Token,
}

/// The functions an ABI has under a name (`Contract::functions_by_name`),
/// or `None` where it has none.
pub uninterp spec fn abi_functions(abi: Contract, name: Seq<char>) -> Option<Seq<Function>>;

/// The call data `Function::encode_input` writes for arguments, or `None`
/// where they do not fit the function's inputs.
pub uninterp spec fn abi_encode_input(function: Function, args: Seq<Token>) -> Option<Seq<u8>>;

/// The events an ABI has under a name (`Contract::events_by_name`), or
/// `None` where it has none.
pub uninterp spec fn abi_events(abi: Contract, name: Seq<char>) -> Option<Seq<Event>>;

/// The topic filter `Event::filter` builds for conditions on the event's
/// indexed parameters, converted topic by topic, or `None` where a value
/// does not fit its parameter.
pub uninterp spec fn abi_event_filter(event: Event, topics: RawTopicFilter) -> Option<TopicFilter>;

/// The parameters (name and value, in order) `Event::parse_log` decodes
/// from a raw log's topics and data, or `None` where the log does not fit
/// the event.
pub uninterp spec fn abi_parse_log(event: Event, topics: Seq<Seq<u8>>, data: Seq<u8>) -> Option<
    Seq<(Seq<char>, Token)>,
>;

/// `Contract::functions_by_name`. Claims the result is the named list.
#[verifier::external_body]
fn functions_by_name<'a>(abi: &'a Contract, name: &str) -> (r: Option<&'a Vec<Function>>)
    ensures
        match r {
            Some(v) => abi_functions(*abi, name@) == Some(v@),
            None => abi_functions(*abi, name@) is None,
        },
{
    abi.functions_by_name(name).ok()
}

/// `Function::encode_input`. Claims the result is the named call data.
#[verifier::external_body]
fn encode_input(function: &Function, args: &[Token]) -> (r: Option<Vec<u8>>)
    ensures
        match r {
            Some(d) => abi_encode_input(*function, args@) == Some(d@),
            None => abi_encode_input(*function, args@) is None,
        },
{
    function.encode_input(args).ok()
}

/// `Contract::events_by_name`. Claims the result is the named list.
#[verifier::external_body]
fn events_by_name<'a>(abi: &'a Contract, name: &str) -> (r: Option<&'a Vec<Event>>)
    ensures
        match r {
            Some(v) => abi_events(*abi, name@) == Some(v@),
            None => abi_events(*abi, name@) is None,
        },
{
    abi.events_by_name(name).ok()
}

/// `Event::filter`, its topics converted one for one (`Topic::map` takes
/// each hash to its bytes). Claims the result is the named filter.
#[verifier::external_body]
fn event_filter(event: &Event, topics: RawTopicFilter) -> (r: Option<TopicFilter>)
    ensures
        r == abi_event_filter(*event, topics),
{
    let raw = |t| match t {
        RawTopic::Any => AbiTopic::Any,
        RawTopic::OneOf(v) => AbiTopic::OneOf(v),
        RawTopic::This(x) => AbiTopic::This(x),
    };
    let hash = |t: AbiTopic<H256>| match t.map(|h| h.0) {
        AbiTopic::Any => Topic::Any,
        AbiTopic::OneOf(v) => Topic::OneOf(v),
        AbiTopic::This(h) => Topic::This(h),
    };
    let f = event.filter(AbiRawTopicFilter { topic0: raw(topics.topic0), topic1: raw(topics.topic1), topic2: raw(topics.topic2) }).ok()?;
    Some(TopicFilter { topic0: hash(f.topic0), topic1: hash(f.topic1), topic2: hash(f.topic2), topic3: hash(f.topic3) })
}

/// `Event::parse_log` of a raw log. Claims the parameters are the named
/// ones, in order.
#[verifier::external_body]
fn parse_log(event: &Event, topics: Vec<[u8; 32]>, data: Vec<u8>) -> (r: Option<Vec<LogParam>>)
    ensures
        match r {
            Some(ps) => abi_parse_log(*event, topics@.map_values(|t: [u8; 32]| t@), data@) == Some(
                ps@.map_values(|p: LogParam| (p.name@, p.value)),
            ),
            None => abi_parse_log(*event, topics@.map_values(|t: [u8; 32]| t@), data@) is None,
        },
{
    let raw = ethers_core::abi::RawLog { topics: topics.into_iter().map(H256).collect(), data };
    let log = event.parse_log(raw).ok()?;
    Some(log.params.into_iter().map(|p| LogParam { name: p.name, value: p.value }).collect())
}

/// The call data of the first function of the ABI with a name.
pub open spec fn function_call_data(abi: Contract, name: Seq<char>, args: Seq<Token>) -> Option<Seq<u8>> {
    match abi_functions(abi, name) {
        Some(fs) => if fs.len() > 0 {
            abi_encode_input(fs[0], args)
        } else {
            None
        },
        None => None,
    }
}

/// The topic filter of the first event of the ABI with a name.
pub open spec fn event_topic_filter_of(abi: Contract, name: Seq<char>, topics: RawTopicFilter) -> Option<TopicFilter> {
    match abi_events(abi, name) {
        Some(es) => if es.len() > 0 {
            abi_event_filter(es[0], topics)
        } else {
            None
        },
        None => None,
    }
}

/// The parameters of a raw log of the first event of the ABI with a name.
pub open spec fn event_log_params(abi: Contract, name: Seq<char>, topics: Seq<Seq<u8>>, data: Seq<u8>) -> Option<
    Seq<(Seq<char>, Token)>,
> {
    match abi_events(abi, name) {
        Some(es) => if es.len() > 0 {
            abi_parse_log(es[0], topics, data)
        } else {
            None
        },
        None => None,
    }
}

/// Helpers over a contract ABI.
pub struct BaseContract;

impl BaseContract {
    /// The call data of a function of the ABI (the first of that name), or
    /// `None` when there is no such function or the arguments do not fit it.
    pub fn function_data(abi: &Contract, function_name: &str, args: &[Token]) -> (r: Option<Vec<u8>>)
        ensures
            match r {
                Some(d) => function_call_data(*abi, function_name@, args@) == Some(d@),
                None => function_call_data(*abi, function_name@, args@) is None,
            },
    {
        match functions_by_name(abi, function_name) {
            Some(functions) => if functions.len() > 0 {
                encode_input(&functions[0], args)
            } else {
                None
            },
            None => None,
        }
    }

    /// The topic filter of an event of the ABI (the first of that name), or
    /// `None` when there is no such event or a value does not fit it.
    pub fn event_topic_filter(abi: &Contract, event_name: &str, topics: RawTopicFilter) -> (r: Option<TopicFilter>)
        ensures
            r == event_topic_filter_of(*abi, event_name@, topics),
    {
        match events_by_name(abi, event_name) {
            Some(events) => if events.len() > 0 {
                event_filter(&events[0], topics)
            } else {
                None
            },
            None => None,
        }
    }

    /// The decoded parameters of a log of an event of the ABI (the first of
    /// that name), or `None` when there is no such event or the log does not
    /// fit it.
    pub fn event_parse_raw_log(abi: &Contract, event_name: &str, topics: Vec<[u8; 32]>, data: Vec<u8>) -> (r: Option<Vec<LogParam>>)
        ensures
            match r {
                Some(ps) => event_log_params(*abi, event_name@, topics@.map_values(|t: [u8; 32]| t@), data@) == Some(
                    ps@.map_values(|p: LogParam| (p.name@, p.value)),
                ),
                None => event_log_params(*abi, event_name@, topics@.map_values(|t: [u8; 32]| t@), data@) is None,
            },
    {
        match events_by_name(abi, event_name) {
            Some(events) => if events.len() > 0 {
                parse_log(&events[0], topics, data)
            } else {
                None
            },
            None => None,
        }
    }
}

} // verus!
