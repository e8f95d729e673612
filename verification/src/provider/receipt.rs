//! Receipts: handles that read the response of one request from its batch.
use vstd::prelude::*;
use crate::chain::{RawLog, log_topics};
use crate::gas::CurrentGasConfig;
use crate::provider::batch::BatchRequestCollection;
use crate::u256::U256;
use ethers_core::types::{Log, U256 as EthU256};

verus! {

/// The number a JSON-RPC result holds, as serde_json reads an `ethers_core`
/// `U256`, or `None` where the text is no such value.
pub uninterp spec fn json_quantity(json: Seq<u8>) -> Option<nat>;

/// The topics and data of the logs a JSON-RPC result lists, as serde_json
/// reads a list of `ethers_core` `Log`s, or `None` where the text is no
/// such list.
pub uninterp spec fn json_raw_logs(json: Seq<u8>) -> Option<Seq<(Seq<Seq<u8>>, Seq<u8>)>>;

/// `serde_json::from_slice` into an `ethers_core` `U256`, its words moved
/// over as they are. Claims the result is the named number.
#[verifier::external_body]
pub(crate) fn parse_quantity(json: &[u8]) -> (r: Option<U256>)
    ensures
        match r {
            Some(v) => json_quantity(json@) == Some(v@),
            None => json_quantity(json@) is None,
        },
{
    let v: EthU256 = serde_json::from_slice(json).ok()?;
    Some(U256 { w0: v.0[0], w1: v.0[1], w2: v.0[2], w3: v.0[3] })
}

/// `serde_json::from_slice` into a list of `ethers_core` `Log`s, keeping
/// each log's topics and data. Claims the result is the named list.
#[verifier::external_body]
fn parse_raw_logs(json: &[u8]) -> (r: Option<Vec<RawLog>>)
    ensures
        match r {
            Some(ls) => json_raw_logs(json@) == Some(ls@.map_values(|l: RawLog| (log_topics(l), l.data@))),
            None => json_raw_logs(json@) is None,
        },
{
    let logs: Vec<Log> = serde_json::from_slice(json).ok()?;
    Some(logs.into_iter().map(|l| RawLog { topics: l.topics.iter().map(|t| t.0).collect(), data: l.data.to_vec() }).collect())
}

/// A handle that reads a value from the responses of a batch.
pub trait Receipt<T>: Sized {
    /// Whether the batch holds the responses the handle reads.
    spec fn answered(&self, batch: &BatchRequestCollection) -> bool;

    /// Whether `value` is what the handle reads from the batch.
    spec fn reads(&self, batch: &BatchRequestCollection, value: T) -> bool;

    /// Reads the value from the batch.
    fn take(self, batch: &BatchRequestCollection) -> (r: T)
        requires
            self.answered(batch),
        ensures
            self.reads(batch, r),
    ;
}

/// The handle of one queued request: its id in the batch.
#[derive(Clone, Copy, Debug)]
pub struct GenericReceipt {
    pub id: u64,
}

impl GenericReceipt {
    /// The handle of request `id`.
    pub fn new(id: u64) -> (r: GenericReceipt)
        ensures
            r.id == id,
    {
        GenericReceipt { id }
    }
}

impl GenericReceipt {
    /// The number the response to this request holds, or `None` where it
    /// holds none.
    pub fn take_quantity(self, batch: &BatchRequestCollection) -> (r: Option<U256>)
        requires
            self.answered(batch),
        ensures
            match r {
                Some(v) => json_quantity(batch.result(self.id as int).unwrap()) == Some(v@),
                None => json_quantity(batch.result(self.id as int).unwrap()) is None,
            },
    {
        let json = self.take(batch);
        parse_quantity(json.as_slice())
    }

    /// The logs (topics and data) the response to this request lists, or
    /// `None` where it lists none.
    pub fn take_logs(self, batch: &BatchRequestCollection) -> (r: Option<Vec<RawLog>>)
        requires
            self.answered(batch),
        ensures
            match r {
                Some(ls) => json_raw_logs(batch.result(self.id as int).unwrap()) == Some(
                    ls@.map_values(|l: RawLog| (log_topics(l), l.data@)),
                ),
                None => json_raw_logs(batch.result(self.id as int).unwrap()) is None,
            },
    {
        let json = self.take(batch);
        parse_raw_logs(json.as_slice())
    }
}

impl Receipt<Vec<u8>> for GenericReceipt {
    /// The request is in the batch and has its response.
    open spec fn answered(&self, batch: &BatchRequestCollection) -> bool {
        &&& batch.wf()
        &&& self.id < batch.requests().len()
        &&& batch.result(self.id as int) is Some
    }

    /// The JSON text of the response to the request.
    open spec fn reads(&self, batch: &BatchRequestCollection, value: Vec<u8>) -> bool {
        batch.result(self.id as int) == Some(value@)
    }

    /// The JSON text of the response to this request.
    fn take(self, batch: &BatchRequestCollection) -> (r: Vec<u8>) {
        batch.take_result(self.id)
    }
}

/// The handles of the two requests that read a chain's fees.
#[derive(Clone, Copy, Debug)]
pub struct CurrentGasConfigReceipt {
    pub priority_fees_receipt: GenericReceipt,
    pub base_fees_receipt: GenericReceipt,
}

impl CurrentGasConfigReceipt {
    /// Pairs the base fee and the priority fee requests.
    pub fn new(base_fees_receipt: GenericReceipt, priority_fees_receipt: GenericReceipt) -> (r:
        CurrentGasConfigReceipt)
        ensures
            r.base_fees_receipt == base_fees_receipt,
            r.priority_fees_receipt == priority_fees_receipt,
    {
        CurrentGasConfigReceipt { base_fees_receipt, priority_fees_receipt }
    }

}

impl CurrentGasConfigReceipt {
    /// The fees the responses hold: the base fee and the priority fee, or
    /// `None` where either holds no number.
    pub fn take_fees(self, batch: &BatchRequestCollection) -> (r: Option<CurrentGasConfig>)
        requires
            self.answered(batch),
        ensures
            match r {
                Some(g) => {
                    &&& json_quantity(batch.result(self.base_fees_receipt.id as int).unwrap()) == Some(g.base_fees@)
                    &&& json_quantity(batch.result(self.priority_fees_receipt.id as int).unwrap()) == Some(
                        g.priority_fees@,
                    )
                },
                None => json_quantity(batch.result(self.base_fees_receipt.id as int).unwrap()) is None
                    || json_quantity(batch.result(self.priority_fees_receipt.id as int).unwrap()) is None,
            },
    {
        let base = self.base_fees_receipt.take_quantity(batch);
        let priority = self.priority_fees_receipt.take_quantity(batch);
        match (base, priority) {
            (Some(b), Some(p)) => Some(CurrentGasConfig { base_fees: b, priority_fees: p }),
            _ => None,
        }
    }
}

impl Receipt<(Vec<u8>, Vec<u8>)> for CurrentGasConfigReceipt {
    /// Both requests are in the batch and have their responses.
    open spec fn answered(&self, batch: &BatchRequestCollection) -> bool {
        &&& self.base_fees_receipt.answered(batch)
        &&& self.priority_fees_receipt.answered(batch)
    }

    /// The JSON texts of the responses: the base fee, then the priority fee.
    open spec fn reads(&self, batch: &BatchRequestCollection, value: (Vec<u8>, Vec<u8>)) -> bool {
        &&& self.base_fees_receipt.reads(batch, value.0)
        &&& self.priority_fees_receipt.reads(batch, value.1)
    }

    /// The JSON texts of the responses: the base fee, then the priority fee.
    fn take(self, batch: &BatchRequestCollection) -> (r: (Vec<u8>, Vec<u8>)) {
        (self.base_fees_receipt.take(batch), self.priority_fees_receipt.take(batch))
    }
}

} // verus!
