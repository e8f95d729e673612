//! Batching of JSON-RPC requests: requests are queued with consecutive ids,
//! collected into one batch, and the batch is fulfilled response by
//! response.
use vstd::prelude::*;
use crate::provider::receipt::GenericReceipt;
use crate::text::{append_json_array, append_json_string_array, json_array, json_strings};

verus! {

/// Collects requests until they are sent together.
pub struct Batcher {
    max_response_bytes: u64,
    context: Vec<String>,
    requests: Vec<Vec<u8>>,
}

impl Batcher {
    /// The sum of the response sizes the queued requests allow.
    pub closed spec fn max_bytes(&self) -> nat {
        self.max_response_bytes as nat
    }

    /// The method names of the queued requests, in order.
    pub closed spec fn methods(&self) -> Seq<Seq<char>> {
        self.context@.map_values(|s: String| s@)
    }

    /// The JSON texts of the queued requests, in order.
    pub closed spec fn requests(&self) -> Seq<Seq<u8>> {
        self.requests@.map_values(|r: Vec<u8>| r@)
    }

    /// As many method names as requests.
    pub closed spec fn wf(&self) -> bool {
        self.context.len() == self.requests.len()
    }

    /// An empty batch.
    pub fn new() -> (r: Batcher)
        ensures
            r.wf(),
            r.max_bytes() == 0,
            r.methods() == Seq::<Seq<char>>::empty(),
            r.requests() == Seq::<Seq<u8>>::empty(),
    {
        let r = Batcher { max_response_bytes: 0, context: Vec::new(), requests: Vec::new() };
        assert(r.methods() =~= Seq::<Seq<char>>::empty());
        assert(r.requests() =~= Seq::<Seq<u8>>::empty());
        r
    }

    /// The id the next queued request gets: the number queued so far.
    pub fn next_id(&self) -> (r: u64)
        ensures
            r == self.requests().len(),
    {
        self.requests.len() as u64
    }

    /// Queues a request; returns its receipt and its id, which is the value
    /// `next_id` had before.
    pub fn queue_request(&mut self, data: Vec<u8>, context: String, max_response_bytes: u64) -> (r: (
        GenericReceipt,
        u64,
    ))
        requires
            old(self).wf(),
            old(self).max_bytes() + max_response_bytes <= u64::MAX,
        ensures
            final(self).wf(),
            r.1 == old(self).requests().len(),
            r.0.id == r.1,
            final(self).requests() == old(self).requests().push(data@),
            final(self).methods() == old(self).methods().push(context@),
            final(self).max_bytes() == old(self).max_bytes() + max_response_bytes,
    {
        let ghost d = data@;
        let ghost c = context@;
        self.requests.push(data);
        self.context.push(context);
        self.max_response_bytes = self.max_response_bytes + max_response_bytes;
        assert(self.requests() =~= old(self).requests().push(d));
        assert(self.methods() =~= old(self).methods().push(c));
        let id = (self.requests.len() - 1) as u64;
        (GenericReceipt { id }, id)
    }

    /// Takes every queued request into a batch and starts over empty.
    pub fn collect_requests(&mut self) -> (r: BatchRequestCollection)
        requires
            old(self).wf(),
        ensures
            final(self).wf(),
            final(self).requests() == Seq::<Seq<u8>>::empty(),
            final(self).methods() == Seq::<Seq<char>>::empty(),
            final(self).max_bytes() == 0,
            r.wf(),
            r.requests() == old(self).requests(),
            r.methods() == old(self).methods(),
            r.max_bytes() == old(self).max_bytes(),
            !r.sent(),
            forall|i: int| 0 <= i < r.requests().len() ==> #[trigger] r.result(i) is None,
    {
        let mut requests: Vec<Vec<u8>> = Vec::new();
        let mut context: Vec<String> = Vec::new();
        std::mem::swap(&mut requests, &mut self.requests);
        std::mem::swap(&mut context, &mut self.context);
        let max_response_bytes = self.max_response_bytes;
        self.max_response_bytes = 0;
        let n = requests.len();
        let mut results: Vec<Option<Vec<u8>>> = Vec::new();
        let mut i: usize = 0;
        while i < n
            invariant
                n == requests.len(),
                i <= n,
                results.len() == i,
                forall|j: int| 0 <= j < i ==> results[j] is None,
            decreases n - i,
        {
            results.push(None);
            i = i + 1;
        }
        let r = BatchRequestCollection { max_response_bytes, context, requests, sent: false, results };
        assert(self.requests() =~= Seq::<Seq<u8>>::empty());
        assert(self.methods() =~= Seq::<Seq<char>>::empty());
        r
    }
}

/// The requests of one batch, from sending to their responses.
pub struct BatchRequestCollection {
    max_response_bytes: u64,
    context: Vec<String>,
    requests: Vec<Vec<u8>>,
    sent: bool,
    results: Vec<Option<Vec<u8>>>,
}

impl BatchRequestCollection {
    /// The sum of the response sizes the requests allow.
    pub closed spec fn max_bytes(&self) -> nat {
        self.max_response_bytes as nat
    }

    /// The method names of the requests, in order of their ids.
    pub closed spec fn methods(&self) -> Seq<Seq<char>> {
        self.context@.map_values(|s: String| s@)
    }

    /// The JSON texts of the requests, in order of their ids.
    pub closed spec fn requests(&self) -> Seq<Seq<u8>> {
        self.requests@.map_values(|r: Vec<u8>| r@)
    }

    /// The response of request `id`, once one arrived.
    pub closed spec fn result(&self, id: int) -> Option<Seq<u8>> {
        match self.results[id] {
            Some(v) => Some(v@),
            None => None,
        }
    }

    /// Whether the requests have been handed out for sending.
    pub closed spec fn sent(&self) -> bool {
        self.sent
    }

    /// One method name, one request and one result slot per id.
    pub closed spec fn wf(&self) -> bool {
        &&& self.context.len() == self.requests.len()
        &&& self.results.len() == self.requests.len()
    }

    /// Hands out the JSON texts of the requests, once.
    pub fn data(&mut self) -> (r: Vec<Vec<u8>>)
        requires
            old(self).wf(),
            !old(self).sent(),
        ensures
            final(self).wf(),
            final(self).sent(),
            r@.map_values(|v: Vec<u8>| v@) == old(self).requests(),
            final(self).requests() == old(self).requests(),
            final(self).methods() == old(self).methods(),
            final(self).max_bytes() == old(self).max_bytes(),
            forall|i: int| 0 <= i < old(self).requests().len() ==> #[trigger] final(self).result(i) == old(self).result(i),
    {
        self.sent = true;
        let r = self.requests.clone();
        assert(r@.map_values(|v: Vec<u8>| v@) =~= old(self).requests());
        r
    }

    /// The sum of the response sizes the requests allow.
    pub fn max_response_bytes(&self) -> (r: u64)
        ensures
            r == self.max_bytes(),
    {
        self.max_response_bytes
    }

    /// The method names as a JSON array of strings, handed to the response
    /// transform so it can tell the responses apart.
    pub fn context(&self) -> (r: Vec<u8>)
        ensures
            r@ == json_array(json_strings(self.methods())),
    {
        let mut out: Vec<u8> = Vec::new();
        append_json_string_array(&mut out, &self.context);
        out
    }

    /// The number of requests in the batch.
    pub fn request_count(&self) -> (r: u64)
        ensures
            r == self.requests().len(),
    {
        self.requests.len() as u64
    }

    /// Whether request `id` has its response.
    pub fn has_result(&self, id: u64) -> (r: bool)
        requires
            self.wf(),
            id < self.requests().len(),
        ensures
            r == self.result(id as int) is Some,
    {
        self.results[id as usize].is_some()
    }

    /// Records the response of request `id`; each request is answered once.
    pub fn fulfill(&mut self, id: u64, data: Vec<u8>)
        requires
            old(self).wf(),
            id < old(self).requests().len(),
            old(self).result(id as int) is None,
        ensures
            final(self).wf(),
            final(self).requests() == old(self).requests(),
            final(self).methods() == old(self).methods(),
            final(self).max_bytes() == old(self).max_bytes(),
            final(self).sent() == old(self).sent(),
            final(self).result(id as int) == Some(data@),
            forall|i: int| 0 <= i < old(self).requests().len() && i != id ==> #[trigger] final(self).result(i) == old(self).result(i),
    {
        self.results.set(id as usize, Some(data));
    }

    /// The response of request `id`.
    pub fn take_result(&self, id: u64) -> (r: Vec<u8>)
        requires
            self.wf(),
            id < self.requests().len(),
            self.result(id as int) is Some,
        ensures
            Some(r@) == self.result(id as int),
    {
        match &self.results[id as usize] {
            Some(v) => v.clone(),
            None => {
                assert(false);
                Vec::new()
            },
        }
    }

    /// The JSON array the requests are sent as.
    pub fn body(requests: &Vec<Vec<u8>>) -> (r: Vec<u8>)
        ensures
            r@ == json_array(requests@.map_values(|v: Vec<u8>| v@)),
    {
        let mut out: Vec<u8> = Vec::new();
        append_json_array(&mut out, requests);
        out
    }
}

} // verus!
