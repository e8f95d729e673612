//! The JSON-RPC client of one chain: it frames requests, hands out batches
//! for the HTTP outcall round-robin over the RPC URLs, fulfills batches
//! from the responses, and normalizes responses so that every replica sees
//! the same bytes.
use vstd::prelude::*;
use vstd::utf8::encode_utf8;
use crate::provider::batch::{BatchRequestCollection, Batcher};
use crate::provider::receipt::GenericReceipt;
use serde_json::value::RawValue;
use crate::sort::{
    bytes_before, bytes_order, lemma_bytes_lt_irreflexive, lemma_bytes_order_total, lemma_permuted_multiset,
    lemma_sorted_bytes_ignore_order, lemma_stable_order_ids_exists, lemma_strictly_sorted_unique, permuted,
    sorted_bytes, stable_order_bytes, stable_order_ids, stable_order_of_bytes, stable_order_of_ids,
};
use crate::text::{
    append_ascii, append_bytes, append_decimal, append_json_array, append_json_string, ascii_bytes,
    bytes_eq, decimal, json_array, json_string, json_strings,
};

verus! {

/// What `blake3::hash` returns for the given bytes, written as its 64
/// lowercase hexadecimal digits.
pub uninterp spec fn blake3_hex(data: Seq<u8>) -> Seq<char>;

/// `blake3::hash`, written out with the `Display` of `blake3::Hash`.
///
/// Claims that the result is the named hash of exactly the given bytes.
/// Hashing the concatenation in one call gives what feeding the pieces to
/// a `blake3::Hasher` one after another gives (the crate documents
/// `Hasher::update` as equivalent to hashing the concatenated input).
#[verifier::external_body]
fn blake3_hash_hex(data: &[u8]) -> (r: String)
    ensures
        r@ == blake3_hex(data@),
{
    blake3::hash(data).to_string()
}

/// The bytes of the given texts, one after another.
pub open spec fn concat_utf8(strs: Seq<Seq<char>>) -> Seq<u8>
    decreases strs.len(),
{
    if strs.len() == 0 {
        Seq::empty()
    } else {
        concat_utf8(strs.drop_last()) + encode_utf8(strs.last())
    }
}

/// The JSON-RPC request object for the given id, method and params text.
pub open spec fn request_json(id: nat, method: Seq<char>, params: Option<Seq<u8>>) -> Seq<u8> {
    ascii_bytes("{\"jsonrpc\":\"2.0\",\"id\":"@) + decimal(id) + ascii_bytes(",\"method\":"@)
        + json_string(method) + match params {
        Some(p) => ascii_bytes(",\"params\":"@) + p,
        None => Seq::empty(),
    } + ascii_bytes("}"@)
}

/// The view of an optional byte vector.
pub open spec fn opt_bytes(o: Option<Vec<u8>>) -> Option<Seq<u8>> {
    match o {
        Some(v) => Some(v@),
        None => None,
    }
}

/// A JSON value, or `null` where there is none.
pub open spec fn json_or_null(o: Option<Seq<u8>>) -> Seq<u8> {
    match o {
        Some(v) => v,
        None => ascii_bytes("null"@),
    }
}

/// The idempotency key of a batch: the provider's uid, a dash, the batch's
/// index in decimal.
pub open spec fn idempotency_key(uid: Seq<char>, index: nat) -> Seq<u8> {
    encode_utf8(uid) + seq![45u8] + decimal(index)
}

/// A batch ready for the HTTP outcall.
pub struct HttpBatchRequest {
    /// The RPC URL to call.
    pub url: String,
    /// The JSON array of the requests.
    pub body: Vec<u8>,
    /// The value of the `X-Idempotency-Key` header.
    pub idempotency_key: Vec<u8>,
    /// The largest response to accept, in bytes.
    pub max_response_bytes: u64,
    /// The context for the response transform: the method names.
    pub transform_context: Vec<u8>,
    /// The batch, to be fulfilled from the responses.
    pub batch: BatchRequestCollection,
}

/// One response of a JSON-RPC batch, its members as JSON texts.
pub struct RpcResponse {
    pub id: u32,
    /// The `result` member, if any.
    pub result: Option<Vec<u8>>,
    /// The elements of `result`, where it is a JSON array.
    pub result_items: Option<Vec<Vec<u8>>>,
    /// The `error` member, if any.
    pub error: Option<Vec<u8>>,
}

/// The JSON-RPC client of one chain.
pub struct BaseProvider {
    urls: Vec<String>,
    last_used_url: usize,
    batcher: Batcher,
    uid: String,
    idempotency_counter: u128,
}

impl BaseProvider {
    pub closed spec fn urls(&self) -> Seq<Seq<char>> {
        self.urls@.map_values(|u: String| u@)
    }

    /// The index of the URL used last.
    pub closed spec fn last_used(&self) -> nat {
        self.last_used_url as nat
    }

    /// The requests queued for the next batch.
    pub closed spec fn batcher(&self) -> Batcher {
        self.batcher
    }

    pub closed spec fn uid(&self) -> Seq<char> {
        self.uid@
    }

    /// The index the next batch gets in its idempotency key.
    pub closed spec fn counter(&self) -> nat {
        self.idempotency_counter as nat
    }

    pub closed spec fn wf(&self) -> bool {
        &&& self.batcher.wf()
        &&& (self.urls.len() > 0 ==> self.last_used_url < self.urls.len())
    }

    /// A client for the given URLs. Its uid, which keys its outcalls, is the
    /// BLAKE3 hash of the URLs and the canister's cycle balance in decimal.
    pub fn new(urls: Vec<String>, cycles_balance: u128) -> (r: BaseProvider)
        ensures
            r.wf(),
            r.urls() == urls@.map_values(|u: String| u@),
            r.last_used() == 0,
            r.counter() == 0,
            r.uid() == blake3_hex(concat_utf8(urls@.map_values(|u: String| u@)) + decimal(cycles_balance as nat)),
            r.batcher().requests() == Seq::<Seq<u8>>::empty(),
            r.batcher().methods() == Seq::<Seq<char>>::empty(),
            r.batcher().max_bytes() == 0,
    {
        let ghost views = urls@.map_values(|u: String| u@);
        let mut data: Vec<u8> = Vec::new();
        let n = urls.len();
        for i in 0..n
            invariant
                n == urls.len(),
                views == urls@.map_values(|u: String| u@),
                data@ == concat_utf8(views.take(i as int)),
        {
            append_bytes(&mut data, urls[i].as_str().as_bytes());
            assert(views.take(i + 1).drop_last() =~= views.take(i as int));
        }
        assert(views.take(n as int) =~= views);
        append_decimal(&mut data, cycles_balance);
        let uid = blake3_hash_hex(data.as_slice());
        BaseProvider { urls, last_used_url: 0, batcher: Batcher::new(), uid, idempotency_counter: 0 }
    }

    /// The number of RPC URLs.
    pub fn url_count(&self) -> (r: usize)
        ensures
            r == self.urls().len(),
    {
        self.urls.len()
    }

    /// The index the next batch gets in its idempotency key.
    pub fn batch_counter(&self) -> (r: u128)
        ensures
            r == self.counter(),
    {
        self.idempotency_counter
    }

    /// The next URL, round-robin.
    fn pick_rpc_url(&mut self) -> (r: String)
        requires
            old(self).wf(),
            old(self).urls().len() > 0,
        ensures
            final(self).wf(),
            final(self).last_used() == (old(self).last_used() + 1) % old(self).urls().len(),
            r@ == old(self).urls()[final(self).last_used() as int],
            final(self).urls() == old(self).urls(),
            final(self).batcher() == old(self).batcher(),
            final(self).uid() == old(self).uid(),
            final(self).counter() == old(self).counter(),
    {
        let current_url = (self.last_used_url + 1) % self.urls.len();
        self.last_used_url = current_url;
        self.urls[current_url].clone()
    }

    /// Queues a request; its id is its position in the batch.
    pub fn issue_request(&mut self, method: &str, params: Option<Vec<u8>>, max_response_bytes: u64) -> (r:
        GenericReceipt)
        requires
            old(self).wf(),
            old(self).batcher().requests().len() <= u32::MAX,
            old(self).batcher().max_bytes() + max_response_bytes <= u64::MAX,
        ensures
            final(self).wf(),
            r.id == old(self).batcher().requests().len(),
            final(self).batcher().requests() == old(self).batcher().requests().push(
                request_json(r.id as nat, method@, opt_bytes(params)),
            ),
            final(self).batcher().methods() == old(self).batcher().methods().push(method@),
            final(self).batcher().max_bytes() == old(self).batcher().max_bytes()
                + max_response_bytes,
            final(self).urls() == old(self).urls(),
            final(self).last_used() == old(self).last_used(),
            final(self).uid() == old(self).uid(),
            final(self).counter() == old(self).counter(),
    {
        let request_id = self.batcher.next_id();
        let mut payload: Vec<u8> = Vec::new();
        proof {
            reveal_strlit("{\"jsonrpc\":\"2.0\",\"id\":");
            reveal_strlit(",\"method\":");
            reveal_strlit(",\"params\":");
            reveal_strlit("}");
        }
        append_ascii(&mut payload, "{\"jsonrpc\":\"2.0\",\"id\":");
        append_decimal(&mut payload, request_id as u128);
        append_ascii(&mut payload, ",\"method\":");
        append_json_string(&mut payload, method);
        let ghost before_params = payload@;
        match &params {
            Some(p) => {
                append_ascii(&mut payload, ",\"params\":");
                append_bytes(&mut payload, p.as_slice());
            },
            None => {},
        }
        append_ascii(&mut payload, "}");
        let ghost expected = request_json(request_id as nat, method@, opt_bytes(params));
        assert(payload@ =~= expected);
        let (receipt, _) = self.batcher.queue_request(payload, method.to_string(), max_response_bytes);
        receipt
    }

    /// Takes the queued requests as one batch for an HTTP outcall: the next
    /// URL round-robin, the requests as a JSON array, the allowed response
    /// size plus 1000 bytes, and an idempotency key unique to the batch.
    pub fn commit(&mut self) -> (r: HttpBatchRequest)
        requires
            old(self).wf(),
            old(self).urls().len() > 0,
            old(self).counter() < u128::MAX,
            old(self).batcher().max_bytes() + 1000 <= u64::MAX,
        ensures
            final(self).wf(),
            final(self).last_used() == (old(self).last_used() + 1) % old(self).urls().len(),
            r.url@ == old(self).urls()[final(self).last_used() as int],
            r.body@ == json_array(old(self).batcher().requests()),
            r.idempotency_key@ == idempotency_key(old(self).uid(), old(self).counter()),
            r.max_response_bytes == old(self).batcher().max_bytes() + 1000,
            r.transform_context@ == json_array(json_strings(old(self).batcher().methods())),
            r.batch.wf(),
            r.batch.sent(),
            r.batch.requests() == old(self).batcher().requests(),
            r.batch.methods() == old(self).batcher().methods(),
            forall|i: int| 0 <= i < r.batch.requests().len() ==> #[trigger] r.batch.result(i) is None,
            final(self).counter() == old(self).counter() + 1,
            final(self).batcher().requests() == Seq::<Seq<u8>>::empty(),
            final(self).batcher().methods() == Seq::<Seq<char>>::empty(),
            final(self).batcher().max_bytes() == 0,
            final(self).urls() == old(self).urls(),
            final(self).uid() == old(self).uid(),
    {
        let mut requests = self.batcher.collect_requests();
        let idempotency_index = self.idempotency_counter;
        self.idempotency_counter = self.idempotency_counter + 1;
        let data = requests.data();
        let body = BatchRequestCollection::body(&data);
        let transform_context = requests.context();
        let max_response_bytes = requests.max_response_bytes() + 1000;
        let url = self.pick_rpc_url();
        let mut key: Vec<u8> = Vec::new();
        append_bytes(&mut key, self.uid.as_str().as_bytes());
        key.push(45);
        append_decimal(&mut key, idempotency_index);
        assert(key@ =~= idempotency_key(old(self).uid(), old(self).counter()));
        HttpBatchRequest {
            url,
            body,
            idempotency_key: key,
            max_response_bytes,
            transform_context,
            batch: requests,
        }
    }
}

/// Whether a batch can take the given responses: each answers a request of
/// the batch that has no response yet, no request twice, and each carries a
/// result.
pub open spec fn responses_fit(batch: BatchRequestCollection, responses: Seq<RpcResponse>) -> bool {
    &&& forall|i: int| 0 <= i < responses.len() ==> (#[trigger] responses[i]).id < batch.requests().len()
    &&& forall|i: int| 0 <= i < responses.len() ==> batch.result((#[trigger] responses[i]).id as int) is None
    &&& forall|i: int| 0 <= i < responses.len() ==> (#[trigger] responses[i]).result is Some
    &&& forall|i: int, j: int| 0 <= i < j < responses.len() ==> responses[i].id != responses[j].id
}

/// Whether a batch can take the given responses (see `responses_fit`).
pub fn check_responses(batch: &BatchRequestCollection, responses: &Vec<RpcResponse>) -> (r: bool)
    requires
        batch.wf(),
    ensures
        r == responses_fit(*batch, responses@),
{
    let n = responses.len();
    let len = batch.request_count();
    let mut i: usize = 0;
    while i < n
        invariant
            n == responses.len(),
            len == batch.requests().len(),
            batch.wf(),
            i <= n,
            forall|a: int| 0 <= a < i ==> (#[trigger] responses@[a]).id < len,
            forall|a: int| 0 <= a < i ==> batch.result((#[trigger] responses@[a]).id as int) is None,
            forall|a: int| 0 <= a < i ==> (#[trigger] responses@[a]).result is Some,
            forall|a: int, b: int| 0 <= a < b < i ==> responses@[a].id != responses@[b].id,
        decreases n - i,
    {
        let id = responses[i].id;
        if id as u64 >= len || batch.has_result(id as u64) || responses[i].result.is_none() {
            return false;
        }
        let mut j: usize = 0;
        while j < i
            invariant
                n == responses.len(),
                i < n,
                j <= i,
                id == responses@[i as int].id,
                forall|a: int| 0 <= a < j ==> responses@[a].id != id,
            decreases i - j,
        {
            if responses[j].id == id {
                return false;
            }
            j = j + 1;
        }
        i = i + 1;
    }
    true
}

/// Fulfills a batch with the results of its responses.
pub fn fulfill_responses(batch: &mut BatchRequestCollection, responses: Vec<RpcResponse>)
    requires
        old(batch).wf(),
        responses_fit(*old(batch), responses@),
    ensures
        final(batch).wf(),
        final(batch).requests() == old(batch).requests(),
        final(batch).methods() == old(batch).methods(),
        final(batch).sent() == old(batch).sent(),
        forall|i: int| 0 <= i < responses@.len() ==> final(batch).result((#[trigger] responses@[i]).id as int)
            == opt_bytes(responses@[i].result),
        forall|k: int|
            0 <= k < old(batch).requests().len() && (forall|i: int| 0 <= i < responses@.len() ==> (#[trigger] responses@[i]).id != k)
                ==> final(batch).result(k) == old(batch).result(k),
{
    let ghost rs = responses@;
    let mut responses = responses;
    let n = responses.len();
    let mut i: usize = 0;
    while i < n
        invariant
            batch.wf(),
            n == rs.len(),
            i <= n,
            responses@ == rs.skip(i as int),
            batch.requests() == old(batch).requests(),
            batch.methods() == old(batch).methods(),
            batch.sent() == old(batch).sent(),
            responses_fit(*old(batch), rs),
            forall|a: int| 0 <= a < i ==> batch.result((#[trigger] rs[a]).id as int) == opt_bytes(rs[a].result),
            forall|k: int|
                0 <= k < old(batch).requests().len() && (forall|a: int| 0 <= a < i ==> (#[trigger] rs[a]).id != k)
                    ==> batch.result(k) == old(batch).result(k),
        decreases n - i,
    {
        let response = responses.remove(0);
        assert(response == rs[i as int]);
        assert(rs.skip(i as int).drop_first() =~= rs.skip(i + 1));
        let id = response.id;
        proof {
            assert forall|a: int| 0 <= a < i implies rs[a].id != id by {}
            assert(batch.result(id as int) == old(batch).result(id as int));
        }
        match response.result {
            Some(result) => {
                batch.fulfill(id as u64, result);
            },
            None => {
                assert(false);
            },
        }
        i = i + 1;
    }
}

/// Whether a method name is `eth_getLogs`.
pub open spec fn is_get_logs(method: Seq<char>) -> bool {
    encode_utf8(method) == ascii_bytes("eth_getLogs"@)
}

/// The views of optional array elements.
pub open spec fn opt_items(o: Option<Vec<Vec<u8>>>) -> Seq<Seq<u8>> {
    match o {
        Some(v) => v@.map_values(|x: Vec<u8>| x@),
        None => Seq::empty(),
    }
}

/// The result of a response after normalization: the logs of an
/// `eth_getLogs` response sorted by their JSON text, other results as they
/// are.
pub open spec fn normalized_result(methods: Seq<Seq<char>>, r: RpcResponse) -> Option<Seq<u8>> {
    if is_get_logs(methods[r.id as int]) {
        Some(json_array(sorted_bytes(opt_items(r.result_items))))
    } else {
        opt_bytes(r.result)
    }
}

/// The JSON object of one response.
pub open spec fn response_json(id: u32, result: Option<Seq<u8>>, error: Option<Seq<u8>>) -> Seq<u8> {
    ascii_bytes("{\"id\":"@) + decimal(id as nat) + ascii_bytes(",\"result\":"@) + json_or_null(result)
        + ascii_bytes(",\"error\":"@) + json_or_null(error) + ascii_bytes("}"@)
}

/// The normalized JSON object of one response.
pub open spec fn normalized_response(methods: Seq<Seq<char>>, r: RpcResponse) -> Seq<u8> {
    response_json(r.id, normalized_result(methods, r), opt_bytes(r.error))
}

/// The ids of the responses.
pub open spec fn response_ids(rs: Seq<RpcResponse>) -> Seq<u32> {
    rs.map_values(|r: RpcResponse| r.id)
}

/// The body the transform gives: the normalized responses sorted by id
/// (stably), as a JSON array.
pub open spec fn transform_body(methods: Seq<Seq<char>>, rs: Seq<RpcResponse>) -> Seq<u8> {
    json_array(
        Seq::new(
            rs.len(),
            |i: int| normalized_response(methods, rs[stable_order_of_ids(response_ids(rs))[i] as int]),
        ),
    )
}

/// Whether the responses can be normalized: each id names a method, and an
/// `eth_getLogs` response carries its result as an array.
pub open spec fn transformable(methods: Seq<Seq<char>>, rs: Seq<RpcResponse>) -> bool {
    forall|i: int|
        0 <= i < rs.len() ==> (#[trigger] rs[i]).id < methods.len() && (is_get_logs(
            methods[rs[i].id as int],
        ) ==> rs[i].result is Some && rs[i].result_items is Some)
}

fn append_opt_json(out: &mut Vec<u8>, o: &Option<Vec<u8>>)
    ensures
        final(out)@ == old(out)@ + json_or_null(opt_bytes(*o)),
{
    match o {
        Some(v) => append_bytes(out, v.as_slice()),
        None => {
            proof {
                reveal_strlit("null");
            }
            append_ascii(out, "null");
        },
    }
}

/// The JSON array of array elements in ascending lexicographic order.
fn sorted_items_json(items: &Vec<Vec<u8>>) -> (r: Vec<u8>)
    ensures
        r@ == json_array(sorted_bytes(items@.map_values(|x: Vec<u8>| x@))),
{
    let ghost views = items@.map_values(|x: Vec<u8>| x@);
    let order = stable_order_bytes(items);
    let n = order.len();
    let mut sorted: Vec<Vec<u8>> = Vec::new();
    for i in 0..n
        invariant
            n == order.len(),
            n == items.len(),
            views == items@.map_values(|x: Vec<u8>| x@),
            order@ == stable_order_of_bytes(views),
            forall|a: int| 0 <= a < n ==> order@[a] < n,
            sorted.len() == i,
            forall|a: int| 0 <= a < i ==> sorted@[a]@ == views[order@[a] as int],
    {
        sorted.push(items[order[i]].clone());
    }
    proof {
        let t = permuted(views, order@);
        assert(sorted@.map_values(|x: Vec<u8>| x@) =~= t);
        assert forall|i: int, j: int| 0 <= i < j < order@.len() implies order@[i] != order@[j] by {
            assert(bytes_before(views, order@[i] as int, order@[j] as int));
            lemma_bytes_lt_irreflexive(views[order@[i] as int]);
        }
        assert forall|i: int, j: int| 0 <= i < j < t.len() implies #[trigger] (bytes_order())(t[i], t[j]) by {
            assert(bytes_before(views, order@[i] as int, order@[j] as int));
        }
        lemma_permuted_multiset(views, order@);
        lemma_bytes_order_total();
        views.lemma_sort_by_ensures(bytes_order());
        vstd::seq_lib::lemma_sorted_unique(t, sorted_bytes(views), bytes_order());
    }
    let mut out: Vec<u8> = Vec::new();
    append_json_array(&mut out, &sorted);
    out
}

/// Normalizes a batch of responses so that all replicas of the canister
/// agree on it: the logs of each `eth_getLogs` response are sorted by their
/// JSON text, and the responses are sorted by id.
pub fn transform_rpc(methods: &Vec<String>, responses: &Vec<RpcResponse>) -> (r: Vec<u8>)
    requires
        transformable(methods@.map_values(|m: String| m@), responses@),
    ensures
        r@ == transform_body(methods@.map_values(|m: String| m@), responses@),
{
    let ghost ms = methods@.map_values(|m: String| m@);
    let n = responses.len();
    let mut get_logs: Vec<u8> = Vec::new();
    proof {
        reveal_strlit("eth_getLogs");
        reveal_strlit("{\"id\":");
        reveal_strlit(",\"result\":");
        reveal_strlit(",\"error\":");
        reveal_strlit("}");
    }
    append_ascii(&mut get_logs, "eth_getLogs");
    let mut objects: Vec<Vec<u8>> = Vec::new();
    let mut ids: Vec<u32> = Vec::new();
    for i in 0..n
        invariant
            n == responses.len(),
            ms == methods@.map_values(|m: String| m@),
            get_logs@ == ascii_bytes("eth_getLogs"@),
            transformable(ms, responses@),
            objects.len() == i,
            ids.len() == i,
            forall|a: int| 0 <= a < i ==> objects@[a]@ == normalized_response(ms, responses@[a]),
            forall|a: int| 0 <= a < i ==> ids@[a] == responses@[a].id,
    {
        let response = &responses[i];
        assert(response.id < methods.len());
        let logs = bytes_eq(methods[response.id as usize].as_str().as_bytes(), get_logs.as_slice());
        let mut obj: Vec<u8> = Vec::new();
        proof {
            reveal_strlit("{\"id\":");
            reveal_strlit(",\"result\":");
            reveal_strlit(",\"error\":");
            reveal_strlit("}");
        }
        append_ascii(&mut obj, "{\"id\":");
        append_decimal(&mut obj, response.id as u128);
        append_ascii(&mut obj, ",\"result\":");
        if logs {
            match &response.result_items {
                Some(items) => {
                    let sorted = sorted_items_json(items);
                    append_bytes(&mut obj, sorted.as_slice());
                },
                None => {
                    assert(false);
                },
            }
        } else {
            append_opt_json(&mut obj, &response.result);
        }
        append_ascii(&mut obj, ",\"error\":");
        append_opt_json(&mut obj, &response.error);
        append_ascii(&mut obj, "}");
        assert(obj@ =~= normalized_response(ms, responses@[i as int]));
        objects.push(obj);
        ids.push(response.id);
    }
    assert(ids@ =~= response_ids(responses@));
    let order = stable_order_ids(&ids);
    let mut sorted: Vec<Vec<u8>> = Vec::new();
    for i in 0..n
        invariant
            n == order.len(),
            n == objects.len(),
            n == responses.len(),
            order@ == stable_order_of_ids(response_ids(responses@)),
            forall|a: int| 0 <= a < n ==> order@[a] < n,
            forall|a: int| 0 <= a < n ==> objects@[a]@ == normalized_response(ms, responses@[a]),
            sorted.len() == i,
            forall|a: int|
                0 <= a < i ==> sorted@[a]@ == normalized_response(ms, responses@[order@[a] as int]),
    {
        sorted.push(objects[order[i]].clone());
    }
    let mut out: Vec<u8> = Vec::new();
    append_json_array(&mut out, &sorted);
    assert(sorted@.map_values(|x: Vec<u8>| x@) =~= Seq::new(
        n as nat,
        |i: int| normalized_response(ms, responses@[stable_order_of_ids(response_ids(responses@))[i] as int]),
    ));
    out
}


/// The responses in ascending order of id, ties in their order.
pub open spec fn ordered_responses(rs: Seq<RpcResponse>) -> Seq<RpcResponse> {
    permuted(rs, stable_order_of_ids(response_ids(rs)))
}

proof fn lemma_ordered_responses(rs: Seq<RpcResponse>)
    requires
        rs.len() <= usize::MAX,
        forall|i: int, j: int| 0 <= i < j < rs.len() ==> rs[i].id != rs[j].id,
    ensures
        ordered_responses(rs).to_multiset() == rs.to_multiset(),
        forall|i: int, j: int|
            0 <= i < j < rs.len() ==> ordered_responses(rs)[i].id < ordered_responses(rs)[j].id,
{
    let ids = response_ids(rs);
    let o = stable_order_of_ids(ids);
    lemma_stable_order_ids_exists(ids);
    assert forall|i: int, j: int| 0 <= i < j < o.len() implies o[i] != o[j] && ids[o[i] as int] < ids[o[j] as int] by {
        assert(crate::sort::id_before(ids, o[i] as int, o[j] as int));
    }
    lemma_permuted_multiset(rs, o);
}


/// The strings of a JSON array of strings, or `None` where the text is no
/// such array (serde_json reading a `Vec<String>`).
pub uninterp spec fn json_string_array(text: Seq<u8>) -> Option<Seq<Seq<char>>>;

/// The raw texts of the elements of a JSON array, or `None` where the text
/// is no array (serde_json reading a `Vec<Box<RawValue>>`).
pub uninterp spec fn json_array_items(text: Seq<u8>) -> Option<Seq<Seq<u8>>>;

/// `serde_json::from_slice` into a `Vec<String>`. Claims the result is the
/// named list.
#[verifier::external_body]
fn parse_methods(context: &[u8]) -> (r: Option<Vec<String>>)
    ensures
        match r {
            Some(v) => json_string_array(context@) == Some(v@.map_values(|m: String| m@)),
            None => json_string_array(context@) is None,
        },
{
    serde_json::from_slice(context).ok()
}

/// `serde_json::from_slice` into a `Vec<Box<RawValue>>`, each element kept
/// as its raw text. Claims the result is the named list.
#[verifier::external_body]
fn array_items(text: &[u8]) -> (r: Option<Vec<Vec<u8>>>)
    ensures
        match r {
            Some(v) => json_array_items(text@) == Some(v@.map_values(|x: Vec<u8>| x@)),
            None => json_array_items(text@) is None,
        },
{
    let items: Vec<Box<RawValue>> = serde_json::from_slice(text).ok()?;
    Some(items.iter().map(|i| i.get().as_bytes().to_vec()).collect())
}

/// The normalized result of a response as it arrived: for `eth_getLogs`,
/// the elements of its result array sorted by their text.
pub open spec fn raw_normalized_result(methods: Seq<Seq<char>>, r: RpcResponse) -> Option<Seq<u8>> {
    if is_get_logs(methods[r.id as int]) {
        Some(json_array(sorted_bytes(json_array_items(r.result.unwrap()@).unwrap())))
    } else {
        opt_bytes(r.result)
    }
}

/// Responses as they arrived can be normalized: each id names a method, and
/// an `eth_getLogs` response carries an array as its result.
pub open spec fn raw_transformable(methods: Seq<Seq<char>>, rs: Seq<RpcResponse>) -> bool {
    forall|i: int|
        0 <= i < rs.len() ==> (#[trigger] rs[i]).id < methods.len() && (is_get_logs(methods[rs[i].id as int])
            ==> (rs[i].result matches Some(t) && json_array_items(t@) is Some))
}

/// The normalized body of responses as they arrived, sorted by id.
pub open spec fn raw_transform_body(methods: Seq<Seq<char>>, rs: Seq<RpcResponse>) -> Seq<u8> {
    json_array(
        Seq::new(
            rs.len(),
            |i: int| {
                let r = rs[stable_order_of_ids(response_ids(rs))[i] as int];
                response_json(r.id, raw_normalized_result(methods, r), opt_bytes(r.error))
            },
        ),
    )
}

/// The response transform on its raw input: the context (the JSON array of
/// the batch's method names) and the responses as they arrived. The result
/// arrays of `eth_getLogs` responses are split into their elements; `None`
/// where the context or a response does not fit.
pub fn transform_raw(context: &[u8], responses: Vec<RpcResponse>) -> (r: Option<Vec<u8>>)
    ensures
        match r {
            Some(b) => json_string_array(context@) matches Some(ms) && raw_transformable(ms, responses@)
                && b@ == raw_transform_body(ms, responses@),
            None => !(json_string_array(context@) matches Some(ms) && raw_transformable(ms, responses@)),
        },
{
    let methods = match parse_methods(context) {
        Some(m) => m,
        None => {
            return None;
        },
    };
    let ghost ms = methods@.map_values(|m: String| m@);
    let mut get_logs: Vec<u8> = Vec::new();
    proof {
        reveal_strlit("eth_getLogs");
    }
    append_ascii(&mut get_logs, "eth_getLogs");
    let ghost rs = responses@;
    let n = responses.len();
    let mut responses = responses;
    let mut filled: Vec<RpcResponse> = Vec::new();
    #[verifier::loop_isolation(false)]
    while filled.len() < n
        invariant
            filled.len() <= n,
            n == rs.len(),
            responses@ == rs.skip(filled.len() as int),
            get_logs@ == ascii_bytes("eth_getLogs"@),
            forall|a: int|
                0 <= a < filled.len() ==> {
                    let f = #[trigger] filled@[a];
                    &&& f.id == rs[a].id
                    &&& f.result == rs[a].result
                    &&& f.error == rs[a].error
                    &&& f.id < ms.len()
                    &&& is_get_logs(ms[f.id as int]) ==> (rs[a].result matches Some(t) && f.result_items matches Some(items)
                        && json_array_items(t@) == Some(items@.map_values(|x: Vec<u8>| x@)))
                },
            forall|a: int|
                0 <= a < filled.len() ==> (#[trigger] rs[a]).id < ms.len() && (is_get_logs(ms[rs[a].id as int])
                    ==> (rs[a].result matches Some(t) && json_array_items(t@) is Some)),
        decreases n - filled.len(),
    {
        let k = filled.len();
        let r = responses.remove(0);
        assert(r == rs[k as int]);
        assert(rs.skip(k as int).drop_first() =~= rs.skip(k + 1));
        let RpcResponse { id, result, result_items: _, error } = r;
        if id as usize >= methods.len() {
            return None;
        }
        let logs = bytes_eq(methods[id as usize].as_str().as_bytes(), get_logs.as_slice());
        if logs {
            let items = match &result {
                Some(t) => match array_items(t.as_slice()) {
                    Some(items) => items,
                    None => {
                        return None;
                    },
                },
                None => {
                    return None;
                },
            };
            filled.push(RpcResponse { id, result, result_items: Some(items), error });
        } else {
            filled.push(RpcResponse { id, result, result_items: None, error });
        }
    }
    assert(transformable(ms, filled@));
    let body = transform_rpc(&methods, &filled);
    proof {
        assert(response_ids(filled@) =~= response_ids(rs));
        assert forall|j: int| 0 <= j < n implies normalized_response(ms, #[trigger] filled@[j]) == response_json(
            rs[j].id,
            raw_normalized_result(ms, rs[j]),
            opt_bytes(rs[j].error),
        ) by {
            let f = filled@[j];
            if is_get_logs(ms[f.id as int]) {
                assert(opt_items(f.result_items) == json_array_items(rs[j].result.unwrap()@).unwrap());
            }
        }
        let o = stable_order_of_ids(response_ids(rs));
        assert(Seq::new(n as nat, |i: int| normalized_response(ms, filled@[o[i] as int])) =~= Seq::new(
            n as nat,
            |i: int| {
                let r = rs[o[i] as int];
                response_json(r.id, raw_normalized_result(ms, r), opt_bytes(r.error))
            },
        )) by {
            lemma_stable_order_ids_exists(response_ids(rs));
        }
    }
    Some(body)
}

/// Every replica answers the same: responses with distinct ids give the
/// same normalized body in whatever order they arrive.
pub proof fn lemma_transform_ignores_response_order(
    methods: Seq<Seq<char>>,
    rs1: Seq<RpcResponse>,
    rs2: Seq<RpcResponse>,
)
    requires
        rs1.len() <= usize::MAX,
        rs1.to_multiset() == rs2.to_multiset(),
        forall|i: int, j: int| 0 <= i < j < rs1.len() ==> rs1[i].id != rs1[j].id,
        forall|i: int, j: int| 0 <= i < j < rs2.len() ==> rs2[i].id != rs2[j].id,
    ensures
        transform_body(methods, rs1) == transform_body(methods, rs2),
{
    broadcast use vstd::seq_lib::group_to_multiset_ensures;

    assert(rs1.to_multiset().len() == rs1.len());
    assert(rs2.to_multiset().len() == rs2.len());
    lemma_ordered_responses(rs1);
    lemma_ordered_responses(rs2);
    let x1 = ordered_responses(rs1);
    let x2 = ordered_responses(rs2);
    lemma_strictly_sorted_unique(x1, x2, |r: RpcResponse| r.id as int);
    let n = rs1.len();
    assert(Seq::new(n, |i: int| normalized_response(methods, rs1[stable_order_of_ids(response_ids(rs1))[i] as int]))
        =~= Seq::new(n, |i: int| normalized_response(methods, rs2[stable_order_of_ids(response_ids(rs2))[i] as int]))) by {
        assert forall|i: int| 0 <= i < n implies normalized_response(methods, rs1[stable_order_of_ids(response_ids(rs1))[i] as int])
            == normalized_response(methods, rs2[stable_order_of_ids(response_ids(rs2))[i] as int]) by {
            assert(x1[i] == x2[i]);
        }
    }
}

/// The logs of an `eth_getLogs` response are normalized whatever their
/// order: the same logs in another order give the same result.
pub proof fn lemma_normalized_logs_ignore_order(methods: Seq<Seq<char>>, r1: RpcResponse, r2: RpcResponse)
    requires
        r1.id == r2.id,
        is_get_logs(methods[r1.id as int]),
        opt_items(r1.result_items).to_multiset() == opt_items(r2.result_items).to_multiset(),
    ensures
        normalized_result(methods, r1) == normalized_result(methods, r2),
{
    lemma_sorted_bytes_ignore_order(opt_items(r1.result_items), opt_items(r2.result_items));
}


/// Every batch of a provider goes out under its own idempotency key: keys
/// for different batch indices differ.
pub proof fn lemma_idempotency_keys_distinct(uid: Seq<char>, a: nat, b: nat)
    requires
        a != b,
    ensures
        idempotency_key(uid, a) != idempotency_key(uid, b),
{
    let prefix = encode_utf8(uid) + seq![45u8];
    assert(idempotency_key(uid, a) =~= prefix + decimal(a));
    assert(idempotency_key(uid, b) =~= prefix + decimal(b));
    if idempotency_key(uid, a) == idempotency_key(uid, b) {
        assert((prefix + decimal(a)).skip(prefix.len() as int) =~= decimal(a));
        assert((prefix + decimal(b)).skip(prefix.len() as int) =~= decimal(b));
        crate::text::lemma_decimal_injective(a, b);
    }
}


/// With two or more RPC URLs, two batches in a row go to different URLs:
/// the URL of the next batch, `(last_used + 1) % n`, is not the one used
/// last.
pub proof fn lemma_consecutive_batches_use_different_urls(p: BaseProvider)
    requires
        p.wf(),
        p.urls().len() >= 2,
    ensures
        (p.last_used() + 1) % p.urls().len() != p.last_used(),
{
    let n = p.urls().len();
    if p.last_used() + 1 < n {
        vstd::arithmetic::div_mod::lemma_small_mod((p.last_used() + 1) as nat, n);
    } else {
        vstd::arithmetic::div_mod::lemma_mod_self_0(n as int);
    }
}


/// What the normalized body keeps of a response: its id, its normalized
/// result and its error.
pub open spec fn normal_view(methods: Seq<Seq<char>>, r: RpcResponse) -> (u32, Option<Seq<u8>>, Option<Seq<u8>>) {
    (r.id, normalized_result(methods, r), opt_bytes(r.error))
}

/// Every replica answers the same, whatever order the responses and the
/// logs within them arrived in: responses with distinct ids whose
/// normalized forms are the same multiset give the same body. (Reordering
/// the logs of an `eth_getLogs` result keeps its normalized form, by
/// `lemma_normalized_logs_ignore_order`.)
pub proof fn lemma_transform_ignores_all_order(methods: Seq<Seq<char>>, rs1: Seq<RpcResponse>, rs2: Seq<RpcResponse>)
    requires
        rs1.len() <= usize::MAX,
        rs2.len() <= usize::MAX,
        rs1.map_values(|r: RpcResponse| normal_view(methods, r)).to_multiset() == rs2.map_values(
            |r: RpcResponse| normal_view(methods, r),
        ).to_multiset(),
        forall|i: int, j: int| 0 <= i < j < rs1.len() ==> rs1[i].id != rs1[j].id,
        forall|i: int, j: int| 0 <= i < j < rs2.len() ==> rs2[i].id != rs2[j].id,
    ensures
        transform_body(methods, rs1) == transform_body(methods, rs2),
{
    broadcast use vstd::seq_lib::group_to_multiset_ensures;

    let f = |r: RpcResponse| normal_view(methods, r);
    let v1 = rs1.map_values(f);
    let v2 = rs2.map_values(f);
    assert(v1.to_multiset().len() == v1.len());
    assert(v2.to_multiset().len() == v2.len());
    let o1 = stable_order_of_ids(response_ids(rs1));
    let o2 = stable_order_of_ids(response_ids(rs2));
    lemma_stable_order_ids_exists(response_ids(rs1));
    lemma_stable_order_ids_exists(response_ids(rs2));
    lemma_ordered_responses(rs1);
    lemma_ordered_responses(rs2);
    assert forall|i: int, j: int| 0 <= i < j < o1.len() implies o1[i] != o1[j] by {
        assert(crate::sort::id_before(response_ids(rs1), o1[i] as int, o1[j] as int));
    }
    assert forall|i: int, j: int| 0 <= i < j < o2.len() implies o2[i] != o2[j] by {
        assert(crate::sort::id_before(response_ids(rs2), o2[i] as int, o2[j] as int));
    }
    lemma_permuted_multiset(v1, o1);
    lemma_permuted_multiset(v2, o2);
    let x1 = permuted(v1, o1);
    let x2 = permuted(v2, o2);
    assert forall|i: int, j: int| 0 <= i < j < x1.len() implies x1[i].0 < x1[j].0 by {
        assert(ordered_responses(rs1)[i].id < ordered_responses(rs1)[j].id);
    }
    assert forall|i: int, j: int| 0 <= i < j < x2.len() implies x2[i].0 < x2[j].0 by {
        assert(ordered_responses(rs2)[i].id < ordered_responses(rs2)[j].id);
    }
    lemma_strictly_sorted_unique(x1, x2, |v: (u32, Option<Seq<u8>>, Option<Seq<u8>>)| v.0 as int);
    let n = rs1.len();
    assert(Seq::new(n, |i: int| normalized_response(methods, rs1[o1[i] as int])) =~= Seq::new(
        rs2.len(),
        |i: int| normalized_response(methods, rs2[o2[i] as int]),
    )) by {
        assert forall|i: int| 0 <= i < n implies normalized_response(methods, rs1[o1[i] as int])
            == normalized_response(methods, rs2[o2[i] as int]) by {
            assert(x1[i] == x2[i]);
        }
    }
}

/// The idempotency keys of a run of batches from one provider are pairwise
/// different: the batches numbered `c0 .. c0 + n` get keys `uid-c0`, …
pub proof fn lemma_run_keys_distinct(uid: Seq<char>, c0: nat, n: nat)
    ensures
        forall|a: nat, b: nat|
            c0 <= a < b < c0 + n ==> #[trigger] idempotency_key(uid, a) != #[trigger] idempotency_key(uid, b),
{
    assert forall|a: nat, b: nat| c0 <= a < b < c0 + n implies #[trigger] idempotency_key(uid, a)
        != #[trigger] idempotency_key(uid, b) by {
        lemma_idempotency_keys_distinct(uid, a, b);
    }
}


/// Responses whose ids name methods, and whose `eth_getLogs` results are
/// JSON arrays, empty ones included, can always be normalized.
pub proof fn lemma_log_arrays_transformable(methods: Seq<Seq<char>>, rs: Seq<RpcResponse>)
    requires
        forall|i: int|
            0 <= i < rs.len() ==> (#[trigger] rs[i]).id < methods.len() && (is_get_logs(methods[rs[i].id as int])
                ==> (rs[i].result matches Some(t) && json_array_items(t@) is Some)),
    ensures
        raw_transformable(methods, rs),
{
}

/// An `eth_getLogs` result with no logs is normalized to the empty array.
pub proof fn lemma_no_logs_normalize_to_empty(methods: Seq<Seq<char>>, r: RpcResponse)
    requires
        r.id < methods.len(),
        is_get_logs(methods[r.id as int]),
        r.result matches Some(t) && json_array_items(t@) == Some(Seq::<Seq<u8>>::empty()),
    ensures
        raw_normalized_result(methods, r) == Some(seq![91u8, 93u8]),
{
    broadcast use vstd::seq_lib::group_to_multiset_ensures;

    let items = Seq::<Seq<u8>>::empty();
    lemma_bytes_order_total();
    items.lemma_sort_by_ensures(bytes_order());
    assert(sorted_bytes(items).to_multiset().len() == 0);
    assert(sorted_bytes(items).len() == 0);
    assert(sorted_bytes(items) =~= items);
    assert(crate::text::comma_join(items) =~= Seq::<u8>::empty());
    assert(json_array(items) =~= seq![91u8, 93u8]);
}

} // verus!
