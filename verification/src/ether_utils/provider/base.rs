//! One JSON-RPC call per HTTP outcall.
use vstd::prelude::*;
use crate::provider::base::request_json;
use crate::text::{append_ascii, append_bytes, append_json_string};
use crate::provider::receipt::{json_quantity, parse_quantity};
use crate::u256::U256;
use serde_json::value::RawValue;
use std::collections::HashMap;

verus! {

/// The method of an HTTP outcall.
#[derive(Clone, Copy, Debug, PartialEq, Eq, Structural)]
pub enum HttpMethod {
    Get,
    Post,
    Head,
}

/// The HTTP outcall of one JSON-RPC call.
pub struct HttpRequest {
    pub url: String,
    pub method: HttpMethod,
    /// Header names and values.
    pub headers: Vec<(String, String)>,
    pub body: Vec<u8>,
    /// The largest response to accept, if limited.
    pub max_response_bytes: Option<u64>,
    /// The context of a response transform, if one is applied.
    pub transform_context: Option<Vec<u8>>,
    /// The cycles paid for the outcall.
    pub cycles: u128,
}

/// A plain JSON `POST`: one `Content-Type: application/json` header, no
/// response limit, no transform, 2_000_000_000 cycles.
pub open spec fn is_plain_json_post(r: HttpRequest) -> bool {
    &&& r.method == HttpMethod::Post
    &&& r.headers@.len() == 1
    &&& r.headers@[0].0@ == "Content-Type"@
    &&& r.headers@[0].1@ == "application/json"@
    &&& r.max_response_bytes is None
    &&& r.transform_context is None
    &&& r.cycles == 2_000_000_000
}

/// The raw text of the `result` member of a JSON-RPC response body, or
/// `None` where the body is no JSON object, has no `result` or its `result`
/// is `null`.
pub uninterp spec fn json_rpc_result(body: Seq<u8>) -> Option<Seq<u8>>;

/// `serde_json::from_slice` of a response body into a map from member
/// names to optional raw values, and the raw text of its `result`. Claims
/// the result is the named text.
#[verifier::external_body]
fn rpc_result(body: &[u8]) -> (r: Option<Vec<u8>>)
    ensures
        match r {
            Some(v) => json_rpc_result(body@) == Some(v@),
            None => json_rpc_result(body@) is None,
        },
{
    let members: HashMap<String, Option<Box<RawValue>>> = serde_json::from_slice(body).ok()?;
    let result = members.get("result")?.as_ref()?;
    Some(result.get().as_bytes().to_vec())
}

/// A client of one RPC URL.
pub struct BaseProvider {
    pub url: String,
}

impl BaseProvider {
    pub fn new(url: String) -> (r: BaseProvider)
        ensures
            r.url == url,
    {
        BaseProvider { url }
    }

    /// The outcall of one call: the request object with id 1, the method and
    /// the params (always present), posted as JSON to the client's URL.
    pub fn request(&self, method: &str, params: &[u8]) -> (r: HttpRequest)
        ensures
            r.url@ == self.url@,
            is_plain_json_post(r),
            r.body@ == request_json(1, method@, Some(params@)),
    {
        let mut body: Vec<u8> = Vec::new();
        proof {
            reveal_strlit("{\"jsonrpc\":\"2.0\",\"id\":1,\"method\":");
            reveal_strlit(",\"params\":");
            reveal_strlit("}");
            reveal_strlit("{\"jsonrpc\":\"2.0\",\"id\":");
            reveal_strlit(",\"method\":");
        }
        append_ascii(&mut body, "{\"jsonrpc\":\"2.0\",\"id\":1,\"method\":");
        append_json_string(&mut body, method);
        append_ascii(&mut body, ",\"params\":");
        append_bytes(&mut body, params);
        append_ascii(&mut body, "}");
        assert(crate::text::decimal(1) == seq![49u8]);
        assert(body@ =~= request_json(1, method@, Some(params@)));
        let mut headers: Vec<(String, String)> = Vec::new();
        headers.push((String::from_str("Content-Type"), String::from_str("application/json")));
        HttpRequest {
            url: self.url.clone(),
            method: HttpMethod::Post,
            headers,
            body,
            max_response_bytes: None,
            transform_context: None,
            cycles: 2_000_000_000,
        }
    }

    /// The result of the reply to a call, or `None` where the reply carries
    /// none.
    pub fn reply_result(&self, body: &[u8]) -> (r: Option<Vec<u8>>)
        ensures
            match r {
                Some(v) => json_rpc_result(body@) == Some(v@),
                None => json_rpc_result(body@) is None,
            },
    {
        rpc_result(body)
    }

    /// The number the reply to a call carries as its result (a balance, a
    /// nonce, a fee), or `None` where it carries none.
    pub fn reply_quantity(&self, body: &[u8]) -> (r: Option<U256>)
        ensures
            match r {
                Some(v) => json_rpc_result(body@) matches Some(t) && json_quantity(t) == Some(v@),
                None => match json_rpc_result(body@) {
                    Some(t) => json_quantity(t) is None,
                    None => true,
                },
            },
    {
        match rpc_result(body) {
            Some(text) => parse_quantity(text.as_slice()),
            None => None,
        }
    }
}

} // verus!
