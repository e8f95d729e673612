//! A verification task read from a `TaskAssigned` event of the DVN contract,
//! and the bytes that identify it.
use vstd::prelude::*;
use vstd::string::is_ascii;
use crate::text::{
    append_ascii, append_bytes, append_decimal, append_u256_json, ascii_bytes, decimal,
    hex_numeral, hex_quantity, lemma_cancel_prefix, lemma_decimal_bytes, lemma_hex_numeral_bytes,
    lemma_split_numeral,
};
use crate::u256::U256;
use ethers_core::abi::Token;

verus! {

/// An ABI value of `ethers_core`; the library carries it without reading it.
#[verifier::external_type_specification]
#[verifier::external_body]
pub struct ExToken(ethers_core::abi::Token);


/// What `serde_json::to_vec` writes for an ABI value (the `Serialize` that
/// `ethabi` derives for `Token`).
pub uninterp spec fn token_json_bytes(token: Token) -> Seq<u8>;

/// The unsigned integer an ABI value holds, where it is a `Token::Uint`.
pub uninterp spec fn token_uint_value(token: Token) -> Option<nat>;

/// `serde_json::to_vec` of an ABI value.
///
/// Claims that the bytes are the named JSON text of the token (serialising
/// an `ethabi::Token` cannot fail).
#[verifier::external_body]
fn token_json(token: &Token) -> (r: Vec<u8>)
    ensures
        r@ == token_json_bytes(*token),
{
    serde_json::to_vec(token).unwrap()
}

/// The value of an unsigned-integer ABI token (`Token::Uint`), or `None`
/// for a token of another kind; the words are moved over as they are.
/// Claims that the result is the named value.
#[verifier::external_body]
pub(crate) fn token_uint(token: &Token) -> (r: Option<U256>)
    ensures
        match r {
            Some(v) => token_uint_value(*token) == Some(v@),
            None => token_uint_value(*token) is None,
        },
{
    match token {
        Token::Uint(v) => Some(U256 { w0: v.0[0], w1: v.0[1], w2: v.0[2], w3: v.0[3] }),
        _ => None,
    }
}

/// `Clone` of an ABI token (derived by `ethabi`): the copy equals the
/// original.
#[verifier::external_body]
pub(crate) fn token_clone(token: &Token) -> (r: Token)
    ensures
        r == *token,
{
    token.clone()
}

/// A job to verify a message on its destination chain.
pub struct Task {
    /// The chain (its id) where the job was assigned.
    pub src_chain: u64,
    /// The endpoint id of the destination chain.
    pub dest_chain: u64,
    /// The maximum unit gas price of the job.
    pub gas: U256,
    /// The job itself, as the contract's ABI decoded it.
    pub message: Token,
}

/// The JSON object that identifies a task: its fields in order, the gas as
/// a hex quantity and the message as its JSON text.
pub open spec fn task_json(src_chain: u64, dest_chain: u64, gas: nat, message_json: Seq<u8>) -> Seq<
    u8,
> {
    ascii_bytes("{\"src_chain\":"@) + decimal(src_chain as nat) + ascii_bytes(",\"dest_chain\":"@)
        + decimal(dest_chain as nat) + ascii_bytes(",\"gas\":\""@) + hex_quantity(gas)
        + ascii_bytes("\",\"message\":"@) + message_json + ascii_bytes("}"@)
}

impl Task {
    /// The bytes that identify the task: its fields, the message written as
    /// serde_json writes it.
    pub open spec fn key(&self) -> Seq<u8> {
        task_json(self.src_chain, self.dest_chain, self.gas@, token_json_bytes(self.message))
    }

    pub fn new(src_chain: u64, dest_chain: u64, gas: U256, message: Token) -> (r: Task)
        ensures
            r.src_chain == src_chain,
            r.dest_chain == dest_chain,
            r.gas == gas,
            r.message == message,
    {
        Task { src_chain, dest_chain, gas, message }
    }

    /// The identifying bytes of the task.
    pub fn key_bytes(&self) -> (r: Vec<u8>)
        ensures
            r@ == self.key(),
    {
        let mut out: Vec<u8> = Vec::new();
        proof {
            reveal_strlit("{\"src_chain\":");
            reveal_strlit(",\"dest_chain\":");
            reveal_strlit(",\"gas\":\"");
            reveal_strlit("\",\"message\":");
            reveal_strlit(",\"gas\":");
            reveal_strlit(",\"message\":");
            reveal_strlit("}");
        }
        let ghost start = out@;
        append_ascii(&mut out, "{\"src_chain\":");
        append_decimal(&mut out, self.src_chain as u128);
        append_ascii(&mut out, ",\"dest_chain\":");
        append_decimal(&mut out, self.dest_chain as u128);
        append_ascii(&mut out, ",\"gas\":");
        append_u256_json(&mut out, self.gas);
        append_ascii(&mut out, ",\"message\":");
        let message_json = token_json(&self.message);
        append_bytes(&mut out, message_json.as_slice());
        append_ascii(&mut out, "}");
        assert(out@ =~= self.key());
        out
    }
}


/// All bytes of a text are numeral digits.
spec fn all_numeral(x: Seq<u8>) -> bool {
    forall|i: int| 0 <= i < x.len() ==> crate::text::is_numeral_byte(#[trigger] x[i])
}

/// In `a + n1 + b + n2 + c + n3 + d + m + e`, with numerals `n1`, `n2`,
/// `n3` and separators that start with no numeral digit, the numerals and
/// `m` are determined by the whole text.
proof fn lemma_fields_unique(
    a: Seq<u8>, b: Seq<u8>, c: Seq<u8>, d: Seq<u8>, e: Seq<u8>,
    x1: Seq<u8>, y1: Seq<u8>, z1: Seq<u8>, m1: Seq<u8>,
    x2: Seq<u8>, y2: Seq<u8>, z2: Seq<u8>, m2: Seq<u8>,
)
    requires
        all_numeral(x1), all_numeral(y1), all_numeral(z1),
        all_numeral(x2), all_numeral(y2), all_numeral(z2),
        b.len() > 0 && !crate::text::is_numeral_byte(b[0]),
        c.len() > 0 && !crate::text::is_numeral_byte(c[0]),
        d.len() > 0 && !crate::text::is_numeral_byte(d[0]),
        a + (x1 + (b + (y1 + (c + (z1 + (d + (m1 + e))))))) == a + (x2 + (b + (y2 + (c + (z2 + (d + (m2 + e))))))),
    ensures
        x1 == x2, y1 == y2, z1 == z2, m1 == m2,
{
    lemma_cancel_prefix(a, x1 + (b + (y1 + (c + (z1 + (d + (m1 + e)))))), x2 + (b + (y2 + (c + (z2 + (d + (m2 + e)))))));
    let s1 = b + (y1 + (c + (z1 + (d + (m1 + e)))));
    let s2 = b + (y2 + (c + (z2 + (d + (m2 + e)))));
    assert(s1[0] == b[0] && s2[0] == b[0]);
    lemma_split_numeral(x1, s1, x2, s2);
    lemma_cancel_prefix(b, y1 + (c + (z1 + (d + (m1 + e)))), y2 + (c + (z2 + (d + (m2 + e)))));
    let v1 = c + (z1 + (d + (m1 + e)));
    let v2 = c + (z2 + (d + (m2 + e)));
    assert(v1[0] == c[0] && v2[0] == c[0]);
    lemma_split_numeral(y1, v1, y2, v2);
    lemma_cancel_prefix(c, z1 + (d + (m1 + e)), z2 + (d + (m2 + e)));
    let w1 = d + (m1 + e);
    let w2 = d + (m2 + e);
    assert(w1[0] == d[0] && w2[0] == d[0]);
    lemma_split_numeral(z1, w1, z2, w2);
    lemma_cancel_prefix(d, m1 + e, m2 + e);
    assert(m1 =~= (m1 + e).take(m1.len() as int));
    assert(m2 =~= (m2 + e).take(m2.len() as int));
}

/// Tasks are counted apart unless they agree: two tasks have the same key
/// exactly when their source chain, destination, gas price and message JSON
/// are the same.
pub proof fn lemma_key_identifies_task(t1: Task, t2: Task)
    ensures
        t1.key() == t2.key() <==> (t1.src_chain == t2.src_chain && t1.dest_chain == t2.dest_chain
            && t1.gas@ == t2.gas@ && token_json_bytes(t1.message) == token_json_bytes(t2.message)),
{
    reveal_strlit("{\"src_chain\":");
    reveal_strlit(",\"dest_chain\":");
    reveal_strlit(",\"gas\":\"");
    reveal_strlit("\",\"message\":");
    reveal_strlit("}");
    let a = ascii_bytes("{\"src_chain\":"@);
    let b = ascii_bytes(",\"dest_chain\":"@);
    let c = ascii_bytes(",\"gas\":\""@) + seq![48u8, 120u8];
    let d = ascii_bytes("\",\"message\":"@);
    let e = ascii_bytes("}"@);
    let x1 = decimal(t1.src_chain as nat);
    let x2 = decimal(t2.src_chain as nat);
    let y1 = decimal(t1.dest_chain as nat);
    let y2 = decimal(t2.dest_chain as nat);
    let z1 = hex_numeral(t1.gas@);
    let z2 = hex_numeral(t2.gas@);
    let m1 = token_json_bytes(t1.message);
    let m2 = token_json_bytes(t2.message);
    assert(t1.key() =~= a + (x1 + (b + (y1 + (c + (z1 + (d + (m1 + e))))))));
    assert(t2.key() =~= a + (x2 + (b + (y2 + (c + (z2 + (d + (m2 + e))))))));
    if t1.key() == t2.key() {
        lemma_decimal_bytes(t1.src_chain as nat);
        lemma_decimal_bytes(t2.src_chain as nat);
        lemma_decimal_bytes(t1.dest_chain as nat);
        lemma_decimal_bytes(t2.dest_chain as nat);
        lemma_hex_numeral_bytes(t1.gas@);
        lemma_hex_numeral_bytes(t2.gas@);
        assert(b[0] == 44 && c[0] == 44 && d[0] == 34);
        lemma_fields_unique(a, b, c, d, e, x1, y1, z1, m1, x2, y2, z2, m2);
        crate::text::lemma_decimal_injective(t1.src_chain as nat, t2.src_chain as nat);
        crate::text::lemma_decimal_injective(t1.dest_chain as nat, t2.dest_chain as nat);
        crate::text::lemma_hex_numeral_injective(t1.gas@, t2.gas@);
    }
}

} // verus!
