//! An EIP-1559 transaction that answers a task: built field by field, then
//! hashed for signing and encoded with its signature.
use vstd::prelude::*;
use crate::contracts::dvn::{DVN, FunctionExecConfig};
use crate::gas::{GasManager, predicted_max_fee, prediction_fits};
use crate::u256::U256;
use ethers_core::types::{Eip1559TransactionRequest, H160, Signature as EthSignature, U256 as EthU256};
use ethers_core::types::transaction::eip2718::TypedTransaction;

verus! {

/// An ECDSA signature with the EIP-155 recovery value.
#[derive(Clone, Copy, Debug)]
pub struct Signature {
    pub r: U256,
    pub s: U256,
    pub v: u64,
}

/// The fields of an EIP-1559 transaction request (its access list is
/// always empty).
pub struct Transaction {
    pub from: Option<[u8; 20]>,
    pub to: Option<[u8; 20]>,
    pub gas: Option<U256>,
    pub value: Option<U256>,
    pub data: Option<Vec<u8>>,
    pub nonce: Option<U256>,
    pub max_priority_fee_per_gas: Option<U256>,
    pub max_fee_per_gas: Option<U256>,
    pub chain_id: Option<u64>,
}

/// The fields that the signing hash and the encoding cover: chain id,
/// nonce, priority fee cap, fee cap, gas limit, recipient, value and data.
pub type TxFields = (
    Option<u64>,
    Option<nat>,
    Option<nat>,
    Option<nat>,
    Option<nat>,
    Option<Seq<u8>>,
    Option<nat>,
    Option<Seq<u8>>,
);

pub open spec fn opt_value(o: Option<U256>) -> Option<nat> {
    match o {
        Some(v) => Some(v@),
        None => None,
    }
}

impl Transaction {
    /// The fields the signing hash and the encoding cover.
    pub open spec fn fields(&self) -> TxFields {
        (
            self.chain_id,
            opt_value(self.nonce),
            opt_value(self.max_priority_fee_per_gas),
            opt_value(self.max_fee_per_gas),
            opt_value(self.gas),
            match self.to {
                Some(a) => Some(a@),
                None => None,
            },
            opt_value(self.value),
            match self.data {
                Some(d) => Some(d@),
                None => None,
            },
        )
    }
}

/// What `TypedTransaction::sighash` returns for an EIP-1559 request with
/// these fields: keccak-256 of its type byte and RLP encoding.
pub uninterp spec fn eip1559_sighash(fields: TxFields) -> Seq<u8>;

/// What `TypedTransaction::rlp_signed` returns for an EIP-1559 request with
/// these fields and the signature `(r, s, v)`.
pub uninterp spec fn eip1559_rlp_signed(fields: TxFields, r: nat, s: nat, v: nat) -> Seq<u8>;

/// `TypedTransaction::sighash` of the request, after moving the fields over
/// one for one. Claims that the hash is the named function of the fields
/// it covers (`from` is not among them).
#[verifier::external_body]
fn sighash(tx: &Transaction) -> (r: [u8; 32])
    ensures
        r@ == eip1559_sighash(tx.fields()),
{
    let u = |x: U256| EthU256(x.words());
    let req = Eip1559TransactionRequest { from: tx.from.map(H160), to: tx.to.map(|a| H160(a).into()), gas: tx.gas.map(u), value: tx.value.map(u), data: tx.data.clone().map(Into::into), nonce: tx.nonce.map(u), access_list: Default::default(), max_priority_fee_per_gas: tx.max_priority_fee_per_gas.map(u), max_fee_per_gas: tx.max_fee_per_gas.map(u), chain_id: tx.chain_id.map(Into::into) };
    TypedTransaction::Eip1559(req).sighash().0
}

/// Whether `rlp_signed` can write the `v` of a signature: it turns a `v`
/// above 1 back into a parity as `v - chain_id * 2 - 35`, with chain id 1
/// where none is set, so such a `v` must be at least `chain_id * 2 + 35`.
pub open spec fn v_encodable(v: u64, chain_id: Option<u64>) -> bool {
    let c: nat = match chain_id {
        Some(c) => c as nat,
        None => 1,
    };
    v <= 1 || v >= c * 2 + 35
}

/// `TypedTransaction::rlp_signed` of the request with a signature, after
/// moving the fields over one for one. Claims that the encoding is the named
/// function of the covered fields and the signature; `requires` leaves out
/// the `v` values on which ethers' `normalize_v` overflows.
#[verifier::external_body]
fn rlp_signed(tx: &Transaction, signature: &Signature) -> (r: Vec<u8>)
    requires
        v_encodable(signature.v, tx.chain_id),
    ensures
        r@ == eip1559_rlp_signed(tx.fields(), signature.r@, signature.s@, signature.v as nat),
{
    let u = |x: U256| EthU256(x.words());
    let req = Eip1559TransactionRequest { from: tx.from.map(H160), to: tx.to.map(|a| H160(a).into()), gas: tx.gas.map(u), value: tx.value.map(u), data: tx.data.clone().map(Into::into), nonce: tx.nonce.map(u), access_list: Default::default(), max_priority_fee_per_gas: tx.max_priority_fee_per_gas.map(u), max_fee_per_gas: tx.max_fee_per_gas.map(u), chain_id: tx.chain_id.map(Into::into) };
    let sig = EthSignature { r: u(signature.r), s: u(signature.s), v: signature.v };
    TypedTransaction::Eip1559(req).rlp_signed(&sig).to_vec()
}

impl Transaction {
    /// A request carrying the call data and gas limit of a call; every other
    /// field is unset.
    pub fn new(config: FunctionExecConfig) -> (r: Transaction)
        ensures
            r.data == Some(config.data),
            r.gas == Some(config.gas),
            r.from is None,
            r.to is None,
            r.value is None,
            r.nonce is None,
            r.max_priority_fee_per_gas is None,
            r.max_fee_per_gas is None,
            r.chain_id is None,
    {
        Transaction {
            from: None,
            to: None,
            gas: Some(config.gas),
            value: None,
            data: Some(config.data),
            nonce: None,
            max_priority_fee_per_gas: None,
            max_fee_per_gas: None,
            chain_id: None,
        }
    }

    /// Addresses the request to a contract on its chain.
    pub fn contract(&mut self, contract: &DVN)
        ensures
            final(self).chain_id == Some(contract.chain),
            final(self).to == Some(contract.address),
            final(self).from == old(self).from,
            final(self).gas == old(self).gas,
            final(self).value == old(self).value,
            final(self).data == old(self).data,
            final(self).nonce == old(self).nonce,
            final(self).max_priority_fee_per_gas == old(self).max_priority_fee_per_gas,
            final(self).max_fee_per_gas == old(self).max_fee_per_gas,
    {
        self.chain_id = Some(contract.chain);
        self.to = Some(contract.address);
    }

    /// Sets the fee caps that the gas manager predicts.
    pub fn gas(&mut self, gas_manager: &GasManager)
        requires
            prediction_fits(gas_manager@.0, gas_manager@.1),
        ensures
            final(self).max_fee_per_gas matches Some(f) && f@ == predicted_max_fee(
                gas_manager@.0,
                gas_manager@.1,
            ),
            final(self).max_priority_fee_per_gas matches Some(p) && p@ == gas_manager@.1,
            final(self).chain_id == old(self).chain_id,
            final(self).to == old(self).to,
            final(self).from == old(self).from,
            final(self).gas == old(self).gas,
            final(self).value == old(self).value,
            final(self).data == old(self).data,
            final(self).nonce == old(self).nonce,
    {
        let config = gas_manager.predicted_fees();
        self.max_fee_per_gas = Some(config.max_fees);
        self.max_priority_fee_per_gas = Some(config.max_priority_fees);
    }

    /// Sets the nonce.
    pub fn nonce(&mut self, nonce: &U256)
        ensures
            final(self).nonce == Some(*nonce),
            final(self).chain_id == old(self).chain_id,
            final(self).to == old(self).to,
            final(self).from == old(self).from,
            final(self).gas == old(self).gas,
            final(self).value == old(self).value,
            final(self).data == old(self).data,
            final(self).max_priority_fee_per_gas == old(self).max_priority_fee_per_gas,
            final(self).max_fee_per_gas == old(self).max_fee_per_gas,
    {
        self.nonce = Some(*nonce);
    }

    /// Sets the sender.
    pub fn signer(&mut self, address: [u8; 20])
        ensures
            final(self).from == Some(address),
            final(self).chain_id == old(self).chain_id,
            final(self).to == old(self).to,
            final(self).gas == old(self).gas,
            final(self).value == old(self).value,
            final(self).data == old(self).data,
            final(self).nonce == old(self).nonce,
            final(self).max_priority_fee_per_gas == old(self).max_priority_fee_per_gas,
            final(self).max_fee_per_gas == old(self).max_fee_per_gas,
    {
        self.from = Some(address);
    }

    /// The hash to sign.
    pub fn signing_hash(&self) -> (r: [u8; 32])
        ensures
            r@ == eip1559_sighash(self.fields()),
    {
        sighash(self)
    }

    /// Whether `encode_signed` can write a signature's `v` (see
    /// `v_encodable`).
    pub fn can_encode(&self, signature: &Signature) -> (r: bool)
        ensures
            r == v_encodable(signature.v, self.chain_id),
    {
        let c: u64 = match self.chain_id {
            Some(c) => c,
            None => 1,
        };
        if signature.v <= 1 {
            true
        } else if c > (u64::MAX - 35) / 2 {
            false
        } else {
            signature.v >= c * 2 + 35
        }
    }

    /// The raw signed transaction to send.
    pub fn encode_signed(&self, signature: &Signature) -> (r: Vec<u8>)
        requires
            v_encodable(signature.v, self.chain_id),
        ensures
            r@ == eip1559_rlp_signed(self.fields(), signature.r@, signature.s@, signature.v as nat),
    {
        rlp_signed(self, signature)
    }
}

} // verus!
