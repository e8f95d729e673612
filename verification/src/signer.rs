//! The canister's threshold-ECDSA signer: its key, its Ethereum address,
//! and the assembly of a transaction signature from the raw signature the
//! management canister returns.
use vstd::prelude::*;
use crate::transaction::{Signature, Transaction, eip1559_sighash};
use crate::u256::{U256, be_value};
use ethers_core::k256::ecdsa::{RecoveryId, Signature as EcdsaSignature, VerifyingKey};

verus! {

/// The address `ethers_core::utils::public_key_to_address` derives from a
/// SEC1-encoded secp256k1 public key, or `None` where
/// `VerifyingKey::from_sec1_bytes` rejects the key.
pub uninterp spec fn sec1_public_key_address(public_key: Seq<u8>) -> Option<Seq<u8>>;

/// The recovery id that `RecoveryId::trial_recovery_from_prehash` finds for
/// a public key (SEC1), a prehash and a raw 64-byte signature, or `None`
/// where the key or the signature does not parse or no id recovers the key.
pub uninterp spec fn ecdsa_recovery_id(public_key: Seq<u8>, prehash: Seq<u8>, signature: Seq<u8>) -> Option<u8>;

/// The address (`public_key_to_address`) of the key that
/// `VerifyingKey::recover_from_prehash` recovers from a prehash, a raw
/// 64-byte signature (`Signature::from_slice`) and a recovery id, or `None`
/// where the signature does not parse, the id is above 3 or no key is
/// recovered.
pub uninterp spec fn ecdsa_recovered_address(prehash: Seq<u8>, signature: Seq<u8>, recovery_id: u8) -> Option<
    Seq<u8>,
>;

/// `public_key_to_address` of the key parsed by
/// `VerifyingKey::from_sec1_bytes`. Claims the result is the named address
/// (20 bytes), `None` exactly where the key does not parse.
#[verifier::external_body]
fn public_key_address(public_key: &[u8]) -> (r: Option<[u8; 20]>)
    ensures
        match r {
            Some(a) => sec1_public_key_address(public_key@) == Some(a@),
            None => sec1_public_key_address(public_key@) is None,
        },
{
    let key = VerifyingKey::from_sec1_bytes(public_key).ok()?;
    Some(ethers_core::utils::public_key_to_address(&key).0)
}

/// `VerifyingKey::recover_from_prehash` with the signature parsed by
/// `Signature::from_slice` and the id by `RecoveryId::from_byte`, then
/// `public_key_to_address` of the key recovered. Claims the result is the
/// named address.
#[verifier::external_body]
fn recover_address(prehash: &[u8], signature: &[u8], recovery_id: u8) -> (r: Option<[u8; 20]>)
    ensures
        match r {
            Some(a) => ecdsa_recovered_address(prehash@, signature@, recovery_id) == Some(a@),
            None => ecdsa_recovered_address(prehash@, signature@, recovery_id) is None,
        },
{
    let sig = EcdsaSignature::from_slice(signature).ok()?;
    let id = RecoveryId::from_byte(recovery_id)?;
    let key = VerifyingKey::recover_from_prehash(prehash, &sig, id).ok()?;
    Some(ethers_core::utils::public_key_to_address(&key).0)
}

/// `RecoveryId::trial_recovery_from_prehash`, with the key parsed by
/// `VerifyingKey::from_sec1_bytes` and the signature by
/// `Signature::from_slice`. Claims the result is the named id, which is at
/// most 3 (`RecoveryId::MAX`), that a signature that parses has 64 bytes
/// (`from_slice` rejects any other length), and that the key recovered with
/// the id found is the given key (trial recovery returns the first id whose
/// recovered key equals it), so both have the same address.
#[verifier::external_body]
fn trial_recovery(public_key: &[u8], prehash: &[u8], signature: &[u8]) -> (r: Option<u8>)
    ensures
        r == ecdsa_recovery_id(public_key@, prehash@, signature@),
        r matches Some(id) ==> id <= 3 && signature@.len() == 64,
        r matches Some(id) ==> ecdsa_recovered_address(prehash@, signature@, id) == sec1_public_key_address(
            public_key@,
        ),
{
    let key = VerifyingKey::from_sec1_bytes(public_key).ok()?;
    let sig = EcdsaSignature::from_slice(signature).ok()?;
    Some(RecoveryId::trial_recovery_from_prehash(&key, prehash, &sig).ok()?.to_byte())
}

/// The `v` value of an EIP-155 signature, as `ethers_signers::to_eip155_v`
/// computes it.
pub open spec fn eip155_v(recovery_id: u8, chain_id: u64) -> nat {
    recovery_id as nat + 35 + chain_id as nat * 2
}

/// A secp256k1 key of the management canister, named, with the public key
/// once it has been fetched.
pub struct Signer {
    pub public_key: Option<Vec<u8>>,
    pub derivation_path: Vec<Vec<u8>>,
    pub key_name: String,
}

impl Signer {
    /// A signer for the named key; its public key is not fetched yet.
    pub fn new(name: String) -> (r: Signer)
        ensures
            r.public_key is None,
            r.derivation_path@.len() == 0,
            r.key_name@ == name@,
    {
        Signer { public_key: None, derivation_path: Vec::new(), key_name: name }
    }

    /// Records the public key the management canister returned.
    pub fn init(&mut self, public_key: Vec<u8>)
        ensures
            final(self).public_key == Some(public_key),
            final(self).derivation_path == old(self).derivation_path,
            final(self).key_name == old(self).key_name,
    {
        self.public_key = Some(public_key);
    }

    /// Whether the public key is known and parses.
    pub open spec fn has_address(&self) -> bool {
        self.public_key matches Some(k) && sec1_public_key_address(k@) is Some
    }

    /// The Ethereum address of the key.
    pub fn address(&self) -> (r: [u8; 20])
        requires
            self.has_address(),
        ensures
            Some(r@) == sec1_public_key_address(self.public_key.unwrap()@),
    {
        match &self.public_key {
            Some(k) => match public_key_address(k.as_slice()) {
                Some(a) => a,
                None => vstd::pervasive::unreached(),
            },
            None => vstd::pervasive::unreached(),
        }
    }

    /// The Ethereum address of the key, or `None` where the public key is
    /// not known or does not parse.
    pub fn try_address(&self) -> (r: Option<[u8; 20]>)
        ensures
            match r {
                Some(a) => self.has_address() && Some(a@) == sec1_public_key_address(
                    self.public_key.unwrap()@,
                ),
                None => !self.has_address(),
            },
    {
        match &self.public_key {
            Some(k) => public_key_address(k.as_slice()),
            None => None,
        }
    }

    /// The address of the key recovered from a raw signature of a
    /// transaction's signing hash with a recovery id, or `None` where no key
    /// is recovered.
    pub fn recover_signer(tx: &Transaction, raw_signature: &[u8], recovery_id: u8) -> (r: Option<[u8; 20]>)
        ensures
            match r {
                Some(a) => ecdsa_recovered_address(eip1559_sighash(tx.fields()), raw_signature@, recovery_id)
                    == Some(a@),
                None => ecdsa_recovered_address(eip1559_sighash(tx.fields()), raw_signature@, recovery_id) is None,
            },
    {
        let hash = tx.signing_hash();
        recover_address(hash.as_slice(), raw_signature, recovery_id)
    }

    /// Whether a raw signature of a transaction can be completed: the
    /// public key is known, a recovery id is found, and the chain id is set
    /// and small enough for the EIP-155 value to fit in 64 bits.
    pub open spec fn can_complete(&self, tx: Transaction, raw_signature: Seq<u8>) -> bool {
        &&& self.public_key is Some
        &&& ecdsa_recovery_id(
            self.public_key.unwrap()@,
            eip1559_sighash(tx.fields()),
            raw_signature,
        ) matches Some(id)
        &&& tx.chain_id matches Some(c)
        &&& eip155_v(id, c) <= u64::MAX
    }

    /// The signature of a transaction from the raw 64-byte signature of its
    /// hash: `r` and `s` are its two halves read big-endian, `v` the
    /// EIP-155 value of the recovery id that recovers the signer's key.
    pub fn complete_signature(&self, tx: &Transaction, raw_signature: &[u8]) -> (r: Signature)
        requires
            self.can_complete(*tx, raw_signature@),
        ensures
            ecdsa_recovered_address(
                eip1559_sighash(tx.fields()),
                raw_signature@,
                ecdsa_recovery_id(self.public_key.unwrap()@, eip1559_sighash(tx.fields()), raw_signature@).unwrap(),
            ) == sec1_public_key_address(self.public_key.unwrap()@),
            r.r@ == be_value(raw_signature@.subrange(0, 32)),
            r.s@ == be_value(raw_signature@.subrange(32, 64)),
            r.v == eip155_v(
                ecdsa_recovery_id(self.public_key.unwrap()@, eip1559_sighash(tx.fields()), raw_signature@).unwrap(),
                tx.chain_id.unwrap(),
            ),
    {
        let hash = tx.signing_hash();
        let key = match &self.public_key {
            Some(k) => k,
            None => vstd::pervasive::unreached(),
        };
        let recovery_id = match trial_recovery(key.as_slice(), hash.as_slice(), raw_signature) {
            Some(id) => id,
            None => vstd::pervasive::unreached(),
        };
        let chain_id = match tx.chain_id {
            Some(c) => c,
            None => vstd::pervasive::unreached(),
        };
        let (r_bytes, s_bytes) = raw_signature.split_at(32);
        let r = U256::from_be_bytes32(r_bytes);
        let s = U256::from_be_bytes32(s_bytes);
        let v = recovery_id as u64 + 35 + chain_id * 2;
        Signature { r, s, v }
    }

    /// The signature of a transaction, or `None` where it cannot be
    /// completed (see `can_complete`).
    pub fn try_complete_signature(&self, tx: &Transaction, raw_signature: &[u8]) -> (r: Option<Signature>)
        ensures
            r is Some <==> self.can_complete(*tx, raw_signature@),
            r matches Some(sig) ==> sig.v == eip155_v(
                ecdsa_recovery_id(self.public_key.unwrap()@, eip1559_sighash(tx.fields()), raw_signature@).unwrap(),
                tx.chain_id.unwrap(),
            ) && sig.r@ == be_value(raw_signature@.subrange(0, 32)) && sig.s@ == be_value(
                raw_signature@.subrange(32, 64),
            ),
    {
        let key = match &self.public_key {
            Some(k) => k,
            None => {
                return None;
            },
        };
        let chain_id = match tx.chain_id {
            Some(c) => c,
            None => {
                return None;
            },
        };
        let hash = tx.signing_hash();
        match trial_recovery(key.as_slice(), hash.as_slice(), raw_signature) {
            Some(id) => {
                if chain_id > (u64::MAX - 35 - id as u64) / 2 {
                    None
                } else {
                    Some(self.complete_signature(tx, raw_signature))
                }
            },
            None => None,
        }
    }
}


/// A signature always completes once the key is known, trial recovery finds
/// an id and the EIP-155 value `id + 35 + 2 * chain_id` fits in 64 bits,
/// for every such chain id.
pub proof fn lemma_signature_completes(signer: Signer, tx: Transaction, raw_signature: Seq<u8>, id: u8, chain_id: u64)
    requires
        signer.public_key is Some,
        ecdsa_recovery_id(signer.public_key.unwrap()@, eip1559_sighash(tx.fields()), raw_signature) == Some(id),
        tx.chain_id == Some(chain_id),
        id + 35 + 2 * chain_id <= u64::MAX,
    ensures
        signer.can_complete(tx, raw_signature),
{
}

/// The EIP-155 value gives back the recovery id and the chain: subtracting
/// `2 * chain_id + 35` (as `normalize_v` does) leaves the id, and the value
/// is at least `2 * chain_id + 35`.
pub proof fn lemma_eip155_v_parts(id: u8, chain_id: u64)
    ensures
        eip155_v(id, chain_id) - 2 * chain_id - 35 == id,
        eip155_v(id, chain_id) >= 2 * chain_id + 35,
        eip155_v(id, chain_id) <= u64::MAX ==> crate::transaction::v_encodable(
            eip155_v(id, chain_id) as u64,
            Some(chain_id),
        ),
{
}

} // verus!
