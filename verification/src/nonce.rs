//! The next transaction nonce of the signer on one chain.
use vstd::prelude::*;
use crate::u256::{pow256, U256};

verus! {

/// Hands out consecutive nonces, starting from the last value it was given.
#[derive(Clone, Copy, Debug)]
pub struct NonceManager {
    nonce: U256,
}

impl View for NonceManager {
    /// The nonce the next call of `nonce` returns.
    type V = nat;

    closed spec fn view(&self) -> nat {
        self.nonce@
    }
}

/// The nonce handed out by the `i`-th call of `nonce` (counting from 0)
/// after the manager held `start`.
pub open spec fn issued_nonce(start: nat, i: nat) -> nat {
    start + i
}

impl NonceManager {
    /// Starts at nonce 0.
    pub fn new() -> (r: NonceManager)
        ensures
            r@ == 0,
    {
        NonceManager { nonce: U256::zero() }
    }

    /// Replaces the next nonce, such as with the account's transaction
    /// count reported by the chain.
    pub fn update(&mut self, nonce: U256)
        ensures
            final(self)@ == nonce@,
    {
        self.nonce = nonce;
    }

    /// Whether `nonce` can be called: the next nonce is below 2^256 - 1.
    pub fn can_issue(&self) -> (r: bool)
        ensures
            r == (self@ + 1 < pow256()),
    {
        self.nonce.checked_add(&U256::from_u64(1)).is_some()
    }

    /// The next nonce, without advancing.
    pub fn peek(&self) -> (r: U256)
        ensures
            r@ == self@,
    {
        self.nonce
    }

    /// Returns the next nonce and advances by one.
    pub fn nonce(&mut self) -> (r: U256)
        requires
            old(self)@ + 1 < pow256(),
        ensures
            r@ == old(self)@,
            final(self)@ == old(self)@ + 1,
    {
        let nonce = self.nonce;
        self.nonce = nonce.add_one();
        nonce
    }
}

/// Nonces handed out one after another from the same start are all
/// different, so no two transactions of a run share a nonce.
pub proof fn lemma_issued_nonces_distinct(start: nat, i: nat, j: nat)
    requires
        i != j,
    ensures
        issued_nonce(start, i) != issued_nonce(start, j),
{
}

} // verus!
