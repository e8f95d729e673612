//! Fee bookkeeping for EIP-1559 transactions: the last observed base and
//! priority fees, and the fees a new transaction offers.
use vstd::prelude::*;
use crate::u256::{pow256, U256};

verus! {

/// The base and priority fees last reported by a chain.
#[derive(Clone, Copy, Debug)]
pub struct CurrentGasConfig {
    pub base_fees: U256,
    pub priority_fees: U256,
}

/// The fee caps a transaction offers.
#[derive(Clone, Copy, Debug)]
pub struct TransactionGasConfig {
    pub max_fees: U256,
    pub max_priority_fees: U256,
}

/// The base fee plus a 10% margin (rounded down), plus the priority fee.
pub open spec fn predicted_max_fee(base: nat, priority: nat) -> nat {
    (base * 11) / 10 + priority
}

/// Whether the fee prediction stays within 256 bits.
pub open spec fn prediction_fits(base: nat, priority: nat) -> bool {
    &&& base * 11 < pow256()
    &&& predicted_max_fee(base, priority) < pow256()
}

/// Remembers the current fees of one chain and predicts the caps of new
/// transactions from them.
#[derive(Clone, Copy, Debug)]
pub struct GasManager {
    current_base_fees: U256,
    current_priority_fees: U256,
}

impl View for GasManager {
    /// (base fee, priority fee)
    type V = (nat, nat);

    closed spec fn view(&self) -> (nat, nat) {
        (self.current_base_fees@, self.current_priority_fees@)
    }
}

impl GasManager {
    /// A manager that has seen no fees yet: both are zero.
    pub fn new() -> (r: GasManager)
        ensures
            r@ == (0nat, 0nat),
    {
        GasManager { current_base_fees: U256::zero(), current_priority_fees: U256::zero() }
    }

    /// Whether `predicted_fees` can be computed without overflow.
    pub fn can_predict(&self) -> (r: bool)
        ensures
            r == prediction_fits(self@.0, self@.1),
    {
        match self.current_base_fees.checked_mul_u64(11) {
            None => false,
            Some(b) => {
                let b = b.checked_div_u64(10).unwrap();
                b.checked_add(&self.current_priority_fees).is_some()
            },
        }
    }

    /// The fee caps for a new transaction: the priority fee as is, and as
    /// maximum fee the base fee plus 10% plus the priority fee.
    pub fn predicted_fees(&self) -> (r: TransactionGasConfig)
        requires
            prediction_fits(self@.0, self@.1),
        ensures
            r.max_fees@ == predicted_max_fee(self@.0, self@.1),
            r.max_priority_fees@ == self@.1,
    {
        let base_fees = self.current_base_fees.checked_mul_u64(11).unwrap();
        let base_fees = base_fees.checked_div_u64(10).unwrap();
        let priority_fees = self.current_priority_fees;
        let max_fees = base_fees.checked_add(&priority_fees).unwrap();
        TransactionGasConfig { max_fees: max_fees, max_priority_fees: priority_fees }
    }

    /// Records the fees a chain reported.
    pub fn current_fees(&mut self, current_fees: CurrentGasConfig)
        ensures
            final(self)@ == (current_fees.base_fees@, current_fees.priority_fees@),
    {
        self.current_base_fees = current_fees.base_fees;
        self.current_priority_fees = current_fees.priority_fees;
    }
}

/// The predicted maximum fee always covers the priority fee and the whole
/// base fee, so the caps form a valid EIP-1559 pair
/// (`max_fee_per_gas >= max_priority_fee_per_gas`).
pub proof fn lemma_max_fee_covers_base_and_priority(base: nat, priority: nat)
    ensures
        predicted_max_fee(base, priority) >= priority,
        predicted_max_fee(base, priority) >= base + priority,
{
    assert((base * 11) / 10 >= base) by (nonlinear_arith);
}


/// The priority fee is added once and only once: raising it raises the
/// predicted maximum fee by exactly as much, whatever the base fee.
pub proof fn lemma_max_fee_follows_priority(base: nat, p1: nat, p2: nat)
    ensures
        predicted_max_fee(base, p2) - predicted_max_fee(base, p1) == p2 - p1,
{
}

/// The predicted maximum fee is the priority fee plus the base fee plus a
/// tenth of the base fee, rounded down.
pub proof fn lemma_max_fee_margin(base: nat, priority: nat)
    ensures
        predicted_max_fee(base, priority) == base + base / 10 + priority,
        base + priority <= predicted_max_fee(base, priority),
{
    assert((base * 11) / 10 == base + base / 10) by {
        vstd::arithmetic::div_mod::lemma_fundamental_div_mod(base as int, 10);
        vstd::arithmetic::div_mod::lemma_fundamental_div_mod((base * 11) as int, 10);
    }
}

/// Any fees of real chains can be predicted: a base fee below 2^252 and a
/// priority fee below 2^255 always fit.
pub proof fn lemma_prediction_fits_real_fees(base: nat, priority: nat)
    requires
        base * 16 < pow256(),
        priority * 2 < pow256(),
    ensures
        prediction_fits(base, priority),
{
    lemma_max_fee_margin(base, priority);
}

} // verus!
