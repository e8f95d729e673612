//! The verified core of a LayerZero DVN (decentralized verifier network)
//! worker: task consensus, fee and nonce bookkeeping, JSON-RPC batching and
//! the per-chain task pipeline.
pub mod u256;
pub mod gas;
pub mod nonce;
pub mod text;
pub mod task;
pub mod consensus;
pub mod provider;
pub mod sort;
pub mod hex;
pub mod contracts;
pub mod transaction;
pub mod signer;
pub mod chain;
pub mod state;
pub mod ether_utils;
