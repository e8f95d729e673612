//! A simpler, unbatched client: one JSON-RPC call per HTTP outcall, and a
//! transaction sender that fetches fees and nonce on its own.
pub mod provider;
