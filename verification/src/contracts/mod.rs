//! The DVN contract: its ABI helpers and the jobs it assigns.
pub mod base;
pub mod dvn;
