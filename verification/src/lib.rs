//! Verified core of an indexer of native-currency transfers between
//! externally-owned accounts on an Ethereum-compatible chain.

pub mod block;
pub mod db;
pub mod error;
pub mod hex;
pub mod indexer;
pub mod json;
pub mod rpc;
pub mod run;
pub mod transfer;
