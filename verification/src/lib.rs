//! Block assembly, proof-of-work search and scheduling rules for a
//! testnet4 CPU miner.

pub mod script_num;
pub mod text;
pub mod hexcode;
pub mod rpc;
pub mod block_builder;
pub mod miner;
pub mod schedule;
