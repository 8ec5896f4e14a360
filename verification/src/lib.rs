//! Proof-of-work search: a mutation vector is appended to a fixed header
//! prefix and hashed; a candidate qualifies when its digest, read as a
//! big-endian 256-bit integer, does not exceed the target.

pub mod bigendian;
pub mod brute;
pub mod dispatch;
pub mod evaluator;
pub mod genetic;
pub mod gpu_miner;
pub mod hexcode;
pub mod mine_loop;
pub mod node_client;
pub mod random;
pub mod stats;
pub mod target;
