//! A minimal append-only hash-linked ledger.
//!
//! A [`Block`] is bound to its predecessor by a SHA-256 digest over its own
//! fields and the predecessor's hash; a [`BlockChain`] accepts only valid
//! successors and adopts a competing chain only when it is valid and
//! strictly longer.

pub mod block;
pub mod block_chain;
pub mod digest;

pub use block::Block;
pub use block_chain::BlockChain;
