//! A small proof-of-work ledger: value transfers are batched into blocks that
//! are linked by their SHA-256 digests, mined by a nonce search, and checked
//! for tampering.

pub mod block;
mod clock;
pub mod decimal;
pub mod hashing;
pub mod ledger;
pub mod transfer;
