//! An educational append-only ledger: an in-memory chain of blocks, each
//! holding a batch of signed value-transfer transactions, secured by
//! proof-of-work and by per-block Merkle commitments that let a caller prove
//! transaction inclusion without re-scanning a whole block.

pub mod encoding;
pub mod hashes;
pub mod merkle;
pub mod transaction;
pub mod blockchain;
pub mod utils;
pub mod account;
