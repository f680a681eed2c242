//! A minimal proof-of-work ledger.
//!
//! A [`block::Block`] owns its fields and a hex-encoded SHA-256 digest of
//! them; a [`blockchain::Blockchain`] owns an ordered sequence of blocks,
//! appends new blocks after mining them against the current tip, and audits
//! the whole sequence for tamper evidence.

pub mod block;
pub mod blockchain;
pub mod hashing;
pub mod numfmt;
