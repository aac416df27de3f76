//! An append-only block ledger.
//!
//! Each block commits to its index, timestamp, payload and predecessor
//! reference with a SHA-256 content hash, and a full scan checks that every
//! stored hash and every predecessor link is intact.

pub mod block;
pub mod digits;
pub mod hashing;
pub mod ledger;
