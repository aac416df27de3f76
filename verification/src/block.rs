use vstd::prelude::*;

use crate::digits::{dec_of, u64_to_decimal};
use crate::hashing::{bytes_to_hex, hex_of, is_hex_char, sha256_digest, sha256_of};
use vstd::string::StrSliceExecFns;
use vstd::utf8::encode_utf8;

verus! {

/// The bytes a block's content hash is computed over: the decimal digits of
/// the index, the decimal digits of the timestamp, the payload bytes and the
/// previous-hash bytes, concatenated in that order with no separators.
pub open spec fn hash_input(
    index: u64,
    timestamp: u64,
    data: Seq<char>,
    previous_hash: Seq<char>,
) -> Seq<u8> {
    dec_of(index as nat) + dec_of(timestamp as nat) + encode_utf8(data) + encode_utf8(
        previous_hash,
    )
}

/// A block's content hash: the lowercase hexadecimal form of the SHA-256
/// digest of its hash input.
pub open spec fn block_hash(
    index: u64,
    timestamp: u64,
    data: Seq<char>,
    previous_hash: Seq<char>,
) -> Seq<char> {
    hex_of(sha256_of(hash_input(index, timestamp, data, previous_hash)))
}

/// One record of the ledger: a position, a creation time, a payload, the
/// predecessor's content hash and this block's own content hash.
#[derive(Debug)]
pub struct Block {
    pub index: u64,
    pub timestamp: u64,
    pub data: String,
    pub previous_hash: String,
    pub hash: String,
}

/// Whether the stored content hash of `b` is the hash of its other fields.
pub open spec fn well_hashed(b: Block) -> bool {
    b.hash@ == block_hash(b.index, b.timestamp, b.data@, b.previous_hash@)
}

/// Relies on std::time::SystemTime::now and duration_since: whole seconds
/// since the Unix epoch, or 0 if the clock reads earlier than the epoch.
/// The result depends on the wall clock, so nothing is promised of its value.
#[verifier::external_body]
pub(crate) fn now_seconds() -> u64 {
    match std::time::SystemTime::now().duration_since(std::time::UNIX_EPOCH) {
        Ok(d) => d.as_secs(),
        Err(_) => 0,
    }
}

impl Block {
    /// Computes the content hash over the given fields: 64 lowercase
    /// hexadecimal digits, a function of the four fields alone.
    pub fn calculate_hash(index: u64, timestamp: u64, data: &str, previous_hash: &str) -> (r:
        String)
        ensures
            r@ == block_hash(index, timestamp, data@, previous_hash@),
            r@.len() == 64,
            forall|k: int| 0 <= k < r@.len() ==> is_hex_char(#[trigger] r@[k]),
    {
        let mut input = u64_to_decimal(index);
        let mut t = u64_to_decimal(timestamp);
        input.append(&mut t);
        let mut db = data.as_bytes_vec();
        input.append(&mut db);
        let mut pb = previous_hash.as_bytes_vec();
        input.append(&mut pb);
        assert(input@ =~= hash_input(index, timestamp, data@, previous_hash@));
        let digest = sha256_digest(&input);
        bytes_to_hex(&digest)
    }

    /// Builds a block at the given position with the given payload and
    /// predecessor hash, stamped with the current wall-clock time and carrying
    /// the content hash of its fields.
    pub fn new(index: u64, data: String, previous_hash: String) -> (r: Block)
        ensures
            r.index == index,
            r.data@ == data@,
            r.previous_hash@ == previous_hash@,
            well_hashed(r),
            r.hash@.len() == 64,
    {
        let timestamp = now_seconds();
        let hash = Block::calculate_hash(index, timestamp, data.as_str(), previous_hash.as_str());
        Block { index, timestamp, data, previous_hash, hash }
    }

    /// The block's stored content hash.
    pub fn hash(&self) -> (r: &String)
        ensures
            r@ == self.hash@,
    {
        &self.hash
    }
}

impl Clone for Block {
    /// A clone carries exactly the same five fields.
    fn clone(&self) -> (r: Self)
        ensures
            r == *self,
    {
        Block {
            index: self.index,
            timestamp: self.timestamp,
            data: self.data.clone(),
            previous_hash: self.previous_hash.clone(),
            hash: self.hash.clone(),
        }
    }
}

} // verus!
