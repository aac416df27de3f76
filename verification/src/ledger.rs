use vstd::prelude::*;

use crate::block::{well_hashed, Block};

verus! {

/// The predecessor reference a genesis block carries in place of a real hash.
pub open spec fn genesis_sentinel() -> Seq<char> {
    seq!['0']
}

/// Why a ledger fails: `append` before any genesis block exists, a stored
/// content hash that disagrees with the recomputed one, a predecessor link
/// that does not match the predecessor's hash, or a first block whose
/// predecessor reference is not the sentinel.
#[derive(Clone, Copy, Debug, PartialEq, Eq, Structural)]
pub enum IntegrityError {
    EmptyLedger,
    HashMismatch(usize),
    BrokenLink(usize),
    InvalidGenesis,
}

/// Whether the stored hash of block `i` equals the hash of its own fields.
pub open spec fn hash_ok(s: Seq<Block>, i: int) -> bool {
    well_hashed(s[i])
}

/// Whether block `i` points at its predecessor correctly: the sentinel for
/// the first block, the predecessor's stored hash for every other.
pub open spec fn link_ok(s: Seq<Block>, i: int) -> bool {
    if i == 0 {
        s[0].previous_hash@ == genesis_sentinel()
    } else {
        s[i].previous_hash@ == s[i - 1].hash@
    }
}

/// Whether block `i` passes both integrity checks.
pub open spec fn block_ok(s: Seq<Block>, i: int) -> bool {
    hash_ok(s, i) && link_ok(s, i)
}

/// Whether every block of the ledger passes both integrity checks.
pub open spec fn chain_valid(s: Seq<Block>) -> bool {
    forall|i: int| 0 <= i < s.len() ==> block_ok(s, i)
}

/// Whether every block's stored index equals its position.
pub open spec fn indexed_in_order(s: Seq<Block>) -> bool {
    forall|i: int| 0 <= i < s.len() ==> (#[trigger] s[i].index) as int == i
}

/// The error a full scan reports for a failing block `i`: a hash mismatch
/// before a link fault, and the genesis fault in place of a broken link at
/// position 0.
pub open spec fn violation_error(s: Seq<Block>, i: int) -> IntegrityError {
    if !hash_ok(s, i) {
        IntegrityError::HashMismatch(i as usize)
    } else if i == 0 {
        IntegrityError::InvalidGenesis
    } else {
        IntegrityError::BrokenLink(i as usize)
    }
}

/// Whether `i` is the first position whose block fails an integrity check.
pub open spec fn first_violation_at(s: Seq<Block>, i: int) -> bool {
    &&& 0 <= i < s.len()
    &&& !block_ok(s, i)
    &&& forall|j: int| 0 <= j < i ==> block_ok(s, j)
}

/// An append-only sequence of blocks, each linked to its predecessor by that
/// predecessor's content hash.
#[derive(Debug)]
pub struct BlockLedger {
    pub blocks: Vec<Block>,
}

impl BlockLedger {
    /// An empty ledger, holding no block at all.
    pub fn new() -> (r: BlockLedger)
        ensures
            r.blocks@.len() == 0,
    {
        BlockLedger { blocks: Vec::new() }
    }

    /// Installs the first block: position 0, the sentinel as predecessor
    /// reference, the given payload, the current wall-clock time, and the
    /// content hash of those fields. The one-block ledger it leaves behind is
    /// a valid chain.
    pub fn create_genesis(&mut self, data: String) -> (r: Block)
        requires
            old(self).blocks@.len() == 0,
        ensures
            final(self).blocks@.len() == 1,
            r == final(self).blocks@[0],
            r.index == 0,
            r.data@ == data@,
            r.previous_hash@ == genesis_sentinel(),
            well_hashed(r),
            chain_valid(final(self).blocks@),
            indexed_in_order(final(self).blocks@),
    {
        let previous_hash = "0".to_owned();
        proof {
            reveal_strlit("0");
            assert(previous_hash@ =~= genesis_sentinel());
        }
        let b = Block::new(0, data, previous_hash);
        let ret = b.clone();
        self.blocks.push(b);
        proof {
            let s = self.blocks@;
            assert(s[0] == ret);
            assert forall|i: int| 0 <= i < s.len() implies block_ok(s, i) by {
                assert(i == 0);
            }
        }
        ret
    }

    /// Appends a block holding the given payload: its position and index are
    /// one past the tail's, its predecessor reference is exactly the tail's
    /// stored hash, and its own hash is computed over its fields. On an empty
    /// ledger nothing changes and `EmptyLedger` comes back. An append keeps a
    /// valid chain valid and keeps positions and indices aligned.
    pub fn append(&mut self, data: String) -> (r: Result<Block, IntegrityError>)
        requires
            old(self).blocks@.len() > 0 ==> old(self).blocks@.last().index < u64::MAX,
        ensures
            old(self).blocks@.len() == 0 ==> *final(self) == *old(self) && r == Err::<
                Block,
                IntegrityError,
            >(IntegrityError::EmptyLedger),
            old(self).blocks@.len() > 0 ==> ({
                let s0 = old(self).blocks@;
                let s1 = final(self).blocks@;
                let b = s1.last();
                &&& s1 == s0.push(b)
                &&& r == Ok::<Block, IntegrityError>(b)
                &&& b.index == s0.last().index + 1
                &&& b.data@ == data@
                &&& b.previous_hash@ == s0.last().hash@
                &&& well_hashed(b)
                &&& (chain_valid(s0) ==> chain_valid(s1))
                &&& (indexed_in_order(s0) ==> indexed_in_order(s1))
            }),
    {
        let n = self.blocks.len();
        if n == 0 {
            return Err(IntegrityError::EmptyLedger);
        }
        let last = &self.blocks[n - 1];
        let index = last.index + 1;
        let previous_hash = last.hash.clone();
        let timestamp = crate::block::now_seconds();
        let hash = Block::calculate_hash(index, timestamp, data.as_str(), previous_hash.as_str());
        let b = Block { index, timestamp, data, previous_hash, hash };
        let ret = b.clone();
        self.blocks.push(b);
        proof {
            let s0 = old(self).blocks@;
            let s1 = self.blocks@;
            assert(s1 == s0.push(s1.last()));
            assert(s1.last() == ret);
            if chain_valid(s0) {
                assert forall|i: int| 0 <= i < s1.len() implies block_ok(s1, i) by {
                    if i < s0.len() {
                        assert(block_ok(s0, i));
                        assert(s1[i] == s0[i]);
                        if i > 0 {
                            assert(s1[i - 1] == s0[i - 1]);
                        }
                    } else {
                        assert(s1[i - 1] == s0.last());
                    }
                }
            }
            if indexed_in_order(s0) {
                assert(s0.last() == s0[s0.len() - 1]);
                assert forall|i: int| 0 <= i < s1.len() implies (#[trigger] s1[i].index) as int
                    == i by {
                    if i < s0.len() {
                        assert(s1[i] == s0[i]);
                    }
                }
            }
        }
        Ok(ret)
    }

    /// Walks the ledger from position 0 and reports the first violation:
    /// `HashMismatch(i)` where the stored hash is not the hash of block `i`'s
    /// fields, otherwise `InvalidGenesis` where the first block's predecessor
    /// reference is not the sentinel, otherwise `BrokenLink(i)` where a later
    /// block does not point at its predecessor's hash. It succeeds exactly on
    /// a valid chain.
    pub fn verify(&self) -> (r: Result<(), IntegrityError>)
        ensures
            r == Ok::<(), IntegrityError>(()) <==> chain_valid(self.blocks@),
            r matches Err(e) ==> exists|i: int|
                #[trigger] first_violation_at(self.blocks@, i) && e == violation_error(
                    self.blocks@,
                    i,
                ),
    {
        let ghost s = self.blocks@;
        let n = self.blocks.len();
        let mut i: usize = 0;
        while i < n
            invariant
                i <= n,
                n == s.len(),
                s == self.blocks@,
                forall|j: int| 0 <= j < i ==> block_ok(s, j),
            decreases n - i,
        {
            let b = &self.blocks[i];
            let computed = Block::calculate_hash(
                b.index,
                b.timestamp,
                b.data.as_str(),
                b.previous_hash.as_str(),
            );
            if !(computed == b.hash) {
                proof {
                    assert(!hash_ok(s, i as int));
                    assert(first_violation_at(s, i as int));
                }
                return Err(IntegrityError::HashMismatch(i));
            }
            if i == 0 {
                let sentinel = "0".to_owned();
                proof {
                    reveal_strlit("0");
                    assert(sentinel@ =~= genesis_sentinel());
                }
                if !(b.previous_hash == sentinel) {
                    proof {
                        assert(!link_ok(s, 0));
                        assert(first_violation_at(s, 0));
                    }
                    return Err(IntegrityError::InvalidGenesis);
                }
            } else {
                if !(self.blocks[i - 1].hash == b.previous_hash) {
                    proof {
                        assert(!link_ok(s, i as int));
                        assert(first_violation_at(s, i as int));
                    }
                    return Err(IntegrityError::BrokenLink(i));
                }
            }
            i = i + 1;
        }
        Ok(())
    }
}

/// A single well-hashed block whose predecessor reference is the sentinel
/// forms a valid chain on its own.
pub proof fn lemma_genesis_chain_valid(b: Block)
    requires
        well_hashed(b),
        b.previous_hash@ == genesis_sentinel(),
    ensures
        chain_valid(seq![b]),
{
    assert forall|i: int| 0 <= i < seq![b].len() implies block_ok(seq![b], i) by {
        assert(seq![b][0] == b);
    }
}

/// No two positions can both be the first violation of one ledger.
pub proof fn lemma_first_violation_unique(s: Seq<Block>, i: int, j: int)
    requires
        first_violation_at(s, i),
        first_violation_at(s, j),
    ensures
        i == j,
{
    if i < j {
        assert(block_ok(s, i));
    }
    if j < i {
        assert(block_ok(s, j));
    }
}

/// Where the earlier blocks pass and block `i`'s stored hash is not the hash
/// of its fields, the full scan's first violation is at `i` and its report is
/// `HashMismatch(i)`; the chain is invalid.
pub proof fn lemma_hash_mismatch_first(s: Seq<Block>, i: int)
    requires
        0 <= i < s.len(),
        forall|j: int| 0 <= j < i ==> block_ok(s, j),
        !hash_ok(s, i),
    ensures
        !chain_valid(s),
        first_violation_at(s, i),
        violation_error(s, i) == IntegrityError::HashMismatch(i as usize),
{
    assert(!block_ok(s, i));
    assert(chain_valid(s) ==> block_ok(s, i));
}

/// Where the earlier blocks pass, block `i`'s stored hash is right, but its
/// predecessor reference is anything other than the predecessor's hash, the
/// full scan's first violation is at `i` and its report is `BrokenLink(i)`;
/// the chain is invalid.
pub proof fn lemma_broken_link_first(s: Seq<Block>, i: int)
    requires
        0 < i < s.len(),
        forall|j: int| 0 <= j < i ==> block_ok(s, j),
        hash_ok(s, i),
        s[i].previous_hash@ != s[i - 1].hash@,
    ensures
        !chain_valid(s),
        first_violation_at(s, i),
        violation_error(s, i) == IntegrityError::BrokenLink(i as usize),
{
    assert(!link_ok(s, i));
    assert(chain_valid(s) ==> block_ok(s, i));
}

} // verus!
