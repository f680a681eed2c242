//! The ordered ledger: appends blocks after mining them against the current
//! tip, and audits the whole sequence for tamper evidence.

use crate::block::{block_hash, hash_input, header_bytes, nonce_meets, Block, ChainError};
use crate::hashing::{meets_difficulty, sha256_of};
use crate::numfmt::{dec_str, usize_to_string};
use vstd::prelude::*;
use vstd::string::StringExecFns;

verus! {

/// Which of the three audit checks a block failed: its stored hash does not
/// match its recomputed hash, its stored previous hash does not match the
/// prior block's stored hash, or its index does not follow the prior one.
#[derive(Clone, Copy, Debug, PartialEq, Eq, Structural)]
pub enum BlockFault {
    BadHash,
    BadPrevHash,
    BadIndex,
}

/// The ordered ledger: a sequence of blocks headed by a genesis block, and
/// the difficulty shared by every append.
pub struct Blockchain {
    pub chains: Vec<Block>,
    pub difficulty: u32,
}

/// Block `i` is correctly linked onto block `i - 1`: its stored hash is the
/// hash of its fields, its stored previous hash is the prior block's stored
/// hash, and its index is the prior index plus one.
pub open spec fn link_ok(blocks: Seq<Block>, i: int) -> bool
    recommends
        1 <= i < blocks.len(),
{
    &&& blocks[i].hash@ == block_hash(blocks[i])
    &&& blocks[i].previous_hash@ == blocks[i - 1].hash@
    &&& blocks[i].index as int == blocks[i - 1].index as int + 1
}

/// The whole sequence is tamper-evident-clean: every block after the
/// genesis block is correctly linked onto its predecessor.
pub open spec fn chain_valid(blocks: Seq<Block>) -> bool {
    forall|i: int| 1 <= i < blocks.len() ==> link_ok(blocks, i)
}

/// The first of the three checks that block `i` fails, in audit order, or
/// `None` when block `i` passes all three.
pub open spec fn fault_at(blocks: Seq<Block>, i: int) -> Option<BlockFault>
    recommends
        1 <= i < blocks.len(),
{
    if blocks[i].hash@ != block_hash(blocks[i]) {
        Some(BlockFault::BadHash)
    } else if blocks[i].previous_hash@ != blocks[i - 1].hash@ {
        Some(BlockFault::BadPrevHash)
    } else if blocks[i].index as int != blocks[i - 1].index as int + 1 {
        Some(BlockFault::BadIndex)
    } else {
        None
    }
}

/// The first faulting block at or after position `i`, walking forward.
pub open spec fn first_fault_from(blocks: Seq<Block>, i: int) -> Option<(int, BlockFault)>
    decreases blocks.len() - i,
{
    if i < 1 || i >= blocks.len() {
        None
    } else if fault_at(blocks, i) is Some {
        Some((i, fault_at(blocks, i).unwrap()))
    } else {
        first_fault_from(blocks, i + 1)
    }
}

/// The first faulting block of the whole sequence, in audit order.
pub open spec fn first_fault(blocks: Seq<Block>) -> Option<(int, BlockFault)> {
    first_fault_from(blocks, 1)
}

/// The text the audit attaches to each kind of fault.
pub open spec fn fault_label(f: BlockFault) -> Seq<char> {
    match f {
        BlockFault::BadHash => " has invalid hash"@,
        BlockFault::BadPrevHash => " previous hash mismatch"@,
        BlockFault::BadIndex => " index error"@,
    }
}

/// The audit's diagnostic: a fixed all-clear line, or the first faulting
/// block's position and failed check.
pub open spec fn diagnostic(blocks: Seq<Block>) -> Seq<char> {
    match first_fault(blocks) {
        None => "ok"@,
        Some((i, f)) => "Block "@ + dec_str(i as nat) + fault_label(f),
    }
}

/// The genesis block's fixed content: index zero, one fixed transaction,
/// the fixed previous-hash sentinel, nonce zero, and a coherent stored hash.
pub open spec fn genesis_ok(b: Block) -> bool {
    &&& b.index == 0
    &&& b.transactions@.len() == 1
    &&& b.transactions@[0]@ == "Genesis Block"@
    &&& b.previous_hash@ == "000000"@
    &&& b.nonce == 0
    &&& b.hash@ == block_hash(b)
    &&& b.hash@.len() == 64
}

/// The candidate block as the append mines it: `nb` re-pointed at `tip`.
/// Its nonce search runs over the header bytes of this block.
pub open spec fn repointed(nb: Block, tip: Block) -> Block {
    Block { previous_hash: tip.hash, ..nb }
}

/// The block `b` that an append stores when handed `nb` while `tip` was the
/// latest block: `nb`'s own content, re-pointed at `tip`, mined at
/// difficulty `d`, with a coherent stored hash.
pub open spec fn mined_extension(tip: Block, nb: Block, b: Block, d: u32) -> bool {
    &&& b.index == nb.index
    &&& b.timestamp == nb.timestamp
    &&& b.transactions == nb.transactions
    &&& b.previous_hash@ == tip.hash@
    &&& 0 <= b.nonce < i32::MAX
    &&& b.hash@ == block_hash(b)
    &&& b.hash@.len() == 64
    &&& meets_difficulty(sha256_of(hash_input(b)), d as nat)
    &&& forall|i: int| 0 <= i < d ==> b.hash@[i] == '0'
}

proof fn lemma_first_fault_skip(blocks: Seq<Block>, k: int)
    requires
        1 <= k <= blocks.len(),
        forall|j: int| 1 <= j < k ==> fault_at(blocks, j) is None,
    ensures
        first_fault(blocks) == first_fault_from(blocks, k),
    decreases k,
{
    if k > 1 {
        lemma_first_fault_skip(blocks, k - 1);
    }
}

proof fn lemma_no_fault_from(blocks: Seq<Block>, k: int)
    requires
        1 <= k,
        first_fault_from(blocks, k) is None,
    ensures
        forall|j: int| k <= j < blocks.len() ==> fault_at(blocks, j) is None,
    decreases blocks.len() - k,
{
    if k < blocks.len() {
        lemma_no_fault_from(blocks, k + 1);
    }
}

/// The audit accepts a chain exactly when every block after the genesis
/// block is correctly linked: a valid chain reports no fault, and a chain
/// that reports no fault is valid.
pub proof fn lemma_chain_valid_iff_no_fault(blocks: Seq<Block>)
    ensures
        chain_valid(blocks) <==> first_fault(blocks) is None,
{
    if chain_valid(blocks) {
        assert forall|j: int| 1 <= j < blocks.len() implies fault_at(blocks, j) is None by {
            assert(link_ok(blocks, j));
        }
        if blocks.len() >= 1 {
            lemma_first_fault_skip(blocks, blocks.len() as int);
        }
    }
    if first_fault(blocks) is None {
        lemma_no_fault_from(blocks, 1);
        assert forall|i: int| 1 <= i < blocks.len() implies link_ok(blocks, i) by {
            assert(fault_at(blocks, i) is None);
        }
    }
}

/// A block whose stored hash no longer matches the hash of its fields, as
/// after any mutation that changes its digest, is caught by the audit's
/// first check: with every earlier block clean, the audit names exactly
/// this block and the hash check.
pub proof fn lemma_invalid_hash_detected(blocks: Seq<Block>, i: int)
    requires
        1 <= i < blocks.len(),
        forall|j: int| 1 <= j < i ==> fault_at(blocks, j) is None,
        blocks[i].hash@ != block_hash(blocks[i]),
    ensures
        !chain_valid(blocks),
        first_fault(blocks) == Some((i, BlockFault::BadHash)),
{
    lemma_first_fault_skip(blocks, i);
    assert(!link_ok(blocks, i));
    assert(!chain_valid(blocks)) by {
        if chain_valid(blocks) {
            assert(link_ok(blocks, i));
        }
    }
}

/// An overwritten previous hash breaks the audit at the linkage check, even
/// when the block's own stored hash is self-consistent: with every earlier
/// block clean, the audit names exactly this block and the linkage check.
pub proof fn lemma_broken_linkage_detected(blocks: Seq<Block>, i: int)
    requires
        1 <= i < blocks.len(),
        forall|j: int| 1 <= j < i ==> fault_at(blocks, j) is None,
        blocks[i].hash@ == block_hash(blocks[i]),
        blocks[i].previous_hash@ != blocks[i - 1].hash@,
    ensures
        !chain_valid(blocks),
        first_fault(blocks) == Some((i, BlockFault::BadPrevHash)),
{
    lemma_first_fault_skip(blocks, i);
    assert(!link_ok(blocks, i));
    assert(!chain_valid(blocks)) by {
        if chain_valid(blocks) {
            assert(link_ok(blocks, i));
        }
    }
}

/// An out-of-sequence index is caught by the audit's third check: with every
/// earlier block clean and the block passing the hash and linkage checks,
/// the audit names exactly this block and the index check.
pub proof fn lemma_index_error_detected(blocks: Seq<Block>, i: int)
    requires
        1 <= i < blocks.len(),
        forall|j: int| 1 <= j < i ==> fault_at(blocks, j) is None,
        blocks[i].hash@ == block_hash(blocks[i]),
        blocks[i].previous_hash@ == blocks[i - 1].hash@,
        blocks[i].index as int != blocks[i - 1].index as int + 1,
    ensures
        !chain_valid(blocks),
        first_fault(blocks) == Some((i, BlockFault::BadIndex)),
{
    lemma_first_fault_skip(blocks, i);
    assert(!link_ok(blocks, i));
    assert(!chain_valid(blocks)) by {
        if chain_valid(blocks) {
            assert(link_ok(blocks, i));
        }
    }
}

fn fault_message(i: usize, f: BlockFault) -> (r: String)
    ensures
        r@ == "Block "@ + dec_str(i as nat) + fault_label(f),
{
    let mut s = String::from_str("Block ");
    let num = usize_to_string(i);
    s.append(num.as_str());
    match f {
        BlockFault::BadHash => s.append(" has invalid hash"),
        BlockFault::BadPrevHash => s.append(" previous hash mismatch"),
        BlockFault::BadIndex => s.append(" index error"),
    }
    proof {
        assert(s@ =~= "Block "@ + dec_str(i as nat) + fault_label(f));
    }
    s
}

impl Blockchain {
    /// Builds a ledger holding only a genesis block, mined at no difficulty,
    /// with the given difficulty for later appends. Fails only when the
    /// clock cannot timestamp the genesis block.
    pub fn with_difficulty(difficulty: u32) -> (r: Result<Blockchain, ChainError>)
        ensures
            (match r {
                Ok(c) => {
                    &&& c.difficulty == difficulty
                    &&& c.chains@.len() == 1
                    &&& genesis_ok(c.chains@[0])
                    &&& chain_valid(c.chains@)
                },
                Err(e) => e == ChainError::ClockUnavailable,
            }),
    {
        let mut txs: Vec<String> = Vec::new();
        txs.push(String::from_str("Genesis Block"));
        match Block::new(0, txs, String::from_str("000000")) {
            Ok(g) => {
                let mut chains: Vec<Block> = Vec::new();
                chains.push(g);
                Ok(Blockchain { chains, difficulty })
            },
            Err(e) => Err(e),
        }
    }

    /// Builds a ledger with the default difficulty of seven leading zero
    /// hex nibbles.
    pub fn new() -> (r: Result<Blockchain, ChainError>)
        ensures
            (match r {
                Ok(c) => {
                    &&& c.difficulty == 7
                    &&& c.chains@.len() == 1
                    &&& genesis_ok(c.chains@[0])
                    &&& chain_valid(c.chains@)
                },
                Err(e) => e == ChainError::ClockUnavailable,
            }),
    {
        Self::with_difficulty(7)
    }

    /// The tip: the most recently appended block.
    pub fn get_latest_block(&self) -> (r: &Block)
        requires
            self.chains@.len() >= 1,
        ensures
            *r == self.chains@.last(),
    {
        &self.chains[self.chains.len() - 1]
    }

    /// Points `new_block` at the current tip, mines it at this ledger's
    /// difficulty, and appends it. On exhaustion of the nonce range the
    /// ledger is left unchanged and the failure is reported; nothing is
    /// appended unmined.
    pub fn add_block(&mut self, new_block: Block) -> (r: Result<(), ChainError>)
        requires
            old(self).chains@.len() >= 1,
        ensures
            final(self).difficulty == old(self).difficulty,
            (match r {
                Ok(()) => {
                    &&& final(self).chains@.len() == old(self).chains@.len() + 1
                    &&& final(self).chains@.subrange(0, old(self).chains@.len() as int) == old(
                        self,
                    ).chains@
                    &&& mined_extension(
                        old(self).chains@.last(),
                        new_block,
                        final(self).chains@.last(),
                        old(self).difficulty,
                    )
                    &&& (chain_valid(old(self).chains@) && new_block.index as int == old(
                        self,
                    ).chains@.last().index as int + 1 ==> chain_valid(final(self).chains@))
                },
                Err(e) => {
                    &&& e == ChainError::MiningExhausted
                    &&& final(self).chains@ == old(self).chains@
                    &&& forall|n: i32|
                        0 <= n < i32::MAX ==> !nonce_meets(
                            header_bytes(repointed(new_block, old(self).chains@.last())),
                            n,
                            old(self).difficulty as nat,
                        )
                },
            }),
    {
        let ghost pre: Blockchain = *self;
        let mut nb = new_block;
        let tip = self.get_latest_block();
        nb.set_prev_hash(tip.get_hash());
        match nb.mine(self.difficulty) {
            Ok(()) => {
                self.chains.push(nb);
                proof {
                    let s = pre.chains@;
                    let s2 = self.chains@;
                    assert(s2.subrange(0, s.len() as int) =~= s);
                    if chain_valid(s) && new_block.index as int == s.last().index as int + 1 {
                        assert forall|i: int| 1 <= i < s2.len() implies link_ok(s2, i) by {
                            if i < s.len() {
                                assert(link_ok(s, i));
                            }
                        }
                    }
                }
                Ok(())
            },
            Err(e) => {
                proof {
                    let rp = repointed(new_block, pre.chains@.last());
                    assert(header_bytes(nb) == header_bytes(rp));
                }
                Err(e)
            },
        }
    }

    /// Walks the sequence from the block after genesis, checking each block
    /// in audit order: stored hash against recomputed hash, stored previous
    /// hash against the prior block's stored hash, index against the prior
    /// index plus one. Returns whether the chain is valid, together with a
    /// diagnostic naming the first faulting block and failed check, or a
    /// fixed all-clear line. The walk never mutates anything.
    pub fn is_valid(&self) -> (r: (bool, String))
        ensures
            r.0 == chain_valid(self.chains@),
            r.1@ == diagnostic(self.chains@),
    {
        let blocks = &self.chains;
        let n = blocks.len();
        let mut i: usize = 1;
        while i < n
            invariant
                n == blocks@.len(),
                blocks == &self.chains,
                1 <= i,
                i <= n || i == 1,
                forall|j: int| 1 <= j < i ==> fault_at(blocks@, j) is None,
            decreases n - i,
        {
            let current = &blocks[i];
            let previous = &blocks[i - 1];
            let computed = current.calculate_hash();
            if !(current.hash == computed) {
                proof {
                    lemma_first_fault_skip(blocks@, i as int);
                    assert(fault_at(blocks@, i as int) == Some(BlockFault::BadHash));
                    assert(!link_ok(blocks@, i as int));
                }
                return (false, fault_message(i, BlockFault::BadHash));
            }
            if !(current.previous_hash == previous.hash) {
                proof {
                    lemma_first_fault_skip(blocks@, i as int);
                    assert(fault_at(blocks@, i as int) == Some(BlockFault::BadPrevHash));
                    assert(!link_ok(blocks@, i as int));
                }
                return (false, fault_message(i, BlockFault::BadPrevHash));
            }
            if !((current.index as i64) == (previous.index as i64) + 1) {
                proof {
                    lemma_first_fault_skip(blocks@, i as int);
                    assert(fault_at(blocks@, i as int) == Some(BlockFault::BadIndex));
                    assert(!link_ok(blocks@, i as int));
                }
                return (false, fault_message(i, BlockFault::BadIndex));
            }
            proof {
                assert(fault_at(blocks@, i as int) is None);
            }
            i += 1;
        }
        proof {
            if n >= 1 {
                lemma_first_fault_skip(blocks@, n as int);
            }
            assert(first_fault(blocks@) is None);
            assert forall|j: int| 1 <= j < blocks@.len() implies link_ok(blocks@, j) by {
                assert(fault_at(blocks@, j) is None);
            }
        }
        (true, String::from_str("ok"))
    }
}

} // verus!
