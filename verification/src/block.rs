//! One ledger entry: a block that owns its fields, computes its content
//! hash over a fixed byte framing, and performs the proof-of-work search
//! for a nonce whose digest meets a difficulty target.

use crate::hashing::{
    check_difficulty, hex_encode, hex_of, lemma_difficulty_hex_zeros, meets_difficulty, sha256,
    sha256_of,
};
use rayon::iter::IndexedParallelIterator;
use rayon::iter::IntoParallelIterator;
use rayon::iter::ParallelIterator;
use std::time::SystemTime;
use std::time::UNIX_EPOCH;
use vstd::bytes::{spec_u32_to_le_bytes, spec_u64_to_le_bytes, u32_to_le_bytes, u64_to_le_bytes};
use vstd::pervasive::cloned;
use vstd::prelude::*;
use vstd::string::StringSliceAdditionalSpecFns;
use vstd::utf8::encode_utf8;

verus! {

/// What can go wrong while building or extending the ledger: the wall clock
/// could not timestamp a block, or the whole nonce range was searched
/// without finding a digest that meets the difficulty.
#[derive(Clone, Copy, Debug, PartialEq, Eq, Structural)]
pub enum ChainError {
    ClockUnavailable,
    MiningExhausted,
}

/// One ledger entry. `hash` is derived from the other fields (it is not part
/// of its own input); everything else is ordinary data.
#[derive(Debug)]
pub struct Block {
    pub index: i32,
    pub timestamp: u64,
    pub transactions: Vec<String>,
    pub previous_hash: String,
    pub nonce: i32,
    pub hash: String,
}

/// The UTF-8 bytes of a transaction sequence, concatenated in order with no
/// separators or length prefixes.
pub open spec fn tx_bytes(txs: Seq<String>) -> Seq<u8>
    decreases txs.len(),
{
    if txs.len() == 0 {
        Seq::empty()
    } else {
        tx_bytes(txs.drop_last()) + encode_utf8(txs.last()@)
    }
}

/// The hashed content of a block except for the nonce: little-endian
/// fixed-width index and timestamp, then each transaction's UTF-8 bytes in
/// sequence order, then the previous hash's UTF-8 bytes, concatenated with
/// no separators. The stored `hash` field is deliberately excluded.
pub open spec fn header_bytes(b: Block) -> Seq<u8> {
    spec_u32_to_le_bytes(b.index as u32) + spec_u64_to_le_bytes(b.timestamp)
        + tx_bytes(b.transactions@) + encode_utf8(b.previous_hash@)
}

/// The full hash input: the header bytes followed by the little-endian nonce.
pub open spec fn hash_input(b: Block) -> Seq<u8> {
    header_bytes(b) + spec_u32_to_le_bytes(b.nonce as u32)
}

/// The hex-encoded SHA-256 digest of a block's hash input: what
/// `calculate_hash` returns, as a function of the block's fields alone.
pub open spec fn block_hash(b: Block) -> Seq<char> {
    hex_of(sha256_of(hash_input(b)))
}

/// Whether appending `nonce` to `header` yields a digest that meets
/// difficulty `d`: the predicate the mining search solves.
pub open spec fn nonce_meets(header: Seq<u8>, nonce: i32, d: nat) -> bool {
    meets_difficulty(sha256_of(header + spec_u32_to_le_bytes(nonce as u32)), d)
}

/// Appends a byte slice to a byte vector.
fn append_bytes(v: &mut Vec<u8>, other: &[u8])
    ensures
        final(v)@ == old(v)@ + other@,
{
    let ghost pre: Seq<u8> = v@;
    v.extend_from_slice(other);
    proof {
        assert forall|i: int| 0 <= i < v@.len() implies v@[i] == (pre + other@)[i] by {
            if i >= pre.len() {
                assert(cloned::<u8>(other@[i - pre.len()], v@[i]));
            }
        }
        assert(v@ =~= pre + other@);
    }
}

/// Relies on std::time::SystemTime::now and SystemTime::duration_since:
/// the milliseconds since the Unix epoch, or `None` when the system clock
/// reads earlier than the epoch. Nothing is promised of the value; it
/// depends on the machine's clock.
#[verifier::external_body]
fn now_millis() -> (r: Option<u64>)
{
    match SystemTime::now().duration_since(UNIX_EPOCH) {
        Ok(d) => Some(d.as_millis() as u64),
        Err(_) => None,
    }
}

/// Relies on rayon's `find_any` over the nonce range `0..i32::MAX`: a
/// returned item satisfied the predicate, and `None` means the predicate
/// held of no item in the range. Which satisfying nonce is returned depends
/// on thread scheduling, so two calls on equal arguments may differ.
#[verifier::external_body]
fn par_find_nonce(header: &Vec<u8>, difficulty: u32) -> (r: Option<i32>)
    ensures
        (match r {
            Some(n) => 0 <= n < i32::MAX && nonce_meets(header@, n, difficulty as nat),
            None => forall|n: i32| 0 <= n < i32::MAX ==> !nonce_meets(header@, n, difficulty as nat),
        }),
{
    (0i32..i32::MAX)
        .into_par_iter()
        .with_min_len(50_000)
        .find_any(|n: &i32| nonce_attempt(header, *n, difficulty))
}

/// One attempt of the proof-of-work search: does `nonce` solve the puzzle
/// for this header at this difficulty?
fn nonce_attempt(header: &Vec<u8>, nonce: i32, difficulty: u32) -> (r: bool)
    ensures
        r == nonce_meets(header@, nonce, difficulty as nat),
{
    let mut input: Vec<u8> = Vec::new();
    append_bytes(&mut input, header.as_slice());
    let nonce_bytes = u32_to_le_bytes(nonce as u32);
    append_bytes(&mut input, nonce_bytes.as_slice());
    proof {
        assert(input@ =~= header@ + spec_u32_to_le_bytes(nonce as u32));
    }
    let digest = sha256(&input);
    check_difficulty(&digest, difficulty)
}

impl Block {
    /// Constructs a block with an explicit timestamp: nonce zero, and the
    /// stored hash computed over the initial fields.
    pub fn new_with_timestamp(
        index: i32,
        timestamp: u64,
        transactions: Vec<String>,
        previous_hash: String,
    ) -> (b: Block)
        ensures
            b.index == index,
            b.timestamp == timestamp,
            b.transactions == transactions,
            b.previous_hash == previous_hash,
            b.nonce == 0,
            b.hash@ == block_hash(b),
            b.hash@.len() == 64,
    {
        let mut b = Block {
            index,
            timestamp,
            transactions,
            previous_hash,
            nonce: 0,
            hash: String::new(),
        };
        let h = b.calculate_hash();
        b.hash = h;
        b
    }

    /// Constructs a block timestamped with the current wall-clock time, or
    /// reports that the clock could not produce a timestamp.
    pub fn new(index: i32, transactions: Vec<String>, previous_hash: String) -> (r: Result<
        Block,
        ChainError,
    >)
        ensures
            (match r {
                Ok(b) => {
                    &&& b.index == index
                    &&& b.transactions == transactions
                    &&& b.previous_hash == previous_hash
                    &&& b.nonce == 0
                    &&& b.hash@ == block_hash(b)
                    &&& b.hash@.len() == 64
                },
                Err(e) => e == ChainError::ClockUnavailable,
            }),
    {
        match now_millis() {
            Some(t) => Ok(Self::new_with_timestamp(index, t, transactions, previous_hash)),
            None => Err(ChainError::ClockUnavailable),
        }
    }

    /// The stored hash, as last computed.
    pub fn get_hash(&self) -> (r: &str)
        ensures
            r@ == self.hash@,
    {
        self.hash.as_str()
    }

    /// Overwrites the stored previous hash; every other field is kept.
    pub fn set_prev_hash(&mut self, new_hash: &str)
        ensures
            final(self).previous_hash@ == new_hash@,
            final(self).index == old(self).index,
            final(self).timestamp == old(self).timestamp,
            final(self).transactions == old(self).transactions,
            final(self).nonce == old(self).nonce,
            final(self).hash == old(self).hash,
    {
        self.previous_hash = new_hash.to_owned();
    }

    /// The header bytes of this block, as one vector.
    fn header_bytes_vec(&self) -> (r: Vec<u8>)
        ensures
            r@ == header_bytes(*self),
    {
        let mut v: Vec<u8> = Vec::new();
        let idx_bytes = u32_to_le_bytes(self.index as u32);
        append_bytes(&mut v, idx_bytes.as_slice());
        let ts_bytes = u64_to_le_bytes(self.timestamp);
        append_bytes(&mut v, ts_bytes.as_slice());
        proof {
            assert(v@ =~= spec_u32_to_le_bytes(self.index as u32) + spec_u64_to_le_bytes(
                self.timestamp,
            ) + tx_bytes(self.transactions@.take(0)));
        }
        let n = self.transactions.len();
        let mut i: usize = 0;
        while i < n
            invariant
                n == self.transactions@.len(),
                i <= n,
                v@ == spec_u32_to_le_bytes(self.index as u32) + spec_u64_to_le_bytes(
                    self.timestamp,
                ) + tx_bytes(self.transactions@.take(i as int)),
            decreases n - i,
        {
            let tx: &String = &self.transactions[i];
            append_bytes(&mut v, tx.as_str().as_bytes());
            proof {
                let txs = self.transactions@;
                assert(txs.take(i as int + 1).drop_last() =~= txs.take(i as int));
                assert(txs.take(i as int + 1).last() == txs[i as int]);
                assert(v@ =~= spec_u32_to_le_bytes(self.index as u32) + spec_u64_to_le_bytes(
                    self.timestamp,
                ) + tx_bytes(txs.take(i as int + 1)));
            }
            i += 1;
        }
        proof {
            assert(self.transactions@.take(n as int) =~= self.transactions@);
        }
        append_bytes(&mut v, self.previous_hash.as_str().as_bytes());
        proof {
            assert(v@ =~= header_bytes(*self));
        }
        v
    }

    /// Recomputes the hex-encoded SHA-256 digest of this block's fields.
    /// The result is a function of the fields alone, so an unmodified block
    /// always hashes to the same string.
    pub fn calculate_hash(&self) -> (r: String)
        ensures
            r@ == block_hash(*self),
            r@.len() == 64,
    {
        let mut input = self.header_bytes_vec();
        let nonce_bytes = u32_to_le_bytes(self.nonce as u32);
        append_bytes(&mut input, nonce_bytes.as_slice());
        let digest = sha256(&input);
        hex_encode(&digest)
    }

    /// Searches the nonce range for a digest with at least `difficulty`
    /// leading zero hex nibbles, and on success stores the winning nonce and
    /// the recomputed hash. Exhausting the whole range without a solution is
    /// reported as `MiningExhausted` and leaves the block unchanged.
    pub fn mine(&mut self, difficulty: u32) -> (r: Result<(), ChainError>)
        ensures
            final(self).index == old(self).index,
            final(self).timestamp == old(self).timestamp,
            final(self).transactions == old(self).transactions,
            final(self).previous_hash == old(self).previous_hash,
            (match r {
                Ok(()) => {
                    &&& 0 <= final(self).nonce < i32::MAX
                    &&& nonce_meets(
                        header_bytes(*old(self)),
                        final(self).nonce,
                        difficulty as nat,
                    )
                    &&& final(self).hash@ == block_hash(*final(self))
                    &&& final(self).hash@.len() == 64
                    &&& meets_difficulty(
                        sha256_of(hash_input(*final(self))),
                        difficulty as nat,
                    )
                    &&& forall|i: int| 0 <= i < difficulty ==> final(self).hash@[i] == '0'
                },
                Err(e) => {
                    &&& e == ChainError::MiningExhausted
                    &&& final(self).nonce == old(self).nonce
                    &&& final(self).hash == old(self).hash
                    &&& forall|n: i32|
                        0 <= n < i32::MAX ==> !nonce_meets(
                            header_bytes(*old(self)),
                            n,
                            difficulty as nat,
                        )
                },
            }),
    {
        let ghost pre: Block = *self;
        let header = self.header_bytes_vec();
        match par_find_nonce(&header, difficulty) {
            Some(n) => {
                self.nonce = n;
                let h = self.calculate_hash();
                self.hash = h;
                proof {
                    assert(header_bytes(*self) == header_bytes(pre));
                    assert(hash_input(*self) == header@ + spec_u32_to_le_bytes(n as u32));
                    lemma_difficulty_hex_zeros(sha256_of(hash_input(*self)), difficulty as nat);
                }
                Ok(())
            },
            None => Err(ChainError::MiningExhausted),
        }
    }
}

/// The block hash is determined by the hashed fields alone: two blocks that
/// agree on index, timestamp, transactions, previous hash and nonce hash to
/// the same string, whatever their stored `hash` fields hold.
pub proof fn lemma_block_hash_deterministic(a: Block, b: Block)
    requires
        a.index == b.index,
        a.timestamp == b.timestamp,
        a.transactions@ == b.transactions@,
        a.previous_hash@ == b.previous_hash@,
        a.nonce == b.nonce,
    ensures
        block_hash(a) == block_hash(b),
{
}

} // verus!
