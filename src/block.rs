//! A block: a timestamped batch of transfers, linked to its predecessor by
//! digest and sealed by a proof-of-work nonce.

use vstd::prelude::*;

use crate::clock::now_seconds;
use crate::decimal::{append_signed, append_unsigned, decimal, signed_decimal};
use crate::hashing::{sha256_hex, sha256_hex_of};
use crate::transfer::{append_canonical, canonical, Transfer, TransferModel};

verus! {

/// The mathematical content of a [`Block`].
pub struct BlockModel {
    pub sequence_index: nat,
    pub created_at: int,
    pub transfers: Seq<TransferModel>,
    pub previous_hash: Seq<char>,
    pub hash: Seq<char>,
    pub nonce: nat,
    pub difficulty: nat,
}

/// A batch of transfers with its linkage and proof-of-work fields.
#[derive(Clone, Debug)]
pub struct Block {
    pub sequence_index: u64,
    /// Seconds since the Unix epoch.
    pub created_at: i64,
    pub transfers: Vec<Transfer>,
    /// The predecessor's hash, or `"0"` for the first block of a chain.
    pub previous_hash: String,
    pub hash: String,
    pub nonce: u64,
    /// The number of leading `'0'` hex digits that `hash` must have.
    pub difficulty: usize,
}

impl View for Block {
    type V = BlockModel;

    open spec fn view(&self) -> BlockModel {
        BlockModel {
            sequence_index: self.sequence_index as nat,
            created_at: self.created_at as int,
            transfers: self.transfers@.map_values(|t: Transfer| t@),
            previous_hash: self.previous_hash@,
            hash: self.hash@,
            nonce: self.nonce as nat,
            difficulty: self.difficulty as nat,
        }
    }
}

/// The canonical texts of `ts`, concatenated in order.
pub open spec fn transfers_text(ts: Seq<TransferModel>) -> Seq<char>
    decreases ts.len(),
{
    if ts.len() == 0 {
        Seq::empty()
    } else {
        transfers_text(ts.drop_last()) + canonical(ts.last())
    }
}

/// The text that is digested for block `b` with nonce `nonce`: index,
/// timestamp, transfers, previous hash and nonce, with no separators.
pub open spec fn preimage(b: BlockModel, nonce: nat) -> Seq<char> {
    decimal(b.sequence_index) + signed_decimal(b.created_at) + transfers_text(b.transfers)
        + b.previous_hash + decimal(nonce)
}

/// The digest that `b`'s contents and nonce determine.
pub open spec fn block_digest(b: BlockModel) -> Seq<char> {
    sha256_hex(preimage(b, b.nonce))
}

/// `hash` starts with at least `difficulty` `'0'` characters.
pub open spec fn meets_difficulty(hash: Seq<char>, difficulty: nat) -> bool {
    &&& difficulty <= hash.len()
    &&& forall|i: int| 0 <= i < difficulty ==> hash[i] == '0'
}

/// The stored hash is the digest of the block's contents.
pub open spec fn is_sealed(b: BlockModel) -> bool {
    b.hash == block_digest(b)
}

/// Nonce `n` does not give `b` a digest that meets `b`'s difficulty.
pub open spec fn nonce_fails(b: BlockModel, n: nat) -> bool {
    !meets_difficulty(sha256_hex(preimage(b, n)), b.difficulty)
}

/// `b` is a sound successor of a block whose hash is `previous_hash`: its hash
/// is its digest, it names that predecessor, and it meets its difficulty.
pub open spec fn links_to(b: BlockModel, previous_hash: Seq<char>) -> bool {
    &&& is_sealed(b)
    &&& b.previous_hash == previous_hash
    &&& meets_difficulty(b.hash, b.difficulty)
}

/// The digest is a function of the index, timestamp, transfers, previous
/// hash and nonce: blocks that agree on these have the same digest,
/// whatever their stored hash or difficulty.
pub proof fn lemma_digest_determined(a: BlockModel, b: BlockModel)
    requires
        a.sequence_index == b.sequence_index,
        a.created_at == b.created_at,
        a.transfers == b.transfers,
        a.previous_hash == b.previous_hash,
        a.nonce == b.nonce,
    ensures
        block_digest(a) == block_digest(b),
{
}

/// The first of the three block checks that fails.
#[derive(Clone, Copy, Debug, PartialEq, Eq, Structural)]
pub enum BlockFault {
    /// The stored hash is not the digest of the block's contents.
    HashMismatch,
    /// The previous hash does not name the predecessor's hash.
    BrokenLink,
    /// The hash lacks the leading zeros its difficulty asks for.
    InsufficientWork,
}

/// The first failing check of `b` against a predecessor whose hash is
/// `previous_hash`, in the order: digest, linkage, proof of work.
pub open spec fn fault_of(b: BlockModel, previous_hash: Seq<char>) -> Option<BlockFault> {
    if !is_sealed(b) {
        Some(BlockFault::HashMismatch)
    } else if b.previous_hash != previous_hash {
        Some(BlockFault::BrokenLink)
    } else if !meets_difficulty(b.hash, b.difficulty) {
        Some(BlockFault::InsufficientWork)
    } else {
        None
    }
}

/// Whether `hash` starts with at least `difficulty` `'0'` characters.
pub fn has_leading_zeros(hash: &str, difficulty: usize) -> (r: bool)
    ensures
        r == meets_difficulty(hash@, difficulty as nat),
{
    let len = hash.unicode_len();
    if difficulty > len {
        return false;
    }
    let mut i: usize = 0;
    while i < difficulty
        invariant
            i <= difficulty <= len,
            len == hash@.len(),
            forall|j: int| 0 <= j < i ==> hash@[j] == '0',
        decreases difficulty - i,
    {
        if hash.get_char(i) != '0' {
            return false;
        }
        i = i + 1;
    }
    true
}

impl Block {
    /// A block stamped with the given time, nonce 0, and the digest of its
    /// contents as its hash (not yet mined).
    pub fn with_time(
        sequence_index: u64,
        created_at: i64,
        transfers: Vec<Transfer>,
        previous_hash: String,
        difficulty: usize,
    ) -> (r: Block)
        ensures
            r.sequence_index == sequence_index,
            r.created_at == created_at,
            r.transfers@ == transfers@,
            r.previous_hash@ == previous_hash@,
            r.nonce == 0,
            r.difficulty == difficulty,
            is_sealed(r@),
    {
        let mut b = Block {
            sequence_index,
            created_at,
            transfers,
            previous_hash,
            hash: String::new(),
            nonce: 0,
            difficulty,
        };
        b.hash = b.compute_hash();
        b
    }

    /// A block stamped with the current wall-clock time, nonce 0, and the
    /// digest of its contents as its hash (not yet mined).
    pub fn new(sequence_index: u64, transfers: Vec<Transfer>, previous_hash: String, difficulty: usize)
        -> (r: Block)
        ensures
            r.sequence_index == sequence_index,
            r.transfers@ == transfers@,
            r.previous_hash@ == previous_hash@,
            r.nonce == 0,
            r.difficulty == difficulty,
            is_sealed(r@),
    {
        Block::with_time(sequence_index, now_seconds(), transfers, previous_hash, difficulty)
    }

    /// The text whose digest is this block's hash, for the current nonce.
    pub fn hash_input(&self) -> (r: String)
        ensures
            r@ == preimage(self@, self.nonce as nat),
    {
        let ghost ts = self@.transfers;
        let mut out = String::new();
        append_unsigned(&mut out, self.sequence_index);
        append_signed(&mut out, self.created_at);
        let mut i: usize = 0;
        while i < self.transfers.len()
            invariant
                i <= self.transfers@.len(),
                ts == self@.transfers,
                out@ == decimal(self.sequence_index as nat) + signed_decimal(self.created_at as int)
                    + transfers_text(ts.take(i as int)),
            decreases self.transfers@.len() - i,
        {
            append_canonical(&mut out, &self.transfers[i]);
            assert(ts.take(i + 1).drop_last() =~= ts.take(i as int));
            i = i + 1;
        }
        assert(ts.take(i as int) =~= ts);
        out.append(self.previous_hash.as_str());
        append_unsigned(&mut out, self.nonce);
        assert(out@ =~= preimage(self@, self.nonce as nat));
        out
    }

    /// The digest of this block's contents and nonce.
    pub fn compute_hash(&self) -> (r: String)
        ensures
            r@ == block_digest(self@),
    {
        let text = self.hash_input();
        sha256_hex_of(text.as_str())
    }

    /// Tests the stored hash against the difficulty and, while it falls
    /// short, moves to the next nonce and recomputes the hash. Returns `true`
    /// at the first hash that meets the difficulty; a block whose stored hash
    /// already meets it comes back unchanged. Returns `false` when the nonce
    /// reached `u64::MAX` without success. The contents are left as they were.
    pub fn mine(&mut self) -> (found: bool)
        ensures
            final(self).sequence_index == old(self).sequence_index,
            final(self).created_at == old(self).created_at,
            final(self).transfers@ == old(self).transfers@,
            final(self).previous_hash@ == old(self).previous_hash@,
            final(self).difficulty == old(self).difficulty,
            old(self).nonce <= final(self).nonce,
            found == meets_difficulty(final(self).hash@, final(self).difficulty as nat),
            !found ==> final(self).nonce == u64::MAX,
            meets_difficulty(old(self).hash@, old(self).difficulty as nat) ==> {
                &&& final(self).nonce == old(self).nonce
                &&& final(self).hash@ == old(self).hash@
            },
            old(self).nonce < final(self).nonce ==> is_sealed(final(self)@),
            forall|n: nat|
                old(self).nonce < n < final(self).nonce ==> #[trigger] nonce_fails(
                    final(self)@,
                    n,
                ),
            is_sealed(old(self)@) ==> {
                &&& is_sealed(final(self)@)
                &&& forall|n: nat|
                    old(self).nonce <= n < final(self).nonce ==> #[trigger] nonce_fails(
                        final(self)@,
                        n,
                    )
            },
    {
        let ghost start = self@;
        loop
            invariant
                start == old(self)@,
                self.sequence_index == old(self).sequence_index,
                self.created_at == old(self).created_at,
                self.transfers@ == old(self).transfers@,
                self.previous_hash@ == old(self).previous_hash@,
                self.difficulty == old(self).difficulty,
                old(self).nonce <= self.nonce,
                self.nonce == old(self).nonce ==> self.hash@ == old(self).hash@,
                old(self).nonce < self.nonce ==> {
                    &&& is_sealed(self@)
                    &&& !meets_difficulty(old(self).hash@, old(self).difficulty as nat)
                },
                forall|n: nat| old(self).nonce < n < self.nonce ==> #[trigger] nonce_fails(self@, n),
                is_sealed(start) && old(self).nonce < self.nonce ==> nonce_fails(
                    self@,
                    old(self).nonce as nat,
                ),
            decreases u64::MAX - self.nonce,
        {
            if has_leading_zeros(self.hash.as_str(), self.difficulty) {
                return true;
            }
            if self.nonce == u64::MAX {
                return false;
            }
            let ghost before = self@;
            self.nonce = self.nonce + 1;
            self.hash = self.compute_hash();
            proof {
                assert(preimage(self@, start.nonce) == preimage(start, start.nonce));
                assert(preimage(self@, before.nonce) == preimage(before, before.nonce));
            }
            assert forall|n: nat| old(self).nonce < n < self.nonce implies #[trigger] nonce_fails(
                self@,
                n,
            ) by {
                assert(preimage(self@, n) == preimage(before, n));
                if n < before.nonce {
                    assert(nonce_fails(before, n));
                }
            }
        }
    }

    /// Whether this block passes the three checks against a predecessor whose
    /// hash is `previous_hash`, given `recomputed`, the digest of its
    /// contents: stored hash equals `recomputed`, linkage, proof of work.
    pub fn passes_checks(&self, previous_hash: &String, recomputed: &String) -> (r: bool)
        ensures
            r == (self.hash@ == recomputed@ && self.previous_hash@ == previous_hash@
                && meets_difficulty(self.hash@, self.difficulty as nat)),
    {
        self.hash == *recomputed && self.previous_hash == *previous_hash && has_leading_zeros(
            self.hash.as_str(),
            self.difficulty,
        )
    }

    /// Whether this block soundly follows `previous`.
    pub fn links_to_block(&self, previous: &Block) -> (r: bool)
        ensures
            r == links_to(self@, previous.hash@),
    {
        let recomputed = self.compute_hash();
        self.passes_checks(&previous.hash, &recomputed)
    }
    /// Which check this block fails against `previous`, if any.
    pub fn fault_against(&self, previous: &Block) -> (r: Option<BlockFault>)
        ensures
            r == fault_of(self@, previous.hash@),
            r is None <==> links_to(self@, previous.hash@),
    {
        let recomputed = self.compute_hash();
        if self.hash != recomputed {
            Some(BlockFault::HashMismatch)
        } else if self.previous_hash != previous.hash {
            Some(BlockFault::BrokenLink)
        } else if !has_leading_zeros(self.hash.as_str(), self.difficulty) {
            Some(BlockFault::InsufficientWork)
        } else {
            None
        }
    }
}

} // verus!
