//! The ledger: an append-only chain of blocks plus a pool of pending
//! transfers, with chain validation and balance queries.

use vstd::prelude::*;

use crate::block::{is_sealed, links_to, meets_difficulty, nonce_fails, preimage, Block, BlockModel};
use crate::transfer::{Transfer, TransferModel};

verus! {

/// The mathematical content of a [`Ledger`].
pub struct LedgerModel {
    pub blocks: Seq<BlockModel>,
    pub difficulty: nat,
    pub pending: Seq<TransferModel>,
    pub reward_amount: int,
}

/// A chain of blocks whose first block is the genesis block, the difficulty
/// applied to newly mined blocks, the transfers waiting to be mined, and the
/// reward paid to the miner of each new block.
pub struct Ledger {
    pub blocks: Vec<Block>,
    pub difficulty: usize,
    pub pending: Vec<Transfer>,
    pub reward_amount: i64,
}

impl View for Ledger {
    type V = LedgerModel;

    open spec fn view(&self) -> LedgerModel {
        LedgerModel {
            blocks: self.blocks@.map_values(|b: Block| b@),
            difficulty: self.difficulty as nat,
            pending: self.pending@.map_values(|t: Transfer| t@),
            reward_amount: self.reward_amount as int,
        }
    }
}

/// Every block after the first soundly follows its predecessor.
pub open spec fn chain_valid(blocks: Seq<BlockModel>) -> bool {
    forall|i: int| 1 <= i < blocks.len() ==> #[trigger] links_to(blocks[i], blocks[i - 1].hash)
}

/// `b` was mined: sealed, and meeting its difficulty unless every nonce
/// from 0 up to `u64::MAX` failed.
pub open spec fn mined_or_exhausted(b: BlockModel) -> bool {
    &&& is_sealed(b)
    &&& (meets_difficulty(b.hash, b.difficulty) || (b.nonce == u64::MAX && forall|n: nat|
        n <= u64::MAX ==> #[trigger] nonce_fails(b, n)))
}

/// A system transfer of `amount` to `receiver`.
pub open spec fn is_system_transfer(t: TransferModel, receiver: Seq<char>, amount: int) -> bool {
    &&& t.sender == "System"@
    &&& t.receiver == receiver
    &&& t.amount == amount
}

/// `b` is the block that mining the pending pool of `before` for `miner`
/// builds: it follows the latest block with the next index, holds the
/// pending transfers in order followed by the miner's reward, and carries
/// the ledger's difficulty.
pub open spec fn builds_on(b: BlockModel, before: LedgerModel, miner: Seq<char>) -> bool {
    &&& b.sequence_index == before.blocks.len()
    &&& b.previous_hash == before.blocks.last().hash
    &&& b.transfers.len() == before.pending.len() + 1
    &&& b.transfers.drop_last() == before.pending
    &&& is_system_transfer(b.transfers.last(), miner, before.reward_amount)
    &&& b.difficulty == before.difficulty
}

/// What transfer `t` changes in the balance of `address`: minus the amount
/// when it is the sender, plus the amount when it is the receiver.
pub open spec fn transfer_delta(t: TransferModel, address: Seq<char>) -> int {
    (if t.receiver == address { t.amount } else { 0 }) - (if t.sender == address { t.amount } else { 0 })
}

/// The net effect of `ts` on the balance of `address`.
pub open spec fn transfers_balance(ts: Seq<TransferModel>, address: Seq<char>) -> int
    decreases ts.len(),
{
    if ts.len() == 0 {
        0
    } else {
        transfers_balance(ts.drop_last(), address) + transfer_delta(ts.last(), address)
    }
}

/// The balance of `address` over every transfer of every block, in chain order.
pub open spec fn chain_balance(blocks: Seq<BlockModel>, address: Seq<char>) -> int
    decreases blocks.len(),
{
    if blocks.len() == 0 {
        0
    } else {
        chain_balance(blocks.drop_last(), address) + transfers_balance(blocks.last().transfers, address)
    }
}

/// The number of transfers held by `blocks`.
pub open spec fn transfer_count(blocks: Seq<BlockModel>) -> nat
    decreases blocks.len(),
{
    if blocks.len() == 0 {
        0
    } else {
        transfer_count(blocks.drop_last()) + blocks.last().transfers.len()
    }
}

/// The largest magnitude an `i64` amount can have.
pub open spec fn amount_bound() -> int {
    0x8000_0000_0000_0000
}

/// In a valid chain every block after the first names its predecessor's
/// hash as its previous hash.
pub proof fn lemma_valid_chain_is_linked(blocks: Seq<BlockModel>)
    requires
        chain_valid(blocks),
    ensures
        forall|i: int| 1 <= i < blocks.len() ==> #[trigger] blocks[i].previous_hash == blocks[i
            - 1].hash,
{
    assert forall|i: int| 1 <= i < blocks.len() implies #[trigger] blocks[i].previous_hash
        == blocks[i - 1].hash by {
        assert(links_to(blocks[i], blocks[i - 1].hash));
    }
}

/// Appending a block that soundly follows the last one keeps a chain valid.
pub proof fn lemma_append_keeps_valid(blocks: Seq<BlockModel>, b: BlockModel)
    requires
        chain_valid(blocks),
        blocks.len() >= 1,
        links_to(b, blocks.last().hash),
    ensures
        chain_valid(blocks.push(b)),
{
    let grown = blocks.push(b);
    assert forall|i: int| 1 <= i < grown.len() implies #[trigger] links_to(
        grown[i],
        grown[i - 1].hash,
    ) by {
        if i < blocks.len() {
            assert(links_to(blocks[i], blocks[i - 1].hash));
        }
    }
}

/// Validation depends on the ledger's contents alone: two ledgers with the
/// same contents, such as one ledger checked twice with no change between,
/// get the same verdict.
pub proof fn lemma_validation_repeatable(a: LedgerModel, b: LedgerModel)
    requires
        a == b,
    ensures
        chain_valid(a.blocks) == chain_valid(b.blocks),
{
}

proof fn lemma_count_prefix(blocks: Seq<BlockModel>, i: int)
    requires
        0 <= i <= blocks.len(),
    ensures
        transfer_count(blocks.take(i)) <= transfer_count(blocks),
    decreases blocks.len(),
{
    if i < blocks.len() {
        lemma_count_prefix(blocks.drop_last(), i);
        assert(blocks.drop_last().take(i) =~= blocks.take(i));
    } else {
        assert(blocks.take(i) =~= blocks);
    }
}

impl Ledger {
    /// The chain is not empty, so it has a latest block.
    pub open spec fn well_formed(&self) -> bool {
        self.blocks@.len() >= 1
    }

    /// A ledger whose chain holds only a mined genesis block: index 0,
    /// previous hash `"0"`, and one zero-value transfer from `System` to
    /// `Genesis`.
    pub fn new(difficulty: usize, reward_amount: i64) -> (r: Ledger)
        ensures
            r.well_formed(),
            r@.blocks.len() == 1,
            r@.blocks[0].sequence_index == 0,
            r@.blocks[0].previous_hash == "0"@,
            r@.blocks[0].transfers.len() == 1,
            is_system_transfer(r@.blocks[0].transfers[0], "Genesis"@, 0),
            r@.blocks[0].difficulty == difficulty,
            mined_or_exhausted(r@.blocks[0]),
            r@.difficulty == difficulty,
            r@.pending.len() == 0,
            r@.reward_amount == reward_amount,
    {
        let genesis_transfer = Transfer::new("System".to_owned(), "Genesis".to_owned(), 0);
        let mut transfers: Vec<Transfer> = Vec::new();
        transfers.push(genesis_transfer);
        let mut genesis = Block::new(0, transfers, "0".to_owned(), difficulty);
        genesis.mine();
        let mut blocks: Vec<Block> = Vec::new();
        blocks.push(genesis);
        Ledger { blocks, difficulty, pending: Vec::new(), reward_amount }
    }

    /// Queues `transfer` for the next mined block.
    pub fn submit(&mut self, transfer: Transfer)
        ensures
            final(self).blocks@ == old(self).blocks@,
            final(self).difficulty == old(self).difficulty,
            final(self).reward_amount == old(self).reward_amount,
            final(self).pending@ == old(self).pending@.push(transfer),
    {
        self.pending.push(transfer);
    }

    /// The last block of the chain.
    pub fn latest_block(&self) -> (r: &Block)
        requires
            self.well_formed(),
        ensures
            *r == self.blocks@.last(),
    {
        &self.blocks[self.blocks.len() - 1]
    }
    /// Drains the pending pool, plus a reward transfer of `reward_amount`
    /// from `System` to `miner_address`, into a new block that follows the
    /// latest one, mines it at the current difficulty, and appends it
    /// (`true`). Only when no nonce up to `u64::MAX` meets the difficulty is
    /// nothing appended and the ledger left as it was (`false`); at
    /// difficulty 0 mining always succeeds.
    pub fn mine_pending(&mut self, miner_address: String) -> (mined: bool)
        requires
            old(self).well_formed(),
            old(self).blocks@.len() < u64::MAX,
        ensures
            final(self).difficulty == old(self).difficulty,
            final(self).reward_amount == old(self).reward_amount,
            final(self).well_formed(),
            old(self).difficulty == 0 ==> mined,
            mined ==> {
                let b = final(self)@.blocks.last();
                &&& final(self)@.blocks == old(self)@.blocks.push(b)
                &&& builds_on(b, old(self)@, miner_address@)
                &&& is_sealed(b)
                &&& meets_difficulty(b.hash, b.difficulty)
                &&& final(self)@.pending.len() == 0
                &&& chain_valid(old(self)@.blocks) ==> chain_valid(final(self)@.blocks)
                &&& forall|a: Seq<char>|
                    #[trigger] chain_balance(final(self)@.blocks, a) == chain_balance(
                        old(self)@.blocks,
                        a,
                    ) + transfers_balance(b.transfers, a)
            },
            !mined ==> {
                &&& final(self)@ == old(self)@
                &&& exists|b: BlockModel|
                    #[trigger] builds_on(b, old(self)@, miner_address@) && forall|n: nat|
                        n <= u64::MAX ==> #[trigger] nonce_fails(b, n)
            },
    {
        let ghost miner = miner_address@;
        let reward = Transfer::new("System".to_owned(), miner_address, self.reward_amount);
        let mut batch: Vec<Transfer> = Vec::new();
        std::mem::swap(&mut batch, &mut self.pending);
        batch.push(reward);
        let previous_hash = self.latest_block().hash.clone();
        let index = self.blocks.len() as u64;
        let mut block = Block::new(index, batch, previous_hash, self.difficulty);
        let ghost built = block@;
        proof {
            assert(built.transfers.drop_last() =~= old(self)@.pending);
            assert(builds_on(built, old(self)@, miner));
        }
        if block.mine() {
            self.blocks.push(block);
            proof {
                let b = self@.blocks.last();
                assert(self@.blocks =~= old(self)@.blocks.push(b));
                assert(b.transfers == built.transfers);
                assert(self@.pending =~= Seq::<TransferModel>::empty());
                if chain_valid(old(self)@.blocks) {
                    lemma_append_keeps_valid(old(self)@.blocks, b);
                }
                assert forall|a: Seq<char>|
                    #[trigger] chain_balance(self@.blocks, a) == chain_balance(old(self)@.blocks, a)
                        + transfers_balance(b.transfers, a) by {
                    assert(self@.blocks.drop_last() =~= old(self)@.blocks);
                }
            }
            true
        } else {
            proof {
                let b = block@;
                assert(b.transfers == built.transfers);
                assert(builds_on(b, old(self)@, miner));
                assert forall|n: nat| n <= u64::MAX implies #[trigger] nonce_fails(b, n) by {
                    assert(preimage(b, n) == preimage(built, n));
                    if n == 0 {
                        assert(nonce_fails(built, 0));
                    }
                }
            }
            let mut restored = block.transfers;
            restored.pop();
            self.pending = restored;
            proof {
                assert(self.pending@ =~= old(self).pending@);
                assert(self@.pending =~= old(self)@.pending);
                assert(self@.blocks =~= old(self)@.blocks);
            }
            false
        }
    }

    /// The first index `i >= 1` whose block does not soundly follow block
    /// `i - 1`, or `None` when the whole chain is valid.
    pub fn first_invalid(&self) -> (r: Option<usize>)
        ensures
            r is None <==> chain_valid(self@.blocks),
            r matches Some(i) ==> {
                &&& 1 <= i < self@.blocks.len()
                &&& !links_to(self@.blocks[i as int], self@.blocks[i - 1].hash)
                &&& forall|j: int| 1 <= j < i ==> #[trigger] links_to(
                    self@.blocks[j],
                    self@.blocks[j - 1].hash,
                )
            },
    {
        let mut i: usize = 1;
        while i < self.blocks.len()
            invariant
                1 <= i,
                i <= self.blocks@.len() || self.blocks@.len() == 0,
                forall|j: int| 1 <= j < i && j < self@.blocks.len() ==> #[trigger] links_to(
                    self@.blocks[j],
                    self@.blocks[j - 1].hash,
                ),
            decreases self.blocks@.len() - i,
        {
            if !self.blocks[i].links_to_block(&self.blocks[i - 1]) {
                assert(!links_to(self@.blocks[i as int], self@.blocks[i - 1].hash));
                assert(!chain_valid(self@.blocks));
                return Some(i);
            }
            i = i + 1;
        }
        None
    }

    /// Whether every block after the first has its digest as its hash, names
    /// its predecessor's hash, and meets its difficulty.
    pub fn is_valid(&self) -> (r: bool)
        ensures
            r == chain_valid(self@.blocks),
    {
        self.first_invalid().is_none()
    }
    /// The net signed sum of every transfer in the chain that names
    /// `address`: amounts it sent are subtracted, amounts it received added;
    /// 0 for an address that never appears. The total is kept in an `i128`,
    /// which holds it for any chain of at most `u64::MAX` transfers.
    pub fn balance_of(&self, address: &str) -> (r: i128)
        requires
            transfer_count(self@.blocks) <= u64::MAX,
        ensures
            r == chain_balance(self@.blocks, address@),
    {
        let ghost blocks = self@.blocks;
        let who = address.to_owned();
        let mut balance: i128 = 0;
        let mut i: usize = 0;
        while i < self.blocks.len()
            invariant
                i <= self.blocks@.len(),
                blocks == self@.blocks,
                who@ == address@,
                transfer_count(blocks) <= u64::MAX,
                balance == chain_balance(blocks.take(i as int), address@),
                -(transfer_count(blocks.take(i as int)) * amount_bound()) <= balance
                    <= transfer_count(blocks.take(i as int)) * amount_bound(),
            decreases self.blocks@.len() - i,
        {
            let block = &self.blocks[i];
            let ghost ts = blocks[i as int].transfers;
            let ghost before = balance;
            let ghost done = transfer_count(blocks.take(i as int));
            proof {
                assert(blocks.take(i + 1).drop_last() =~= blocks.take(i as int));
                lemma_count_prefix(blocks, i + 1);
            }
            let mut j: usize = 0;
            while j < block.transfers.len()
                invariant
                    j <= block.transfers@.len(),
                    ts == block@.transfers,
                    ts.len() == block.transfers@.len(),
                    who@ == address@,
                    done + ts.len() <= u64::MAX,
                    balance == before + transfers_balance(ts.take(j as int), address@),
                    -((done + j) * amount_bound()) <= balance <= (done + j) * amount_bound(),
                decreases block.transfers@.len() - j,
            {
                let t = &block.transfers[j];
                let mut delta: i128 = 0;
                if t.receiver == who {
                    delta = delta + t.amount as i128;
                }
                if t.sender == who {
                    delta = delta - t.amount as i128;
                }
                proof {
                    assert(ts.take(j + 1).drop_last() =~= ts.take(j as int));
                    assert(delta == transfer_delta(ts[j as int], address@));
                    assert(-amount_bound() <= delta <= amount_bound());
                    assert((done + j + 1) * amount_bound() == (done + j) * amount_bound()
                        + amount_bound()) by (nonlinear_arith);
                    assert((done + j + 1) * amount_bound() <= 0x1_0000_0000_0000_0000
                        * amount_bound()) by (nonlinear_arith)
                        requires
                            done + j + 1 <= 0x1_0000_0000_0000_0000,
                    ;
                }
                balance = balance + delta;
                j = j + 1;
            }
            proof {
                assert(ts.take(j as int) =~= ts);
            }
            i = i + 1;
        }
        assert(blocks.take(i as int) =~= blocks);
        balance
    }
}

} // verus!
