use vstd::prelude::*;

use crate::crypto::{zero_hash, zeros, SaitoHash, SaitoPublicKey, SaitoSignature};
use crate::transaction::Transaction;

verus! {

/// What a `BlockCore` holds, with each byte array taken as a sequence.
pub struct BlockCoreView {
    pub id: u64,
    pub timestamp: u64,
    pub previous_block_hash: Seq<u8>,
    pub creator: Seq<u8>,
    pub merkle_root: Seq<u8>,
    pub signature: Seq<u8>,
    pub treasury: u64,
    pub burnfee: u64,
    pub difficulty: u64,
}

impl BlockCoreView {
    /// The core of a block that nothing has been written to yet.
    pub open spec fn empty() -> BlockCoreView {
        BlockCoreView {
            id: 0,
            timestamp: 0,
            previous_block_hash: zeros(32),
            creator: zeros(33),
            merkle_root: zeros(32),
            signature: zeros(64),
            treasury: 0,
            burnfee: 0,
            difficulty: 0,
        }
    }
}

/// What a `Block` holds: its core, the network form of each of its
/// transactions, its own hash and its longest-chain flag.
pub struct BlockView {
    pub core: BlockCoreView,
    pub transactions: Seq<Seq<u8>>,
    pub hash: Seq<u8>,
    pub lc: bool,
}

impl BlockView {
    /// Each byte array has the length of the array it stands for.
    pub open spec fn well_formed(self) -> bool {
        &&& self.hash.len() == 32
        &&& self.core.previous_block_hash.len() == 32
        &&& self.core.creator.len() == 33
        &&& self.core.merkle_root.len() == 32
        &&& self.core.signature.len() == 64
    }

    /// The block that `Block::new` gives.
    pub open spec fn empty() -> BlockView {
        BlockView {
            core: BlockCoreView::empty(),
            transactions: Seq::empty(),
            hash: zeros(32),
            lc: false,
        }
    }

    /// This block with its id replaced.
    pub open spec fn with_id(self, id: u64) -> BlockView {
        BlockView { core: BlockCoreView { id: id, ..self.core }, ..self }
    }

    /// This block with its timestamp replaced.
    pub open spec fn with_timestamp(self, timestamp: u64) -> BlockView {
        BlockView { core: BlockCoreView { timestamp: timestamp, ..self.core }, ..self }
    }

    /// This block with the hash of its parent replaced.
    pub open spec fn with_previous_block_hash(self, previous_block_hash: Seq<u8>) -> BlockView {
        BlockView {
            core: BlockCoreView { previous_block_hash: previous_block_hash, ..self.core },
            ..self
        }
    }

    /// This block with its own hash replaced.
    pub open spec fn with_hash(self, hash: Seq<u8>) -> BlockView {
        BlockView { hash: hash, ..self }
    }
}

/// A new block holds nothing: every number in its core is 0, every byte
/// array is all zero bytes of its array's length, it has no transactions, a
/// zero hash, is off the longest chain, and its core is a new core.
pub proof fn law_new_block_is_all_zero()
    ensures
        BlockView::empty().core == BlockCoreView::empty(),
        BlockCoreView::empty().id == 0,
        BlockCoreView::empty().timestamp == 0,
        BlockCoreView::empty().treasury == 0,
        BlockCoreView::empty().burnfee == 0,
        BlockCoreView::empty().difficulty == 0,
        BlockCoreView::empty().previous_block_hash.len() == 32,
        BlockCoreView::empty().creator.len() == 33,
        BlockCoreView::empty().merkle_root.len() == 32,
        BlockCoreView::empty().signature.len() == 64,
        forall|i: int| 0 <= i < 32 ==> #[trigger] BlockCoreView::empty().previous_block_hash[i] == 0u8,
        forall|i: int| 0 <= i < 33 ==> #[trigger] BlockCoreView::empty().creator[i] == 0u8,
        forall|i: int| 0 <= i < 32 ==> #[trigger] BlockCoreView::empty().merkle_root[i] == 0u8,
        forall|i: int| 0 <= i < 64 ==> #[trigger] BlockCoreView::empty().signature[i] == 0u8,
        BlockView::empty().transactions.len() == 0,
        BlockView::empty().hash.len() == 32,
        forall|i: int| 0 <= i < 32 ==> #[trigger] BlockView::empty().hash[i] == 0u8,
        !BlockView::empty().lc,
{
}

/// Each setter writes its own field and leaves every other field of the
/// block, core and transactions included, as it was.
pub proof fn law_setters_change_only_their_field(
    block: BlockView,
    id: u64,
    timestamp: u64,
    previous_block_hash: Seq<u8>,
)
    ensures
        ({
            let b = block.with_id(id);
            &&& b.core.id == id
            &&& b.core.timestamp == block.core.timestamp
            &&& b.core.previous_block_hash == block.core.previous_block_hash
            &&& b.core.creator == block.core.creator
            &&& b.core.merkle_root == block.core.merkle_root
            &&& b.core.signature == block.core.signature
            &&& b.core.treasury == block.core.treasury
            &&& b.core.burnfee == block.core.burnfee
            &&& b.core.difficulty == block.core.difficulty
            &&& b.transactions == block.transactions
            &&& b.hash == block.hash
            &&& b.lc == block.lc
        }),
        ({
            let b = block.with_timestamp(timestamp);
            &&& b.core.id == block.core.id
            &&& b.core.timestamp == timestamp
            &&& b.core.previous_block_hash == block.core.previous_block_hash
            &&& b.core.creator == block.core.creator
            &&& b.core.merkle_root == block.core.merkle_root
            &&& b.core.signature == block.core.signature
            &&& b.core.treasury == block.core.treasury
            &&& b.core.burnfee == block.core.burnfee
            &&& b.core.difficulty == block.core.difficulty
            &&& b.transactions == block.transactions
            &&& b.hash == block.hash
            &&& b.lc == block.lc
        }),
        ({
            let b = block.with_previous_block_hash(previous_block_hash);
            &&& b.core.id == block.core.id
            &&& b.core.timestamp == block.core.timestamp
            &&& b.core.previous_block_hash == previous_block_hash
            &&& b.core.creator == block.core.creator
            &&& b.core.merkle_root == block.core.merkle_root
            &&& b.core.signature == block.core.signature
            &&& b.core.treasury == block.core.treasury
            &&& b.core.burnfee == block.core.burnfee
            &&& b.core.difficulty == block.core.difficulty
            &&& b.transactions == block.transactions
            &&& b.hash == block.hash
            &&& b.lc == block.lc
        }),
        ({
            let b = block.with_hash(zeros(32));
            &&& b.core == block.core
            &&& b.transactions == block.transactions
            &&& b.lc == block.lc
            &&& b.hash.len() == 32
            &&& forall|i: int| 0 <= i < 32 ==> #[trigger] b.hash[i] == 0u8
        }),
{
}

/// Writes to different fields of a block do not disturb each other: made in
/// either order, they give the same block.
pub proof fn law_block_writes_commute(block: BlockView, id: u64, timestamp: u64, previous_block_hash: Seq<u8>)
    ensures
        block.with_id(id).with_timestamp(timestamp) == block.with_timestamp(timestamp).with_id(id),
        block.with_id(id).with_previous_block_hash(previous_block_hash)
            == block.with_previous_block_hash(previous_block_hash).with_id(id),
        block.with_timestamp(timestamp).with_previous_block_hash(previous_block_hash)
            == block.with_previous_block_hash(previous_block_hash).with_timestamp(timestamp),
        block.with_id(id).with_hash(zeros(32)) == block.with_hash(zeros(32)).with_id(id),
{
}

/// A field reads back what was last written to it.
pub proof fn law_block_read_after_write(block: BlockView, id: u64, timestamp: u64, previous_block_hash: Seq<u8>)
    ensures
        block.with_id(id).core.id == id,
        block.with_timestamp(timestamp).core.timestamp == timestamp,
        block.with_previous_block_hash(previous_block_hash).core.previous_block_hash == previous_block_hash,
        block.with_hash(zeros(32)).hash == zeros(32),
{
}

/// Of two writes to the same field of a block, the later one is what stays.
pub proof fn law_block_last_write_wins(
    block: BlockView,
    id1: u64,
    id2: u64,
    timestamp1: u64,
    timestamp2: u64,
    previous1: Seq<u8>,
    previous2: Seq<u8>,
)
    ensures
        block.with_id(id1).with_id(id2) == block.with_id(id2),
        block.with_timestamp(timestamp1).with_timestamp(timestamp2) == block.with_timestamp(timestamp2),
        block.with_previous_block_hash(previous1).with_previous_block_hash(previous2)
            == block.with_previous_block_hash(previous2),
        block.with_hash(zeros(32)).with_hash(zeros(32)) == block.with_hash(zeros(32)),
{
}

/// The consensus-level content of a block.
#[derive(Clone, Debug, PartialEq)]
pub struct BlockCore {
    id: u64,
    timestamp: u64,
    previous_block_hash: SaitoHash,
    creator: SaitoPublicKey,
    merkle_root: SaitoHash,
    signature: SaitoSignature,
    treasury: u64,
    burnfee: u64,
    difficulty: u64,
}

impl View for BlockCore {
    type V = BlockCoreView;

    closed spec fn view(&self) -> BlockCoreView {
        BlockCoreView {
            id: self.id,
            timestamp: self.timestamp,
            previous_block_hash: self.previous_block_hash@,
            creator: self.creator@,
            merkle_root: self.merkle_root@,
            signature: self.signature@,
            treasury: self.treasury,
            burnfee: self.burnfee,
            difficulty: self.difficulty,
        }
    }
}

impl BlockCore {
    /// A core whose numbers and byte arrays are all zero.
    pub fn new() -> (core: BlockCore)
        ensures
            core@ == BlockCoreView::empty(),
    {
        let creator: SaitoPublicKey = [0u8; 33];
        let signature: SaitoSignature = [0u8; 64];
        let core = BlockCore {
            id: 0,
            timestamp: 0,
            previous_block_hash: zero_hash(),
            creator: creator,
            merkle_root: zero_hash(),
            signature: signature,
            treasury: 0,
            burnfee: 0,
            difficulty: 0,
        };
        assert(core@.creator =~= zeros(33));
        assert(core@.signature =~= zeros(64));
        core
    }

    /// A core with the given fields.
    pub fn from_parts(
        id: u64,
        timestamp: u64,
        previous_block_hash: SaitoHash,
        creator: SaitoPublicKey,
        merkle_root: SaitoHash,
        signature: SaitoSignature,
        treasury: u64,
        burnfee: u64,
        difficulty: u64,
    ) -> (core: BlockCore)
        ensures
            core@ == (BlockCoreView {
                id: id,
                timestamp: timestamp,
                previous_block_hash: previous_block_hash@,
                creator: creator@,
                merkle_root: merkle_root@,
                signature: signature@,
                treasury: treasury,
                burnfee: burnfee,
                difficulty: difficulty,
            }),
    {
        BlockCore {
            id,
            timestamp,
            previous_block_hash,
            creator,
            merkle_root,
            signature,
            treasury,
            burnfee,
            difficulty,
        }
    }

    /// The core's fields, in the order `from_parts` takes them.
    pub fn into_parts(self) -> (parts: (u64, u64, SaitoHash, SaitoPublicKey, SaitoHash, SaitoSignature, u64, u64, u64))
        ensures
            self@ == (BlockCoreView {
                id: parts.0,
                timestamp: parts.1,
                previous_block_hash: parts.2@,
                creator: parts.3@,
                merkle_root: parts.4@,
                signature: parts.5@,
                treasury: parts.6,
                burnfee: parts.7,
                difficulty: parts.8,
            }),
    {
        (
            self.id,
            self.timestamp,
            self.previous_block_hash,
            self.creator,
            self.merkle_root,
            self.signature,
            self.treasury,
            self.burnfee,
            self.difficulty,
        )
    }
}

/// A block: its core, its transactions, and what is computed from them.
#[derive(Clone, Debug, PartialEq)]
pub struct Block {
    core: BlockCore,
    transactions: Vec<Transaction>,
    hash: SaitoHash,
    lc: bool,
}

impl View for Block {
    type V = BlockView;

    closed spec fn view(&self) -> BlockView {
        BlockView {
            core: self.core@,
            transactions: self.transactions@.map_values(|tx: Transaction| tx@),
            hash: self.hash@,
            lc: self.lc,
        }
    }
}

impl Block {
    /// An empty block: a zero core, no transactions, a zero hash, off the longest chain.
    pub fn new() -> (block: Block)
        ensures
            block@ == BlockView::empty(),
    {
        let block = Block {
            core: BlockCore::new(),
            transactions: Vec::new(),
            hash: zero_hash(),
            lc: false,
        };
        assert(block@.transactions =~= Seq::<Seq<u8>>::empty());
        block
    }

    /// A block made of the given core, transactions, hash and longest-chain flag.
    pub fn from_parts(core: BlockCore, transactions: Vec<Transaction>, hash: SaitoHash, lc: bool) -> (block: Block)
        ensures
            block@ == (BlockView {
                core: core@,
                transactions: transactions@.map_values(|tx: Transaction| tx@),
                hash: hash@,
                lc: lc,
            }),
    {
        Block { core, transactions, hash, lc }
    }

    /// The block's core, transactions, hash and longest-chain flag.
    pub fn into_parts(self) -> (parts: (BlockCore, Vec<Transaction>, SaitoHash, bool))
        ensures
            parts.0@ == self@.core,
            parts.1@.map_values(|tx: Transaction| tx@) == self@.transactions,
            parts.2@ == self@.hash,
            parts.3 == self@.lc,
    {
        (self.core, self.transactions, self.hash, self.lc)
    }

    /// Every byte array of a block has its array's length.
    pub proof fn lemma_well_formed(&self)
        ensures
            self@.well_formed(),
    {
    }

    /// The hash that the block holds for itself.
    pub fn get_hash(&self) -> (hash: SaitoHash)
        ensures
            hash@ == self@.hash,
    {
        self.hash
    }

    /// The block's id, as held in its core.
    pub fn get_id(&self) -> (id: u64)
        ensures
            id == self@.core.id,
    {
        self.core.id
    }

    /// The hash of the block that this one follows.
    pub fn get_previous_block_hash(&self) -> (hash: SaitoHash)
        ensures
            hash@ == self@.core.previous_block_hash,
    {
        self.core.previous_block_hash
    }

    /// Writes the block's id; nothing else changes.
    pub fn set_id(&mut self, id: u64)
        ensures
            final(self)@ == old(self)@.with_id(id),
    {
        self.core.id = id;
    }

    /// Writes the block's timestamp; nothing else changes.
    pub fn set_timestamp(&mut self, timestamp: u64)
        ensures
            final(self)@ == old(self)@.with_timestamp(timestamp),
    {
        self.core.timestamp = timestamp;
    }

    /// Writes the hash of the block that this one follows; nothing else changes.
    pub fn set_previous_block_hash(&mut self, previous_block_hash: SaitoHash)
        ensures
            final(self)@ == old(self)@.with_previous_block_hash(previous_block_hash@),
    {
        self.core.previous_block_hash = previous_block_hash;
    }

    /// Resets the block's own hash to zero; nothing else changes.
    pub fn set_hash(&mut self)
        ensures
            final(self)@ == old(self)@.with_hash(zeros(32)),
    {
        self.hash = zero_hash();
    }
}

} // verus!
