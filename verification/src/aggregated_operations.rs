//! Aggregated operations: batched, range-of-blocks instructions destined for
//! the base chain.
//!
//! Each variant carries a contiguous, ordered block range. Ranges for the
//! same action type never overlap and are strictly increasing; a later
//! operation's first block is the immediate successor of the previous
//! operation's last block for that action type.

use vstd::prelude::*;

use crate::block::Block;

verus! {

/// The four kinds of aggregated operation.
#[derive(Clone, Copy, Debug, PartialEq, Eq, Structural)]
pub enum AggregatedActionType {
    CommitBlocks,
    CreateProofBlocks,
    PublishProofBlocksOnchain,
    ExecuteBlocks,
}

/// Commit a contiguous batch of sealed blocks to the base chain.
#[derive(Clone, Debug)]
pub struct BlocksCommitOperation {
    /// The last block already committed, immediately preceding `blocks`.
    pub last_committed_block: Block,
    /// The blocks to commit, in order.
    pub blocks: Vec<Block>,
}

/// Ask the proof system for an aggregated proof over a batch of blocks.
#[derive(Clone, Debug)]
pub struct BlocksCreateProofOperation {
    /// The proven blocks covered by the aggregate proof, in order.
    pub blocks: Vec<Block>,
    /// Placeholder proof slots needed to reach the selected aggregate size.
    pub proofs_to_pad: u64,
}

/// Publish an aggregated proof for a batch of blocks on the base chain.
#[derive(Clone, Debug)]
pub struct BlocksProofOperation {
    /// The blocks covered by the proof, in order.
    pub blocks: Vec<Block>,
    /// The serialized aggregate proof.
    pub proof: Vec<u8>,
}

/// Execute a contiguous batch of published blocks on the base chain.
#[derive(Clone, Debug)]
pub struct BlocksExecuteOperation {
    /// The blocks to execute, in order.
    pub blocks: Vec<Block>,
}

/// A planner decision, persisted once and immutable thereafter.
#[derive(Clone, Debug)]
pub enum AggregatedOperation {
    CommitBlocks(BlocksCommitOperation),
    CreateProofBlocks(BlocksCreateProofOperation),
    PublishProofBlocksOnchain(BlocksProofOperation),
    ExecuteBlocks(BlocksExecuteOperation),
}

impl BlocksCommitOperation {
    pub open spec fn spec_eq(self, other: BlocksCommitOperation) -> bool {
        self.last_committed_block == other.last_committed_block && self.blocks@ == other.blocks@
    }
}

impl BlocksCreateProofOperation {
    pub open spec fn spec_eq(self, other: BlocksCreateProofOperation) -> bool {
        self.blocks@ == other.blocks@ && self.proofs_to_pad == other.proofs_to_pad
    }
}

impl BlocksProofOperation {
    pub open spec fn spec_eq(self, other: BlocksProofOperation) -> bool {
        self.blocks@ == other.blocks@ && self.proof@ == other.proof@
    }
}

impl BlocksExecuteOperation {
    pub open spec fn spec_eq(self, other: BlocksExecuteOperation) -> bool {
        self.blocks@ == other.blocks@
    }
}

impl AggregatedOperation {
    /// The action type of this operation.
    pub open spec fn spec_action_type(self) -> AggregatedActionType {
        match self {
            AggregatedOperation::CommitBlocks(_) => AggregatedActionType::CommitBlocks,
            AggregatedOperation::CreateProofBlocks(_) => AggregatedActionType::CreateProofBlocks,
            AggregatedOperation::PublishProofBlocksOnchain(_) => (
                AggregatedActionType::PublishProofBlocksOnchain
            ),
            AggregatedOperation::ExecuteBlocks(_) => AggregatedActionType::ExecuteBlocks,
        }
    }

    /// The ordered block list carried by this operation.
    pub open spec fn spec_blocks(self) -> Seq<Block> {
        match self {
            AggregatedOperation::CommitBlocks(op) => op.blocks@,
            AggregatedOperation::CreateProofBlocks(op) => op.blocks@,
            AggregatedOperation::PublishProofBlocksOnchain(op) => op.blocks@,
            AggregatedOperation::ExecuteBlocks(op) => op.blocks@,
        }
    }

    /// First block number covered by this operation.
    pub open spec fn spec_first_block(self) -> int {
        self.spec_blocks().first().block_number as int
    }

    /// Last block number covered by this operation.
    pub open spec fn spec_last_block(self) -> int {
        self.spec_blocks().last().block_number as int
    }

    /// The operation carries at least one block, and the blocks form a
    /// contiguous, ordered range.
    pub open spec fn wf(self) -> bool {
        &&& self.spec_blocks().len() > 0
        &&& forall|i: int|
            0 <= i < self.spec_blocks().len() ==> #[trigger] self.spec_blocks()[i].block_number
                == self.spec_first_block() + i
    }

    pub open spec fn spec_eq(self, other: AggregatedOperation) -> bool {
        match (self, other) {
            (AggregatedOperation::CommitBlocks(a), AggregatedOperation::CommitBlocks(b)) => (
                a.spec_eq(b)
            ),
            (
                AggregatedOperation::CreateProofBlocks(a),
                AggregatedOperation::CreateProofBlocks(b),
            ) => a.spec_eq(b),
            (
                AggregatedOperation::PublishProofBlocksOnchain(a),
                AggregatedOperation::PublishProofBlocksOnchain(b),
            ) => a.spec_eq(b),
            (AggregatedOperation::ExecuteBlocks(a), AggregatedOperation::ExecuteBlocks(b)) => (
                a.spec_eq(b)
            ),
            _ => false,
        }
    }

    /// A deep copy whose contents equal this operation's.
    pub fn duplicate(&self) -> (r: AggregatedOperation)
        ensures
            r.spec_eq(*self),
            r.spec_action_type() == self.spec_action_type(),
            r.spec_blocks() == self.spec_blocks(),
    {
        match self {
            AggregatedOperation::CommitBlocks(op) => AggregatedOperation::CommitBlocks(
                BlocksCommitOperation {
                    last_committed_block: op.last_committed_block,
                    blocks: op.blocks.clone(),
                },
            ),
            AggregatedOperation::CreateProofBlocks(op) => AggregatedOperation::CreateProofBlocks(
                BlocksCreateProofOperation {
                    blocks: op.blocks.clone(),
                    proofs_to_pad: op.proofs_to_pad,
                },
            ),
            AggregatedOperation::PublishProofBlocksOnchain(op) => (
                AggregatedOperation::PublishProofBlocksOnchain(
                    BlocksProofOperation { blocks: op.blocks.clone(), proof: op.proof.clone() },
                )
            ),
            AggregatedOperation::ExecuteBlocks(op) => AggregatedOperation::ExecuteBlocks(
                BlocksExecuteOperation { blocks: op.blocks.clone() },
            ),
        }
    }

    /// The action type of this operation.
    pub fn get_action_type(&self) -> (r: AggregatedActionType)
        ensures
            r == self.spec_action_type(),
    {
        match self {
            AggregatedOperation::CommitBlocks(_) => AggregatedActionType::CommitBlocks,
            AggregatedOperation::CreateProofBlocks(_) => AggregatedActionType::CreateProofBlocks,
            AggregatedOperation::PublishProofBlocksOnchain(_) => (
                AggregatedActionType::PublishProofBlocksOnchain
            ),
            AggregatedOperation::ExecuteBlocks(_) => AggregatedActionType::ExecuteBlocks,
        }
    }

    /// The `[first_block, last_block]` range covered by this operation.
    pub fn get_block_range(&self) -> (r: (u32, u32))
        requires
            self.spec_blocks().len() > 0,
        ensures
            r.0 == self.spec_first_block(),
            r.1 == self.spec_last_block(),
    {
        let blocks: &Vec<Block> = match self {
            AggregatedOperation::CommitBlocks(op) => &op.blocks,
            AggregatedOperation::CreateProofBlocks(op) => &op.blocks,
            AggregatedOperation::PublishProofBlocksOnchain(op) => &op.blocks,
            AggregatedOperation::ExecuteBlocks(op) => &op.blocks,
        };
        (blocks[0].block_number, blocks[blocks.len() - 1].block_number)
    }
}

/// Executable deep equality over block lists.
pub fn blocks_eq(a: &Vec<Block>, b: &Vec<Block>) -> (r: bool)
    ensures
        r == (a@ =~= b@),
{
    if a.len() != b.len() {
        return false;
    }
    let mut i: usize = 0;
    while i < a.len()
        invariant
            0 <= i <= a.len(),
            a@.len() == b@.len(),
            forall|j: int| 0 <= j < i ==> a@[j] == b@[j],
        decreases a@.len() - i,
    {
        if a[i] != b[i] {
            return false;
        }
        i = i + 1;
    }
    true
}

/// Executable deep equality over byte strings.
pub fn bytes_eq(a: &Vec<u8>, b: &Vec<u8>) -> (r: bool)
    ensures
        r == (a@ =~= b@),
{
    if a.len() != b.len() {
        return false;
    }
    let mut i: usize = 0;
    while i < a.len()
        invariant
            0 <= i <= a.len(),
            a@.len() == b@.len(),
            forall|j: int| 0 <= j < i ==> a@[j] == b@[j],
        decreases a@.len() - i,
    {
        if a[i] != b[i] {
            return false;
        }
        i = i + 1;
    }
    true
}

impl PartialEq for BlocksCommitOperation {
    fn eq(&self, other: &BlocksCommitOperation) -> (r: bool) {
        self.last_committed_block == other.last_committed_block && blocks_eq(
            &self.blocks,
            &other.blocks,
        )
    }
}

impl vstd::std_specs::cmp::PartialEqSpecImpl for BlocksCommitOperation {
    open spec fn obeys_eq_spec() -> bool {
        true
    }

    open spec fn eq_spec(&self, other: &BlocksCommitOperation) -> bool {
        self.spec_eq(*other)
    }
}

impl PartialEq for BlocksCreateProofOperation {
    fn eq(&self, other: &BlocksCreateProofOperation) -> (r: bool) {
        self.proofs_to_pad == other.proofs_to_pad && blocks_eq(&self.blocks, &other.blocks)
    }
}

impl vstd::std_specs::cmp::PartialEqSpecImpl for BlocksCreateProofOperation {
    open spec fn obeys_eq_spec() -> bool {
        true
    }

    open spec fn eq_spec(&self, other: &BlocksCreateProofOperation) -> bool {
        self.spec_eq(*other)
    }
}

impl PartialEq for BlocksProofOperation {
    fn eq(&self, other: &BlocksProofOperation) -> (r: bool) {
        blocks_eq(&self.blocks, &other.blocks) && bytes_eq(&self.proof, &other.proof)
    }
}

impl vstd::std_specs::cmp::PartialEqSpecImpl for BlocksProofOperation {
    open spec fn obeys_eq_spec() -> bool {
        true
    }

    open spec fn eq_spec(&self, other: &BlocksProofOperation) -> bool {
        self.spec_eq(*other)
    }
}

impl PartialEq for BlocksExecuteOperation {
    fn eq(&self, other: &BlocksExecuteOperation) -> (r: bool) {
        blocks_eq(&self.blocks, &other.blocks)
    }
}

impl vstd::std_specs::cmp::PartialEqSpecImpl for BlocksExecuteOperation {
    open spec fn obeys_eq_spec() -> bool {
        true
    }

    open spec fn eq_spec(&self, other: &BlocksExecuteOperation) -> bool {
        self.spec_eq(*other)
    }
}

impl PartialEq for AggregatedOperation {
    fn eq(&self, other: &AggregatedOperation) -> (r: bool) {
        match (self, other) {
            (AggregatedOperation::CommitBlocks(a), AggregatedOperation::CommitBlocks(b)) => a == b,
            (
                AggregatedOperation::CreateProofBlocks(a),
                AggregatedOperation::CreateProofBlocks(b),
            ) => a == b,
            (
                AggregatedOperation::PublishProofBlocksOnchain(a),
                AggregatedOperation::PublishProofBlocksOnchain(b),
            ) => a == b,
            (AggregatedOperation::ExecuteBlocks(a), AggregatedOperation::ExecuteBlocks(b)) => a
                == b,
            _ => false,
        }
    }
}

impl vstd::std_specs::cmp::PartialEqSpecImpl for AggregatedOperation {
    open spec fn obeys_eq_spec() -> bool {
        true
    }

    open spec fn eq_spec(&self, other: &AggregatedOperation) -> bool {
        self.spec_eq(*other)
    }
}

} // verus!
