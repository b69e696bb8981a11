//! Byte codec for persisted aggregated operations.
//!
//! An operation is persisted as a tagged payload: one discriminant byte,
//! the variant's fixed fields, and its block list, all integers
//! little-endian. Decoding accepts exactly the encodings this module
//! produces; anything else is store corruption and decodes to nothing.

use vstd::prelude::*;

use crate::aggregated_operations::{
    AggregatedOperation, BlocksCommitOperation, BlocksCreateProofOperation, BlocksExecuteOperation,
    BlocksProofOperation,
};
use crate::block::Block;

verus! {

/// The mathematical shape of an aggregated operation: what the codec
/// round-trips.
pub enum OpView {
    Commit { last_committed_block: Block, blocks: Seq<Block> },
    CreateProof { blocks: Seq<Block>, proofs_to_pad: u64 },
    Publish { blocks: Seq<Block>, proof: Seq<u8> },
    Execute { blocks: Seq<Block> },
}

impl AggregatedOperation {
    /// The operation's mathematical shape.
    pub open spec fn view_op(self) -> OpView {
        match self {
            AggregatedOperation::CommitBlocks(op) => OpView::Commit {
                last_committed_block: op.last_committed_block,
                blocks: op.blocks@,
            },
            AggregatedOperation::CreateProofBlocks(op) => OpView::CreateProof {
                blocks: op.blocks@,
                proofs_to_pad: op.proofs_to_pad,
            },
            AggregatedOperation::PublishProofBlocksOnchain(op) => OpView::Publish {
                blocks: op.blocks@,
                proof: op.proof@,
            },
            AggregatedOperation::ExecuteBlocks(op) => OpView::Execute { blocks: op.blocks@ },
        }
    }
}

/// A `u64` as eight little-endian bytes.
pub open spec fn enc_u64(x: u64) -> Seq<u8> {
    seq![
        (x & 0xff) as u8,
        ((x >> 8) & 0xff) as u8,
        ((x >> 16) & 0xff) as u8,
        ((x >> 24) & 0xff) as u8,
        ((x >> 32) & 0xff) as u8,
        ((x >> 40) & 0xff) as u8,
        ((x >> 48) & 0xff) as u8,
        ((x >> 56) & 0xff) as u8,
    ]
}

/// The `u64` read from eight little-endian bytes at `i`.
pub open spec fn dec_u64(s: Seq<u8>, i: int) -> u64 {
    (s[i] as u64) | (s[i + 1] as u64) << 8 | (s[i + 2] as u64) << 16 | (s[i + 3] as u64) << 24 | (
    s[i + 4] as u64) << 32 | (s[i + 5] as u64) << 40 | (s[i + 6] as u64) << 48 | (s[i
        + 7] as u64) << 56
}

proof fn lemma_u64_roundtrip(x: u64)
    ensures
        dec_u64(enc_u64(x), 0) == x,
{
    let b0 = (x & 0xff) as u8;
    let b1 = ((x >> 8) & 0xff) as u8;
    let b2 = ((x >> 16) & 0xff) as u8;
    let b3 = ((x >> 24) & 0xff) as u8;
    let b4 = ((x >> 32) & 0xff) as u8;
    let b5 = ((x >> 40) & 0xff) as u8;
    let b6 = ((x >> 48) & 0xff) as u8;
    let b7 = ((x >> 56) & 0xff) as u8;
    assert((b0 as u64) | (b1 as u64) << 8 | (b2 as u64) << 16 | (b3 as u64) << 24 | (b4 as u64)
        << 32 | (b5 as u64) << 40 | (b6 as u64) << 48 | (b7 as u64) << 56 == x) by (bit_vector)
        requires
            b0 == (x & 0xff) as u8,
            b1 == ((x >> 8) & 0xff) as u8,
            b2 == ((x >> 16) & 0xff) as u8,
            b3 == ((x >> 24) & 0xff) as u8,
            b4 == ((x >> 32) & 0xff) as u8,
            b5 == ((x >> 40) & 0xff) as u8,
            b6 == ((x >> 48) & 0xff) as u8,
            b7 == ((x >> 56) & 0xff) as u8,
    ;
}

/// Reading at an offset inside a larger buffer sees the embedded encoding.
proof fn lemma_dec_u64_at(s: Seq<u8>, i: int, x: u64)
    requires
        0 <= i,
        i + 8 <= s.len(),
        s.subrange(i, i + 8) == enc_u64(x),
    ensures
        dec_u64(s, i) == x,
{
    let sub = s.subrange(i, i + 8);
    assert(s[i] == sub[0] && s[i + 1] == sub[1] && s[i + 2] == sub[2] && s[i + 3] == sub[3] && s[i
        + 4] == sub[4] && s[i + 5] == sub[5] && s[i + 6] == sub[6] && s[i + 7] == sub[7]);
    lemma_u64_roundtrip(x);
}

/// A block as 56 bytes: number, timestamp, chunk count, commit gas, verify
/// gas, state root, fee account.
pub open spec fn enc_block(b: Block) -> Seq<u8> {
    enc_u64(b.block_number as u64) + enc_u64(b.timestamp) + enc_u64(b.block_chunks_size) + enc_u64(
        b.commit_gas_limit,
    ) + enc_u64(b.verify_gas_limit) + enc_u64(b.new_root_hash) + enc_u64(b.fee_account as u64)
}

/// The block read at `i`, when its numeric fields are in range.
pub open spec fn dec_block_at(s: Seq<u8>, i: int) -> Option<Block> {
    if i < 0 || i + 56 > s.len() || dec_u64(s, i) > 0xffff_ffff || dec_u64(s, i + 48)
        > 0xffff_ffff {
        Option::None
    } else {
        Option::Some(
            Block {
                block_number: dec_u64(s, i) as u32,
                timestamp: dec_u64(s, i + 8),
                block_chunks_size: dec_u64(s, i + 16),
                commit_gas_limit: dec_u64(s, i + 24),
                verify_gas_limit: dec_u64(s, i + 32),
                new_root_hash: dec_u64(s, i + 40),
                fee_account: dec_u64(s, i + 48) as u32,
            },
        )
    }
}

proof fn lemma_enc_block_parts(b: Block)
    ensures
        enc_block(b).len() == 56,
        enc_block(b).subrange(0, 8) == enc_u64(b.block_number as u64),
        enc_block(b).subrange(8, 16) == enc_u64(b.timestamp),
        enc_block(b).subrange(16, 24) == enc_u64(b.block_chunks_size),
        enc_block(b).subrange(24, 32) == enc_u64(b.commit_gas_limit),
        enc_block(b).subrange(32, 40) == enc_u64(b.verify_gas_limit),
        enc_block(b).subrange(40, 48) == enc_u64(b.new_root_hash),
        enc_block(b).subrange(48, 56) == enc_u64(b.fee_account as u64),
{
    assert(enc_block(b).subrange(0, 8) =~= enc_u64(b.block_number as u64));
    assert(enc_block(b).subrange(8, 16) =~= enc_u64(b.timestamp));
    assert(enc_block(b).subrange(16, 24) =~= enc_u64(b.block_chunks_size));
    assert(enc_block(b).subrange(24, 32) =~= enc_u64(b.commit_gas_limit));
    assert(enc_block(b).subrange(32, 40) =~= enc_u64(b.verify_gas_limit));
    assert(enc_block(b).subrange(40, 48) =~= enc_u64(b.new_root_hash));
    assert(enc_block(b).subrange(48, 56) =~= enc_u64(b.fee_account as u64));
}

proof fn lemma_dec_block_at(s: Seq<u8>, i: int, b: Block)
    requires
        0 <= i,
        i + 56 <= s.len(),
        s.subrange(i, i + 56) == enc_block(b),
    ensures
        dec_block_at(s, i) == Option::Some(b),
{
    lemma_enc_block_parts(b);
    let sub = s.subrange(i, i + 56);
    assert(s.subrange(i, i + 8) =~= sub.subrange(0, 8));
    assert(s.subrange(i + 8, i + 16) =~= sub.subrange(8, 16));
    assert(s.subrange(i + 16, i + 24) =~= sub.subrange(16, 24));
    assert(s.subrange(i + 24, i + 32) =~= sub.subrange(24, 32));
    assert(s.subrange(i + 32, i + 40) =~= sub.subrange(32, 40));
    assert(s.subrange(i + 40, i + 48) =~= sub.subrange(40, 48));
    assert(s.subrange(i + 48, i + 56) =~= sub.subrange(48, 56));
    lemma_dec_u64_at(s, i, b.block_number as u64);
    lemma_dec_u64_at(s, i + 8, b.timestamp);
    lemma_dec_u64_at(s, i + 16, b.block_chunks_size);
    lemma_dec_u64_at(s, i + 24, b.commit_gas_limit);
    lemma_dec_u64_at(s, i + 32, b.verify_gas_limit);
    lemma_dec_u64_at(s, i + 40, b.new_root_hash);
    lemma_dec_u64_at(s, i + 48, b.fee_account as u64);
}

/// A block list, blocks in order.
pub open spec fn enc_blocks(blocks: Seq<Block>) -> Seq<u8>
    decreases blocks.len(),
{
    if blocks.len() == 0 {
        Seq::empty()
    } else {
        enc_block(blocks.first()) + enc_blocks(blocks.drop_first())
    }
}

proof fn lemma_enc_blocks_len(blocks: Seq<Block>)
    ensures
        enc_blocks(blocks).len() == 56 * blocks.len(),
    decreases blocks.len(),
{
    if blocks.len() > 0 {
        lemma_enc_blocks_len(blocks.drop_first());
    }
}

/// The `n` blocks read starting at `i`.
pub open spec fn dec_blocks(s: Seq<u8>, i: int, n: int) -> Option<Seq<Block>>
    decreases n,
{
    if n <= 0 {
        Option::Some(Seq::empty())
    } else {
        match dec_block_at(s, i) {
            Option::Some(b) => match dec_blocks(s, i + 56, n - 1) {
                Option::Some(rest) => Option::Some(seq![b] + rest),
                Option::None => Option::None,
            },
            Option::None => Option::None,
        }
    }
}

proof fn lemma_dec_blocks_at(s: Seq<u8>, i: int, blocks: Seq<Block>)
    requires
        0 <= i,
        i + 56 * blocks.len() <= s.len(),
        s.subrange(i, i + 56 * blocks.len()) == enc_blocks(blocks),
    ensures
        dec_blocks(s, i, blocks.len() as int) == Option::Some(blocks),
    decreases blocks.len(),
{
    if blocks.len() > 0 {
        let rest = blocks.drop_first();
        lemma_enc_blocks_len(rest);
        assert(s.subrange(i, i + 56 * blocks.len()).subrange(0, 56) =~= s.subrange(i, i + 56));
        assert(enc_blocks(blocks).subrange(0, 56) =~= enc_block(blocks.first()));
        assert(s.subrange(i, i + 56) =~= enc_block(blocks.first()));
        lemma_dec_block_at(s, i, blocks.first());
        assert(s.subrange(i, i + 56 * blocks.len()).subrange(56, 56 * blocks.len() as int) =~= s.subrange(
            i + 56,
            i + 56 * blocks.len(),
        ));
        assert(enc_blocks(blocks).subrange(56, 56 * blocks.len() as int) =~= enc_blocks(rest));
        assert(s.subrange(i + 56, i + 56 + 56 * rest.len()) =~= enc_blocks(rest));
        lemma_dec_blocks_at(s, i + 56, rest);
        assert(seq![blocks.first()] + rest =~= blocks);
    }
}

/// A counted block list: the count, then the blocks, ending the buffer.
pub open spec fn enc_counted_blocks(blocks: Seq<Block>) -> Seq<u8> {
    enc_u64(blocks.len() as u64) + enc_blocks(blocks)
}

/// The counted block list filling the rest of the buffer from `i`; the
/// buffer must end exactly with it.
pub open spec fn dec_counted_blocks(s: Seq<u8>, i: int) -> Option<Seq<Block>> {
    if i < 0 || i + 8 > s.len() {
        Option::None
    } else {
        let n = dec_u64(s, i) as int;
        if s.len() != i + 8 + 56 * n {
            Option::None
        } else {
            dec_blocks(s, i + 8, n)
        }
    }
}

proof fn lemma_dec_counted_blocks(s: Seq<u8>, i: int, blocks: Seq<Block>)
    requires
        0 <= i,
        blocks.len() < 0x1_0000_0000,
        s.len() == i + 8 + 56 * blocks.len(),
        s.subrange(i, s.len() as int) == enc_counted_blocks(blocks),
    ensures
        dec_counted_blocks(s, i) == Option::Some(blocks),
{
    lemma_enc_blocks_len(blocks);
    let tail = s.subrange(i, s.len() as int);
    assert(tail.subrange(0, 8) =~= s.subrange(i, i + 8));
    assert(enc_counted_blocks(blocks).subrange(0, 8) =~= enc_u64(blocks.len() as u64));
    assert(s.subrange(i, i + 8) =~= enc_u64(blocks.len() as u64));
    lemma_dec_u64_at(s, i, blocks.len() as u64);
    assert(tail.subrange(8, tail.len() as int) =~= s.subrange(i + 8, s.len() as int));
    assert(enc_counted_blocks(blocks).subrange(8, enc_counted_blocks(blocks).len() as int)
        =~= enc_blocks(blocks));
    assert(s.subrange(i + 8, i + 8 + 56 * blocks.len()) =~= enc_blocks(blocks));
    lemma_dec_blocks_at(s, i + 8, blocks);
}

/// The persisted bytes of an operation shape.
pub open spec fn enc_op(v: OpView) -> Seq<u8> {
    match v {
        OpView::Commit { last_committed_block, blocks } => seq![1u8] + enc_block(
            last_committed_block,
        ) + enc_counted_blocks(blocks),
        OpView::CreateProof { blocks, proofs_to_pad } => seq![2u8] + enc_u64(proofs_to_pad)
            + enc_counted_blocks(blocks),
        OpView::Publish { blocks, proof } => seq![3u8] + enc_u64(proof.len() as u64) + proof
            + enc_counted_blocks(blocks),
        OpView::Execute { blocks } => seq![4u8] + enc_counted_blocks(blocks),
    }
}

/// The operation shape read back from persisted bytes; `None` is store
/// corruption.
pub open spec fn dec_op(s: Seq<u8>) -> Option<OpView> {
    if s.len() < 1 {
        Option::None
    } else if s[0] == 1 {
        match dec_block_at(s, 1) {
            Option::Some(last_committed_block) => match dec_counted_blocks(s, 57) {
                Option::Some(blocks) => Option::Some(
                    OpView::Commit { last_committed_block, blocks },
                ),
                Option::None => Option::None,
            },
            Option::None => Option::None,
        }
    } else if s[0] == 2 {
        if s.len() < 9 {
            Option::None
        } else {
            match dec_counted_blocks(s, 9) {
                Option::Some(blocks) => Option::Some(
                    OpView::CreateProof { blocks, proofs_to_pad: dec_u64(s, 1) },
                ),
                Option::None => Option::None,
            }
        }
    } else if s[0] == 3 {
        if s.len() < 9 {
            Option::None
        } else {
            let plen = dec_u64(s, 1) as int;
            if s.len() < 9 + plen {
                Option::None
            } else {
                match dec_counted_blocks(s, 9 + plen) {
                    Option::Some(blocks) => Option::Some(
                        OpView::Publish { blocks, proof: s.subrange(9, 9 + plen) },
                    ),
                    Option::None => Option::None,
                }
            }
        }
    } else if s[0] == 4 {
        match dec_counted_blocks(s, 1) {
            Option::Some(blocks) => Option::Some(OpView::Execute { blocks }),
            Option::None => Option::None,
        }
    } else {
        Option::None
    }
}

/// The shapes the codec can persist: list and proof sizes fit their length
/// fields.
pub open spec fn op_view_encodable(v: OpView) -> bool {
    match v {
        OpView::Commit { blocks, .. } => blocks.len() < 0x1_0000_0000,
        OpView::CreateProof { blocks, .. } => blocks.len() < 0x1_0000_0000,
        OpView::Publish { blocks, proof } => blocks.len() < 0x1_0000_0000 && proof.len()
            < 0x1_0000_0000,
        OpView::Execute { blocks } => blocks.len() < 0x1_0000_0000,
    }
}

/// The two halves of a concatenation, recovered by subranges.
proof fn lemma_concat_parts(a: Seq<u8>, b: Seq<u8>)
    ensures
        (a + b).len() == a.len() + b.len(),
        (a + b).subrange(0, a.len() as int) == a,
        (a + b).subrange(a.len() as int, a.len() + b.len() as int) == b,
{
    assert((a + b).subrange(0, a.len() as int) =~= a);
    assert((a + b).subrange(a.len() as int, a.len() + b.len() as int) =~= b);
}

#[verifier::rlimit(100)]
#[verifier::spinoff_prover]
proof fn lemma_roundtrip_commit(last_committed_block: Block, blocks: Seq<Block>)
    requires
        blocks.len() < 0x1_0000_0000,
    ensures
        dec_op(enc_op(OpView::Commit { last_committed_block, blocks })) == Option::Some(
            OpView::Commit { last_committed_block, blocks },
        ),
{
    let head = seq![1u8] + enc_block(last_committed_block);
    let tail = enc_counted_blocks(blocks);
    let s = head + tail;
    lemma_enc_blocks_len(blocks);
    lemma_enc_block_parts(last_committed_block);
    assert(enc_op(OpView::Commit { last_committed_block, blocks }) == s);
    lemma_concat_parts(head, tail);
    assert(head.len() == 57);
    assert(s[0] == 1u8);
    assert(s.subrange(1, 57) =~= enc_block(last_committed_block));
    lemma_dec_block_at(s, 1, last_committed_block);
    assert(s.subrange(57, s.len() as int) == tail);
    lemma_dec_counted_blocks(s, 57, blocks);
}

#[verifier::rlimit(100)]
#[verifier::spinoff_prover]
proof fn lemma_roundtrip_create_proof(blocks: Seq<Block>, proofs_to_pad: u64)
    requires
        blocks.len() < 0x1_0000_0000,
    ensures
        dec_op(enc_op(OpView::CreateProof { blocks, proofs_to_pad })) == Option::Some(
            OpView::CreateProof { blocks, proofs_to_pad },
        ),
{
    let head = seq![2u8] + enc_u64(proofs_to_pad);
    let tail = enc_counted_blocks(blocks);
    let s = head + tail;
    lemma_enc_blocks_len(blocks);
    assert(enc_op(OpView::CreateProof { blocks, proofs_to_pad }) == s);
    lemma_concat_parts(head, tail);
    assert(head.len() == 9);
    assert(s[0] == 2u8);
    assert(s.subrange(1, 9) =~= enc_u64(proofs_to_pad));
    lemma_dec_u64_at(s, 1, proofs_to_pad);
    assert(s.subrange(9, s.len() as int) == tail);
    lemma_dec_counted_blocks(s, 9, blocks);
}

#[verifier::rlimit(100)]
#[verifier::spinoff_prover]
proof fn lemma_roundtrip_publish(blocks: Seq<Block>, proof: Seq<u8>)
    requires
        blocks.len() < 0x1_0000_0000,
        proof.len() < 0x1_0000_0000,
    ensures
        dec_op(enc_op(OpView::Publish { blocks, proof })) == Option::Some(
            OpView::Publish { blocks, proof },
        ),
{
    let head2 = seq![3u8] + enc_u64(proof.len() as u64);
    let head = head2 + proof;
    let tail = enc_counted_blocks(blocks);
    let s = head + tail;
    lemma_enc_blocks_len(blocks);
    assert(enc_op(OpView::Publish { blocks, proof }) == s);
    lemma_concat_parts(head, tail);
    lemma_concat_parts(head2, proof);
    assert(head2.len() == 9);
    assert(head.len() == 9 + proof.len());
    assert(s[0] == 3u8);
    assert(s.subrange(1, 9) =~= enc_u64(proof.len() as u64));
    lemma_dec_u64_at(s, 1, proof.len() as u64);
    assert(s.subrange(9, 9 + proof.len() as int) =~= proof);
    assert(s.subrange(9 + proof.len() as int, s.len() as int) == tail);
    lemma_dec_counted_blocks(s, 9 + proof.len() as int, blocks);
}

#[verifier::rlimit(100)]
#[verifier::spinoff_prover]
proof fn lemma_roundtrip_execute(blocks: Seq<Block>)
    requires
        blocks.len() < 0x1_0000_0000,
    ensures
        dec_op(enc_op(OpView::Execute { blocks })) == Option::Some(OpView::Execute { blocks }),
{
    let head = seq![4u8];
    let tail = enc_counted_blocks(blocks);
    let s = head + tail;
    lemma_enc_blocks_len(blocks);
    assert(enc_op(OpView::Execute { blocks }) == s);
    lemma_concat_parts(head, tail);
    assert(s[0] == 4u8);
    assert(s.subrange(1, s.len() as int) == tail);
    lemma_dec_counted_blocks(s, 1, blocks);
}

/// Round trip: decoding an encoded operation returns exactly the operation.
pub proof fn lemma_codec_roundtrip(v: OpView)
    requires
        op_view_encodable(v),
    ensures
        dec_op(enc_op(v)) == Option::Some(v),
{
    match v {
        OpView::Commit { last_committed_block, blocks } => {
            lemma_roundtrip_commit(last_committed_block, blocks);
        },
        OpView::CreateProof { blocks, proofs_to_pad } => {
            lemma_roundtrip_create_proof(blocks, proofs_to_pad);
        },
        OpView::Publish { blocks, proof } => {
            lemma_roundtrip_publish(blocks, proof);
        },
        OpView::Execute { blocks } => {
            lemma_roundtrip_execute(blocks);
        },
    }
}

/// Append eight little-endian bytes.
pub fn push_u64_le(out: &mut Vec<u8>, x: u64)
    ensures
        final(out)@ == old(out)@ + enc_u64(x),
{
    proof {
        assert(x & 0xff < 256 && (x >> 8) & 0xff < 256 && (x >> 16) & 0xff < 256 && (x >> 24)
            & 0xff < 256 && (x >> 32) & 0xff < 256 && (x >> 40) & 0xff < 256 && (x >> 48) & 0xff
            < 256 && (x >> 56) & 0xff < 256) by (bit_vector);
    }
    out.push((x & 0xff) as u8);
    out.push(((x >> 8) & 0xff) as u8);
    out.push(((x >> 16) & 0xff) as u8);
    out.push(((x >> 24) & 0xff) as u8);
    out.push(((x >> 32) & 0xff) as u8);
    out.push(((x >> 40) & 0xff) as u8);
    out.push(((x >> 48) & 0xff) as u8);
    out.push(((x >> 56) & 0xff) as u8);
    proof {
        assert(out@ =~= old(out)@ + enc_u64(x));
    }
}

/// Append a block's 56 bytes.
fn push_block(out: &mut Vec<u8>, b: &Block)
    ensures
        final(out)@ == old(out)@ + enc_block(*b),
{
    push_u64_le(out, b.block_number as u64);
    push_u64_le(out, b.timestamp);
    push_u64_le(out, b.block_chunks_size);
    push_u64_le(out, b.commit_gas_limit);
    push_u64_le(out, b.verify_gas_limit);
    push_u64_le(out, b.new_root_hash);
    push_u64_le(out, b.fee_account as u64);
    proof {
        assert(out@ =~= old(out)@ + enc_block(*b));
    }
}

/// Append a counted block list.
fn push_counted_blocks(out: &mut Vec<u8>, blocks: &Vec<Block>)
    ensures
        final(out)@ == old(out)@ + enc_counted_blocks(blocks@),
{
    push_u64_le(out, blocks.len() as u64);
    let mut i: usize = 0;
    while i < blocks.len()
        invariant
            0 <= i <= blocks@.len(),
            out@ == old(out)@ + enc_u64(blocks@.len() as u64) + enc_blocks(blocks@.take(i as int)),
        decreases blocks@.len() - i,
    {
        push_block(out, &blocks[i]);
        i = i + 1;
        proof {
            lemma_enc_blocks_take_snoc(blocks@, i as int);
        }
    }
    proof {
        assert(blocks@.take(blocks@.len() as int) =~= blocks@);
        assert(out@ =~= old(out)@ + enc_counted_blocks(blocks@));
    }
}

proof fn lemma_enc_blocks_take_snoc(blocks: Seq<Block>, i: int)
    requires
        1 <= i <= blocks.len(),
    ensures
        enc_blocks(blocks.take(i)) == enc_blocks(blocks.take(i - 1)) + enc_block(blocks[i - 1]),
    decreases i,
{
    if i == 1 {
        assert(blocks.take(1).first() == blocks[0]);
        assert(blocks.take(1).drop_first() =~= Seq::<Block>::empty());
        assert(blocks.take(0) =~= Seq::<Block>::empty());
        assert(enc_blocks(blocks.take(1)) =~= enc_blocks(blocks.take(0)) + enc_block(blocks[0]));
    } else {
        let shifted = blocks.drop_first();
        assert(blocks.take(i).first() == blocks[0]);
        assert(blocks.take(i).drop_first() =~= shifted.take(i - 1));
        assert(blocks.take(i - 1).first() == blocks[0]);
        assert(blocks.take(i - 1).drop_first() =~= shifted.take(i - 2));
        lemma_enc_blocks_take_snoc(shifted, i - 1);
        assert(shifted[i - 2] == blocks[i - 1]);
        assert(enc_blocks(blocks.take(i)) =~= enc_block(blocks[0]) + enc_blocks(
            shifted.take(i - 1),
        ));
        assert(enc_blocks(blocks.take(i - 1)) =~= enc_block(blocks[0]) + enc_blocks(
            shifted.take(i - 2),
        ));
        assert(enc_blocks(blocks.take(i)) =~= enc_blocks(blocks.take(i - 1)) + enc_block(
            blocks[i - 1],
        ));
    }
}

/// Serialize an operation into its persisted bytes.
pub fn encode_aggregated_operation(op: &AggregatedOperation) -> (r: Vec<u8>)
    requires
        op_view_encodable(op.view_op()),
    ensures
        r@ == enc_op(op.view_op()),
{
    let mut out: Vec<u8> = Vec::new();
    match op {
        AggregatedOperation::CommitBlocks(commit_op) => {
            out.push(1u8);
            proof {
                assert(out@ =~= seq![1u8]);
            }
            push_block(&mut out, &commit_op.last_committed_block);
            push_counted_blocks(&mut out, &commit_op.blocks);
        },
        AggregatedOperation::CreateProofBlocks(create_op) => {
            out.push(2u8);
            proof {
                assert(out@ =~= seq![2u8]);
            }
            push_u64_le(&mut out, create_op.proofs_to_pad);
            push_counted_blocks(&mut out, &create_op.blocks);
        },
        AggregatedOperation::PublishProofBlocksOnchain(publish_op) => {
            out.push(3u8);
            proof {
                assert(out@ =~= seq![3u8]);
            }
            push_u64_le(&mut out, publish_op.proof.len() as u64);
            let mut i: usize = 0;
            while i < publish_op.proof.len()
                invariant
                    0 <= i <= publish_op.proof@.len(),
                    out@ == seq![3u8] + enc_u64(publish_op.proof@.len() as u64)
                        + publish_op.proof@.take(i as int),
                decreases publish_op.proof@.len() - i,
            {
                out.push(publish_op.proof[i]);
                i = i + 1;
                proof {
                    assert(publish_op.proof@.take(i as int) =~= publish_op.proof@.take(
                        i as int - 1,
                    ).push(publish_op.proof@[i as int - 1]));
                    assert(out@ =~= seq![3u8] + enc_u64(publish_op.proof@.len() as u64)
                        + publish_op.proof@.take(i as int));
                }
            }
            proof {
                assert(publish_op.proof@.take(publish_op.proof@.len() as int)
                    =~= publish_op.proof@);
            }
            push_counted_blocks(&mut out, &publish_op.blocks);
        },
        AggregatedOperation::ExecuteBlocks(execute_op) => {
            out.push(4u8);
            proof {
                assert(out@ =~= seq![4u8]);
            }
            push_counted_blocks(&mut out, &execute_op.blocks);
        },
    }
    proof {
        assert(out@ =~= enc_op(op.view_op()));
    }
    out
}


/// Read eight little-endian bytes at `i`.
fn read_u64_le(bytes: &Vec<u8>, i: usize) -> (r: u64)
    requires
        i + 8 <= bytes@.len(),
    ensures
        r == dec_u64(bytes@, i as int),
{
    let len = bytes.len();
    proof {
        assert(i + 8 <= len);
    }
    (bytes[i] as u64) | (bytes[i + 1] as u64) << 8u64 | (bytes[i + 2] as u64) << 16u64 | (bytes[i
        + 3] as u64) << 24u64 | (bytes[i + 4] as u64) << 32u64 | (bytes[i + 5] as u64) << 40u64 | (
    bytes[i + 6] as u64) << 48u64 | (bytes[i + 7] as u64) << 56u64
}

/// Read the block stored at `i`, when its numeric fields are in range.
fn read_block(bytes: &Vec<u8>, i: usize) -> (r: Option<Block>)
    requires
        i + 56 <= bytes@.len(),
    ensures
        r == dec_block_at(bytes@, i as int),
{
    let len = bytes.len();
    proof {
        assert(i + 56 <= len);
    }
    let block_number_raw = read_u64_le(bytes, i);
    let fee_account_raw = read_u64_le(bytes, i + 48);
    if block_number_raw > 0xffff_ffff || fee_account_raw > 0xffff_ffff {
        return None;
    }
    Some(
        Block {
            block_number: block_number_raw as u32,
            timestamp: read_u64_le(bytes, i + 8),
            block_chunks_size: read_u64_le(bytes, i + 16),
            commit_gas_limit: read_u64_le(bytes, i + 24),
            verify_gas_limit: read_u64_le(bytes, i + 32),
            new_root_hash: read_u64_le(bytes, i + 40),
            fee_account: fee_account_raw as u32,
        },
    )
}

/// Block-list decoding succeeds exactly when every block slot decodes, and
/// then yields those blocks in order.
proof fn lemma_dec_blocks_pointwise(s: Seq<u8>, i: int, n: int)
    requires
        n >= 0,
    ensures
        (dec_blocks(s, i, n) is Some) <==> (forall|k: int|
            0 <= k < n ==> #[trigger] dec_block_at(s, i + 56 * k) is Some),
        dec_blocks(s, i, n) matches Some(blocks) ==> blocks.len() == n && (forall|k: int|
            0 <= k < n ==> blocks[k] == (#[trigger] dec_block_at(s, i + 56 * k))->Some_0),
    decreases n,
{
    if n > 0 {
        lemma_dec_blocks_pointwise(s, i + 56, n - 1);
        assert forall|k: int| 1 <= k < n implies #[trigger] dec_block_at(s, i + 56 * k)
            == dec_block_at(s, (i + 56) + 56 * (k - 1)) by {
            assert(i + 56 * k == (i + 56) + 56 * (k - 1));
        }
        if dec_block_at(s, i) is Some {
            if forall|k: int| 0 <= k < n ==> #[trigger] dec_block_at(s, i + 56 * k) is Some {
                assert forall|k: int|
                    0 <= k < n - 1 implies #[trigger] dec_block_at(s, (i + 56) + 56 * k)
                    is Some by {
                    assert(dec_block_at(s, i + 56 * (k + 1)) is Some);
                }
            }
            if dec_blocks(s, i + 56, n - 1) is Some {
                assert forall|k: int|
                    0 <= k < n implies #[trigger] dec_block_at(s, i + 56 * k) is Some by {
                    if k > 0 {
                        assert(dec_block_at(s, (i + 56) + 56 * (k - 1)) is Some);
                    }
                }
            }
        } else {
            assert(dec_block_at(s, i + 56 * 0) is None);
        }
    }
}

/// Read the counted block list that must fill the buffer from `i` to its
/// end.
#[verifier::rlimit(100)]
#[verifier::spinoff_prover]
fn read_counted_blocks(bytes: &Vec<u8>, i: usize) -> (r: Option<Vec<Block>>)
    ensures
        (r is Some) <==> (dec_counted_blocks(bytes@, i as int) is Some),
        r matches Some(blocks) ==> dec_counted_blocks(bytes@, i as int) == Option::Some(blocks@),
{
    let len = bytes.len();
    if i > len || len - i < 8 {
        return None;
    }
    let n_raw = read_u64_le(bytes, i);
    if ((len - i - 8) as u128) != (n_raw as u128) * 56 {
        return None;
    }
    proof {
        assert(bytes@.len() == i as int + 8 + 56 * (n_raw as int));
        lemma_dec_blocks_pointwise(bytes@, i as int + 8, n_raw as int);
    }
    let n = (len - i - 8) / 56;
    proof {
        assert(n == n_raw as int);
    }
    let base = i + 8;
    let mut blocks: Vec<Block> = Vec::new();
    let mut k: usize = 0;
    while k < n
        invariant
            0 <= k <= n,
            base == i + 8,
            base + 56 * n == bytes@.len(),
            bytes@.len() <= usize::MAX,
            blocks@.len() == k,
            forall|m: int|
                0 <= m < k ==> (#[trigger] dec_block_at(bytes@, base as int + 56 * m)) is Some,
            forall|m: int|
                0 <= m < k ==> blocks@[m] == (#[trigger] dec_block_at(
                    bytes@,
                    base as int + 56 * m,
                ))->Some_0,
        decreases n - k,
    {
        proof {
            assert(56 * k as int + 56 <= 56 * n as int);
        }
        let block = match read_block(bytes, base + 56 * k) {
            Option::Some(b) => b,
            Option::None => {
                proof {
                    lemma_dec_blocks_pointwise(bytes@, base as int, n as int);
                }
                return None;
            },
        };
        blocks.push(block);
        k = k + 1;
    }
    proof {
        lemma_dec_blocks_pointwise(bytes@, base as int, n as int);
        let decoded = dec_blocks(bytes@, base as int, n as int);
        assert(decoded is Some);
        assert forall|m: int| 0 <= m < n implies blocks@[m] == decoded->Some_0[m] by {
            assert(blocks@[m] == dec_block_at(bytes@, base as int + 56 * m)->Some_0);
            assert(decoded->Some_0[m] == dec_block_at(bytes@, base as int + 56 * m)->Some_0);
        }
        assert(blocks@ =~= decoded->Some_0);
    }
    Some(blocks)
}

/// Parse a persisted operation. `None` means the bytes are not a valid
/// encoding: the store is corrupt.
pub fn decode_aggregated_operation(bytes: &Vec<u8>) -> (r: Option<AggregatedOperation>)
    ensures
        (r is Some) <==> (dec_op(bytes@) is Some),
        r matches Some(op) ==> dec_op(bytes@) == Option::Some(op.view_op()),
{
    if bytes.len() < 1 {
        return None;
    }
    let tag = bytes[0];
    if tag == 1 {
        if bytes.len() < 57 {
            return None;
        }
        let last_committed_block = match read_block(bytes, 1) {
            Option::Some(b) => b,
            Option::None => {
                return None;
            },
        };
        match read_counted_blocks(bytes, 57) {
            Option::Some(blocks) => Some(
                AggregatedOperation::CommitBlocks(
                    BlocksCommitOperation { last_committed_block, blocks },
                ),
            ),
            Option::None => None,
        }
    } else if tag == 2 {
        if bytes.len() < 9 {
            return None;
        }
        let proofs_to_pad = read_u64_le(bytes, 1);
        match read_counted_blocks(bytes, 9) {
            Option::Some(blocks) => Some(
                AggregatedOperation::CreateProofBlocks(
                    BlocksCreateProofOperation { blocks, proofs_to_pad },
                ),
            ),
            Option::None => None,
        }
    } else if tag == 3 {
        if bytes.len() < 9 {
            return None;
        }
        let plen_raw = read_u64_le(bytes, 1);
        if plen_raw > (bytes.len() - 9) as u64 {
            return None;
        }
        let plen = plen_raw as usize;
        let mut proof_bytes: Vec<u8> = Vec::new();
        let mut k: usize = 0;
        while k < plen
            invariant
                0 <= k <= plen,
                9 + plen <= bytes@.len(),
                bytes@.len() <= usize::MAX,
                proof_bytes@ == bytes@.subrange(9, 9 + k as int),
            decreases plen - k,
        {
            proof_bytes.push(bytes[9 + k]);
            k = k + 1;
            proof {
                assert(proof_bytes@ =~= bytes@.subrange(9, 9 + k as int));
            }
        }
        match read_counted_blocks(bytes, 9 + plen) {
            Option::Some(blocks) => Some(
                AggregatedOperation::PublishProofBlocksOnchain(
                    BlocksProofOperation { blocks, proof: proof_bytes },
                ),
            ),
            Option::None => None,
        }
    } else if tag == 4 {
        match read_counted_blocks(bytes, 1) {
            Option::Some(blocks) => Some(
                AggregatedOperation::ExecuteBlocks(BlocksExecuteOperation { blocks }),
            ),
            Option::None => None,
        }
    } else {
        None
    }
}

} // verus!
