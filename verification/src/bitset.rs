//! The packed bit storage behind a grid, and what is taken on trust about it.

use fixedbitset::FixedBitSet;
use vstd::prelude::*;

verus! {

/// `fixedbitset::FixedBitSet`, a fixed-length sequence of bits packed into
/// 32-bit blocks. Its fields are private, so it is carried as an opaque value.
#[verifier::external_type_specification]
#[verifier::external_body]
pub struct ExFixedBitSet(fixedbitset::FixedBitSet);

/// The bits that a `FixedBitSet` holds, in index order: entry `i` is the bit at
/// index `i`, and the length is the set's length in bits.
pub uninterp spec fn bit_seq(set: FixedBitSet) -> Seq<bool>;

/// The bits of a `FixedBitSet`'s last block that lie past its length, in index
/// order: what the set keeps in store beside the bits that it holds.
pub uninterp spec fn spare_bits(set: FixedBitSet) -> Seq<bool>;

/// How many bits of the last 32-bit block are left over when `bits` bits are
/// packed 32 to a block.
pub open spec fn spare_count(bits: nat) -> nat {
    ((32 - bits % 32) % 32) as nat
}

/// `count` bits, all of them clear.
pub open spec fn clear_bits(count: nat) -> Seq<bool> {
    Seq::new(count, |i: int| false)
}

/// `FixedBitSet::with_capacity`: a set of `bits` bits, all of them clear, in
/// just enough blocks, which are zero throughout.
pub assume_specification[ FixedBitSet::with_capacity ](bits: usize) -> (set: FixedBitSet)
    ensures
        bit_seq(set) == clear_bits(bits as nat),
        spare_bits(set) == clear_bits(spare_count(bits as nat)),
;

/// `FixedBitSet::set`: writes `enabled` at index `bit` and leaves every other
/// bit, the length and the spare bits as they were. It panics on an index past
/// the end, which the precondition rules out.
pub assume_specification[ FixedBitSet::set ](set: &mut FixedBitSet, bit: usize, enabled: bool)
    requires
        bit < bit_seq(*old(set)).len(),
    ensures
        bit_seq(*final(set)) == bit_seq(*old(set)).update(bit as int, enabled),
        spare_bits(*final(set)) == spare_bits(*old(set)),
;

/// `<FixedBitSet as Clone>::clone`: a set with the same length and the same
/// blocks, so the same bits and the same spare bits.
pub assume_specification[ <FixedBitSet as Clone>::clone ](set: &FixedBitSet) -> (copy: FixedBitSet)
    ensures
        bit_seq(copy) == bit_seq(*set),
        spare_bits(copy) == spare_bits(*set),
;

/// Whether bit `k` of `block` is set, counting from the least significant bit.
pub open spec fn block_bit(block: u32, k: int) -> bool {
    block & (1u32 << (k as u32)) != 0
}

/// `blocks` holds `bits` packed 32 to a block: bit `i` is bit `i % 32` of block
/// `i / 32`, and there are just enough blocks for all the bits. Where the
/// number of bits is a multiple of 32, the bits fix every block.
pub open spec fn packs(blocks: Seq<u32>, bits: Seq<bool>) -> bool {
    &&& blocks.len() == (bits.len() + 31) / 32
    &&& forall|i: int|
        0 <= i < bits.len() ==> #[trigger] bits[i] == block_bit(blocks[i / 32], i % 32)
}

/// `FixedBitSet::as_slice`: the blocks in which the set keeps its bits. They
/// hold the set's bits and, after them, its spare bits, and nothing else.
pub assume_specification<'a>[ FixedBitSet::as_slice ](set: &'a FixedBitSet) -> (blocks: &'a [u32])
    ensures
        packs(blocks@, bit_seq(*set) + spare_bits(*set)),
        (bit_seq(*set) + spare_bits(*set)).len() == 32 * blocks@.len(),
;

/// Reads the bit at index `bit` through `FixedBitSet`'s `Index<usize>`, which
/// never panics. Inside the set's length the result is the stored bit; nothing
/// is claimed of an index past the end.
#[verifier::external_body]
pub(crate) fn bit_at(set: &FixedBitSet, bit: usize) -> (enabled: bool)
    ensures
        bit < bit_seq(*set).len() ==> enabled == bit_seq(*set)[bit as int],
{
    set[bit]
}

/// Two blocks that agree bit by bit are the same block.
pub proof fn lemma_block_from_bits(first: u32, second: u32)
    requires
        forall|k: int| 0 <= k < 32 ==> block_bit(first, k) == block_bit(second, k),
    ensures
        first == second,
{
    assert(block_bit(first, 0) == block_bit(second, 0));
    assert(block_bit(first, 1) == block_bit(second, 1));
    assert(block_bit(first, 2) == block_bit(second, 2));
    assert(block_bit(first, 3) == block_bit(second, 3));
    assert(block_bit(first, 4) == block_bit(second, 4));
    assert(block_bit(first, 5) == block_bit(second, 5));
    assert(block_bit(first, 6) == block_bit(second, 6));
    assert(block_bit(first, 7) == block_bit(second, 7));
    assert(block_bit(first, 8) == block_bit(second, 8));
    assert(block_bit(first, 9) == block_bit(second, 9));
    assert(block_bit(first, 10) == block_bit(second, 10));
    assert(block_bit(first, 11) == block_bit(second, 11));
    assert(block_bit(first, 12) == block_bit(second, 12));
    assert(block_bit(first, 13) == block_bit(second, 13));
    assert(block_bit(first, 14) == block_bit(second, 14));
    assert(block_bit(first, 15) == block_bit(second, 15));
    assert(block_bit(first, 16) == block_bit(second, 16));
    assert(block_bit(first, 17) == block_bit(second, 17));
    assert(block_bit(first, 18) == block_bit(second, 18));
    assert(block_bit(first, 19) == block_bit(second, 19));
    assert(block_bit(first, 20) == block_bit(second, 20));
    assert(block_bit(first, 21) == block_bit(second, 21));
    assert(block_bit(first, 22) == block_bit(second, 22));
    assert(block_bit(first, 23) == block_bit(second, 23));
    assert(block_bit(first, 24) == block_bit(second, 24));
    assert(block_bit(first, 25) == block_bit(second, 25));
    assert(block_bit(first, 26) == block_bit(second, 26));
    assert(block_bit(first, 27) == block_bit(second, 27));
    assert(block_bit(first, 28) == block_bit(second, 28));
    assert(block_bit(first, 29) == block_bit(second, 29));
    assert(block_bit(first, 30) == block_bit(second, 30));
    assert(block_bit(first, 31) == block_bit(second, 31));
    assert(first == second) by (bit_vector)
        requires
            (first & (1u32 << 0u32) != 0) == (second & (1u32 << 0u32) != 0),
            (first & (1u32 << 1u32) != 0) == (second & (1u32 << 1u32) != 0),
            (first & (1u32 << 2u32) != 0) == (second & (1u32 << 2u32) != 0),
            (first & (1u32 << 3u32) != 0) == (second & (1u32 << 3u32) != 0),
            (first & (1u32 << 4u32) != 0) == (second & (1u32 << 4u32) != 0),
            (first & (1u32 << 5u32) != 0) == (second & (1u32 << 5u32) != 0),
            (first & (1u32 << 6u32) != 0) == (second & (1u32 << 6u32) != 0),
            (first & (1u32 << 7u32) != 0) == (second & (1u32 << 7u32) != 0),
            (first & (1u32 << 8u32) != 0) == (second & (1u32 << 8u32) != 0),
            (first & (1u32 << 9u32) != 0) == (second & (1u32 << 9u32) != 0),
            (first & (1u32 << 10u32) != 0) == (second & (1u32 << 10u32) != 0),
            (first & (1u32 << 11u32) != 0) == (second & (1u32 << 11u32) != 0),
            (first & (1u32 << 12u32) != 0) == (second & (1u32 << 12u32) != 0),
            (first & (1u32 << 13u32) != 0) == (second & (1u32 << 13u32) != 0),
            (first & (1u32 << 14u32) != 0) == (second & (1u32 << 14u32) != 0),
            (first & (1u32 << 15u32) != 0) == (second & (1u32 << 15u32) != 0),
            (first & (1u32 << 16u32) != 0) == (second & (1u32 << 16u32) != 0),
            (first & (1u32 << 17u32) != 0) == (second & (1u32 << 17u32) != 0),
            (first & (1u32 << 18u32) != 0) == (second & (1u32 << 18u32) != 0),
            (first & (1u32 << 19u32) != 0) == (second & (1u32 << 19u32) != 0),
            (first & (1u32 << 20u32) != 0) == (second & (1u32 << 20u32) != 0),
            (first & (1u32 << 21u32) != 0) == (second & (1u32 << 21u32) != 0),
            (first & (1u32 << 22u32) != 0) == (second & (1u32 << 22u32) != 0),
            (first & (1u32 << 23u32) != 0) == (second & (1u32 << 23u32) != 0),
            (first & (1u32 << 24u32) != 0) == (second & (1u32 << 24u32) != 0),
            (first & (1u32 << 25u32) != 0) == (second & (1u32 << 25u32) != 0),
            (first & (1u32 << 26u32) != 0) == (second & (1u32 << 26u32) != 0),
            (first & (1u32 << 27u32) != 0) == (second & (1u32 << 27u32) != 0),
            (first & (1u32 << 28u32) != 0) == (second & (1u32 << 28u32) != 0),
            (first & (1u32 << 29u32) != 0) == (second & (1u32 << 29u32) != 0),
            (first & (1u32 << 30u32) != 0) == (second & (1u32 << 30u32) != 0),
            (first & (1u32 << 31u32) != 0) == (second & (1u32 << 31u32) != 0),
    ;
}

/// Packing loses nothing and adds nothing: two sequences of blocks that pack
/// the same bits, filling their last block, are the same sequence.
pub proof fn lemma_packs_unique(first: Seq<u32>, second: Seq<u32>, bits: Seq<bool>)
    requires
        packs(first, bits),
        packs(second, bits),
        bits.len() % 32 == 0,
    ensures
        first == second,
{
    assert forall|j: int| 0 <= j < first.len() implies first[j] == second[j] by {
        assert forall|k: int| 0 <= k < 32 implies block_bit(first[j], k) == block_bit(
            second[j],
            k,
        ) by {
            let i = 32 * j + k;
            assert(i / 32 == j && i % 32 == k);
            assert(bits[i] == block_bit(first[i / 32], i % 32));
            assert(bits[i] == block_bit(second[i / 32], i % 32));
        }
        lemma_block_from_bits(first[j], second[j]);
    }
    assert(first =~= second);
}

} // verus!
