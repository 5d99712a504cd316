//! The geometry of a block, fixed by two bit widths.

use vstd::prelude::*;
use vstd::arithmetic::power2::is_pow2;

verus! {

/// Width of an offset into a block, in bits.
pub const BLOCK_SIZE_BITS: usize = 15;

/// Bytes in a block: two to the power of `BLOCK_SIZE_BITS`.
pub const BLOCK_SIZE: usize = 32768;

/// Width of an offset into a line, in bits.
pub const LINE_SIZE_BITS: usize = 7;

/// Bytes in a line: two to the power of `LINE_SIZE_BITS`.
pub const LINE_SIZE: usize = 128;

/// Lines in a block, and so bytes in its mark table.
pub const LINE_COUNT: usize = BLOCK_SIZE / LINE_SIZE;

/// Bytes of a block below its mark table.
pub const BLOCK_CAPACITY: usize = BLOCK_SIZE - LINE_COUNT;

/// Offset at which the cursor of a new block starts: the largest multiple of
/// the line size that does not exceed the capacity.
pub const CURSOR_START_OFFSET: usize = (BLOCK_CAPACITY / LINE_SIZE) * LINE_SIZE;

/// The two sizes are the powers of two that their bit widths name, and the
/// layout they give leaves room for the mark table: the cursor starts at or
/// below the capacity, the capacity is below the block size, and a block has
/// at least one line.
pub proof fn lemma_block_geometry()
    ensures
        BLOCK_SIZE == 1usize << BLOCK_SIZE_BITS,
        LINE_SIZE == 1usize << LINE_SIZE_BITS,
        LINE_COUNT == 256,
        BLOCK_CAPACITY == 32512,
        CURSOR_START_OFFSET == 32512,
        CURSOR_START_OFFSET <= BLOCK_CAPACITY < BLOCK_SIZE,
        LINE_COUNT >= 1,
        CURSOR_START_OFFSET % LINE_SIZE == 0,
        BLOCK_CAPACITY - CURSOR_START_OFFSET < LINE_SIZE,
{
    assert(1usize << 15usize == 32768) by (bit_vector);
    assert(1usize << 7usize == 128) by (bit_vector);
}

/// The block size is a power of two, so a block can be acquired at it.
pub proof fn lemma_block_size_is_pow2()
    ensures
        is_pow2(BLOCK_SIZE as int),
{
    reveal_with_fuel(is_pow2, 17);
}

/// Bytes in a machine word.
pub open spec fn word_size() -> int {
    vstd::layout::size_of::<usize>() as int
}

/// The address `addr` rounded down to a word boundary.
pub open spec fn word_floor(addr: int) -> int {
    addr - addr % word_size()
}

/// The mask that clears the bits of an address below a word boundary.
pub fn align_mask() -> (mask: usize)
    ensures
        mask == !((word_size() - 1) as usize),
{
    !(core::mem::size_of::<usize>() - 1)
}

/// `addr` rounded down to a word boundary.
pub fn word_align(addr: usize) -> (aligned: usize)
    ensures
        aligned == word_floor(addr as int),
{
    let mask = align_mask();
    assert(addr & !3usize == addr - addr % 4) by (bit_vector);
    assert(addr & !7usize == addr - addr % 8) by (bit_vector);
    addr & mask
}

/// Rounding down moves an address by less than a word, keeps the order of
/// addresses, and never crosses a word boundary.
pub proof fn lemma_word_floor(addr: int, bound: int)
    ensures
        word_size() == 4 || word_size() == 8,
        word_floor(addr) % word_size() == 0,
        addr - word_size() < word_floor(addr) <= addr,
        bound <= addr ==> word_floor(bound) <= word_floor(addr),
        bound <= addr && bound % word_size() == 0 ==> bound <= word_floor(addr),
{
}

/// A line boundary is a word boundary: an address that is a multiple of the
/// line size, and so one that is a multiple of the block size, is a multiple
/// of the word size. Moving an address by such a multiple moves its word
/// boundary along.
pub proof fn lemma_line_aligned_is_word_aligned(addr: int, other: int)
    requires
        addr % (LINE_SIZE as int) == 0,
    ensures
        addr % word_size() == 0,
        word_floor(addr + other) == addr + word_floor(other),
{
    let q = addr / (LINE_SIZE as int);
    assert(addr == 128 * q);
    if word_size() == 4 {
        assert(addr == 4 * (32 * q));
        assert(addr % 4 == 0);
        assert((addr + other) % 4 == other % 4);
    } else {
        assert(addr == 8 * (16 * q));
        assert(addr % 8 == 0);
        assert((addr + other) % 8 == other % 8);
    }
}

} // verus!
