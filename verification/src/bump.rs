//! A block with a bump cursor: objects are carved from the top of the
//! current hole downward, and a new hole is looked up in the line marks when
//! the current one is used up.

use vstd::prelude::*;
use crate::block::Block;
use crate::consts::{
    BLOCK_SIZE,
    CURSOR_START_OFFSET,
    LINE_COUNT,
    LINE_SIZE,
    lemma_block_size_is_pow2,
    lemma_line_aligned_is_word_aligned,
    lemma_word_floor,
    word_align,
    word_floor,
    word_size,
};
use crate::enums::{AllocError, MarkedState};
use crate::linemarks::{
    BlockMeta,
    hole_below,
    hole_from,
    lemma_hole_below,
    lemma_no_hole_for_more,
    lines_needed,
};
use crate::misc::map_block_to_alloc_err;

verus! {

/// The mark table of a block that was just created: every line is free, and
/// the last byte says that the block is live.
pub open spec fn fresh_marks() -> Seq<u8> {
    Seq::new(
        LINE_COUNT as nat,
        |i: int|
            if i == LINE_COUNT - 1 {
                MarkedState::TrueMarked.code()
            } else {
                0u8
            },
    )
}

/// One block, its line marks, and the hole that is being filled. The hole is
/// the address range from `limit` up to `cursor`.
pub struct BumpBlock {
    cursor: usize,
    limit: usize,
    block: Block,
    meta: BlockMeta,
}

impl BumpBlock {
    /// The block that the memory comes from.
    pub closed spec fn block(&self) -> Block {
        self.block
    }

    /// The line-mark table.
    pub closed spec fn meta(&self) -> BlockMeta {
        self.meta
    }

    /// The address at which the hole ends: the start of the object that was
    /// carved last.
    pub closed spec fn cursor(&self) -> int {
        self.cursor as int
    }

    /// The address at which the hole starts.
    pub closed spec fn limit(&self) -> int {
        self.limit as int
    }

    /// The first address of the block.
    pub open spec fn base(&self) -> int {
        self.block().base() as int
    }

    /// The bytes of the line-mark table.
    pub open spec fn marks(&self) -> Seq<u8> {
        self.meta()@
    }

    /// The block has the fixed block size, the hole lies between the base
    /// and the cursor start, and the hole starts on a line boundary.
    pub open spec fn wf(&self) -> bool {
        &&& self.block().wf()
        &&& self.block().size() == BLOCK_SIZE
        &&& self.meta().wf()
        &&& self.base() <= self.limit() <= self.cursor() <= self.base() + CURSOR_START_OFFSET
        &&& (self.limit() - self.base()) % (LINE_SIZE as int) == 0
    }

    /// The state of a block that nothing was carved from: the hole spans
    /// the whole data region, no line is marked, and the block is flagged
    /// as live.
    pub open spec fn is_fresh(&self) -> bool {
        &&& self.cursor() == self.base() + CURSOR_START_OFFSET
        &&& self.limit() == self.base()
        &&& self.marks() == fresh_marks()
    }

    /// Whether the current hole takes an object of `alloc_size` bytes.
    pub open spec fn fits(&self, alloc_size: int) -> bool {
        word_floor(self.cursor() - alloc_size) >= self.limit()
    }

    /// The hole that takes the place of the current one when that one is too
    /// small for `alloc_size` bytes, as block-relative offsets of its end
    /// and its start. The search begins at the start of the current hole.
    pub open spec fn next_hole(&self, alloc_size: int) -> Option<(usize, usize)> {
        if self.limit() > self.base() {
            hole_from(self.marks(), self.limit() - self.base(), alloc_size)
        } else {
            None
        }
    }

    /// The cursor and the limit after an allocation of `alloc_size` bytes,
    /// or `None` where the block has no room for it. The object is carved
    /// from the current hole if it fits there, and else from the next hole.
    /// Its address is the new cursor.
    pub open spec fn alloc_outcome(&self, alloc_size: int) -> Option<(int, int)> {
        if self.fits(alloc_size) {
            Some((word_floor(self.cursor() - alloc_size), self.limit()))
        } else {
            match self.next_hole(alloc_size) {
                Some((hi, lo)) => Some(
                    (word_floor(self.base() + hi - alloc_size), self.base() + lo),
                ),
                None => None,
            }
        }
    }

    /// Whether this is `before` after an allocation of `alloc_size` bytes
    /// that found room: the same block and marks, with the cursor and the
    /// limit that the allocation leaves.
    pub open spec fn is_after_alloc(&self, before: BumpBlock, alloc_size: int) -> bool {
        &&& self.block() == before.block()
        &&& self.meta() == before.meta()
        &&& before.alloc_outcome(alloc_size) == Some((self.cursor(), self.limit()))
    }

    /// Whether this is a block that was created and then gave out one object
    /// of `alloc_size` bytes, the object that the cursor now points at.
    pub open spec fn is_first_alloc(&self, alloc_size: int) -> bool {
        &&& self.wf()
        &&& self.marks() == fresh_marks()
        &&& self.limit() == self.base()
        &&& self.cursor() == word_floor(self.base() + CURSOR_START_OFFSET - alloc_size)
    }

    /// Acquires a block and sets it up for allocation. Fails only where the
    /// system has no memory for the block.
    pub fn new() -> (r: Result<BumpBlock, AllocError>)
        ensures
            match r {
                Ok(bump) => bump.wf() && bump.is_fresh(),
                Err(e) => e == AllocError::OOM,
            },
    {
        proof {
            lemma_block_size_is_pow2();
        }
        match Block::new(BLOCK_SIZE) {
            Ok(block) => Ok(BumpBlock::from_block(block)),
            Err(e) => Err(map_block_to_alloc_err(e)),
        }
    }

    /// Sets `block` up for allocation: the cursor at the cursor start, the
    /// limit at the base, all lines free, the block live.
    pub fn from_block(block: Block) -> (bump: BumpBlock)
        requires
            block.wf(),
            block.size() == BLOCK_SIZE,
        ensures
            bump.wf(),
            bump.is_fresh(),
            bump.block() == block,
    {
        let cursor: usize = block.as_ptr() + CURSOR_START_OFFSET;
        let limit: usize = block.as_ptr();
        let meta = BlockMeta::new();
        let mut result = BumpBlock { cursor, limit, block, meta };
        result.meta.mark_block_status(MarkedState::TrueMarked);
        assert(result.marks() =~= fresh_marks());
        result
    }

    /// Carves an object of `alloc_size` bytes and returns its address, or
    /// `None` where neither the current hole nor any hole below it has room.
    /// The block is left as it was when there is no room.
    pub fn inner_alloc(&mut self, alloc_size: usize) -> (r: Option<usize>)
        requires
            old(self).wf(),
        ensures
            final(self).wf(),
            final(self).block() == old(self).block(),
            final(self).meta() == old(self).meta(),
            match old(self).alloc_outcome(alloc_size as int) {
                Some((cursor, limit)) => r == Some(cursor as usize) && final(self).cursor()
                    == cursor && final(self).limit() == limit,
                None => r is None && *final(self) == *old(self),
            },
            r matches Some(addr) ==> addr % (word_size() as usize) == 0 && final(self).limit()
                <= addr && addr + alloc_size <= final(self).base() + CURSOR_START_OFFSET,
            old(self).fits(alloc_size as int) ==> r is Some && r.unwrap() + alloc_size <= old(
                self,
            ).cursor() && final(self).limit() == old(self).limit(),
    {
        let ghost before = *self;
        loop
            invariant
                self.wf(),
                before == *old(self),
                before.wf(),
                self.block() == before.block(),
                self.meta() == before.meta(),
                self.alloc_outcome(alloc_size as int) == before.alloc_outcome(alloc_size as int),
                *self == before || self.fits(alloc_size as int),
                before.fits(alloc_size as int) ==> *self == before,
            decreases
                    (if self.fits(alloc_size as int) {
                        0
                    } else {
                        1 + self.limit() - self.base()
                    }),
        {
            proof {
                lemma_word_floor(self.cursor() - alloc_size, self.limit());
            }
            let target: usize = match self.cursor.checked_sub(alloc_size) {
                Some(target) => target,
                None => {
                    proof {
                        self.lemma_no_room_for_huge(alloc_size as int);
                    }
                    return None;
                },
            };
            let next_ptr: usize = word_align(target);
            if next_ptr >= self.limit {
                self.cursor = next_ptr;
                return Some(next_ptr);
            }
            let block_relative_limit: usize = self.limit - self.block.as_ptr();
            if block_relative_limit == 0 {
                return None;
            }
            match self.meta.find_next_available_hole(block_relative_limit, alloc_size) {
                Some((cursor, limit)) => {
                    proof {
                        self.lemma_next_hole_fits(alloc_size as int);
                    }
                    self.cursor = self.block.as_ptr() + cursor;
                    self.limit = self.block.as_ptr() + limit;
                },
                None => {
                    return None;
                },
            }
        }
    }

    /// A request larger than the cursor's own address finds room nowhere in
    /// the block.
    proof fn lemma_no_room_for_huge(&self, alloc_size: int)
        requires
            self.wf(),
            alloc_size > self.cursor(),
        ensures
            self.alloc_outcome(alloc_size) is None,
    {
        lemma_word_floor(self.cursor() - alloc_size, self.limit());
        if self.limit() > self.base() {
            let top = (self.limit() - self.base()) / (LINE_SIZE as int);
            let need = lines_needed(alloc_size);
            if hole_below(self.marks(), top, need) is Some {
                lemma_hole_below(self.marks(), top, need);
            }
        }
    }

    /// The hole that a search returns lies inside the data region, below the
    /// start of the hole it replaces, and takes the object that it was
    /// searched for.
    pub proof fn lemma_next_hole_fits(&self, alloc_size: int)
        requires
            self.wf(),
            0 <= alloc_size,
            self.next_hole(alloc_size) is Some,
        ensures
            ({
                let (hi, lo) = self.next_hole(alloc_size).unwrap();
                &&& lo <= hi <= self.limit() - self.base()
                &&& lo % LINE_SIZE == 0
                &&& hi % LINE_SIZE == 0
                &&& alloc_size <= hi - lo
                &&& alloc_size > 0 ==> lo < self.limit() - self.base()
                &&& word_floor(self.base() + hi - alloc_size) >= self.base() + lo
            }),
    {
        let top = (self.limit() - self.base()) / (LINE_SIZE as int);
        let need = lines_needed(alloc_size);
        lemma_hole_below(self.marks(), top, need);
        let (hi, lo) = self.next_hole(alloc_size).unwrap();
        lemma_line_aligned_is_word_aligned(self.base() + lo, 0);
        lemma_word_floor(self.base() + hi - alloc_size, self.base() + lo);
    }

    /// Allocation within one hole descends. An object that fits into the
    /// current hole is placed below the cursor, at a distance of its size
    /// and less than a word more, and the hole keeps its start.
    pub proof fn lemma_bump_descends(&self, alloc_size: int)
        requires
            self.wf(),
            0 < alloc_size,
            self.fits(alloc_size),
        ensures
            ({
                let (cursor, limit) = self.alloc_outcome(alloc_size).unwrap();
                &&& limit == self.limit()
                &&& self.limit() <= cursor < self.cursor()
                &&& alloc_size <= self.cursor() - cursor < alloc_size + word_size()
            }),
    {
        lemma_word_floor(self.cursor() - alloc_size, self.limit());
    }

    /// A block that has no room for a request has none for a larger one.
    /// As a failed allocation leaves the block as it was, nothing of that
    /// size or more is carved from the block until its marks change.
    pub proof fn lemma_exhausted_stays_exhausted(&self, alloc_size: int, more: int)
        requires
            self.wf(),
            alloc_size <= more,
            self.alloc_outcome(alloc_size) is None,
        ensures
            self.alloc_outcome(more) is None,
    {
        lemma_word_floor(self.cursor() - alloc_size, self.cursor() - more);
        if self.limit() > self.base() {
            let top = (self.limit() - self.base()) / (LINE_SIZE as int);
            lemma_no_hole_for_more(self.marks(), top, lines_needed(alloc_size), lines_needed(more));
        }
    }

    /// A block that was just created takes a first object of any size up to
    /// the cursor start, and places it at the top of the data region.
    pub proof fn lemma_fresh_block_has_room(&self, alloc_size: int)
        requires
            self.wf(),
            self.is_fresh(),
            0 <= alloc_size <= CURSOR_START_OFFSET,
        ensures
            self.fits(alloc_size),
            self.alloc_outcome(alloc_size) == Some(
                (word_floor(self.base() + CURSOR_START_OFFSET - alloc_size), self.base()),
            ),
            word_floor(self.base() + CURSOR_START_OFFSET - alloc_size) == self.base() + word_floor(
                CURSOR_START_OFFSET - alloc_size,
            ),
    {
        assert(self.base() % (LINE_SIZE as int) == 0);
        lemma_line_aligned_is_word_aligned(self.base(), CURSOR_START_OFFSET - alloc_size);
        lemma_word_floor(CURSOR_START_OFFSET - alloc_size, 0);
    }

    /// Gives up the current hole and puts the search for the next one back
    /// at the top of the data region. The next allocation takes the highest
    /// hole that the line marks leave, so the lines that hold live objects
    /// have to be marked before the block is used again.
    pub fn rewind(&mut self)
        requires
            old(self).wf(),
        ensures
            final(self).wf(),
            final(self).block() == old(self).block(),
            final(self).meta() == old(self).meta(),
            final(self).cursor() == final(self).base() + CURSOR_START_OFFSET,
            final(self).limit() == final(self).cursor(),
    {
        let top: usize = self.block.as_ptr() + CURSOR_START_OFFSET;
        self.cursor = top;
        self.limit = top;
    }

    /// The bytes left in the current hole.
    pub fn current_hole_size(&self) -> (size: usize)
        requires
            self.wf(),
        ensures
            size == self.cursor() - self.limit(),
    {
        self.cursor - self.limit
    }

    /// Whether the block is flagged as live in the last byte of its mark
    /// table.
    pub fn block_is_live(&self) -> (live: bool)
        requires
            self.wf(),
        ensures
            live == (self.marks()[LINE_COUNT - 1] != 0),
    {
        self.meta.get_marked_index(LINE_COUNT - 1) != 0
    }

    /// The line-mark table, open to marking. The hole stays as it is.
    pub fn get_meta_mut(&mut self) -> (meta: &mut BlockMeta)
        ensures
            *meta == old(self).meta(),
            final(self).meta() == *final(meta),
            final(self).block() == old(self).block(),
            final(self).cursor() == old(self).cursor(),
            final(self).limit() == old(self).limit(),
    {
        &mut self.meta
    }
}

} // verus!
