//! The heap: the entry point that routes an allocation request, by its size
//! class, to the block that serves it.

use vstd::prelude::*;
use std::marker::PhantomData;
use crate::blocklist::{BlockList, slot_alloc};
use crate::bump::BumpBlock;
use crate::consts::CURSOR_START_OFFSET;
use crate::enums::{AllocError, SizeClass};

verus! {

/// Whether a request goes to the overflow block: a medium object that the
/// current hole of the head block has no room for. The head block is not
/// searched for another hole on behalf of such an object.
pub open spec fn goes_to_overflow(list: BlockList, alloc_size: int, size_class: SizeClass) -> bool {
    &&& size_class == SizeClass::Medium
    &&& list.head() is Some
    &&& list.head().unwrap().cursor() - list.head().unwrap().limit() < alloc_size
}

/// What a request does to the blocks of a heap, and what it returns.
///
/// A large object is turned down and nothing changes. A medium object that
/// does not fit into the current hole of the head block is allocated through
/// the overflow slot, and the head is left alone. Every other object is
/// allocated through the head slot, and the overflow block is left alone.
pub open spec fn find_space_outcome(
    before: BlockList,
    after: BlockList,
    alloc_size: int,
    size_class: SizeClass,
    r: Result<usize, AllocError>,
) -> bool {
    if size_class == SizeClass::Large {
        r == Err::<usize, AllocError>(AllocError::BadRequest) && after == before
    } else if goes_to_overflow(before, alloc_size, size_class) {
        &&& after.head() == before.head()
        &&& slot_alloc(
            before.overflow(),
            before.rest(),
            after.overflow(),
            after.rest(),
            alloc_size,
            r,
        )
    } else {
        &&& after.overflow() == before.overflow()
        &&& slot_alloc(before.head(), before.rest(), after.head(), after.rest(), alloc_size, r)
    }
}

/// A heap for objects whose headers have type `H`. Allocation takes the
/// heap by exclusive reference: one caller at a time.
pub struct StickyImmixHeap<H> {
    blocks: BlockList,
    _header_type: PhantomData<H>,
}

impl<H> StickyImmixHeap<H> {
    /// The blocks of the heap.
    pub closed spec fn blocks(&self) -> BlockList {
        self.blocks
    }

    /// Every block of the heap is well formed.
    pub open spec fn wf(&self) -> bool {
        self.blocks().wf()
    }

    /// A heap without blocks. The first block is acquired by the first
    /// allocation.
    pub fn new() -> (heap: StickyImmixHeap<H>)
        ensures
            heap.wf(),
            heap.blocks().head() is None,
            heap.blocks().overflow() is None,
            heap.blocks().rest().len() == 0,
    {
        StickyImmixHeap { blocks: BlockList::new(), _header_type: PhantomData }
    }

    /// Finds room for an object of `alloc_size` bytes and returns its
    /// address.
    pub fn find_space(&mut self, alloc_size: usize, size_class: SizeClass) -> (r: Result<
        usize,
        AllocError,
    >)
        requires
            old(self).wf(),
            size_class != SizeClass::Large ==> alloc_size <= CURSOR_START_OFFSET,
        ensures
            final(self).wf(),
            find_space_outcome(
                old(self).blocks(),
                final(self).blocks(),
                alloc_size as int,
                size_class,
                r,
            ),
    {
        if size_class == SizeClass::Large {
            return Err(AllocError::BadRequest);
        }
        let medium_overflows = match self.blocks.get_head_block() {
            Some(head) => size_class == SizeClass::Medium && head.current_hole_size() < alloc_size,
            None => false,
        };
        if medium_overflows {
            return self.blocks.overflow_alloc(alloc_size);
        }
        match self.blocks.get_head_mut() {
            Some(head) => {
                match head.inner_alloc(alloc_size) {
                    Some(space) => {
                        return Ok(space);
                    },
                    None => {},
                }
            },
            None => {},
        }
        match BumpBlock::new() {
            Ok(fresh) => {
                proof {
                    fresh.lemma_fresh_block_has_room(alloc_size as int);
                }
                Ok(self.blocks.replace_head(fresh, alloc_size))
            },
            Err(e) => Err(e),
        }
    }

    /// The blocks of the heap.
    pub fn get_blocks_mut(&mut self) -> (list: &mut BlockList)
        ensures
            *list == old(self).blocks(),
            final(self).blocks() == *final(list),
    {
        &mut self.blocks
    }
}

} // verus!
