//! The blocks of a heap: the block that small objects go to, the block that
//! takes what does not fit there, and the blocks that were retired.

use vstd::prelude::*;
use crate::bump::BumpBlock;
use crate::consts::CURSOR_START_OFFSET;
use crate::enums::AllocError;

verus! {

/// The retired blocks after the block in `slot`, if there is one, joined
/// them.
pub open spec fn retire(rest: Seq<BumpBlock>, slot: Option<BumpBlock>) -> Seq<BumpBlock> {
    match slot {
        Some(block) => rest.push(block),
        None => rest,
    }
}

/// Whether every block of `blocks` is well formed.
pub open spec fn all_wf(blocks: Seq<BumpBlock>) -> bool {
    forall|i: int| 0 <= i < blocks.len() ==> (#[trigger] blocks[i]).wf()
}

/// Retiring a well-formed block leaves the retired blocks well formed.
pub proof fn lemma_retire_keeps_wf(rest: Seq<BumpBlock>, slot: Option<BumpBlock>)
    requires
        all_wf(rest),
        slot is Some ==> slot.unwrap().wf(),
    ensures
        all_wf(retire(rest, slot)),
{
    assert forall|i: int| 0 <= i < retire(rest, slot).len() implies (#[trigger] retire(
        rest,
        slot,
    )[i]).wf() by {
        if i < rest.len() {
            assert(retire(rest, slot)[i] == rest[i]);
        }
    }
}

/// What an allocation of `alloc_size` bytes through one slot of the list
/// does to that slot and to the retired blocks, and what it returns.
///
/// Where the block in the slot has room, the object is carved from it. Else
/// a new block is acquired. If that fails, the error is out of memory and
/// nothing changes. If it succeeds, the old block is retired, the new block
/// takes the slot, and the object is the first one carved from it.
pub open spec fn slot_alloc(
    slot: Option<BumpBlock>,
    rest: Seq<BumpBlock>,
    new_slot: Option<BumpBlock>,
    new_rest: Seq<BumpBlock>,
    alloc_size: int,
    r: Result<usize, AllocError>,
) -> bool {
    if slot is Some && slot.unwrap().alloc_outcome(alloc_size) is Some {
        &&& r is Ok
        &&& new_slot is Some
        &&& new_slot.unwrap().is_after_alloc(slot.unwrap(), alloc_size)
        &&& r.unwrap() == new_slot.unwrap().cursor()
        &&& new_rest == rest
    } else {
        match r {
            Ok(addr) => {
                &&& new_slot is Some
                &&& new_slot.unwrap().is_first_alloc(alloc_size)
                &&& addr == new_slot.unwrap().cursor()
                &&& new_rest == retire(rest, slot)
            },
            Err(e) => e == AllocError::OOM && new_slot == slot && new_rest == rest,
        }
    }
}

/// Retires the block in `slot`, if there is one, puts `fresh` in its place
/// and carves the first object of `alloc_size` bytes from it.
fn install(
    slot: &mut Option<BumpBlock>,
    rest: &mut Vec<BumpBlock>,
    fresh: BumpBlock,
    alloc_size: usize,
) -> (addr: usize)
    requires
        *old(slot) is Some ==> old(slot).unwrap().wf(),
        all_wf(old(rest)@),
        fresh.wf(),
        fresh.alloc_outcome(alloc_size as int) is Some,
    ensures
        final(rest)@ == retire(old(rest)@, *old(slot)),
        all_wf(final(rest)@),
        *final(slot) is Some,
        final(slot).unwrap().wf(),
        final(slot).unwrap().is_after_alloc(fresh, alloc_size as int),
        addr == final(slot).unwrap().cursor(),
{
    let mut fresh = fresh;
    let addr = fresh.inner_alloc(alloc_size).unwrap();
    proof {
        lemma_retire_keeps_wf(rest@, *slot);
    }
    match slot.take() {
        Some(previous) => {
            rest.push(previous);
        },
        None => {},
    }
    *slot = Some(fresh);
    addr
}

/// The blocks of a heap. Each block is held in exactly one place: as the
/// head, as the overflow block, or among the retired blocks.
pub struct BlockList {
    head: Option<BumpBlock>,
    overflow: Option<BumpBlock>,
    rest: Vec<BumpBlock>,
}

impl BlockList {
    /// The block that allocation goes to first.
    pub closed spec fn head(&self) -> Option<BumpBlock> {
        self.head
    }

    /// The block for objects that the head has no hole for.
    pub closed spec fn overflow(&self) -> Option<BumpBlock> {
        self.overflow
    }

    /// The retired blocks, oldest first.
    pub closed spec fn rest(&self) -> Seq<BumpBlock> {
        self.rest@
    }

    /// Every block of the list is well formed.
    pub open spec fn wf(&self) -> bool {
        &&& self.head() is Some ==> self.head().unwrap().wf()
        &&& self.overflow() is Some ==> self.overflow().unwrap().wf()
        &&& all_wf(self.rest())
    }

    /// A list without blocks.
    pub fn new() -> (list: BlockList)
        ensures
            list.wf(),
            list.head() is None,
            list.overflow() is None,
            list.rest().len() == 0,
    {
        BlockList { head: None, overflow: None, rest: Vec::new() }
    }

    /// Allocates `alloc_size` bytes in the overflow block. A block without
    /// room is retired and a new one takes its place.
    pub fn overflow_alloc(&mut self, alloc_size: usize) -> (r: Result<usize, AllocError>)
        requires
            old(self).wf(),
            alloc_size <= CURSOR_START_OFFSET,
        ensures
            final(self).wf(),
            final(self).head() == old(self).head(),
            slot_alloc(
                old(self).overflow(),
                old(self).rest(),
                final(self).overflow(),
                final(self).rest(),
                alloc_size as int,
                r,
            ),
    {
        match &mut self.overflow {
            Some(overflow) => {
                match overflow.inner_alloc(alloc_size) {
                    Some(space) => {
                        return Ok(space);
                    },
                    None => {},
                }
            },
            None => {},
        }
        match BumpBlock::new() {
            Ok(fresh) => {
                proof {
                    fresh.lemma_fresh_block_has_room(alloc_size as int);
                }
                Ok(self.replace_overflow(fresh, alloc_size))
            },
            Err(e) => Err(e),
        }
    }

    /// Retires the overflow block, if there is one, puts `fresh` in its
    /// place and carves the first object of `alloc_size` bytes from it.
    pub fn replace_overflow(&mut self, fresh: BumpBlock, alloc_size: usize) -> (addr: usize)
        requires
            old(self).wf(),
            fresh.wf(),
            fresh.alloc_outcome(alloc_size as int) is Some,
        ensures
            final(self).wf(),
            final(self).head() == old(self).head(),
            final(self).rest() == retire(old(self).rest(), old(self).overflow()),
            final(self).overflow() is Some,
            final(self).overflow().unwrap().is_after_alloc(fresh, alloc_size as int),
            addr == final(self).overflow().unwrap().cursor(),
    {
        install(&mut self.overflow, &mut self.rest, fresh, alloc_size)
    }

    /// Retires the head block, if there is one, puts `fresh` in its place
    /// and carves the first object of `alloc_size` bytes from it.
    pub fn replace_head(&mut self, fresh: BumpBlock, alloc_size: usize) -> (addr: usize)
        requires
            old(self).wf(),
            fresh.wf(),
            fresh.alloc_outcome(alloc_size as int) is Some,
        ensures
            final(self).wf(),
            final(self).overflow() == old(self).overflow(),
            final(self).rest() == retire(old(self).rest(), old(self).head()),
            final(self).head() is Some,
            final(self).head().unwrap().is_after_alloc(fresh, alloc_size as int),
            addr == final(self).head().unwrap().cursor(),
    {
        install(&mut self.head, &mut self.rest, fresh, alloc_size)
    }

    /// Adds `block` to the retired blocks.
    pub fn push_to_rest(&mut self, block: BumpBlock)
        requires
            old(self).wf(),
            block.wf(),
        ensures
            final(self).wf(),
            final(self).head() == old(self).head(),
            final(self).overflow() == old(self).overflow(),
            final(self).rest() == old(self).rest().push(block),
    {
        self.rest.push(block);
        proof {
            lemma_retire_keeps_wf(old(self).rest(), Some(block));
        }
    }

    /// The head block, to look at.
    pub fn get_head_block(&self) -> (head: &Option<BumpBlock>)
        ensures
            *head == self.head(),
    {
        &self.head
    }

    /// The slot of the head block, open to change.
    pub fn get_head_mut(&mut self) -> (head: &mut Option<BumpBlock>)
        ensures
            *head == old(self).head(),
            final(self).head() == *final(head),
            final(self).overflow() == old(self).overflow(),
            final(self).rest() == old(self).rest(),
    {
        &mut self.head
    }

    /// The retired blocks, open to change.
    pub fn get_rest_mut(&mut self) -> (rest: &mut Vec<BumpBlock>)
        ensures
            rest@ == old(self).rest(),
            final(self).rest() == final(rest)@,
            final(self).head() == old(self).head(),
            final(self).overflow() == old(self).overflow(),
    {
        &mut self.rest
    }
}

} // verus!
