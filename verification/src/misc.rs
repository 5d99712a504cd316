//! Conversions between the error vocabularies of the layers.

use vstd::prelude::*;
use crate::block::BlockError;
use crate::enums::AllocError;

verus! {

/// The allocation error that stands for a block error.
pub open spec fn alloc_err_of(block_err: BlockError) -> AllocError {
    match block_err {
        BlockError::BadRequest => AllocError::BadRequest,
        BlockError::OOM => AllocError::OOM,
    }
}

/// Turns the error of a block acquisition into the error of an allocation.
pub fn map_block_to_alloc_err(block_err: BlockError) -> (err: AllocError)
    ensures
        err == alloc_err_of(block_err),
{
    match block_err {
        BlockError::BadRequest => AllocError::BadRequest,
        BlockError::OOM => AllocError::OOM,
    }
}

} // verus!
