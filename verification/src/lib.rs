//! A block-structured bump allocator in the Immix style.
//!
//! Memory is acquired in fixed-size, self-aligned blocks. Each block is cut
//! into lines that carry a mark byte, and objects are carved from the free
//! hole of a block by a cursor that moves downward. Addresses are plain
//! `usize` values; the library never reads or writes the memory it hands out.

pub mod allocator_api;
pub mod block;
pub mod blocklist;
pub mod bump;
pub mod consts;
pub mod enums;
pub mod heap;
pub mod linemarks;
pub mod misc;
pub mod rawptr;
pub mod typedefs;
