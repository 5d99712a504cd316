//! What a host runtime supplies and implements to allocate typed objects on
//! top of the heap: a type identifier, an object header, and the allocator
//! interface itself. The heap does not look into headers; it only hands out
//! the memory that they and their objects live in.

use vstd::prelude::*;
use crate::enums::{AllocError, Mark, SizeClass};
use crate::rawptr::RawPtr;
use crate::typedefs::{ArraySize, ObjectSize};

verus! {

/// The allocator as the host runtime sees it.
pub trait AllocRaw {
    /// The header that precedes every object.
    type Header: AllocHeader;

    /// Moves `object` into the heap and returns its address.
    fn alloc_object<T>(&self, object: T) -> Result<RawPtr<T>, AllocError> where
        T: AllocObject<<Self::Header as AllocHeader>::TypeId>,
    ;

    /// Allocates an array of `size_bytes` bytes and returns its address.
    fn alloc_array<T>(&self, size_bytes: ArraySize) -> Result<RawPtr<u8>, AllocError>;

    /// The header of the object at `object`.
    fn get_header(object: RawPtr<()>) -> RawPtr<Self::Header>;

    /// The object that the header at `header` belongs to.
    fn get_object(header: RawPtr<Self::Header>) -> RawPtr<()>;
}

/// A value that identifies the type of an object. Anything that can be
/// copied will do.
pub trait AllocTypeId: Copy + Clone {

}

/// A type whose values can live in the heap.
pub trait AllocObject<T: AllocTypeId> {
    /// The identifier of this type.
    const TYPE_ID: T;
}

/// The header of an object: its type, its size and size class, and its mark.
pub trait AllocHeader: Sized {
    /// The type identifiers that headers of this kind carry.
    type TypeId: AllocTypeId;

    /// The header of an object of type `O`.
    fn new<O: AllocObject<Self::TypeId>>(size: u32, size_class: SizeClass, mark: Mark) -> Self;

    /// The header of an array of bytes.
    fn new_array(size: ArraySize, size_class: SizeClass, mark: Mark) -> Self;

    /// Sets the mark of the object to marked.
    fn mark(&mut self);

    /// Whether the object is marked.
    fn is_marked(&self) -> bool;

    /// The size class of the object.
    fn size_class(&self) -> SizeClass;

    /// The size of the object in bytes.
    fn size(&self) -> ObjectSize;

    /// The identifier of the object's type.
    fn type_id(&self) -> Self::TypeId;
}

} // verus!
