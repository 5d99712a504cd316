//! The address of an object, tagged with the object's type.

use vstd::prelude::*;
use std::marker::PhantomData;

verus! {

/// The address of a value of type `T` in the heap. It is never null.
pub struct RawPtr<T> {
    addr: usize,
    _marker: PhantomData<T>,
}

impl<T> RawPtr<T> {
    /// The address that the pointer holds.
    pub closed spec fn addr(&self) -> usize {
        self.addr
    }

    /// A pointer never holds the null address.
    pub open spec fn wf(&self) -> bool {
        self.addr() != 0
    }

    /// The pointer to the value at `addr`.
    pub fn new(addr: usize) -> (ptr: RawPtr<T>)
        requires
            addr != 0,
        ensures
            ptr.wf(),
            ptr.addr() == addr,
    {
        RawPtr { addr, _marker: PhantomData }
    }

    /// The address as a number.
    pub fn as_usize(&self) -> (addr: usize)
        ensures
            addr == self.addr(),
    {
        self.addr
    }
}

} // verus!
