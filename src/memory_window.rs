use vstd::prelude::*;

use crate::ptr::Ptr;

verus! {

/// A read-only view of a run of memory bytes and the address of the first.
pub struct MemoryWindow<'a> {
    addr: Ptr,
    data: &'a [u8],
}

impl<'a> MemoryWindow<'a> {
    /// The address of the window's first byte.
    pub closed spec fn start(&self) -> Ptr {
        self.addr
    }

    /// The window's bytes.
    pub closed spec fn bytes(&self) -> Seq<u8> {
        self.data@
    }

    pub fn new(addr: Ptr, data: &'a [u8]) -> (r: Self)
        ensures
            r.start() == addr,
            r.bytes() == data@,
    {
        MemoryWindow { addr, data }
    }

    pub fn ptr(&self) -> (r: Ptr)
        ensures
            r == self.start(),
    {
        self.addr
    }

    pub fn data(&self) -> (r: &'a [u8])
        ensures
            r@ == self.bytes(),
    {
        self.data
    }
}

} // verus!
