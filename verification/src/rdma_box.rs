//! A value that lives in registered memory, and the handle that names it to
//! the other side.

use crate::memory_region::LocalMemoryRegion;
use crate::{RdmaLocalMemory, RdmaMemory, RdmaRemoteMemory, SizedLayout};
use std::alloc::Layout;
use std::marker::PhantomData;
use vstd::prelude::*;

verus! {

/// `Layout::new` of std: the layout of a value of type `T`.
#[verifier::external_body]
fn layout_of<T>() -> Layout {
    Layout::new::<T>()
}

/// A value of type `T` in a region registered on this side.
pub struct RdmaLocalBox<T> {
    mr: LocalMemoryRegion,
    data: usize,
    payload: PhantomData<T>,
}

/// What names a boxed value to the other side: its address there, its
/// length, and the key that opens it remotely.
#[derive(Clone, Copy, Debug, PartialEq, Eq, Structural)]
pub struct RdmaRemoteBox {
    pub ptr: usize,
    pub len: usize,
    pub rkey: u32,
}

impl<T> RdmaLocalBox<T> {
    /// The region that holds the value.
    pub closed spec fn region(&self) -> LocalMemoryRegion {
        self.mr
    }

    /// The address of the value, as contracts speak of it.
    pub closed spec fn data_addr(&self) -> usize {
        self.data
    }

    /// The box whose value fills `mr` from its first byte. A region that
    /// holds a value has nothing reserved inside it.
    pub fn from_region(mr: LocalMemoryRegion) -> (boxed: Self)
        requires
            mr@.reserved.len() == 0,
        ensures
            boxed.region() == mr,
            boxed.data_addr() == mr@.addr,
    {
        let data = mr.as_ptr();
        RdmaLocalBox { mr, data, payload: PhantomData }
    }

    /// The address of the value.
    pub fn ptr(&self) -> (addr: usize)
        ensures
            addr == self.data_addr(),
    {
        self.data
    }

    /// The number of bytes in the region that holds the value.
    pub fn len(&self) -> (len: usize)
        requires
            self.region()@.reserved.len() == 0,
        ensures
            len == self.region()@.len,
    {
        self.mr.length()
    }

    /// The key that local work requests name.
    pub fn lkey(&self) -> (key: u32)
        ensures
            key == self.region()@.kind.root_of().local_key(),
    {
        self.mr.lkey()
    }

    /// The handle that names the value to the other side.
    pub fn remote_box(&self) -> (remote: RdmaRemoteBox)
        requires
            self.region()@.reserved.len() == 0,
        ensures
            remote == (RdmaRemoteBox {
                ptr: self.data_addr(),
                len: self.region()@.len,
                rkey: self.region()@.token().rkey,
            }),
    {
        RdmaRemoteBox { ptr: self.ptr(), len: self.len(), rkey: self.mr.rkey() }
    }

    /// Gives the region back.
    pub fn into_region(self) -> (mr: LocalMemoryRegion)
        ensures
            mr == self.region(),
    {
        self.mr
    }
}

impl<T> RdmaMemory for RdmaLocalBox<T> {
    closed spec fn addr_of(&self) -> usize {
        self.data
    }

    closed spec fn length_of(&self) -> usize {
        self.mr@.len
    }

    open spec fn leaf(&self) -> bool {
        self.region()@.reserved.len() == 0
    }

    fn is_leaf(&self) -> (leaf: bool) {
        self.mr.is_leaf()
    }

    fn addr(&self) -> (addr: usize) {
        self.data
    }

    fn length(&self) -> (len: usize) {
        self.mr.length()
    }
}

impl<T> RdmaLocalMemory for RdmaLocalBox<T> {
    closed spec fn lkey_of(&self) -> u32 {
        self.mr@.kind.root_of().local_key()
    }

    fn lkey(&self) -> (key: u32) {
        self.mr.lkey()
    }
}

impl<T> SizedLayout for RdmaLocalBox<T> {
    fn layout() -> Layout {
        layout_of::<T>()
    }
}

impl RdmaMemory for RdmaRemoteBox {
    open spec fn addr_of(&self) -> usize {
        self.ptr
    }

    open spec fn length_of(&self) -> usize {
        self.len
    }

    open spec fn leaf(&self) -> bool {
        true
    }

    fn is_leaf(&self) -> (leaf: bool) {
        true
    }

    fn addr(&self) -> (addr: usize) {
        self.ptr
    }

    fn length(&self) -> (len: usize) {
        self.len
    }
}

impl RdmaRemoteMemory for RdmaRemoteBox {
    open spec fn rkey_of(&self) -> u32 {
        self.rkey
    }

    fn rkey(&self) -> (key: u32) {
        self.rkey
    }
}

} // verus!
