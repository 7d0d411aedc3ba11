//! Borrowed views of raw boundary values, each tied to the lifetime of the
//! memory it points into.
use vstd::prelude::*;
use crate::sys;

verus! {

pub struct FilamentStr<'a> {
    inner: sys::FilamentString,
    _marker: core::marker::PhantomData<&'a u8>,
}

pub struct FilamentBlob<'a> {
    inner: sys::FilamentBlob,
    _marker: core::marker::PhantomData<&'a u8>,
}

pub struct FilamentMap<'a> {
    inner: sys::FilamentArray,
    _marker: core::marker::PhantomData<&'a u8>,
}

pub struct FilamentList<'a> {
    inner: sys::FilamentArray,
    _marker: core::marker::PhantomData<&'a u8>,
}

pub struct FilamentBytes<'a> {
    inner: sys::FilamentArray,
    _marker: core::marker::PhantomData<&'a u8>,
}

impl<'a> FilamentStr<'a> {
    pub fn new(inner: sys::FilamentString) -> (r: Self)
        ensures
            r.raw() == inner,
    {
        FilamentStr { inner, _marker: core::marker::PhantomData }
    }

    pub closed spec fn raw(self) -> sys::FilamentString {
        self.inner
    }

    /// Its length in bytes.
    pub fn len(&self) -> (r: u64)
        ensures
            r == self.raw().len,
    {
        self.inner.len
    }
}

impl<'a> FilamentBlob<'a> {
    pub fn new(inner: sys::FilamentBlob) -> (r: Self)
        ensures
            r.raw() == inner,
    {
        FilamentBlob { inner, _marker: core::marker::PhantomData }
    }

    pub closed spec fn raw(self) -> sys::FilamentBlob {
        self.inner
    }

    /// The blob's handle.
    pub fn handle(&self) -> (r: sys::FilamentBlobHandle)
        ensures
            r == self.raw().handle,
    {
        self.inner.handle
    }

    /// The blob's size in bytes.
    pub fn size(&self) -> (r: u64)
        ensures
            r == self.raw().size,
    {
        self.inner.size
    }
}

impl<'a> FilamentMap<'a> {
    pub fn new(inner: sys::FilamentArray) -> (r: Self)
        ensures
            r.raw() == inner,
    {
        FilamentMap { inner, _marker: core::marker::PhantomData }
    }

    pub closed spec fn raw(self) -> sys::FilamentArray {
        self.inner
    }

    /// The number of key/value pairs.
    pub fn len(&self) -> (r: u64)
        ensures
            r == self.raw().len,
    {
        self.inner.len
    }
}

impl<'a> FilamentList<'a> {
    pub fn new(inner: sys::FilamentArray) -> (r: Self)
        ensures
            r.raw() == inner,
    {
        FilamentList { inner, _marker: core::marker::PhantomData }
    }

    pub closed spec fn raw(self) -> sys::FilamentArray {
        self.inner
    }

    /// The number of items.
    pub fn len(&self) -> (r: u64)
        ensures
            r == self.raw().len,
    {
        self.inner.len
    }
}

impl<'a> FilamentBytes<'a> {
    pub fn new(inner: sys::FilamentArray) -> (r: Self)
        ensures
            r.raw() == inner,
    {
        FilamentBytes { inner, _marker: core::marker::PhantomData }
    }

    pub closed spec fn raw(self) -> sys::FilamentArray {
        self.inner
    }

    /// The number of bytes.
    pub fn len(&self) -> (r: u64)
        ensures
            r == self.raw().len,
    {
        self.inner.len
    }
}

} // verus!
