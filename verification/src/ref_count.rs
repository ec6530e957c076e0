use crate::hresult::{HRESULT, S_FALSE, S_OK};
use vstd::prelude::*;

verus! {

/// Counts the objects that the host still holds, so that the module knows
/// when it may be unloaded. Each object handed to the host adds a reference
/// when it is made and releases it when it is dropped.
pub struct ModuleRefCount {
    count: usize,
}

impl View for ModuleRefCount {
    type V = nat;

    closed spec fn view(&self) -> nat {
        self.count as nat
    }
}

impl ModuleRefCount {
    /// A count of no references.
    pub fn new() -> (r: Self)
        ensures
            r@ == 0,
    {
        ModuleRefCount { count: 0 }
    }

    /// The number of references held.
    pub fn count(&self) -> (r: usize)
        ensures
            r == self@,
    {
        self.count
    }

    /// Adds a reference. The count wraps round past the largest number.
    pub fn add_ref(&mut self)
        ensures
            final(self)@ == (if old(self)@ == usize::MAX {
                0
            } else {
                old(self)@ + 1
            }),
    {
        self.count = self.count.wrapping_add(1);
    }

    /// Releases a reference. The count wraps round below zero.
    pub fn release(&mut self)
        ensures
            final(self)@ == (if old(self)@ == 0 {
                usize::MAX as nat
            } else {
                (old(self)@ - 1) as nat
            }),
    {
        self.count = self.count.wrapping_sub(1);
    }

    /// Whether the module may be unloaded: success when no reference is
    /// held, the negative success otherwise.
    pub fn can_unload_now(&self) -> (r: HRESULT)
        ensures
            r == (if self@ == 0 {
                HRESULT(S_OK)
            } else {
                HRESULT(S_FALSE)
            }),
    {
        if self.count == 0 {
            HRESULT(S_OK)
        } else {
            HRESULT(S_FALSE)
        }
    }
}

} // verus!
