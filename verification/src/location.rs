use std::ops::Deref;
use vstd::prelude::*;

verus! {

/// Where a value lives: in memory that someone else owns for as long as the
/// program runs, or in storage held here.
#[derive(Debug)]
pub enum Location<T: 'static + ?Sized> {
    /// A view of a value owned elsewhere.
    Foreign(&'static T),
    /// A value held in storage of its own.
    Local(Box<T>),
}

impl<T: 'static + ?Sized> Location<T> {
    /// The value, wherever it lives.
    pub open spec fn value(&self) -> &T {
        match self {
            Location::Foreign(item) => *item,
            Location::Local(item) => &**item,
        }
    }
}

impl<T: 'static + ?Sized> Deref for Location<T> {
    type Target = T;

    /// The value, wherever it lives.
    fn deref(&self) -> (r: &T)
        ensures
            r == self.value(),
    {
        match self {
            Location::Foreign(item) => item,
            Location::Local(item) => item,
        }
    }
}

} // verus!
