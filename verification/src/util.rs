//! Taking the first of a collection.
use vstd::prelude::*;
use std::collections::VecDeque;

verus! {

/// Reduces a collection to one of its items, if it has any.
pub trait IntoOne<V>: Sized {
    /// The item that `into_one` gives; each collection says which.
    spec fn one_item(&self) -> Option<V>;

    fn into_one(self) -> (r: Option<V>)
        ensures
            r == self.one_item(),
    ;
}

impl<V> IntoOne<V> for Option<V> {
    open spec fn one_item(&self) -> Option<V> {
        *self
    }

    fn into_one(self) -> (r: Option<V>)
        ensures
            r == self,
    {
        self
    }
}

impl<V> IntoOne<V> for Vec<V> {
    /// The first item, if any.
    open spec fn one_item(&self) -> Option<V> {
        if self@.len() == 0 { None } else { Some(self@[0]) }
    }

    /// The first item.
    fn into_one(self) -> (r: Option<V>)
        ensures
            self@.len() == 0 ==> r is None,
            self@.len() > 0 ==> r == Some(self@[0]),
    {
        let mut v = self;
        if v.len() == 0 {
            None
        } else {
            Some(v.remove(0))
        }
    }
}

impl<V> IntoOne<V> for VecDeque<V> {
    /// The first item, if any.
    open spec fn one_item(&self) -> Option<V> {
        if self@.len() == 0 { None } else { Some(self@[0]) }
    }

    /// The first item.
    fn into_one(self) -> (r: Option<V>)
        ensures
            self@.len() == 0 ==> r is None,
            self@.len() > 0 ==> r == Some(self@[0]),
    {
        let mut v = self;
        v.pop_front()
    }
}

} // verus!
