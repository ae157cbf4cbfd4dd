//! Tranches as forward iterators over references to their elements.
//!
//! Iterating consumes: each element yielded is gone from the tranche, and a
//! tranche cannot be rewound.

use crate::based::BasedTranche;
use crate::tranche::Tranche;
use vstd::prelude::*;

verus! {

impl<'a, T> Tranche<'a, T> {
    /// Advances the tranche as an iterator does: yields its first element
    /// and moves past it, or yields `None` once the tranche is empty, and
    /// then again on every later call.
    pub fn next(&mut self) -> (item: Option<&'a T>)
        ensures
            match item {
                Some(first) => *first == old(self)@[0] && final(self).is_rest_of(old(self), 1),
                None => old(self)@.len() == 0 && *final(self) == *old(self),
            },
    {
        self.take_first().ok()
    }

    /// Returns the bounds on the number of elements that `next` will still
    /// yield: both are the length of the tranche.
    pub fn size_hint(&self) -> (hint: (usize, Option<usize>))
        ensures
            hint.0 == self@.len(),
            hint.1 == Some(hint.0),
    {
        let len = self.len();
        (len, Some(len))
    }

    /// Consumes the tranche and returns the number of elements that `next`
    /// would still have yielded.
    pub fn count(self) -> (n: usize)
        ensures
            n == self@.len(),
    {
        self.len()
    }
}

impl<'a, T> BasedTranche<'a, T> {
    /// Advances the tranche as an iterator does: yields its first element
    /// and moves past it, or yields `None` once the tranche is empty, and
    /// then again on every later call.
    pub fn next(&mut self) -> (item: Option<&'a T>)
        ensures
            match item {
                Some(first) => *first == old(self)@[0] && final(self).is_rest_of(old(self), 1),
                None => old(self)@.len() == 0 && *final(self) == *old(self),
            },
    {
        self.take_first().ok()
    }

    /// Returns the bounds on the number of elements that `next` will still
    /// yield: both are the length of the tranche.
    pub fn size_hint(&self) -> (hint: (usize, Option<usize>))
        ensures
            hint.0 == self@.len(),
            hint.1 == Some(hint.0),
    {
        let len = self.len();
        (len, Some(len))
    }

    /// Consumes the tranche and returns the number of elements that `next`
    /// would still have yielded.
    pub fn count(self) -> (n: usize)
        ensures
            n == self@.len(),
    {
        self.len()
    }
}

} // verus!
