//! The based view: a tranche that remembers where it started.

use crate::error::UnexpectedEndError;
use crate::tranche::{distance, Tranche};
use vstd::prelude::*;
use vstd::std_specs::convert::FromSpecImpl;

verus! {

/// A based tranche of `T`.
///
/// Based tranches are just like tranches, with the addition of an `offset`
/// method which returns how many items were taken from the front since the
/// based tranche was made by `BasedTranche::new`.
///
/// A based tranche is a tranche and a base marker. The base is fixed when
/// the based tranche is made and never changes; the offset is the distance
/// from the base to the start marker of the tranche.
///
/// In contracts, `t@` is the sequence of the elements that `t` still holds,
/// `t.base()` is its base marker and `t.offset()` its offset.
pub struct BasedTranche<'a, T> {
    inner: Tranche<'a, T>,
    base: usize,
}

/// A based tranche of bytes, equipped with many convenience methods.
pub type BasedBufTranche<'a> = BasedTranche<'a, u8>;

impl<'a, T> View for BasedTranche<'a, T> {
    type V = Seq<T>;

    closed spec fn view(&self) -> Seq<T> {
        self.inner@
    }
}

impl<'a, T> BasedTranche<'a, T> {
    /// The base lies at or before the start marker.
    #[verifier::type_invariant]
    spec fn well_formed(&self) -> bool {
        self.base <= self.inner.start()
    }

    /// The base marker: the start marker that the tranche had when it was
    /// made based.
    pub closed spec fn base(&self) -> usize {
        self.base
    }

    /// The plain tranche inside: what `Tranche::from` returns.
    pub closed spec fn plain(&self) -> Tranche<'a, T> {
        self.inner
    }

    /// What [`offset`](Self::offset) returns: the distance from the base
    /// marker to the start marker.
    pub closed spec fn spec_offset(&self) -> usize {
        (self.inner.start() - self.base) as usize
    }

    /// The based tranche over `tranche` whose base is the start marker of
    /// `tranche`: what `BasedTranche::from` returns.
    pub closed spec fn based_at_start(tranche: Tranche<'a, T>) -> Self {
        BasedTranche { inner: tranche, base: tranche.start() }
    }

    /// Whether `self` is what is left of `before` once `n` elements have
    /// been taken from its front: the elements after them, on the same base,
    /// at an offset that is `n` larger.
    pub open spec fn is_rest_of(&self, before: &Self, n: nat) -> bool {
        &&& n <= before@.len()
        &&& self@ == before@.skip(n as int)
        &&& self.base() == before.base()
        &&& self.offset() == before.offset() + n
    }

    /// Whether `self` holds the first `n` elements of `whole`, in place: on
    /// the same base and at the same offset.
    pub open spec fn is_front_of(&self, whole: &Self, n: nat) -> bool {
        &&& n <= whole@.len()
        &&& self@ == whole@.take(n as int)
        &&& self.base() == whole.base()
        &&& self.offset() == whole.offset()
    }

    /// Whether `self` and `e` are what a request for `n` elements leaves
    /// when `before` holds fewer: the tranche as it was, and an error that
    /// names both numbers.
    pub open spec fn is_underrun_of(&self, before: &Self, n: nat, e: UnexpectedEndError) -> bool {
        &&& n > before@.len()
        &&& e.needed() == n
        &&& e.len() == before@.len()
        &&& *self == *before
    }

    /// Creates a new based tranche of `T`, covering the whole of `slice`.
    pub fn new(slice: &'a [T]) -> (t: Self)
        ensures
            t@ == slice@,
            t.base() == 0,
            t.offset() == 0,
    {
        BasedTranche::from(Tranche::new(slice))
    }

    /// Returns the number of elements in the tranche.
    pub fn len(&self) -> (n: usize)
        ensures
            n == self@.len(),
        no_unwind
    {
        self.inner.len()
    }

    /// Returns `true` if the tranche has a length of 0.
    pub fn is_empty(&self) -> (b: bool)
        ensures
            b <==> self@.len() == 0,
        no_unwind
    {
        self.inner.is_empty()
    }

    /// Returns the starting offset of this based tranche: how many elements
    /// lie between its base and its first element.
    #[verifier::when_used_as_spec(spec_offset)]
    pub fn offset(&self) -> (n: usize)
        ensures
            n == self.offset(),
            n == self.plain().start() - self.base(),
        no_unwind
    {
        proof {
            use_type_invariant(self);
        }
        distance(self.base, self.inner.start_index())
    }

    /// Takes the first element out of the tranche.
    ///
    /// Returns the first element of `self`, or `Err(_)` if it is empty, in
    /// which case `self` is left as it was.
    pub fn take_first(&mut self) -> (r: Result<&'a T, UnexpectedEndError>)
        ensures
            match r {
                Ok(first) => *first == old(self)@[0] && final(self).is_rest_of(old(self), 1),
                Err(e) => final(self).is_underrun_of(old(self), 1, e),
            },
        no_unwind
    {
        proof {
            use_type_invariant(&*self);
        }
        self.inner.take_first()
    }

    /// Takes the first `n` elements out of the tranche.
    ///
    /// Returns a new tranche with the first `n` elements of `self` and the
    /// base of `self`, or `Err(_)` if it is not long enough, in which case
    /// `self` is left as it was.
    pub fn take_front(&mut self, n: usize) -> (r: Result<Self, UnexpectedEndError>)
        ensures
            match r {
                Ok(front) => {
                    &&& front.is_front_of(old(self), n as nat)
                    &&& final(self).is_rest_of(old(self), n as nat)
                },
                Err(e) => final(self).is_underrun_of(old(self), n as nat, e),
            },
        no_unwind
    {
        proof {
            use_type_invariant(&*self);
        }
        match self.inner.take_front(n) {
            Ok(inner) => Ok(BasedTranche { inner, base: self.base }),
            Err(e) => Err(e),
        }
    }

    /// Views the tranche's buffer as a slice.
    ///
    /// This has the same lifetime as the underlying buffer, and so the tranche
    /// can continue to be used while this exists.
    pub fn as_slice(&self) -> (s: &'a [T])
        ensures
            s@ == self@,
    {
        self.inner.as_slice()
    }
}

impl<'a, T> Clone for BasedTranche<'a, T> {
    /// Another view of the same elements, on the same base. One may be cut
    /// without the other.
    fn clone(&self) -> (t: Self)
        ensures
            t == *self,
    {
        proof {
            use_type_invariant(self);
        }
        let inner = self.inner.clone();
        let base = self.base;
        BasedTranche { inner, base }
    }
}

impl<'a, T> Default for BasedTranche<'a, T> {
    /// The empty based tranche over an empty buffer.
    fn default() -> (t: Self)
        ensures
            t@ == Seq::<T>::empty(),
            t.base() == 0,
            t.offset() == 0,
    {
        BasedTranche::new(&[])
    }
}

impl<'a, T> FromSpecImpl<BasedTranche<'a, T>> for Tranche<'a, T> {
    open spec fn obeys_from_spec() -> bool {
        true
    }

    open spec fn from_spec(based_tranche: BasedTranche<'a, T>) -> Self {
        based_tranche.plain()
    }
}

impl<'a, T> From<BasedTranche<'a, T>> for Tranche<'a, T> {
    /// Discards the base: the same elements at the same place, no offset.
    fn from(based_tranche: BasedTranche<'a, T>) -> (t: Self)
        ensures
            t@ == based_tranche@,
            t.start() == based_tranche.base() + based_tranche.offset(),
    {
        proof {
            use_type_invariant(&based_tranche);
        }
        based_tranche.inner
    }
}

impl<'a, T> FromSpecImpl<Tranche<'a, T>> for BasedTranche<'a, T> {
    open spec fn obeys_from_spec() -> bool {
        true
    }

    open spec fn from_spec(tranche: Tranche<'a, T>) -> Self {
        BasedTranche::based_at_start(tranche)
    }
}

impl<'a, T> From<Tranche<'a, T>> for BasedTranche<'a, T> {
    /// Fixes the base at the current start of `tranche`: the same elements,
    /// counted from offset 0.
    fn from(tranche: Tranche<'a, T>) -> (t: Self)
        ensures
            t@ == tranche@,
            t.base() == tranche.start(),
            t.offset() == 0,
    {
        let base = tranche.start_index();
        BasedTranche { inner: tranche, base }
    }
}

impl<'a, T> BasedTranche<'a, T> {
    /// What the two conversions keep: making a tranche based keeps its
    /// elements and its place and starts the count at 0, and the plain
    /// tranche inside the result is the tranche itself.
    pub proof fn lemma_based_at_start(tranche: Tranche<'a, T>)
        ensures
            Self::based_at_start(tranche).plain() == tranche,
            Self::based_at_start(tranche)@ == tranche@,
            Self::based_at_start(tranche).base() == tranche.start(),
            Self::based_at_start(tranche).offset() == 0,
    {
    }
}

} // verus!
