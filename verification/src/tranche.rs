//! The plain view: a window into a borrowed buffer that is cut from its
//! front.

use crate::error::UnexpectedEndError;
use vstd::prelude::*;

verus! {

/// A tranche of `T`.
///
/// Tranches are like slices, but they are geared towards being cut from
/// their front, and thus don't implement indexing. A tranche is a window
/// into a buffer that it borrows and never owns: a start marker and an end
/// marker, both counted in elements from the beginning of that buffer, so
/// that elements without a size are counted like any others. Taking
/// elements moves the start marker forward, and nothing ever moves it back.
///
/// In contracts, `t@` is the sequence of the elements that `t` still holds,
/// and `t.start()` is its start marker.
pub struct Tranche<'a, T> {
    buf: &'a [T],
    start: usize,
    end: usize,
}

/// A tranche of bytes, equipped with many convenience methods.
pub type BufTranche<'a> = Tranche<'a, u8>;

impl<'a, T> View for Tranche<'a, T> {
    type V = Seq<T>;

    closed spec fn view(&self) -> Seq<T> {
        self.buf@.subrange(self.start as int, self.end as int)
    }
}

/// The number of elements between two markers of one buffer. Every length
/// and every offset is measured here.
pub(crate) fn distance(start: usize, end: usize) -> (n: usize)
    requires
        start <= end,
    ensures
        n == end - start,
    no_unwind
{
    end - start
}

impl<'a, T> Tranche<'a, T> {
    /// The markers are in order and within the buffer.
    #[verifier::type_invariant]
    spec fn well_formed(&self) -> bool {
        self.start <= self.end <= self.buf@.len()
    }

    /// The start marker: how many elements of the underlying buffer lie
    /// before the first element of the tranche.
    pub closed spec fn start(&self) -> usize {
        self.start
    }

    /// Whether `self` is what is left of `before` once `n` elements have
    /// been taken from its front.
    pub open spec fn is_rest_of(&self, before: &Self, n: nat) -> bool {
        &&& n <= before@.len()
        &&& self@ == before@.skip(n as int)
        &&& self.start() == before.start() + n
    }

    /// Whether `self` holds the first `n` elements of `whole`, in place.
    pub open spec fn is_front_of(&self, whole: &Self, n: nat) -> bool {
        &&& n <= whole@.len()
        &&& self@ == whole@.take(n as int)
        &&& self.start() == whole.start()
    }

    /// Whether `self` and `e` are what a request for `n` elements leaves
    /// when `before` holds fewer: the tranche as it was, and an error that
    /// names both numbers.
    pub open spec fn is_underrun_of(&self, before: &Self, n: nat, e: UnexpectedEndError) -> bool {
        &&& n > before@.len()
        &&& e.needed() == n
        &&& e.len() == before@.len()
        &&& *self == *before
    }

    /// Creates a new tranche of `T`, covering the whole of `slice`.
    pub fn new(slice: &'a [T]) -> (t: Self)
        ensures
            t@ == slice@,
            t.start() == 0,
    {
        let t = Tranche { buf: slice, start: 0, end: slice.len() };
        assert(t@ =~= slice@);
        t
    }

    /// Returns the number of elements in the tranche.
    pub fn len(&self) -> (n: usize)
        ensures
            n == self@.len(),
        no_unwind
    {
        proof {
            use_type_invariant(self);
        }
        distance(self.start, self.end)
    }

    /// Returns `true` if the tranche has a length of 0.
    pub fn is_empty(&self) -> (b: bool)
        ensures
            b <==> self@.len() == 0,
        no_unwind
    {
        proof {
            use_type_invariant(self);
        }
        self.start == self.end
    }

    /// Takes the first element out of the tranche.
    ///
    /// Returns the first element of `self`, or `Err(_)` if it is empty, in
    /// which case `self` is left as it was.
    pub fn take_first(&mut self) -> (r: Result<&'a T, UnexpectedEndError>)
        ensures
            match r {
                Ok(first) => *first == old(self)@[0] && final(self).is_rest_of(old(self), 1),
                Err(e) => final(self).is_underrun_of(old(self), 1, e),
            },
        no_unwind
    {
        if self.is_empty() {
            return Err(UnexpectedEndError::new(1, 0));
        }
        let first = self.post_inc_start(1);
        proof {
            use_type_invariant(&*self);
        }
        Ok(&self.buf[first])
    }

    /// Takes the first `n` elements out of the tranche.
    ///
    /// Returns a new tranche with the first `n` elements of `self`, or
    /// `Err(_)` if it is not long enough, in which case `self` is left as it
    /// was.
    pub fn take_front(&mut self, n: usize) -> (r: Result<Self, UnexpectedEndError>)
        ensures
            match r {
                Ok(front) => {
                    &&& front.is_front_of(old(self), n as nat)
                    &&& final(self).is_rest_of(old(self), n as nat)
                },
                Err(e) => final(self).is_underrun_of(old(self), n as nat, e),
            },
        no_unwind
    {
        let len = self.len();
        if n > len {
            return Err(UnexpectedEndError::new(n, len));
        }
        let start = self.post_inc_start(n);
        let end = self.start;
        proof {
            use_type_invariant(&*self);
        }
        let front = Tranche { buf: self.buf, start, end };
        assert(front@ =~= old(self)@.take(n as int));
        Ok(front)
    }

    /// Views the tranche's buffer as a slice.
    ///
    /// This has the same lifetime as the underlying buffer, and so the tranche
    /// can continue to be used while this exists.
    pub fn as_slice(&self) -> (s: &'a [T])
        ensures
            s@ == self@,
    {
        proof {
            use_type_invariant(self);
        }
        &self.buf[self.start..self.end]
    }

    /// Returns the start marker.
    pub(crate) fn start_index(&self) -> (i: usize)
        ensures
            i == self.start(),
        no_unwind
    {
        self.start
    }

    /// Moves the start marker `offset` elements forward and returns where it
    /// stood before. This is the one place that moves a marker.
    fn post_inc_start(&mut self, offset: usize) -> (first: usize)
        requires
            offset <= old(self)@.len(),
        ensures
            first == old(self).start,
            final(self).start == first + offset,
            final(self).end == old(self).end,
            final(self).buf == old(self).buf,
            final(self).is_rest_of(old(self), offset as nat),
        no_unwind
    {
        proof {
            use_type_invariant(&*self);
        }
        let first = self.start;
        self.start = first + offset;
        assert(self@ =~= old(self)@.skip(offset as int));
        first
    }
}

impl<'a, T> Clone for Tranche<'a, T> {
    /// Another view of the same elements. One may be cut without the other.
    fn clone(&self) -> (t: Self)
        ensures
            t == *self,
    {
        proof {
            use_type_invariant(self);
        }
        Tranche { buf: self.buf, start: self.start, end: self.end }
    }
}

impl<'a, T> Default for Tranche<'a, T> {
    /// The empty tranche over an empty buffer.
    fn default() -> (t: Self)
        ensures
            t@ == Seq::<T>::empty(),
            t.start() == 0,
    {
        Tranche::new(&[])
    }
}

} // verus!
