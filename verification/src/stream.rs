//! Tranches of bytes as readable, peekable streams.
//!
//! The three operations are those of a buffered reader: read some bytes into
//! a destination, look at the bytes that are left without consuming them,
//! and consume a number of the bytes looked at.

use crate::based::BasedTranche;
use crate::tranche::Tranche;
use vstd::prelude::*;

verus! {

/// The number of bytes that one `read` moves: the smaller of what the
/// tranche holds and what the destination has room for.
pub open spec fn spec_read_len(available: nat, room: nat) -> nat {
    if available <= room {
        available
    } else {
        room
    }
}

/// Copies all of `src` over the front of `dst` and returns how many bytes
/// that was.
fn copy_to_front(src: &[u8], dst: &mut [u8]) -> (n: usize)
    requires
        src@.len() <= old(dst)@.len(),
    ensures
        n == src@.len(),
        final(dst)@ == src@ + old(dst)@.skip(n as int),
{
    let n = src.len();
    let mut i: usize = 0;
    while i < n
        invariant
            i <= n == src@.len() <= dst@.len() == old(dst)@.len(),
            forall|j: int| 0 <= j < i ==> dst@[j] == src@[j],
            forall|j: int| i <= j < dst@.len() ==> dst@[j] == old(dst)@[j],
        decreases n - i,
    {
        dst[i] = src[i];
        i = i + 1;
    }
    assert(dst@ =~= src@ + old(dst)@.skip(n as int));
    n
}

impl<'a> Tranche<'a, u8> {
    /// Reads bytes from the front of the tranche into `buf`: as many as the
    /// tranche holds and `buf` has room for. The bytes read leave the
    /// tranche; what `buf` holds beyond them stays as it was.
    ///
    /// Reading from an empty tranche, or into an empty buffer, reads zero
    /// bytes and is no error.
    pub fn read(&mut self, buf: &mut [u8]) -> (n: usize)
        ensures
            n == spec_read_len(old(self)@.len(), old(buf)@.len()),
            final(buf)@ == old(self)@.take(n as int) + old(buf)@.skip(n as int),
            final(self).is_rest_of(old(self), n as nat),
    {
        let len = if self.len() <= buf.len() {
            self.len()
        } else {
            buf.len()
        };
        let front = self.take_front(len).unwrap();
        copy_to_front(front.as_slice(), buf)
    }

    /// Returns the bytes that can be read without consuming any of them: all
    /// that the tranche holds.
    pub fn fill_buf(&self) -> (bytes: &'a [u8])
        ensures
            bytes@ == self@,
    {
        self.as_slice()
    }

    /// Marks the first `len` bytes as read: they leave the tranche.
    ///
    /// The caller may only consume what `fill_buf` has shown, so `len` must
    /// not exceed the length of the tranche.
    pub fn consume(&mut self, len: usize)
        requires
            len <= old(self)@.len(),
        ensures
            final(self).is_rest_of(old(self), len as nat),
    {
        let _ = self.take_front(len);
    }
}

impl<'a> BasedTranche<'a, u8> {
    /// Reads bytes from the front of the tranche into `buf`: as many as the
    /// tranche holds and `buf` has room for. The bytes read leave the
    /// tranche; what `buf` holds beyond them stays as it was.
    ///
    /// Reading from an empty tranche, or into an empty buffer, reads zero
    /// bytes and is no error.
    pub fn read(&mut self, buf: &mut [u8]) -> (n: usize)
        ensures
            n == spec_read_len(old(self)@.len(), old(buf)@.len()),
            final(buf)@ == old(self)@.take(n as int) + old(buf)@.skip(n as int),
            final(self).is_rest_of(old(self), n as nat),
    {
        let len = if self.len() <= buf.len() {
            self.len()
        } else {
            buf.len()
        };
        let front = self.take_front(len).unwrap();
        copy_to_front(front.as_slice(), buf)
    }

    /// Returns the bytes that can be read without consuming any of them: all
    /// that the tranche holds.
    pub fn fill_buf(&self) -> (bytes: &'a [u8])
        ensures
            bytes@ == self@,
    {
        self.as_slice()
    }

    /// Marks the first `len` bytes as read: they leave the tranche.
    ///
    /// The caller may only consume what `fill_buf` has shown, so `len` must
    /// not exceed the length of the tranche.
    pub fn consume(&mut self, len: usize)
        requires
            len <= old(self)@.len(),
        ensures
            final(self).is_rest_of(old(self), len as nat),
    {
        let _ = self.take_front(len);
    }
}

} // verus!
