//! Typed extraction: fixed-width integers taken from the front of a tranche
//! of bytes.
//!
//! Every taker reserves the bytes it needs with `take_front` (a single byte
//! with `take_first`), so a tranche that is too short is reported by the
//! same error and left untouched, and a based tranche counts the bytes taken
//! in its offset.

use crate::based::BasedTranche;
use crate::bytes::{
    be_u128, be_value, i128_from_ne_bytes, i16_from_ne_bytes, i32_from_ne_bytes,
    i64_from_ne_bytes, is_native_signed, is_native_unsigned, isize_from_ne_bytes, le_u128,
    le_value, lemma_pow256_values, signed, to_i128, to_i16, to_i32, to_i64, to_i8, to_isize,
    u128_from_ne_bytes, u16_from_ne_bytes, u32_from_ne_bytes, u64_from_ne_bytes,
    usize_from_ne_bytes, word_size, word_width,
};
use crate::error::UnexpectedEndError;
use crate::tranche::Tranche;
use vstd::prelude::*;

verus! {

impl<'a> Tranche<'a, u8> {
    /// Takes the first `u8` out of the tranche.
    ///
    /// Returns `Err(_)` if `self` is not long enough.
    pub fn take_u8(&mut self) -> (r: Result<u8, UnexpectedEndError>)
        ensures
            match r {
                Ok(v) => {
                    &&& v == old(self)@[0]
                    &&& final(self).is_rest_of(old(self), 1)
                },
                Err(e) => final(self).is_underrun_of(old(self), 1, e),
            },
    {
        match self.take_first() {
            Ok(byte) => Ok(*byte),
            Err(e) => Err(e),
        }
    }

    /// Takes the first `i8` out of the tranche: the first byte, read in
    /// two's complement.
    ///
    /// Returns `Err(_)` if `self` is not long enough.
    pub fn take_i8(&mut self) -> (r: Result<i8, UnexpectedEndError>)
        ensures
            match r {
                Ok(v) => {
                    &&& v == signed(old(self)@[0] as nat, 1)
                    &&& final(self).is_rest_of(old(self), 1)
                },
                Err(e) => final(self).is_underrun_of(old(self), 1, e),
            },
    {
        match self.take_u8() {
            Ok(byte) => Ok(to_i8(byte)),
            Err(e) => Err(e),
        }
    }

    /// Returns a `u16` by taking the first 2 bytes out
    /// of the tranche in native endian order.
    ///
    /// Returns `Err(_)` if `self` is not long enough.
    pub fn take_u16_ne(&mut self) -> (r: Result<u16, UnexpectedEndError>)
        ensures
            match r {
                Ok(v) => {
                    &&& is_native_unsigned(v as nat, old(self)@.take(2))
                    &&& final(self).is_rest_of(old(self), 2)
                },
                Err(e) => final(self).is_underrun_of(old(self), 2, e),
            },
    {
        match self.take_front(2) {
            Ok(bytes) => Ok(u16_from_ne_bytes(bytes.as_slice())),
            Err(e) => Err(e),
        }
    }

    /// Returns a `u16` by taking the first 2 bytes out
    /// of the tranche in little endian order.
    ///
    /// Returns `Err(_)` if `self` is not long enough.
    pub fn take_u16_le(&mut self) -> (r: Result<u16, UnexpectedEndError>)
        ensures
            match r {
                Ok(v) => {
                    &&& v == le_value(old(self)@.take(2))
                    &&& final(self).is_rest_of(old(self), 2)
                },
                Err(e) => final(self).is_underrun_of(old(self), 2, e),
            },
    {
        match self.take_front(2) {
            Ok(bytes) => {
                proof {
                    lemma_pow256_values();
                }
                Ok(le_u128(bytes.as_slice()) as u16)
            },
            Err(e) => Err(e),
        }
    }

    /// Returns a `u16` by taking the first 2 bytes out
    /// of the tranche in big endian order.
    ///
    /// Returns `Err(_)` if `self` is not long enough.
    pub fn take_u16_be(&mut self) -> (r: Result<u16, UnexpectedEndError>)
        ensures
            match r {
                Ok(v) => {
                    &&& v == be_value(old(self)@.take(2))
                    &&& final(self).is_rest_of(old(self), 2)
                },
                Err(e) => final(self).is_underrun_of(old(self), 2, e),
            },
    {
        match self.take_front(2) {
            Ok(bytes) => {
                proof {
                    lemma_pow256_values();
                }
                Ok(be_u128(bytes.as_slice()) as u16)
            },
            Err(e) => Err(e),
        }
    }

    /// Returns an `i16` by taking the first 2 bytes out
    /// of the tranche in native endian order.
    ///
    /// Returns `Err(_)` if `self` is not long enough.
    pub fn take_i16_ne(&mut self) -> (r: Result<i16, UnexpectedEndError>)
        ensures
            match r {
                Ok(v) => {
                    &&& is_native_signed(v as int, old(self)@.take(2))
                    &&& final(self).is_rest_of(old(self), 2)
                },
                Err(e) => final(self).is_underrun_of(old(self), 2, e),
            },
    {
        match self.take_front(2) {
            Ok(bytes) => Ok(i16_from_ne_bytes(bytes.as_slice())),
            Err(e) => Err(e),
        }
    }

    /// Returns an `i16` by taking the first 2 bytes out
    /// of the tranche in little endian order.
    ///
    /// Returns `Err(_)` if `self` is not long enough.
    pub fn take_i16_le(&mut self) -> (r: Result<i16, UnexpectedEndError>)
        ensures
            match r {
                Ok(v) => {
                    &&& v == signed(le_value(old(self)@.take(2)), 2)
                    &&& final(self).is_rest_of(old(self), 2)
                },
                Err(e) => final(self).is_underrun_of(old(self), 2, e),
            },
    {
        match self.take_front(2) {
            Ok(bytes) => {
                proof {
                    lemma_pow256_values();
                }
                Ok(to_i16(le_u128(bytes.as_slice()) as u16))
            },
            Err(e) => Err(e),
        }
    }

    /// Returns an `i16` by taking the first 2 bytes out
    /// of the tranche in big endian order.
    ///
    /// Returns `Err(_)` if `self` is not long enough.
    pub fn take_i16_be(&mut self) -> (r: Result<i16, UnexpectedEndError>)
        ensures
            match r {
                Ok(v) => {
                    &&& v == signed(be_value(old(self)@.take(2)), 2)
                    &&& final(self).is_rest_of(old(self), 2)
                },
                Err(e) => final(self).is_underrun_of(old(self), 2, e),
            },
    {
        match self.take_front(2) {
            Ok(bytes) => {
                proof {
                    lemma_pow256_values();
                }
                Ok(to_i16(be_u128(bytes.as_slice()) as u16))
            },
            Err(e) => Err(e),
        }
    }

    /// Returns a `u32` by taking the first 4 bytes out
    /// of the tranche in native endian order.
    ///
    /// Returns `Err(_)` if `self` is not long enough.
    pub fn take_u32_ne(&mut self) -> (r: Result<u32, UnexpectedEndError>)
        ensures
            match r {
                Ok(v) => {
                    &&& is_native_unsigned(v as nat, old(self)@.take(4))
                    &&& final(self).is_rest_of(old(self), 4)
                },
                Err(e) => final(self).is_underrun_of(old(self), 4, e),
            },
    {
        match self.take_front(4) {
            Ok(bytes) => Ok(u32_from_ne_bytes(bytes.as_slice())),
            Err(e) => Err(e),
        }
    }

    /// Returns a `u32` by taking the first 4 bytes out
    /// of the tranche in little endian order.
    ///
    /// Returns `Err(_)` if `self` is not long enough.
    pub fn take_u32_le(&mut self) -> (r: Result<u32, UnexpectedEndError>)
        ensures
            match r {
                Ok(v) => {
                    &&& v == le_value(old(self)@.take(4))
                    &&& final(self).is_rest_of(old(self), 4)
                },
                Err(e) => final(self).is_underrun_of(old(self), 4, e),
            },
    {
        match self.take_front(4) {
            Ok(bytes) => {
                proof {
                    lemma_pow256_values();
                }
                Ok(le_u128(bytes.as_slice()) as u32)
            },
            Err(e) => Err(e),
        }
    }

    /// Returns a `u32` by taking the first 4 bytes out
    /// of the tranche in big endian order.
    ///
    /// Returns `Err(_)` if `self` is not long enough.
    pub fn take_u32_be(&mut self) -> (r: Result<u32, UnexpectedEndError>)
        ensures
            match r {
                Ok(v) => {
                    &&& v == be_value(old(self)@.take(4))
                    &&& final(self).is_rest_of(old(self), 4)
                },
                Err(e) => final(self).is_underrun_of(old(self), 4, e),
            },
    {
        match self.take_front(4) {
            Ok(bytes) => {
                proof {
                    lemma_pow256_values();
                }
                Ok(be_u128(bytes.as_slice()) as u32)
            },
            Err(e) => Err(e),
        }
    }

    /// Returns an `i32` by taking the first 4 bytes out
    /// of the tranche in native endian order.
    ///
    /// Returns `Err(_)` if `self` is not long enough.
    pub fn take_i32_ne(&mut self) -> (r: Result<i32, UnexpectedEndError>)
        ensures
            match r {
                Ok(v) => {
                    &&& is_native_signed(v as int, old(self)@.take(4))
                    &&& final(self).is_rest_of(old(self), 4)
                },
                Err(e) => final(self).is_underrun_of(old(self), 4, e),
            },
    {
        match self.take_front(4) {
            Ok(bytes) => Ok(i32_from_ne_bytes(bytes.as_slice())),
            Err(e) => Err(e),
        }
    }

    /// Returns an `i32` by taking the first 4 bytes out
    /// of the tranche in little endian order.
    ///
    /// Returns `Err(_)` if `self` is not long enough.
    pub fn take_i32_le(&mut self) -> (r: Result<i32, UnexpectedEndError>)
        ensures
            match r {
                Ok(v) => {
                    &&& v == signed(le_value(old(self)@.take(4)), 4)
                    &&& final(self).is_rest_of(old(self), 4)
                },
                Err(e) => final(self).is_underrun_of(old(self), 4, e),
            },
    {
        match self.take_front(4) {
            Ok(bytes) => {
                proof {
                    lemma_pow256_values();
                }
                Ok(to_i32(le_u128(bytes.as_slice()) as u32))
            },
            Err(e) => Err(e),
        }
    }

    /// Returns an `i32` by taking the first 4 bytes out
    /// of the tranche in big endian order.
    ///
    /// Returns `Err(_)` if `self` is not long enough.
    pub fn take_i32_be(&mut self) -> (r: Result<i32, UnexpectedEndError>)
        ensures
            match r {
                Ok(v) => {
                    &&& v == signed(be_value(old(self)@.take(4)), 4)
                    &&& final(self).is_rest_of(old(self), 4)
                },
                Err(e) => final(self).is_underrun_of(old(self), 4, e),
            },
    {
        match self.take_front(4) {
            Ok(bytes) => {
                proof {
                    lemma_pow256_values();
                }
                Ok(to_i32(be_u128(bytes.as_slice()) as u32))
            },
            Err(e) => Err(e),
        }
    }

    /// Returns a `u64` by taking the first 8 bytes out
    /// of the tranche in native endian order.
    ///
    /// Returns `Err(_)` if `self` is not long enough.
    pub fn take_u64_ne(&mut self) -> (r: Result<u64, UnexpectedEndError>)
        ensures
            match r {
                Ok(v) => {
                    &&& is_native_unsigned(v as nat, old(self)@.take(8))
                    &&& final(self).is_rest_of(old(self), 8)
                },
                Err(e) => final(self).is_underrun_of(old(self), 8, e),
            },
    {
        match self.take_front(8) {
            Ok(bytes) => Ok(u64_from_ne_bytes(bytes.as_slice())),
            Err(e) => Err(e),
        }
    }

    /// Returns a `u64` by taking the first 8 bytes out
    /// of the tranche in little endian order.
    ///
    /// Returns `Err(_)` if `self` is not long enough.
    pub fn take_u64_le(&mut self) -> (r: Result<u64, UnexpectedEndError>)
        ensures
            match r {
                Ok(v) => {
                    &&& v == le_value(old(self)@.take(8))
                    &&& final(self).is_rest_of(old(self), 8)
                },
                Err(e) => final(self).is_underrun_of(old(self), 8, e),
            },
    {
        match self.take_front(8) {
            Ok(bytes) => {
                proof {
                    lemma_pow256_values();
                }
                Ok(le_u128(bytes.as_slice()) as u64)
            },
            Err(e) => Err(e),
        }
    }

    /// Returns a `u64` by taking the first 8 bytes out
    /// of the tranche in big endian order.
    ///
    /// Returns `Err(_)` if `self` is not long enough.
    pub fn take_u64_be(&mut self) -> (r: Result<u64, UnexpectedEndError>)
        ensures
            match r {
                Ok(v) => {
                    &&& v == be_value(old(self)@.take(8))
                    &&& final(self).is_rest_of(old(self), 8)
                },
                Err(e) => final(self).is_underrun_of(old(self), 8, e),
            },
    {
        match self.take_front(8) {
            Ok(bytes) => {
                proof {
                    lemma_pow256_values();
                }
                Ok(be_u128(bytes.as_slice()) as u64)
            },
            Err(e) => Err(e),
        }
    }

    /// Returns an `i64` by taking the first 8 bytes out
    /// of the tranche in native endian order.
    ///
    /// Returns `Err(_)` if `self` is not long enough.
    pub fn take_i64_ne(&mut self) -> (r: Result<i64, UnexpectedEndError>)
        ensures
            match r {
                Ok(v) => {
                    &&& is_native_signed(v as int, old(self)@.take(8))
                    &&& final(self).is_rest_of(old(self), 8)
                },
                Err(e) => final(self).is_underrun_of(old(self), 8, e),
            },
    {
        match self.take_front(8) {
            Ok(bytes) => Ok(i64_from_ne_bytes(bytes.as_slice())),
            Err(e) => Err(e),
        }
    }

    /// Returns an `i64` by taking the first 8 bytes out
    /// of the tranche in little endian order.
    ///
    /// Returns `Err(_)` if `self` is not long enough.
    pub fn take_i64_le(&mut self) -> (r: Result<i64, UnexpectedEndError>)
        ensures
            match r {
                Ok(v) => {
                    &&& v == signed(le_value(old(self)@.take(8)), 8)
                    &&& final(self).is_rest_of(old(self), 8)
                },
                Err(e) => final(self).is_underrun_of(old(self), 8, e),
            },
    {
        match self.take_front(8) {
            Ok(bytes) => {
                proof {
                    lemma_pow256_values();
                }
                Ok(to_i64(le_u128(bytes.as_slice()) as u64))
            },
            Err(e) => Err(e),
        }
    }

    /// Returns an `i64` by taking the first 8 bytes out
    /// of the tranche in big endian order.
    ///
    /// Returns `Err(_)` if `self` is not long enough.
    pub fn take_i64_be(&mut self) -> (r: Result<i64, UnexpectedEndError>)
        ensures
            match r {
                Ok(v) => {
                    &&& v == signed(be_value(old(self)@.take(8)), 8)
                    &&& final(self).is_rest_of(old(self), 8)
                },
                Err(e) => final(self).is_underrun_of(old(self), 8, e),
            },
    {
        match self.take_front(8) {
            Ok(bytes) => {
                proof {
                    lemma_pow256_values();
                }
                Ok(to_i64(be_u128(bytes.as_slice()) as u64))
            },
            Err(e) => Err(e),
        }
    }

    /// Returns a `u128` by taking the first 16 bytes out
    /// of the tranche in native endian order.
    ///
    /// Returns `Err(_)` if `self` is not long enough.
    pub fn take_u128_ne(&mut self) -> (r: Result<u128, UnexpectedEndError>)
        ensures
            match r {
                Ok(v) => {
                    &&& is_native_unsigned(v as nat, old(self)@.take(16))
                    &&& final(self).is_rest_of(old(self), 16)
                },
                Err(e) => final(self).is_underrun_of(old(self), 16, e),
            },
    {
        match self.take_front(16) {
            Ok(bytes) => Ok(u128_from_ne_bytes(bytes.as_slice())),
            Err(e) => Err(e),
        }
    }

    /// Returns a `u128` by taking the first 16 bytes out
    /// of the tranche in little endian order.
    ///
    /// Returns `Err(_)` if `self` is not long enough.
    pub fn take_u128_le(&mut self) -> (r: Result<u128, UnexpectedEndError>)
        ensures
            match r {
                Ok(v) => {
                    &&& v == le_value(old(self)@.take(16))
                    &&& final(self).is_rest_of(old(self), 16)
                },
                Err(e) => final(self).is_underrun_of(old(self), 16, e),
            },
    {
        match self.take_front(16) {
            Ok(bytes) => {
                proof {
                    lemma_pow256_values();
                }
                Ok(le_u128(bytes.as_slice()) as u128)
            },
            Err(e) => Err(e),
        }
    }

    /// Returns a `u128` by taking the first 16 bytes out
    /// of the tranche in big endian order.
    ///
    /// Returns `Err(_)` if `self` is not long enough.
    pub fn take_u128_be(&mut self) -> (r: Result<u128, UnexpectedEndError>)
        ensures
            match r {
                Ok(v) => {
                    &&& v == be_value(old(self)@.take(16))
                    &&& final(self).is_rest_of(old(self), 16)
                },
                Err(e) => final(self).is_underrun_of(old(self), 16, e),
            },
    {
        match self.take_front(16) {
            Ok(bytes) => {
                proof {
                    lemma_pow256_values();
                }
                Ok(be_u128(bytes.as_slice()) as u128)
            },
            Err(e) => Err(e),
        }
    }

    /// Returns an `i128` by taking the first 16 bytes out
    /// of the tranche in native endian order.
    ///
    /// Returns `Err(_)` if `self` is not long enough.
    pub fn take_i128_ne(&mut self) -> (r: Result<i128, UnexpectedEndError>)
        ensures
            match r {
                Ok(v) => {
                    &&& is_native_signed(v as int, old(self)@.take(16))
                    &&& final(self).is_rest_of(old(self), 16)
                },
                Err(e) => final(self).is_underrun_of(old(self), 16, e),
            },
    {
        match self.take_front(16) {
            Ok(bytes) => Ok(i128_from_ne_bytes(bytes.as_slice())),
            Err(e) => Err(e),
        }
    }

    /// Returns an `i128` by taking the first 16 bytes out
    /// of the tranche in little endian order.
    ///
    /// Returns `Err(_)` if `self` is not long enough.
    pub fn take_i128_le(&mut self) -> (r: Result<i128, UnexpectedEndError>)
        ensures
            match r {
                Ok(v) => {
                    &&& v == signed(le_value(old(self)@.take(16)), 16)
                    &&& final(self).is_rest_of(old(self), 16)
                },
                Err(e) => final(self).is_underrun_of(old(self), 16, e),
            },
    {
        match self.take_front(16) {
            Ok(bytes) => {
                proof {
                    lemma_pow256_values();
                }
                Ok(to_i128(le_u128(bytes.as_slice()) as u128))
            },
            Err(e) => Err(e),
        }
    }

    /// Returns an `i128` by taking the first 16 bytes out
    /// of the tranche in big endian order.
    ///
    /// Returns `Err(_)` if `self` is not long enough.
    pub fn take_i128_be(&mut self) -> (r: Result<i128, UnexpectedEndError>)
        ensures
            match r {
                Ok(v) => {
                    &&& v == signed(be_value(old(self)@.take(16)), 16)
                    &&& final(self).is_rest_of(old(self), 16)
                },
                Err(e) => final(self).is_underrun_of(old(self), 16, e),
            },
    {
        match self.take_front(16) {
            Ok(bytes) => {
                proof {
                    lemma_pow256_values();
                }
                Ok(to_i128(be_u128(bytes.as_slice()) as u128))
            },
            Err(e) => Err(e),
        }
    }

    /// Returns a `usize` by taking the first `mem::size_of::<usize>()` bytes out
    /// of the tranche in native endian order.
    ///
    /// Returns `Err(_)` if `self` is not long enough.
    pub fn take_usize_ne(&mut self) -> (r: Result<usize, UnexpectedEndError>)
        ensures
            match r {
                Ok(v) => {
                    &&& is_native_unsigned(v as nat, old(self)@.take(word_width() as int))
                    &&& final(self).is_rest_of(old(self), word_width())
                },
                Err(e) => final(self).is_underrun_of(old(self), word_width(), e),
            },
    {
        match self.take_front(word_size()) {
            Ok(bytes) => Ok(usize_from_ne_bytes(bytes.as_slice())),
            Err(e) => Err(e),
        }
    }

    /// Returns a `usize` by taking the first `mem::size_of::<usize>()` bytes out
    /// of the tranche in little endian order.
    ///
    /// Returns `Err(_)` if `self` is not long enough.
    pub fn take_usize_le(&mut self) -> (r: Result<usize, UnexpectedEndError>)
        ensures
            match r {
                Ok(v) => {
                    &&& v == le_value(old(self)@.take(word_width() as int))
                    &&& final(self).is_rest_of(old(self), word_width())
                },
                Err(e) => final(self).is_underrun_of(old(self), word_width(), e),
            },
    {
        match self.take_front(word_size()) {
            Ok(bytes) => {
                proof {
                    lemma_pow256_values();
                }
                Ok(le_u128(bytes.as_slice()) as usize)
            },
            Err(e) => Err(e),
        }
    }

    /// Returns a `usize` by taking the first `mem::size_of::<usize>()` bytes out
    /// of the tranche in big endian order.
    ///
    /// Returns `Err(_)` if `self` is not long enough.
    pub fn take_usize_be(&mut self) -> (r: Result<usize, UnexpectedEndError>)
        ensures
            match r {
                Ok(v) => {
                    &&& v == be_value(old(self)@.take(word_width() as int))
                    &&& final(self).is_rest_of(old(self), word_width())
                },
                Err(e) => final(self).is_underrun_of(old(self), word_width(), e),
            },
    {
        match self.take_front(word_size()) {
            Ok(bytes) => {
                proof {
                    lemma_pow256_values();
                }
                Ok(be_u128(bytes.as_slice()) as usize)
            },
            Err(e) => Err(e),
        }
    }

    /// Returns an `isize` by taking the first `mem::size_of::<isize>()` bytes out
    /// of the tranche in native endian order.
    ///
    /// Returns `Err(_)` if `self` is not long enough.
    pub fn take_isize_ne(&mut self) -> (r: Result<isize, UnexpectedEndError>)
        ensures
            match r {
                Ok(v) => {
                    &&& is_native_signed(v as int, old(self)@.take(word_width() as int))
                    &&& final(self).is_rest_of(old(self), word_width())
                },
                Err(e) => final(self).is_underrun_of(old(self), word_width(), e),
            },
    {
        match self.take_front(word_size()) {
            Ok(bytes) => Ok(isize_from_ne_bytes(bytes.as_slice())),
            Err(e) => Err(e),
        }
    }

    /// Returns an `isize` by taking the first `mem::size_of::<isize>()` bytes out
    /// of the tranche in little endian order.
    ///
    /// Returns `Err(_)` if `self` is not long enough.
    pub fn take_isize_le(&mut self) -> (r: Result<isize, UnexpectedEndError>)
        ensures
            match r {
                Ok(v) => {
                    &&& v == signed(le_value(old(self)@.take(word_width() as int)), word_width())
                    &&& final(self).is_rest_of(old(self), word_width())
                },
                Err(e) => final(self).is_underrun_of(old(self), word_width(), e),
            },
    {
        match self.take_front(word_size()) {
            Ok(bytes) => {
                proof {
                    lemma_pow256_values();
                }
                Ok(to_isize(le_u128(bytes.as_slice()) as usize))
            },
            Err(e) => Err(e),
        }
    }

    /// Returns an `isize` by taking the first `mem::size_of::<isize>()` bytes out
    /// of the tranche in big endian order.
    ///
    /// Returns `Err(_)` if `self` is not long enough.
    pub fn take_isize_be(&mut self) -> (r: Result<isize, UnexpectedEndError>)
        ensures
            match r {
                Ok(v) => {
                    &&& v == signed(be_value(old(self)@.take(word_width() as int)), word_width())
                    &&& final(self).is_rest_of(old(self), word_width())
                },
                Err(e) => final(self).is_underrun_of(old(self), word_width(), e),
            },
    {
        match self.take_front(word_size()) {
            Ok(bytes) => {
                proof {
                    lemma_pow256_values();
                }
                Ok(to_isize(be_u128(bytes.as_slice()) as usize))
            },
            Err(e) => Err(e),
        }
    }
}

impl<'a> BasedTranche<'a, u8> {
    /// Takes the first `u8` out of the tranche.
    ///
    /// The internal offset is incremented accordingly.
    ///
    /// Returns `Err(_)` if `self` is not long enough.
    pub fn take_u8(&mut self) -> (r: Result<u8, UnexpectedEndError>)
        ensures
            match r {
                Ok(v) => {
                    &&& v == old(self)@[0]
                    &&& final(self).is_rest_of(old(self), 1)
                },
                Err(e) => final(self).is_underrun_of(old(self), 1, e),
            },
    {
        match self.take_first() {
            Ok(byte) => Ok(*byte),
            Err(e) => Err(e),
        }
    }

    /// Takes the first `i8` out of the tranche: the first byte, read in
    /// two's complement.
    ///
    /// The internal offset is incremented accordingly.
    ///
    /// Returns `Err(_)` if `self` is not long enough.
    pub fn take_i8(&mut self) -> (r: Result<i8, UnexpectedEndError>)
        ensures
            match r {
                Ok(v) => {
                    &&& v == signed(old(self)@[0] as nat, 1)
                    &&& final(self).is_rest_of(old(self), 1)
                },
                Err(e) => final(self).is_underrun_of(old(self), 1, e),
            },
    {
        match self.take_u8() {
            Ok(byte) => Ok(to_i8(byte)),
            Err(e) => Err(e),
        }
    }

    /// Returns a `u16` by taking the first 2 bytes out
    /// of the tranche in native endian order.
    ///
    /// The internal offset is incremented accordingly.
    ///
    /// Returns `Err(_)` if `self` is not long enough.
    pub fn take_u16_ne(&mut self) -> (r: Result<u16, UnexpectedEndError>)
        ensures
            match r {
                Ok(v) => {
                    &&& is_native_unsigned(v as nat, old(self)@.take(2))
                    &&& final(self).is_rest_of(old(self), 2)
                },
                Err(e) => final(self).is_underrun_of(old(self), 2, e),
            },
    {
        match self.take_front(2) {
            Ok(bytes) => Ok(u16_from_ne_bytes(bytes.as_slice())),
            Err(e) => Err(e),
        }
    }

    /// Returns a `u16` by taking the first 2 bytes out
    /// of the tranche in little endian order.
    ///
    /// The internal offset is incremented accordingly.
    ///
    /// Returns `Err(_)` if `self` is not long enough.
    pub fn take_u16_le(&mut self) -> (r: Result<u16, UnexpectedEndError>)
        ensures
            match r {
                Ok(v) => {
                    &&& v == le_value(old(self)@.take(2))
                    &&& final(self).is_rest_of(old(self), 2)
                },
                Err(e) => final(self).is_underrun_of(old(self), 2, e),
            },
    {
        match self.take_front(2) {
            Ok(bytes) => {
                proof {
                    lemma_pow256_values();
                }
                Ok(le_u128(bytes.as_slice()) as u16)
            },
            Err(e) => Err(e),
        }
    }

    /// Returns a `u16` by taking the first 2 bytes out
    /// of the tranche in big endian order.
    ///
    /// The internal offset is incremented accordingly.
    ///
    /// Returns `Err(_)` if `self` is not long enough.
    pub fn take_u16_be(&mut self) -> (r: Result<u16, UnexpectedEndError>)
        ensures
            match r {
                Ok(v) => {
                    &&& v == be_value(old(self)@.take(2))
                    &&& final(self).is_rest_of(old(self), 2)
                },
                Err(e) => final(self).is_underrun_of(old(self), 2, e),
            },
    {
        match self.take_front(2) {
            Ok(bytes) => {
                proof {
                    lemma_pow256_values();
                }
                Ok(be_u128(bytes.as_slice()) as u16)
            },
            Err(e) => Err(e),
        }
    }

    /// Returns an `i16` by taking the first 2 bytes out
    /// of the tranche in native endian order.
    ///
    /// The internal offset is incremented accordingly.
    ///
    /// Returns `Err(_)` if `self` is not long enough.
    pub fn take_i16_ne(&mut self) -> (r: Result<i16, UnexpectedEndError>)
        ensures
            match r {
                Ok(v) => {
                    &&& is_native_signed(v as int, old(self)@.take(2))
                    &&& final(self).is_rest_of(old(self), 2)
                },
                Err(e) => final(self).is_underrun_of(old(self), 2, e),
            },
    {
        match self.take_front(2) {
            Ok(bytes) => Ok(i16_from_ne_bytes(bytes.as_slice())),
            Err(e) => Err(e),
        }
    }

    /// Returns an `i16` by taking the first 2 bytes out
    /// of the tranche in little endian order.
    ///
    /// The internal offset is incremented accordingly.
    ///
    /// Returns `Err(_)` if `self` is not long enough.
    pub fn take_i16_le(&mut self) -> (r: Result<i16, UnexpectedEndError>)
        ensures
            match r {
                Ok(v) => {
                    &&& v == signed(le_value(old(self)@.take(2)), 2)
                    &&& final(self).is_rest_of(old(self), 2)
                },
                Err(e) => final(self).is_underrun_of(old(self), 2, e),
            },
    {
        match self.take_front(2) {
            Ok(bytes) => {
                proof {
                    lemma_pow256_values();
                }
                Ok(to_i16(le_u128(bytes.as_slice()) as u16))
            },
            Err(e) => Err(e),
        }
    }

    /// Returns an `i16` by taking the first 2 bytes out
    /// of the tranche in big endian order.
    ///
    /// The internal offset is incremented accordingly.
    ///
    /// Returns `Err(_)` if `self` is not long enough.
    pub fn take_i16_be(&mut self) -> (r: Result<i16, UnexpectedEndError>)
        ensures
            match r {
                Ok(v) => {
                    &&& v == signed(be_value(old(self)@.take(2)), 2)
                    &&& final(self).is_rest_of(old(self), 2)
                },
                Err(e) => final(self).is_underrun_of(old(self), 2, e),
            },
    {
        match self.take_front(2) {
            Ok(bytes) => {
                proof {
                    lemma_pow256_values();
                }
                Ok(to_i16(be_u128(bytes.as_slice()) as u16))
            },
            Err(e) => Err(e),
        }
    }

    /// Returns a `u32` by taking the first 4 bytes out
    /// of the tranche in native endian order.
    ///
    /// The internal offset is incremented accordingly.
    ///
    /// Returns `Err(_)` if `self` is not long enough.
    pub fn take_u32_ne(&mut self) -> (r: Result<u32, UnexpectedEndError>)
        ensures
            match r {
                Ok(v) => {
                    &&& is_native_unsigned(v as nat, old(self)@.take(4))
                    &&& final(self).is_rest_of(old(self), 4)
                },
                Err(e) => final(self).is_underrun_of(old(self), 4, e),
            },
    {
        match self.take_front(4) {
            Ok(bytes) => Ok(u32_from_ne_bytes(bytes.as_slice())),
            Err(e) => Err(e),
        }
    }

    /// Returns a `u32` by taking the first 4 bytes out
    /// of the tranche in little endian order.
    ///
    /// The internal offset is incremented accordingly.
    ///
    /// Returns `Err(_)` if `self` is not long enough.
    pub fn take_u32_le(&mut self) -> (r: Result<u32, UnexpectedEndError>)
        ensures
            match r {
                Ok(v) => {
                    &&& v == le_value(old(self)@.take(4))
                    &&& final(self).is_rest_of(old(self), 4)
                },
                Err(e) => final(self).is_underrun_of(old(self), 4, e),
            },
    {
        match self.take_front(4) {
            Ok(bytes) => {
                proof {
                    lemma_pow256_values();
                }
                Ok(le_u128(bytes.as_slice()) as u32)
            },
            Err(e) => Err(e),
        }
    }

    /// Returns a `u32` by taking the first 4 bytes out
    /// of the tranche in big endian order.
    ///
    /// The internal offset is incremented accordingly.
    ///
    /// Returns `Err(_)` if `self` is not long enough.
    pub fn take_u32_be(&mut self) -> (r: Result<u32, UnexpectedEndError>)
        ensures
            match r {
                Ok(v) => {
                    &&& v == be_value(old(self)@.take(4))
                    &&& final(self).is_rest_of(old(self), 4)
                },
                Err(e) => final(self).is_underrun_of(old(self), 4, e),
            },
    {
        match self.take_front(4) {
            Ok(bytes) => {
                proof {
                    lemma_pow256_values();
                }
                Ok(be_u128(bytes.as_slice()) as u32)
            },
            Err(e) => Err(e),
        }
    }

    /// Returns an `i32` by taking the first 4 bytes out
    /// of the tranche in native endian order.
    ///
    /// The internal offset is incremented accordingly.
    ///
    /// Returns `Err(_)` if `self` is not long enough.
    pub fn take_i32_ne(&mut self) -> (r: Result<i32, UnexpectedEndError>)
        ensures
            match r {
                Ok(v) => {
                    &&& is_native_signed(v as int, old(self)@.take(4))
                    &&& final(self).is_rest_of(old(self), 4)
                },
                Err(e) => final(self).is_underrun_of(old(self), 4, e),
            },
    {
        match self.take_front(4) {
            Ok(bytes) => Ok(i32_from_ne_bytes(bytes.as_slice())),
            Err(e) => Err(e),
        }
    }

    /// Returns an `i32` by taking the first 4 bytes out
    /// of the tranche in little endian order.
    ///
    /// The internal offset is incremented accordingly.
    ///
    /// Returns `Err(_)` if `self` is not long enough.
    pub fn take_i32_le(&mut self) -> (r: Result<i32, UnexpectedEndError>)
        ensures
            match r {
                Ok(v) => {
                    &&& v == signed(le_value(old(self)@.take(4)), 4)
                    &&& final(self).is_rest_of(old(self), 4)
                },
                Err(e) => final(self).is_underrun_of(old(self), 4, e),
            },
    {
        match self.take_front(4) {
            Ok(bytes) => {
                proof {
                    lemma_pow256_values();
                }
                Ok(to_i32(le_u128(bytes.as_slice()) as u32))
            },
            Err(e) => Err(e),
        }
    }

    /// Returns an `i32` by taking the first 4 bytes out
    /// of the tranche in big endian order.
    ///
    /// The internal offset is incremented accordingly.
    ///
    /// Returns `Err(_)` if `self` is not long enough.
    pub fn take_i32_be(&mut self) -> (r: Result<i32, UnexpectedEndError>)
        ensures
            match r {
                Ok(v) => {
                    &&& v == signed(be_value(old(self)@.take(4)), 4)
                    &&& final(self).is_rest_of(old(self), 4)
                },
                Err(e) => final(self).is_underrun_of(old(self), 4, e),
            },
    {
        match self.take_front(4) {
            Ok(bytes) => {
                proof {
                    lemma_pow256_values();
                }
                Ok(to_i32(be_u128(bytes.as_slice()) as u32))
            },
            Err(e) => Err(e),
        }
    }

    /// Returns a `u64` by taking the first 8 bytes out
    /// of the tranche in native endian order.
    ///
    /// The internal offset is incremented accordingly.
    ///
    /// Returns `Err(_)` if `self` is not long enough.
    pub fn take_u64_ne(&mut self) -> (r: Result<u64, UnexpectedEndError>)
        ensures
            match r {
                Ok(v) => {
                    &&& is_native_unsigned(v as nat, old(self)@.take(8))
                    &&& final(self).is_rest_of(old(self), 8)
                },
                Err(e) => final(self).is_underrun_of(old(self), 8, e),
            },
    {
        match self.take_front(8) {
            Ok(bytes) => Ok(u64_from_ne_bytes(bytes.as_slice())),
            Err(e) => Err(e),
        }
    }

    /// Returns a `u64` by taking the first 8 bytes out
    /// of the tranche in little endian order.
    ///
    /// The internal offset is incremented accordingly.
    ///
    /// Returns `Err(_)` if `self` is not long enough.
    pub fn take_u64_le(&mut self) -> (r: Result<u64, UnexpectedEndError>)
        ensures
            match r {
                Ok(v) => {
                    &&& v == le_value(old(self)@.take(8))
                    &&& final(self).is_rest_of(old(self), 8)
                },
                Err(e) => final(self).is_underrun_of(old(self), 8, e),
            },
    {
        match self.take_front(8) {
            Ok(bytes) => {
                proof {
                    lemma_pow256_values();
                }
                Ok(le_u128(bytes.as_slice()) as u64)
            },
            Err(e) => Err(e),
        }
    }

    /// Returns a `u64` by taking the first 8 bytes out
    /// of the tranche in big endian order.
    ///
    /// The internal offset is incremented accordingly.
    ///
    /// Returns `Err(_)` if `self` is not long enough.
    pub fn take_u64_be(&mut self) -> (r: Result<u64, UnexpectedEndError>)
        ensures
            match r {
                Ok(v) => {
                    &&& v == be_value(old(self)@.take(8))
                    &&& final(self).is_rest_of(old(self), 8)
                },
                Err(e) => final(self).is_underrun_of(old(self), 8, e),
            },
    {
        match self.take_front(8) {
            Ok(bytes) => {
                proof {
                    lemma_pow256_values();
                }
                Ok(be_u128(bytes.as_slice()) as u64)
            },
            Err(e) => Err(e),
        }
    }

    /// Returns an `i64` by taking the first 8 bytes out
    /// of the tranche in native endian order.
    ///
    /// The internal offset is incremented accordingly.
    ///
    /// Returns `Err(_)` if `self` is not long enough.
    pub fn take_i64_ne(&mut self) -> (r: Result<i64, UnexpectedEndError>)
        ensures
            match r {
                Ok(v) => {
                    &&& is_native_signed(v as int, old(self)@.take(8))
                    &&& final(self).is_rest_of(old(self), 8)
                },
                Err(e) => final(self).is_underrun_of(old(self), 8, e),
            },
    {
        match self.take_front(8) {
            Ok(bytes) => Ok(i64_from_ne_bytes(bytes.as_slice())),
            Err(e) => Err(e),
        }
    }

    /// Returns an `i64` by taking the first 8 bytes out
    /// of the tranche in little endian order.
    ///
    /// The internal offset is incremented accordingly.
    ///
    /// Returns `Err(_)` if `self` is not long enough.
    pub fn take_i64_le(&mut self) -> (r: Result<i64, UnexpectedEndError>)
        ensures
            match r {
                Ok(v) => {
                    &&& v == signed(le_value(old(self)@.take(8)), 8)
                    &&& final(self).is_rest_of(old(self), 8)
                },
                Err(e) => final(self).is_underrun_of(old(self), 8, e),
            },
    {
        match self.take_front(8) {
            Ok(bytes) => {
                proof {
                    lemma_pow256_values();
                }
                Ok(to_i64(le_u128(bytes.as_slice()) as u64))
            },
            Err(e) => Err(e),
        }
    }

    /// Returns an `i64` by taking the first 8 bytes out
    /// of the tranche in big endian order.
    ///
    /// The internal offset is incremented accordingly.
    ///
    /// Returns `Err(_)` if `self` is not long enough.
    pub fn take_i64_be(&mut self) -> (r: Result<i64, UnexpectedEndError>)
        ensures
            match r {
                Ok(v) => {
                    &&& v == signed(be_value(old(self)@.take(8)), 8)
                    &&& final(self).is_rest_of(old(self), 8)
                },
                Err(e) => final(self).is_underrun_of(old(self), 8, e),
            },
    {
        match self.take_front(8) {
            Ok(bytes) => {
                proof {
                    lemma_pow256_values();
                }
                Ok(to_i64(be_u128(bytes.as_slice()) as u64))
            },
            Err(e) => Err(e),
        }
    }

    /// Returns a `u128` by taking the first 16 bytes out
    /// of the tranche in native endian order.
    ///
    /// The internal offset is incremented accordingly.
    ///
    /// Returns `Err(_)` if `self` is not long enough.
    pub fn take_u128_ne(&mut self) -> (r: Result<u128, UnexpectedEndError>)
        ensures
            match r {
                Ok(v) => {
                    &&& is_native_unsigned(v as nat, old(self)@.take(16))
                    &&& final(self).is_rest_of(old(self), 16)
                },
                Err(e) => final(self).is_underrun_of(old(self), 16, e),
            },
    {
        match self.take_front(16) {
            Ok(bytes) => Ok(u128_from_ne_bytes(bytes.as_slice())),
            Err(e) => Err(e),
        }
    }

    /// Returns a `u128` by taking the first 16 bytes out
    /// of the tranche in little endian order.
    ///
    /// The internal offset is incremented accordingly.
    ///
    /// Returns `Err(_)` if `self` is not long enough.
    pub fn take_u128_le(&mut self) -> (r: Result<u128, UnexpectedEndError>)
        ensures
            match r {
                Ok(v) => {
                    &&& v == le_value(old(self)@.take(16))
                    &&& final(self).is_rest_of(old(self), 16)
                },
                Err(e) => final(self).is_underrun_of(old(self), 16, e),
            },
    {
        match self.take_front(16) {
            Ok(bytes) => {
                proof {
                    lemma_pow256_values();
                }
                Ok(le_u128(bytes.as_slice()) as u128)
            },
            Err(e) => Err(e),
        }
    }

    /// Returns a `u128` by taking the first 16 bytes out
    /// of the tranche in big endian order.
    ///
    /// The internal offset is incremented accordingly.
    ///
    /// Returns `Err(_)` if `self` is not long enough.
    pub fn take_u128_be(&mut self) -> (r: Result<u128, UnexpectedEndError>)
        ensures
            match r {
                Ok(v) => {
                    &&& v == be_value(old(self)@.take(16))
                    &&& final(self).is_rest_of(old(self), 16)
                },
                Err(e) => final(self).is_underrun_of(old(self), 16, e),
            },
    {
        match self.take_front(16) {
            Ok(bytes) => {
                proof {
                    lemma_pow256_values();
                }
                Ok(be_u128(bytes.as_slice()) as u128)
            },
            Err(e) => Err(e),
        }
    }

    /// Returns an `i128` by taking the first 16 bytes out
    /// of the tranche in native endian order.
    ///
    /// The internal offset is incremented accordingly.
    ///
    /// Returns `Err(_)` if `self` is not long enough.
    pub fn take_i128_ne(&mut self) -> (r: Result<i128, UnexpectedEndError>)
        ensures
            match r {
                Ok(v) => {
                    &&& is_native_signed(v as int, old(self)@.take(16))
                    &&& final(self).is_rest_of(old(self), 16)
                },
                Err(e) => final(self).is_underrun_of(old(self), 16, e),
            },
    {
        match self.take_front(16) {
            Ok(bytes) => Ok(i128_from_ne_bytes(bytes.as_slice())),
            Err(e) => Err(e),
        }
    }

    /// Returns an `i128` by taking the first 16 bytes out
    /// of the tranche in little endian order.
    ///
    /// The internal offset is incremented accordingly.
    ///
    /// Returns `Err(_)` if `self` is not long enough.
    pub fn take_i128_le(&mut self) -> (r: Result<i128, UnexpectedEndError>)
        ensures
            match r {
                Ok(v) => {
                    &&& v == signed(le_value(old(self)@.take(16)), 16)
                    &&& final(self).is_rest_of(old(self), 16)
                },
                Err(e) => final(self).is_underrun_of(old(self), 16, e),
            },
    {
        match self.take_front(16) {
            Ok(bytes) => {
                proof {
                    lemma_pow256_values();
                }
                Ok(to_i128(le_u128(bytes.as_slice()) as u128))
            },
            Err(e) => Err(e),
        }
    }

    /// Returns an `i128` by taking the first 16 bytes out
    /// of the tranche in big endian order.
    ///
    /// The internal offset is incremented accordingly.
    ///
    /// Returns `Err(_)` if `self` is not long enough.
    pub fn take_i128_be(&mut self) -> (r: Result<i128, UnexpectedEndError>)
        ensures
            match r {
                Ok(v) => {
                    &&& v == signed(be_value(old(self)@.take(16)), 16)
                    &&& final(self).is_rest_of(old(self), 16)
                },
                Err(e) => final(self).is_underrun_of(old(self), 16, e),
            },
    {
        match self.take_front(16) {
            Ok(bytes) => {
                proof {
                    lemma_pow256_values();
                }
                Ok(to_i128(be_u128(bytes.as_slice()) as u128))
            },
            Err(e) => Err(e),
        }
    }

    /// Returns a `usize` by taking the first `mem::size_of::<usize>()` bytes out
    /// of the tranche in native endian order.
    ///
    /// The internal offset is incremented accordingly.
    ///
    /// Returns `Err(_)` if `self` is not long enough.
    pub fn take_usize_ne(&mut self) -> (r: Result<usize, UnexpectedEndError>)
        ensures
            match r {
                Ok(v) => {
                    &&& is_native_unsigned(v as nat, old(self)@.take(word_width() as int))
                    &&& final(self).is_rest_of(old(self), word_width())
                },
                Err(e) => final(self).is_underrun_of(old(self), word_width(), e),
            },
    {
        match self.take_front(word_size()) {
            Ok(bytes) => Ok(usize_from_ne_bytes(bytes.as_slice())),
            Err(e) => Err(e),
        }
    }

    /// Returns a `usize` by taking the first `mem::size_of::<usize>()` bytes out
    /// of the tranche in little endian order.
    ///
    /// The internal offset is incremented accordingly.
    ///
    /// Returns `Err(_)` if `self` is not long enough.
    pub fn take_usize_le(&mut self) -> (r: Result<usize, UnexpectedEndError>)
        ensures
            match r {
                Ok(v) => {
                    &&& v == le_value(old(self)@.take(word_width() as int))
                    &&& final(self).is_rest_of(old(self), word_width())
                },
                Err(e) => final(self).is_underrun_of(old(self), word_width(), e),
            },
    {
        match self.take_front(word_size()) {
            Ok(bytes) => {
                proof {
                    lemma_pow256_values();
                }
                Ok(le_u128(bytes.as_slice()) as usize)
            },
            Err(e) => Err(e),
        }
    }

    /// Returns a `usize` by taking the first `mem::size_of::<usize>()` bytes out
    /// of the tranche in big endian order.
    ///
    /// The internal offset is incremented accordingly.
    ///
    /// Returns `Err(_)` if `self` is not long enough.
    pub fn take_usize_be(&mut self) -> (r: Result<usize, UnexpectedEndError>)
        ensures
            match r {
                Ok(v) => {
                    &&& v == be_value(old(self)@.take(word_width() as int))
                    &&& final(self).is_rest_of(old(self), word_width())
                },
                Err(e) => final(self).is_underrun_of(old(self), word_width(), e),
            },
    {
        match self.take_front(word_size()) {
            Ok(bytes) => {
                proof {
                    lemma_pow256_values();
                }
                Ok(be_u128(bytes.as_slice()) as usize)
            },
            Err(e) => Err(e),
        }
    }

    /// Returns an `isize` by taking the first `mem::size_of::<isize>()` bytes out
    /// of the tranche in native endian order.
    ///
    /// The internal offset is incremented accordingly.
    ///
    /// Returns `Err(_)` if `self` is not long enough.
    pub fn take_isize_ne(&mut self) -> (r: Result<isize, UnexpectedEndError>)
        ensures
            match r {
                Ok(v) => {
                    &&& is_native_signed(v as int, old(self)@.take(word_width() as int))
                    &&& final(self).is_rest_of(old(self), word_width())
                },
                Err(e) => final(self).is_underrun_of(old(self), word_width(), e),
            },
    {
        match self.take_front(word_size()) {
            Ok(bytes) => Ok(isize_from_ne_bytes(bytes.as_slice())),
            Err(e) => Err(e),
        }
    }

    /// Returns an `isize` by taking the first `mem::size_of::<isize>()` bytes out
    /// of the tranche in little endian order.
    ///
    /// The internal offset is incremented accordingly.
    ///
    /// Returns `Err(_)` if `self` is not long enough.
    pub fn take_isize_le(&mut self) -> (r: Result<isize, UnexpectedEndError>)
        ensures
            match r {
                Ok(v) => {
                    &&& v == signed(le_value(old(self)@.take(word_width() as int)), word_width())
                    &&& final(self).is_rest_of(old(self), word_width())
                },
                Err(e) => final(self).is_underrun_of(old(self), word_width(), e),
            },
    {
        match self.take_front(word_size()) {
            Ok(bytes) => {
                proof {
                    lemma_pow256_values();
                }
                Ok(to_isize(le_u128(bytes.as_slice()) as usize))
            },
            Err(e) => Err(e),
        }
    }

    /// Returns an `isize` by taking the first `mem::size_of::<isize>()` bytes out
    /// of the tranche in big endian order.
    ///
    /// The internal offset is incremented accordingly.
    ///
    /// Returns `Err(_)` if `self` is not long enough.
    pub fn take_isize_be(&mut self) -> (r: Result<isize, UnexpectedEndError>)
        ensures
            match r {
                Ok(v) => {
                    &&& v == signed(be_value(old(self)@.take(word_width() as int)), word_width())
                    &&& final(self).is_rest_of(old(self), word_width())
                },
                Err(e) => final(self).is_underrun_of(old(self), word_width(), e),
            },
    {
        match self.take_front(word_size()) {
            Ok(bytes) => {
                proof {
                    lemma_pow256_values();
                }
                Ok(to_isize(be_u128(bytes.as_slice()) as usize))
            },
            Err(e) => Err(e),
        }
    }
}

} // verus!
