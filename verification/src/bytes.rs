//! Reading unsigned and signed integers out of byte sequences.
//!
//! The little-endian and big-endian readings are defined here as plain
//! arithmetic on sequences of bytes and computed by verified code. Only the
//! reading in the byte order of the machine is left to the standard library.

use vstd::prelude::*;

verus! {

/// 256 to the power of `n`: one more than the largest number that `n` bytes
/// can spell.
pub open spec fn pow256(n: nat) -> nat
    decreases n,
{
    if n == 0 {
        1
    } else {
        256 * pow256((n - 1) as nat)
    }
}

/// The number that `bytes` spell with the least significant byte first.
pub open spec fn le_value(bytes: Seq<u8>) -> nat
    decreases bytes.len(),
{
    if bytes.len() == 0 {
        0
    } else {
        bytes[0] as nat + 256 * le_value(bytes.skip(1))
    }
}

/// The number that `bytes` spell with the most significant byte first.
pub open spec fn be_value(bytes: Seq<u8>) -> nat
    decreases bytes.len(),
{
    if bytes.len() == 0 {
        0
    } else {
        256 * be_value(bytes.drop_last()) + bytes.last() as nat
    }
}

/// The two's complement reading of `value` as a signed integer of `width`
/// bytes: the upper half of the unsigned range stands for the negative
/// numbers.
pub open spec fn signed(value: nat, width: nat) -> int {
    if 2 * value < pow256(width) {
        value as int
    } else {
        value - pow256(width)
    }
}

/// The number of bytes in a `usize` or an `isize`.
pub open spec fn word_width() -> nat {
    (usize::BITS / 8) as nat
}

/// Whether `v` is what `bytes` spell as an unsigned integer in one of the
/// two byte orders. This is what can be said of a reading in the byte order
/// of the machine without knowing the machine.
pub open spec fn is_native_unsigned(v: nat, bytes: Seq<u8>) -> bool {
    v == le_value(bytes) || v == be_value(bytes)
}

/// Whether `v` is what `bytes` spell as a two's complement integer in one of
/// the two byte orders.
pub open spec fn is_native_signed(v: int, bytes: Seq<u8>) -> bool {
    v == signed(le_value(bytes), bytes.len()) || v == signed(be_value(bytes), bytes.len())
}

/// The values of `pow256` at the widths of the integer types.
pub proof fn lemma_pow256_values()
    ensures
        pow256(0) == 1,
        pow256(1) == 0x100,
        pow256(2) == 0x1_0000,
        pow256(4) == 0x1_0000_0000,
        pow256(8) == 0x1_0000_0000_0000_0000,
        pow256(16) == 0x1_0000_0000_0000_0000_0000_0000_0000_0000,
        pow256(word_width()) == usize::MAX + 1,
{
    reveal_with_fuel(pow256, 17);
}

/// `pow256` grows with its argument.
pub proof fn lemma_pow256_monotonic(a: nat, b: nat)
    requires
        a <= b,
    ensures
        pow256(a) <= pow256(b),
    decreases b,
{
    if a < b {
        lemma_pow256_monotonic(a, (b - 1) as nat);
    }
}

/// The number of bytes in a `usize`.
pub(crate) fn word_size() -> (n: usize)
    ensures
        n == word_width(),
        n == 4 || n == 8,
{
    (usize::BITS / 8) as usize
}

/// Decodes up to sixteen bytes, least significant first.
pub(crate) fn le_u128(bytes: &[u8]) -> (v: u128)
    requires
        bytes@.len() <= 16,
    ensures
        v == le_value(bytes@),
        v < pow256(bytes@.len()),
{
    let mut v: u128 = 0;
    let mut i: usize = bytes.len();
    assert(bytes@.skip(i as int) =~= Seq::<u8>::empty());
    while i > 0
        invariant
            i <= bytes@.len() <= 16,
            v == le_value(bytes@.skip(i as int)),
            v < pow256((bytes@.len() - i) as nat),
        decreases i,
    {
        i = i - 1;
        proof {
            let rest = bytes@.skip(i as int);
            assert(rest.skip(1) =~= bytes@.skip(i + 1));
            lemma_pow256_values();
            lemma_pow256_monotonic(rest.len(), 16);
            assert(pow256(rest.len()) == 256 * pow256((rest.len() - 1) as nat));
        }
        v = v * 256 + bytes[i] as u128;
    }
    assert(bytes@.skip(0) =~= bytes@);
    v
}

/// Decodes up to sixteen bytes, most significant first.
pub(crate) fn be_u128(bytes: &[u8]) -> (v: u128)
    requires
        bytes@.len() <= 16,
    ensures
        v == be_value(bytes@),
        v < pow256(bytes@.len()),
{
    let mut v: u128 = 0;
    let mut i: usize = 0;
    assert(bytes@.take(0) =~= Seq::<u8>::empty());
    while i < bytes.len()
        invariant
            i <= bytes@.len() <= 16,
            v == be_value(bytes@.take(i as int)),
            v < pow256(i as nat),
        decreases bytes@.len() - i,
    {
        proof {
            let read = bytes@.take(i + 1);
            assert(read.drop_last() =~= bytes@.take(i as int));
            lemma_pow256_values();
            lemma_pow256_monotonic((i + 1) as nat, 16);
            assert(pow256((i + 1) as nat) == 256 * pow256(i as nat));
        }
        v = v * 256 + bytes[i] as u128;
        i = i + 1;
    }
    assert(bytes@.take(bytes@.len() as int) =~= bytes@);
    v
}

/// Reads the bits of a `u8` as an `i8`.
pub(crate) fn to_i8(v: u8) -> (r: i8)
    ensures
        r == signed(v as nat, 1),
{
    let r = v as i8;
    proof {
        lemma_pow256_values();
        assert(r == if v < 0x80u8 { v as int } else { v as int - 0x100 }) by (bit_vector)
            requires
                r == v as i8,
        ;
    }
    r
}

/// Reads the bits of a `u16` as an `i16`.
pub(crate) fn to_i16(v: u16) -> (r: i16)
    ensures
        r == signed(v as nat, 2),
{
    let r = v as i16;
    proof {
        lemma_pow256_values();
        assert(r == if v < 0x8000u16 { v as int } else { v as int - 0x1_0000 }) by (bit_vector)
            requires
                r == v as i16,
        ;
    }
    r
}

/// Reads the bits of a `u32` as an `i32`.
pub(crate) fn to_i32(v: u32) -> (r: i32)
    ensures
        r == signed(v as nat, 4),
{
    let r = v as i32;
    proof {
        lemma_pow256_values();
        assert(r == if v < 0x8000_0000u32 { v as int } else { v as int - 0x1_0000_0000 })
            by (bit_vector)
            requires
                r == v as i32,
        ;
    }
    r
}

/// Reads the bits of a `u64` as an `i64`.
pub(crate) fn to_i64(v: u64) -> (r: i64)
    ensures
        r == signed(v as nat, 8),
{
    let r = v as i64;
    proof {
        lemma_pow256_values();
        assert(r == if v < 0x8000_0000_0000_0000u64 {
            v as int
        } else {
            v as int - 0x1_0000_0000_0000_0000
        }) by (bit_vector)
            requires
                r == v as i64,
        ;
    }
    r
}

/// Reads the bits of a `u128` as an `i128`.
pub(crate) fn to_i128(v: u128) -> (r: i128)
    ensures
        r == signed(v as nat, 16),
{
    let r = v as i128;
    proof {
        lemma_pow256_values();
        assert(r == if v < 0x8000_0000_0000_0000_0000_0000_0000_0000u128 {
            v as int
        } else {
            v as int - 0x1_0000_0000_0000_0000_0000_0000_0000_0000
        }) by (bit_vector)
            requires
                r == v as i128,
        ;
    }
    r
}

/// Reads the bits of a `usize` as an `isize`.
pub(crate) fn to_isize(v: usize) -> (r: isize)
    ensures
        r == signed(v as nat, word_width()),
{
    proof {
        lemma_pow256_values();
    }
    if v <= isize::MAX as usize {
        v as isize
    } else {
        (v - isize::MAX as usize - 1) as isize + isize::MIN
    }
}

// The readings in the byte order of the machine are those of the standard
// library. Nothing is proved of the ten functions below: their contracts say
// what its documentation promises, and the takers rest on them.

/// Reads two bytes as `u16::from_ne_bytes` does: as an unsigned
/// integer in the byte order of the machine. Which order that is, is not
/// said here: the result is the little-endian or the big-endian reading.
#[verifier::external_body]
pub(crate) fn u16_from_ne_bytes(bytes: &[u8]) -> (v: u16)
    requires
        bytes@.len() == 2,
    ensures
        is_native_unsigned(v as nat, bytes@),
{
    u16::from_ne_bytes(bytes.try_into().unwrap())
}

/// Reads two bytes as `i16::from_ne_bytes` does: as a two's complement
/// integer in the byte order of the machine. Which order that is, is not
/// said here: the result is the little-endian or the big-endian reading.
#[verifier::external_body]
pub(crate) fn i16_from_ne_bytes(bytes: &[u8]) -> (v: i16)
    requires
        bytes@.len() == 2,
    ensures
        is_native_signed(v as int, bytes@),
{
    i16::from_ne_bytes(bytes.try_into().unwrap())
}

/// Reads four bytes as `u32::from_ne_bytes` does: as an unsigned
/// integer in the byte order of the machine. Which order that is, is not
/// said here: the result is the little-endian or the big-endian reading.
#[verifier::external_body]
pub(crate) fn u32_from_ne_bytes(bytes: &[u8]) -> (v: u32)
    requires
        bytes@.len() == 4,
    ensures
        is_native_unsigned(v as nat, bytes@),
{
    u32::from_ne_bytes(bytes.try_into().unwrap())
}

/// Reads four bytes as `i32::from_ne_bytes` does: as a two's complement
/// integer in the byte order of the machine. Which order that is, is not
/// said here: the result is the little-endian or the big-endian reading.
#[verifier::external_body]
pub(crate) fn i32_from_ne_bytes(bytes: &[u8]) -> (v: i32)
    requires
        bytes@.len() == 4,
    ensures
        is_native_signed(v as int, bytes@),
{
    i32::from_ne_bytes(bytes.try_into().unwrap())
}

/// Reads eight bytes as `u64::from_ne_bytes` does: as an unsigned
/// integer in the byte order of the machine. Which order that is, is not
/// said here: the result is the little-endian or the big-endian reading.
#[verifier::external_body]
pub(crate) fn u64_from_ne_bytes(bytes: &[u8]) -> (v: u64)
    requires
        bytes@.len() == 8,
    ensures
        is_native_unsigned(v as nat, bytes@),
{
    u64::from_ne_bytes(bytes.try_into().unwrap())
}

/// Reads eight bytes as `i64::from_ne_bytes` does: as a two's complement
/// integer in the byte order of the machine. Which order that is, is not
/// said here: the result is the little-endian or the big-endian reading.
#[verifier::external_body]
pub(crate) fn i64_from_ne_bytes(bytes: &[u8]) -> (v: i64)
    requires
        bytes@.len() == 8,
    ensures
        is_native_signed(v as int, bytes@),
{
    i64::from_ne_bytes(bytes.try_into().unwrap())
}

/// Reads sixteen bytes as `u128::from_ne_bytes` does: as an unsigned
/// integer in the byte order of the machine. Which order that is, is not
/// said here: the result is the little-endian or the big-endian reading.
#[verifier::external_body]
pub(crate) fn u128_from_ne_bytes(bytes: &[u8]) -> (v: u128)
    requires
        bytes@.len() == 16,
    ensures
        is_native_unsigned(v as nat, bytes@),
{
    u128::from_ne_bytes(bytes.try_into().unwrap())
}

/// Reads sixteen bytes as `i128::from_ne_bytes` does: as a two's complement
/// integer in the byte order of the machine. Which order that is, is not
/// said here: the result is the little-endian or the big-endian reading.
#[verifier::external_body]
pub(crate) fn i128_from_ne_bytes(bytes: &[u8]) -> (v: i128)
    requires
        bytes@.len() == 16,
    ensures
        is_native_signed(v as int, bytes@),
{
    i128::from_ne_bytes(bytes.try_into().unwrap())
}

/// Reads as many bytes as a `usize` has as `usize::from_ne_bytes` does: as an unsigned
/// integer in the byte order of the machine. Which order that is, is not
/// said here: the result is the little-endian or the big-endian reading.
#[verifier::external_body]
pub(crate) fn usize_from_ne_bytes(bytes: &[u8]) -> (v: usize)
    requires
        bytes@.len() == word_width(),
    ensures
        is_native_unsigned(v as nat, bytes@),
{
    usize::from_ne_bytes(bytes.try_into().unwrap())
}

/// Reads as many bytes as an `isize` has as `isize::from_ne_bytes` does: as a two's complement
/// integer in the byte order of the machine. Which order that is, is not
/// said here: the result is the little-endian or the big-endian reading.
#[verifier::external_body]
pub(crate) fn isize_from_ne_bytes(bytes: &[u8]) -> (v: isize)
    requires
        bytes@.len() == word_width(),
    ensures
        is_native_signed(v as int, bytes@),
{
    isize::from_ne_bytes(bytes.try_into().unwrap())
}

} // verus!
