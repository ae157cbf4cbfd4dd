use tranche::{BasedBufTranche, BufTranche};

const BYTES: [u8; 16] = [
    0x01, 0x02, 0x03, 0x04, 0x05, 0x06, 0x07, 0x08, 0x09, 0x0a, 0x0b, 0x0c, 0x0d, 0x0e, 0x0f, 0x10,
];

#[test]
fn take_u32_big_and_little_endian() {
    let mut t = BufTranche::new(&[0x01, 0x02, 0x03, 0x04]);
    assert_eq!(t.take_u32_be().unwrap(), 0x0102_0304);
    assert!(t.is_empty());

    let mut t = BufTranche::new(&[0x01, 0x02, 0x03, 0x04]);
    assert_eq!(t.take_u32_le().unwrap(), 0x0403_0201);
    assert!(t.is_empty());
}

#[test]
fn take_u8_and_i8() {
    let mut t = BufTranche::new(&[0x7f, 0x80, 0xff, 0x00]);
    assert_eq!(t.take_u8().unwrap(), 0x7f);
    assert_eq!(t.take_u8().unwrap(), 0x80);
    assert_eq!(t.take_i8().unwrap(), -1);
    assert_eq!(t.take_i8().unwrap(), 0);
    let err = t.take_u8().unwrap_err();
    assert_eq!((err.needed(), err.len()), (1, 0));
    let err = t.take_i8().unwrap_err();
    assert_eq!((err.needed(), err.len()), (1, 0));

    let mut t = BufTranche::new(&[0x80, 0x7f]);
    assert_eq!(t.take_i8().unwrap(), i8::MIN);
    assert_eq!(t.take_i8().unwrap(), i8::MAX);
}

#[test]
fn take_u16() {
    let mut t = BufTranche::new(&BYTES);
    assert_eq!(t.take_u16_le().unwrap(), 0x0201);
    assert_eq!(t.take_u16_be().unwrap(), 0x0304);
    assert_eq!(t.take_u16_ne().unwrap(), u16::from_ne_bytes([0x05, 0x06]));
    assert_eq!(t.len(), 10);
}

#[test]
fn take_i16() {
    let mut t = BufTranche::new(&[0xfe, 0xff, 0xff, 0xfe, 0x00, 0x80, 0x80, 0x00, 0xff, 0x7f]);
    assert_eq!(t.take_i16_le().unwrap(), -2);
    assert_eq!(t.take_i16_be().unwrap(), -2);
    assert_eq!(t.take_i16_le().unwrap(), i16::MIN);
    assert_eq!(t.take_i16_be().unwrap(), i16::MIN);
    assert_eq!(t.take_i16_le().unwrap(), i16::MAX);
    assert!(t.is_empty());

    let mut t = BufTranche::new(&[0x12, 0xf4]);
    assert_eq!(t.take_i16_ne().unwrap(), i16::from_ne_bytes([0x12, 0xf4]));
}

#[test]
fn take_u32() {
    let mut t = BufTranche::new(&BYTES);
    assert_eq!(t.take_u32_le().unwrap(), 0x0403_0201);
    assert_eq!(t.take_u32_be().unwrap(), 0x0506_0708);
    assert_eq!(
        t.take_u32_ne().unwrap(),
        u32::from_ne_bytes([0x09, 0x0a, 0x0b, 0x0c])
    );
    assert_eq!(t.as_slice(), &[0x0d, 0x0e, 0x0f, 0x10]);
}

#[test]
fn take_i32() {
    let mut t = BufTranche::new(&[0xff, 0xff, 0xff, 0x7f, 0x80, 0x00, 0x00, 0x00]);
    assert_eq!(t.take_i32_le().unwrap(), i32::MAX);
    assert_eq!(t.take_i32_be().unwrap(), i32::MIN);

    let mut t = BufTranche::new(&[0xff, 0xff, 0xff, 0xfd, 0xfd, 0xff, 0xff, 0xff]);
    assert_eq!(t.take_i32_be().unwrap(), -3);
    assert_eq!(t.take_i32_le().unwrap(), -3);

    let mut t = BufTranche::new(&[0x80, 0x01, 0x02, 0x83]);
    assert_eq!(
        t.take_i32_ne().unwrap(),
        i32::from_ne_bytes([0x80, 0x01, 0x02, 0x83])
    );
}

#[test]
fn take_u64() {
    let mut t = BufTranche::new(&BYTES);
    assert_eq!(t.take_u64_le().unwrap(), 0x0807_0605_0403_0201);
    assert_eq!(t.take_u64_be().unwrap(), 0x090a_0b0c_0d0e_0f10);
    assert!(t.is_empty());

    let mut t = BufTranche::new(&BYTES);
    assert_eq!(
        t.take_u64_ne().unwrap(),
        u64::from_ne_bytes([0x01, 0x02, 0x03, 0x04, 0x05, 0x06, 0x07, 0x08])
    );

    let mut t = BufTranche::new(&[0xff; 8]);
    assert_eq!(t.take_u64_le().unwrap(), u64::MAX);
}

#[test]
fn take_i64() {
    let mut t = BufTranche::new(&[0xff; 16]);
    assert_eq!(t.take_i64_le().unwrap(), -1);
    assert_eq!(t.take_i64_be().unwrap(), -1);

    let mut t = BufTranche::new(&[
        0, 0, 0, 0, 0, 0, 0, 0x80, 0x7f, 0xff, 0xff, 0xff, 0xff, 0xff, 0xff, 0xff,
    ]);
    assert_eq!(t.take_i64_le().unwrap(), i64::MIN);
    assert_eq!(t.take_i64_be().unwrap(), i64::MAX);

    let mut t = BufTranche::new(&[0xf0, 1, 2, 3, 4, 5, 6, 0xf7]);
    assert_eq!(
        t.take_i64_ne().unwrap(),
        i64::from_ne_bytes([0xf0, 1, 2, 3, 4, 5, 6, 0xf7])
    );
}

#[test]
fn take_u128() {
    let mut t = BufTranche::new(&BYTES);
    assert_eq!(
        t.take_u128_le().unwrap(),
        0x100f_0e0d_0c0b_0a09_0807_0605_0403_0201
    );
    let mut t = BufTranche::new(&BYTES);
    assert_eq!(
        t.take_u128_be().unwrap(),
        0x0102_0304_0506_0708_090a_0b0c_0d0e_0f10
    );
    let mut t = BufTranche::new(&BYTES);
    assert_eq!(t.take_u128_ne().unwrap(), u128::from_ne_bytes(BYTES));
    let mut t = BufTranche::new(&[0xff; 16]);
    assert_eq!(t.take_u128_be().unwrap(), u128::MAX);
}

#[test]
fn take_i128() {
    let mut t = BufTranche::new(&[0xff; 16]);
    assert_eq!(t.take_i128_le().unwrap(), -1);
    let mut min = [0u8; 16];
    min[15] = 0x80;
    let mut t = BufTranche::new(&min);
    assert_eq!(t.take_i128_le().unwrap(), i128::MIN);
    min.reverse();
    let mut t = BufTranche::new(&min);
    assert_eq!(t.take_i128_be().unwrap(), i128::MIN);
    let mut max = [0xffu8; 16];
    max[0] = 0x7f;
    let mut t = BufTranche::new(&max);
    assert_eq!(t.take_i128_be().unwrap(), i128::MAX);
    let mut t = BufTranche::new(&BYTES);
    assert_eq!(t.take_i128_ne().unwrap(), i128::from_ne_bytes(BYTES));
    let mut t = BufTranche::new(&max);
    assert_eq!(t.take_i128_ne().unwrap(), i128::from_ne_bytes(max));
}

#[test]
fn take_usize() {
    let size = std::mem::size_of::<usize>();
    let mut le = [0u8; 16];
    le[..size].copy_from_slice(&0x1234_5678usize.to_le_bytes());
    let mut t = BufTranche::new(&le);
    assert_eq!(t.take_usize_le().unwrap(), 0x1234_5678);
    assert_eq!(t.len(), 16 - size);

    let mut be = [0u8; 16];
    be[..size].copy_from_slice(&0x1234_5678usize.to_be_bytes());
    let mut t = BufTranche::new(&be);
    assert_eq!(t.take_usize_be().unwrap(), 0x1234_5678);

    let mut ne = [0u8; 16];
    ne[..size].copy_from_slice(&0x1234_5678usize.to_ne_bytes());
    let mut t = BufTranche::new(&ne);
    assert_eq!(t.take_usize_ne().unwrap(), 0x1234_5678);

    let mut t = BufTranche::new(&[0xff; 16]);
    assert_eq!(t.take_usize_le().unwrap(), usize::MAX);
    assert_eq!(t.take_usize_be().unwrap(), usize::MAX);
}

#[test]
fn take_isize() {
    let size = std::mem::size_of::<isize>();
    for value in [-2isize, isize::MIN, isize::MAX, 0, 77] {
        let mut bytes = [0u8; 16];
        bytes[..size].copy_from_slice(&value.to_le_bytes());
        assert_eq!(BufTranche::new(&bytes).take_isize_le().unwrap(), value);
        bytes[..size].copy_from_slice(&value.to_be_bytes());
        assert_eq!(BufTranche::new(&bytes).take_isize_be().unwrap(), value);
        bytes[..size].copy_from_slice(&value.to_ne_bytes());
        assert_eq!(BufTranche::new(&bytes).take_isize_ne().unwrap(), value);
    }
}

#[test]
fn takers_agree_with_the_standard_library() {
    let mut seed = 0x9e37_79b9_7f4a_7c15u64;
    for _ in 0..200 {
        let mut bytes = [0u8; 16];
        for b in bytes.iter_mut() {
            seed ^= seed << 13;
            seed ^= seed >> 7;
            seed ^= seed << 17;
            *b = seed as u8;
        }
        let b2 = [bytes[0], bytes[1]];
        let b4 = [bytes[0], bytes[1], bytes[2], bytes[3]];
        let mut b8 = [0u8; 8];
        b8.copy_from_slice(&bytes[..8]);
        assert_eq!(BufTranche::new(&bytes).take_u16_le().unwrap(), u16::from_le_bytes(b2));
        assert_eq!(BufTranche::new(&bytes).take_u16_be().unwrap(), u16::from_be_bytes(b2));
        assert_eq!(BufTranche::new(&bytes).take_i16_le().unwrap(), i16::from_le_bytes(b2));
        assert_eq!(BufTranche::new(&bytes).take_i16_be().unwrap(), i16::from_be_bytes(b2));
        assert_eq!(BufTranche::new(&bytes).take_i16_ne().unwrap(), i16::from_ne_bytes(b2));
        assert_eq!(BufTranche::new(&bytes).take_u32_le().unwrap(), u32::from_le_bytes(b4));
        assert_eq!(BufTranche::new(&bytes).take_u32_be().unwrap(), u32::from_be_bytes(b4));
        assert_eq!(BufTranche::new(&bytes).take_i32_le().unwrap(), i32::from_le_bytes(b4));
        assert_eq!(BufTranche::new(&bytes).take_i32_be().unwrap(), i32::from_be_bytes(b4));
        assert_eq!(BufTranche::new(&bytes).take_u64_le().unwrap(), u64::from_le_bytes(b8));
        assert_eq!(BufTranche::new(&bytes).take_u64_be().unwrap(), u64::from_be_bytes(b8));
        assert_eq!(BufTranche::new(&bytes).take_i64_le().unwrap(), i64::from_le_bytes(b8));
        assert_eq!(BufTranche::new(&bytes).take_i64_be().unwrap(), i64::from_be_bytes(b8));
        assert_eq!(BufTranche::new(&bytes).take_i64_ne().unwrap(), i64::from_ne_bytes(b8));
        assert_eq!(BufTranche::new(&bytes).take_u128_le().unwrap(), u128::from_le_bytes(bytes));
        assert_eq!(BufTranche::new(&bytes).take_u128_be().unwrap(), u128::from_be_bytes(bytes));
        assert_eq!(BufTranche::new(&bytes).take_i128_le().unwrap(), i128::from_le_bytes(bytes));
        assert_eq!(BufTranche::new(&bytes).take_i128_be().unwrap(), i128::from_be_bytes(bytes));
    }
}

#[test]
fn short_tranches_are_reported_and_left_alone() {
    let mut t = BufTranche::new(&[1, 2, 3]);
    let err = t.take_u32_be().unwrap_err();
    assert_eq!((err.needed(), err.len()), (4, 3));
    let err = t.take_i32_le().unwrap_err();
    assert_eq!((err.needed(), err.len()), (4, 3));
    let err = t.take_u64_ne().unwrap_err();
    assert_eq!((err.needed(), err.len()), (8, 3));
    let err = t.take_i128_be().unwrap_err();
    assert_eq!((err.needed(), err.len()), (16, 3));
    let err = t.take_usize_le().unwrap_err();
    assert_eq!((err.needed(), err.len()), (std::mem::size_of::<usize>(), 3));
    let err = t.take_isize_ne().unwrap_err();
    assert_eq!((err.needed(), err.len()), (std::mem::size_of::<isize>(), 3));
    assert_eq!(t.as_slice(), &[1, 2, 3]);

    assert_eq!(t.take_u16_be().unwrap(), 0x0102);
    let err = t.take_u16_le().unwrap_err();
    assert_eq!((err.needed(), err.len()), (2, 1));
    let err = t.take_i16_ne().unwrap_err();
    assert_eq!((err.needed(), err.len()), (2, 1));
    assert_eq!(t.as_slice(), &[3]);
}

#[test]
fn unaligned_bytes_are_read_as_well() {
    let bytes = [0xaa, 0x01, 0x02, 0x03, 0x04, 0x05, 0x06, 0x07, 0x08, 0x09];
    let mut t = BufTranche::new(&bytes);
    assert_eq!(t.take_u8().unwrap(), 0xaa);
    assert_eq!(t.take_u64_be().unwrap(), 0x0102_0304_0506_0708);
    assert_eq!(t.take_u8().unwrap(), 0x09);
}

#[test]
fn based_takers_move_the_offset() {
    let mut t = BasedBufTranche::new(&BYTES);
    assert_eq!(t.take_u8().unwrap(), 0x01);
    assert_eq!(t.offset(), 1);
    assert_eq!(t.take_i8().unwrap(), 0x02);
    assert_eq!(t.offset(), 2);
    assert_eq!(t.take_u16_be().unwrap(), 0x0304);
    assert_eq!(t.offset(), 4);
    assert_eq!(t.take_u32_le().unwrap(), 0x0807_0605);
    assert_eq!(t.offset(), 8);
    assert_eq!(
        t.take_i32_ne().unwrap(),
        i32::from_ne_bytes([0x09, 0x0a, 0x0b, 0x0c])
    );
    assert_eq!(t.offset(), 12);
    let err = t.take_u64_be().unwrap_err();
    assert_eq!((err.needed(), err.len()), (8, 4));
    assert_eq!(t.offset(), 12);
    assert_eq!(t.take_i16_le().unwrap(), 0x0e0d);
    assert_eq!(t.take_i16_be().unwrap(), 0x0f10);
    assert_eq!(t.offset(), 16);
    assert!(t.take_u8().is_err());
    assert_eq!(t.offset(), 16);
}

#[test]
fn based_takers_read_what_plain_takers_read() {
    let bytes = [0x81u8, 0x92, 0xa3, 0xb4, 0xc5, 0xd6, 0xe7, 0xf8, 1, 2, 3, 4, 5, 6, 7, 8];
    assert_eq!(
        BasedBufTranche::new(&bytes).take_u16_le().unwrap(),
        BufTranche::new(&bytes).take_u16_le().unwrap()
    );
    assert_eq!(
        BasedBufTranche::new(&bytes).take_u16_ne().unwrap(),
        u16::from_ne_bytes([0x81, 0x92])
    );
    assert_eq!(
        BasedBufTranche::new(&bytes).take_i16_be().unwrap(),
        i16::from_be_bytes([0x81, 0x92])
    );
    assert_eq!(BasedBufTranche::new(&bytes).take_u32_be().unwrap(), 0x8192_a3b4);
    assert_eq!(
        BasedBufTranche::new(&bytes).take_u32_ne().unwrap(),
        u32::from_ne_bytes([0x81, 0x92, 0xa3, 0xb4])
    );
    assert_eq!(
        BasedBufTranche::new(&bytes).take_i32_le().unwrap(),
        i32::from_le_bytes([0x81, 0x92, 0xa3, 0xb4])
    );
    assert_eq!(
        BasedBufTranche::new(&bytes).take_i32_be().unwrap(),
        i32::from_be_bytes([0x81, 0x92, 0xa3, 0xb4])
    );
    assert_eq!(BasedBufTranche::new(&bytes).take_u64_le().unwrap(), 0xf8e7_d6c5_b4a3_9281);
    assert_eq!(BasedBufTranche::new(&bytes).take_u64_be().unwrap(), 0x8192_a3b4_c5d6_e7f8);
    assert_eq!(
        BasedBufTranche::new(&bytes).take_i64_be().unwrap(),
        0x8192_a3b4_c5d6_e7f8u64 as i64
    );
    assert_eq!(
        BasedBufTranche::new(&bytes).take_i64_le().unwrap(),
        0xf8e7_d6c5_b4a3_9281u64 as i64
    );
    assert_eq!(
        BasedBufTranche::new(&bytes).take_u64_ne().unwrap(),
        u64::from_ne_bytes([0x81, 0x92, 0xa3, 0xb4, 0xc5, 0xd6, 0xe7, 0xf8])
    );
    assert_eq!(
        BasedBufTranche::new(&bytes).take_i64_ne().unwrap(),
        i64::from_ne_bytes([0x81, 0x92, 0xa3, 0xb4, 0xc5, 0xd6, 0xe7, 0xf8])
    );
    assert_eq!(BasedBufTranche::new(&bytes).take_u128_le().unwrap(), u128::from_le_bytes(bytes));
    assert_eq!(BasedBufTranche::new(&bytes).take_u128_be().unwrap(), u128::from_be_bytes(bytes));
    assert_eq!(BasedBufTranche::new(&bytes).take_u128_ne().unwrap(), u128::from_ne_bytes(bytes));
    assert_eq!(BasedBufTranche::new(&bytes).take_i128_le().unwrap(), i128::from_le_bytes(bytes));
    assert_eq!(BasedBufTranche::new(&bytes).take_i128_be().unwrap(), i128::from_be_bytes(bytes));
    assert_eq!(BasedBufTranche::new(&bytes).take_i128_ne().unwrap(), i128::from_ne_bytes(bytes));
}

#[test]
fn based_word_takers() {
    let size = std::mem::size_of::<usize>();
    let mut bytes = [0u8; 16];
    bytes[..size].copy_from_slice(&usize::MAX.to_ne_bytes());
    let mut t = BasedBufTranche::new(&bytes);
    assert_eq!(t.take_usize_ne().unwrap(), usize::MAX);
    assert_eq!(t.offset(), size);
    assert_eq!(BasedBufTranche::new(&bytes).take_usize_le().unwrap(), usize::MAX);
    assert_eq!(BasedBufTranche::new(&bytes).take_usize_be().unwrap(), usize::MAX);
    assert_eq!(BasedBufTranche::new(&bytes).take_isize_le().unwrap(), -1);
    assert_eq!(BasedBufTranche::new(&bytes).take_isize_be().unwrap(), -1);
    assert_eq!(BasedBufTranche::new(&bytes).take_isize_ne().unwrap(), -1);
    bytes[..size].copy_from_slice(&(-300isize).to_be_bytes());
    assert_eq!(BasedBufTranche::new(&bytes).take_isize_be().unwrap(), -300);
}
