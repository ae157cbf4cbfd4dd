use tranche::{BasedBufTranche, BufTranche};

#[test]
fn read_into_a_shorter_buffer() {
    let mut t = BufTranche::new(&[1, 2, 3]);
    let mut buf = [0u8; 2];
    assert_eq!(t.read(&mut buf), 2);
    assert_eq!(buf, [1, 2]);
    assert_eq!(t.len(), 1);

    assert_eq!(t.read(&mut buf), 1);
    assert_eq!(buf, [3, 2]);
    assert_eq!(t.len(), 0);

    assert_eq!(t.read(&mut buf), 0);
    assert_eq!(buf, [3, 2]);
    assert!(t.is_empty());
}

#[test]
fn read_into_a_longer_buffer() {
    let mut t = BufTranche::new(&[9, 8, 7]);
    let mut buf = [0xeeu8; 5];
    assert_eq!(t.read(&mut buf), 3);
    assert_eq!(buf, [9, 8, 7, 0xee, 0xee]);
    assert!(t.is_empty());
}

#[test]
fn read_into_a_buffer_of_the_same_length() {
    let mut t = BufTranche::new(&[4, 5]);
    let mut buf = [0u8; 2];
    assert_eq!(t.read(&mut buf), 2);
    assert_eq!(buf, [4, 5]);
    assert!(t.is_empty());
}

#[test]
fn read_a_single_byte() {
    let mut t = BufTranche::new(&[4, 5]);
    let mut buf = [0u8; 1];
    assert_eq!(t.read(&mut buf), 1);
    assert_eq!(buf, [4]);
    assert_eq!(t.as_slice(), &[5]);
}

#[test]
fn read_into_an_empty_buffer() {
    let mut t = BufTranche::new(&[4, 5]);
    let mut buf = [0u8; 0];
    assert_eq!(t.read(&mut buf), 0);
    assert_eq!(t.as_slice(), &[4, 5]);
}

#[test]
fn fill_buf_shows_everything_and_takes_nothing() {
    let mut t = BufTranche::new(&[1, 2, 3]);
    assert_eq!(t.fill_buf(), &[1, 2, 3]);
    assert_eq!(t.fill_buf(), &[1, 2, 3]);
    assert_eq!(t.len(), 3);
    t.take_u8().unwrap();
    assert_eq!(t.fill_buf(), &[2, 3]);
}

#[test]
fn consume_drops_bytes_from_the_front() {
    let mut t = BufTranche::new(&[1, 2, 3, 4]);
    t.consume(0);
    assert_eq!(t.as_slice(), &[1, 2, 3, 4]);
    t.consume(3);
    assert_eq!(t.as_slice(), &[4]);
    t.consume(1);
    assert!(t.is_empty());
    t.consume(0);
    assert!(t.is_empty());
}

#[test]
fn based_stream_moves_the_offset() {
    let mut t = BasedBufTranche::new(&[1, 2, 3, 4, 5, 6]);
    let mut buf = [0u8; 2];
    assert_eq!(t.read(&mut buf), 2);
    assert_eq!(buf, [1, 2]);
    assert_eq!(t.offset(), 2);
    assert_eq!(t.fill_buf(), &[3, 4, 5, 6]);
    assert_eq!(t.offset(), 2);
    t.consume(3);
    assert_eq!(t.offset(), 5);
    let mut big = [0u8; 4];
    assert_eq!(t.read(&mut big), 1);
    assert_eq!(big, [6, 0, 0, 0]);
    assert_eq!(t.offset(), 6);
    assert_eq!(t.read(&mut big), 0);
    assert_eq!(t.offset(), 6);
    assert_eq!(t.fill_buf(), &[] as &[u8]);
}
