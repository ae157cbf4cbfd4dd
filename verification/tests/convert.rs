use tranche::{BasedTranche, Tranche};

#[test]
fn a_tranche_made_based_starts_at_offset_zero() {
    let mut plain = Tranche::new(&[1, 2, 3, 4]);
    plain.take_front(3).unwrap();
    let mut based = BasedTranche::from(plain);
    assert_eq!(based.offset(), 0);
    assert_eq!(based.as_slice(), &[4]);
    based.take_first().unwrap();
    assert_eq!(based.offset(), 1);
}

#[test]
fn a_based_tranche_made_plain_keeps_its_elements() {
    let mut based = BasedTranche::new(&[1, 2, 3, 4]);
    based.take_first().unwrap();
    let plain = Tranche::from(based);
    assert_eq!(plain.as_slice(), &[2, 3, 4]);
    assert_eq!(plain.len(), 3);
}

#[test]
fn round_trip_keeps_contents_and_length() {
    let data = [9u8, 8, 7, 6, 5];
    for k in 0..=data.len() {
        let mut plain = Tranche::new(&data);
        plain.take_front(k).unwrap();
        let based: BasedTranche<u8> = plain.clone().into();
        let back: Tranche<u8> = based.into();
        assert_eq!(back.as_slice(), plain.as_slice());
        assert_eq!(back.len(), plain.len());
        assert_eq!(back.as_slice(), &data[k..]);
    }
}

#[test]
fn round_trip_of_zero_sized_elements() {
    let units = [(); 6];
    let mut plain = Tranche::new(&units);
    plain.take_front(2).unwrap();
    let back = Tranche::from(BasedTranche::from(plain.clone()));
    assert_eq!(back.len(), 4);
    assert_eq!(plain.len(), 4);
}

#[test]
fn rebasing_forgets_what_was_taken() {
    let mut based = BasedTranche::new(&[1, 2, 3, 4]);
    based.take_front(2).unwrap();
    assert_eq!(based.offset(), 2);
    let rebased = BasedTranche::from(Tranche::from(based));
    assert_eq!(rebased.offset(), 0);
    assert_eq!(rebased.as_slice(), &[3, 4]);
}
