use tranche::BasedTranche;

fn do_test<T>(slice: &[T]) {
    let mut tranche = BasedTranche::new(slice);
    assert_eq!(tranche.offset(), 0);

    tranche.take_first().unwrap();
    assert_eq!(tranche.offset(), 1);

    tranche.take_front(2).unwrap();
    assert_eq!(tranche.offset(), 3);
}

#[test]
fn test_bytes() {
    do_test(&[1u8, 2, 3, 4, 5, 6]);
}

#[test]
fn test_words() {
    do_test(&[1usize, 2, 3, 4, 5, 6]);
}

#[test]
fn test_units() {
    do_test(&[(), (), (), (), (), ()]);
}

#[test]
fn fresh_based_tranche_has_offset_zero() {
    let t = BasedTranche::new(&["baguette", "jambon", "beurre"]);
    assert_eq!(t.offset(), 0);
    assert_eq!(t.len(), 3);
    assert!(!t.is_empty());
    assert_eq!(t.as_slice(), &["baguette", "jambon", "beurre"]);
}

#[test]
fn based_scenario_on_six_bytes() {
    let mut t = BasedTranche::new(&[1u8, 2, 3, 4, 5, 6]);
    assert_eq!(t.offset(), 0);

    assert_eq!(t.take_first().unwrap(), &1);
    assert_eq!(t.offset(), 1);

    let front = t.take_front(2).unwrap();
    assert_eq!(t.offset(), 3);
    assert_eq!(front.as_slice(), &[2, 3]);
    assert_eq!(t.as_slice(), &[4, 5, 6]);
}

#[test]
fn based_take_first() {
    let mut v = BasedTranche::new(&[10, 40, 30]);
    assert_eq!(v.take_first().unwrap(), &10);
    assert_eq!(v.as_slice(), &[40, 30]);

    let mut w = BasedTranche::<i32>::new(&[]);
    let err = w.take_first().unwrap_err();
    assert_eq!(err.needed(), 1);
    assert_eq!(err.len(), 0);
    assert_eq!(w.offset(), 0);
}

#[test]
fn based_take_front() {
    let mut v = BasedTranche::new(&[10, 40, 30]);
    assert_eq!(v.take_front(2).unwrap().as_slice(), &[10, 40]);
    assert_eq!(v.as_slice(), &[30]);

    let err = v.take_front(3).err().unwrap();
    assert_eq!(err.needed(), 3);
    assert_eq!(err.len(), 1);
    assert_eq!(v.offset(), 2);
    assert_eq!(v.as_slice(), &[30]);
}

#[test]
fn a_front_keeps_the_base() {
    let mut t = BasedTranche::new(&[1, 2, 3, 4, 5, 6, 7]);
    t.take_front(2).unwrap();
    let mut front = t.take_front(3).unwrap();
    assert_eq!(front.offset(), 2);
    assert_eq!(t.offset(), 5);
    assert_eq!(front.take_first().unwrap(), &3);
    assert_eq!(front.offset(), 3);
    assert_eq!(front.as_slice(), &[4, 5]);
    assert_eq!(t.offset(), 5);
}

#[test]
fn offset_counts_whatever_way_elements_are_taken() {
    let data: Vec<u32> = (0..20).collect();
    let mut singly = BasedTranche::new(&data);
    let mut in_fronts = BasedTranche::new(&data);
    let mut mixed = BasedTranche::new(&data);
    for _ in 0..12 {
        singly.take_first().unwrap();
    }
    in_fronts.take_front(5).unwrap();
    in_fronts.take_front(0).unwrap();
    in_fronts.take_front(7).unwrap();
    mixed.take_first().unwrap();
    mixed.take_front(10).unwrap();
    mixed.take_first().unwrap();
    for t in [&singly, &in_fronts, &mixed] {
        assert_eq!(t.offset(), 12);
        assert_eq!(t.len(), 8);
        assert_eq!(t.as_slice(), &data[12..]);
    }
}

#[test]
fn failures_do_not_move_the_offset() {
    let mut t = BasedTranche::new(&[1u8, 2, 3]);
    t.take_first().unwrap();
    assert!(t.take_front(3).is_err());
    assert_eq!(t.offset(), 1);
    t.take_front(2).unwrap();
    assert!(t.take_first().is_err());
    assert_eq!(t.offset(), 3);
    assert!(t.is_empty());
}

#[test]
fn zero_sized_elements_move_the_offset() {
    let units = [(); 50];
    let mut t = BasedTranche::new(&units);
    assert_eq!(t.len(), 50);
    for taken in 1..=50 {
        t.take_first().unwrap();
        assert_eq!(t.offset(), taken);
        assert_eq!(t.len(), 50 - taken);
    }
    assert!(t.take_first().is_err());
    assert_eq!(t.offset(), 50);
}

#[test]
fn zero_sized_fronts_of_a_based_tranche() {
    let units = [(); 9];
    let mut t = BasedTranche::new(&units);
    t.take_first().unwrap();
    let front = t.take_front(5).unwrap();
    assert_eq!(front.len(), 5);
    assert_eq!(front.offset(), 1);
    assert_eq!(t.len(), 3);
    assert_eq!(t.offset(), 6);
}

#[test]
fn based_clone_and_default() {
    let mut a = BasedTranche::new(&[1, 2, 3]);
    a.take_first().unwrap();
    let b = a.clone();
    a.take_first().unwrap();
    assert_eq!((a.offset(), a.as_slice()), (2, &[3][..]));
    assert_eq!((b.offset(), b.as_slice()), (1, &[2, 3][..]));

    let d = BasedTranche::<u8>::default();
    assert!(d.is_empty());
    assert_eq!(d.offset(), 0);
}
