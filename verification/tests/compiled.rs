use tranche::{BasedBufTranche, BasedTranche, BufTranche, Tranche, UnexpectedEndError};

#[test]
fn core_it_compiled() {}

#[test]
fn std_it_compiled() {}

fn same_type<T>(_: &T, _: &T) {}

fn is_send_and_sync<T: Send + Sync>() {}

fn is_clone<T: Clone>() {}

fn is_default<T: Default>() {}

#[test]
fn buf_tranches_are_tranches_of_bytes() {
    let bytes = [1u8, 2, 3];
    let plain: BufTranche = BufTranche::new(&bytes);
    let named: Tranche<u8> = Tranche::new(&bytes);
    same_type(&plain, &named);

    let based: BasedBufTranche = BasedBufTranche::new(&bytes);
    let named: BasedTranche<u8> = BasedTranche::new(&bytes);
    same_type(&based, &named);
}

#[test]
fn tranches_have_the_usual_traits() {
    is_send_and_sync::<Tranche<u32>>();
    is_send_and_sync::<BasedTranche<u32>>();
    is_clone::<Tranche<String>>();
    is_clone::<BasedTranche<String>>();
    is_default::<Tranche<String>>();
    is_default::<BasedTranche<String>>();
    is_send_and_sync::<UnexpectedEndError>();
    is_clone::<UnexpectedEndError>();
}

#[test]
fn an_option_of_a_tranche_costs_nothing() {
    assert_eq!(
        std::mem::size_of::<Option<Tranche<u8>>>(),
        std::mem::size_of::<Tranche<u8>>()
    );
    assert_eq!(
        std::mem::size_of::<Option<BasedTranche<u8>>>(),
        std::mem::size_of::<BasedTranche<u8>>()
    );
}
