use orga::collections::Next;

#[test]
fn u8_next() {
    let key: [u8; 3] = [2, 3, 0];
    assert_eq!(key.next().unwrap(), [2, 3, 1]);
}

#[test]
fn u8_next_last_max() {
    let key: [u8; 3] = [2, 3, 255];
    assert_eq!(key.next().unwrap(), [2, 4, 0]);
}

#[test]
fn u8_next_all_max() {
    let key: [u8; 3] = [255, 255, 255];
    assert_eq!(key.next(), None);
}

#[test]
fn two_tuple_next() {
    let key: (u8, u32) = (0, 0);
    assert_eq!(key.next().unwrap(), (0, 1));
}

#[test]
fn two_tuple_next_last_max() {
    let key: (u8, u8) = (0, 255);
    assert_eq!(key.next().unwrap(), (1, 0));
}

#[test]
fn two_tuple_next_all_max() {
    let key: (u8, u8) = (255, 255);
    assert!(key.next().is_none());
}

#[test]
fn single_tuple_next() {
    let key: (u8,) = (0,);
    assert_eq!(key.next().unwrap(), (1,));
}

#[test]
fn single_tuple_max() {
    let key: (u8,) = (255,);
    assert!(key.next().is_none());
}

#[test]
fn max_tuple_next() {
    let key: (u8, u8, u8, u8, u8, u8, u8, u8, u8, u8, u8, u8) =
        (0, 0, 0, 0, 0, 0, 0, 0, 0, 0, 0, 0);
    assert_eq!(key.next().unwrap(), (0, 0, 0, 0, 0, 0, 0, 0, 0, 0, 0, 1));
}

#[test]
fn bool_next() {
    assert_eq!(false.next(), Some(true));
    assert_eq!(true.next(), None);
}

#[test]
fn integer_next_and_end_of_domain() {
    assert_eq!(7u64.next(), Some(8));
    assert_eq!(u64::MAX.next(), None);
    assert_eq!((-1i32).next(), Some(0));
    assert_eq!(i8::MAX.next(), None);
}

#[test]
fn array_next_resets_trailing_elements() {
    let key: [u8; 4] = [1, 255, 255, 255];
    assert_eq!(key.next().unwrap(), [2, 0, 0, 0]);
}
