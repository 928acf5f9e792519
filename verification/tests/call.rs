use orga::call::{Call, CallBuilder, Item, Tuple2Call, PREFIX_OFFSET};
use orga::error::Error;

#[test]
fn item_method_encoding_raises_first_byte() {
    let item: Item<Vec<u8>, Vec<u8>> = Item::Method(vec![1, 2, 3]);
    assert_eq!(item.encode(), Some(vec![1 + PREFIX_OFFSET, 2, 3]));
}

#[test]
fn item_field_encoding_is_unchanged() {
    let item: Item<Vec<u8>, Vec<u8>> = Item::Field(vec![5, 6]);
    assert_eq!(item.encode(), Some(vec![5, 6]));
}

#[test]
fn item_unencodable_method() {
    let empty: Item<Vec<u8>, Vec<u8>> = Item::Method(vec![]);
    assert_eq!(empty.encode(), None);
    let high: Item<Vec<u8>, Vec<u8>> = Item::Method(vec![PREFIX_OFFSET, 1]);
    assert_eq!(high.encode(), None);
}

#[test]
fn item_roundtrip() {
    let item: Item<Vec<u8>, Vec<u8>> = Item::Method(vec![3, 9, 9]);
    let bytes = item.encode().unwrap();
    match Item::<Vec<u8>, Vec<u8>>::decode(&bytes) {
        Some(Item::Method(m)) => assert_eq!(m, vec![3, 9, 9]),
        _ => panic!("expected a method call"),
    }
    match Item::<Vec<u8>, Vec<u8>>::decode(&[7, 1]) {
        Some(Item::Field(f)) => assert_eq!(f, vec![7, 1]),
        _ => panic!("expected a field call"),
    }
    assert!(Item::<Vec<u8>, Vec<u8>>::decode(&[]).is_none());
}

#[test]
fn option_call_none_fails() {
    let mut value: Option<u32> = None;
    match value.call(()) {
        Err(Error::Call(msg)) => assert_eq!(msg, "Call option is None"),
        other => panic!("unexpected {:?}", other),
    }
    let mut some: Option<u32> = Some(3);
    assert!(some.call(()).is_ok());
}

#[test]
fn vec_call_index_out_of_bounds() {
    let mut values: Vec<Option<u8>> = vec![Some(1), None];
    assert!(values.call((0, ())).is_ok());
    assert!(matches!(values.call((1, ())), Err(Error::Call(_))));
    match values.call((2, ())) {
        Err(Error::App(msg)) => assert_eq!(msg, "Index out of bounds"),
        other => panic!("unexpected {:?}", other),
    }
}

#[test]
fn array_call_index_out_of_bounds() {
    let mut values: [u8; 2] = [1, 2];
    assert!(values.call((1, ())).is_ok());
    match values.call((2, ())) {
        Err(Error::Call(msg)) => assert_eq!(msg, "Call index out of bounds"),
        other => panic!("unexpected {:?}", other),
    }
}

#[test]
fn tuple_call_addresses_field() {
    let mut pair: (Option<u8>, u8) = (None, 4);
    assert!(pair.call(Tuple2Call::Field1(())).is_ok());
    assert!(pair.call(Tuple2Call::Field0(())).is_err());
}

#[test]
fn call_builder_make() {
    let value = Box::new(5u32);
    let _builder: CallBuilder<u32> = CallBuilder::make(value);
    let _default: CallBuilder<u32> = CallBuilder::default();
}
