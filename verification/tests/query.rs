use orga::client::experimental::{query_step, QueryAction, StoreOp, Trace};
use orga::error::Error;
use std::any::TypeId;

fn miss(key: Vec<u8>) -> Error {
    Error::ClientStore { store_op: StoreOp { key, old_value: None, new_value: None } }
}

#[test]
fn query_step_decides() {
    let none: Vec<Trace> = vec![];
    assert!(matches!(query_step(0, Ok::<u32, Error>(7), &none), Ok(QueryAction::Done(7))));
    assert!(matches!(
        query_step::<u32>(0, Err(Error::Client("x".to_string())), &none),
        Err(Error::Client(m)) if m == "x"
    ));
    match query_step::<u32>(3, Err(miss(vec![1, 2])), &none) {
        Ok(QueryAction::FetchKey(k)) => assert_eq!(k, vec![1, 2]),
        _ => panic!("expected a key fetch"),
    }
    let traces = vec![Trace { type_id: TypeId::of::<u64>(), method_prefix: vec![9], method_args: vec![8, 7] }];
    match query_step::<u32>(3, Err(miss(vec![1])), &traces) {
        Ok(QueryAction::FetchByQuery { type_id, call_bytes, key }) => {
            assert_eq!(type_id, TypeId::of::<u64>());
            assert_eq!(call_bytes, vec![9, 8, 7]);
            assert_eq!(key, vec![1]);
        }
        _ => panic!("expected a query fetch"),
    }
    assert!(matches!(
        query_step::<u32>(999, Err(miss(vec![1])), &none),
        Err(Error::Client(m)) if m == "Max steps reached"
    ));
}
