use orga::client::experimental::{join_store, trace, with_trace, DirectStoreClient, QueryStore};
use orga::client::trace::{
    maybe_pop_trace, maybe_push_trace, set_tracing, take_trace, tracing, tracing_guard, MethodType,
    Tracer,
};
use orga::client::{Bar, Foo};
use orga::error::Error;
use orga::store::Store;

#[test]
fn trace_bytes_concatenates() {
    let mut traces = vec![];
    trace::<u32>(&mut traces, vec![1, 2], vec![3]).unwrap();
    assert_eq!(traces[0].bytes(), vec![1, 2, 3]);
    let r: Result<(), ()> = with_trace(&mut traces, Ok(()));
    assert!(r.is_ok());
    assert!(traces.is_empty());
}

#[test]
fn with_trace_keeps_trace_on_error() {
    let mut traces = vec![];
    trace::<u8>(&mut traces, vec![1], vec![]).unwrap();
    let r: Result<(), &str> = with_trace(&mut traces, Err("failed"));
    assert!(r.is_err());
    assert_eq!(traces.len(), 1);
}

#[test]
fn tracing_push_pop_and_history() {
    let mut tracer = Tracer::new();
    maybe_push_trace::<u32, _>(&mut tracer, || (MethodType::Call, vec![9], vec![1]));
    assert!(tracer.state.stack.is_empty());

    let guard = tracing_guard(&mut tracer);
    assert!(tracing(&tracer));
    maybe_push_trace::<u32, _>(&mut tracer, || (MethodType::Call, vec![9], vec![1]));
    maybe_push_trace::<u64, _>(&mut tracer, || (MethodType::Query, vec![2], vec![]));
    assert_eq!(tracer.state.stack.len(), 2);
    assert_eq!(tracer.state.history.len(), 1);
    assert_eq!(tracer.state.history[0].bytes(), vec![9, 1]);
    let v = maybe_pop_trace(&mut tracer, 7);
    assert_eq!(v, 7);
    assert_eq!(tracer.state.stack.len(), 1);
    guard.release(&mut tracer);
    assert!(!tracing(&tracer));

    let state = take_trace(&mut tracer);
    assert_eq!(state.stack.len(), 1);
    assert!(tracer.state.stack.is_empty() && tracer.state.history.is_empty());
    set_tracing(&mut tracer, true);
    assert!(tracing(&tracer));
}

fn store_of(entries: &[(&[u8], &[u8])]) -> Store {
    let mut store = Store::with_map_store();
    for (k, v) in entries {
        store.put(k.to_vec(), v.to_vec());
    }
    store
}

#[test]
fn store_put_get() {
    let mut store = store_of(&[(b"a", b"1")]);
    assert_eq!(store.get(b"a"), Some(b"1".to_vec()));
    store.put(b"a".to_vec(), b"2".to_vec());
    assert_eq!(store.get(b"a"), Some(b"2".to_vec()));
    assert_eq!(store.get(b"b"), None);
}

#[test]
fn join_store_prefers_source() {
    let dst = store_of(&[(b"a", b"1"), (b"b", b"2")]);
    let src = store_of(&[(b"b", b"3"), (b"c", b"4")]);
    let joined = join_store(dst, src).unwrap();
    assert_eq!(joined.get(b"a"), Some(b"1".to_vec()));
    assert_eq!(joined.get(b"b"), Some(b"3".to_vec()));
    assert_eq!(joined.get(b"c"), Some(b"4".to_vec()));
}

#[test]
fn query_store_reports_misses() {
    let mut qs = QueryStore::new();
    match qs.get(b"k") {
        Err(Error::ClientStore { store_op }) => assert_eq!(store_op.key, b"k".to_vec()),
        other => panic!("unexpected {:?}", other),
    }
    qs.add_data(store_of(&[(b"k", b"v")])).unwrap();
    assert_eq!(qs.get(b"k").unwrap(), Some(b"v".to_vec()));
    qs.add_data(store_of(&[(b"j", b"w")])).unwrap();
    assert_eq!(qs.get(b"k").unwrap(), Some(b"v".to_vec()));
    assert_eq!(qs.get(b"j").unwrap(), Some(b"w".to_vec()));
    assert!(qs.put(b"x".to_vec(), b"y".to_vec()).is_err());
}

#[test]
fn direct_store_client_query_key() {
    let client: DirectStoreClient<()> = DirectStoreClient::new(store_of(&[(b"a", b"1"), (b"b", b"2")]));
    let (res, height) = client.query_key(b"a", &None).unwrap();
    assert_eq!(height, 0);
    assert_eq!(res.get(b"a"), Some(b"1".to_vec()));
    assert_eq!(res.get(b"b"), None);
    let (res, _) = client.query_key(b"z", &None).unwrap();
    assert!(res.entries.is_empty());
}

#[test]
fn foo_bar_calls() {
    let mut foo = Foo { bar: Bar(0), bar2: Bar(0) };
    foo.get_bar_mut(1).unwrap().increment();
    assert_eq!(foo.bar2, Bar(1));
    assert_eq!(foo.bar, Bar(0));
    match foo.get_bar_mut(2) {
        Err(Error::Call(msg)) => assert_eq!(msg, "Invalid id"),
        _ => panic!("expected an error"),
    }
}
