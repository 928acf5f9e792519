use orga::abci::bufmap::BufMap;
use orga::abci::machine::{apply_chunk_result, AbciMachine, AbciRequest, AbciStep, Phase};
use orga::error::Error;
use orga::store::Store;

fn machine() -> AbciMachine<Store> {
    AbciMachine::new(Store::with_map_store(), false, None)
}

fn writes(entries: &[(&[u8], Option<&[u8]>)]) -> BufMap {
    let mut w = BufMap::new();
    for (k, v) in entries {
        match v {
            Some(v) => w.put(k.to_vec(), v.to_vec()),
            None => w.delete(k.to_vec()),
        }
    }
    w
}

#[test]
fn empty_request_is_refused() {
    let mut m = machine();
    match m.handle(None) {
        Err(Error::Abci(msg)) => assert_eq!(msg, "Received empty request"),
        other => panic!("unexpected {:?}", other),
    }
}

#[test]
fn requests_are_routed() {
    let mut m = machine();
    assert_eq!(m.handle(Some(AbciRequest::Info)).unwrap(), AbciStep::Info);
    assert_eq!(m.handle(Some(AbciRequest::Flush)).unwrap(), AbciStep::Default);
    assert_eq!(m.handle(Some(AbciRequest::Echo)).unwrap(), AbciStep::Default);
    assert_eq!(m.handle(Some(AbciRequest::SetOption)).unwrap(), AbciStep::Default);
    assert_eq!(m.handle(Some(AbciRequest::Query)).unwrap(), AbciStep::Query);
    assert_eq!(m.handle(Some(AbciRequest::InitChain)).unwrap(), AbciStep::Run(Phase::InitChain));
    assert_eq!(m.handle(Some(AbciRequest::DeliverTx)).unwrap(), AbciStep::Run(Phase::DeliverTx));
    assert_eq!(m.handle(Some(AbciRequest::CheckTx)).unwrap(), AbciStep::Run(Phase::CheckTx));
    assert_eq!(m.handle(Some(AbciRequest::ListSnapshots)).unwrap(), AbciStep::Snapshot);
    assert_eq!(m.handle(Some(AbciRequest::ApplySnapshotChunk)).unwrap(), AbciStep::Snapshot);
    assert_eq!(
        m.handle(Some(AbciRequest::EndBlock { height: 7 })).unwrap(),
        AbciStep::Run(Phase::EndBlock)
    );
    assert_eq!(m.height, 7);

    let mut skipping = AbciMachine::new(Store::with_map_store(), true, None);
    assert_eq!(skipping.handle(Some(AbciRequest::InitChain)).unwrap(), AbciStep::Default);
}

#[test]
fn blocks_above_the_stop_height_are_refused() {
    let mut m = AbciMachine::new(Store::with_map_store(), false, Some(5));
    assert_eq!(
        m.handle(Some(AbciRequest::BeginBlock { height: 5 })).unwrap(),
        AbciStep::Run(Phase::BeginBlock)
    );
    assert_eq!(m.block_height, Some(5));
    match m.handle(Some(AbciRequest::BeginBlock { height: 6 })) {
        Err(Error::Abci(msg)) => assert_eq!(msg, "Reached stop height (5)"),
        other => panic!("unexpected {:?}", other),
    }
    assert_eq!(m.block_height, Some(5));
}

#[test]
fn block_writes_are_committed_and_mempool_writes_dropped() {
    let mut m = machine();
    m.handle(Some(AbciRequest::BeginBlock { height: 1 })).unwrap();
    m.finish(Phase::BeginBlock, writes(&[(b"a", Some(b"1"))]));
    // The block reads its own writes; the store does not hold them yet.
    assert_eq!(m.read(Phase::DeliverTx, b"a"), Some(b"1".to_vec()));
    assert_eq!(m.store.get(b"a"), None);
    assert_eq!(m.read(Phase::CheckTx, b"a"), None);

    // A delivered transaction's writes go into the store with the block's.
    m.finish(Phase::DeliverTx, writes(&[(b"b", Some(b"2")), (b"a", None)]));
    assert_eq!(m.store.get(b"b"), Some(b"2".to_vec()));
    assert_eq!(m.store.get(b"a"), None);
    assert_eq!(m.read(Phase::DeliverTx, b"a"), None);

    // A checked transaction only writes to the mempool's buffer.
    m.finish(Phase::CheckTx, writes(&[(b"c", Some(b"3"))]));
    assert_eq!(m.read(Phase::CheckTx, b"c"), Some(b"3".to_vec()));
    assert_eq!(m.read(Phase::DeliverTx, b"c"), None);
    assert_eq!(m.store.get(b"c"), None);

    m.finish(Phase::EndBlock, writes(&[(b"d", Some(b"4"))]));
    assert_eq!(m.store.get(b"d"), None);
    assert_eq!(m.handle(Some(AbciRequest::Commit)).unwrap(), AbciStep::Commit);
    assert_eq!(m.store.get(b"d"), Some(b"4".to_vec()));
    assert_eq!(m.store.get(b"b"), Some(b"2".to_vec()));
    assert_eq!(m.read(Phase::CheckTx, b"c"), None);
    assert_eq!(m.read(Phase::CheckTx, b"d"), Some(b"4".to_vec()));
}

#[test]
fn later_writes_win_in_a_buffer() {
    let w = writes(&[(b"k", Some(b"1")), (b"k", Some(b"2")), (b"j", None)]);
    assert_eq!(w.lookup(b"k"), Some(Some(b"2".to_vec())));
    assert_eq!(w.lookup(b"j"), Some(None));
    assert_eq!(w.lookup(b"x"), None);
}

#[test]
fn chunk_results() {
    assert_eq!(apply_chunk_result(true), 1);
    assert_eq!(apply_chunk_result(false), 3);
}

#[test]
fn query_reply_reports_failures() {
    let m = AbciMachine::new(Store::with_map_store(), false, None);
    let ok = m.query_reply(Ok(vec![4, 2]));
    assert_eq!((ok.code, ok.value, ok.log, ok.height), (0, vec![4, 2], String::new(), 0));
    let failed = m.query_reply(Err(Error::App("no such key".to_string())));
    assert_eq!((failed.code, failed.value, failed.log), (1, vec![], "no such key".to_string()));
    assert_eq!(Error::DivideByZero.text(), "Divide by zero");
}
