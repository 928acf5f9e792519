use orga::client::exec::{outcome_step, record_query, root_step, traced_step, StepResult};
use orga::error::{Error, Result};
use orga::store::StoreError;

#[test]
fn root_step_fetches_empty_key_when_root_unknown_or_absent() {
    let r = root_step::<u32>(Ok(None));
    assert!(matches!(r, Some(Ok(StepResult::FetchKey(ref k))) if k.is_empty()));
    let r = root_step::<u32>(Err(Error::StoreErr(StoreError::GetUnknown(vec![]))));
    assert!(matches!(r, Some(Ok(StepResult::FetchKey(ref k))) if k.is_empty()));
    assert!(root_step::<u32>(Ok(Some(vec![1, 2]))).is_none());
    let r = root_step::<u32>(Err(Error::Client("boom".to_string())));
    assert!(matches!(r, Some(Err(Error::Client(ref m))) if m == "boom"));
}

#[test]
fn outcome_step_classifies_misses() {
    assert!(matches!(outcome_step(Ok(7u32)), Ok(StepResult::Done(7))));
    let r: Result<StepResult<u32>> = outcome_step(Err(Error::StoreErr(StoreError::GetUnknown(vec![5]))));
    assert!(matches!(r, Ok(StepResult::FetchKey(ref k)) if k == &vec![5]));
    let r: Result<StepResult<u32>> = outcome_step(Err(Error::StoreErr(StoreError::GetNextUnknown(vec![6]))));
    assert!(matches!(r, Ok(StepResult::FetchNext(ref k)) if k == &vec![6]));
    let r: Result<StepResult<u32>> =
        outcome_step(Err(Error::StoreErr(StoreError::GetPrevUnknown(Some(vec![7])))));
    assert!(matches!(r, Ok(StepResult::FetchPrev(Some(ref k))) if k == &vec![7]));
    let r: Result<StepResult<u32>> = outcome_step(Err(Error::StoreErr(StoreError::GetPrevUnknown(None))));
    assert!(matches!(r, Err(Error::StoreErr(StoreError::GetPrevUnknown(None)))));
    let r: Result<StepResult<u32>> = outcome_step(Err(Error::Overflow));
    assert!(matches!(r, Err(Error::Overflow)));
}

#[test]
fn traced_step_builds_receiver_query() {
    let fallback: StepResult<u32> = StepResult::FetchKey(vec![9, 9]);
    assert_eq!(fallback.miss_key(), Some(&vec![9, 9]));
    let r = traced_step(fallback, Some((Ok(vec![0, 1, 2]), vec![3, 4])));
    assert!(matches!(r, StepResult::FetchQuery(ref q) if q == &vec![1, 2, 3, 4]));

    let fallback: StepResult<u32> = StepResult::FetchNext(vec![8]);
    let r = traced_step(fallback, Some((Err(Error::Client("No matching child".to_string())), vec![3])));
    assert!(matches!(r, StepResult::FetchNext(ref k) if k == &vec![8]));

    let fallback: StepResult<u32> = StepResult::FetchPrev(Some(vec![1]));
    assert!(matches!(traced_step(fallback, None), StepResult::FetchPrev(Some(_))));

    let done: StepResult<u32> = StepResult::Done(3);
    assert!(done.miss_key().is_none());
    assert!(matches!(traced_step(done, Some((Ok(vec![0]), vec![1]))), StepResult::Done(3)));
}

#[test]
fn record_query_refuses_a_repeated_query() {
    let mut seen: Vec<Vec<u8>> = vec![];
    assert!(record_query(&mut seen, vec![2]).is_ok());
    assert!(record_query(&mut seen, vec![0, 129]).is_ok());
    match record_query(&mut seen, vec![2]) {
        Err(Error::Client(m)) => assert_eq!(m, "Execution did not advance"),
        other => panic!("unexpected {:?}", other),
    }
    assert_eq!(seen, vec![vec![2], vec![0, 129]]);
}
