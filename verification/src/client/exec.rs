//! The decisions of client-side execution. A query runs against the state
//! fetched so far; each run either finishes or names what must be fetched
//! before the next run, and a query sent twice means that execution did not
//! advance.
use vstd::prelude::*;

use crate::error::{Error, Result};
use crate::store::{bytes_eq, StoreError};

verus! {

/// What one step of execution found.
#[derive(Debug)]
pub enum StepResult<U> {
    /// The query finished with this value.
    Done(U),
    /// The value at this key must be fetched.
    FetchKey(Vec<u8>),
    /// The entry after this key must be fetched.
    FetchNext(Vec<u8>),
    /// The entry before this key (before the end, for `None`) must be fetched.
    FetchPrev(Option<Vec<u8>>),
    /// This encoded query must be sent, to fetch what the traced call reads.
    FetchQuery(Vec<u8>),
}

impl<U> StepResult<U> {
    /// The key a fetch of a single key, of the next entry or of the previous
    /// entry is about.
    pub fn miss_key(&self) -> (r: Option<&Vec<u8>>)
        ensures
            match self {
                StepResult::FetchKey(k) => r == Some(k),
                StepResult::FetchNext(k) => r == Some(k),
                StepResult::FetchPrev(Some(k)) => r == Some(k),
                _ => r is None,
            },
    {
        match self {
            StepResult::FetchKey(k) => Some(k),
            StepResult::FetchNext(k) => Some(k),
            StepResult::FetchPrev(Some(k)) => Some(k),
            _ => None,
        }
    }
}

/// The step that reading the root key decides, if any: none when the root's
/// bytes are there (the query then runs on them); fetching the empty key
/// when the store does not know the root or does not hold it; any other
/// failure is returned.
pub fn root_step<U>(root: Result<Option<Vec<u8>>>) -> (r: Option<Result<StepResult<U>>>)
    ensures
        match root {
            Ok(Some(_)) => r is None,
            Ok(None) => r matches Some(Ok(StepResult::FetchKey(k))) && k@ == Seq::<u8>::empty(),
            Err(Error::StoreErr(StoreError::GetUnknown(_))) => r matches Some(Ok(StepResult::FetchKey(k)))
                && k@ == Seq::<u8>::empty(),
            Err(e) => r == Some(Err::<StepResult<U>, Error>(e)),
        },
{
    match root {
        Ok(Some(_)) => None,
        Ok(None) => Some(Ok(StepResult::FetchKey(Vec::new()))),
        Err(Error::StoreErr(StoreError::GetUnknown(_))) => Some(Ok(StepResult::FetchKey(Vec::new()))),
        Err(e) => Some(Err(e)),
    }
}

/// The step that the outcome of running the query decides by itself: `Done`
/// with its value, or fetching what the store could not answer. Any other
/// failure, and a miss before the end of an unknown range, is returned.
pub fn outcome_step<U>(outcome: Result<U>) -> (r: Result<StepResult<U>>)
    ensures
        match outcome {
            Ok(v) => r == Ok::<StepResult<U>, Error>(StepResult::Done(v)),
            Err(Error::StoreErr(StoreError::GetUnknown(k))) => r == Ok::<StepResult<U>, Error>(
                StepResult::FetchKey(k),
            ),
            Err(Error::StoreErr(StoreError::GetNextUnknown(k))) => r == Ok::<StepResult<U>, Error>(
                StepResult::FetchNext(k),
            ),
            Err(Error::StoreErr(StoreError::GetPrevUnknown(Some(k)))) => r == Ok::<
                StepResult<U>,
                Error,
            >(StepResult::FetchPrev(Some(k))),
            Err(e) => r == Err::<StepResult<U>, Error>(e),
        },
{
    match outcome {
        Ok(v) => Ok(StepResult::Done(v)),
        Err(Error::StoreErr(StoreError::GetUnknown(k))) => Ok(StepResult::FetchKey(k)),
        Err(Error::StoreErr(StoreError::GetNextUnknown(k))) => Ok(StepResult::FetchNext(k)),
        Err(Error::StoreErr(StoreError::GetPrevUnknown(Some(k)))) => Ok(StepResult::FetchPrev(Some(k))),
        Err(e) => Err(e),
    }
}

/// The step after a miss, given the last traced call, if any: the prefix its
/// receiver was resolved to under the missed key, and the trace's bytes. A
/// resolved receiver gives the query made of its prefix without the first
/// byte, then the trace's bytes; otherwise the fetch of the miss stands.
/// A finished step stays as it is.
pub fn traced_step<U>(fallback: StepResult<U>, traced: Option<(Result<Vec<u8>>, Vec<u8>)>) -> (r:
    StepResult<U>)
    requires
        traced matches Some((Ok(p), _)) ==> p@.len() > 0,
    ensures
        fallback is Done ==> r == fallback,
        !(fallback is Done) ==> match traced {
            Some((Ok(p), b)) => r matches StepResult::FetchQuery(q) && q@ == p@.subrange(
                1,
                p@.len() as int,
            ) + b@,
            _ => r == fallback,
        },
{
    if let StepResult::Done(_) = fallback {
        return fallback;
    }
    match traced {
        Some((Ok(prefix), bytes)) => {
            let mut query: Vec<u8> = Vec::new();
            let mut i: usize = 1;
            while i < prefix.len()
                invariant
                    1 <= i <= prefix@.len(),
                    query@ == prefix@.subrange(1, i as int),
                decreases prefix@.len() - i,
            {
                query.push(prefix[i]);
                i = i + 1;
                assert(query@ =~= prefix@.subrange(1, i as int));
            }
            let mut j: usize = 0;
            while j < bytes.len()
                invariant
                    j <= bytes@.len(),
                    query@ == prefix@.subrange(1, prefix@.len() as int) + bytes@.subrange(0, j as int),
                decreases bytes@.len() - j,
            {
                query.push(bytes[j]);
                j = j + 1;
                assert(query@ =~= prefix@.subrange(1, prefix@.len() as int) + bytes@.subrange(
                    0,
                    j as int,
                ));
            }
            assert(bytes@.subrange(0, bytes@.len() as int) =~= bytes@);
            StepResult::FetchQuery(query)
        },
        _ => fallback,
    }
}

/// The query was sent before.
pub open spec fn was_sent(seen: Seq<Vec<u8>>, query: Seq<u8>) -> bool {
    exists|i: int| 0 <= i < seen.len() && (#[trigger] seen[i])@ == query
}

/// Remembers a query about to be sent. A query that was sent before means
/// that execution did not advance, which is refused.
pub fn record_query(seen: &mut Vec<Vec<u8>>, query: Vec<u8>) -> (r: Result<()>)
    ensures
        was_sent(old(seen)@, query@) ==> (r matches Err(Error::Client(m)) && m@
            == "Execution did not advance"@ && final(seen)@ == old(seen)@),
        !was_sent(old(seen)@, query@) ==> (r is Ok && final(seen)@ == old(seen)@.push(query)),
{
    let mut i: usize = 0;
    while i < seen.len()
        invariant
            i <= seen@.len(),
            seen@ == old(seen)@,
            forall|j: int| 0 <= j < i ==> (#[trigger] seen@[j])@ != query@,
        decreases seen@.len() - i,
    {
        if bytes_eq(seen[i].as_slice(), query.as_slice()) {
            return Err(Error::Client("Execution did not advance".to_string()));
        }
        i = i + 1;
    }
    seen.push(query);
    Ok(())
}

} // verus!
