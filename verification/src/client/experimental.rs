//! Client-side query support: a trace stack of the calls in progress, and
//! the stores that answer a client's reads from fetched data.
use vstd::prelude::*;

use super::trace::type_id_of;
use crate::error::{Error, Result};
use crate::store::{slice_to_vec, entries_map, keys_unique, lemma_entries_map_take, Store};
use core::marker::PhantomData;
use std::any::TypeId;

verus! {

/// A traced method call.
#[derive(Debug)]
pub struct Trace {
    /// The type ID for the type whose method was called.
    pub type_id: TypeId,
    /// The local call or query prefix for the method that was called.
    pub method_prefix: Vec<u8>,
    /// The encoded arguments to the traced method call.
    pub method_args: Vec<u8>,
}

impl Trace {
    /// Returns the full bytes for the trace: the prefix, then the arguments.
    pub fn bytes(&self) -> (r: Vec<u8>)
        ensures
            r@ == self.method_prefix@ + self.method_args@,
    {
        let mut out = self.method_prefix.clone();
        let mut args = self.method_args.clone();
        out.append(&mut args);
        out
    }
}

/// Pushes a trace for a method of `T` onto the stack.
pub fn trace<T: 'static>(traces: &mut Vec<Trace>, method_prefix: Vec<u8>, method_args: Vec<u8>) -> (r:
    Result<()>)
    ensures
        r is Ok,
        final(traces)@.len() == old(traces)@.len() + 1,
        final(traces)@.drop_last() == old(traces)@,
        final(traces)@.last().method_prefix@ == method_prefix@,
        final(traces)@.last().method_args@ == method_args@,
{
    let type_id = type_id_of::<T>();
    traces.push(Trace { type_id, method_prefix, method_args });
    assert(traces@.drop_last() =~= old(traces)@);
    Ok(())
}

/// Hands back the result of a traced operation, popping its trace when the
/// operation succeeded.
///
/// The operation runs before this call (it may push traces of its own), and
/// its result is passed in as `res`.
pub fn with_trace<T, E>(traces: &mut Vec<Trace>, res: core::result::Result<T, E>) -> (r:
    core::result::Result<T, E>)
    ensures
        r == res,
        final(traces)@ == if res is Ok && old(traces)@.len() > 0 {
            old(traces)@.drop_last()
        } else {
            old(traces)@
        },
{
    if res.is_ok() && traces.len() > 0 {
        let _ = traces.pop();
    }
    res
}

/// Takes the trace stack, leaving an empty one in its place.
pub fn take_trace(traces: &mut Vec<Trace>) -> (r: Vec<Trace>)
    ensures
        r@ == old(traces)@,
        final(traces)@.len() == 0,
{
    let mut empty = Vec::new();
    std::mem::swap(&mut empty, traces);
    empty
}

/// The most rounds a client query runs before it gives up.
pub const MAX_QUERY_STEPS: u64 = 1000;

/// What a client does after a round of a query against its partial store.
pub enum QueryAction<U> {
    /// The query is answered.
    Done(U),
    /// Fetch the data for a missed read through the call that was traced
    /// when it missed: the type whose method was called and the call's
    /// bytes (to be prefixed with the method's query route), with the missed
    /// key to fetch directly when the call yields nothing.
    FetchByQuery { type_id: TypeId, call_bytes: Vec<u8>, key: Vec<u8> },
    /// Fetch the missed key directly.
    FetchKey(Vec<u8>),
}

/// Decides what follows round `round` (counted from zero) of a client
/// query, given what the query gave against the partial store and the calls
/// traced meanwhile: an answer ends the query; an error other than a store
/// miss is returned; a miss is fetched by the first traced call, or by its
/// key when nothing was traced, unless this was the last round allowed, when
/// the query gives up.
pub fn query_step<U>(round: u64, outcome: Result<U>, traces: &Vec<Trace>) -> (r: Result<QueryAction<U>>)
    ensures
        outcome matches Ok(v) ==> (r matches Ok(QueryAction::Done(v2)) && v2 == v),
        outcome is Err && !(outcome->Err_0 is ClientStore) ==> r == Err::<QueryAction<U>, Error>(outcome->Err_0),
        outcome matches Err(Error::ClientStore { store_op }) ==> {
            &&& round + 1 >= MAX_QUERY_STEPS ==> (r matches Err(Error::Client(m)) && m@ == "Max steps reached"@)
            &&& round + 1 < MAX_QUERY_STEPS && traces@.len() > 0 ==> (r matches Ok(
                QueryAction::FetchByQuery { type_id, call_bytes, key },
            ) && type_id == traces@[0].type_id && call_bytes@ == traces@[0].method_prefix@
                + traces@[0].method_args@ && key@ == store_op.key@)
            &&& round + 1 < MAX_QUERY_STEPS && traces@.len() == 0 ==> (r matches Ok(QueryAction::FetchKey(k))
                && k@ == store_op.key@)
        },
{
    match outcome {
        Ok(v) => Ok(QueryAction::Done(v)),
        Err(Error::ClientStore { store_op }) => {
            if round >= MAX_QUERY_STEPS - 1 {
                proof {
                    reveal_strlit("Max steps reached");
                }
                Err(Error::Client(String::from_str("Max steps reached")))
            } else if traces.len() > 0 {
                let trace = &traces[0];
                Ok(QueryAction::FetchByQuery { type_id: trace.type_id, call_bytes: trace.bytes(), key: store_op.key })
            } else {
                Ok(QueryAction::FetchKey(store_op.key))
            }
        },
        Err(e) => Err(e),
    }
}

/// A store operation that a client's store could not answer locally.
#[derive(Debug, PartialEq, Eq)]
pub struct StoreOp {
    /// The key that was read or written.
    pub key: Vec<u8>,
    /// The value before the operation, if known.
    pub old_value: Option<Vec<u8>>,
    /// The value written, for a write.
    pub new_value: Option<Vec<u8>>,
}

/// `r` is the miss error for a read of `key`.
pub open spec fn is_read_miss<T>(r: Result<T>, key: Seq<u8>) -> bool {
    r matches Err(Error::ClientStore { store_op }) && store_op.key@ == key && store_op.old_value
        is None && store_op.new_value is None
}

/// Copies every entry of `src` into `dst`, overwriting the values of keys
/// that both hold.
pub fn join_store(dst: Store, src: Store) -> (r: Result<Store>)
    requires
        dst.wf(),
        src.wf(),
    ensures
        r matches Ok(s) && s.wf() && s@ == dst@.union_prefer_right(src@),
{
    let mut dst = dst;
    let ghost d0 = dst@;
    let mut i: usize = 0;
    assert(src.entries@.take(0) =~= Seq::<(Vec<u8>, Vec<u8>)>::empty());
    assert(d0.union_prefer_right(entries_map(src.entries@.take(0))) =~= d0);
    while i < src.entries.len()
        invariant
            i <= src.entries@.len(),
            src.wf(),
            dst.wf(),
            dst@ == d0.union_prefer_right(entries_map(src.entries@.take(i as int))),
        decreases src.entries@.len() - i,
    {
        let key = src.entries[i].0.clone();
        let value = src.entries[i].1.clone();
        proof {
            lemma_entries_map_take(src.entries@, i as int);
        }
        dst.put(key, value);
        proof {
            let s = src.entries@;
            assert(dst@ =~= d0.union_prefer_right(entries_map(s.take(i + 1))));
        }
        i = i + 1;
    }
    assert(src.entries@.take(src.entries@.len() as int) =~= src.entries@);
    Ok(dst)
}

/// A store that answers reads from the data fetched so far, and reports
/// every other read or write as a [StoreOp] so that the client can fetch what
/// it needs.
#[derive(Debug)]
pub struct QueryStore {
    /// The data fetched so far, if any.
    pub store: Option<Store>,
}

impl QueryStore {
    /// The fetched data is well formed.
    pub open spec fn wf(&self) -> bool {
        self.store matches Some(s) ==> s.wf()
    }

    /// What the fetched data holds (nothing before the first fetch).
    pub open spec fn known(&self) -> Map<Seq<u8>, Seq<u8>> {
        match self.store {
            Some(s) => s@,
            None => Map::empty(),
        }
    }

    /// A query store that holds no data yet.
    pub fn new() -> (r: Self)
        ensures
            r.wf(),
            r.store is None,
    {
        QueryStore { store: None }
    }

    /// Adds fetched data, joining it with what the store held.
    pub fn add_data(&mut self, data: Store) -> (r: Result<()>)
        requires
            old(self).wf(),
            data.wf(),
        ensures
            r is Ok,
            final(self).wf(),
            final(self).store is Some,
            final(self).known() == old(self).known().union_prefer_right(data@),
    {
        let current = self.store.take();
        match current {
            Some(store) => {
                let joined = join_store(store, data)?;
                self.store = Some(joined);
            },
            None => {
                assert(Map::<Seq<u8>, Seq<u8>>::empty().union_prefer_right(data@) =~= data@);
                self.store = Some(data);
            },
        }
        Ok(())
    }

    /// Reads a key from the fetched data. A key that was not fetched gives
    /// the miss error with the key's read operation.
    pub fn get(&self, key: &[u8]) -> (r: Result<Option<Vec<u8>>>)
        requires
            self.wf(),
        ensures
            self.known().contains_key(key@) ==> (r matches Ok(Some(v)) && v@ == self.known()[key@]),
            !self.known().contains_key(key@) ==> is_read_miss(r, key@),
    {
        if let Some(store) = &self.store {
            if let Some(value) = store.get(key) {
                return Ok(Some(value));
            }
        }
        Err(Error::ClientStore { store_op: StoreOp { key: slice_to_vec(key), old_value: None, new_value: None } })
    }

    /// Writes are not answered locally: the write is reported as the miss
    /// error with its operation.
    pub fn put(&mut self, key: Vec<u8>, value: Vec<u8>) -> (r: Result<()>)
        ensures
            r matches Err(Error::ClientStore { store_op }) && store_op.key@ == key@
                && store_op.old_value is None && store_op.new_value == Some(value),
            *final(self) == *old(self),
    {
        Err(Error::ClientStore { store_op: StoreOp { key, old_value: None, new_value: Some(value) } })
    }

    /// Deletes are not answered locally: the delete is reported as the miss
    /// error with its operation.
    pub fn delete(&mut self, key: &[u8]) -> (r: Result<()>)
        ensures
            is_read_miss(r, key@),
            *final(self) == *old(self),
    {
        Err(Error::ClientStore { store_op: StoreOp { key: slice_to_vec(key), old_value: None, new_value: None } })
    }
}

/// A client that reads and writes a local store directly.
#[derive(Debug)]
pub struct DirectStoreClient<T> {
    /// The store that answers the client.
    pub store: Store,
    /// The application type.
    pub app: PhantomData<T>,
}

impl<T> DirectStoreClient<T> {
    /// A client over `store`.
    pub fn new(store: Store) -> (r: Self)
        ensures
            r.store == store,
    {
        DirectStoreClient { store, app: PhantomData }
    }

    /// Answers a read of `key` with a store that holds just that key's
    /// entry (or nothing, when the key is absent), at height zero.
    pub fn query_key(&self, key: &[u8], height: &Option<u64>) -> (r: Result<(Store, u64)>)
        requires
            self.store.wf(),
        ensures
            r matches Ok((s, h)) && h == 0 && s.wf() && s@ == if self.store@.contains_key(key@) {
                Map::empty().insert(key@, self.store@[key@])
            } else {
                Map::empty()
            },
    {
        let mut res_store = Store::with_map_store();
        let value = self.store.get(key);
        if let Some(value) = value {
            res_store.put(slice_to_vec(key), value);
        }
        Ok((res_store, 0))
    }
}

} // verus!
