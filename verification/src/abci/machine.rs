//! The decisions of the ABCI state machine. Each request is answered by a
//! step for the node to perform; the application's handlers run against the
//! store seen through a buffer of writes (one for the block being decided,
//! one for the mempool), and their writes are kept there until the block
//! commits.
use vstd::prelude::*;

use super::bufmap::{lemma_overlay_union, overlay, BufMap, KvStore};
use crate::error::{error_text, Error, Result};

verus! {

/// An ABCI request, by kind, with what the state machine reads of it.
#[derive(Debug)]
pub enum AbciRequest {
    /// Information about the state.
    Info,
    /// Flush the connection.
    Flush,
    /// Echo a message.
    Echo,
    /// Set an option.
    SetOption,
    /// Query the state.
    Query,
    /// Initialize the chain.
    InitChain,
    /// Begin a block at the header's height.
    BeginBlock {
        /// The height in the block's header.
        height: i64,
    },
    /// Deliver a transaction of the block.
    DeliverTx,
    /// End the block at its height.
    EndBlock {
        /// The block's height.
        height: i64,
    },
    /// Commit the block.
    Commit,
    /// Check a transaction for the mempool.
    CheckTx,
    /// List the store's snapshots.
    ListSnapshots,
    /// Offer a snapshot to the store.
    OfferSnapshot,
    /// Load a chunk of a snapshot.
    LoadSnapshotChunk,
    /// Apply a chunk of a snapshot.
    ApplySnapshotChunk,
}

/// The application handlers that run against buffered state.
#[derive(Debug, Clone, Copy, PartialEq, Eq, Structural)]
pub enum Phase {
    /// The chain's initialization.
    InitChain,
    /// The start of a block.
    BeginBlock,
    /// A transaction of a block.
    DeliverTx,
    /// The end of a block.
    EndBlock,
    /// A transaction checked for the mempool.
    CheckTx,
}

/// What the node does to answer a request.
#[derive(Debug, Clone, Copy, PartialEq, Eq, Structural)]
pub enum AbciStep {
    /// Reply with the store's height and, above height zero, its root hash.
    Info,
    /// Reply with the request's default response.
    Default,
    /// Run the application's query against the store; a failed query is
    /// answered with code 1 at the machine's height.
    Query,
    /// Run the application's handler for the phase, reading through
    /// [AbciMachine::read], and hand its writes to [AbciMachine::finish] once
    /// it succeeds.
    Run(Phase),
    /// The block's writes are in the store: commit the store under the
    /// block's header and reply with its root hash.
    Commit,
    /// Hand the snapshot request to the store.
    Snapshot,
}

/// The decimal text `i64`'s `Display` writes for `h` (what `h.to_string()`
/// gives).
pub uninterp spec fn i64_display_text(h: i64) -> Seq<char>;

/// Formats a number with `i64::to_string`.
#[verifier::external_body]
fn i64_text(h: i64) -> (r: String)
    ensures
        r@ == i64_display_text(h),
{
    h.to_string()
}

/// The refusal of a block above the stop height `h`.
pub open spec fn stop_height_text(h: i64) -> Seq<char> {
    "Reached stop height ("@ + i64_display_text(h) + ")"@
}

/// Builds the refusal of a block above the stop height `h`.
fn stop_height_message(h: i64) -> (r: String)
    ensures
        r@ == stop_height_text(h),
{
    let num = i64_text(h);
    let r = String::from_str("Reached stop height (").concat(num.as_str()).concat(")");
    r
}

/// The answer to a query.
pub struct QueryReply {
    /// Zero for an answered query, one for a failed one.
    pub code: u32,
    /// The answer's bytes; empty for a failed query.
    pub value: Vec<u8>,
    /// The error's text for a failed query; empty otherwise.
    pub log: String,
    /// The height the query was answered at.
    pub height: u64,
}

/// The state an ABCI application runs against: the store, with the writes
/// of the block being decided and of the mempool buffered over it.
#[derive(Debug)]
pub struct AbciMachine<S: KvStore> {
    /// The node's store.
    pub store: S,
    /// Writes of the block being decided.
    pub consensus_state: BufMap,
    /// Writes of the transactions checked for the mempool since the last
    /// commit.
    pub mempool_state: BufMap,
    /// The height of the last block ended.
    pub height: u64,
    /// Whether the chain's initialization is answered without running the
    /// application.
    pub skip_init_chain: bool,
    /// A height above which blocks are refused, if any.
    pub stop_height: Option<i64>,
    /// The height in the header of the block being decided, once one has
    /// begun.
    pub block_height: Option<i64>,
}

impl<S: KvStore> AbciMachine<S> {
    /// The state that the block being decided sees.
    pub open spec fn consensus_view(&self) -> Map<Seq<u8>, Seq<u8>> {
        overlay(self.consensus_state@, self.store.kv())
    }

    /// The state that transactions checked for the mempool see.
    pub open spec fn mempool_view(&self) -> Map<Seq<u8>, Seq<u8>> {
        overlay(self.mempool_state@, self.store.kv())
    }

    /// The buffer a phase reads through and writes to.
    pub open spec fn buffer_of(&self, phase: Phase) -> BufMap {
        if phase == Phase::CheckTx {
            self.mempool_state
        } else {
            self.consensus_state
        }
    }

    /// Everything but the store and the buffers is as in `other`.
    pub open spec fn same_settings(&self, other: Self) -> bool {
        &&& self.height == other.height
        &&& self.skip_init_chain == other.skip_init_chain
        &&& self.stop_height == other.stop_height
        &&& self.block_height == other.block_height
    }

    /// A machine over `store` with nothing buffered, before any block.
    pub fn new(store: S, skip_init_chain: bool, stop_height: Option<i64>) -> (r: Self)
        ensures
            r.store == store,
            r.consensus_state@ == Map::<Seq<u8>, Option<Seq<u8>>>::empty(),
            r.mempool_state@ == Map::<Seq<u8>, Option<Seq<u8>>>::empty(),
            r.height == 0,
            r.skip_init_chain == skip_init_chain,
            r.stop_height == stop_height,
            r.block_height is None,
    {
        AbciMachine {
            store,
            consensus_state: BufMap::new(),
            mempool_state: BufMap::new(),
            height: 0,
            skip_init_chain,
            stop_height,
            block_height: None,
        }
    }

    /// Decides how a request is answered. An empty request is refused, and
    /// so is a block above the stop height. Ending a block records its
    /// height; beginning one records its header's. A commit writes the
    /// block's buffered writes into the store and drops both buffers: the
    /// store then holds what the block saw, and the mempool sees it too.
    /// Every other request leaves the state as it is.
    pub fn handle(&mut self, req: Option<AbciRequest>) -> (r: Result<AbciStep>)
        requires
            old(self).store.kv_wf(),
            req matches Some(AbciRequest::Commit) ==> old(self).block_height is Some,
        ensures
            final(self).store.kv_wf(),
            match req {
                None => (r matches Err(Error::Abci(m)) && m@ == "Received empty request"@) && *final(self) == *old(self),
                Some(AbciRequest::Info) => r == Ok::<AbciStep, Error>(AbciStep::Info) && *final(self)
                    == *old(self),
                Some(AbciRequest::Flush) => r == Ok::<AbciStep, Error>(AbciStep::Default) && *final(self) == *old(self),
                Some(AbciRequest::Echo) => r == Ok::<AbciStep, Error>(AbciStep::Default) && *final(self) == *old(self),
                Some(AbciRequest::SetOption) => r == Ok::<AbciStep, Error>(AbciStep::Default)
                    && *final(self) == *old(self),
                Some(AbciRequest::Query) => r == Ok::<AbciStep, Error>(AbciStep::Query) && *final(self)
                    == *old(self),
                Some(AbciRequest::InitChain) => r == Ok::<AbciStep, Error>(
                    if old(self).skip_init_chain {
                        AbciStep::Default
                    } else {
                        AbciStep::Run(Phase::InitChain)
                    },
                ) && *final(self) == *old(self),
                Some(AbciRequest::BeginBlock { height }) => if old(self).stop_height is Some
                    && height > old(self).stop_height->0 {
                    (r matches Err(Error::Abci(m)) && m@ == stop_height_text(old(self).stop_height->0)) && *final(self)
                        == *old(self)
                } else {
                    &&& r == Ok::<AbciStep, Error>(AbciStep::Run(Phase::BeginBlock))
                    &&& final(self).block_height == Some(height)
                    &&& final(self).store == old(self).store
                    &&& final(self).consensus_state == old(self).consensus_state
                    &&& final(self).mempool_state == old(self).mempool_state
                    &&& final(self).height == old(self).height
                    &&& final(self).skip_init_chain == old(self).skip_init_chain
                    &&& final(self).stop_height == old(self).stop_height
                },
                Some(AbciRequest::DeliverTx) => r == Ok::<AbciStep, Error>(
                    AbciStep::Run(Phase::DeliverTx),
                ) && *final(self) == *old(self),
                Some(AbciRequest::EndBlock { height }) => {
                    &&& r == Ok::<AbciStep, Error>(AbciStep::Run(Phase::EndBlock))
                    &&& final(self).height == height as u64
                    &&& final(self).store == old(self).store
                    &&& final(self).consensus_state == old(self).consensus_state
                    &&& final(self).mempool_state == old(self).mempool_state
                    &&& final(self).skip_init_chain == old(self).skip_init_chain
                    &&& final(self).stop_height == old(self).stop_height
                    &&& final(self).block_height == old(self).block_height
                },
                Some(AbciRequest::Commit) => {
                    &&& r == Ok::<AbciStep, Error>(AbciStep::Commit)
                    &&& final(self).store.kv() == old(self).consensus_view()
                    &&& final(self).consensus_state@ == Map::<Seq<u8>, Option<Seq<u8>>>::empty()
                    &&& final(self).mempool_state@ == Map::<Seq<u8>, Option<Seq<u8>>>::empty()
                    &&& final(self).consensus_view() == old(self).consensus_view()
                    &&& final(self).mempool_view() == old(self).consensus_view()
                    &&& final(self).same_settings(*old(self))
                },
                Some(AbciRequest::CheckTx) => r == Ok::<AbciStep, Error>(AbciStep::Run(Phase::CheckTx))
                    && *final(self) == *old(self),
                Some(_) => r == Ok::<AbciStep, Error>(AbciStep::Snapshot) && *final(self) == *old(self),
            },
    {
        let req = match req {
            None => {
                return Err(Error::Abci("Received empty request".to_string()));
            },
            Some(req) => req,
        };
        match req {
            AbciRequest::Info => Ok(AbciStep::Info),
            AbciRequest::Flush => Ok(AbciStep::Default),
            AbciRequest::Echo => Ok(AbciStep::Default),
            AbciRequest::SetOption => Ok(AbciStep::Default),
            AbciRequest::Query => Ok(AbciStep::Query),
            AbciRequest::InitChain => {
                if self.skip_init_chain {
                    Ok(AbciStep::Default)
                } else {
                    Ok(AbciStep::Run(Phase::InitChain))
                }
            },
            AbciRequest::BeginBlock { height } => {
                if let Some(stop) = self.stop_height {
                    if height > stop {
                        return Err(Error::Abci(stop_height_message(stop)));
                    }
                }
                self.block_height = Some(height);
                Ok(AbciStep::Run(Phase::BeginBlock))
            },
            AbciRequest::DeliverTx => Ok(AbciStep::Run(Phase::DeliverTx)),
            AbciRequest::EndBlock { height } => {
                self.height = height as u64;
                Ok(AbciStep::Run(Phase::EndBlock))
            },
            AbciRequest::Commit => {
                self.consensus_state.flush_into(&mut self.store);
                self.mempool_state = BufMap::new();
                proof {
                    assert(overlay(Map::empty(), self.store.kv()) =~= self.store.kv());
                }
                Ok(AbciStep::Commit)
            },
            AbciRequest::CheckTx => Ok(AbciStep::Run(Phase::CheckTx)),
            AbciRequest::ListSnapshots => Ok(AbciStep::Snapshot),
            AbciRequest::OfferSnapshot => Ok(AbciStep::Snapshot),
            AbciRequest::LoadSnapshotChunk => Ok(AbciStep::Snapshot),
            AbciRequest::ApplySnapshotChunk => Ok(AbciStep::Snapshot),
        }
    }

    /// The reply to a query that gave `result`: its value with code zero,
    /// or, when it failed, code one with the error's text as log; either at
    /// the machine's height.
    pub fn query_reply(&self, result: Result<Vec<u8>>) -> (r: QueryReply)
        ensures
            r.height == self.height,
            result matches Ok(v) ==> r.code == 0 && r.value@ == v@ && r.log@.len() == 0,
            result matches Err(e) ==> r.code == 1 && r.value@.len() == 0 && r.log@ == error_text(e),
    {
        match result {
            Ok(value) => QueryReply { code: 0, value, log: String::new(), height: self.height },
            Err(e) => QueryReply { code: 1, value: Vec::new(), log: e.text(), height: self.height },
        }
    }

    /// What a handler of the phase reads under `key`: the store seen through
    /// the phase's buffer.
    pub fn read(&self, phase: Phase, key: &[u8]) -> (r: Option<Vec<u8>>)
        requires
            self.store.kv_wf(),
        ensures
            ({
                let view = if phase == Phase::CheckTx {
                    self.mempool_view()
                } else {
                    self.consensus_view()
                };
                &&& r matches Some(v) ==> view.contains_key(key@) && v@ == view[key@]
                &&& r is None ==> !view.contains_key(key@)
            }),
    {
        match phase {
            Phase::CheckTx => self.mempool_state.read_over(&self.store, key),
            _ => self.consensus_state.read_over(&self.store, key),
        }
    }

    /// Keeps the writes of a handler of the phase that succeeded. A checked
    /// transaction's writes go to the mempool's buffer and touch nothing
    /// else. The block's writes go to its buffer, which is written into the
    /// store after the chain's initialization and after each delivered
    /// transaction. Either way the phase then sees its writes over what it
    /// saw before.
    pub fn finish(&mut self, phase: Phase, writes: BufMap)
        requires
            old(self).store.kv_wf(),
        ensures
            final(self).store.kv_wf(),
            final(self).same_settings(*old(self)),
            phase == Phase::CheckTx ==> {
                &&& final(self).mempool_state@ == old(self).mempool_state@.union_prefer_right(writes@)
                &&& final(self).mempool_view() == overlay(writes@, old(self).mempool_view())
                &&& final(self).store == old(self).store
                &&& final(self).consensus_state == old(self).consensus_state
            },
            phase != Phase::CheckTx ==> {
                &&& final(self).consensus_view() == overlay(writes@, old(self).consensus_view())
                &&& final(self).mempool_state == old(self).mempool_state
            },
            (phase == Phase::InitChain || phase == Phase::DeliverTx) ==> {
                &&& final(self).store.kv() == final(self).consensus_view()
                &&& final(self).consensus_state@ == Map::<Seq<u8>, Option<Seq<u8>>>::empty()
            },
            (phase == Phase::BeginBlock || phase == Phase::EndBlock) ==> {
                &&& final(self).consensus_state@ == old(self).consensus_state@.union_prefer_right(
                    writes@,
                )
                &&& final(self).store == old(self).store
            },
    {
        let ghost w = writes@;
        proof {
            lemma_overlay_union(self.mempool_state@, w, self.store.kv());
            lemma_overlay_union(self.consensus_state@, w, self.store.kv());
        }
        match phase {
            Phase::CheckTx => {
                self.mempool_state.merge(writes);
            },
            Phase::BeginBlock => {
                self.consensus_state.merge(writes);
            },
            Phase::EndBlock => {
                self.consensus_state.merge(writes);
            },
            _ => {
                self.consensus_state.merge(writes);
                self.consensus_state.flush_into(&mut self.store);
                proof {
                    assert(overlay(Map::empty(), self.store.kv()) =~= self.store.kv());
                }
            },
        }
    }
}

/// The answer to an applied snapshot chunk: 1 (accept) when the store took
/// it, else 3 (retry, refetching the chunk and rejecting its sender).
pub fn apply_chunk_result(applied: bool) -> (r: u32)
    ensures
        r == if applied {
            1u32
        } else {
            3u32
        },
{
    if applied {
        1
    } else {
        3
    }
}

} // verus!
