//! Call and query tracing.
//!
//! A [Tracer] holds the tracing flag and the trace stack of one thread; the
//! functions below are the operations on it. Calls push a trace when they
//! start and pop it when they return, and the first trace pushed onto an
//! empty stack is also kept in the history.
use vstd::prelude::*;

use std::any::TypeId;

verus! {

/// Declares [TypeId] so that traces can carry the receiver's type.
#[verifier::external_type_specification]
#[verifier::external_body]
pub struct ExTypeId(TypeId);

/// Returns the [TypeId] of `T` (calls `std::any::TypeId::of`).
///
/// Nothing is stated of the identifier: it is only carried along.
#[verifier::external_body]
pub(crate) fn type_id_of<T: 'static>() -> TypeId {
    TypeId::of::<T>()
}

/// The type of method that's being traced.
#[derive(Debug, Clone, Copy, PartialEq, Eq, Structural)]
pub enum MethodType {
    /// A query method.
    Query,
    /// A call method.
    Call,
}

/// A single trace entry.
#[derive(Debug)]
pub struct Trace {
    /// The type ID for the type whose method was called.
    pub type_id: TypeId,
    /// The type of method that was called.
    pub method_type: MethodType,
    /// The local call or query prefix for the method that was called.
    pub method_prefix: Vec<u8>,
    /// The encoded arguments to the traced method call.
    pub method_args: Vec<u8>,
}

/// What a [Trace] holds, with its byte fields as sequences.
pub struct TraceView {
    /// The type ID for the type whose method was called.
    pub type_id: TypeId,
    /// The type of method that was called.
    pub method_type: MethodType,
    /// The local call or query prefix.
    pub method_prefix: Seq<u8>,
    /// The encoded arguments.
    pub method_args: Seq<u8>,
}

impl View for Trace {
    type V = TraceView;

    open spec fn view(&self) -> TraceView {
        TraceView {
            type_id: self.type_id,
            method_type: self.method_type,
            method_prefix: self.method_prefix@,
            method_args: self.method_args@,
        }
    }
}

impl Clone for Trace {
    fn clone(&self) -> (r: Self)
        ensures
            r@ == self@,
    {
        Trace {
            type_id: self.type_id,
            method_type: self.method_type,
            method_prefix: self.method_prefix.clone(),
            method_args: self.method_args.clone(),
        }
    }
}

impl Trace {
    /// Returns the full bytes for the trace: the prefix, then the arguments.
    pub fn bytes(&self) -> (r: Vec<u8>)
        ensures
            r@ == self.method_prefix@ + self.method_args@,
    {
        let mut out = self.method_prefix.clone();
        let mut args = self.method_args.clone();
        out.append(&mut args);
        out
    }
}

/// The state of the trace stack.
#[derive(Debug)]
pub struct TraceState {
    /// The current stack of traces.
    pub stack: Vec<Trace>,
    /// Previous traces.
    pub history: Vec<Trace>,
}

/// The stack and the history of a [TraceState], each as a sequence of trace
/// views.
pub struct TraceStateView {
    /// The current stack, bottom first.
    pub stack: Seq<TraceView>,
    /// The traces that were pushed onto an empty stack, oldest first.
    pub history: Seq<TraceView>,
}

/// The views of a vector of traces.
pub open spec fn trace_views(v: Seq<Trace>) -> Seq<TraceView> {
    v.map_values(|t: Trace| t@)
}

impl View for TraceState {
    type V = TraceStateView;

    open spec fn view(&self) -> TraceStateView {
        TraceStateView { stack: trace_views(self.stack@), history: trace_views(self.history@) }
    }
}

impl Default for TraceState {
    fn default() -> (r: Self)
        ensures
            r@.stack.len() == 0,
            r@.history.len() == 0,
    {
        TraceState { stack: Vec::new(), history: Vec::new() }
    }
}

/// The tracing flag and the trace state of one thread.
#[derive(Debug)]
pub struct Tracer {
    /// Whether tracing is enabled.
    pub enabled: bool,
    /// The trace stack and history.
    pub state: TraceState,
}

impl Tracer {
    /// A tracer with tracing disabled and no traces.
    pub fn new() -> (r: Self)
        ensures
            !r.enabled,
            r.state@.stack.len() == 0,
            r.state@.history.len() == 0,
    {
        Tracer { enabled: false, state: TraceState::default() }
    }
}

/// Returns true if tracing is enabled.
pub fn tracing(tracer: &Tracer) -> (r: bool)
    ensures
        r == tracer.enabled,
{
    tracer.enabled
}

/// Set tracing to the given value.
pub fn set_tracing(tracer: &mut Tracer, enabled: bool)
    ensures
        final(tracer).enabled == enabled,
        final(tracer).state == old(tracer).state,
{
    tracer.enabled = enabled;
}

/// A guard that enables tracing when created; [Guard::release] disables it
/// again.
#[derive(Debug)]
pub struct Guard;

/// Creates a new tracing guard, enabling tracing.
pub fn tracing_guard(tracer: &mut Tracer) -> (g: Guard)
    ensures
        final(tracer).enabled,
        final(tracer).state == old(tracer).state,
{
    set_tracing(tracer, true);
    Guard
}

impl Guard {
    /// Ends the guard's scope, disabling tracing.
    pub fn release(self, tracer: &mut Tracer)
        ensures
            !final(tracer).enabled,
            final(tracer).state == old(tracer).state,
    {
        set_tracing(tracer, false);
    }
}

/// The trace that [maybe_push_trace] builds from the type and the three
/// values that its closure returned.
pub open spec fn trace_of(
    type_id: TypeId,
    parts: (MethodType, Vec<u8>, Vec<u8>),
) -> TraceView {
    TraceView {
        type_id,
        method_type: parts.0,
        method_prefix: parts.1@,
        method_args: parts.2@,
    }
}

/// Pushes a trace onto the stack if tracing is enabled.
///
/// The closure, which computes the method type, prefix and arguments, is only
/// called when tracing is enabled. A trace pushed onto an empty stack is also
/// appended to the history.
pub fn maybe_push_trace<T: 'static, F: FnOnce() -> (MethodType, Vec<u8>, Vec<u8>)>(
    tracer: &mut Tracer,
    op: F,
)
    requires
        old(tracer).enabled ==> call_requires(op, ()),
    ensures
        final(tracer).enabled == old(tracer).enabled,
        !old(tracer).enabled ==> final(tracer).state@ == old(tracer).state@,
        old(tracer).enabled ==> {
            let t = final(tracer).state@.stack.last();
            &&& final(tracer).state@.stack == old(tracer).state@.stack.push(t)
            &&& exists|parts: (MethodType, Vec<u8>, Vec<u8>)|
                #[trigger] call_ensures(op, (), parts) && t == trace_of(t.type_id, parts)
            &&& final(tracer).state@.history == if old(tracer).state@.stack.len() == 0 {
                old(tracer).state@.history.push(t)
            } else {
                old(tracer).state@.history
            }
        },
{
    if !tracing(tracer) {
        return ;
    }
    let type_id = type_id_of::<T>();
    let parts = op();
    let ghost gparts = parts;
    let (method_type, method_prefix, method_args) = parts;
    let trace = Trace { type_id, method_type, method_prefix, method_args };
    let ghost t = trace@;
    assert(t == trace_of(type_id, gparts));
    let ghost old_stack = tracer.state.stack@;
    let ghost old_history = tracer.state.history@;
    if tracer.state.stack.len() == 0 {
        let copy = trace.clone();
        tracer.state.history.push(copy);
        assert(trace_views(tracer.state.history@) =~= trace_views(old_history).push(t));
    }
    tracer.state.stack.push(trace);
    assert(trace_views(tracer.state.stack@) =~= trace_views(old_stack).push(t));
}

/// Pops a trace from the stack if tracing is enabled, and hands back the
/// result of the traced operation.
///
/// The operation itself runs before this call (it may push and pop traces of
/// its own), and its result is passed in as `res`.
pub fn maybe_pop_trace<T>(tracer: &mut Tracer, res: T) -> (r: T)
    ensures
        r == res,
        final(tracer).enabled == old(tracer).enabled,
        final(tracer).state@.history == old(tracer).state@.history,
        final(tracer).state@.stack == if old(tracer).enabled && old(tracer).state@.stack.len() > 0 {
            old(tracer).state@.stack.drop_last()
        } else {
            old(tracer).state@.stack
        },
{
    if !tracing(tracer) {
        return res;
    }
    let ghost old_stack = tracer.state.stack@;
    if tracer.state.stack.len() > 0 {
        let _ = tracer.state.stack.pop();
        assert(trace_views(tracer.state.stack@) =~= trace_views(old_stack).drop_last());
    }
    res
}

/// Takes the current trace state, leaving an empty one in its place.
pub fn take_trace(tracer: &mut Tracer) -> (r: TraceState)
    ensures
        r@ == old(tracer).state@,
        final(tracer).enabled == old(tracer).enabled,
        final(tracer).state@.stack.len() == 0,
        final(tracer).state@.history.len() == 0,
{
    let mut empty = TraceState::default();
    std::mem::swap(&mut empty, &mut tracer.state);
    empty
}

} // verus!
