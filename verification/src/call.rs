//! State mutations triggerable by network messages.
use vstd::prelude::*;

use crate::error::{Error, Result};
use core::marker::PhantomData;

verus! {

/// The prefix offset for method calls, added to avoid conflicts with state or
/// method query prefixes for fields.
pub const PREFIX_OFFSET: u8 = 0x40;

/// `r` failed with a call error with the message `msg`.
pub open spec fn call_failed(r: Result<()>, msg: Seq<char>) -> bool {
    r matches Err(Error::Call(m)) && m@ == msg
}

/// Builds a call error with the given message.
pub fn call_error(msg: &str) -> (r: Result<()>)
    ensures
        call_failed(r, msg@),
{
    Err(Error::Call(msg.to_owned()))
}

/// A trait for types to describe and expose state mutations publicly (e.g.
/// transactions).
///
/// Calls are typically composed hierarchically from [FieldCall] and
/// [MethodCall] (see [call_item]).
pub trait Call: Sized {
    /// The message type for the call.
    type Call;

    /// Holds when `new` and `r` are the receiver after [Call::call] and its
    /// result.
    spec fn call_post(self, call: Self::Call, new: Self, r: Result<()>) -> bool;

    /// Perform the call.
    fn call(&mut self, call: Self::Call) -> (r: Result<()>)
        ensures
            old(self).call_post(call, *final(self), r),
    ;
}

/// A call that changes nothing and succeeds.
pub open spec fn noop_post<T>(old: T, new: T, r: Result<()>) -> bool {
    new == old && r == Ok::<(), Error>(())
}

impl Call for () {
    type Call = ();

    open spec fn call_post(self, call: (), new: Self, r: Result<()>) -> bool {
        noop_post(self, new, r)
    }

    fn call(&mut self, _call: ()) -> (r: Result<()>) {
        Ok(())
    }
}

impl Call for bool {
    type Call = ();

    open spec fn call_post(self, call: (), new: Self, r: Result<()>) -> bool {
        noop_post(self, new, r)
    }

    fn call(&mut self, _call: ()) -> (r: Result<()>) {
        Ok(())
    }
}

impl Call for u8 {
    type Call = ();

    open spec fn call_post(self, call: (), new: Self, r: Result<()>) -> bool {
        noop_post(self, new, r)
    }

    fn call(&mut self, _call: ()) -> (r: Result<()>) {
        Ok(())
    }
}

impl Call for u16 {
    type Call = ();

    open spec fn call_post(self, call: (), new: Self, r: Result<()>) -> bool {
        noop_post(self, new, r)
    }

    fn call(&mut self, _call: ()) -> (r: Result<()>) {
        Ok(())
    }
}

impl Call for u32 {
    type Call = ();

    open spec fn call_post(self, call: (), new: Self, r: Result<()>) -> bool {
        noop_post(self, new, r)
    }

    fn call(&mut self, _call: ()) -> (r: Result<()>) {
        Ok(())
    }
}

impl Call for u64 {
    type Call = ();

    open spec fn call_post(self, call: (), new: Self, r: Result<()>) -> bool {
        noop_post(self, new, r)
    }

    fn call(&mut self, _call: ()) -> (r: Result<()>) {
        Ok(())
    }
}

impl Call for u128 {
    type Call = ();

    open spec fn call_post(self, call: (), new: Self, r: Result<()>) -> bool {
        noop_post(self, new, r)
    }

    fn call(&mut self, _call: ()) -> (r: Result<()>) {
        Ok(())
    }
}

impl Call for i8 {
    type Call = ();

    open spec fn call_post(self, call: (), new: Self, r: Result<()>) -> bool {
        noop_post(self, new, r)
    }

    fn call(&mut self, _call: ()) -> (r: Result<()>) {
        Ok(())
    }
}

impl Call for i16 {
    type Call = ();

    open spec fn call_post(self, call: (), new: Self, r: Result<()>) -> bool {
        noop_post(self, new, r)
    }

    fn call(&mut self, _call: ()) -> (r: Result<()>) {
        Ok(())
    }
}

impl Call for i32 {
    type Call = ();

    open spec fn call_post(self, call: (), new: Self, r: Result<()>) -> bool {
        noop_post(self, new, r)
    }

    fn call(&mut self, _call: ()) -> (r: Result<()>) {
        Ok(())
    }
}

impl Call for i64 {
    type Call = ();

    open spec fn call_post(self, call: (), new: Self, r: Result<()>) -> bool {
        noop_post(self, new, r)
    }

    fn call(&mut self, _call: ()) -> (r: Result<()>) {
        Ok(())
    }
}

impl Call for i128 {
    type Call = ();

    open spec fn call_post(self, call: (), new: Self, r: Result<()>) -> bool {
        noop_post(self, new, r)
    }

    fn call(&mut self, _call: ()) -> (r: Result<()>) {
        Ok(())
    }
}

impl<T: Call> Call for Option<T> {
    type Call = T::Call;

    /// A present value takes the call; an absent one refuses it.
    open spec fn call_post(self, call: T::Call, new: Self, r: Result<()>) -> bool {
        match self {
            Some(inner) => new matches Some(n) && inner.call_post(call, n, r),
            None => new is None && call_failed(r, "Call option is None"@),
        }
    }

    fn call(&mut self, call: T::Call) -> (r: Result<()>) {
        match self {
            Some(inner) => inner.call(call),
            None => call_error("Call option is None"),
        }
    }
}

/// `r` failed with an application error with the message `msg`.
pub open spec fn app_failed(r: Result<()>, msg: Seq<char>) -> bool {
    r matches Err(Error::App(m)) && m@ == msg
}

impl<T: Call> Call for Vec<T> {
    type Call = (u32, T::Call);

    /// The element at the index takes the sub-call, and the others stay;
    /// an index past the end is refused.
    open spec fn call_post(self, call: (u32, T::Call), new: Self, r: Result<()>) -> bool {
        let (index, subcall) = call;
        if index < self@.len() {
            &&& new@.len() == self@.len()
            &&& forall|j: int| 0 <= j < self@.len() && j != index ==> new@[j] == self@[j]
            &&& self@[index as int].call_post(subcall, new@[index as int], r)
        } else {
            &&& new@ == self@
            &&& app_failed(r, "Index out of bounds"@)
        }
    }

    fn call(&mut self, call: (u32, T::Call)) -> (r: Result<()>) {
        let (index, subcall) = call;
        let i = index as usize;
        if i >= self.len() {
            return Err(Error::App("Index out of bounds".to_owned()));
        }
        self[i].call(subcall)
    }
}

impl<T: Call> Call for (T,) {
    type Call = T::Call;

    open spec fn call_post(self, call: T::Call, new: Self, r: Result<()>) -> bool {
        self.0.call_post(call, new.0, r)
    }

    fn call(&mut self, call: T::Call) -> (r: Result<()>) {
        self.0.call(call)
    }
}

/// Call for 2-field tuples.
#[derive(Debug)]
pub enum Tuple2Call<A, B> {
    /// A call to the first field.
    Field0(A),
    /// A call to the second field.
    Field1(B),
}

impl<T: Call, U: Call> Call for (T, U) {
    type Call = Tuple2Call<T::Call, U::Call>;

    /// The addressed field takes the call; the other stays.
    open spec fn call_post(self, call: Self::Call, new: Self, r: Result<()>) -> bool {
        match call {
            Tuple2Call::Field0(c) => self.0.call_post(c, new.0, r) && new.1 == self.1,
            Tuple2Call::Field1(c) => self.1.call_post(c, new.1, r) && new.0 == self.0,
        }
    }

    fn call(&mut self, call: Self::Call) -> (r: Result<()>) {
        match call {
            Tuple2Call::Field0(c) => self.0.call(c),
            Tuple2Call::Field1(c) => self.1.call(c),
        }
    }
}

/// Call for 3-field tuples.
#[derive(Debug)]
pub enum Tuple3Call<A, B, C> {
    /// A call to the first field.
    Field0(A),
    /// A call to the second field.
    Field1(B),
    /// A call to the third field.
    Field2(C),
}

impl<T: Call, U: Call, V: Call> Call for (T, U, V) {
    type Call = Tuple3Call<T::Call, U::Call, V::Call>;

    /// The addressed field takes the call; the others stay.
    open spec fn call_post(self, call: Self::Call, new: Self, r: Result<()>) -> bool {
        match call {
            Tuple3Call::Field0(c) => self.0.call_post(c, new.0, r) && new.1 == self.1 && new.2
                == self.2,
            Tuple3Call::Field1(c) => self.1.call_post(c, new.1, r) && new.0 == self.0 && new.2
                == self.2,
            Tuple3Call::Field2(c) => self.2.call_post(c, new.2, r) && new.0 == self.0 && new.1
                == self.1,
        }
    }

    fn call(&mut self, call: Self::Call) -> (r: Result<()>) {
        match call {
            Tuple3Call::Field0(c) => self.0.call(c),
            Tuple3Call::Field1(c) => self.1.call(c),
            Tuple3Call::Field2(c) => self.2.call(c),
        }
    }
}

/// Call for 4-field tuples.
#[derive(Debug)]
pub enum Tuple4Call<A, B, C, D> {
    /// A call to the first field.
    Field0(A),
    /// A call to the second field.
    Field1(B),
    /// A call to the third field.
    Field2(C),
    /// A call to the fourth field.
    Field3(D),
}

impl<T: Call, U: Call, V: Call, W: Call> Call for (T, U, V, W) {
    type Call = Tuple4Call<T::Call, U::Call, V::Call, W::Call>;

    /// The addressed field takes the call; the others stay.
    open spec fn call_post(self, call: Self::Call, new: Self, r: Result<()>) -> bool {
        match call {
            Tuple4Call::Field0(c) => self.0.call_post(c, new.0, r) && new.1 == self.1 && new.2
                == self.2 && new.3 == self.3,
            Tuple4Call::Field1(c) => self.1.call_post(c, new.1, r) && new.0 == self.0 && new.2
                == self.2 && new.3 == self.3,
            Tuple4Call::Field2(c) => self.2.call_post(c, new.2, r) && new.0 == self.0 && new.1
                == self.1 && new.3 == self.3,
            Tuple4Call::Field3(c) => self.3.call_post(c, new.3, r) && new.0 == self.0 && new.1
                == self.1 && new.2 == self.2,
        }
    }

    fn call(&mut self, call: Self::Call) -> (r: Result<()>) {
        match call {
            Tuple4Call::Field0(c) => self.0.call(c),
            Tuple4Call::Field1(c) => self.1.call(c),
            Tuple4Call::Field2(c) => self.2.call(c),
            Tuple4Call::Field3(c) => self.3.call(c),
        }
    }
}

impl<T: Call, const N: usize> Call for [T; N] {
    type Call = (u64, T::Call);

    /// The element at the index takes the sub-call, and the others stay;
    /// an index past the end is refused.
    open spec fn call_post(self, call: (u64, T::Call), new: Self, r: Result<()>) -> bool {
        let (index, subcall) = call;
        if index < N {
            &&& forall|j: int| 0 <= j < N && j != index ==> new@[j] == self@[j]
            &&& self@[index as int].call_post(subcall, new@[index as int], r)
        } else {
            &&& new == self
            &&& call_failed(r, "Call index out of bounds"@)
        }
    }

    fn call(&mut self, call: (u64, T::Call)) -> (r: Result<()>) {
        let (index, subcall) = call;
        if index >= N as u64 {
            return call_error("Call index out of bounds");
        }
        let i = index as usize;
        self[i].call(subcall)
    }
}

} // verus!

verus! {

/// Represents either a field or method call item.
///
/// In the encoding, a method call's first byte is raised by
/// [PREFIX_OFFSET], so that the first byte tells the two apart.
#[derive(Debug)]
pub enum Item<T, U> {
    /// A call to a field.
    Field(T),
    /// A call to a method.
    Method(U),
}

/// The encoding of an item whose field or method call is already encoded:
/// a field call's bytes as they are; a method call's bytes with the first
/// byte raised by [PREFIX_OFFSET]. A method call that is empty, or whose
/// first byte is not below the offset, cannot be encoded.
pub open spec fn item_encoding(item: Item<Seq<u8>, Seq<u8>>) -> Option<Seq<u8>> {
    match item {
        Item::Field(f) => Some(f),
        Item::Method(m) => if m.len() > 0 && m[0] < PREFIX_OFFSET {
            Some(m.update(0, (m[0] + PREFIX_OFFSET) as u8))
        } else {
            None
        },
    }
}

/// The item that a byte string decodes to: below the offset, the first byte
/// starts a field call (the whole string); otherwise a method call, whose
/// first byte is lowered by [PREFIX_OFFSET]. An empty string does not decode.
pub open spec fn item_decoding(bytes: Seq<u8>) -> Option<Item<Seq<u8>, Seq<u8>>> {
    if bytes.len() == 0 {
        None
    } else if bytes[0] < PREFIX_OFFSET {
        Some(Item::Field(bytes))
    } else {
        Some(Item::Method(bytes.update(0, (bytes[0] - PREFIX_OFFSET) as u8)))
    }
}

/// The item of byte strings that an item of byte vectors stands for.
pub open spec fn item_view(item: Item<Vec<u8>, Vec<u8>>) -> Item<Seq<u8>, Seq<u8>> {
    match item {
        Item::Field(f) => Item::Field(f@),
        Item::Method(m) => Item::Method(m@),
    }
}

impl Item<Vec<u8>, Vec<u8>> {
    /// Encodes an item whose field or method call is already encoded.
    pub fn encode(&self) -> (r: Option<Vec<u8>>)
        ensures
            r matches Some(b) ==> item_encoding(item_view(*self)) == Some(b@),
            r is None ==> item_encoding(item_view(*self)) is None,
    {
        match self {
            Item::Field(field) => Some(field.clone()),
            Item::Method(method) => {
                if method.len() > 0 && method[0] < PREFIX_OFFSET {
                    let mut bytes = method.clone();
                    let first = bytes[0] + PREFIX_OFFSET;
                    bytes.set(0, first);
                    Some(bytes)
                } else {
                    None
                }
            },
        }
    }

    /// Decodes an item, leaving its field or method call encoded.
    pub fn decode(bytes: &[u8]) -> (r: Option<Self>)
        ensures
            r matches Some(item) ==> item_decoding(bytes@) == Some(item_view(item)),
            r is None ==> item_decoding(bytes@) is None,
    {
        if bytes.len() == 0 {
            return None;
        }
        let prefix = bytes[0];
        let mut out = crate::store::slice_to_vec(bytes);
        if prefix < PREFIX_OFFSET {
            Some(Item::Field(out))
        } else {
            out.set(0, prefix - PREFIX_OFFSET);
            Some(Item::Method(out))
        }
    }
}

/// Decoding an encoded item gives the item back, for a field call that
/// starts below the offset (as every field prefix does) and for every method
/// call that can be encoded.
pub proof fn lemma_item_roundtrip(item: Item<Seq<u8>, Seq<u8>>)
    requires
        item matches Item::Field(f) ==> f.len() > 0 && f[0] < PREFIX_OFFSET,
        item_encoding(item) is Some,
    ensures
        item_decoding(item_encoding(item).unwrap()) == Some(item),
{
    match item {
        Item::Field(f) => {},
        Item::Method(m) => {
            let e = m.update(0, (m[0] + PREFIX_OFFSET) as u8);
            assert(e.update(0, (e[0] - PREFIX_OFFSET) as u8) =~= m);
        },
    }
}

/// A trait for complex types whose fields may also be [Call].
///
/// The field call is passed along to the addressed field's [Call]
/// implementation.
pub trait FieldCall: Sized {
    /// The message type for calls to this type's fields.
    type FieldCall;

    /// Holds when `new` and `r` are the receiver after
    /// [FieldCall::field_call] and its result.
    spec fn field_call_post(self, call: Self::FieldCall, new: Self, r: Result<()>) -> bool;

    /// Perform the field call.
    fn field_call(&mut self, call: Self::FieldCall) -> (r: Result<()>)
        ensures
            old(self).field_call_post(call, *final(self), r),
    ;
}

/// A trait for types that expose public methods as calls.
///
/// Method calls are assigned an incrementing byte prefix, starting from
/// [PREFIX_OFFSET] to avoid conflicts with fields or method queries.
pub trait MethodCall: Sized {
    /// The message type for calls to this type's methods.
    type MethodCall;

    /// Holds when `new` and `r` are the receiver after
    /// [MethodCall::method_call] and its result.
    spec fn method_call_post(self, call: Self::MethodCall, new: Self, r: Result<()>) -> bool;

    /// Perform the method call.
    fn method_call(&mut self, call: Self::MethodCall) -> (r: Result<()>)
        ensures
            old(self).method_call_post(call, *final(self), r),
    ;
}

/// Performs a field or method call item on a type that has both.
pub fn call_item<T: FieldCall + MethodCall>(
    target: &mut T,
    call: Item<T::FieldCall, T::MethodCall>,
) -> (r: Result<()>)
    ensures
        match call {
            Item::Field(c) => old(target).field_call_post(c, *final(target), r),
            Item::Method(c) => old(target).method_call_post(c, *final(target), r),
        },
{
    match call {
        Item::Field(c) => target.field_call(c),
        Item::Method(c) => target.method_call(c),
    }
}

/// Helper for building calls of a type `T`.
#[derive(Debug)]
pub struct CallBuilder<T> {
    /// The type the calls are built for.
    pub target: PhantomData<T>,
}

impl<T> CallBuilder<T> {
    /// Creates a call builder.
    pub fn new() -> (r: Self)
        ensures
            r.target == PhantomData::<T>,
    {
        CallBuilder { target: PhantomData }
    }

    /// Makes a call builder for the type that `value` points to.
    pub fn make<U: core::ops::Deref<Target = T>>(value: U) -> (r: Self)
        ensures
            r.target == PhantomData::<T>,
    {
        Self::new()
    }
}

impl<T> Default for CallBuilder<T> {
    fn default() -> (r: Self)
        ensures
            r.target == PhantomData::<T>,
    {
        Self::new()
    }
}

} // verus!
