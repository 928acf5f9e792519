//! Client-side helpers: call and query tracing, the stores that answer a
//! client's reads, and wallets.
pub mod trace;
pub mod experimental;
pub mod exec;
pub mod wallet;

use vstd::prelude::*;

use crate::error::{Error, Result};

verus! {

/// An example application with two counters.
#[derive(Debug)]
pub struct Foo {
    /// The first counter.
    pub bar: Bar,
    /// The second counter.
    pub bar2: Bar,
}

impl Foo {
    /// The counter with the given id: 0 for `bar`, 1 for `bar2`.
    pub fn get_bar_mut(&mut self, id: u8) -> (r: Result<&mut Bar>)
        ensures
            id == 0 ==> (r matches Ok(b) && *b == old(self).bar && final(self).bar == *final(b)
                && final(self).bar2 == old(self).bar2),
            id == 1 ==> (r matches Ok(b) && *b == old(self).bar2 && final(self).bar2 == *final(b)
                && final(self).bar == old(self).bar),
            id > 1 ==> (r matches Err(Error::Call(m)) && m@ == "Invalid id"@ && *final(self)
                == *old(self)),
    {
        match id {
            0 => Ok(&mut self.bar),
            1 => Ok(&mut self.bar2),
            _ => Err(Error::Call("Invalid id".to_owned())),
        }
    }
}

/// An example counter.
#[derive(Debug, PartialEq, Eq, Structural)]
pub struct Bar(pub u32);

impl Bar {
    /// Adds one to the counter.
    pub fn increment(&mut self)
        requires
            old(self).0 < u32::MAX,
        ensures
            final(self).0 == old(self).0 + 1,
    {
        self.0 = self.0 + 1;
    }
}

} // verus!
