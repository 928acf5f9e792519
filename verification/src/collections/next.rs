//! Types with a logical next sequential value, used to walk ordered keys.
use vstd::prelude::*;

verus! {

/// A trait for types which have a logical next sequential value.
pub trait Next: Sized {
    /// Holds when `r` is what [Next::next] returns for `self`: the next
    /// sequential value, or `None` at the end of the type's domain.
    spec fn is_next(&self, r: Option<Self>) -> bool;

    /// Returns the next sequential value if it exists, or `None` if the value
    /// is at the end of its domain, e.g. `u32::MAX -> None`, or
    /// `0 -> Some(1)`.
    fn next(&self) -> (r: Option<Self>)
        ensures
            self.is_next(r),
    ;
}

/// The value at the start of a type's domain, to which a component of a
/// compound key resets when the components after it wrap around.
pub trait First: Sized {
    /// The first value of the domain.
    spec fn first_spec() -> Self;

    /// Returns the first value of the domain.
    fn first() -> (r: Self)
        ensures
            r == Self::first_spec(),
    ;
}

impl Next for bool {
    open spec fn is_next(&self, r: Option<Self>) -> bool {
        r == (if !*self { Some(true) } else { None::<bool> })
    }

    fn next(&self) -> (r: Option<Self>) {
        match self {
            false => Some(true),
            true => None,
        }
    }
}

impl First for bool {
    open spec fn first_spec() -> Self {
        false
    }

    fn first() -> (r: Self) {
        false
    }
}

impl Next for u8 {
    open spec fn is_next(&self, r: Option<Self>) -> bool {
        r == (if *self < u8::MAX { Some((*self + 1) as u8) } else { None::<u8> })
    }

    fn next(&self) -> (r: Option<Self>) {
        self.checked_add(1)
    }
}

impl First for u8 {
    open spec fn first_spec() -> Self {
        0
    }

    fn first() -> (r: Self) {
        0
    }
}

impl Next for u16 {
    open spec fn is_next(&self, r: Option<Self>) -> bool {
        r == (if *self < u16::MAX { Some((*self + 1) as u16) } else { None::<u16> })
    }

    fn next(&self) -> (r: Option<Self>) {
        self.checked_add(1)
    }
}

impl First for u16 {
    open spec fn first_spec() -> Self {
        0
    }

    fn first() -> (r: Self) {
        0
    }
}

impl Next for u32 {
    open spec fn is_next(&self, r: Option<Self>) -> bool {
        r == (if *self < u32::MAX { Some((*self + 1) as u32) } else { None::<u32> })
    }

    fn next(&self) -> (r: Option<Self>) {
        self.checked_add(1)
    }
}

impl First for u32 {
    open spec fn first_spec() -> Self {
        0
    }

    fn first() -> (r: Self) {
        0
    }
}

impl Next for u64 {
    open spec fn is_next(&self, r: Option<Self>) -> bool {
        r == (if *self < u64::MAX { Some((*self + 1) as u64) } else { None::<u64> })
    }

    fn next(&self) -> (r: Option<Self>) {
        self.checked_add(1)
    }
}

impl First for u64 {
    open spec fn first_spec() -> Self {
        0
    }

    fn first() -> (r: Self) {
        0
    }
}

impl Next for u128 {
    open spec fn is_next(&self, r: Option<Self>) -> bool {
        r == (if *self < u128::MAX { Some((*self + 1) as u128) } else { None::<u128> })
    }

    fn next(&self) -> (r: Option<Self>) {
        self.checked_add(1)
    }
}

impl First for u128 {
    open spec fn first_spec() -> Self {
        0
    }

    fn first() -> (r: Self) {
        0
    }
}

impl Next for i8 {
    open spec fn is_next(&self, r: Option<Self>) -> bool {
        r == (if *self < i8::MAX { Some((*self + 1) as i8) } else { None::<i8> })
    }

    fn next(&self) -> (r: Option<Self>) {
        self.checked_add(1)
    }
}

impl First for i8 {
    open spec fn first_spec() -> Self {
        0
    }

    fn first() -> (r: Self) {
        0
    }
}

impl Next for i16 {
    open spec fn is_next(&self, r: Option<Self>) -> bool {
        r == (if *self < i16::MAX { Some((*self + 1) as i16) } else { None::<i16> })
    }

    fn next(&self) -> (r: Option<Self>) {
        self.checked_add(1)
    }
}

impl First for i16 {
    open spec fn first_spec() -> Self {
        0
    }

    fn first() -> (r: Self) {
        0
    }
}

impl Next for i32 {
    open spec fn is_next(&self, r: Option<Self>) -> bool {
        r == (if *self < i32::MAX { Some((*self + 1) as i32) } else { None::<i32> })
    }

    fn next(&self) -> (r: Option<Self>) {
        self.checked_add(1)
    }
}

impl First for i32 {
    open spec fn first_spec() -> Self {
        0
    }

    fn first() -> (r: Self) {
        0
    }
}

impl Next for i64 {
    open spec fn is_next(&self, r: Option<Self>) -> bool {
        r == (if *self < i64::MAX { Some((*self + 1) as i64) } else { None::<i64> })
    }

    fn next(&self) -> (r: Option<Self>) {
        self.checked_add(1)
    }
}

impl First for i64 {
    open spec fn first_spec() -> Self {
        0
    }

    fn first() -> (r: Self) {
        0
    }
}

impl Next for i128 {
    open spec fn is_next(&self, r: Option<Self>) -> bool {
        r == (if *self < i128::MAX { Some((*self + 1) as i128) } else { None::<i128> })
    }

    fn next(&self) -> (r: Option<Self>) {
        self.checked_add(1)
    }
}

impl First for i128 {
    open spec fn first_spec() -> Self {
        0
    }

    fn first() -> (r: Self) {
        0
    }
}

impl<A: Next + First + Copy> Next for (A,) {
    /// The last component that has a next value advances; every component
    /// after it resets to its first value; the ones before it are kept.
    open spec fn is_next(&self, r: Option<Self>) -> bool {
        match r {
            Some(t) => {
            ||| (self.0.is_next(Some(t.0)))
            },
            None => self.0.is_next(None),
        }
    }

    fn next(&self) -> (r: Option<Self>) {
        let mut t = *self;
        match self.0.next() {
            Some(v) => {
                t.0 = v;
                return Some(t);
            },
            None => {
                t.0 = A::first();
            },
        }
        None
    }
}

impl<A: Next + First + Copy> First for (A,) {
    open spec fn first_spec() -> Self {
        (A::first_spec(),)
    }

    fn first() -> (r: Self) {
        (A::first(),)
    }
}

impl<A: Next + First + Copy, B: Next + First + Copy> Next for (A, B) {
    /// The last component that has a next value advances; every component
    /// after it resets to its first value; the ones before it are kept.
    open spec fn is_next(&self, r: Option<Self>) -> bool {
        match r {
            Some(t) => {
            ||| (self.0.is_next(Some(t.0)) && self.1.is_next(None) && t.1 == B::first_spec())
            ||| (t.0 == self.0 && self.1.is_next(Some(t.1)))
            },
            None => self.0.is_next(None) && self.1.is_next(None),
        }
    }

    fn next(&self) -> (r: Option<Self>) {
        let mut t = *self;
        match self.1.next() {
            Some(v) => {
                t.1 = v;
                return Some(t);
            },
            None => {
                t.1 = B::first();
            },
        }
        match self.0.next() {
            Some(v) => {
                t.0 = v;
                return Some(t);
            },
            None => {
                t.0 = A::first();
            },
        }
        None
    }
}

impl<A: Next + First + Copy, B: Next + First + Copy> First for (A, B) {
    open spec fn first_spec() -> Self {
        (A::first_spec(), B::first_spec())
    }

    fn first() -> (r: Self) {
        (A::first(), B::first())
    }
}

impl<A: Next + First + Copy, B: Next + First + Copy, C: Next + First + Copy> Next for (A, B, C) {
    /// The last component that has a next value advances; every component
    /// after it resets to its first value; the ones before it are kept.
    open spec fn is_next(&self, r: Option<Self>) -> bool {
        match r {
            Some(t) => {
            ||| (self.0.is_next(Some(t.0)) && self.1.is_next(None) && t.1 == B::first_spec() && self.2.is_next(None) && t.2 == C::first_spec())
            ||| (t.0 == self.0 && self.1.is_next(Some(t.1)) && self.2.is_next(None) && t.2 == C::first_spec())
            ||| (t.0 == self.0 && t.1 == self.1 && self.2.is_next(Some(t.2)))
            },
            None => self.0.is_next(None) && self.1.is_next(None) && self.2.is_next(None),
        }
    }

    fn next(&self) -> (r: Option<Self>) {
        let mut t = *self;
        match self.2.next() {
            Some(v) => {
                t.2 = v;
                return Some(t);
            },
            None => {
                t.2 = C::first();
            },
        }
        match self.1.next() {
            Some(v) => {
                t.1 = v;
                return Some(t);
            },
            None => {
                t.1 = B::first();
            },
        }
        match self.0.next() {
            Some(v) => {
                t.0 = v;
                return Some(t);
            },
            None => {
                t.0 = A::first();
            },
        }
        None
    }
}

impl<A: Next + First + Copy, B: Next + First + Copy, C: Next + First + Copy> First for (A, B, C) {
    open spec fn first_spec() -> Self {
        (A::first_spec(), B::first_spec(), C::first_spec())
    }

    fn first() -> (r: Self) {
        (A::first(), B::first(), C::first())
    }
}

impl<A: Next + First + Copy, B: Next + First + Copy, C: Next + First + Copy, D: Next + First + Copy> Next for (A, B, C, D) {
    /// The last component that has a next value advances; every component
    /// after it resets to its first value; the ones before it are kept.
    open spec fn is_next(&self, r: Option<Self>) -> bool {
        match r {
            Some(t) => {
            ||| (self.0.is_next(Some(t.0)) && self.1.is_next(None) && t.1 == B::first_spec() && self.2.is_next(None) && t.2 == C::first_spec() && self.3.is_next(None) && t.3 == D::first_spec())
            ||| (t.0 == self.0 && self.1.is_next(Some(t.1)) && self.2.is_next(None) && t.2 == C::first_spec() && self.3.is_next(None) && t.3 == D::first_spec())
            ||| (t.0 == self.0 && t.1 == self.1 && self.2.is_next(Some(t.2)) && self.3.is_next(None) && t.3 == D::first_spec())
            ||| (t.0 == self.0 && t.1 == self.1 && t.2 == self.2 && self.3.is_next(Some(t.3)))
            },
            None => self.0.is_next(None) && self.1.is_next(None) && self.2.is_next(None) && self.3.is_next(None),
        }
    }

    fn next(&self) -> (r: Option<Self>) {
        let mut t = *self;
        match self.3.next() {
            Some(v) => {
                t.3 = v;
                return Some(t);
            },
            None => {
                t.3 = D::first();
            },
        }
        match self.2.next() {
            Some(v) => {
                t.2 = v;
                return Some(t);
            },
            None => {
                t.2 = C::first();
            },
        }
        match self.1.next() {
            Some(v) => {
                t.1 = v;
                return Some(t);
            },
            None => {
                t.1 = B::first();
            },
        }
        match self.0.next() {
            Some(v) => {
                t.0 = v;
                return Some(t);
            },
            None => {
                t.0 = A::first();
            },
        }
        None
    }
}

impl<A: Next + First + Copy, B: Next + First + Copy, C: Next + First + Copy, D: Next + First + Copy> First for (A, B, C, D) {
    open spec fn first_spec() -> Self {
        (A::first_spec(), B::first_spec(), C::first_spec(), D::first_spec())
    }

    fn first() -> (r: Self) {
        (A::first(), B::first(), C::first(), D::first())
    }
}

impl<A: Next + First + Copy, B: Next + First + Copy, C: Next + First + Copy, D: Next + First + Copy, E: Next + First + Copy> Next for (A, B, C, D, E) {
    /// The last component that has a next value advances; every component
    /// after it resets to its first value; the ones before it are kept.
    open spec fn is_next(&self, r: Option<Self>) -> bool {
        match r {
            Some(t) => {
            ||| (self.0.is_next(Some(t.0)) && self.1.is_next(None) && t.1 == B::first_spec() && self.2.is_next(None) && t.2 == C::first_spec() && self.3.is_next(None) && t.3 == D::first_spec() && self.4.is_next(None) && t.4 == E::first_spec())
            ||| (t.0 == self.0 && self.1.is_next(Some(t.1)) && self.2.is_next(None) && t.2 == C::first_spec() && self.3.is_next(None) && t.3 == D::first_spec() && self.4.is_next(None) && t.4 == E::first_spec())
            ||| (t.0 == self.0 && t.1 == self.1 && self.2.is_next(Some(t.2)) && self.3.is_next(None) && t.3 == D::first_spec() && self.4.is_next(None) && t.4 == E::first_spec())
            ||| (t.0 == self.0 && t.1 == self.1 && t.2 == self.2 && self.3.is_next(Some(t.3)) && self.4.is_next(None) && t.4 == E::first_spec())
            ||| (t.0 == self.0 && t.1 == self.1 && t.2 == self.2 && t.3 == self.3 && self.4.is_next(Some(t.4)))
            },
            None => self.0.is_next(None) && self.1.is_next(None) && self.2.is_next(None) && self.3.is_next(None) && self.4.is_next(None),
        }
    }

    fn next(&self) -> (r: Option<Self>) {
        let mut t = *self;
        match self.4.next() {
            Some(v) => {
                t.4 = v;
                return Some(t);
            },
            None => {
                t.4 = E::first();
            },
        }
        match self.3.next() {
            Some(v) => {
                t.3 = v;
                return Some(t);
            },
            None => {
                t.3 = D::first();
            },
        }
        match self.2.next() {
            Some(v) => {
                t.2 = v;
                return Some(t);
            },
            None => {
                t.2 = C::first();
            },
        }
        match self.1.next() {
            Some(v) => {
                t.1 = v;
                return Some(t);
            },
            None => {
                t.1 = B::first();
            },
        }
        match self.0.next() {
            Some(v) => {
                t.0 = v;
                return Some(t);
            },
            None => {
                t.0 = A::first();
            },
        }
        None
    }
}

impl<A: Next + First + Copy, B: Next + First + Copy, C: Next + First + Copy, D: Next + First + Copy, E: Next + First + Copy> First for (A, B, C, D, E) {
    open spec fn first_spec() -> Self {
        (A::first_spec(), B::first_spec(), C::first_spec(), D::first_spec(), E::first_spec())
    }

    fn first() -> (r: Self) {
        (A::first(), B::first(), C::first(), D::first(), E::first())
    }
}

impl<A: Next + First + Copy, B: Next + First + Copy, C: Next + First + Copy, D: Next + First + Copy, E: Next + First + Copy, F: Next + First + Copy> Next for (A, B, C, D, E, F) {
    /// The last component that has a next value advances; every component
    /// after it resets to its first value; the ones before it are kept.
    open spec fn is_next(&self, r: Option<Self>) -> bool {
        match r {
            Some(t) => {
            ||| (self.0.is_next(Some(t.0)) && self.1.is_next(None) && t.1 == B::first_spec() && self.2.is_next(None) && t.2 == C::first_spec() && self.3.is_next(None) && t.3 == D::first_spec() && self.4.is_next(None) && t.4 == E::first_spec() && self.5.is_next(None) && t.5 == F::first_spec())
            ||| (t.0 == self.0 && self.1.is_next(Some(t.1)) && self.2.is_next(None) && t.2 == C::first_spec() && self.3.is_next(None) && t.3 == D::first_spec() && self.4.is_next(None) && t.4 == E::first_spec() && self.5.is_next(None) && t.5 == F::first_spec())
            ||| (t.0 == self.0 && t.1 == self.1 && self.2.is_next(Some(t.2)) && self.3.is_next(None) && t.3 == D::first_spec() && self.4.is_next(None) && t.4 == E::first_spec() && self.5.is_next(None) && t.5 == F::first_spec())
            ||| (t.0 == self.0 && t.1 == self.1 && t.2 == self.2 && self.3.is_next(Some(t.3)) && self.4.is_next(None) && t.4 == E::first_spec() && self.5.is_next(None) && t.5 == F::first_spec())
            ||| (t.0 == self.0 && t.1 == self.1 && t.2 == self.2 && t.3 == self.3 && self.4.is_next(Some(t.4)) && self.5.is_next(None) && t.5 == F::first_spec())
            ||| (t.0 == self.0 && t.1 == self.1 && t.2 == self.2 && t.3 == self.3 && t.4 == self.4 && self.5.is_next(Some(t.5)))
            },
            None => self.0.is_next(None) && self.1.is_next(None) && self.2.is_next(None) && self.3.is_next(None) && self.4.is_next(None) && self.5.is_next(None),
        }
    }

    fn next(&self) -> (r: Option<Self>) {
        let mut t = *self;
        match self.5.next() {
            Some(v) => {
                t.5 = v;
                return Some(t);
            },
            None => {
                t.5 = F::first();
            },
        }
        match self.4.next() {
            Some(v) => {
                t.4 = v;
                return Some(t);
            },
            None => {
                t.4 = E::first();
            },
        }
        match self.3.next() {
            Some(v) => {
                t.3 = v;
                return Some(t);
            },
            None => {
                t.3 = D::first();
            },
        }
        match self.2.next() {
            Some(v) => {
                t.2 = v;
                return Some(t);
            },
            None => {
                t.2 = C::first();
            },
        }
        match self.1.next() {
            Some(v) => {
                t.1 = v;
                return Some(t);
            },
            None => {
                t.1 = B::first();
            },
        }
        match self.0.next() {
            Some(v) => {
                t.0 = v;
                return Some(t);
            },
            None => {
                t.0 = A::first();
            },
        }
        None
    }
}

impl<A: Next + First + Copy, B: Next + First + Copy, C: Next + First + Copy, D: Next + First + Copy, E: Next + First + Copy, F: Next + First + Copy> First for (A, B, C, D, E, F) {
    open spec fn first_spec() -> Self {
        (A::first_spec(), B::first_spec(), C::first_spec(), D::first_spec(), E::first_spec(), F::first_spec())
    }

    fn first() -> (r: Self) {
        (A::first(), B::first(), C::first(), D::first(), E::first(), F::first())
    }
}

impl<A: Next + First + Copy, B: Next + First + Copy, C: Next + First + Copy, D: Next + First + Copy, E: Next + First + Copy, F: Next + First + Copy, G: Next + First + Copy> Next for (A, B, C, D, E, F, G) {
    /// The last component that has a next value advances; every component
    /// after it resets to its first value; the ones before it are kept.
    open spec fn is_next(&self, r: Option<Self>) -> bool {
        match r {
            Some(t) => {
            ||| (self.0.is_next(Some(t.0)) && self.1.is_next(None) && t.1 == B::first_spec() && self.2.is_next(None) && t.2 == C::first_spec() && self.3.is_next(None) && t.3 == D::first_spec() && self.4.is_next(None) && t.4 == E::first_spec() && self.5.is_next(None) && t.5 == F::first_spec() && self.6.is_next(None) && t.6 == G::first_spec())
            ||| (t.0 == self.0 && self.1.is_next(Some(t.1)) && self.2.is_next(None) && t.2 == C::first_spec() && self.3.is_next(None) && t.3 == D::first_spec() && self.4.is_next(None) && t.4 == E::first_spec() && self.5.is_next(None) && t.5 == F::first_spec() && self.6.is_next(None) && t.6 == G::first_spec())
            ||| (t.0 == self.0 && t.1 == self.1 && self.2.is_next(Some(t.2)) && self.3.is_next(None) && t.3 == D::first_spec() && self.4.is_next(None) && t.4 == E::first_spec() && self.5.is_next(None) && t.5 == F::first_spec() && self.6.is_next(None) && t.6 == G::first_spec())
            ||| (t.0 == self.0 && t.1 == self.1 && t.2 == self.2 && self.3.is_next(Some(t.3)) && self.4.is_next(None) && t.4 == E::first_spec() && self.5.is_next(None) && t.5 == F::first_spec() && self.6.is_next(None) && t.6 == G::first_spec())
            ||| (t.0 == self.0 && t.1 == self.1 && t.2 == self.2 && t.3 == self.3 && self.4.is_next(Some(t.4)) && self.5.is_next(None) && t.5 == F::first_spec() && self.6.is_next(None) && t.6 == G::first_spec())
            ||| (t.0 == self.0 && t.1 == self.1 && t.2 == self.2 && t.3 == self.3 && t.4 == self.4 && self.5.is_next(Some(t.5)) && self.6.is_next(None) && t.6 == G::first_spec())
            ||| (t.0 == self.0 && t.1 == self.1 && t.2 == self.2 && t.3 == self.3 && t.4 == self.4 && t.5 == self.5 && self.6.is_next(Some(t.6)))
            },
            None => self.0.is_next(None) && self.1.is_next(None) && self.2.is_next(None) && self.3.is_next(None) && self.4.is_next(None) && self.5.is_next(None) && self.6.is_next(None),
        }
    }

    fn next(&self) -> (r: Option<Self>) {
        let mut t = *self;
        match self.6.next() {
            Some(v) => {
                t.6 = v;
                return Some(t);
            },
            None => {
                t.6 = G::first();
            },
        }
        match self.5.next() {
            Some(v) => {
                t.5 = v;
                return Some(t);
            },
            None => {
                t.5 = F::first();
            },
        }
        match self.4.next() {
            Some(v) => {
                t.4 = v;
                return Some(t);
            },
            None => {
                t.4 = E::first();
            },
        }
        match self.3.next() {
            Some(v) => {
                t.3 = v;
                return Some(t);
            },
            None => {
                t.3 = D::first();
            },
        }
        match self.2.next() {
            Some(v) => {
                t.2 = v;
                return Some(t);
            },
            None => {
                t.2 = C::first();
            },
        }
        match self.1.next() {
            Some(v) => {
                t.1 = v;
                return Some(t);
            },
            None => {
                t.1 = B::first();
            },
        }
        match self.0.next() {
            Some(v) => {
                t.0 = v;
                return Some(t);
            },
            None => {
                t.0 = A::first();
            },
        }
        None
    }
}

impl<A: Next + First + Copy, B: Next + First + Copy, C: Next + First + Copy, D: Next + First + Copy, E: Next + First + Copy, F: Next + First + Copy, G: Next + First + Copy> First for (A, B, C, D, E, F, G) {
    open spec fn first_spec() -> Self {
        (A::first_spec(), B::first_spec(), C::first_spec(), D::first_spec(), E::first_spec(), F::first_spec(), G::first_spec())
    }

    fn first() -> (r: Self) {
        (A::first(), B::first(), C::first(), D::first(), E::first(), F::first(), G::first())
    }
}

impl<A: Next + First + Copy, B: Next + First + Copy, C: Next + First + Copy, D: Next + First + Copy, E: Next + First + Copy, F: Next + First + Copy, G: Next + First + Copy, H: Next + First + Copy> Next for (A, B, C, D, E, F, G, H) {
    /// The last component that has a next value advances; every component
    /// after it resets to its first value; the ones before it are kept.
    open spec fn is_next(&self, r: Option<Self>) -> bool {
        match r {
            Some(t) => {
            ||| (self.0.is_next(Some(t.0)) && self.1.is_next(None) && t.1 == B::first_spec() && self.2.is_next(None) && t.2 == C::first_spec() && self.3.is_next(None) && t.3 == D::first_spec() && self.4.is_next(None) && t.4 == E::first_spec() && self.5.is_next(None) && t.5 == F::first_spec() && self.6.is_next(None) && t.6 == G::first_spec() && self.7.is_next(None) && t.7 == H::first_spec())
            ||| (t.0 == self.0 && self.1.is_next(Some(t.1)) && self.2.is_next(None) && t.2 == C::first_spec() && self.3.is_next(None) && t.3 == D::first_spec() && self.4.is_next(None) && t.4 == E::first_spec() && self.5.is_next(None) && t.5 == F::first_spec() && self.6.is_next(None) && t.6 == G::first_spec() && self.7.is_next(None) && t.7 == H::first_spec())
            ||| (t.0 == self.0 && t.1 == self.1 && self.2.is_next(Some(t.2)) && self.3.is_next(None) && t.3 == D::first_spec() && self.4.is_next(None) && t.4 == E::first_spec() && self.5.is_next(None) && t.5 == F::first_spec() && self.6.is_next(None) && t.6 == G::first_spec() && self.7.is_next(None) && t.7 == H::first_spec())
            ||| (t.0 == self.0 && t.1 == self.1 && t.2 == self.2 && self.3.is_next(Some(t.3)) && self.4.is_next(None) && t.4 == E::first_spec() && self.5.is_next(None) && t.5 == F::first_spec() && self.6.is_next(None) && t.6 == G::first_spec() && self.7.is_next(None) && t.7 == H::first_spec())
            ||| (t.0 == self.0 && t.1 == self.1 && t.2 == self.2 && t.3 == self.3 && self.4.is_next(Some(t.4)) && self.5.is_next(None) && t.5 == F::first_spec() && self.6.is_next(None) && t.6 == G::first_spec() && self.7.is_next(None) && t.7 == H::first_spec())
            ||| (t.0 == self.0 && t.1 == self.1 && t.2 == self.2 && t.3 == self.3 && t.4 == self.4 && self.5.is_next(Some(t.5)) && self.6.is_next(None) && t.6 == G::first_spec() && self.7.is_next(None) && t.7 == H::first_spec())
            ||| (t.0 == self.0 && t.1 == self.1 && t.2 == self.2 && t.3 == self.3 && t.4 == self.4 && t.5 == self.5 && self.6.is_next(Some(t.6)) && self.7.is_next(None) && t.7 == H::first_spec())
            ||| (t.0 == self.0 && t.1 == self.1 && t.2 == self.2 && t.3 == self.3 && t.4 == self.4 && t.5 == self.5 && t.6 == self.6 && self.7.is_next(Some(t.7)))
            },
            None => self.0.is_next(None) && self.1.is_next(None) && self.2.is_next(None) && self.3.is_next(None) && self.4.is_next(None) && self.5.is_next(None) && self.6.is_next(None) && self.7.is_next(None),
        }
    }

    fn next(&self) -> (r: Option<Self>) {
        let mut t = *self;
        match self.7.next() {
            Some(v) => {
                t.7 = v;
                return Some(t);
            },
            None => {
                t.7 = H::first();
            },
        }
        match self.6.next() {
            Some(v) => {
                t.6 = v;
                return Some(t);
            },
            None => {
                t.6 = G::first();
            },
        }
        match self.5.next() {
            Some(v) => {
                t.5 = v;
                return Some(t);
            },
            None => {
                t.5 = F::first();
            },
        }
        match self.4.next() {
            Some(v) => {
                t.4 = v;
                return Some(t);
            },
            None => {
                t.4 = E::first();
            },
        }
        match self.3.next() {
            Some(v) => {
                t.3 = v;
                return Some(t);
            },
            None => {
                t.3 = D::first();
            },
        }
        match self.2.next() {
            Some(v) => {
                t.2 = v;
                return Some(t);
            },
            None => {
                t.2 = C::first();
            },
        }
        match self.1.next() {
            Some(v) => {
                t.1 = v;
                return Some(t);
            },
            None => {
                t.1 = B::first();
            },
        }
        match self.0.next() {
            Some(v) => {
                t.0 = v;
                return Some(t);
            },
            None => {
                t.0 = A::first();
            },
        }
        None
    }
}

impl<A: Next + First + Copy, B: Next + First + Copy, C: Next + First + Copy, D: Next + First + Copy, E: Next + First + Copy, F: Next + First + Copy, G: Next + First + Copy, H: Next + First + Copy> First for (A, B, C, D, E, F, G, H) {
    open spec fn first_spec() -> Self {
        (A::first_spec(), B::first_spec(), C::first_spec(), D::first_spec(), E::first_spec(), F::first_spec(), G::first_spec(), H::first_spec())
    }

    fn first() -> (r: Self) {
        (A::first(), B::first(), C::first(), D::first(), E::first(), F::first(), G::first(), H::first())
    }
}

impl<A: Next + First + Copy, B: Next + First + Copy, C: Next + First + Copy, D: Next + First + Copy, E: Next + First + Copy, F: Next + First + Copy, G: Next + First + Copy, H: Next + First + Copy, I: Next + First + Copy> Next for (A, B, C, D, E, F, G, H, I) {
    /// The last component that has a next value advances; every component
    /// after it resets to its first value; the ones before it are kept.
    open spec fn is_next(&self, r: Option<Self>) -> bool {
        match r {
            Some(t) => {
            ||| (self.0.is_next(Some(t.0)) && self.1.is_next(None) && t.1 == B::first_spec() && self.2.is_next(None) && t.2 == C::first_spec() && self.3.is_next(None) && t.3 == D::first_spec() && self.4.is_next(None) && t.4 == E::first_spec() && self.5.is_next(None) && t.5 == F::first_spec() && self.6.is_next(None) && t.6 == G::first_spec() && self.7.is_next(None) && t.7 == H::first_spec() && self.8.is_next(None) && t.8 == I::first_spec())
            ||| (t.0 == self.0 && self.1.is_next(Some(t.1)) && self.2.is_next(None) && t.2 == C::first_spec() && self.3.is_next(None) && t.3 == D::first_spec() && self.4.is_next(None) && t.4 == E::first_spec() && self.5.is_next(None) && t.5 == F::first_spec() && self.6.is_next(None) && t.6 == G::first_spec() && self.7.is_next(None) && t.7 == H::first_spec() && self.8.is_next(None) && t.8 == I::first_spec())
            ||| (t.0 == self.0 && t.1 == self.1 && self.2.is_next(Some(t.2)) && self.3.is_next(None) && t.3 == D::first_spec() && self.4.is_next(None) && t.4 == E::first_spec() && self.5.is_next(None) && t.5 == F::first_spec() && self.6.is_next(None) && t.6 == G::first_spec() && self.7.is_next(None) && t.7 == H::first_spec() && self.8.is_next(None) && t.8 == I::first_spec())
            ||| (t.0 == self.0 && t.1 == self.1 && t.2 == self.2 && self.3.is_next(Some(t.3)) && self.4.is_next(None) && t.4 == E::first_spec() && self.5.is_next(None) && t.5 == F::first_spec() && self.6.is_next(None) && t.6 == G::first_spec() && self.7.is_next(None) && t.7 == H::first_spec() && self.8.is_next(None) && t.8 == I::first_spec())
            ||| (t.0 == self.0 && t.1 == self.1 && t.2 == self.2 && t.3 == self.3 && self.4.is_next(Some(t.4)) && self.5.is_next(None) && t.5 == F::first_spec() && self.6.is_next(None) && t.6 == G::first_spec() && self.7.is_next(None) && t.7 == H::first_spec() && self.8.is_next(None) && t.8 == I::first_spec())
            ||| (t.0 == self.0 && t.1 == self.1 && t.2 == self.2 && t.3 == self.3 && t.4 == self.4 && self.5.is_next(Some(t.5)) && self.6.is_next(None) && t.6 == G::first_spec() && self.7.is_next(None) && t.7 == H::first_spec() && self.8.is_next(None) && t.8 == I::first_spec())
            ||| (t.0 == self.0 && t.1 == self.1 && t.2 == self.2 && t.3 == self.3 && t.4 == self.4 && t.5 == self.5 && self.6.is_next(Some(t.6)) && self.7.is_next(None) && t.7 == H::first_spec() && self.8.is_next(None) && t.8 == I::first_spec())
            ||| (t.0 == self.0 && t.1 == self.1 && t.2 == self.2 && t.3 == self.3 && t.4 == self.4 && t.5 == self.5 && t.6 == self.6 && self.7.is_next(Some(t.7)) && self.8.is_next(None) && t.8 == I::first_spec())
            ||| (t.0 == self.0 && t.1 == self.1 && t.2 == self.2 && t.3 == self.3 && t.4 == self.4 && t.5 == self.5 && t.6 == self.6 && t.7 == self.7 && self.8.is_next(Some(t.8)))
            },
            None => self.0.is_next(None) && self.1.is_next(None) && self.2.is_next(None) && self.3.is_next(None) && self.4.is_next(None) && self.5.is_next(None) && self.6.is_next(None) && self.7.is_next(None) && self.8.is_next(None),
        }
    }

    fn next(&self) -> (r: Option<Self>) {
        let mut t = *self;
        match self.8.next() {
            Some(v) => {
                t.8 = v;
                return Some(t);
            },
            None => {
                t.8 = I::first();
            },
        }
        match self.7.next() {
            Some(v) => {
                t.7 = v;
                return Some(t);
            },
            None => {
                t.7 = H::first();
            },
        }
        match self.6.next() {
            Some(v) => {
                t.6 = v;
                return Some(t);
            },
            None => {
                t.6 = G::first();
            },
        }
        match self.5.next() {
            Some(v) => {
                t.5 = v;
                return Some(t);
            },
            None => {
                t.5 = F::first();
            },
        }
        match self.4.next() {
            Some(v) => {
                t.4 = v;
                return Some(t);
            },
            None => {
                t.4 = E::first();
            },
        }
        match self.3.next() {
            Some(v) => {
                t.3 = v;
                return Some(t);
            },
            None => {
                t.3 = D::first();
            },
        }
        match self.2.next() {
            Some(v) => {
                t.2 = v;
                return Some(t);
            },
            None => {
                t.2 = C::first();
            },
        }
        match self.1.next() {
            Some(v) => {
                t.1 = v;
                return Some(t);
            },
            None => {
                t.1 = B::first();
            },
        }
        match self.0.next() {
            Some(v) => {
                t.0 = v;
                return Some(t);
            },
            None => {
                t.0 = A::first();
            },
        }
        None
    }
}

impl<A: Next + First + Copy, B: Next + First + Copy, C: Next + First + Copy, D: Next + First + Copy, E: Next + First + Copy, F: Next + First + Copy, G: Next + First + Copy, H: Next + First + Copy, I: Next + First + Copy> First for (A, B, C, D, E, F, G, H, I) {
    open spec fn first_spec() -> Self {
        (A::first_spec(), B::first_spec(), C::first_spec(), D::first_spec(), E::first_spec(), F::first_spec(), G::first_spec(), H::first_spec(), I::first_spec())
    }

    fn first() -> (r: Self) {
        (A::first(), B::first(), C::first(), D::first(), E::first(), F::first(), G::first(), H::first(), I::first())
    }
}

impl<A: Next + First + Copy, B: Next + First + Copy, C: Next + First + Copy, D: Next + First + Copy, E: Next + First + Copy, F: Next + First + Copy, G: Next + First + Copy, H: Next + First + Copy, I: Next + First + Copy, J: Next + First + Copy> Next for (A, B, C, D, E, F, G, H, I, J) {
    /// The last component that has a next value advances; every component
    /// after it resets to its first value; the ones before it are kept.
    open spec fn is_next(&self, r: Option<Self>) -> bool {
        match r {
            Some(t) => {
            ||| (self.0.is_next(Some(t.0)) && self.1.is_next(None) && t.1 == B::first_spec() && self.2.is_next(None) && t.2 == C::first_spec() && self.3.is_next(None) && t.3 == D::first_spec() && self.4.is_next(None) && t.4 == E::first_spec() && self.5.is_next(None) && t.5 == F::first_spec() && self.6.is_next(None) && t.6 == G::first_spec() && self.7.is_next(None) && t.7 == H::first_spec() && self.8.is_next(None) && t.8 == I::first_spec() && self.9.is_next(None) && t.9 == J::first_spec())
            ||| (t.0 == self.0 && self.1.is_next(Some(t.1)) && self.2.is_next(None) && t.2 == C::first_spec() && self.3.is_next(None) && t.3 == D::first_spec() && self.4.is_next(None) && t.4 == E::first_spec() && self.5.is_next(None) && t.5 == F::first_spec() && self.6.is_next(None) && t.6 == G::first_spec() && self.7.is_next(None) && t.7 == H::first_spec() && self.8.is_next(None) && t.8 == I::first_spec() && self.9.is_next(None) && t.9 == J::first_spec())
            ||| (t.0 == self.0 && t.1 == self.1 && self.2.is_next(Some(t.2)) && self.3.is_next(None) && t.3 == D::first_spec() && self.4.is_next(None) && t.4 == E::first_spec() && self.5.is_next(None) && t.5 == F::first_spec() && self.6.is_next(None) && t.6 == G::first_spec() && self.7.is_next(None) && t.7 == H::first_spec() && self.8.is_next(None) && t.8 == I::first_spec() && self.9.is_next(None) && t.9 == J::first_spec())
            ||| (t.0 == self.0 && t.1 == self.1 && t.2 == self.2 && self.3.is_next(Some(t.3)) && self.4.is_next(None) && t.4 == E::first_spec() && self.5.is_next(None) && t.5 == F::first_spec() && self.6.is_next(None) && t.6 == G::first_spec() && self.7.is_next(None) && t.7 == H::first_spec() && self.8.is_next(None) && t.8 == I::first_spec() && self.9.is_next(None) && t.9 == J::first_spec())
            ||| (t.0 == self.0 && t.1 == self.1 && t.2 == self.2 && t.3 == self.3 && self.4.is_next(Some(t.4)) && self.5.is_next(None) && t.5 == F::first_spec() && self.6.is_next(None) && t.6 == G::first_spec() && self.7.is_next(None) && t.7 == H::first_spec() && self.8.is_next(None) && t.8 == I::first_spec() && self.9.is_next(None) && t.9 == J::first_spec())
            ||| (t.0 == self.0 && t.1 == self.1 && t.2 == self.2 && t.3 == self.3 && t.4 == self.4 && self.5.is_next(Some(t.5)) && self.6.is_next(None) && t.6 == G::first_spec() && self.7.is_next(None) && t.7 == H::first_spec() && self.8.is_next(None) && t.8 == I::first_spec() && self.9.is_next(None) && t.9 == J::first_spec())
            ||| (t.0 == self.0 && t.1 == self.1 && t.2 == self.2 && t.3 == self.3 && t.4 == self.4 && t.5 == self.5 && self.6.is_next(Some(t.6)) && self.7.is_next(None) && t.7 == H::first_spec() && self.8.is_next(None) && t.8 == I::first_spec() && self.9.is_next(None) && t.9 == J::first_spec())
            ||| (t.0 == self.0 && t.1 == self.1 && t.2 == self.2 && t.3 == self.3 && t.4 == self.4 && t.5 == self.5 && t.6 == self.6 && self.7.is_next(Some(t.7)) && self.8.is_next(None) && t.8 == I::first_spec() && self.9.is_next(None) && t.9 == J::first_spec())
            ||| (t.0 == self.0 && t.1 == self.1 && t.2 == self.2 && t.3 == self.3 && t.4 == self.4 && t.5 == self.5 && t.6 == self.6 && t.7 == self.7 && self.8.is_next(Some(t.8)) && self.9.is_next(None) && t.9 == J::first_spec())
            ||| (t.0 == self.0 && t.1 == self.1 && t.2 == self.2 && t.3 == self.3 && t.4 == self.4 && t.5 == self.5 && t.6 == self.6 && t.7 == self.7 && t.8 == self.8 && self.9.is_next(Some(t.9)))
            },
            None => self.0.is_next(None) && self.1.is_next(None) && self.2.is_next(None) && self.3.is_next(None) && self.4.is_next(None) && self.5.is_next(None) && self.6.is_next(None) && self.7.is_next(None) && self.8.is_next(None) && self.9.is_next(None),
        }
    }

    fn next(&self) -> (r: Option<Self>) {
        let mut t = *self;
        match self.9.next() {
            Some(v) => {
                t.9 = v;
                return Some(t);
            },
            None => {
                t.9 = J::first();
            },
        }
        match self.8.next() {
            Some(v) => {
                t.8 = v;
                return Some(t);
            },
            None => {
                t.8 = I::first();
            },
        }
        match self.7.next() {
            Some(v) => {
                t.7 = v;
                return Some(t);
            },
            None => {
                t.7 = H::first();
            },
        }
        match self.6.next() {
            Some(v) => {
                t.6 = v;
                return Some(t);
            },
            None => {
                t.6 = G::first();
            },
        }
        match self.5.next() {
            Some(v) => {
                t.5 = v;
                return Some(t);
            },
            None => {
                t.5 = F::first();
            },
        }
        match self.4.next() {
            Some(v) => {
                t.4 = v;
                return Some(t);
            },
            None => {
                t.4 = E::first();
            },
        }
        match self.3.next() {
            Some(v) => {
                t.3 = v;
                return Some(t);
            },
            None => {
                t.3 = D::first();
            },
        }
        match self.2.next() {
            Some(v) => {
                t.2 = v;
                return Some(t);
            },
            None => {
                t.2 = C::first();
            },
        }
        match self.1.next() {
            Some(v) => {
                t.1 = v;
                return Some(t);
            },
            None => {
                t.1 = B::first();
            },
        }
        match self.0.next() {
            Some(v) => {
                t.0 = v;
                return Some(t);
            },
            None => {
                t.0 = A::first();
            },
        }
        None
    }
}

impl<A: Next + First + Copy, B: Next + First + Copy, C: Next + First + Copy, D: Next + First + Copy, E: Next + First + Copy, F: Next + First + Copy, G: Next + First + Copy, H: Next + First + Copy, I: Next + First + Copy, J: Next + First + Copy> First for (A, B, C, D, E, F, G, H, I, J) {
    open spec fn first_spec() -> Self {
        (A::first_spec(), B::first_spec(), C::first_spec(), D::first_spec(), E::first_spec(), F::first_spec(), G::first_spec(), H::first_spec(), I::first_spec(), J::first_spec())
    }

    fn first() -> (r: Self) {
        (A::first(), B::first(), C::first(), D::first(), E::first(), F::first(), G::first(), H::first(), I::first(), J::first())
    }
}

impl<A: Next + First + Copy, B: Next + First + Copy, C: Next + First + Copy, D: Next + First + Copy, E: Next + First + Copy, F: Next + First + Copy, G: Next + First + Copy, H: Next + First + Copy, I: Next + First + Copy, J: Next + First + Copy, K: Next + First + Copy> Next for (A, B, C, D, E, F, G, H, I, J, K) {
    /// The last component that has a next value advances; every component
    /// after it resets to its first value; the ones before it are kept.
    open spec fn is_next(&self, r: Option<Self>) -> bool {
        match r {
            Some(t) => {
            ||| (self.0.is_next(Some(t.0)) && self.1.is_next(None) && t.1 == B::first_spec() && self.2.is_next(None) && t.2 == C::first_spec() && self.3.is_next(None) && t.3 == D::first_spec() && self.4.is_next(None) && t.4 == E::first_spec() && self.5.is_next(None) && t.5 == F::first_spec() && self.6.is_next(None) && t.6 == G::first_spec() && self.7.is_next(None) && t.7 == H::first_spec() && self.8.is_next(None) && t.8 == I::first_spec() && self.9.is_next(None) && t.9 == J::first_spec() && self.10.is_next(None) && t.10 == K::first_spec())
            ||| (t.0 == self.0 && self.1.is_next(Some(t.1)) && self.2.is_next(None) && t.2 == C::first_spec() && self.3.is_next(None) && t.3 == D::first_spec() && self.4.is_next(None) && t.4 == E::first_spec() && self.5.is_next(None) && t.5 == F::first_spec() && self.6.is_next(None) && t.6 == G::first_spec() && self.7.is_next(None) && t.7 == H::first_spec() && self.8.is_next(None) && t.8 == I::first_spec() && self.9.is_next(None) && t.9 == J::first_spec() && self.10.is_next(None) && t.10 == K::first_spec())
            ||| (t.0 == self.0 && t.1 == self.1 && self.2.is_next(Some(t.2)) && self.3.is_next(None) && t.3 == D::first_spec() && self.4.is_next(None) && t.4 == E::first_spec() && self.5.is_next(None) && t.5 == F::first_spec() && self.6.is_next(None) && t.6 == G::first_spec() && self.7.is_next(None) && t.7 == H::first_spec() && self.8.is_next(None) && t.8 == I::first_spec() && self.9.is_next(None) && t.9 == J::first_spec() && self.10.is_next(None) && t.10 == K::first_spec())
            ||| (t.0 == self.0 && t.1 == self.1 && t.2 == self.2 && self.3.is_next(Some(t.3)) && self.4.is_next(None) && t.4 == E::first_spec() && self.5.is_next(None) && t.5 == F::first_spec() && self.6.is_next(None) && t.6 == G::first_spec() && self.7.is_next(None) && t.7 == H::first_spec() && self.8.is_next(None) && t.8 == I::first_spec() && self.9.is_next(None) && t.9 == J::first_spec() && self.10.is_next(None) && t.10 == K::first_spec())
            ||| (t.0 == self.0 && t.1 == self.1 && t.2 == self.2 && t.3 == self.3 && self.4.is_next(Some(t.4)) && self.5.is_next(None) && t.5 == F::first_spec() && self.6.is_next(None) && t.6 == G::first_spec() && self.7.is_next(None) && t.7 == H::first_spec() && self.8.is_next(None) && t.8 == I::first_spec() && self.9.is_next(None) && t.9 == J::first_spec() && self.10.is_next(None) && t.10 == K::first_spec())
            ||| (t.0 == self.0 && t.1 == self.1 && t.2 == self.2 && t.3 == self.3 && t.4 == self.4 && self.5.is_next(Some(t.5)) && self.6.is_next(None) && t.6 == G::first_spec() && self.7.is_next(None) && t.7 == H::first_spec() && self.8.is_next(None) && t.8 == I::first_spec() && self.9.is_next(None) && t.9 == J::first_spec() && self.10.is_next(None) && t.10 == K::first_spec())
            ||| (t.0 == self.0 && t.1 == self.1 && t.2 == self.2 && t.3 == self.3 && t.4 == self.4 && t.5 == self.5 && self.6.is_next(Some(t.6)) && self.7.is_next(None) && t.7 == H::first_spec() && self.8.is_next(None) && t.8 == I::first_spec() && self.9.is_next(None) && t.9 == J::first_spec() && self.10.is_next(None) && t.10 == K::first_spec())
            ||| (t.0 == self.0 && t.1 == self.1 && t.2 == self.2 && t.3 == self.3 && t.4 == self.4 && t.5 == self.5 && t.6 == self.6 && self.7.is_next(Some(t.7)) && self.8.is_next(None) && t.8 == I::first_spec() && self.9.is_next(None) && t.9 == J::first_spec() && self.10.is_next(None) && t.10 == K::first_spec())
            ||| (t.0 == self.0 && t.1 == self.1 && t.2 == self.2 && t.3 == self.3 && t.4 == self.4 && t.5 == self.5 && t.6 == self.6 && t.7 == self.7 && self.8.is_next(Some(t.8)) && self.9.is_next(None) && t.9 == J::first_spec() && self.10.is_next(None) && t.10 == K::first_spec())
            ||| (t.0 == self.0 && t.1 == self.1 && t.2 == self.2 && t.3 == self.3 && t.4 == self.4 && t.5 == self.5 && t.6 == self.6 && t.7 == self.7 && t.8 == self.8 && self.9.is_next(Some(t.9)) && self.10.is_next(None) && t.10 == K::first_spec())
            ||| (t.0 == self.0 && t.1 == self.1 && t.2 == self.2 && t.3 == self.3 && t.4 == self.4 && t.5 == self.5 && t.6 == self.6 && t.7 == self.7 && t.8 == self.8 && t.9 == self.9 && self.10.is_next(Some(t.10)))
            },
            None => self.0.is_next(None) && self.1.is_next(None) && self.2.is_next(None) && self.3.is_next(None) && self.4.is_next(None) && self.5.is_next(None) && self.6.is_next(None) && self.7.is_next(None) && self.8.is_next(None) && self.9.is_next(None) && self.10.is_next(None),
        }
    }

    fn next(&self) -> (r: Option<Self>) {
        let mut t = *self;
        match self.10.next() {
            Some(v) => {
                t.10 = v;
                return Some(t);
            },
            None => {
                t.10 = K::first();
            },
        }
        match self.9.next() {
            Some(v) => {
                t.9 = v;
                return Some(t);
            },
            None => {
                t.9 = J::first();
            },
        }
        match self.8.next() {
            Some(v) => {
                t.8 = v;
                return Some(t);
            },
            None => {
                t.8 = I::first();
            },
        }
        match self.7.next() {
            Some(v) => {
                t.7 = v;
                return Some(t);
            },
            None => {
                t.7 = H::first();
            },
        }
        match self.6.next() {
            Some(v) => {
                t.6 = v;
                return Some(t);
            },
            None => {
                t.6 = G::first();
            },
        }
        match self.5.next() {
            Some(v) => {
                t.5 = v;
                return Some(t);
            },
            None => {
                t.5 = F::first();
            },
        }
        match self.4.next() {
            Some(v) => {
                t.4 = v;
                return Some(t);
            },
            None => {
                t.4 = E::first();
            },
        }
        match self.3.next() {
            Some(v) => {
                t.3 = v;
                return Some(t);
            },
            None => {
                t.3 = D::first();
            },
        }
        match self.2.next() {
            Some(v) => {
                t.2 = v;
                return Some(t);
            },
            None => {
                t.2 = C::first();
            },
        }
        match self.1.next() {
            Some(v) => {
                t.1 = v;
                return Some(t);
            },
            None => {
                t.1 = B::first();
            },
        }
        match self.0.next() {
            Some(v) => {
                t.0 = v;
                return Some(t);
            },
            None => {
                t.0 = A::first();
            },
        }
        None
    }
}

impl<A: Next + First + Copy, B: Next + First + Copy, C: Next + First + Copy, D: Next + First + Copy, E: Next + First + Copy, F: Next + First + Copy, G: Next + First + Copy, H: Next + First + Copy, I: Next + First + Copy, J: Next + First + Copy, K: Next + First + Copy> First for (A, B, C, D, E, F, G, H, I, J, K) {
    open spec fn first_spec() -> Self {
        (A::first_spec(), B::first_spec(), C::first_spec(), D::first_spec(), E::first_spec(), F::first_spec(), G::first_spec(), H::first_spec(), I::first_spec(), J::first_spec(), K::first_spec())
    }

    fn first() -> (r: Self) {
        (A::first(), B::first(), C::first(), D::first(), E::first(), F::first(), G::first(), H::first(), I::first(), J::first(), K::first())
    }
}

impl<A: Next + First + Copy, B: Next + First + Copy, C: Next + First + Copy, D: Next + First + Copy, E: Next + First + Copy, F: Next + First + Copy, G: Next + First + Copy, H: Next + First + Copy, I: Next + First + Copy, J: Next + First + Copy, K: Next + First + Copy, L: Next + First + Copy> Next for (A, B, C, D, E, F, G, H, I, J, K, L) {
    /// The last component that has a next value advances; every component
    /// after it resets to its first value; the ones before it are kept.
    open spec fn is_next(&self, r: Option<Self>) -> bool {
        match r {
            Some(t) => {
            ||| (self.0.is_next(Some(t.0)) && self.1.is_next(None) && t.1 == B::first_spec() && self.2.is_next(None) && t.2 == C::first_spec() && self.3.is_next(None) && t.3 == D::first_spec() && self.4.is_next(None) && t.4 == E::first_spec() && self.5.is_next(None) && t.5 == F::first_spec() && self.6.is_next(None) && t.6 == G::first_spec() && self.7.is_next(None) && t.7 == H::first_spec() && self.8.is_next(None) && t.8 == I::first_spec() && self.9.is_next(None) && t.9 == J::first_spec() && self.10.is_next(None) && t.10 == K::first_spec() && self.11.is_next(None) && t.11 == L::first_spec())
            ||| (t.0 == self.0 && self.1.is_next(Some(t.1)) && self.2.is_next(None) && t.2 == C::first_spec() && self.3.is_next(None) && t.3 == D::first_spec() && self.4.is_next(None) && t.4 == E::first_spec() && self.5.is_next(None) && t.5 == F::first_spec() && self.6.is_next(None) && t.6 == G::first_spec() && self.7.is_next(None) && t.7 == H::first_spec() && self.8.is_next(None) && t.8 == I::first_spec() && self.9.is_next(None) && t.9 == J::first_spec() && self.10.is_next(None) && t.10 == K::first_spec() && self.11.is_next(None) && t.11 == L::first_spec())
            ||| (t.0 == self.0 && t.1 == self.1 && self.2.is_next(Some(t.2)) && self.3.is_next(None) && t.3 == D::first_spec() && self.4.is_next(None) && t.4 == E::first_spec() && self.5.is_next(None) && t.5 == F::first_spec() && self.6.is_next(None) && t.6 == G::first_spec() && self.7.is_next(None) && t.7 == H::first_spec() && self.8.is_next(None) && t.8 == I::first_spec() && self.9.is_next(None) && t.9 == J::first_spec() && self.10.is_next(None) && t.10 == K::first_spec() && self.11.is_next(None) && t.11 == L::first_spec())
            ||| (t.0 == self.0 && t.1 == self.1 && t.2 == self.2 && self.3.is_next(Some(t.3)) && self.4.is_next(None) && t.4 == E::first_spec() && self.5.is_next(None) && t.5 == F::first_spec() && self.6.is_next(None) && t.6 == G::first_spec() && self.7.is_next(None) && t.7 == H::first_spec() && self.8.is_next(None) && t.8 == I::first_spec() && self.9.is_next(None) && t.9 == J::first_spec() && self.10.is_next(None) && t.10 == K::first_spec() && self.11.is_next(None) && t.11 == L::first_spec())
            ||| (t.0 == self.0 && t.1 == self.1 && t.2 == self.2 && t.3 == self.3 && self.4.is_next(Some(t.4)) && self.5.is_next(None) && t.5 == F::first_spec() && self.6.is_next(None) && t.6 == G::first_spec() && self.7.is_next(None) && t.7 == H::first_spec() && self.8.is_next(None) && t.8 == I::first_spec() && self.9.is_next(None) && t.9 == J::first_spec() && self.10.is_next(None) && t.10 == K::first_spec() && self.11.is_next(None) && t.11 == L::first_spec())
            ||| (t.0 == self.0 && t.1 == self.1 && t.2 == self.2 && t.3 == self.3 && t.4 == self.4 && self.5.is_next(Some(t.5)) && self.6.is_next(None) && t.6 == G::first_spec() && self.7.is_next(None) && t.7 == H::first_spec() && self.8.is_next(None) && t.8 == I::first_spec() && self.9.is_next(None) && t.9 == J::first_spec() && self.10.is_next(None) && t.10 == K::first_spec() && self.11.is_next(None) && t.11 == L::first_spec())
            ||| (t.0 == self.0 && t.1 == self.1 && t.2 == self.2 && t.3 == self.3 && t.4 == self.4 && t.5 == self.5 && self.6.is_next(Some(t.6)) && self.7.is_next(None) && t.7 == H::first_spec() && self.8.is_next(None) && t.8 == I::first_spec() && self.9.is_next(None) && t.9 == J::first_spec() && self.10.is_next(None) && t.10 == K::first_spec() && self.11.is_next(None) && t.11 == L::first_spec())
            ||| (t.0 == self.0 && t.1 == self.1 && t.2 == self.2 && t.3 == self.3 && t.4 == self.4 && t.5 == self.5 && t.6 == self.6 && self.7.is_next(Some(t.7)) && self.8.is_next(None) && t.8 == I::first_spec() && self.9.is_next(None) && t.9 == J::first_spec() && self.10.is_next(None) && t.10 == K::first_spec() && self.11.is_next(None) && t.11 == L::first_spec())
            ||| (t.0 == self.0 && t.1 == self.1 && t.2 == self.2 && t.3 == self.3 && t.4 == self.4 && t.5 == self.5 && t.6 == self.6 && t.7 == self.7 && self.8.is_next(Some(t.8)) && self.9.is_next(None) && t.9 == J::first_spec() && self.10.is_next(None) && t.10 == K::first_spec() && self.11.is_next(None) && t.11 == L::first_spec())
            ||| (t.0 == self.0 && t.1 == self.1 && t.2 == self.2 && t.3 == self.3 && t.4 == self.4 && t.5 == self.5 && t.6 == self.6 && t.7 == self.7 && t.8 == self.8 && self.9.is_next(Some(t.9)) && self.10.is_next(None) && t.10 == K::first_spec() && self.11.is_next(None) && t.11 == L::first_spec())
            ||| (t.0 == self.0 && t.1 == self.1 && t.2 == self.2 && t.3 == self.3 && t.4 == self.4 && t.5 == self.5 && t.6 == self.6 && t.7 == self.7 && t.8 == self.8 && t.9 == self.9 && self.10.is_next(Some(t.10)) && self.11.is_next(None) && t.11 == L::first_spec())
            ||| (t.0 == self.0 && t.1 == self.1 && t.2 == self.2 && t.3 == self.3 && t.4 == self.4 && t.5 == self.5 && t.6 == self.6 && t.7 == self.7 && t.8 == self.8 && t.9 == self.9 && t.10 == self.10 && self.11.is_next(Some(t.11)))
            },
            None => self.0.is_next(None) && self.1.is_next(None) && self.2.is_next(None) && self.3.is_next(None) && self.4.is_next(None) && self.5.is_next(None) && self.6.is_next(None) && self.7.is_next(None) && self.8.is_next(None) && self.9.is_next(None) && self.10.is_next(None) && self.11.is_next(None),
        }
    }

    fn next(&self) -> (r: Option<Self>) {
        let mut t = *self;
        match self.11.next() {
            Some(v) => {
                t.11 = v;
                return Some(t);
            },
            None => {
                t.11 = L::first();
            },
        }
        match self.10.next() {
            Some(v) => {
                t.10 = v;
                return Some(t);
            },
            None => {
                t.10 = K::first();
            },
        }
        match self.9.next() {
            Some(v) => {
                t.9 = v;
                return Some(t);
            },
            None => {
                t.9 = J::first();
            },
        }
        match self.8.next() {
            Some(v) => {
                t.8 = v;
                return Some(t);
            },
            None => {
                t.8 = I::first();
            },
        }
        match self.7.next() {
            Some(v) => {
                t.7 = v;
                return Some(t);
            },
            None => {
                t.7 = H::first();
            },
        }
        match self.6.next() {
            Some(v) => {
                t.6 = v;
                return Some(t);
            },
            None => {
                t.6 = G::first();
            },
        }
        match self.5.next() {
            Some(v) => {
                t.5 = v;
                return Some(t);
            },
            None => {
                t.5 = F::first();
            },
        }
        match self.4.next() {
            Some(v) => {
                t.4 = v;
                return Some(t);
            },
            None => {
                t.4 = E::first();
            },
        }
        match self.3.next() {
            Some(v) => {
                t.3 = v;
                return Some(t);
            },
            None => {
                t.3 = D::first();
            },
        }
        match self.2.next() {
            Some(v) => {
                t.2 = v;
                return Some(t);
            },
            None => {
                t.2 = C::first();
            },
        }
        match self.1.next() {
            Some(v) => {
                t.1 = v;
                return Some(t);
            },
            None => {
                t.1 = B::first();
            },
        }
        match self.0.next() {
            Some(v) => {
                t.0 = v;
                return Some(t);
            },
            None => {
                t.0 = A::first();
            },
        }
        None
    }
}

impl<A: Next + First + Copy, B: Next + First + Copy, C: Next + First + Copy, D: Next + First + Copy, E: Next + First + Copy, F: Next + First + Copy, G: Next + First + Copy, H: Next + First + Copy, I: Next + First + Copy, J: Next + First + Copy, K: Next + First + Copy, L: Next + First + Copy> First for (A, B, C, D, E, F, G, H, I, J, K, L) {
    open spec fn first_spec() -> Self {
        (A::first_spec(), B::first_spec(), C::first_spec(), D::first_spec(), E::first_spec(), F::first_spec(), G::first_spec(), H::first_spec(), I::first_spec(), J::first_spec(), K::first_spec(), L::first_spec())
    }

    fn first() -> (r: Self) {
        (A::first(), B::first(), C::first(), D::first(), E::first(), F::first(), G::first(), H::first(), I::first(), J::first(), K::first(), L::first())
    }
}

/// Holds when `b` is the successor of `a` in which the component at `k`
/// advanced: the ones after `k` had no next value and reset to their first
/// value, and the ones before `k` are unchanged.
pub open spec fn seq_advanced_at<T: Next + First>(a: Seq<T>, b: Seq<T>, k: int) -> bool {
    &&& 0 <= k < a.len()
    &&& b.len() == a.len()
    &&& a[k].is_next(Some(b[k]))
    &&& forall|j: int| 0 <= j < k ==> b[j] == a[j]
    &&& forall|j: int| k < j < a.len() ==> #[trigger] a[j].is_next(None)
    &&& forall|j: int| k < j < a.len() ==> #[trigger] b[j] == T::first_spec()
}

/// Holds when `b` is the lexicographic successor of `a`.
pub open spec fn seq_successor<T: Next + First>(a: Seq<T>, b: Seq<T>) -> bool {
    exists|k: int| seq_advanced_at(a, b, k)
}

impl<T: Next + First + Copy, const N: usize> Next for [T; N] {
    /// Lexicographic successor: the last element that has a next value
    /// advances and every element after it resets to its first value.
    open spec fn is_next(&self, r: Option<Self>) -> bool {
        match r {
            Some(b) => seq_successor(self@, b@),
            None => forall|j: int| 0 <= j < N ==> self@[j].is_next(None),
        }
    }

    fn next(&self) -> (r: Option<Self>) {
        broadcast use vstd::array::lemma_array_index, vstd::array::array_len_matches_n;

        let mut return_key: [T; N] = *self;
        let mut i: usize = N;
        while i > 0
            invariant
                i <= N,
                self@.len() == N,
                return_key@.len() == N,
                forall|j: int| 0 <= j < i ==> return_key@[j] == self@[j],
                forall|j: int| i <= j < N ==> #[trigger] self@[j].is_next(None),
                forall|j: int| i <= j < N ==> #[trigger] return_key@[j] == T::first_spec(),
            decreases i,
        {
            i = i - 1;
            let cur = self[i];
            match cur.next() {
                Some(new_value) => {
                    return_key[i] = new_value;
                    assert(seq_advanced_at(self@, return_key@, i as int));
                    return Some(return_key);
                },
                None => {
                    return_key[i] = T::first();
                },
            }
        }
        None
    }
}

} // verus!
