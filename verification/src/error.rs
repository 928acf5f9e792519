//! The library's error type.
use vstd::prelude::*;

use crate::client::experimental::StoreOp;
use crate::store::StoreError;

verus! {

/// Errors returned by the library's operations.
#[derive(Debug, PartialEq, Eq)]
pub enum Error {
    /// An arithmetic result did not fit in its type.
    Overflow,
    /// A division had a zero divisor.
    DivideByZero,
    /// A coin operation was refused; the text says why.
    Coins(String),
    /// A call could not be performed; the text says why.
    Call(String),
    /// A client operation failed; the text says why.
    Client(String),
    /// The signer of a call could not be determined.
    Signer(String),
    /// An application-level failure; the text says why.
    App(String),
    /// An address string could not be parsed; the text says why.
    Address(String),
    /// A client's store could not answer an operation locally; the operation
    /// is handed back so that its data can be fetched.
    ClientStore {
        /// The operation that could not be answered.
        store_op: StoreOp,
    },
    /// A partially known store could not answer a read.
    StoreErr(StoreError),
    /// The ABCI state machine refused a request; the text says why.
    Abci(String),
    /// secp256k1 refused a key; the text says why.
    Secp256k1(String),
    /// A text is not a decimal number.
    InvalidDecimal,
}

/// The library's result type.
pub type Result<T> = core::result::Result<T, Error>;

/// The text an error is reported with: its message where it carries one,
/// otherwise a fixed description of its kind.
pub open spec fn error_text(e: Error) -> Seq<char> {
    match e {
        Error::Overflow => "Overflow"@,
        Error::DivideByZero => "Divide by zero"@,
        Error::Coins(m) => m@,
        Error::Call(m) => m@,
        Error::Client(m) => m@,
        Error::Signer(m) => m@,
        Error::App(m) => m@,
        Error::Address(m) => m@,
        Error::ClientStore { .. } => "Client store operation could not be answered"@,
        Error::StoreErr(_) => "Store data is not known"@,
        Error::Abci(m) => m@,
        Error::Secp256k1(m) => m@,
        Error::InvalidDecimal => "Invalid decimal"@,
    }
}

impl Error {
    /// The text the error is reported with.
    pub fn text(&self) -> (r: String)
        ensures
            r@ == error_text(*self),
    {
        match self {
            Error::Overflow => String::from_str("Overflow"),
            Error::DivideByZero => String::from_str("Divide by zero"),
            Error::Coins(m) => m.clone(),
            Error::Call(m) => m.clone(),
            Error::Client(m) => m.clone(),
            Error::Signer(m) => m.clone(),
            Error::App(m) => m.clone(),
            Error::Address(m) => m.clone(),
            Error::ClientStore { .. } => String::from_str("Client store operation could not be answered"),
            Error::StoreErr(_) => String::from_str("Store data is not known"),
            Error::Abci(m) => m.clone(),
            Error::Secp256k1(m) => m.clone(),
            Error::InvalidDecimal => String::from_str("Invalid decimal"),
        }
    }
}

} // verus!

verus! {

/// `e` is a coin error with the message `msg`.
pub open spec fn is_coins_error(e: Error, msg: Seq<char>) -> bool {
    e matches Error::Coins(m) && m@ == msg
}

/// Builds a coin error with the given message.
pub fn coins_error(msg: &str) -> (e: Error)
    ensures
        is_coins_error(e, msg@),
{
    Error::Coins(msg.to_owned())
}

} // verus!

verus! {

/// `r` failed with a coin error with the message `msg`.
pub open spec fn fails_with<T>(r: Result<T>, msg: Seq<char>) -> bool {
    r matches Err(e) && is_coins_error(e, msg)
}

} // verus!
