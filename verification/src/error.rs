//! The conditions under which an operation of the core gives up. None of
//! them is fatal: each is confined to one timeline or one note.

use vstd::prelude::*;

verus! {

#[derive(Clone, Copy, Debug, PartialEq, Eq, Structural)]
pub enum Error {
    /// A timeline was polled before it had a subscription with the store.
    NoActiveSubscription,
    /// The store could not answer a lookup that the operation needs.
    StoreQueryFailure,
}

impl Error {
    /// A short description for the log.
    pub fn message(&self) -> (s: &'static str)
        ensures
            s@ == (match *self {
                Error::NoActiveSubscription => "subscription not active in timeline"@,
                Error::StoreQueryFailure => "store query failed"@,
            }),
    {
        match self {
            Error::NoActiveSubscription => "subscription not active in timeline",
            Error::StoreQueryFailure => "store query failed",
        }
    }
}

} // verus!
