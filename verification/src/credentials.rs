//! Interpretation of credential-store outcomes.
//!
//! The token that authenticates the runner is kept in the platform's secret
//! store, a get/set/delete service the driver talks to.  The rule here is
//! the store's one subtlety: "no entry" is a normal empty result for a read
//! and for a delete, never an error; every other failure is surfaced to the
//! caller as its descriptive text.
use vstd::prelude::*;

verus! {

/// What a read of the stored token came back with.
pub enum StoreReadOutcome {
    /// The stored token.
    Found(Vec<u8>),
    /// No entry exists under the runner's key.
    NoEntry,
    /// The store failed; the payload is the failure text.
    Failed(Vec<u8>),
}

/// What a write or delete of the stored token came back with.
pub enum StoreWriteOutcome {
    /// The operation took effect.
    Done,
    /// No entry exists under the runner's key (a delete of nothing).
    NoEntry,
    /// The store failed; the payload is the failure text.
    Failed(Vec<u8>),
}

/// What a token read yields: the token when one is stored, nothing when no
/// entry exists — that is not an error — and the failure text otherwise.
pub fn interpret_token_read(outcome: StoreReadOutcome) -> (r: Result<Option<Vec<u8>>, Vec<u8>>)
    ensures
        match outcome {
            StoreReadOutcome::Found(t) => r matches Ok(Some(v)) && v == t,
            StoreReadOutcome::NoEntry => r == Ok::<Option<Vec<u8>>, Vec<u8>>(None),
            StoreReadOutcome::Failed(e) => r matches Err(v) && v == e,
        },
{
    match outcome {
        StoreReadOutcome::Found(t) => Ok(Some(t)),
        StoreReadOutcome::NoEntry => Ok(None),
        StoreReadOutcome::Failed(e) => Err(e),
    }
}

/// What a token save yields: success, or the failure text.
pub fn interpret_token_save(outcome: StoreWriteOutcome) -> (r: Result<(), Vec<u8>>)
    ensures
        match outcome {
            StoreWriteOutcome::Done => r is Ok,
            StoreWriteOutcome::NoEntry => r is Ok,
            StoreWriteOutcome::Failed(e) => r matches Err(v) && v == e,
        },
{
    match outcome {
        StoreWriteOutcome::Done => Ok(()),
        StoreWriteOutcome::NoEntry => Ok(()),
        StoreWriteOutcome::Failed(e) => Err(e),
    }
}

/// What a token delete yields: success, also when there was nothing to
/// delete, or else the failure text.
pub fn interpret_token_clear(outcome: StoreWriteOutcome) -> (r: Result<(), Vec<u8>>)
    ensures
        match outcome {
            StoreWriteOutcome::Done => r is Ok,
            StoreWriteOutcome::NoEntry => r is Ok,
            StoreWriteOutcome::Failed(e) => r matches Err(v) && v == e,
        },
{
    match outcome {
        StoreWriteOutcome::Done => Ok(()),
        StoreWriteOutcome::NoEntry => Ok(()),
        StoreWriteOutcome::Failed(e) => Err(e),
    }
}

} // verus!
