//! Core of a background runner agent: it keeps one outbound connection to a
//! remote coordination service, authenticates, advertises local inference
//! capability, relays work requests to a local backend and sends the results
//! back.  This crate holds the verified logic: the wire codec, the
//! connection session state machine, the session manager and the
//! interpretation of backend and credential-store outcomes.  All I/O lives
//! outside, in a thin driver that feeds events in and carries actions out.
pub mod backend;
pub mod credentials;
pub mod json;
pub mod manager;
pub mod session;
pub mod wire;

use vstd::prelude::*;
use vstd::string::StringSliceAdditionalSpecFns;

verus! {

/// Appends the bytes of a string literal to a byte buffer.
pub fn push_lit(out: &mut Vec<u8>, s: &str)
    ensures
        final(out)@ == old(out)@ + s.spec_bytes(),
{
    let mut bytes = s.as_bytes_vec();
    out.append(&mut bytes);
}

/// Copies a byte string.
pub fn copy_bytes(v: &Vec<u8>) -> (r: Vec<u8>)
    ensures
        r@ == v@,
{
    vstd::slice::slice_to_vec(v.as_slice())
}

} // verus!
