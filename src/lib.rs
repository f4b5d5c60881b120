//! Proof-of-work mining over a small block record: a canonical JSON encoding,
//! a SHA-256 digest, a prefix test, and several search strategies whose results
//! are specified exactly.
use vstd::prelude::*;

pub mod block;
pub mod encoding;
pub mod mining;

verus! {

} // verus!
