//! Proof-of-existence timestamping core for a replicated state machine.
//!
//! Clients submit a content hash; the service associates that content with a
//! single consensus-agreed point in time, exactly once. Every replica applies
//! the same ordered transaction log and must reach bit-identical state, so the
//! stored time comes exclusively from the platform's time oracle, never from a
//! local clock.

use vstd::prelude::*;

pub mod api;
pub mod crypto;
pub mod hexcode;
pub mod laws;
pub mod service;
pub mod storage;
pub mod tx;

verus! {

/// Service identifier under which the platform registers this service.
pub const SERVICE_ID: u16 = 1;

/// Transaction type identifier for `TxCreateTimestamp`.
pub const TX_CREATE_TIMESTAMP_ID: u16 = 1;

} // verus!
