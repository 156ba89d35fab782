//! Bus arbitration: transaction-granular mutual exclusion for one shared
//! physical bus.
//!
//! Two logical devices that share a physical bus must never interleave the
//! bytes of their transactions. The arbiter serializes at transaction
//! granularity: a task acquires the bus for a whole transaction (a full log
//! store write or read, however many chunked transfers it spans) and
//! releases it unconditionally when the transaction completes or fails.
//! Cooperative tasks consult the arbiter before touching the bus; at most
//! one of them holds it at any instant.

use vstd::prelude::*;

verus! {

/// The exclusion state of one shared physical bus.
pub struct BusArbiter {
    held: bool,
}

impl BusArbiter {
    /// Whether some task currently holds the bus for a transaction.
    pub closed spec fn is_held(self) -> bool {
        self.held
    }

    /// A bus nobody holds yet.
    pub fn new() -> (r: Self)
        ensures
            !r.is_held(),
    {
        Self { held: false }
    }

    /// Ask for exclusive use of the bus for one whole transaction. The bus
    /// is granted exactly when nobody holds it; a task refused here must
    /// retry later rather than touch the bus.
    pub fn try_acquire(&mut self) -> (r: bool)
        ensures
            r <==> !old(self).is_held(),
            final(self).is_held(),
    {
        if self.held {
            false
        } else {
            self.held = true;
            true
        }
    }

    /// Give the bus back at the end of a transaction, whether it completed
    /// or failed; release is unconditional.
    pub fn release(&mut self)
        ensures
            !final(self).is_held(),
    {
        self.held = false;
    }
}

} // verus!
