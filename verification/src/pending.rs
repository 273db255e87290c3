//! The lifecycle of one broadcast transaction, tracked to a fixed
//! confirmation depth.
//!
//! A [`PendingTransaction`] moves from submitted to confirming to either
//! confirmed or failed; terminal states are final, and the same handle is
//! never retried.  Success is declared exactly when the observed
//! confirmation count reaches the depth the handle was created with —
//! never before, and immediately once it does.

use vstd::prelude::*;

verus! {

/// Confirmation depth required of every state-mutating call.
pub const CONFIRMATION_DEPTH: u64 = 6;

/// Where a broadcast transaction stands.
#[derive(Clone, Copy, Debug, PartialEq, Eq, Structural)]
pub enum TxState {
    /// Broadcast, acknowledgement of acceptance still outstanding.
    Submitted,
    /// Accepted; confirmations are being counted.
    Confirming,
    /// At least the required confirmations were observed.  Terminal.
    Confirmed,
    /// Dropped or reverted.  Terminal.
    Failed,
}

/// A handle for one broadcast transaction: the confirmation depth it
/// needs, the confirmations observed so far, and its state.
#[derive(Clone, Copy, Debug, PartialEq, Eq, Structural)]
pub struct PendingTransaction {
    pub depth: u64,
    pub observed: u64,
    pub state: TxState,
}

/// What observing a confirmation count does to a confirming handle:
/// success exactly when the count reaches the depth.
pub open spec fn observe_result(tx: PendingTransaction, count: u64) -> (PendingTransaction, bool) {
    (
        PendingTransaction {
            depth: tx.depth,
            observed: count,
            state: if count >= tx.depth {
                TxState::Confirmed
            } else {
                TxState::Confirming
            },
        },
        count >= tx.depth,
    )
}

impl PendingTransaction {
    /// Confirmed or failed: no further transition.
    pub open spec fn is_terminal(&self) -> bool {
        self.state == TxState::Confirmed || self.state == TxState::Failed
    }

    /// A fresh handle for a just-broadcast transaction.
    pub fn submit(depth: u64) -> (r: Self)
        ensures
            r == (PendingTransaction { depth, observed: 0, state: TxState::Submitted }),
    {
        PendingTransaction { depth, observed: 0, state: TxState::Submitted }
    }

    /// The ledger acknowledged the broadcast: start counting.
    pub fn accept(&mut self)
        requires
            old(self).state == TxState::Submitted,
        ensures
            *final(self) == (PendingTransaction {
                depth: old(self).depth,
                observed: old(self).observed,
                state: TxState::Confirming,
            }),
    {
        self.state = TxState::Confirming;
    }

    /// Takes note of the confirmations observed so far and reports
    /// whether the transaction is now final: true exactly when the count
    /// has reached the required depth.
    pub fn observe(&mut self, count: u64) -> (confirmed: bool)
        requires
            old(self).state == TxState::Confirming,
        ensures
            (*final(self), confirmed) == observe_result(*old(self), count),
    {
        self.observed = count;
        if count >= self.depth {
            self.state = TxState::Confirmed;
            true
        } else {
            false
        }
    }

    /// The ledger reported the transaction dropped or reverted.
    pub fn mark_failed(&mut self)
        requires
            !old(self).is_terminal(),
        ensures
            *final(self) == (PendingTransaction {
                depth: old(self).depth,
                observed: old(self).observed,
                state: TxState::Failed,
            }),
    {
        self.state = TxState::Failed;
    }
}

/// Fixed-depth acknowledgement policy: a confirmation wait of depth `d`
/// never reports success while fewer than `d` confirmations have been
/// observed, and reports success immediately once `d` are.
pub proof fn lemma_confirmation_depth_policy(tx: PendingTransaction, count: u64)
    requires
        tx.state == TxState::Confirming,
    ensures
        observe_result(tx, count).1 <==> count >= tx.depth,
        count < tx.depth ==> observe_result(tx, count).0.state == TxState::Confirming,
        count >= tx.depth ==> observe_result(tx, count).0.state == TxState::Confirmed,
{
}

} // verus!
