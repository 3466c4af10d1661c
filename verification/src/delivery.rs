//! Deliveries: operations as they reach the ledger, one by one or in a
//! batch.

use vstd::prelude::*;
use crate::error::Error;
use crate::keys;
use crate::keys::PublicKey;
use crate::operation::HistoryDigests;
use crate::operation::Operation;
use crate::state::LedgerState;

verus! {

/// One operation as it reaches the ledger: with its author, its identifier
/// and the history digests that the store derived for it.
#[derive(Clone, Debug, PartialEq, Eq)]
pub struct Delivery {
    pub author: PublicKey,
    pub op_id: keys::Hash,
    pub op: Operation,
    pub digests: HistoryDigests,
}

/// The ledger after one delivery.
pub open spec fn deliver(s: LedgerState, d: Delivery) -> LedgerState {
    s.next(d.author, d.op_id, d.op, d.digests)
}

/// The ledger after the deliveries `ds`, in order.
pub open spec fn run(s: LedgerState, ds: Seq<Delivery>) -> LedgerState
    decreases ds.len(),
{
    if ds.len() == 0 {
        s
    } else {
        deliver(run(s, ds.drop_last()), ds.last())
    }
}

/// The ledger after the deliveries `ds`, in order, each applied only if the
/// ledger admits it when its turn comes.
pub open spec fn run_submitted(s: LedgerState, ds: Seq<Delivery>) -> LedgerState
    decreases ds.len(),
{
    if ds.len() == 0 {
        s
    } else {
        let d = ds.last();
        run_submitted(s, ds.drop_last()).submitted(d.author, d.op_id, d.op, d.digests)
    }
}

/// The replies to the deliveries `ds`, in order.
pub open spec fn replies_to(s: LedgerState, ds: Seq<Delivery>) -> Seq<Option<Result<(), Error>>>
    decreases ds.len(),
{
    if ds.len() == 0 {
        Seq::empty()
    } else {
        let d = ds.last();
        replies_to(s, ds.drop_last()).push(
            run_submitted(s, ds.drop_last()).reply(d.author, d.op_id, d.op),
        )
    }
}

/// Whether the ledger admits each of the deliveries `ds` when its turn comes.
pub open spec fn admissible(s: LedgerState, ds: Seq<Delivery>) -> bool
    decreases ds.len(),
{
    if ds.len() == 0 {
        true
    } else {
        let before = run(s, ds.drop_last());
        &&& admissible(s, ds.drop_last())
        &&& before.admits(ds.last().author, ds.last().op_id, ds.last().op)
        &&& before.has_room()
    }
}

} // verus!
