//! Outcome record of a delivered operation.

use vstd::prelude::*;
use crate::keys;

verus! {

/// What the ledger remembers of a delivered operation: its identifier and
/// whether it was applied.
#[derive(Clone, Copy, Debug, PartialEq, Eq)]
pub struct TxMetaRecord {
    /// Identifier of the operation.
    pub tx_hash: keys::Hash,
    /// `true` if the operation was applied, `false` if it was refused.
    pub execution_status: bool,
}

impl TxMetaRecord {
    /// Creates a record.
    pub fn new(tx_hash: &keys::Hash, execution_status: bool) -> (r: TxMetaRecord)
        ensures
            r.tx_hash == *tx_hash,
            r.execution_status == execution_status,
    {
        TxMetaRecord { tx_hash: *tx_hash, execution_status }
    }

    /// Identifier of the operation.
    pub fn tx_hash(&self) -> (r: &keys::Hash)
        ensures
            *r == self.tx_hash,
    {
        &self.tx_hash
    }

    /// Whether the operation was applied.
    pub fn execution_status(&self) -> (r: bool)
        ensures
            r == self.execution_status,
    {
        self.execution_status
    }
}

} // verus!
