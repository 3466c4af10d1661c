//! Transaction-execution core of an account ledger: wallets, escrowed
//! transfers with several approvers, and the state transition that applies
//! one authenticated operation at a time.

pub mod keys;
pub mod wallet;
pub mod error;
pub mod tx_metarecord;
pub mod escrow;
pub mod operation;
pub mod lookup;
pub mod state;
pub mod sums;
pub mod steps;
pub mod ledger;
pub mod delivery;
pub mod laws;
