//! Operations that the ledger executes, and what is delivered with them.

use vstd::prelude::*;
use crate::keys;
use crate::keys::PublicKey;

verus! {

/// Balance that every new account starts with.
pub const INITIAL_BALANCE: u64 = 100;

/// The kind of an operation, without its arguments.
#[derive(Clone, Copy, Debug, PartialEq, Eq, Structural)]
pub enum OperationKind {
    CreateAccount,
    Issue,
    Transfer,
    EscrowTransfer,
    ApproveEscrow,
    RejectEscrow,
}

/// An operation as its author signed it.
#[derive(Clone, Debug, PartialEq, Eq)]
pub enum Operation {
    /// Creates the author's account under a display name.
    CreateAccount { display_name: String },
    /// Adds newly issued funds to the author's account.
    Issue { amount: u64 },
    /// Moves funds from the author's account to another.
    Transfer { to: PublicKey, amount: u64 },
    /// Takes funds from the author's account and holds them for `to` until
    /// the approvers have decided.
    EscrowTransfer { to: PublicKey, approvers: Vec<PublicKey>, amount: u64 },
    /// Approves the escrow that the operation `escrow_id` opened.
    ApproveEscrow { escrow_id: keys::Hash },
    /// Rejects the escrow that the operation `escrow_id` opened.
    RejectEscrow { escrow_id: keys::Hash },
}

impl Operation {
    /// The kind of the operation.
    pub open spec fn kind_of(self) -> OperationKind {
        match self {
            Operation::CreateAccount { .. } => OperationKind::CreateAccount,
            Operation::Issue { .. } => OperationKind::Issue,
            Operation::Transfer { .. } => OperationKind::Transfer,
            Operation::EscrowTransfer { .. } => OperationKind::EscrowTransfer,
            Operation::ApproveEscrow { .. } => OperationKind::ApproveEscrow,
            Operation::RejectEscrow { .. } => OperationKind::RejectEscrow,
        }
    }

    /// The value that the operation brings into the ledger when it is
    /// applied: the initial balance of a new account, or the issued amount.
    pub open spec fn mints(self) -> nat {
        match self {
            Operation::CreateAccount { .. } => INITIAL_BALANCE as nat,
            Operation::Issue { amount } => amount as nat,
            _ => 0,
        }
    }

    /// The kind of the operation.
    pub fn kind(&self) -> (k: OperationKind)
        ensures
            k == self.kind_of(),
    {
        match self {
            Operation::CreateAccount { .. } => OperationKind::CreateAccount,
            Operation::Issue { .. } => OperationKind::Issue,
            Operation::Transfer { .. } => OperationKind::Transfer,
            Operation::EscrowTransfer { .. } => OperationKind::EscrowTransfer,
            Operation::ApproveEscrow { .. } => OperationKind::ApproveEscrow,
            Operation::RejectEscrow { .. } => OperationKind::RejectEscrow,
        }
    }

    /// The value that the operation brings into the ledger when it is applied.
    pub fn minted(&self) -> (m: u64)
        ensures
            m == self.mints(),
    {
        match self {
            Operation::CreateAccount { .. } => INITIAL_BALANCE,
            Operation::Issue { amount } => *amount,
            _ => 0,
        }
    }
}

/// The history digests that the ledger store derived for one operation: for
/// the account that the operation debits and for the one that it credits,
/// each taken over that account's history with this operation's identifier
/// appended. An operation that touches one account reads one of the two.
#[derive(Clone, Copy, Debug, PartialEq, Eq)]
pub struct HistoryDigests {
    /// Digest for the account that pays.
    pub debited: keys::Hash,
    /// Digest for the account that receives.
    pub credited: keys::Hash,
}

impl HistoryDigests {
    /// Puts two digests together.
    pub fn new(debited: &keys::Hash, credited: &keys::Hash) -> (d: HistoryDigests)
        ensures
            d.debited == *debited,
            d.credited == *credited,
    {
        HistoryDigests { debited: *debited, credited: *credited }
    }
}

} // verus!
