//! The closed set of reasons for which an operation fails.

use vstd::prelude::*;

verus! {

/// Why an operation was refused. Each kind has a stable numeric code.
#[derive(Clone, Copy, Debug, PartialEq, Eq, Structural)]
pub enum Error {
    /// The author already owns an account.
    AccountAlreadyExists,
    /// The sender owns no account.
    SenderNotFound,
    /// The receiver owns no account.
    ReceiverNotFound,
    /// The sender's balance is less than the amount.
    InsufficientFunds,
    /// Sender and receiver are one identity.
    SenderSameAsReceiver,
    /// An escrowed transfer names no approver.
    EmptyApprovers,
    /// An escrowed transfer names more approvers than allowed.
    TooManyApprovers,
    /// The referenced operation was never delivered.
    TxNotFound,
    /// The referenced operation failed.
    ReferredTxFailed,
    /// The referenced operation is not an escrowed transfer.
    ReferredTxWrongKind,
    /// The author is not among the escrow's approvers.
    ApproverNotEligible,
    /// The escrow was rejected before.
    EscrowAlreadyRejected,
}

impl Error {
    /// The code of each kind, as a number.
    pub open spec fn code_of(self) -> u8 {
        match self {
            Error::AccountAlreadyExists => 0,
            Error::SenderNotFound => 1,
            Error::ReceiverNotFound => 2,
            Error::InsufficientFunds => 3,
            Error::SenderSameAsReceiver => 4,
            Error::EmptyApprovers => 5,
            Error::TooManyApprovers => 6,
            Error::TxNotFound => 7,
            Error::ReferredTxFailed => 8,
            Error::ReferredTxWrongKind => 9,
            Error::ApproverNotEligible => 10,
            Error::EscrowAlreadyRejected => 11,
        }
    }

    /// The kind that a code stands for, if any.
    pub open spec fn of_code(code: u8) -> Option<Error> {
        if code == 0 {
            Some(Error::AccountAlreadyExists)
        } else if code == 1 {
            Some(Error::SenderNotFound)
        } else if code == 2 {
            Some(Error::ReceiverNotFound)
        } else if code == 3 {
            Some(Error::InsufficientFunds)
        } else if code == 4 {
            Some(Error::SenderSameAsReceiver)
        } else if code == 5 {
            Some(Error::EmptyApprovers)
        } else if code == 6 {
            Some(Error::TooManyApprovers)
        } else if code == 7 {
            Some(Error::TxNotFound)
        } else if code == 8 {
            Some(Error::ReferredTxFailed)
        } else if code == 9 {
            Some(Error::ReferredTxWrongKind)
        } else if code == 10 {
            Some(Error::ApproverNotEligible)
        } else if code == 11 {
            Some(Error::EscrowAlreadyRejected)
        } else {
            None
        }
    }

    /// The human-readable description of each kind.
    pub open spec fn description_of(self) -> Seq<char> {
        match self {
            Error::AccountAlreadyExists => "Wallet already exists"@,
            Error::SenderNotFound => "Sender doesn't exist"@,
            Error::ReceiverNotFound => "Receiver doesn't exist"@,
            Error::InsufficientFunds => "Insufficient currency amount"@,
            Error::SenderSameAsReceiver => "Sender same as receiver"@,
            Error::EmptyApprovers => "Empty approvers list"@,
            Error::TooManyApprovers => "Approvers list is too large"@,
            Error::TxNotFound => "Transaction does not exist"@,
            Error::ReferredTxFailed => "Referred transaction failed"@,
            Error::ReferredTxWrongKind => "Referred transaction is not TransferMultisig"@,
            Error::ApproverNotEligible => "Approver is not on approvers list"@,
            Error::EscrowAlreadyRejected => "Transfer is rejected"@,
        }
    }

    /// Numeric code of the failure, for use outside the ledger.
    pub fn code(&self) -> (c: u8)
        ensures
            c == self.code_of(),
            c < 12,
    {
        match self {
            Error::AccountAlreadyExists => 0,
            Error::SenderNotFound => 1,
            Error::ReceiverNotFound => 2,
            Error::InsufficientFunds => 3,
            Error::SenderSameAsReceiver => 4,
            Error::EmptyApprovers => 5,
            Error::TooManyApprovers => 6,
            Error::TxNotFound => 7,
            Error::ReferredTxFailed => 8,
            Error::ReferredTxWrongKind => 9,
            Error::ApproverNotEligible => 10,
            Error::EscrowAlreadyRejected => 11,
        }
    }

    /// The failure that a numeric code stands for; `None` for a code that no
    /// kind has.
    pub fn from_code(code: u8) -> (r: Option<Error>)
        ensures
            r == Error::of_code(code),
            r.is_some() <==> code < 12,
            r.is_some() ==> r.unwrap().code_of() == code,
    {
        match code {
            0 => Some(Error::AccountAlreadyExists),
            1 => Some(Error::SenderNotFound),
            2 => Some(Error::ReceiverNotFound),
            3 => Some(Error::InsufficientFunds),
            4 => Some(Error::SenderSameAsReceiver),
            5 => Some(Error::EmptyApprovers),
            6 => Some(Error::TooManyApprovers),
            7 => Some(Error::TxNotFound),
            8 => Some(Error::ReferredTxFailed),
            9 => Some(Error::ReferredTxWrongKind),
            10 => Some(Error::ApproverNotEligible),
            11 => Some(Error::EscrowAlreadyRejected),
            _ => None,
        }
    }

    /// Human-readable description of the failure.
    pub fn description(&self) -> (d: &'static str)
        ensures
            d@ == self.description_of(),
    {
        match self {
            Error::AccountAlreadyExists => "Wallet already exists",
            Error::SenderNotFound => "Sender doesn't exist",
            Error::ReceiverNotFound => "Receiver doesn't exist",
            Error::InsufficientFunds => "Insufficient currency amount",
            Error::SenderSameAsReceiver => "Sender same as receiver",
            Error::EmptyApprovers => "Empty approvers list",
            Error::TooManyApprovers => "Approvers list is too large",
            Error::TxNotFound => "Transaction does not exist",
            Error::ReferredTxFailed => "Referred transaction failed",
            Error::ReferredTxWrongKind => "Referred transaction is not TransferMultisig",
            Error::ApproverNotEligible => "Approver is not on approvers list",
            Error::EscrowAlreadyRejected => "Transfer is rejected",
        }
    }
}

/// Distinct kinds have distinct codes, and `from_code` undoes `code`.
pub proof fn lemma_codes_are_stable(a: Error, b: Error)
    ensures
        Error::of_code(a.code_of()) == Some(a),
        a.code_of() == b.code_of() ==> a == b,
{
}

} // verus!
