//! The ledger as a mathematical value, and its transition function.

use vstd::prelude::*;
use crate::error::Error;
use crate::escrow::distinct;
use crate::escrow::EscrowState;
use crate::escrow::EscrowView;
use crate::escrow::MAX_APPROVERS;
use crate::keys;
use crate::keys::PublicKey;
use crate::lookup::first_index;
use crate::operation::HistoryDigests;
use crate::operation::Operation;
use crate::operation::OperationKind;
use crate::operation::INITIAL_BALANCE;
use crate::tx_metarecord::TxMetaRecord;
use crate::wallet::Wallet;

verus! {

/// One line of the record of delivered operations: the outcome and the kind
/// of the operation.
#[derive(Clone, Copy, Debug, PartialEq, Eq)]
pub struct LogEntry {
    pub record: TxMetaRecord,
    pub kind: OperationKind,
}

/// An escrow under the identifier of the operation that opened it.
pub struct EscrowEntryView {
    pub id: keys::Hash,
    pub escrow: EscrowView,
}

/// Sum of the balances of `accounts`.
pub open spec fn balances(accounts: Seq<Wallet>) -> nat
    decreases accounts.len(),
{
    if accounts.len() == 0 {
        0
    } else {
        balances(accounts.drop_last()) + accounts.last().balance as nat
    }
}

/// Sum of the amounts that the pending escrows among `escrows` hold.
pub open spec fn held(escrows: Seq<EscrowEntryView>) -> nat
    decreases escrows.len(),
{
    if escrows.len() == 0 {
        0
    } else {
        held(escrows.drop_last()) + escrows.last().escrow.held()
    }
}

/// The wallet after a credit of `amount` that `digest` seals.
pub open spec fn credited(w: Wallet, amount: u64, digest: keys::Hash) -> Wallet {
    w.with_balance((w.balance + amount) as u64).with_event(digest)
}

/// The wallet after a debit of `amount` that `digest` seals.
pub open spec fn debited(w: Wallet, amount: u64, digest: keys::Hash) -> Wallet {
    w.with_balance((w.balance - amount) as u64).with_event(digest)
}

/// The owners of `accounts`, in order.
pub open spec fn owners_of(accounts: Seq<Wallet>) -> Seq<PublicKey> {
    Seq::new(accounts.len(), |i: int| accounts[i].pub_key)
}

/// The identifiers of `escrows`, in order.
pub open spec fn escrow_ids_of(escrows: Seq<EscrowEntryView>) -> Seq<keys::Hash> {
    Seq::new(escrows.len(), |i: int| escrows[i].id)
}

/// The identifiers of the operations on record in `log`, in order.
pub open spec fn log_ids_of(log: Seq<LogEntry>) -> Seq<keys::Hash> {
    Seq::new(log.len(), |i: int| log[i].record.tx_hash)
}

/// The ledger: accounts in the order of their creation, escrows in the order
/// of their opening, and the record of every operation delivered so far.
pub struct LedgerState {
    pub accounts: Seq<Wallet>,
    pub escrows: Seq<EscrowEntryView>,
    pub log: Seq<LogEntry>,
}

impl LedgerState {
    /// The ledger before any operation.
    pub open spec fn empty() -> LedgerState {
        LedgerState { accounts: Seq::empty(), escrows: Seq::empty(), log: Seq::empty() }
    }

    /// The owners of the accounts, in order.
    pub open spec fn owners(self) -> Seq<PublicKey> {
        owners_of(self.accounts)
    }

    /// The identifiers of the escrows, in order.
    pub open spec fn escrow_ids(self) -> Seq<keys::Hash> {
        escrow_ids_of(self.escrows)
    }

    /// The identifiers of the delivered operations, in order.
    pub open spec fn log_ids(self) -> Seq<keys::Hash> {
        log_ids_of(self.log)
    }

    /// Whether `key` owns an account.
    pub open spec fn has_account(self, key: PublicKey) -> bool {
        self.owners().contains(key)
    }

    /// Position of the account of `key`.
    pub open spec fn account_index(self, key: PublicKey) -> int {
        first_index(self.owners(), key)
    }

    /// The account of `key`.
    pub open spec fn account(self, key: PublicKey) -> Wallet {
        self.accounts[self.account_index(key)]
    }

    /// Whether an escrow stands under `id`.
    pub open spec fn has_escrow(self, id: keys::Hash) -> bool {
        self.escrow_ids().contains(id)
    }

    /// Position of the escrow under `id`.
    pub open spec fn escrow_index(self, id: keys::Hash) -> int {
        first_index(self.escrow_ids(), id)
    }

    /// The escrow under `id`.
    pub open spec fn escrow(self, id: keys::Hash) -> EscrowView {
        self.escrows[self.escrow_index(id)].escrow
    }

    /// Whether an operation with the identifier `id` was delivered.
    pub open spec fn knows(self, id: keys::Hash) -> bool {
        self.log_ids().contains(id)
    }

    /// The record of the operation `id`.
    pub open spec fn logged(self, id: keys::Hash) -> LogEntry {
        self.log[first_index(self.log_ids(), id)]
    }

    /// All value in the ledger: the balances and what pending escrows hold.
    pub open spec fn total_value(self) -> nat {
        balances(self.accounts) + held(self.escrows)
    }

    /// Whether the operation `id` is on record as an applied escrowed transfer.
    pub open spec fn opened_escrow(self, id: keys::Hash) -> bool {
        &&& self.knows(id)
        &&& self.logged(id).record.execution_status
        &&& self.logged(id).kind == OperationKind::EscrowTransfer
    }

    /// The invariant of the ledger: one account per owner, one escrow and one
    /// line of the record per identifier; the total value fits the balance
    /// type; no history is longer than the record of operations; every
    /// escrow is well formed, was opened by an operation that is on record as
    /// an applied escrowed transfer, and its two parties own accounts.
    pub open spec fn wf(self) -> bool {
        &&& self.owners().no_duplicates()
        &&& self.escrow_ids().no_duplicates()
        &&& self.log_ids().no_duplicates()
        &&& self.total_value() <= u64::MAX
        &&& forall|i: int|
            0 <= i < self.accounts.len() ==> (#[trigger] self.accounts[i]).history_len
                <= self.log.len()
        &&& forall|i: int|
            0 <= i < self.escrows.len() ==> {
                &&& (#[trigger] self.escrows[i]).escrow.wf()
                &&& self.has_account(self.escrows[i].escrow.initiator)
                &&& self.has_account(self.escrows[i].escrow.beneficiary)
                &&& self.opened_escrow(self.escrows[i].id)
            }
    }

    /// Whether `author` may move `amount` to `to`.
    pub open spec fn transfer_verdict(self, author: PublicKey, to: PublicKey, amount: u64)
        -> Result<(), Error> {
        if author == to {
            Err(Error::SenderSameAsReceiver)
        } else if !self.has_account(author) {
            Err(Error::SenderNotFound)
        } else if !self.has_account(to) {
            Err(Error::ReceiverNotFound)
        } else if self.account(author).balance < amount {
            Err(Error::InsufficientFunds)
        } else {
            Ok(())
        }
    }

    /// Whether `id` refers to an escrow: to a delivered operation that was
    /// applied, that was an escrowed transfer, and whose escrow is on record.
    pub open spec fn referral_verdict(self, id: keys::Hash) -> Result<(), Error> {
        if !self.knows(id) {
            Err(Error::TxNotFound)
        } else if !self.logged(id).record.execution_status {
            Err(Error::ReferredTxFailed)
        } else if self.logged(id).kind != OperationKind::EscrowTransfer {
            Err(Error::ReferredTxWrongKind)
        } else if !self.has_escrow(id) {
            Err(Error::TxNotFound)
        } else {
            Ok(())
        }
    }

    /// The outcome of validating `op`, signed by `author`, against the
    /// ledger: `Ok` if it is to be applied, else the one reason why not.
    pub open spec fn verdict(self, author: PublicKey, op: Operation) -> Result<(), Error> {
        match op {
            Operation::CreateAccount { .. } => if self.has_account(author) {
                Err(Error::AccountAlreadyExists)
            } else {
                Ok(())
            },
            Operation::Issue { .. } => if self.has_account(author) {
                Ok(())
            } else {
                Err(Error::ReceiverNotFound)
            },
            Operation::Transfer { to, amount } => self.transfer_verdict(author, to, amount),
            Operation::EscrowTransfer { to, approvers, amount } => if self.transfer_verdict(
                author,
                to,
                amount,
            ).is_err() {
                self.transfer_verdict(author, to, amount)
            } else if approvers@.len() == 0 {
                Err(Error::EmptyApprovers)
            } else if distinct(approvers@).len() > MAX_APPROVERS {
                Err(Error::TooManyApprovers)
            } else {
                Ok(())
            },
            Operation::ApproveEscrow { escrow_id } => if self.referral_verdict(
                escrow_id,
            ).is_err() {
                self.referral_verdict(escrow_id)
            } else if self.escrow(escrow_id).state == EscrowState::Rejected {
                Err(Error::EscrowAlreadyRejected)
            } else if !self.escrow(escrow_id).eligible(author) {
                Err(Error::ApproverNotEligible)
            } else {
                Ok(())
            },
            Operation::RejectEscrow { escrow_id } => if self.referral_verdict(
                escrow_id,
            ).is_err() {
                self.referral_verdict(escrow_id)
            } else if !self.escrow(escrow_id).eligible(author) {
                Err(Error::ApproverNotEligible)
            } else {
                Ok(())
            },
        }
    }

    /// The value that `op` brings into the ledger: what it mints if it is
    /// applied, and nothing if it is refused.
    pub open spec fn minted(self, author: PublicKey, op: Operation) -> nat {
        if self.verdict(author, op).is_ok() {
            op.mints()
        } else {
            0
        }
    }

    /// The account that `op` debits: the author's, where a transfer or an
    /// escrowed transfer is applied.
    pub open spec fn payer(self, author: PublicKey, op: Operation) -> Option<PublicKey> {
        if self.verdict(author, op).is_ok() && (op is Transfer || op is EscrowTransfer) {
            Some(author)
        } else {
            None
        }
    }

    /// The account that `op` credits, where it is applied: the new account,
    /// the account issued to, the receiver of a transfer, the beneficiary of
    /// an escrow with its last approval, the initiator of a pending escrow
    /// with its rejection.
    pub open spec fn payee(self, author: PublicKey, op: Operation) -> Option<PublicKey> {
        if self.verdict(author, op).is_err() {
            None
        } else {
            match op {
                Operation::CreateAccount { .. } => Some(author),
                Operation::Issue { .. } => Some(author),
                Operation::Transfer { to, .. } => Some(to),
                Operation::EscrowTransfer { .. } => None,
                Operation::ApproveEscrow { escrow_id } => if self.escrow(
                    escrow_id,
                ).completes_with(author) {
                    Some(self.escrow(escrow_id).beneficiary)
                } else {
                    None
                },
                Operation::RejectEscrow { escrow_id } => if self.escrow(escrow_id).state
                    == EscrowState::Pending {
                    Some(self.escrow(escrow_id).initiator)
                } else {
                    None
                },
            }
        }
    }

    /// The ledger with the account of `key` credited.
    pub open spec fn credit(self, key: PublicKey, amount: u64, digest: keys::Hash)
        -> LedgerState {
        let i = self.account_index(key);
        LedgerState {
            accounts: self.accounts.update(i, credited(self.accounts[i], amount, digest)),
            ..self
        }
    }

    /// The ledger with the account of `key` debited.
    pub open spec fn debit(self, key: PublicKey, amount: u64, digest: keys::Hash)
        -> LedgerState {
        let i = self.account_index(key);
        LedgerState {
            accounts: self.accounts.update(i, debited(self.accounts[i], amount, digest)),
            ..self
        }
    }

    /// The ledger with the escrow under `id` replaced by `escrow`.
    pub open spec fn with_escrow(self, id: keys::Hash, escrow: EscrowView) -> LedgerState {
        let i = self.escrow_index(id);
        LedgerState { escrows: self.escrows.update(i, EscrowEntryView { id, escrow }), ..self }
    }

    /// Accounts and escrows after `op` took effect; meaningful where the
    /// verdict on `op` is `Ok`.
    pub open spec fn applied(
        self,
        author: PublicKey,
        op_id: keys::Hash,
        op: Operation,
        digests: HistoryDigests,
    ) -> LedgerState {
        match op {
            Operation::CreateAccount { display_name } => LedgerState {
                accounts: self.accounts.push(
                    Wallet {
                        pub_key: author,
                        login: display_name,
                        balance: INITIAL_BALANCE,
                        history_len: 1,
                        history_hash: digests.credited,
                    },
                ),
                ..self
            },
            Operation::Issue { amount } => self.credit(author, amount, digests.credited),
            Operation::Transfer { to, amount } => self.debit(
                author,
                amount,
                digests.debited,
            ).credit(to, amount, digests.credited),
            Operation::EscrowTransfer { to, approvers, amount } => {
                let paid = self.debit(author, amount, digests.debited);
                LedgerState {
                    escrows: self.escrows.push(
                        EscrowEntryView {
                            id: op_id,
                            escrow: EscrowView::opened(author, to, approvers@, amount),
                        },
                    ),
                    ..paid
                }
            },
            Operation::ApproveEscrow { escrow_id } => {
                let before = self.escrow(escrow_id);
                let kept = self.with_escrow(escrow_id, before.after_approval(author));
                if before.completes_with(author) {
                    kept.credit(before.beneficiary, before.amount, digests.credited)
                } else {
                    kept
                }
            },
            Operation::RejectEscrow { escrow_id } => {
                let before = self.escrow(escrow_id);
                let kept = self.with_escrow(escrow_id, before.after_rejection());
                if before.state == EscrowState::Pending {
                    kept.credit(before.initiator, before.amount, digests.credited)
                } else {
                    kept
                }
            },
        }
    }

    /// The ledger with the outcome of one more operation on record.
    pub open spec fn recorded(self, op_id: keys::Hash, kind: OperationKind, applied: bool)
        -> LedgerState {
        LedgerState {
            log: self.log.push(
                LogEntry {
                    record: TxMetaRecord { tx_hash: op_id, execution_status: applied },
                    kind,
                },
            ),
            ..self
        }
    }

    /// The ledger after the delivery of `op`: with its effect and a record of
    /// success if the verdict is `Ok`, else unchanged but for a record of
    /// failure.
    pub open spec fn next(
        self,
        author: PublicKey,
        op_id: keys::Hash,
        op: Operation,
        digests: HistoryDigests,
    ) -> LedgerState {
        if self.verdict(author, op).is_ok() {
            self.applied(author, op_id, op, digests).recorded(op_id, op.kind_of(), true)
        } else {
            self.recorded(op_id, op.kind_of(), false)
        }
    }

    /// What a delivery must meet: the identifier is new, and what the
    /// operation mints keeps the total value within the balance type.
    pub open spec fn admits(self, author: PublicKey, op_id: keys::Hash, op: Operation) -> bool {
        &&& !self.knows(op_id)
        &&& self.total_value() + self.minted(author, op) <= u64::MAX
    }

    /// The reply to a delivery: the verdict where the ledger admits it, and
    /// none where it does not.
    pub open spec fn reply(self, author: PublicKey, op_id: keys::Hash, op: Operation) -> Option<
        Result<(), Error>,
    > {
        if self.admits(author, op_id, op) {
            Some(self.verdict(author, op))
        } else {
            None
        }
    }

    /// The ledger after a delivery that is applied only if the ledger admits
    /// it.
    pub open spec fn submitted(
        self,
        author: PublicKey,
        op_id: keys::Hash,
        op: Operation,
        digests: HistoryDigests,
    ) -> LedgerState {
        if self.admits(author, op_id, op) {
            self.next(author, op_id, op, digests)
        } else {
            self
        }
    }

    /// Whether the record has room for one more line, so that a history
    /// length can still grow.
    pub open spec fn has_room(self) -> bool {
        self.log.len() < u64::MAX
    }
}

} // verus!
