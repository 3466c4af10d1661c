//! The ledger: accounts, escrows and the record of delivered operations,
//! with the transition that applies one operation.

use vstd::prelude::*;
use crate::delivery::replies_to;
use crate::delivery::run_submitted;
use crate::delivery::Delivery;
use crate::error::Error;
use crate::escrow::contains_key;
use crate::escrow::distinct_keys;
use crate::escrow::PendingEscrow;
use crate::escrow::MAX_APPROVERS;
use crate::keys;
use crate::keys::PublicKey;
use crate::lookup::first_at;
use crate::lookup::lemma_first_unique;
use crate::operation::HistoryDigests;
use crate::operation::Operation;
use crate::operation::OperationKind;
use crate::operation::INITIAL_BALANCE;
use crate::state::balances;
use crate::state::credited;
use crate::state::debited;
use crate::state::held;
use crate::state::EscrowEntryView;
use crate::state::LedgerState;
use crate::state::LogEntry;
use crate::steps::lemma_account_at;
use crate::steps::lemma_credit;
use crate::steps::lemma_debit;
use crate::steps::lemma_escrow_at;
use crate::steps::lemma_open_escrow;
use crate::steps::lemma_recorded;
use crate::steps::lemma_step;
use crate::steps::lemma_swap_escrow;
use crate::steps::lemma_unknown_has_no_escrow;
use crate::sums::lemma_balances_prefix;
use crate::sums::lemma_held_prefix;
use crate::tx_metarecord::TxMetaRecord;
use crate::wallet::Wallet;

verus! {

/// An escrow under the identifier of the operation that opened it.
#[derive(Clone, Debug, PartialEq, Eq)]
pub struct EscrowEntry {
    pub id: keys::Hash,
    pub escrow: PendingEscrow,
}

impl View for EscrowEntry {
    type V = EscrowEntryView;

    open spec fn view(&self) -> EscrowEntryView {
        EscrowEntryView { id: self.id, escrow: self.escrow@ }
    }
}

/// The escrows of a ledger as mathematical values.
pub open spec fn entries_view(entries: Seq<EscrowEntry>) -> Seq<EscrowEntryView> {
    Seq::new(entries.len(), |i: int| entries[i]@)
}

/// The ledger.
#[derive(Clone, Debug, PartialEq, Eq)]
pub struct Ledger {
    accounts: Vec<Wallet>,
    escrows: Vec<EscrowEntry>,
    log: Vec<LogEntry>,
}

impl View for Ledger {
    type V = LedgerState;

    closed spec fn view(&self) -> LedgerState {
        LedgerState {
            accounts: self.accounts@,
            escrows: entries_view(self.escrows@),
            log: self.log@,
        }
    }
}

impl Ledger {
    /// The invariant of the ledger, which every operation keeps.
    pub open spec fn wf(&self) -> bool {
        self@.wf()
    }

    /// A ledger without accounts, escrows or operations.
    pub fn new() -> (l: Ledger)
        ensures
            l@ == LedgerState::empty(),
            l.wf(),
    {
        let l = Ledger { accounts: Vec::new(), escrows: Vec::new(), log: Vec::new() };
        proof {
            assert(l@.escrows =~= Seq::empty());
            assert(l@ == LedgerState::empty());
        }
        l
    }

    /// Position of the account that `key` owns, if there is one.
    pub fn find_account(&self, key: &PublicKey) -> (r: Option<usize>)
        ensures
            r.is_some() == self@.has_account(*key),
            r.is_some() ==> r.unwrap() == self@.account_index(*key) && r.unwrap()
                < self@.accounts.len(),
    {
        let mut i: usize = 0;
        while i < self.accounts.len()
            invariant
                i <= self.accounts.len(),
                forall|j: int| 0 <= j < i ==> self@.owners()[j] != *key,
            decreases self.accounts.len() - i,
        {
            if self.accounts[i].pub_key == *key {
                proof {
                    assert(first_at(self@.owners(), *key, i as int));
                    lemma_first_unique(self@.owners(), *key, i as int);
                }
                return Some(i);
            }
            i += 1;
        }
        None
    }

    /// Position of the escrow under `id`, if there is one.
    pub fn find_escrow(&self, id: &keys::Hash) -> (r: Option<usize>)
        ensures
            r.is_some() == self@.has_escrow(*id),
            r.is_some() ==> r.unwrap() == self@.escrow_index(*id) && r.unwrap()
                < self@.escrows.len(),
    {
        let mut i: usize = 0;
        while i < self.escrows.len()
            invariant
                i <= self.escrows.len(),
                forall|j: int| 0 <= j < i ==> self@.escrow_ids()[j] != *id,
            decreases self.escrows.len() - i,
        {
            if self.escrows[i].id == *id {
                proof {
                    assert(first_at(self@.escrow_ids(), *id, i as int));
                    lemma_first_unique(self@.escrow_ids(), *id, i as int);
                }
                return Some(i);
            }
            i += 1;
        }
        None
    }

    /// The outcome on record for the operation `id`, if it was delivered.
    pub fn outcome(&self, id: &keys::Hash) -> (r: Option<LogEntry>)
        ensures
            r.is_some() == self@.knows(*id),
            r.is_some() ==> r.unwrap() == self@.logged(*id),
    {
        let mut i: usize = 0;
        while i < self.log.len()
            invariant
                i <= self.log.len(),
                forall|j: int| 0 <= j < i ==> self@.log_ids()[j] != *id,
            decreases self.log.len() - i,
        {
            if self.log[i].record.tx_hash == *id {
                proof {
                    assert(first_at(self@.log_ids(), *id, i as int));
                    lemma_first_unique(self@.log_ids(), *id, i as int);
                }
                return Some(self.log[i]);
            }
            i += 1;
        }
        None
    }

    /// The account that `key` owns, if there is one.
    pub fn wallet(&self, key: &PublicKey) -> (r: Option<&Wallet>)
        ensures
            r.is_some() == self@.has_account(*key),
            r.is_some() ==> *r.unwrap() == self@.account(*key),
    {
        match self.find_account(key) {
            Some(i) => Some(&self.accounts[i]),
            None => None,
        }
    }

    /// The escrow that the operation `id` opened, if it opened one.
    pub fn escrow(&self, id: &keys::Hash) -> (r: Option<&PendingEscrow>)
        ensures
            r.is_some() == self@.has_escrow(*id),
            r.is_some() ==> r.unwrap()@ == self@.escrow(*id),
    {
        match self.find_escrow(id) {
            Some(i) => Some(&self.escrows[i].escrow),
            None => None,
        }
    }

    /// The accounts, in the order of their creation.
    pub fn wallets(&self) -> (r: &Vec<Wallet>)
        ensures
            r@ == self@.accounts,
    {
        &self.accounts
    }

    /// The escrows, in the order of their opening.
    pub fn escrows(&self) -> (r: &Vec<EscrowEntry>)
        ensures
            entries_view(r@) == self@.escrows,
    {
        &self.escrows
    }

    /// The record of the delivered operations, in the order of delivery.
    pub fn records(&self) -> (r: &Vec<LogEntry>)
        ensures
            r@ == self@.log,
    {
        &self.log
    }

    /// Number of accounts.
    pub fn account_count(&self) -> (n: usize)
        ensures
            n == self@.accounts.len(),
    {
        self.accounts.len()
    }

    /// Number of operations delivered so far.
    pub fn operation_count(&self) -> (n: usize)
        ensures
            n == self@.log.len(),
    {
        self.log.len()
    }

    /// All value in the ledger: the balances and what pending escrows hold.
    pub fn total_value(&self) -> (total: u64)
        requires
            self.wf(),
        ensures
            total == self@.total_value(),
    {
        let mut total: u64 = 0;
        let mut i: usize = 0;
        while i < self.accounts.len()
            invariant
                i <= self.accounts.len(),
                self@.total_value() <= u64::MAX,
                total == balances(self@.accounts.take(i as int)),
            decreases self.accounts.len() - i,
        {
            proof {
                lemma_balances_prefix(self@.accounts, i as int);
                lemma_balances_prefix(self@.accounts, i + 1);
            }
            total = total + self.accounts[i].balance;
            i += 1;
        }
        proof {
            assert(self@.accounts.take(i as int) =~= self@.accounts);
        }
        let mut k: usize = 0;
        while k < self.escrows.len()
            invariant
                k <= self.escrows.len(),
                self@.total_value() <= u64::MAX,
                total == balances(self@.accounts) + held(self@.escrows.take(k as int)),
            decreases self.escrows.len() - k,
        {
            proof {
                lemma_held_prefix(self@.escrows, k as int);
                lemma_held_prefix(self@.escrows, k + 1);
            }
            if self.escrows[k].escrow.is_pending() {
                total = total + self.escrows[k].escrow.amount;
            }
            k += 1;
        }
        proof {
            assert(self@.escrows.take(k as int) =~= self@.escrows);
        }
        total
    }

    /// Whether `author` may move `amount` to `to`, and if not, why.
    pub fn transfer_verdict(&self, author: &PublicKey, to: &PublicKey, amount: u64) -> (r: Result<
        (),
        Error,
    >)
        ensures
            r == self@.transfer_verdict(*author, *to, amount),
    {
        if *author == *to {
            return Err(Error::SenderSameAsReceiver);
        }
        let sender = match self.wallet(author) {
            Some(w) => w,
            None => {
                return Err(Error::SenderNotFound);
            },
        };
        if self.find_account(to).is_none() {
            return Err(Error::ReceiverNotFound);
        }
        if sender.balance < amount {
            return Err(Error::InsufficientFunds);
        }
        Ok(())
    }

    /// Whether `id` refers to an escrow, and if not, why: the operation must
    /// have been delivered and applied, must be an escrowed transfer, and its
    /// escrow must be on record.
    pub fn referral_verdict(&self, id: &keys::Hash) -> (r: Result<(), Error>)
        ensures
            r == self@.referral_verdict(*id),
    {
        let entry = match self.outcome(id) {
            Some(e) => e,
            None => {
                return Err(Error::TxNotFound);
            },
        };
        if !entry.record.execution_status {
            return Err(Error::ReferredTxFailed);
        }
        match entry.kind {
            OperationKind::EscrowTransfer => {},
            _ => {
                return Err(Error::ReferredTxWrongKind);
            },
        }
        if self.find_escrow(id).is_none() {
            return Err(Error::TxNotFound);
        }
        Ok(())
    }

    /// Validates `op`, signed by `author`, against the ledger as it stands:
    /// `Ok` if the operation is to be applied, else the one reason why not.
    /// Nothing is changed.
    pub fn verdict(&self, author: &PublicKey, op: &Operation) -> (r: Result<(), Error>)
        ensures
            r == self@.verdict(*author, *op),
    {
        match op {
            Operation::CreateAccount { .. } => {
                if self.find_account(author).is_some() {
                    Err(Error::AccountAlreadyExists)
                } else {
                    Ok(())
                }
            },
            Operation::Issue { .. } => {
                if self.find_account(author).is_some() {
                    Ok(())
                } else {
                    Err(Error::ReceiverNotFound)
                }
            },
            Operation::Transfer { to, amount } => self.transfer_verdict(author, to, *amount),
            Operation::EscrowTransfer { to, approvers, amount } => {
                let parties = self.transfer_verdict(author, to, *amount);
                if parties.is_err() {
                    return parties;
                }
                if approvers.len() == 0 {
                    return Err(Error::EmptyApprovers);
                }
                if distinct_keys(approvers).len() > MAX_APPROVERS {
                    return Err(Error::TooManyApprovers);
                }
                Ok(())
            },
            Operation::ApproveEscrow { escrow_id } => {
                let referral = self.referral_verdict(escrow_id);
                if referral.is_err() {
                    return referral;
                }
                let escrow = self.escrow(escrow_id).unwrap();
                if escrow.is_rejected() {
                    return Err(Error::EscrowAlreadyRejected);
                }
                if !contains_key(&escrow.approvers, author) {
                    return Err(Error::ApproverNotEligible);
                }
                Ok(())
            },
            Operation::RejectEscrow { escrow_id } => {
                let referral = self.referral_verdict(escrow_id);
                if referral.is_err() {
                    return referral;
                }
                let escrow = self.escrow(escrow_id).unwrap();
                if !contains_key(&escrow.approvers, author) {
                    return Err(Error::ApproverNotEligible);
                }
                Ok(())
            },
        }
    }

    /// The account that `op` would debit, if any. The store derives
    /// `HistoryDigests::debited` from the history of this account.
    pub fn payer(&self, author: &PublicKey, op: &Operation) -> (r: Option<PublicKey>)
        ensures
            r == self@.payer(*author, *op),
    {
        if self.verdict(author, op).is_err() {
            return None;
        }
        match op {
            Operation::Transfer { .. } => Some(*author),
            Operation::EscrowTransfer { .. } => Some(*author),
            _ => None,
        }
    }

    /// The account that `op` would credit, if any. The store derives
    /// `HistoryDigests::credited` from the history of this account.
    pub fn payee(&self, author: &PublicKey, op: &Operation) -> (r: Option<PublicKey>)
        ensures
            r == self@.payee(*author, *op),
    {
        if self.verdict(author, op).is_err() {
            return None;
        }
        match op {
            Operation::CreateAccount { .. } => Some(*author),
            Operation::Issue { .. } => Some(*author),
            Operation::Transfer { to, .. } => Some(*to),
            Operation::EscrowTransfer { .. } => None,
            Operation::ApproveEscrow { escrow_id } => {
                let escrow = self.escrow(escrow_id).unwrap();
                if escrow.completes_with(author) {
                    Some(escrow.beneficiary)
                } else {
                    None
                }
            },
            Operation::RejectEscrow { escrow_id } => {
                let escrow = self.escrow(escrow_id).unwrap();
                if escrow.is_pending() {
                    Some(escrow.initiator)
                } else {
                    None
                }
            },
        }
    }

    /// Whether the ledger admits the delivery of `op` under the identifier
    /// `op_id`: the identifier is new, and what the operation mints keeps the
    /// total value within the balance type.
    pub fn admits(&self, author: &PublicKey, op_id: &keys::Hash, op: &Operation) -> (r: bool)
        requires
            self.wf(),
        ensures
            r == self@.admits(*author, *op_id, *op),
    {
        if self.outcome(op_id).is_some() {
            return false;
        }
        if self.verdict(author, op).is_err() {
            return true;
        }
        op.minted() <= u64::MAX - self.total_value()
    }

    /// Adds `amount` to the account of `key` and appends an event, sealed by
    /// `digest`, to its history.
    fn credit(&mut self, key: &PublicKey, amount: u64, digest: keys::Hash)
        requires
            old(self).wf(),
            old(self)@.has_account(*key),
            old(self)@.account(*key).history_len < old(self)@.log.len(),
            old(self)@.total_value() + amount <= u64::MAX,
        ensures
            final(self)@ == old(self)@.credit(*key, amount, digest),
            final(self).wf(),
    {
        proof {
            lemma_credit(self@, *key, amount, digest);
        }
        let recorded = self.log.len();
        let i = self.find_account(key).unwrap();
        proof {
            assert(self.accounts@[i as int].history_len < recorded);
        }
        let balance: u64 = self.accounts[i].balance + amount;
        self.accounts[i].set_balance(balance);
        self.accounts[i].grow_length_set_history_hash(&digest);
        proof {
            assert(self.accounts@ =~= old(self).accounts@.update(
                i as int,
                credited(old(self).accounts@[i as int], amount, digest),
            ));
        }
    }

    /// Takes `amount` from the account of `key` and appends an event, sealed
    /// by `digest`, to its history.
    fn debit(&mut self, key: &PublicKey, amount: u64, digest: keys::Hash)
        requires
            old(self).wf(),
            old(self)@.has_account(*key),
            old(self)@.account(*key).history_len < old(self)@.log.len(),
            old(self)@.account(*key).balance >= amount,
        ensures
            final(self)@ == old(self)@.debit(*key, amount, digest),
            final(self).wf(),
    {
        proof {
            lemma_debit(self@, *key, amount, digest);
        }
        let recorded = self.log.len();
        let i = self.find_account(key).unwrap();
        proof {
            assert(self.accounts@[i as int].history_len < recorded);
        }
        let balance: u64 = self.accounts[i].balance - amount;
        self.accounts[i].set_balance(balance);
        self.accounts[i].grow_length_set_history_hash(&digest);
        proof {
            assert(self.accounts@ =~= old(self).accounts@.update(
                i as int,
                debited(old(self).accounts@[i as int], amount, digest),
            ));
        }
    }

    /// Applies the delivery of `op`, signed by `author`, under the identifier
    /// `op_id`. The operation is validated against the ledger as it stands.
    /// If the verdict is `Ok`, the operation takes effect as a whole and is
    /// put on record as applied; every account that it touches gets one more
    /// history event, sealed by the digest that `digests` holds for it. If
    /// not, no account and no escrow changes, and the operation is put on
    /// record as refused. The total value grows by exactly what the
    /// operation mints.
    pub fn apply(
        &mut self,
        author: PublicKey,
        op_id: keys::Hash,
        op: &Operation,
        digests: HistoryDigests,
    ) -> (r: Result<(), Error>)
        requires
            old(self).wf(),
            old(self)@.admits(author, op_id, *op),
        ensures
            r == old(self)@.verdict(author, *op),
            final(self)@ == old(self)@.next(author, op_id, *op, digests),
            final(self).wf(),
            final(self)@.total_value() == old(self)@.total_value() + old(self)@.minted(
                author,
                *op,
            ),
            r.is_err() ==> final(self)@.accounts == old(self)@.accounts && final(self)@.escrows
                == old(self)@.escrows,
    {
        let verdict = self.verdict(&author, op);
        let kind = op.kind();
        let entry = LogEntry { record: TxMetaRecord::new(&op_id, verdict.is_ok()), kind };
        self.log.push(entry);
        // The record as it was is shorter than a length that a machine word
        // holds, so every history has room for one more event.
        let recorded = self.log.len();
        let ghost m = self@;
        proof {
            assert(old(self)@.log.len() < recorded);
            assert(old(self)@.has_room());
            lemma_step(old(self)@, author, op_id, *op, digests);
            lemma_recorded(old(self)@, op_id, kind, verdict.is_ok());
            lemma_unknown_has_no_escrow(old(self)@, op_id);
            assert(m == old(self)@.recorded(op_id, kind, verdict.is_ok()));
        }
        if verdict.is_err() {
            return verdict;
        }
        match op {
            Operation::CreateAccount { display_name } => {
                let wallet = Wallet {
                    pub_key: author,
                    login: display_name.clone(),
                    balance: INITIAL_BALANCE,
                    history_len: 1,
                    history_hash: digests.credited,
                };
                self.accounts.push(wallet);
            },
            Operation::Issue { amount } => {
                proof {
                    lemma_account_at(m, author);
                }
                self.credit(&author, *amount, digests.credited);
            },
            Operation::Transfer { to, amount } => {
                proof {
                    lemma_account_at(m, author);
                    lemma_account_at(m, *to);
                    lemma_debit(m, author, *amount, digests.debited);
                }
                self.debit(&author, *amount, digests.debited);
                proof {
                    assert(self@.account_index(*to) == m.account_index(*to));
                }
                self.credit(to, *amount, digests.credited);
            },
            Operation::EscrowTransfer { to, approvers, amount } => {
                proof {
                    lemma_account_at(m, author);
                    lemma_debit(m, author, *amount, digests.debited);
                }
                self.debit(&author, *amount, digests.debited);
                let ghost paid = self@;
                match PendingEscrow::open(author, *to, approvers, *amount) {
                    Ok(escrow) => {
                        proof {
                            lemma_open_escrow(paid, op_id, escrow@);
                        }
                        self.escrows.push(EscrowEntry { id: op_id, escrow });
                        proof {
                            assert(self@.escrows =~= paid.escrows.push(
                                EscrowEntryView { id: op_id, escrow: escrow@ },
                            ));
                        }
                    },
                    Err(_) => {},
                }
            },
            Operation::ApproveEscrow { escrow_id } => {
                proof {
                    lemma_escrow_at(m, *escrow_id);
                }
                let i = self.find_escrow(escrow_id).unwrap();
                let completes = self.escrows[i].escrow.completes_with(&author);
                let beneficiary = self.escrows[i].escrow.beneficiary;
                let amount = self.escrows[i].escrow.amount;
                let accepted = self.escrows[i].escrow.record_approval(author);
                proof {
                    assert(accepted);
                    let before = m.escrow(*escrow_id);
                    assert(m.escrows[i as int].escrow.wf());
                    let after = before.after_approval(author);
                    assert(self@.escrows =~= m.escrows.update(
                        i as int,
                        EscrowEntryView { id: *escrow_id, escrow: after },
                    ));
                    lemma_swap_escrow(m, *escrow_id, after);
                    assert(self@ == m.with_escrow(*escrow_id, after));
                    if completes {
                        lemma_account_at(self@, beneficiary);
                    }
                }
                if completes {
                    self.credit(&beneficiary, amount, digests.credited);
                }
            },
            Operation::RejectEscrow { escrow_id } => {
                proof {
                    lemma_escrow_at(m, *escrow_id);
                }
                let i = self.find_escrow(escrow_id).unwrap();
                let pending = self.escrows[i].escrow.is_pending();
                let initiator = self.escrows[i].escrow.initiator;
                let amount = self.escrows[i].escrow.amount;
                let accepted = self.escrows[i].escrow.record_rejection(author);
                proof {
                    assert(accepted);
                    let before = m.escrow(*escrow_id);
                    assert(m.escrows[i as int].escrow.wf());
                    let after = before.after_rejection();
                    assert(self@.escrows =~= m.escrows.update(
                        i as int,
                        EscrowEntryView { id: *escrow_id, escrow: after },
                    ));
                    lemma_swap_escrow(m, *escrow_id, after);
                    assert(self@ == m.with_escrow(*escrow_id, after));
                    if pending {
                        lemma_account_at(self@, initiator);
                    }
                }
                if pending {
                    self.credit(&initiator, amount, digests.credited);
                }
            },
        }
        proof {
            assert(self@ == m.applied(author, op_id, *op, digests));
        }
        Ok(())
    }

    /// Delivers `op` if the ledger admits it: `Some` with the result of
    /// `apply`, or `None`, with nothing changed, where the identifier is
    /// already on record or what the operation mints would not fit.
    pub fn submit(
        &mut self,
        author: PublicKey,
        op_id: keys::Hash,
        op: &Operation,
        digests: HistoryDigests,
    ) -> (r: Option<Result<(), Error>>)
        requires
            old(self).wf(),
        ensures
            final(self).wf(),
            r == old(self)@.reply(author, op_id, *op),
            final(self)@ == old(self)@.submitted(author, op_id, *op, digests),
    {
        if !self.admits(&author, &op_id, op) {
            return None;
        }
        Some(self.apply(author, op_id, op, digests))
    }

    /// Delivers a batch, one operation at a time and in its order, each
    /// against the ledger that the ones before it left. The replies come in
    /// the same order.
    pub fn submit_all(&mut self, batch: &Vec<Delivery>) -> (replies: Vec<Option<Result<(), Error>>>)
        requires
            old(self).wf(),
        ensures
            final(self).wf(),
            final(self)@ == run_submitted(old(self)@, batch@),
            replies@ == replies_to(old(self)@, batch@),
    {
        let mut replies: Vec<Option<Result<(), Error>>> = Vec::new();
        let mut i: usize = 0;
        while i < batch.len()
            invariant
                i <= batch.len(),
                self.wf(),
                self@ == run_submitted(old(self)@, batch@.take(i as int)),
                replies@ == replies_to(old(self)@, batch@.take(i as int)),
            decreases batch.len() - i,
        {
            proof {
                assert(batch@.take(i + 1).drop_last() =~= batch@.take(i as int));
            }
            let d = &batch[i];
            let reply = self.submit(d.author, d.op_id, &d.op, d.digests);
            replies.push(reply);
            i += 1;
        }
        proof {
            assert(batch@.take(i as int) =~= batch@);
        }
        replies
    }
}

} // verus!
