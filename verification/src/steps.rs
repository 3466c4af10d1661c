//! Each change that an operation makes to the ledger keeps its invariant and
//! accounts for every unit of value.

use vstd::prelude::*;
use crate::escrow::lemma_opened_wf;
use crate::escrow::lemma_transitions_keep_wf;
use crate::escrow::EscrowState;
use crate::escrow::EscrowView;
use crate::keys;
use crate::keys::PublicKey;
use crate::lookup::lemma_first_index;
use crate::lookup::lemma_only_position;
use crate::lookup::lemma_push_fresh;
use crate::operation::HistoryDigests;
use crate::operation::Operation;
use crate::operation::OperationKind;
use crate::state::balances;
use crate::state::credited;
use crate::state::debited;
use crate::state::held;
use crate::state::owners_of;
use crate::state::EscrowEntryView;
use crate::state::LedgerState;
use crate::sums::lemma_balances_push;
use crate::sums::lemma_balances_update;
use crate::sums::lemma_held_push;
use crate::sums::lemma_held_update;
use crate::wallet::Wallet;

verus! {

/// Whether every history is shorter than the record of operations.
pub open spec fn histories_can_grow(s: LedgerState) -> bool {
    forall|i: int|
        0 <= i < s.accounts.len() ==> (#[trigger] s.accounts[i]).history_len < s.log.len()
}

/// An owner's account stands at the owner's position.
pub proof fn lemma_account_at(s: LedgerState, key: PublicKey)
    requires
        s.has_account(key),
    ensures
        0 <= s.account_index(key) < s.accounts.len(),
        s.accounts[s.account_index(key)].pub_key == key,
{
    lemma_first_index(s.owners(), key);
}

/// An escrow stands at the position of its identifier.
pub proof fn lemma_escrow_at(s: LedgerState, id: keys::Hash)
    requires
        s.has_escrow(id),
    ensures
        0 <= s.escrow_index(id) < s.escrows.len(),
        s.escrows[s.escrow_index(id)].id == id,
{
    lemma_first_index(s.escrow_ids(), id);
}

/// Putting an outcome on record keeps the invariant and leaves every
/// history room to grow.
pub proof fn lemma_recorded(s: LedgerState, op_id: keys::Hash, kind: OperationKind, applied: bool)
    requires
        s.wf(),
        s.has_room(),
        !s.knows(op_id),
    ensures
        s.recorded(op_id, kind, applied).wf(),
        s.recorded(op_id, kind, applied).knows(op_id),
        s.recorded(op_id, kind, applied).logged(op_id).record.execution_status == applied,
        s.recorded(op_id, kind, applied).logged(op_id).kind == kind,
        forall|id: keys::Hash|
            s.knows(id) ==> s.recorded(op_id, kind, applied).knows(id) && s.recorded(
                op_id,
                kind,
                applied,
            ).logged(id) == s.logged(id),
        histories_can_grow(s.recorded(op_id, kind, applied)),
{
    let m = s.recorded(op_id, kind, applied);
    assert(m.log_ids() =~= s.log_ids().push(op_id));
    lemma_push_fresh(s.log_ids(), op_id);
    let last = s.log.len() as int;
    assert(m.log_ids()[last] == op_id);
    lemma_only_position(m.log_ids(), last);
    assert forall|id: keys::Hash| s.knows(id) implies m.knows(id) && m.logged(id) == s.logged(
        id,
    ) by {
        lemma_first_index(s.log_ids(), id);
    }
    assert forall|i: int| 0 <= i < m.escrows.len() implies m.opened_escrow(
        (#[trigger] m.escrows[i]).id,
    ) by {
        assert(s.opened_escrow(s.escrows[i].id));
    }
}

/// Replacing an account by one of the same owner keeps the invariant, if its
/// history is no longer than the record and the total value still fits.
pub proof fn lemma_touch(s: LedgerState, i: int, w: Wallet)
    requires
        s.wf(),
        0 <= i < s.accounts.len(),
        w.pub_key == s.accounts[i].pub_key,
        w.history_len <= s.log.len(),
        s.total_value() - s.accounts[i].balance + w.balance <= u64::MAX,
    ensures
        (LedgerState { accounts: s.accounts.update(i, w), ..s }).wf(),
        owners_of(s.accounts.update(i, w)) == owners_of(s.accounts),
        balances(s.accounts.update(i, w)) == balances(s.accounts) - s.accounts[i].balance
            + w.balance,
{
    let t = LedgerState { accounts: s.accounts.update(i, w), ..s };
    assert(owners_of(t.accounts) =~= owners_of(s.accounts));
    lemma_balances_update(s.accounts, i, w);
    assert forall|j: int| 0 <= j < t.accounts.len() implies (#[trigger] t.accounts[j]).history_len
        <= t.log.len() by {
        if j != i {
            assert(t.accounts[j] == s.accounts[j]);
        }
    }
    assert forall|j: int| 0 <= j < t.escrows.len() implies {
        &&& (#[trigger] t.escrows[j]).escrow.wf()
        &&& t.has_account(t.escrows[j].escrow.initiator)
        &&& t.has_account(t.escrows[j].escrow.beneficiary)
        &&& t.opened_escrow(t.escrows[j].id)
    } by {
        assert(t.escrows[j] == s.escrows[j]);
    }
}

/// A credit that fits keeps the invariant and adds the amount to the total.
pub proof fn lemma_credit(s: LedgerState, key: PublicKey, amount: u64, digest: keys::Hash)
    requires
        s.wf(),
        s.has_account(key),
        s.account(key).history_len < s.log.len(),
        s.total_value() + amount <= u64::MAX,
    ensures
        s.credit(key, amount, digest).wf(),
        s.credit(key, amount, digest).owners() == s.owners(),
        s.credit(key, amount, digest).total_value() == s.total_value() + amount,
        s.credit(key, amount, digest).escrows == s.escrows,
        s.credit(key, amount, digest).log == s.log,
        s.credit(key, amount, digest).accounts == s.accounts.update(
            s.account_index(key),
            credited(s.account(key), amount, digest),
        ),
        s.account(key).balance + amount <= u64::MAX,
{
    lemma_account_at(s, key);
    let i = s.account_index(key);
    lemma_balances_update(s.accounts, i, s.accounts[i]);
    lemma_touch(s, i, credited(s.accounts[i], amount, digest));
}

/// A debit that the balance covers keeps the invariant and takes the amount
/// from the total.
pub proof fn lemma_debit(s: LedgerState, key: PublicKey, amount: u64, digest: keys::Hash)
    requires
        s.wf(),
        s.has_account(key),
        s.account(key).history_len < s.log.len(),
        s.account(key).balance >= amount,
    ensures
        s.debit(key, amount, digest).wf(),
        s.debit(key, amount, digest).owners() == s.owners(),
        s.debit(key, amount, digest).total_value() == s.total_value() - amount,
        s.debit(key, amount, digest).escrows == s.escrows,
        s.debit(key, amount, digest).log == s.log,
        s.debit(key, amount, digest).accounts == s.accounts.update(
            s.account_index(key),
            debited(s.account(key), amount, digest),
        ),
{
    lemma_account_at(s, key);
    let i = s.account_index(key);
    lemma_balances_update(s.accounts, i, s.accounts[i]);
    lemma_touch(s, i, debited(s.accounts[i], amount, digest));
}

/// A new account of a new owner keeps the invariant and adds its balance to
/// the total.
pub proof fn lemma_create(s: LedgerState, w: Wallet)
    requires
        s.wf(),
        !s.has_account(w.pub_key),
        w.history_len <= s.log.len(),
        s.total_value() + w.balance <= u64::MAX,
    ensures
        (LedgerState { accounts: s.accounts.push(w), ..s }).wf(),
        (LedgerState { accounts: s.accounts.push(w), ..s }).total_value() == s.total_value()
            + w.balance,
{
    let t = LedgerState { accounts: s.accounts.push(w), ..s };
    assert(t.owners() =~= s.owners().push(w.pub_key));
    lemma_push_fresh(s.owners(), w.pub_key);
    lemma_balances_push(s.accounts, w);
    assert forall|j: int| 0 <= j < t.accounts.len() implies (#[trigger] t.accounts[j]).history_len
        <= t.log.len() by {
        if j < s.accounts.len() {
            assert(t.accounts[j] == s.accounts[j]);
        }
    }
    assert forall|j: int| 0 <= j < t.escrows.len() implies {
        &&& (#[trigger] t.escrows[j]).escrow.wf()
        &&& t.has_account(t.escrows[j].escrow.initiator)
        &&& t.has_account(t.escrows[j].escrow.beneficiary)
        &&& t.opened_escrow(t.escrows[j].id)
    } by {
        assert(t.escrows[j] == s.escrows[j]);
        assert(s.has_account(s.escrows[j].escrow.initiator));
        assert(s.has_account(s.escrows[j].escrow.beneficiary));
    }
}

/// A new escrow under a new identifier keeps the invariant and adds what it
/// holds to the total.
pub proof fn lemma_open_escrow(s: LedgerState, id: keys::Hash, e: EscrowView)
    requires
        s.wf(),
        !s.has_escrow(id),
        s.opened_escrow(id),
        e.wf(),
        s.has_account(e.initiator),
        s.has_account(e.beneficiary),
        s.total_value() + e.held() <= u64::MAX,
    ensures
        (LedgerState { escrows: s.escrows.push(EscrowEntryView { id, escrow: e }), ..s }).wf(),
        (LedgerState {
            escrows: s.escrows.push(EscrowEntryView { id, escrow: e }),
            ..s
        }).total_value() == s.total_value() + e.held(),
{
    let entry = EscrowEntryView { id, escrow: e };
    let t = LedgerState { escrows: s.escrows.push(entry), ..s };
    assert(t.escrow_ids() =~= s.escrow_ids().push(id));
    lemma_push_fresh(s.escrow_ids(), id);
    lemma_held_push(s.escrows, entry);
    assert forall|j: int| 0 <= j < t.escrows.len() implies {
        &&& (#[trigger] t.escrows[j]).escrow.wf()
        &&& t.has_account(t.escrows[j].escrow.initiator)
        &&& t.has_account(t.escrows[j].escrow.beneficiary)
        &&& t.opened_escrow(t.escrows[j].id)
    } by {
        if j < s.escrows.len() {
            assert(t.escrows[j] == s.escrows[j]);
        }
    }
}

/// Replacing an escrow by a well-formed one with the same parties that holds
/// no more keeps the invariant and exchanges what is held in the total.
pub proof fn lemma_swap_escrow(s: LedgerState, id: keys::Hash, e: EscrowView)
    requires
        s.wf(),
        s.has_escrow(id),
        e.wf(),
        e.initiator == s.escrow(id).initiator,
        e.beneficiary == s.escrow(id).beneficiary,
        e.held() <= s.escrow(id).held(),
    ensures
        s.with_escrow(id, e).wf(),
        s.with_escrow(id, e).accounts == s.accounts,
        s.with_escrow(id, e).log == s.log,
        s.with_escrow(id, e).total_value() == s.total_value() - s.escrow(id).held() + e.held(),
        s.escrow(id).held() <= held(s.escrows),
        e == s.escrow(id) ==> s.with_escrow(id, e) == s,
{
    lemma_escrow_at(s, id);
    let i = s.escrow_index(id);
    let entry = EscrowEntryView { id, escrow: e };
    let t = s.with_escrow(id, e);
    assert(t.escrow_ids() =~= s.escrow_ids());
    lemma_held_update(s.escrows, i, entry);
    assert forall|j: int| 0 <= j < t.escrows.len() implies {
        &&& (#[trigger] t.escrows[j]).escrow.wf()
        &&& t.has_account(t.escrows[j].escrow.initiator)
        &&& t.has_account(t.escrows[j].escrow.beneficiary)
        &&& t.opened_escrow(t.escrows[j].id)
    } by {
        if j != i {
            assert(t.escrows[j] == s.escrows[j]);
        } else {
            assert(s.opened_escrow(s.escrows[i].id));
            assert(s.has_account(s.escrows[i].escrow.initiator));
            assert(s.has_account(s.escrows[i].escrow.beneficiary));
        }
    }
    if e == s.escrow(id) {
        assert(t.escrows =~= s.escrows);
    }
}

/// What one delivery does to a well-formed ledger.
pub open spec fn step_holds(
    s: LedgerState,
    author: PublicKey,
    op_id: keys::Hash,
    op: Operation,
    digests: HistoryDigests,
) -> bool {
    let n = s.next(author, op_id, op, digests);
    &&& n.wf()
    &&& n.total_value() == s.total_value() + s.minted(author, op)
    &&& n.accounts.len() >= s.accounts.len()
    &&& n.escrows.len() >= s.escrows.len()
    &&& forall|i: int|
        0 <= i < s.accounts.len() ==> (#[trigger] n.accounts[i]).pub_key
            == s.accounts[i].pub_key
    &&& forall|i: int|
        0 <= i < s.escrows.len() ==> (#[trigger] n.escrows[i]).id == s.escrows[i].id
    &&& forall|i: int|
        0 <= i < s.escrows.len() && s.escrows[i].escrow.is_terminal() ==> (
        #[trigger] n.escrows[i]) == s.escrows[i]
}

/// No escrow stands under an identifier that is not on record.
pub proof fn lemma_unknown_has_no_escrow(s: LedgerState, id: keys::Hash)
    requires
        s.wf(),
        !s.knows(id),
    ensures
        !s.has_escrow(id),
{
    if s.has_escrow(id) {
        let i = choose|i: int| 0 <= i < s.escrow_ids().len() && s.escrow_ids()[i] == id;
        assert(s.opened_escrow(s.escrows[i].id));
    }
}

/// The step of an applied account creation.
proof fn lemma_step_create(
    s: LedgerState,
    author: PublicKey,
    op_id: keys::Hash,
    op: Operation,
    digests: HistoryDigests,
)
    requires
        s.wf(),
        s.admits(author, op_id, op),
        s.has_room(),
        s.verdict(author, op).is_ok(),
        op is CreateAccount,
    ensures
        step_holds(s, author, op_id, op, digests),
{
    let m = s.recorded(op_id, op.kind_of(), true);
    lemma_recorded(s, op_id, op.kind_of(), true);
    let a = m.applied(author, op_id, op, digests);
    assert(a == s.next(author, op_id, op, digests));
    let w = a.accounts[s.accounts.len() as int];
    lemma_create(m, w);
}

/// The step of an applied issue.
proof fn lemma_step_issue(
    s: LedgerState,
    author: PublicKey,
    op_id: keys::Hash,
    op: Operation,
    digests: HistoryDigests,
)
    requires
        s.wf(),
        s.admits(author, op_id, op),
        s.has_room(),
        s.verdict(author, op).is_ok(),
        op is Issue,
    ensures
        step_holds(s, author, op_id, op, digests),
{
    let m = s.recorded(op_id, op.kind_of(), true);
    lemma_recorded(s, op_id, op.kind_of(), true);
    let a = m.applied(author, op_id, op, digests);
    assert(a == s.next(author, op_id, op, digests));
    lemma_account_at(m, author);
    lemma_credit(m, author, op->Issue_amount, digests.credited);
}

/// The step of an applied transfer.
proof fn lemma_step_transfer(
    s: LedgerState,
    author: PublicKey,
    op_id: keys::Hash,
    op: Operation,
    digests: HistoryDigests,
)
    requires
        s.wf(),
        s.admits(author, op_id, op),
        s.has_room(),
        s.verdict(author, op).is_ok(),
        op is Transfer,
    ensures
        step_holds(s, author, op_id, op, digests),
{
    let to = op->Transfer_to;
    let amount = op->Transfer_amount;
    let m = s.recorded(op_id, op.kind_of(), true);
    lemma_recorded(s, op_id, op.kind_of(), true);
    let a = m.applied(author, op_id, op, digests);
    assert(a == s.next(author, op_id, op, digests));
    lemma_account_at(m, author);
    lemma_account_at(m, to);
    lemma_debit(m, author, amount, digests.debited);
    let p = m.debit(author, amount, digests.debited);
    assert(p.account_index(to) == m.account_index(to));
    lemma_credit(p, to, amount, digests.credited);
}

/// The step of an applied escrowed transfer.
proof fn lemma_step_escrow_transfer(
    s: LedgerState,
    author: PublicKey,
    op_id: keys::Hash,
    op: Operation,
    digests: HistoryDigests,
)
    requires
        s.wf(),
        s.admits(author, op_id, op),
        s.has_room(),
        s.verdict(author, op).is_ok(),
        op is EscrowTransfer,
    ensures
        step_holds(s, author, op_id, op, digests),
{
    let to = op->EscrowTransfer_to;
    let amount = op->EscrowTransfer_amount;
    let approvers = op->EscrowTransfer_approvers;
    let m = s.recorded(op_id, op.kind_of(), true);
    lemma_recorded(s, op_id, op.kind_of(), true);
    lemma_unknown_has_no_escrow(s, op_id);
    let a = m.applied(author, op_id, op, digests);
    assert(a == s.next(author, op_id, op, digests));
    lemma_account_at(m, author);
    lemma_debit(m, author, amount, digests.debited);
    let p = m.debit(author, amount, digests.debited);
    let e = EscrowView::opened(author, to, approvers@, amount);
    lemma_opened_wf(author, to, approvers@, amount);
    lemma_open_escrow(p, op_id, e);
    assert(a == LedgerState {
        escrows: p.escrows.push(EscrowEntryView { id: op_id, escrow: e }),
        ..p
    });
}

/// The step of an accepted approval.
proof fn lemma_step_approve(
    s: LedgerState,
    author: PublicKey,
    op_id: keys::Hash,
    op: Operation,
    digests: HistoryDigests,
)
    requires
        s.wf(),
        s.admits(author, op_id, op),
        s.has_room(),
        s.verdict(author, op).is_ok(),
        op is ApproveEscrow,
    ensures
        step_holds(s, author, op_id, op, digests),
{
    let id = op->ApproveEscrow_escrow_id;
    let m = s.recorded(op_id, op.kind_of(), true);
    lemma_recorded(s, op_id, op.kind_of(), true);
    let a = m.applied(author, op_id, op, digests);
    assert(a == s.next(author, op_id, op, digests));
    lemma_escrow_at(m, id);
    let i = m.escrow_index(id);
    let before = m.escrow(id);
    assert(m.escrows[i].escrow.wf());
    let after = before.after_approval(author);
    lemma_transitions_keep_wf(before, author);
    lemma_swap_escrow(m, id, after);
    let k = m.with_escrow(id, after);
    if before.completes_with(author) {
        lemma_account_at(k, before.beneficiary);
        lemma_credit(k, before.beneficiary, before.amount, digests.credited);
    }
}

/// The step of an accepted rejection.
proof fn lemma_step_reject(
    s: LedgerState,
    author: PublicKey,
    op_id: keys::Hash,
    op: Operation,
    digests: HistoryDigests,
)
    requires
        s.wf(),
        s.admits(author, op_id, op),
        s.has_room(),
        s.verdict(author, op).is_ok(),
        op is RejectEscrow,
    ensures
        step_holds(s, author, op_id, op, digests),
{
    let id = op->RejectEscrow_escrow_id;
    let m = s.recorded(op_id, op.kind_of(), true);
    lemma_recorded(s, op_id, op.kind_of(), true);
    let a = m.applied(author, op_id, op, digests);
    assert(a == s.next(author, op_id, op, digests));
    lemma_escrow_at(m, id);
    let i = m.escrow_index(id);
    let before = m.escrow(id);
    assert(m.escrows[i].escrow.wf());
    let after = before.after_rejection();
    lemma_transitions_keep_wf(before, author);
    lemma_swap_escrow(m, id, after);
    let k = m.with_escrow(id, after);
    if before.state == EscrowState::Pending {
        lemma_account_at(k, before.initiator);
        lemma_credit(k, before.initiator, before.amount, digests.credited);
    }
}

/// One delivery that the ledger admits keeps the invariant, changes the total
/// value by exactly what the operation mints, keeps every account and escrow
/// in its place, and leaves every settled escrow as it was.
pub proof fn lemma_step(
    s: LedgerState,
    author: PublicKey,
    op_id: keys::Hash,
    op: Operation,
    digests: HistoryDigests,
)
    requires
        s.wf(),
        s.admits(author, op_id, op),
        s.has_room(),
    ensures
        step_holds(s, author, op_id, op, digests),
{
    if s.verdict(author, op).is_ok() {
        match op {
            Operation::CreateAccount { .. } => lemma_step_create(s, author, op_id, op, digests),
            Operation::Issue { .. } => lemma_step_issue(s, author, op_id, op, digests),
            Operation::Transfer { .. } => lemma_step_transfer(s, author, op_id, op, digests),
            Operation::EscrowTransfer { .. } => lemma_step_escrow_transfer(
                s,
                author,
                op_id,
                op,
                digests,
            ),
            Operation::ApproveEscrow { .. } => lemma_step_approve(
                s,
                author,
                op_id,
                op,
                digests,
            ),
            Operation::RejectEscrow { .. } => lemma_step_reject(s, author, op_id, op, digests),
        }
    } else {
        lemma_recorded(s, op_id, op.kind_of(), false);
    }
}

} // verus!
