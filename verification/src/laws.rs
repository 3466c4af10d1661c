//! What holds of the ledger over whole sequences of deliveries.

use vstd::prelude::*;
use crate::delivery::admissible;
use crate::delivery::deliver;
use crate::delivery::Delivery;
use crate::delivery::replies_to;
use crate::delivery::run;
use crate::delivery::run_submitted;
use crate::error::Error;
use crate::escrow::EscrowState;
use crate::keys::PublicKey;
use crate::keys;
use crate::lookup::lemma_only_position;
use crate::operation::HistoryDigests;
use crate::operation::INITIAL_BALANCE;
use crate::operation::Operation;
use crate::state::LedgerState;
use crate::state::LogEntry;
use crate::steps::lemma_account_at;
use crate::steps::lemma_escrow_at;
use crate::steps::lemma_step;
use crate::steps::lemma_swap_escrow;
use crate::tx_metarecord::TxMetaRecord;

verus! {

/// Whether the delivery is applied by the ledger `s`.
pub open spec fn succeeds(s: LedgerState, d: Delivery) -> bool {
    s.verdict(d.author, d.op).is_ok()
}

/// Number of accounts that the deliveries `ds` create.
pub open spec fn accounts_created(s: LedgerState, ds: Seq<Delivery>) -> nat
    decreases ds.len(),
{
    if ds.len() == 0 {
        0
    } else {
        let before = run(s, ds.drop_last());
        accounts_created(s, ds.drop_last()) + if ds.last().op is CreateAccount && succeeds(
            before,
            ds.last(),
        ) {
            1nat
        } else {
            0nat
        }
    }
}

/// Sum of the amounts that the deliveries `ds` issue.
pub open spec fn amount_issued(s: LedgerState, ds: Seq<Delivery>) -> nat
    decreases ds.len(),
{
    if ds.len() == 0 {
        0
    } else {
        let before = run(s, ds.drop_last());
        amount_issued(s, ds.drop_last()) + if ds.last().op is Issue && succeeds(
            before,
            ds.last(),
        ) {
            ds.last().op->Issue_amount as nat
        } else {
            0nat
        }
    }
}

/// Invariance: whatever is delivered to a well-formed ledger, and admitted,
/// leaves a well-formed ledger.
pub proof fn law_invariant_is_kept(s: LedgerState, ds: Seq<Delivery>)
    requires
        s.wf(),
        admissible(s, ds),
    ensures
        run(s, ds).wf(),
    decreases ds.len(),
{
    if ds.len() > 0 {
        law_invariant_is_kept(s, ds.drop_last());
        let d = ds.last();
        lemma_step(run(s, ds.drop_last()), d.author, d.op_id, d.op, d.digests);
    }
}

/// Conservation, one step: a delivery changes the sum of all balances and of
/// all amounts held by pending escrows by what it mints, and a delivery that
/// is no applied account creation or issue changes it not at all.
pub proof fn law_conservation_step(s: LedgerState, d: Delivery)
    requires
        s.wf(),
        s.admits(d.author, d.op_id, d.op),
        s.has_room(),
    ensures
        deliver(s, d).total_value() == s.total_value() + s.minted(d.author, d.op),
        !succeeds(s, d) || !(d.op is CreateAccount || d.op is Issue) ==> deliver(
            s,
            d,
        ).total_value() == s.total_value(),
{
    lemma_step(s, d.author, d.op_id, d.op, d.digests);
}

/// Conservation: after any sequence of deliveries, the sum of all balances
/// and of all amounts held by pending escrows has grown by the initial
/// balance for each account created, and by each amount issued.
pub proof fn law_conservation(s: LedgerState, ds: Seq<Delivery>)
    requires
        s.wf(),
        admissible(s, ds),
    ensures
        run(s, ds).total_value() == s.total_value() + INITIAL_BALANCE * accounts_created(s, ds)
            + amount_issued(s, ds),
    decreases ds.len(),
{
    if ds.len() > 0 {
        let rest = ds.drop_last();
        let d = ds.last();
        law_conservation(s, rest);
        law_invariant_is_kept(s, rest);
        lemma_step(run(s, rest), d.author, d.op_id, d.op, d.digests);
        assert(INITIAL_BALANCE * (accounts_created(s, rest) + 1) == INITIAL_BALANCE
            * accounts_created(s, rest) + INITIAL_BALANCE) by (nonlinear_arith);
    }
}

/// Conservation from the start: in a ledger that began empty, the balances
/// and the amounts held by pending escrows sum to the initial balance times
/// the number of accounts created, plus the amounts issued.
pub proof fn law_conservation_from_empty(ds: Seq<Delivery>)
    requires
        admissible(LedgerState::empty(), ds),
    ensures
        run(LedgerState::empty(), ds).total_value() == INITIAL_BALANCE * accounts_created(
            LedgerState::empty(),
            ds,
        ) + amount_issued(LedgerState::empty(), ds),
{
    law_conservation(LedgerState::empty(), ds);
}

/// Settlement is final, one step: no delivery changes an escrow that is
/// `Done` or `Rejected`.
pub proof fn law_settled_escrow_stays(s: LedgerState, d: Delivery, i: int)
    requires
        s.wf(),
        s.admits(d.author, d.op_id, d.op),
        s.has_room(),
        0 <= i < s.escrows.len(),
        s.escrows[i].escrow.is_terminal(),
    ensures
        i < deliver(s, d).escrows.len(),
        deliver(s, d).escrows[i] == s.escrows[i],
{
    lemma_step(s, d.author, d.op_id, d.op, d.digests);
}

/// Settlement is final: an escrow that is `Done` or `Rejected` is the same
/// after any sequence of deliveries, so it never reaches the other of the
/// two states.
pub proof fn law_settlement_is_final(s: LedgerState, ds: Seq<Delivery>, i: int)
    requires
        s.wf(),
        admissible(s, ds),
        0 <= i < s.escrows.len(),
        s.escrows[i].escrow.is_terminal(),
    ensures
        i < run(s, ds).escrows.len(),
        run(s, ds).escrows[i] == s.escrows[i],
    decreases ds.len(),
{
    if ds.len() > 0 {
        let rest = ds.drop_last();
        law_settlement_is_final(s, rest, i);
        law_invariant_is_kept(s, rest);
        law_settled_escrow_stays(run(s, rest), ds.last(), i);
    }
}

/// No double settlement: an approval of a rejected escrow fails as
/// `EscrowAlreadyRejected`; an approval of a done escrow, and a rejection of
/// a settled one, are refused as `ApproverNotEligible` or accepted without
/// effect. Either way no balance and no escrow changes.
pub proof fn law_no_double_settlement(
    s: LedgerState,
    author: PublicKey,
    op_id: keys::Hash,
    op: Operation,
    digests: HistoryDigests,
    id: keys::Hash,
)
    requires
        s.wf(),
        op == (Operation::ApproveEscrow { escrow_id: id }) || op == (Operation::RejectEscrow {
            escrow_id: id,
        }),
        s.has_escrow(id),
        s.escrow(id).is_terminal(),
    ensures
        s.next(author, op_id, op, digests).accounts == s.accounts,
        s.next(author, op_id, op, digests).escrows == s.escrows,
        op is ApproveEscrow && s.escrow(id).state == EscrowState::Rejected ==> s.verdict(
            author,
            op,
        ) == Err::<(), Error>(Error::EscrowAlreadyRejected),
        !(op is ApproveEscrow && s.escrow(id).state == EscrowState::Rejected) ==> s.verdict(
            author,
            op,
        ) == if s.escrow(id).eligible(author) {
            Ok::<(), Error>(())
        } else {
            Err::<(), Error>(Error::ApproverNotEligible)
        },
{
    lemma_escrow_at(s, id);
    let i = s.escrow_index(id);
    assert(s.opened_escrow(s.escrows[i].id));
    assert(s.escrows[i].escrow.wf());
    assert(s.referral_verdict(id).is_ok());
    if s.verdict(author, op).is_ok() {
        lemma_swap_escrow(s, id, s.escrow(id));
    }
}

/// Atomicity: a delivery that fails validation changes no account and no
/// escrow; it only goes on record as refused.
pub proof fn law_refusal_changes_nothing(
    s: LedgerState,
    author: PublicKey,
    op_id: keys::Hash,
    op: Operation,
    digests: HistoryDigests,
)
    requires
        s.verdict(author, op).is_err(),
    ensures
        s.next(author, op_id, op, digests).accounts == s.accounts,
        s.next(author, op_id, op, digests).escrows == s.escrows,
        s.next(author, op_id, op, digests).log == s.log.push(
            LogEntry {
                record: TxMetaRecord { tx_hash: op_id, execution_status: false },
                kind: op.kind_of(),
            },
        ),
{
}

/// Histories: a delivery leaves every account in its place, under its owner
/// and its name. The account that it debits and the account that it
/// credits get exactly one more history event each, sealed by the digest
/// that was delivered for it; every other account stays as it was. An
/// account that it creates has a history of length one.
pub proof fn law_histories_grow_by_one(s: LedgerState, d: Delivery, i: int)
    requires
        s.wf(),
        s.admits(d.author, d.op_id, d.op),
        s.has_room(),
        0 <= i < s.accounts.len(),
    ensures
        i < deliver(s, d).accounts.len(),
        deliver(s, d).accounts[i].pub_key == s.accounts[i].pub_key,
        deliver(s, d).accounts[i].login == s.accounts[i].login,
        s.payer(d.author, d.op) == Some(s.accounts[i].pub_key) ==> deliver(s, d).accounts[i]
            == s.accounts[i].with_balance(deliver(s, d).accounts[i].balance).with_event(
            d.digests.debited,
        ),
        s.payee(d.author, d.op) == Some(s.accounts[i].pub_key) ==> deliver(s, d).accounts[i]
            == s.accounts[i].with_balance(deliver(s, d).accounts[i].balance).with_event(
            d.digests.credited,
        ),
        s.payer(d.author, d.op) != Some(s.accounts[i].pub_key) && s.payee(d.author, d.op)
            != Some(s.accounts[i].pub_key) ==> deliver(s, d).accounts[i] == s.accounts[i],
        d.op is CreateAccount && succeeds(s, d) ==> deliver(s, d).accounts.len()
            == s.accounts.len() + 1 && deliver(s, d).accounts[s.accounts.len() as int].history_len
            == 1,
{
    let n = deliver(s, d);
    let k = s.accounts[i].pub_key;
    lemma_step(s, d.author, d.op_id, d.op, d.digests);
    assert(s.owners()[i] == k);
    lemma_only_position(s.owners(), i);
    if succeeds(s, d) {
        match d.op {
            Operation::CreateAccount { .. } => {},
            Operation::Issue { .. } => {
                lemma_account_at(s, d.author);
            },
            Operation::Transfer { to, amount } => {
                lemma_account_at(s, d.author);
                lemma_account_at(s, to);
                let p = s.debit(d.author, amount, d.digests.debited);
                assert(p.owners() =~= s.owners());
            },
            Operation::EscrowTransfer { .. } => {
                lemma_account_at(s, d.author);
            },
            Operation::ApproveEscrow { escrow_id } => {
                lemma_escrow_at(s, escrow_id);
                let before = s.escrow(escrow_id);
                assert(s.escrows[s.escrow_index(escrow_id)].escrow.wf());
                lemma_account_at(s, before.beneficiary);
            },
            Operation::RejectEscrow { escrow_id } => {
                lemma_escrow_at(s, escrow_id);
                let before = s.escrow(escrow_id);
                assert(s.escrows[s.escrow_index(escrow_id)].escrow.wf());
                lemma_account_at(s, before.initiator);
            },
        }
    }
}

/// A batch that the ledger admits throughout is applied throughout: every
/// delivery gets a verdict, and the ledger is the one that the deliveries
/// lead to.
pub proof fn law_admitted_batch_is_applied(s: LedgerState, ds: Seq<Delivery>)
    requires
        admissible(s, ds),
    ensures
        run_submitted(s, ds) == run(s, ds),
        replies_to(s, ds).len() == ds.len(),
        forall|i: int| 0 <= i < ds.len() ==> (#[trigger] replies_to(s, ds)[i]).is_some(),
    decreases ds.len(),
{
    if ds.len() > 0 {
        law_admitted_batch_is_applied(s, ds.drop_last());
    }
}

/// The terms of an escrow are fixed: a delivery leaves every escrow in its
/// place and under its identifier, with its parties, its amount and its
/// approvers; the approvals on record stay, and at most one is added.
pub proof fn law_escrow_terms_are_fixed(s: LedgerState, d: Delivery, i: int)
    requires
        s.wf(),
        s.admits(d.author, d.op_id, d.op),
        s.has_room(),
        0 <= i < s.escrows.len(),
    ensures
        i < deliver(s, d).escrows.len(),
        deliver(s, d).escrows[i].id == s.escrows[i].id,
        deliver(s, d).escrows[i].escrow.initiator == s.escrows[i].escrow.initiator,
        deliver(s, d).escrows[i].escrow.beneficiary == s.escrows[i].escrow.beneficiary,
        deliver(s, d).escrows[i].escrow.amount == s.escrows[i].escrow.amount,
        deliver(s, d).escrows[i].escrow.approvers == s.escrows[i].escrow.approvers,
        deliver(s, d).escrows[i].escrow.approved_by == s.escrows[i].escrow.approved_by
            || deliver(s, d).escrows[i].escrow.approved_by
            == s.escrows[i].escrow.approved_by.push(d.author),
{
    lemma_step(s, d.author, d.op_id, d.op, d.digests);
    if succeeds(s, d) {
        match d.op {
            Operation::ApproveEscrow { escrow_id } => {
                lemma_escrow_at(s, escrow_id);
            },
            Operation::RejectEscrow { escrow_id } => {
                lemma_escrow_at(s, escrow_id);
            },
            _ => {},
        }
    }
}

} // verus!
