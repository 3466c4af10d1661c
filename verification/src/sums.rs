//! How the sums over accounts and escrows change with one entry.

use vstd::prelude::*;
use crate::state::balances;
use crate::state::held;
use crate::state::EscrowEntryView;
use crate::wallet::Wallet;

verus! {

/// Appending an account adds its balance to the sum.
pub proof fn lemma_balances_push(accounts: Seq<Wallet>, w: Wallet)
    ensures
        balances(accounts.push(w)) == balances(accounts) + w.balance,
{
    assert(accounts.push(w).drop_last() =~= accounts);
}

/// Replacing an account exchanges its balance in the sum, and no balance
/// exceeds the sum.
pub proof fn lemma_balances_update(accounts: Seq<Wallet>, i: int, w: Wallet)
    requires
        0 <= i < accounts.len(),
    ensures
        balances(accounts.update(i, w)) == balances(accounts) - accounts[i].balance + w.balance,
        accounts[i].balance <= balances(accounts),
    decreases accounts.len(),
{
    let last = accounts.len() - 1;
    if i == last {
        assert(accounts.update(i, w).drop_last() =~= accounts.drop_last());
    } else {
        lemma_balances_update(accounts.drop_last(), i, w);
        assert(accounts.update(i, w).drop_last() =~= accounts.drop_last().update(i, w));
    }
}

/// Appending an escrow adds what it holds to the sum.
pub proof fn lemma_held_push(escrows: Seq<EscrowEntryView>, e: EscrowEntryView)
    ensures
        held(escrows.push(e)) == held(escrows) + e.escrow.held(),
{
    assert(escrows.push(e).drop_last() =~= escrows);
}

/// Replacing an escrow exchanges what it holds in the sum, and no escrow
/// holds more than the sum.
pub proof fn lemma_held_update(escrows: Seq<EscrowEntryView>, i: int, e: EscrowEntryView)
    requires
        0 <= i < escrows.len(),
    ensures
        held(escrows.update(i, e)) == held(escrows) - escrows[i].escrow.held()
            + e.escrow.held(),
        escrows[i].escrow.held() <= held(escrows),
    decreases escrows.len(),
{
    let last = escrows.len() - 1;
    if i == last {
        assert(escrows.update(i, e).drop_last() =~= escrows.drop_last());
    } else {
        lemma_held_update(escrows.drop_last(), i, e);
        assert(escrows.update(i, e).drop_last() =~= escrows.drop_last().update(i, e));
    }
}

/// The balances of the first `n` accounts sum to no more than all of them,
/// and one more account adds its balance.
pub proof fn lemma_balances_prefix(accounts: Seq<Wallet>, n: int)
    requires
        0 <= n <= accounts.len(),
    ensures
        balances(accounts.take(n)) <= balances(accounts),
        n < accounts.len() ==> balances(accounts.take(n + 1)) == balances(accounts.take(n))
            + accounts[n].balance,
    decreases accounts.len(),
{
    if n == accounts.len() {
        assert(accounts.take(n) =~= accounts);
    } else {
        lemma_balances_prefix(accounts.drop_last(), n);
        assert(accounts.drop_last().take(n) =~= accounts.take(n));
        assert(accounts.take(n + 1).drop_last() =~= accounts.take(n));
    }
}

/// What the first `n` escrows hold sums to no more than what all of them
/// hold, and one more escrow adds what it holds.
pub proof fn lemma_held_prefix(escrows: Seq<EscrowEntryView>, n: int)
    requires
        0 <= n <= escrows.len(),
    ensures
        held(escrows.take(n)) <= held(escrows),
        n < escrows.len() ==> held(escrows.take(n + 1)) == held(escrows.take(n))
            + escrows[n].escrow.held(),
    decreases escrows.len(),
{
    if n == escrows.len() {
        assert(escrows.take(n) =~= escrows);
    } else {
        lemma_held_prefix(escrows.drop_last(), n);
        assert(escrows.drop_last().take(n) =~= escrows.take(n));
        assert(escrows.take(n + 1).drop_last() =~= escrows.take(n));
    }
}

} // verus!
