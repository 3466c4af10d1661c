//! Wallet: the account record that the ledger keeps for one identity.

use vstd::prelude::*;
use crate::keys;
use crate::keys::PublicKey;

verus! {

/// Account information kept in the ledger.
#[derive(Clone, Debug, PartialEq, Eq)]
pub struct Wallet {
    /// Owner of the account; never changes.
    pub pub_key: PublicKey,
    /// Display name chosen at creation; never changes.
    pub login: String,
    /// Spendable balance.
    pub balance: u64,
    /// Number of ledger events applied to the account.
    pub history_len: u64,
    /// Digest over the ordered identifiers of those events.
    pub history_hash: keys::Hash,
}

impl Wallet {
    /// Same wallet with another balance.
    pub open spec fn with_balance(self, balance: u64) -> Wallet {
        Wallet { balance, ..self }
    }

    /// Same wallet after one more history event, whose digest is `hash`.
    pub open spec fn with_event(self, hash: keys::Hash) -> Wallet
        recommends
            self.history_len < u64::MAX,
    {
        Wallet { history_len: (self.history_len + 1) as u64, history_hash: hash, ..self }
    }

    /// Creates a wallet from its five fields.
    pub fn new(
        pub_key: &PublicKey,
        login: &str,
        balance: u64,
        history_len: u64,
        history_hash: &keys::Hash,
    ) -> (w: Wallet)
        ensures
            w.pub_key == *pub_key,
            w.login@ == login@,
            w.balance == balance,
            w.history_len == history_len,
            w.history_hash == *history_hash,
    {
        Wallet {
            pub_key: *pub_key,
            login: login.to_owned(),
            balance,
            history_len,
            history_hash: *history_hash,
        }
    }

    /// Owner of the wallet.
    pub fn pub_key(&self) -> (r: &PublicKey)
        ensures
            *r == self.pub_key,
    {
        &self.pub_key
    }

    /// Display name of the wallet.
    pub fn login(&self) -> (r: &str)
        ensures
            r@ == self.login@,
    {
        self.login.as_str()
    }

    /// Current balance.
    pub fn balance(&self) -> (r: u64)
        ensures
            r == self.balance,
    {
        self.balance
    }

    /// Length of the history.
    pub fn history_len(&self) -> (r: u64)
        ensures
            r == self.history_len,
    {
        self.history_len
    }

    /// Digest of the history.
    pub fn history_hash(&self) -> (r: &keys::Hash)
        ensures
            *r == self.history_hash,
    {
        &self.history_hash
    }

    /// Overwrites the balance.
    pub fn set_balance(&mut self, balance: u64)
        ensures
            *final(self) == old(self).with_balance(balance),
    {
        self.balance = balance;
    }

    /// Records one more history event: the length grows by one and the digest
    /// becomes `hash`.
    pub fn grow_length_set_history_hash(&mut self, hash: &keys::Hash)
        requires
            old(self).history_len < u64::MAX,
        ensures
            *final(self) == old(self).with_event(*hash),
    {
        self.history_hash = *hash;
        self.history_len = self.history_len + 1;
    }

    /// Whether `transfer_to` moves `amount` from `self` to `other`.
    pub open spec fn can_transfer(self, other: Wallet, amount: u64) -> bool {
        self.pub_key != other.pub_key && self.balance >= amount
    }

    /// Moves `amount` from this wallet to `other`. Returns `false`, and changes
    /// nothing, if both wallets belong to one owner or if the balance of this
    /// wallet is less than `amount`.
    pub fn transfer_to(&mut self, other: &mut Wallet, amount: u64) -> (moved: bool)
        requires
            old(self).can_transfer(*old(other), amount) ==> old(other).balance + amount
                <= u64::MAX,
        ensures
            moved == old(self).can_transfer(*old(other), amount),
            moved ==> *final(self) == old(self).with_balance(
                (old(self).balance - amount) as u64,
            ) && *final(other) == old(other).with_balance((old(other).balance + amount) as u64),
            !moved ==> *final(self) == *old(self) && *final(other) == *old(other),
    {
        if self.pub_key == other.pub_key {
            return false;
        }
        if self.balance < amount {
            return false;
        }
        let self_amount: u64 = self.balance - amount;
        let other_amount: u64 = other.balance + amount;
        self.set_balance(self_amount);
        other.set_balance(other_amount);
        true
    }

    /// The wallet with `amount` added to its balance.
    pub fn increase_balance(self, amount: u64) -> (w: Wallet)
        requires
            self.balance + amount <= u64::MAX,
        ensures
            w == self.with_balance((self.balance + amount) as u64),
    {
        let balance: u64 = self.balance + amount;
        Wallet { balance, ..self }
    }

    /// The wallet with `amount` taken from its balance.
    pub fn decrease_balance(self, amount: u64) -> (w: Wallet)
        requires
            self.balance >= amount,
        ensures
            w == self.with_balance((self.balance - amount) as u64),
    {
        let balance: u64 = self.balance - amount;
        Wallet { balance, ..self }
    }

    /// The wallet after one more history event, whose digest is `history_hash`.
    pub fn update_history_hash(self, history_hash: keys::Hash) -> (w: Wallet)
        requires
            self.history_len < u64::MAX,
        ensures
            w == self.with_event(history_hash),
    {
        let history_len: u64 = self.history_len + 1;
        Wallet { history_hash, history_len, ..self }
    }
}

} // verus!
