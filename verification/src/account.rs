//! A plain balance/nonce record for one address. It never reads chain
//! state; collaborators scan the chain and feed changes in.

use vstd::prelude::*;

verus! {

/// One address's balance and next expected transaction nonce.
pub struct Account {
    address: String,
    balance: u64,
    nonce: u64,
}

/// The mathematical content of an account.
pub struct AccountView {
    pub address: Seq<char>,
    pub balance: u64,
    pub nonce: u64,
}

impl View for Account {
    type V = AccountView;

    closed spec fn view(&self) -> AccountView {
        AccountView { address: self.address@, balance: self.balance, nonce: self.nonce }
    }
}

impl Account {
    /// A fresh account with nothing in it.
    pub fn new(address: String) -> (a: Account)
        ensures
            a@.address == address@,
            a@.balance == 0,
            a@.nonce == 0,
    {
        Account { address, balance: 0, nonce: 0 }
    }

    /// Applies a signed balance change; the caller keeps the result within
    /// the balance's range.
    pub fn update_balance(&mut self, amount: i64)
        requires
            0 <= old(self)@.balance + amount <= u64::MAX,
        ensures
            final(self)@.balance == old(self)@.balance + amount,
            final(self)@.address == old(self)@.address,
            final(self)@.nonce == old(self)@.nonce,
    {
        let widened: i128 = self.balance as i128 + amount as i128;
        self.balance = widened as u64;
    }

    /// Steps to the next expected transaction nonce.
    pub fn increment_nonce(&mut self)
        requires
            old(self)@.nonce < u64::MAX,
        ensures
            final(self)@.nonce == old(self)@.nonce + 1,
            final(self)@.address == old(self)@.address,
            final(self)@.balance == old(self)@.balance,
    {
        self.nonce = self.nonce + 1;
    }

    /// Whether a transaction can be applied to this account: the balance
    /// covers the amount and the nonce is the expected one.
    pub fn validate_transaction(&self, transaction_amount: u64, transaction_nonce: u64) -> (r:
        bool)
        ensures
            r == (self@.balance >= transaction_amount && self@.nonce == transaction_nonce),
    {
        self.balance >= transaction_amount && self.nonce == transaction_nonce
    }

    /// The account's address.
    pub fn get_address(&self) -> (r: &str)
        ensures
            r@ == self@.address,
    {
        self.address.as_str()
    }

    /// The account's balance.
    pub fn get_balance(&self) -> (r: u64)
        ensures
            r == self@.balance,
    {
        self.balance
    }

    /// The account's next expected transaction nonce.
    pub fn get_nonce(&self) -> (r: u64)
        ensures
            r == self@.nonce,
    {
        self.nonce
    }
}

} // verus!
