//! Named, balance-holding accounts.

use vstd::prelude::*;

verus! {

/// What an account holds: its identifier, its name and its balance.
pub struct AccountView {
    pub id: u128,
    pub name: Seq<char>,
    pub balance: int,
}

/// A named account with a signed token balance.
#[derive(Debug)]
pub struct Account {
    id: u128,
    user_name: String,
    tokens: i64,
}

impl View for Account {
    type V = AccountView;

    closed spec fn view(&self) -> AccountView {
        AccountView { id: self.id, name: self.user_name@, balance: self.tokens as int }
    }
}

/// Whether `x` is representable as an `i64`.
pub open spec fn fits_i64(x: int) -> bool {
    i64::MIN <= x <= i64::MAX
}

/// Relies on uuid's `Uuid::new_v4`: a random identifier, taken as its
/// 128-bit value. Nothing is known of the value drawn.
#[verifier::external_body]
pub(crate) fn random_id() -> (r: u128) {
    uuid::Uuid::new_v4().as_u128()
}

impl Account {
    /// A new account with a freshly drawn random identifier and no tokens.
    pub fn new(user_name: &str) -> (r: Account)
        ensures
            r@.name == user_name@,
            r@.balance == 0,
    {
        let id = random_id();
        Account::with_id(id, user_name)
    }

    /// A new account with the given identifier and no tokens.
    pub fn with_id(id: u128, user_name: &str) -> (r: Account)
        ensures
            r@ == (AccountView { id, name: user_name@, balance: 0 }),
    {
        Account { id, user_name: user_name.to_owned(), tokens: 0 }
    }

    pub fn id(&self) -> (r: u128)
        ensures
            r == self@.id,
    {
        self.id
    }

    pub fn user_name(&self) -> (r: &str)
        ensures
            r@ == self@.name,
    {
        self.user_name.as_str()
    }

    /// Whether the account's name is `name`.
    pub(crate) fn has_name(&self, name: &String) -> (r: bool)
        ensures
            r == (self@.name == name@),
    {
        self.user_name == *name
    }

    pub fn tokens(&self) -> (r: i64)
        ensures
            r as int == self@.balance,
    {
        self.tokens
    }

    /// Credits `tokens` to the balance.
    pub fn add_tokens(&mut self, tokens: u64)
        requires
            fits_i64(old(self)@.balance + tokens),
        ensures
            final(self)@ == (AccountView { balance: old(self)@.balance + tokens, ..old(self)@ }),
    {
        self.tokens = (self.tokens as i128 + tokens as i128) as i64;
    }

    /// Debits `tokens` from the balance; the balance may go below zero.
    pub fn subtract_tokens(&mut self, tokens: u64)
        requires
            fits_i64(old(self)@.balance - tokens),
        ensures
            final(self)@ == (AccountView { balance: old(self)@.balance - tokens, ..old(self)@ }),
    {
        self.tokens = (self.tokens as i128 - tokens as i128) as i64;
    }
}

impl Clone for Account {
    fn clone(&self) -> (r: Account)
        ensures
            r@ == self@,
    {
        Account { id: self.id, user_name: self.user_name.clone(), tokens: self.tokens }
    }
}

} // verus!
