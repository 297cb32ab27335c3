//! A minimal SEP-41 token with configurable decimals.

use crate::primitives::{Address, Table};
use vstd::prelude::*;

verus! {

/// A token kept in memory: the balances of its holders in raw units.
#[derive(Debug)]
pub struct MockSep41Token {
    pub admin: Option<Address>,
    pub decimals: Option<u32>,
    pub balances: Table<Address, i128>,
}

impl MockSep41Token {
    /// What `id` holds; an unknown address holds nothing.
    pub open spec fn balance_of(self, id: Address) -> i128 {
        if self.balances@.contains_key(id) {
            self.balances@[id]
        } else {
            0
        }
    }

    /// What a transfer does: one balance goes down, then one goes up.
    pub open spec fn transfers(self, from: Address, to: Address, amount: i128, post: Self) -> bool {
        &&& post.admin == self.admin
        &&& post.decimals == self.decimals
        &&& post.balances@ == self.balances@.insert(
            from,
            (self.balance_of(from) - amount) as i128,
        ).insert(to, (self.balance_of(to) + amount) as i128)
    }

    /// What minting does: one balance goes up.
    pub open spec fn mints(self, to: Address, amount: i128, post: Self) -> bool {
        &&& post.admin == self.admin
        &&& post.decimals == self.decimals
        &&& post.balances@ == self.balances@.insert(to, (self.balance_of(to) + amount) as i128)
    }

    /// A token without holders.
    pub fn new() -> (r: Self)
        ensures
            r.admin is None,
            r.decimals is None,
            forall|id: Address| r.balance_of(id) == 0,
    {
        MockSep41Token { admin: None, decimals: None, balances: Table::new() }
    }

    /// Sets the minter and the number of decimals.
    pub fn initialize(&mut self, admin: Address, decimals: u32)
        ensures
            final(self).admin == Some(admin),
            final(self).decimals == Some(decimals),
            final(self).balances == old(self).balances,
    {
        self.admin = Some(admin);
        self.decimals = Some(decimals);
    }

    /// Number of decimals used to represent amounts.
    pub fn decimals(&self) -> (r: u32)
        requires
            self.decimals is Some,
        ensures
            r == self.decimals->0,
    {
        self.decimals.unwrap()
    }

    /// What `id` holds.
    pub fn balance(&self, id: Address) -> (r: i128)
        ensures
            r == self.balance_of(id),
    {
        match self.balances.get(id) {
            Some(balance) => balance,
            None => 0,
        }
    }

    /// Moves `amount` from `from`, who authorized it and holds enough, to `to`.
    ///
    /// A transfer to oneself credits the balance read before the debit.
    pub fn transfer(&mut self, from: Address, to: Address, amount: i128)
        requires
            old(self).balance_of(from) >= amount,
            i128::MIN <= old(self).balance_of(from) - amount <= i128::MAX,
            i128::MIN <= old(self).balance_of(to) + amount <= i128::MAX,
        ensures
            old(self).transfers(from, to, amount, *final(self)),
    {
        let from_balance: i128 = self.balance(from);
        let to_balance: i128 = self.balance(to);
        self.balances.set(from, from_balance - amount);
        self.balances.set(to, to_balance + amount);
    }

    /// Creates `amount` for `to`; the minter authorized it.
    pub fn mint(&mut self, to: Address, amount: i128)
        requires
            i128::MIN <= old(self).balance_of(to) + amount <= i128::MAX,
        ensures
            old(self).mints(to, amount, *final(self)),
    {
        let balance: i128 = self.balance(to);
        self.balances.set(to, balance + amount);
    }
}

/// A transfer between two holders moves the amount and touches nobody else.
pub proof fn law_transfer_conserves(
    before: MockSep41Token,
    after: MockSep41Token,
    from: Address,
    to: Address,
    amount: i128,
    other: Address,
)
    requires
        from != to,
        other != from && other != to,
        i128::MIN <= before.balance_of(from) - amount <= i128::MAX,
        i128::MIN <= before.balance_of(to) + amount <= i128::MAX,
        before.transfers(from, to, amount, after),
    ensures
        after.balance_of(from) == before.balance_of(from) - amount,
        after.balance_of(to) == before.balance_of(to) + amount,
        after.balance_of(other) == before.balance_of(other),
{
}

/// A transfer to oneself adds the amount: the balance is read before the debit.
pub proof fn law_transfer_to_oneself_adds(
    before: MockSep41Token,
    after: MockSep41Token,
    holder: Address,
    amount: i128,
    other: Address,
)
    requires
        other != holder,
        i128::MIN <= before.balance_of(holder) + amount <= i128::MAX,
        before.transfers(holder, holder, amount, after),
    ensures
        after.balance_of(holder) == before.balance_of(holder) + amount,
        after.balance_of(other) == before.balance_of(other),
{
}

/// Minting adds the amount and touches nobody else. Neither it nor a transfer changes the
/// minter or the decimals.
pub proof fn law_mint_adds(
    before: MockSep41Token,
    after: MockSep41Token,
    moved: MockSep41Token,
    from: Address,
    to: Address,
    amount: i128,
    other: Address,
)
    requires
        other != to,
        i128::MIN <= before.balance_of(to) + amount <= i128::MAX,
        before.mints(to, amount, after),
        before.transfers(from, to, amount, moved),
    ensures
        after.balance_of(to) == before.balance_of(to) + amount,
        after.balance_of(other) == before.balance_of(other),
        after.admin == before.admin && after.decimals == before.decimals,
        moved.admin == before.admin && moved.decimals == before.decimals,
{
}

/// An address that holds nothing has a balance of zero.
pub proof fn law_strangers_hold_nothing(t: MockSep41Token, id: Address)
    ensures
        !t.balances@.dom().contains(id) ==> t.balance_of(id) == 0,
        t.balances@.dom().contains(id) ==> t.balance_of(id) == t.balances@[id],
{
    assert(t.balances@.contains_key(id) <==> t.balances@.dom().contains(id));
}

} // verus!
