//! A custodial wallet with a toggle: the holder of value that pays out on
//! request while its balance covers the amount.

use vstd::prelude::*;
use crate::account::AccountId;

verus! {

/// An unsigned 256-bit amount, held as two 128-bit halves.
#[derive(Clone, Copy, Debug, PartialEq, Eq)]
pub struct U256 {
    pub high: u128,
    pub low: u128,
}

impl View for U256 {
    type V = nat;

    open spec fn view(&self) -> nat {
        (self.high as nat) * 0x1_0000_0000_0000_0000_0000_0000_0000_0000nat + (self.low as nat)
    }
}

impl U256 {
    /// The amount `high` * 2^128 + `low`.
    pub fn new(high: u128, low: u128) -> (r: U256)
        ensures
            r.high == high,
            r.low == low,
    {
        U256 { high, low }
    }

    /// Whether this amount is at most `other`.
    pub fn at_most(&self, other: &U256) -> (r: bool)
        ensures
            r == (self@ <= other@),
    {
        self.high < other.high || (self.high == other.high && self.low <= other.low)
    }
}

/// One donation, as recorded in a charity's history.
#[derive(Debug, PartialEq, Eq)]
pub struct HistoryEntry {
    pub charity_name: String,
    pub coin_name: String,
    pub amount_donated: U256,
    pub donor_address: AccountId,
    pub timestamp: u64,
}

/// A charity and what it has received.
#[derive(Debug, PartialEq, Eq)]
pub struct Charity {
    pub name: String,
    pub description: String,
    pub wallet_address: AccountId,
    pub total_donated: U256,
    pub donation_history: Vec<HistoryEntry>,
}

/// Notification of a movement of value.
#[derive(Clone, Copy, Debug, PartialEq, Eq)]
pub struct Transferred {
    pub from: Option<AccountId>,
    pub to: Option<AccountId>,
    pub value: u128,
}

/// The instruction to move `value` out of custody to `to`.
#[derive(Clone, Copy, Debug, PartialEq, Eq)]
pub struct Payout {
    pub to: AccountId,
    pub value: U256,
}

/// The custodial wallet: a toggle and the account that made it.
pub struct Eunoia {
    value: bool,
    owner: AccountId,
}

impl Eunoia {
    /// The state of the toggle.
    pub closed spec fn spec_get(&self) -> bool {
        self.value
    }

    /// The account that made the wallet.
    pub closed spec fn spec_owner(&self) -> AccountId {
        self.owner
    }

    /// A wallet made by `caller`, with the toggle off.
    pub fn new(caller: AccountId) -> (r: Eunoia)
        ensures
            !r.spec_get(),
            r.spec_owner() == caller,
    {
        Eunoia { value: false, owner: caller }
    }

    /// Turns the toggle over.
    pub fn flip(&mut self)
        ensures
            final(self).spec_get() == !old(self).spec_get(),
            final(self).spec_owner() == old(self).spec_owner(),
    {
        self.value = !self.value;
    }

    /// The state of the toggle.
    pub fn get(&self) -> (r: bool)
        ensures
            r == self.spec_get(),
    {
        self.value
    }

    /// The payout that answers a request by `caller` for `value`, which
    /// the custodial `balance` must cover. The wallet itself is unchanged.
    pub fn give_me(&mut self, caller: AccountId, value: U256, balance: U256) -> (r: Payout)
        requires
            value@ <= balance@,
        ensures
            r == (Payout { to: caller, value }),
            *final(self) == *old(self),
    {
        Payout { to: caller, value }
    }

    /// Whether the custodial `balance` covers a request for `value`.
    pub fn can_give(&self, value: &U256, balance: &U256) -> (r: bool)
        ensures
            r == (value@ <= balance@),
    {
        value.at_most(balance)
    }
}

} // verus!
