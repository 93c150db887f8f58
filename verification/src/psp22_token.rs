//! The token ledger: balances, delegated-spend allowances and a fixed total
//! supply. Every operation is one all-or-nothing transition of the ledger.

use vstd::prelude::*;
use crate::account::AccountId;
use crate::tally::{
    lemma_listed_within_sum, lemma_sum_appended, lemma_sum_listed, lemma_sum_unlisted,
    lemma_two_listed_within_sum, no_repeats, sum_over,
};

verus! {

/// Notification of a movement of tokens. `from` is `None` for the initial issue.
#[derive(Clone, Copy, Debug, PartialEq, Eq)]
pub struct Transfer {
    pub from: Option<AccountId>,
    pub to: Option<AccountId>,
    pub value: u128,
}

/// Notification that `owner` set the amount `spender` may move out of its balance.
#[derive(Clone, Copy, Debug, PartialEq, Eq)]
pub struct Approval {
    pub owner: AccountId,
    pub spender: AccountId,
    pub value: u128,
}

/// Why a ledger operation was rejected.
#[derive(Clone, Copy, Debug, PartialEq, Eq)]
pub enum Error {
    /// The source account holds less than the amount to move.
    InsufficientBalance,
    /// The spender is authorised for less than the amount to move.
    InsufficientAllowance,
    /// The operation is not permitted.
    NotAllowed,
}

/// The ledger as a mathematical value.
pub struct LedgerView {
    /// The supply fixed at construction.
    pub total_supply: nat,
    /// The balance of every account; zero for an account never credited.
    pub balances: Map<AccountId, nat>,
    /// The sum of `balances` over all accounts.
    pub circulating: nat,
    /// For every (owner, spender) pair, what the spender may still move.
    pub allowances: Map<(AccountId, AccountId), nat>,
    pub name: Option<Seq<char>>,
    pub symbol: Option<Seq<char>>,
    pub decimals: u8,
}

/// The balances after `value` has left `from` and then reached `to`.
pub open spec fn moved(
    balances: Map<AccountId, nat>,
    from: AccountId,
    to: AccountId,
    value: nat,
) -> Map<AccountId, nat> {
    let debited = balances.insert(from, (balances[from] - value) as nat);
    debited.insert(to, debited[to] + value)
}

/// What a transfer of `value` from `from` to `to` makes of the ledger `pre`.
pub open spec fn transfer_step(
    pre: LedgerView,
    from: AccountId,
    to: AccountId,
    value: nat,
) -> Result<LedgerView, Error> {
    if pre.balances[from] < value {
        Err(Error::InsufficientBalance)
    } else {
        Ok(LedgerView { balances: moved(pre.balances, from, to, value), ..pre })
    }
}

/// What `approve` by `caller` makes of the ledger `pre`.
pub open spec fn approve_step(
    pre: LedgerView,
    caller: AccountId,
    spender: AccountId,
    value: nat,
) -> LedgerView {
    LedgerView { allowances: pre.allowances.insert((caller, spender), value), ..pre }
}

/// What a delegated transfer by `caller` out of `from` makes of the ledger `pre`.
pub open spec fn transfer_from_step(
    pre: LedgerView,
    caller: AccountId,
    from: AccountId,
    to: AccountId,
    value: nat,
) -> Result<LedgerView, Error> {
    let allowed = pre.allowances[(from, caller)];
    if allowed < value {
        Err(Error::InsufficientAllowance)
    } else if pre.balances[from] < value {
        Err(Error::InsufficientBalance)
    } else {
        Ok(
            LedgerView {
                balances: moved(pre.balances, from, to, value),
                allowances: pre.allowances.insert((from, caller), (allowed - value) as nat),
                ..pre
            },
        )
    }
}

/// The optional text `label` as an optional sequence of characters.
pub open spec fn label_view(label: Option<String>) -> Option<Seq<char>> {
    match label {
        Some(text) => Some(text@),
        None => None,
    }
}

struct BalanceEntry {
    account: AccountId,
    amount: u128,
}

struct AllowanceEntry {
    owner: AccountId,
    spender: AccountId,
    amount: u128,
}

spec fn holders(entries: Seq<BalanceEntry>) -> Seq<AccountId> {
    Seq::new(entries.len(), |i: int| entries[i].account)
}

spec fn holds(entries: Seq<BalanceEntry>, account: AccountId) -> bool {
    exists|i: int| 0 <= i < entries.len() && entries[i].account == account
}

spec fn amount_of(entries: Seq<BalanceEntry>, account: AccountId) -> nat {
    if holds(entries, account) {
        let i = choose|i: int| 0 <= i < entries.len() && entries[i].account == account;
        entries[i].amount as nat
    } else {
        0
    }
}

spec fn balances_of(entries: Seq<BalanceEntry>) -> Map<AccountId, nat> {
    Map::total(|account: AccountId| amount_of(entries, account))
}

spec fn held(entries: Seq<BalanceEntry>) -> nat {
    sum_over(holders(entries), balances_of(entries))
}

spec fn distinct_pairs(entries: Seq<AllowanceEntry>) -> bool {
    forall|i: int, j: int|
        0 <= i < j < entries.len() ==> !(entries[i].owner == entries[j].owner
            && entries[i].spender == entries[j].spender)
}

spec fn grants(entries: Seq<AllowanceEntry>, owner: AccountId, spender: AccountId) -> bool {
    exists|i: int|
        0 <= i < entries.len() && entries[i].owner == owner && entries[i].spender == spender
}

spec fn granted(entries: Seq<AllowanceEntry>, owner: AccountId, spender: AccountId) -> nat {
    if grants(entries, owner, spender) {
        let i = choose|i: int|
            0 <= i < entries.len() && entries[i].owner == owner && entries[i].spender == spender;
        entries[i].amount as nat
    } else {
        0
    }
}

spec fn allowances_of(entries: Seq<AllowanceEntry>) -> Map<(AccountId, AccountId), nat> {
    Map::total(|pair: (AccountId, AccountId)| granted(entries, pair.0, pair.1))
}

proof fn lemma_amount_at(entries: Seq<BalanceEntry>, at: int)
    requires
        no_repeats(holders(entries)),
        0 <= at < entries.len(),
    ensures
        holds(entries, entries[at].account),
        amount_of(entries, entries[at].account) == entries[at].amount,
{
    let account = entries[at].account;
    let i = choose|i: int| 0 <= i < entries.len() && entries[i].account == account;
    assert(holders(entries)[i] == holders(entries)[at]);
}

proof fn lemma_granted_at(entries: Seq<AllowanceEntry>, at: int)
    requires
        distinct_pairs(entries),
        0 <= at < entries.len(),
    ensures
        grants(entries, entries[at].owner, entries[at].spender),
        granted(entries, entries[at].owner, entries[at].spender) == entries[at].amount,
{
}

proof fn lemma_amount_within_held(entries: Seq<BalanceEntry>, account: AccountId)
    requires
        no_repeats(holders(entries)),
    ensures
        amount_of(entries, account) <= held(entries),
{
    if holds(entries, account) {
        let i = choose|i: int| 0 <= i < entries.len() && entries[i].account == account;
        lemma_listed_within_sum(holders(entries), balances_of(entries), i);
    }
}

fn find_balance(entries: &Vec<BalanceEntry>, account: &AccountId) -> (r: Option<usize>)
    ensures
        match r {
            Some(i) => i < entries@.len() && entries@[i as int].account == *account,
            None => !holds(entries@, *account),
        },
{
    let mut i: usize = 0;
    while i < entries.len()
        invariant
            i <= entries@.len(),
            forall|k: int| 0 <= k < i ==> entries@[k].account != *account,
        decreases entries@.len() - i,
    {
        if entries[i].account.same(account) {
            return Some(i);
        }
        i += 1;
    }
    None
}

fn read_balance(entries: &Vec<BalanceEntry>, account: &AccountId) -> (r: u128)
    requires
        no_repeats(holders(entries@)),
    ensures
        r == amount_of(entries@, *account),
{
    match find_balance(entries, account) {
        Some(i) => {
            proof {
                lemma_amount_at(entries@, i as int);
            }
            entries[i].amount
        },
        None => 0,
    }
}

fn put_balance(entries: &mut Vec<BalanceEntry>, account: AccountId, amount: u128)
    requires
        no_repeats(holders(old(entries)@)),
    ensures
        no_repeats(holders(final(entries)@)),
        balances_of(final(entries)@) == balances_of(old(entries)@).insert(account, amount as nat),
        held(final(entries)@) + amount_of(old(entries)@, account) == held(old(entries)@) + amount,
{
    let ghost before = entries@;
    let found = find_balance(entries, &account);
    match found {
        Some(i) => {
            entries.set(i, BalanceEntry { account, amount });
        },
        None => {
            entries.push(BalanceEntry { account, amount });
        },
    }
    proof {
        let after = entries@;
        let at = match found {
            Some(i) => i as int,
            None => before.len() as int,
        };
        let target = balances_of(before).insert(account, amount as nat);
        assert(after[at].account == account && after[at].amount == amount);
        assert forall|k: int| 0 <= k < before.len() && k != at implies after[k] == before[k]
            && before[k].account != account by {
            if found is Some {
                assert(holders(before)[k] != holders(before)[at]);
            }
        }
        assert(no_repeats(holders(after))) by {
            assert forall|i: int, j: int| 0 <= i < j < after.len() implies holders(after)[i]
                != holders(after)[j] by {
                if i != at && j != at {
                    assert(holders(before)[i] != holders(before)[j]);
                }
            }
        }
        assert forall|b: AccountId| amount_of(after, b) == target[b] by {
            if b == account {
                lemma_amount_at(after, at);
            } else if holds(before, b) {
                let k = choose|k: int| 0 <= k < before.len() && before[k].account == b;
                assert(after[k] == before[k]);
                lemma_amount_at(before, k);
                lemma_amount_at(after, k);
            } else {
                assert forall|k: int| 0 <= k < after.len() implies after[k].account != b by {
                    if k != at {
                        assert(after[k] == before[k]);
                    }
                }
            }
        }
        assert(balances_of(after) =~= target);
        if found is Some {
            assert(holders(after) =~= holders(before));
            lemma_amount_at(before, at);
            lemma_sum_listed(holders(before), balances_of(before), at, amount as nat);
        } else {
            assert(holders(after) =~= holders(before).push(account));
            assert forall|i: int| 0 <= i < holders(before).len() implies holders(before)[i]
                != account by {
                assert(before[i].account != account);
            }
            lemma_sum_unlisted(holders(before), balances_of(before), account, amount as nat);
            lemma_sum_appended(holders(before), target, account);
        }
    }
}

fn find_allowance(entries: &Vec<AllowanceEntry>, owner: &AccountId, spender: &AccountId) -> (r:
    Option<usize>)
    ensures
        match r {
            Some(i) => i < entries@.len() && entries@[i as int].owner == *owner && entries@[i as int].spender
                == *spender,
            None => !grants(entries@, *owner, *spender),
        },
{
    let mut i: usize = 0;
    while i < entries.len()
        invariant
            i <= entries@.len(),
            forall|k: int|
                0 <= k < i ==> !(entries@[k].owner == *owner && entries@[k].spender == *spender),
        decreases entries@.len() - i,
    {
        if entries[i].owner.same(owner) && entries[i].spender.same(spender) {
            return Some(i);
        }
        i += 1;
    }
    None
}

fn read_allowance(entries: &Vec<AllowanceEntry>, owner: &AccountId, spender: &AccountId) -> (r:
    u128)
    requires
        distinct_pairs(entries@),
    ensures
        r == granted(entries@, *owner, *spender),
{
    match find_allowance(entries, owner, spender) {
        Some(i) => {
            proof {
                lemma_granted_at(entries@, i as int);
            }
            entries[i].amount
        },
        None => 0,
    }
}

fn put_allowance(
    entries: &mut Vec<AllowanceEntry>,
    owner: AccountId,
    spender: AccountId,
    amount: u128,
)
    requires
        distinct_pairs(old(entries)@),
    ensures
        distinct_pairs(final(entries)@),
        allowances_of(final(entries)@) == allowances_of(old(entries)@).insert(
            (owner, spender),
            amount as nat,
        ),
{
    let ghost before = entries@;
    let found = find_allowance(entries, &owner, &spender);
    match found {
        Some(i) => {
            entries.set(i, AllowanceEntry { owner, spender, amount });
        },
        None => {
            entries.push(AllowanceEntry { owner, spender, amount });
        },
    }
    proof {
        let after = entries@;
        let at = match found {
            Some(i) => i as int,
            None => before.len() as int,
        };
        assert(after[at].owner == owner && after[at].spender == spender && after[at].amount
            == amount);
        assert forall|k: int| 0 <= k < before.len() && k != at implies after[k] == before[k] by {}
        assert forall|k: int| 0 <= k < before.len() && k != at implies !(before[k].owner == owner
            && before[k].spender == spender) by {
            if found is Some {
                if k < at {
                    assert(!(before[k].owner == before[at].owner && before[k].spender
                        == before[at].spender));
                } else {
                    assert(!(before[at].owner == before[k].owner && before[at].spender
                        == before[k].spender));
                }
            }
        }
        assert(distinct_pairs(after)) by {
            assert forall|i: int, j: int| 0 <= i < j < after.len() implies !(after[i].owner
                == after[j].owner && after[i].spender == after[j].spender) by {
                if i != at && j != at {
                    assert(!(before[i].owner == before[j].owner && before[i].spender
                        == before[j].spender));
                }
            }
        }
        assert forall|pair: (AccountId, AccountId)|
            granted(after, pair.0, pair.1) == allowances_of(before).insert(
                (owner, spender),
                amount as nat,
            )[pair] by {
            if pair == (owner, spender) {
                lemma_granted_at(after, at);
            } else if grants(before, pair.0, pair.1) {
                let k = choose|k: int|
                    0 <= k < before.len() && before[k].owner == pair.0 && before[k].spender
                        == pair.1;
                assert(after[k] == before[k]);
                lemma_granted_at(before, k);
                lemma_granted_at(after, k);
            } else {
                assert forall|k: int| 0 <= k < after.len() implies !(after[k].owner == pair.0
                    && after[k].spender == pair.1) by {
                    if k != at {
                        assert(after[k] == before[k]);
                    }
                }
            }
        }
        assert(allowances_of(after) =~= allowances_of(before).insert(
            (owner, spender),
            amount as nat,
        ));
    }
}

/// The token ledger: who holds how much, who may spend on whose behalf, and
/// the supply fixed when the ledger was made.
pub struct Psp22Token {
    total_supply: u128,
    balances: Vec<BalanceEntry>,
    allowances: Vec<AllowanceEntry>,
    name: Option<String>,
    symbol: Option<String>,
    decimals: u8,
}

impl View for Psp22Token {
    type V = LedgerView;

    closed spec fn view(&self) -> LedgerView {
        LedgerView {
            total_supply: self.total_supply as nat,
            balances: balances_of(self.balances@),
            circulating: held(self.balances@),
            allowances: allowances_of(self.allowances@),
            name: label_view(self.name),
            symbol: label_view(self.symbol),
            decimals: self.decimals,
        }
    }
}

impl Psp22Token {
    /// The ledger's invariant: each account and each (owner, spender) pair is
    /// recorded once, and the balances sum to no more than the total supply.
    pub closed spec fn wf(&self) -> bool {
        &&& no_repeats(holders(self.balances@))
        &&& distinct_pairs(self.allowances@)
        &&& held(self.balances@) <= self.total_supply
    }

    /// A ledger whose whole supply is held by `caller`, and the notification
    /// of that initial issue.
    pub fn new(
        caller: AccountId,
        total_supply: u128,
        name: Option<String>,
        symbol: Option<String>,
        decimals: u8,
    ) -> (r: (Psp22Token, Transfer))
        ensures
            r.0.wf(),
            r.0@ == (LedgerView {
                total_supply: total_supply as nat,
                balances: Map::total(|account: AccountId| 0nat).insert(caller, total_supply as nat),
                circulating: total_supply as nat,
                allowances: Map::total(|pair: (AccountId, AccountId)| 0nat),
                name: label_view(name),
                symbol: label_view(symbol),
                decimals,
            }),
            r.1 == (Transfer { from: None, to: Some(caller), value: total_supply }),
    {
        let mut balances: Vec<BalanceEntry> = Vec::new();
        let allowances: Vec<AllowanceEntry> = Vec::new();
        proof {
            assert(balances_of(balances@) =~= Map::total(|account: AccountId| 0nat));
            assert(allowances_of(allowances@) =~= Map::total(|pair: (AccountId, AccountId)| 0nat));
            assert(holders(balances@) =~= Seq::empty());
        }
        put_balance(&mut balances, caller, total_supply);
        let token = Psp22Token { total_supply, balances, allowances, name, symbol, decimals };
        (token, Transfer { from: None, to: Some(caller), value: total_supply })
    }

    /// The token's name, if it has one.
    pub fn name(&self) -> (r: Option<String>)
        ensures
            label_view(r) == self@.name,
    {
        match &self.name {
            Some(text) => Some(text.clone()),
            None => None,
        }
    }

    /// The token's symbol, if it has one.
    pub fn symbol(&self) -> (r: Option<String>)
        ensures
            label_view(r) == self@.symbol,
    {
        match &self.symbol {
            Some(text) => Some(text.clone()),
            None => None,
        }
    }

    /// The number of decimal places in which amounts are displayed.
    pub fn decimals(&self) -> (r: u8)
        ensures
            r == self@.decimals,
    {
        self.decimals
    }

    /// The supply fixed at construction.
    pub fn total_supply(&self) -> (r: u128)
        ensures
            r == self@.total_supply,
    {
        self.total_supply
    }

    /// The balance of `owner`; zero for an account the ledger has never seen.
    pub fn balance_of(&self, owner: AccountId) -> (r: u128)
        requires
            self.wf(),
        ensures
            r == self@.balances[owner],
    {
        read_balance(&self.balances, &owner)
    }

    /// What `spender` may still move out of the balance of `owner`; zero
    /// where nothing was ever approved.
    pub fn allowance(&self, owner: AccountId, spender: AccountId) -> (r: u128)
        requires
            self.wf(),
        ensures
            r == self@.allowances[(owner, spender)],
    {
        read_allowance(&self.allowances, &owner, &spender)
    }

    /// Moves `value` from the balance of `caller` to that of `to`, or
    /// rejects the transfer and leaves the ledger as it was.
    pub fn transfer(&mut self, caller: AccountId, to: AccountId, value: u128) -> (r: Result<
        Transfer,
        Error,
    >)
        requires
            old(self).wf(),
        ensures
            final(self).wf(),
            match transfer_step(old(self)@, caller, to, value as nat) {
                Ok(post) => final(self)@ == post && r == Ok::<Transfer, Error>(
                    Transfer { from: Some(caller), to: Some(to), value },
                ),
                Err(e) => *final(self) == *old(self) && r == Err::<Transfer, Error>(e),
            },
    {
        self.transfer_from_to(caller, to, value)
    }

    /// Sets what `spender` may move out of the balance of `caller` to
    /// `value`, whatever it was before.
    pub fn approve(&mut self, caller: AccountId, spender: AccountId, value: u128) -> (r: Result<
        Approval,
        Error,
    >)
        requires
            old(self).wf(),
        ensures
            final(self).wf(),
            final(self)@ == approve_step(old(self)@, caller, spender, value as nat),
            r == Ok::<Approval, Error>(Approval { owner: caller, spender, value }),
    {
        put_allowance(&mut self.allowances, caller, spender, value);
        Ok(Approval { owner: caller, spender, value })
    }

    /// The transfer on behalf of `from`: moves `value` from the balance of
    /// `from` to that of `to` on the authority of the allowance that `from`
    /// gave `caller`, and lowers that allowance by `value`; or rejects the
    /// transfer and leaves the ledger as it was.
    pub fn transfer_from(
        &mut self,
        caller: AccountId,
        from: AccountId,
        to: AccountId,
        value: u128,
    ) -> (r: Result<Transfer, Error>)
        requires
            old(self).wf(),
        ensures
            final(self).wf(),
            match transfer_from_step(old(self)@, caller, from, to, value as nat) {
                Ok(post) => final(self)@ == post && r == Ok::<Transfer, Error>(
                    Transfer { from: Some(from), to: Some(to), value },
                ),
                Err(e) => *final(self) == *old(self) && r == Err::<Transfer, Error>(e),
            },
    {
        let allowance = self.allowance(from, caller);
        if allowance < value {
            return Err(Error::InsufficientAllowance);
        }
        match self.transfer_from_to(from, to, value) {
            Ok(event) => {
                put_allowance(&mut self.allowances, from, caller, allowance - value);
                Ok(event)
            },
            Err(e) => Err(e),
        }
    }

    fn transfer_from_to(&mut self, from: AccountId, to: AccountId, value: u128) -> (r: Result<
        Transfer,
        Error,
    >)
        requires
            old(self).wf(),
        ensures
            final(self).wf(),
            match transfer_step(old(self)@, from, to, value as nat) {
                Ok(post) => final(self)@ == post && r == Ok::<Transfer, Error>(
                    Transfer { from: Some(from), to: Some(to), value },
                ),
                Err(e) => *final(self) == *old(self) && r == Err::<Transfer, Error>(e),
            },
    {
        let from_balance = self.balance_of(from);
        if from_balance < value {
            return Err(Error::InsufficientBalance);
        }
        put_balance(&mut self.balances, from, from_balance - value);
        let to_balance = self.balance_of(to);
        proof {
            lemma_amount_within_held(self.balances@, to);
        }
        put_balance(&mut self.balances, to, to_balance + value);
        Ok(Transfer { from: Some(from), to: Some(to), value })
    }

    /// What the view calls `circulating` is the sum of all balances: there
    /// is a list of accounts without repeats, outside of which every balance
    /// is zero, and over which the balances sum to `circulating`.
    pub proof fn lemma_circulating_is_sum_of_balances(&self) -> (accounts: Seq<AccountId>)
        requires
            self.wf(),
        ensures
            no_repeats(accounts),
            forall|account: AccountId|
                !accounts.contains(account) ==> self@.balances[account] == 0,
            sum_over(accounts, self@.balances) == self@.circulating,
            self@.circulating <= self@.total_supply,
    {
        let entries = self.balances@;
        let accounts = holders(entries);
        assert forall|account: AccountId| !accounts.contains(account) implies amount_of(
            entries,
            account,
        ) == 0 by {
            if holds(entries, account) {
                let i = choose|i: int| 0 <= i < entries.len() && entries[i].account == account;
                assert(accounts[i] == account);
            }
        }
        accounts
    }

    /// No balance exceeds the sum of all balances, and that sum never
    /// exceeds the total supply.
    pub proof fn lemma_balance_within_supply(&self, account: AccountId)
        requires
            self.wf(),
        ensures
            self@.balances[account] <= self@.circulating <= self@.total_supply,
    {
        lemma_amount_within_held(self.balances@, account);
    }

    /// Two different accounts together hold no more than the sum of all
    /// balances.
    pub proof fn lemma_two_balances_within_supply(&self, first: AccountId, second: AccountId)
        requires
            self.wf(),
            first != second,
        ensures
            self@.balances[first] + self@.balances[second] <= self@.circulating
                <= self@.total_supply,
    {
        let entries = self.balances@;
        if holds(entries, first) && holds(entries, second) {
            let i = choose|i: int| 0 <= i < entries.len() && entries[i].account == first;
            let j = choose|j: int| 0 <= j < entries.len() && entries[j].account == second;
            lemma_two_listed_within_sum(holders(entries), balances_of(entries), i, j);
        } else {
            lemma_amount_within_held(entries, first);
            lemma_amount_within_held(entries, second);
        }
    }
}

/// Conservation: a transfer that the source can afford leaves the sum of
/// the balances, over any list without repeats that holds both parties, as
/// it was.
pub proof fn lemma_move_conserves_sum(
    accounts: Seq<AccountId>,
    balances: Map<AccountId, nat>,
    from: AccountId,
    to: AccountId,
    value: nat,
)
    requires
        no_repeats(accounts),
        accounts.contains(from),
        accounts.contains(to),
        balances[from] >= value,
    ensures
        sum_over(accounts, moved(balances, from, to, value)) == sum_over(accounts, balances),
{
    let i = choose|i: int| 0 <= i < accounts.len() && accounts[i] == from;
    let j = choose|j: int| 0 <= j < accounts.len() && accounts[j] == to;
    let debited = balances.insert(from, (balances[from] - value) as nat);
    lemma_sum_listed(accounts, balances, i, (balances[from] - value) as nat);
    lemma_sum_listed(accounts, debited, j, debited[to] + value);
}

/// A request to the ledger.
pub enum Operation {
    Transfer { caller: AccountId, to: AccountId, value: nat },
    Approve { caller: AccountId, spender: AccountId, value: nat },
    TransferFrom { caller: AccountId, from: AccountId, to: AccountId, value: nat },
}

/// What the request `operation` makes of the ledger `pre`; a rejected
/// request changes nothing.
pub open spec fn applied(pre: LedgerView, operation: Operation) -> LedgerView {
    match operation {
        Operation::Transfer { caller, to, value } => match transfer_step(pre, caller, to, value) {
            Ok(post) => post,
            Err(_) => pre,
        },
        Operation::Approve { caller, spender, value } => approve_step(pre, caller, spender, value),
        Operation::TransferFrom { caller, from, to, value } => match transfer_from_step(
            pre,
            caller,
            from,
            to,
            value,
        ) {
            Ok(post) => post,
            Err(_) => pre,
        },
    }
}

/// Whether every account whose balance `operation` may move is in `accounts`.
pub open spec fn parties_listed(operation: Operation, accounts: Seq<AccountId>) -> bool {
    match operation {
        Operation::Transfer { caller, to, value } => accounts.contains(caller) && accounts.contains(
            to,
        ),
        Operation::Approve { caller, spender, value } => true,
        Operation::TransferFrom { caller, from, to, value } => accounts.contains(from)
            && accounts.contains(to),
    }
}

/// The ledger after the requests `operations` were made in turn.
pub open spec fn after(pre: LedgerView, operations: Seq<Operation>) -> LedgerView
    decreases operations.len(),
{
    if operations.len() == 0 {
        pre
    } else {
        applied(after(pre, operations.drop_last()), operations.last())
    }
}

/// Conservation over any sequence of requests: the sum of the balances,
/// over any list without repeats that holds every party, is after the
/// sequence what it was before, and the supply is unchanged. Value only
/// moves; none is made or lost.
pub proof fn lemma_operations_conserve_sum(
    pre: LedgerView,
    operations: Seq<Operation>,
    accounts: Seq<AccountId>,
)
    requires
        no_repeats(accounts),
        forall|i: int|
            0 <= i < operations.len() ==> parties_listed(#[trigger] operations[i], accounts),
    ensures
        sum_over(accounts, after(pre, operations).balances) == sum_over(accounts, pre.balances),
        after(pre, operations).circulating == pre.circulating,
        after(pre, operations).total_supply == pre.total_supply,
    decreases operations.len(),
{
    if operations.len() > 0 {
        let earlier = operations.drop_last();
        assert forall|i: int| 0 <= i < earlier.len() implies parties_listed(
            #[trigger] earlier[i],
            accounts,
        ) by {
            assert(earlier[i] == operations[i]);
        }
        lemma_operations_conserve_sum(pre, earlier, accounts);
        let before = after(pre, earlier);
        assert(parties_listed(operations[operations.len() - 1], accounts));
        match operations.last() {
            Operation::Transfer { caller, to, value } => {
                if before.balances[caller] >= value {
                    lemma_move_conserves_sum(accounts, before.balances, caller, to, value);
                }
            },
            Operation::Approve { caller, spender, value } => {},
            Operation::TransferFrom { caller, from, to, value } => {
                if before.balances[from] >= value {
                    lemma_move_conserves_sum(accounts, before.balances, from, to, value);
                }
            },
        }
    }
}

/// A transfer is accepted exactly when the source holds the amount. An
/// accepted one moves that amount and touches no other balance; a rejected
/// one changes nothing, so no balance ever goes below zero.
pub proof fn lemma_transfer_outcome(
    pre: LedgerView,
    from: AccountId,
    to: AccountId,
    value: nat,
    account: AccountId,
)
    ensures
        match transfer_step(pre, from, to, value) {
            Ok(post) => {
                &&& value <= pre.balances[from]
                &&& from != to ==> post.balances[from] == pre.balances[from] - value
                &&& from != to ==> post.balances[to] == pre.balances[to] + value
                &&& from == to ==> post.balances[from] == pre.balances[from]
                &&& account != from && account != to ==> post.balances[account]
                    == pre.balances[account]
                &&& post.circulating == pre.circulating
                &&& post.total_supply == pre.total_supply
                &&& post.allowances == pre.allowances
            },
            Err(e) => e == Error::InsufficientBalance && value > pre.balances[from],
        },
{
}

/// After a delegated transfer succeeds, the allowance is the old one less
/// the amount moved, and the old one covered that amount; the balances
/// move as in a plain transfer out of `from`.
pub proof fn lemma_spend_lowers_allowance(
    pre: LedgerView,
    caller: AccountId,
    from: AccountId,
    to: AccountId,
    value: nat,
)
    requires
        transfer_from_step(pre, caller, from, to, value) is Ok,
    ensures
        ({
            let post = transfer_from_step(pre, caller, from, to, value)->Ok_0;
            &&& pre.allowances[(from, caller)] >= value
            &&& post.allowances[(from, caller)] == pre.allowances[(from, caller)] - value
            &&& forall|pair: (AccountId, AccountId)|
                pair != (from, caller) ==> post.allowances[pair] == pre.allowances[pair]
            &&& transfer_step(pre, from, to, value) is Ok
            &&& post.balances == transfer_step(pre, from, to, value)->Ok_0.balances
        }),
{
}

} // verus!
