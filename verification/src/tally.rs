//! Sums of a balance table over a list of accounts, and how they move when
//! one balance is rewritten.

use vstd::prelude::*;
use crate::account::AccountId;

verus! {

/// No account occurs twice in `accounts`.
pub open spec fn no_repeats(accounts: Seq<AccountId>) -> bool {
    forall|i: int, j: int| 0 <= i < j < accounts.len() ==> accounts[i] != accounts[j]
}

/// The sum of `balances` over the accounts listed in `accounts`.
pub open spec fn sum_over(accounts: Seq<AccountId>, balances: Map<AccountId, nat>) -> nat
    decreases accounts.len(),
{
    if accounts.len() == 0 {
        0
    } else {
        sum_over(accounts.drop_last(), balances) + balances[accounts.last()]
    }
}

/// Rewriting the balance of an account that is not listed leaves the sum as it was.
pub proof fn lemma_sum_unlisted(
    accounts: Seq<AccountId>,
    balances: Map<AccountId, nat>,
    account: AccountId,
    amount: nat,
)
    requires
        forall|i: int| 0 <= i < accounts.len() ==> accounts[i] != account,
    ensures
        sum_over(accounts, balances.insert(account, amount)) == sum_over(accounts, balances),
    decreases accounts.len(),
{
    if accounts.len() > 0 {
        lemma_sum_unlisted(accounts.drop_last(), balances, account, amount);
        assert(accounts.last() != account);
    }
}

/// Rewriting the balance of a listed account moves the sum by the difference.
pub proof fn lemma_sum_listed(
    accounts: Seq<AccountId>,
    balances: Map<AccountId, nat>,
    at: int,
    amount: nat,
)
    requires
        no_repeats(accounts),
        0 <= at < accounts.len(),
    ensures
        sum_over(accounts, balances.insert(accounts[at], amount)) + balances[accounts[at]]
            == sum_over(accounts, balances) + amount,
    decreases accounts.len(),
{
    let rest = accounts.drop_last();
    let account = accounts[at];
    if at == accounts.len() - 1 {
        lemma_sum_unlisted(rest, balances, account, amount);
    } else {
        lemma_sum_listed(rest, balances, at, amount);
        assert(accounts.last() != account);
    }
}

/// Appending an account adds its balance to the sum.
pub proof fn lemma_sum_appended(
    accounts: Seq<AccountId>,
    balances: Map<AccountId, nat>,
    account: AccountId,
)
    ensures
        sum_over(accounts.push(account), balances) == sum_over(accounts, balances)
            + balances[account],
{
    assert(accounts.push(account).drop_last() =~= accounts);
}

/// The balance of a listed account is at most the sum.
pub proof fn lemma_listed_within_sum(
    accounts: Seq<AccountId>,
    balances: Map<AccountId, nat>,
    at: int,
)
    requires
        0 <= at < accounts.len(),
    ensures
        balances[accounts[at]] <= sum_over(accounts, balances),
    decreases accounts.len(),
{
    if at < accounts.len() - 1 {
        lemma_listed_within_sum(accounts.drop_last(), balances, at);
    }
}

/// The balances of two different listed accounts are together at most the sum.
pub proof fn lemma_two_listed_within_sum(
    accounts: Seq<AccountId>,
    balances: Map<AccountId, nat>,
    first: int,
    second: int,
)
    requires
        no_repeats(accounts),
        0 <= first < accounts.len(),
        0 <= second < accounts.len(),
        first != second,
    ensures
        balances[accounts[first]] + balances[accounts[second]] <= sum_over(accounts, balances),
{
    let emptied = balances.insert(accounts[first], 0);
    lemma_sum_listed(accounts, balances, first, 0);
    lemma_listed_within_sum(accounts, emptied, second);
    assert(accounts[first] != accounts[second]);
    assert(emptied[accounts[second]] == balances[accounts[second]]);
}

} // verus!
