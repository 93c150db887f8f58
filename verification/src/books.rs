//! The tables of the donation registry: the wallet registered for each
//! charity, the amount raised for each (charity, coin) pair, and the
//! donations of each donor in the order they were made.

use vstd::prelude::*;
use crate::account::AccountId;

verus! {

struct WalletEntry {
    name: String,
    wallet: AccountId,
}

struct RaisedEntry {
    charity: String,
    coin: String,
    amount: u128,
}

spec fn listed(entries: Seq<WalletEntry>, name: Seq<char>) -> bool {
    exists|i: int| 0 <= i < entries.len() && entries[i].name@ == name
}

spec fn wallet_of(entries: Seq<WalletEntry>, name: Seq<char>) -> AccountId {
    let i = choose|i: int| 0 <= i < entries.len() && entries[i].name@ == name;
    entries[i].wallet
}

spec fn distinct_names(entries: Seq<WalletEntry>) -> bool {
    forall|i: int, j: int| 0 <= i < j < entries.len() ==> entries[i].name@ != entries[j].name@
}

spec fn counted(entries: Seq<RaisedEntry>, charity: Seq<char>, coin: Seq<char>) -> bool {
    exists|i: int|
        0 <= i < entries.len() && entries[i].charity@ == charity && entries[i].coin@ == coin
}

spec fn raised_for(entries: Seq<RaisedEntry>, charity: Seq<char>, coin: Seq<char>) -> nat {
    if counted(entries, charity, coin) {
        let i = choose|i: int|
            0 <= i < entries.len() && entries[i].charity@ == charity && entries[i].coin@ == coin;
        entries[i].amount as nat
    } else {
        0
    }
}

spec fn distinct_keys(entries: Seq<RaisedEntry>) -> bool {
    forall|i: int, j: int|
        0 <= i < j < entries.len() ==> !(entries[i].charity@ == entries[j].charity@
            && entries[i].coin@ == entries[j].coin@)
}

proof fn lemma_wallet_at(entries: Seq<WalletEntry>, at: int)
    requires
        distinct_names(entries),
        0 <= at < entries.len(),
    ensures
        listed(entries, entries[at].name@),
        wallet_of(entries, entries[at].name@) == entries[at].wallet,
{
}

proof fn lemma_raised_at(entries: Seq<RaisedEntry>, at: int)
    requires
        distinct_keys(entries),
        0 <= at < entries.len(),
    ensures
        counted(entries, entries[at].charity@, entries[at].coin@),
        raised_for(entries, entries[at].charity@, entries[at].coin@) == entries[at].amount,
{
}

/// The wallet registered for each charity name. A name, once registered,
/// keeps its wallet.
pub struct WalletBook {
    entries: Vec<WalletEntry>,
}

impl View for WalletBook {
    type V = Map<Seq<char>, AccountId>;

    closed spec fn view(&self) -> Map<Seq<char>, AccountId> {
        Map::new(
            |name: Seq<char>| listed(self.entries@, name),
            |name: Seq<char>| wallet_of(self.entries@, name),
        )
    }
}

impl WalletBook {
    /// Each name is recorded once.
    pub closed spec fn wf(&self) -> bool {
        distinct_names(self.entries@)
    }

    /// A book with no charity in it.
    pub fn new() -> (r: WalletBook)
        ensures
            r.wf(),
            r@ == Map::<Seq<char>, AccountId>::empty(),
    {
        let r = WalletBook { entries: Vec::new() };
        assert(r@ =~= Map::<Seq<char>, AccountId>::empty());
        r
    }

    /// The wallet registered under `name`, if there is one.
    pub fn get(&self, name: &String) -> (r: Option<AccountId>)
        requires
            self.wf(),
        ensures
            r == if self@.dom().contains(name@) {
                Some(self@[name@])
            } else {
                None
            },
    {
        let mut i: usize = 0;
        while i < self.entries.len()
            invariant
                self.wf(),
                i <= self.entries@.len(),
                forall|k: int| 0 <= k < i ==> self.entries@[k].name@ != name@,
            decreases self.entries@.len() - i,
        {
            if self.entries[i].name == *name {
                proof {
                    lemma_wallet_at(self.entries@, i as int);
                }
                return Some(self.entries[i].wallet);
            }
            i += 1;
        }
        None
    }

    /// Registers `wallet` under `name`, which must not be registered yet.
    pub fn insert(&mut self, name: String, wallet: AccountId)
        requires
            old(self).wf(),
            !old(self)@.dom().contains(name@),
        ensures
            final(self).wf(),
            final(self)@ == old(self)@.insert(name@, wallet),
    {
        let ghost before = self.entries@;
        let ghost key = name@;
        self.entries.push(WalletEntry { name, wallet });
        proof {
            let after = self.entries@;
            let last = before.len() as int;
            assert forall|k: int| 0 <= k < before.len() implies after[k] == before[k]
                && before[k].name@ != key by {}
            assert(after[last].name@ == key && after[last].wallet == wallet);
            assert forall|other: Seq<char>| listed(after, other) <==> (other == key || listed(
                before,
                other,
            )) by {
                if listed(before, other) {
                    let k = choose|k: int| 0 <= k < before.len() && before[k].name@ == other;
                    assert(after[k].name@ == other);
                }
            }
            assert forall|other: Seq<char>| listed(after, other) implies wallet_of(after, other)
                == (if other == key {
                wallet
            } else {
                wallet_of(before, other)
            }) by {
                let k = choose|k: int| 0 <= k < after.len() && after[k].name@ == other;
                if other != key {
                    let b = choose|b: int| 0 <= b < before.len() && before[b].name@ == other;
                    assert(after[b].name@ == other);
                    assert(k == b) by {
                        if k < b {
                            assert(after[k].name@ != after[b].name@);
                        } else if b < k {
                            assert(after[b].name@ != after[k].name@);
                        }
                    }
                }
            }
            assert(self@ =~= old(self)@.insert(key, wallet));
        }
    }
}

/// The cumulative amount raised for each (charity, coin) pair; zero for a
/// pair that never received a donation.
pub struct RaisedBook {
    entries: Vec<RaisedEntry>,
}

impl View for RaisedBook {
    type V = Map<(Seq<char>, Seq<char>), nat>;

    closed spec fn view(&self) -> Map<(Seq<char>, Seq<char>), nat> {
        Map::total(|pair: (Seq<char>, Seq<char>)| raised_for(self.entries@, pair.0, pair.1))
    }
}

impl RaisedBook {
    /// Each (charity, coin) pair is recorded once.
    pub closed spec fn wf(&self) -> bool {
        distinct_keys(self.entries@)
    }

    /// A book in which nothing has been raised.
    pub fn new() -> (r: RaisedBook)
        ensures
            r.wf(),
            r@ == Map::total(|pair: (Seq<char>, Seq<char>)| 0nat),
    {
        let r = RaisedBook { entries: Vec::new() };
        assert(r@ =~= Map::total(|pair: (Seq<char>, Seq<char>)| 0nat));
        r
    }

    fn find(&self, charity: &String, coin: &String) -> (r: Option<usize>)
        ensures
            match r {
                Some(i) => i < self.entries@.len() && self.entries@[i as int].charity@ == charity@
                    && self.entries@[i as int].coin@ == coin@,
                None => !counted(self.entries@, charity@, coin@),
            },
    {
        let mut i: usize = 0;
        while i < self.entries.len()
            invariant
                i <= self.entries@.len(),
                forall|k: int|
                    0 <= k < i ==> !(self.entries@[k].charity@ == charity@
                        && self.entries@[k].coin@ == coin@),
            decreases self.entries@.len() - i,
        {
            if self.entries[i].charity == *charity && self.entries[i].coin == *coin {
                return Some(i);
            }
            i += 1;
        }
        None
    }

    /// The amount raised so far for `charity` in `coin`.
    pub fn get(&self, charity: &String, coin: &String) -> (r: u128)
        requires
            self.wf(),
        ensures
            r == self@[(charity@, coin@)],
    {
        match self.find(charity, coin) {
            Some(i) => {
                proof {
                    lemma_raised_at(self.entries@, i as int);
                }
                self.entries[i].amount
            },
            None => 0,
        }
    }

    /// Sets the amount raised for `charity` in `coin` to `amount`.
    pub fn set(&mut self, charity: String, coin: String, amount: u128)
        requires
            old(self).wf(),
        ensures
            final(self).wf(),
            final(self)@ == old(self)@.insert((charity@, coin@), amount as nat),
    {
        let ghost before = self.entries@;
        let ghost key = (charity@, coin@);
        let found = self.find(&charity, &coin);
        match found {
            Some(i) => {
                self.entries.set(i, RaisedEntry { charity, coin, amount });
            },
            None => {
                self.entries.push(RaisedEntry { charity, coin, amount });
            },
        }
        proof {
            let after = self.entries@;
            let at = match found {
                Some(i) => i as int,
                None => before.len() as int,
            };
            assert(after[at].charity@ == key.0 && after[at].coin@ == key.1 && after[at].amount
                == amount);
            assert forall|k: int| 0 <= k < before.len() && k != at implies after[k] == before[k]
                && !(before[k].charity@ == key.0 && before[k].coin@ == key.1) by {
                if found is Some {
                    if k < at {
                        assert(!(before[k].charity@ == before[at].charity@ && before[k].coin@
                            == before[at].coin@));
                    } else {
                        assert(!(before[at].charity@ == before[k].charity@ && before[at].coin@
                            == before[k].coin@));
                    }
                }
            }
            assert(distinct_keys(after)) by {
                assert forall|i: int, j: int| 0 <= i < j < after.len() implies !(after[i].charity@
                    == after[j].charity@ && after[i].coin@ == after[j].coin@) by {
                    if i != at && j != at {
                        assert(!(before[i].charity@ == before[j].charity@ && before[i].coin@
                            == before[j].coin@));
                    }
                }
            }
            assert forall|pair: (Seq<char>, Seq<char>)|
                raised_for(after, pair.0, pair.1) == old(self)@.insert(key, amount as nat)[pair] by {
                if pair == key {
                    lemma_raised_at(after, at);
                } else if counted(before, pair.0, pair.1) {
                    let k = choose|k: int|
                        0 <= k < before.len() && before[k].charity@ == pair.0 && before[k].coin@
                            == pair.1;
                    assert(after[k] == before[k]);
                    lemma_raised_at(before, k);
                    lemma_raised_at(after, k);
                } else {
                    assert forall|k: int| 0 <= k < after.len() implies !(after[k].charity@
                        == pair.0 && after[k].coin@ == pair.1) by {
                        if k != at {
                            assert(after[k] == before[k]);
                        }
                    }
                }
            }
            assert(self@ =~= old(self)@.insert(key, amount as nat));
        }
    }
}

/// One donation.
#[derive(Debug, PartialEq, Eq)]
pub struct Donation {
    pub charity_name: String,
    pub coin_name: String,
    pub amount: u128,
    pub donor: AccountId,
    pub timestamp: u64,
}

/// A donation as a mathematical value.
pub struct DonationView {
    pub charity_name: Seq<char>,
    pub coin_name: Seq<char>,
    pub amount: u128,
    pub donor: AccountId,
    pub timestamp: u64,
}

impl View for Donation {
    type V = DonationView;

    open spec fn view(&self) -> DonationView {
        DonationView {
            charity_name: self.charity_name@,
            coin_name: self.coin_name@,
            amount: self.amount,
            donor: self.donor,
            timestamp: self.timestamp,
        }
    }
}

impl Donation {
    /// A copy of this donation.
    pub fn duplicate(&self) -> (r: Donation)
        ensures
            r@ == self@,
    {
        Donation {
            charity_name: self.charity_name.clone(),
            coin_name: self.coin_name.clone(),
            amount: self.amount,
            donor: self.donor,
            timestamp: self.timestamp,
        }
    }
}

/// The views of `donations`, in the same order.
pub open spec fn donation_views(donations: Seq<Donation>) -> Seq<DonationView> {
    Seq::new(donations.len(), |i: int| donations[i]@)
}

spec fn history_of(log: Seq<Donation>, donor: AccountId) -> Seq<DonationView>
    decreases log.len(),
{
    if log.len() == 0 {
        Seq::empty()
    } else {
        let earlier = history_of(log.drop_last(), donor);
        if log.last().donor == donor {
            earlier.push(log.last()@)
        } else {
            earlier
        }
    }
}

/// The donations of each donor, in the order they were made. Entries are
/// only ever appended.
pub struct HistoryBook {
    log: Vec<Donation>,
}

impl View for HistoryBook {
    type V = Map<AccountId, Seq<DonationView>>;

    closed spec fn view(&self) -> Map<AccountId, Seq<DonationView>> {
        Map::total(|donor: AccountId| history_of(self.log@, donor))
    }
}

impl HistoryBook {
    /// A book in which nobody has given.
    pub fn new() -> (r: HistoryBook)
        ensures
            r@ == Map::total(|donor: AccountId| Seq::<DonationView>::empty()),
    {
        let r = HistoryBook { log: Vec::new() };
        assert(r@ =~= Map::total(|donor: AccountId| Seq::<DonationView>::empty()));
        r
    }

    /// Appends `donation` to the history of its donor.
    pub fn append(&mut self, donation: Donation)
        ensures
            final(self)@ == old(self)@.insert(
                donation.donor,
                old(self)@[donation.donor].push(donation@),
            ),
    {
        let ghost before = self.log@;
        self.log.push(donation);
        proof {
            assert(self.log@.drop_last() =~= before);
            assert(self@ =~= old(self)@.insert(
                donation.donor,
                old(self)@[donation.donor].push(donation@),
            ));
        }
    }

    /// The donations of `donor` in the order they were made.
    pub fn get(&self, donor: AccountId) -> (r: Vec<Donation>)
        ensures
            r@.len() == self@[donor].len(),
            donation_views(r@) == self@[donor],
    {
        let mut found: Vec<Donation> = Vec::new();
        let mut i: usize = 0;
        assert(donation_views(found@) =~= history_of(self.log@.take(0), donor));
        while i < self.log.len()
            invariant
                i <= self.log@.len(),
                donation_views(found@) == history_of(self.log@.take(i as int), donor),
            decreases self.log@.len() - i,
        {
            let ghost before = found@;
            proof {
                let upto = self.log@.take(i + 1);
                assert(upto.drop_last() =~= self.log@.take(i as int));
                assert(upto.last() == self.log@[i as int]);
            }
            if self.log[i].donor.same(&donor) {
                let copy = self.log[i].duplicate();
                found.push(copy);
                assert(donation_views(found@) =~= donation_views(before).push(copy@));
            }
            i += 1;
        }
        assert(self.log@.take(i as int) =~= self.log@);
        found
    }
}

} // verus!
