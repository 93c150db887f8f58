//! The state of a donation registry and the two ways it grows: a charity
//! is registered, a donation is recorded. Who may register and which
//! donations are accepted is decided by the registries built on it.

use vstd::prelude::*;
use crate::account::AccountId;
use crate::books::{donation_views, Donation, DonationView, HistoryBook, RaisedBook, WalletBook};

verus! {

/// The registry as a mathematical value.
pub struct RegistryView {
    /// The administrator.
    pub owner: AccountId,
    /// The wallet of each registered charity; its domain is the registered names.
    pub wallets: Map<Seq<char>, AccountId>,
    /// What each (charity, coin) pair has received; zero where nothing was given.
    pub raised: Map<(Seq<char>, Seq<char>), nat>,
    /// Each donor's donations in the order they were made; empty for a
    /// donor who never gave.
    pub histories: Map<AccountId, Seq<DonationView>>,
}

/// The registry `pre` with `wallet` registered under `name`.
pub open spec fn with_charity(pre: RegistryView, name: Seq<char>, wallet: AccountId) -> RegistryView {
    RegistryView { wallets: pre.wallets.insert(name, wallet), ..pre }
}

/// The registry `pre` with `donation` recorded: its amount is added to
/// what the charity raised in the coin, and it is appended to the history
/// of its donor.
pub open spec fn with_donation(pre: RegistryView, donation: DonationView) -> RegistryView {
    let pair = (donation.charity_name, donation.coin_name);
    RegistryView {
        raised: pre.raised.insert(pair, pre.raised[pair] + donation.amount as nat),
        histories: pre.histories.insert(
            donation.donor,
            pre.histories[donation.donor].push(donation),
        ),
        ..pre
    }
}

/// Whether `post` is `pre` after one step of growth: the registration of
/// a name not yet registered, or the recording of a donation.
pub open spec fn grows_to(pre: RegistryView, post: RegistryView) -> bool {
    ||| exists|name: Seq<char>, wallet: AccountId|
        !pre.wallets.dom().contains(name) && post == with_charity(pre, name, wallet)
    ||| exists|donation: DonationView| post == with_donation(pre, donation)
}

/// The registry only grows: no step changes the administrator, removes a
/// charity or changes its wallet, lowers a raised total, or drops or
/// rewrites an entry of a donor's history.
pub proof fn lemma_registry_only_grows(pre: RegistryView, post: RegistryView)
    requires
        grows_to(pre, post),
    ensures
        post.owner == pre.owner,
        forall|name: Seq<char>| #[trigger]
            pre.wallets.dom().contains(name) ==> post.wallets.dom().contains(name)
                && post.wallets[name] == pre.wallets[name],
        forall|pair: (Seq<char>, Seq<char>)| #[trigger] post.raised[pair] >= pre.raised[pair],
        forall|donor: AccountId|
            pre.histories[donor].len() <= (#[trigger] post.histories[donor]).len()
                && post.histories[donor].take(pre.histories[donor].len() as int)
                == pre.histories[donor],
{
    assert forall|donor: AccountId|
        pre.histories[donor].len() <= (#[trigger] post.histories[donor]).len()
            && post.histories[donor].take(pre.histories[donor].len() as int)
            == pre.histories[donor] by {
        assert(post.histories[donor].take(pre.histories[donor].len() as int)
            =~= pre.histories[donor]);
    }
}

/// Recording a donation lengthens the donor's history by exactly one
/// entry, that donation, and leaves every earlier entry and every other
/// donor's history as they were; the total raised by the charity in the
/// coin grows by the amount given, and no other total moves.
pub proof fn lemma_donation_appends_one_entry(pre: RegistryView, donation: DonationView)
    ensures
        ({
            let post = with_donation(pre, donation);
            let earlier = pre.histories[donation.donor];
            let pair = (donation.charity_name, donation.coin_name);
            &&& post.histories[donation.donor].len() == earlier.len() + 1
            &&& post.histories[donation.donor].take(earlier.len() as int) == earlier
            &&& post.histories[donation.donor].last() == donation
            &&& forall|other: AccountId|
                other != donation.donor ==> post.histories[other] == pre.histories[other]
            &&& post.raised[pair] == pre.raised[pair] + donation.amount
            &&& forall|other: (Seq<char>, Seq<char>)|
                other != pair ==> post.raised[other] == pre.raised[other]
            &&& post.wallets == pre.wallets
            &&& post.owner == pre.owner
        }),
{
    let post = with_donation(pre, donation);
    assert(post.histories[donation.donor].take(pre.histories[donation.donor].len() as int)
        =~= pre.histories[donation.donor]);
}

/// A donation registry: its administrator, the registered charities, what
/// each has raised, and what each donor has given.
pub struct Registry {
    owner: AccountId,
    histories: HistoryBook,
    charity_wallets: WalletBook,
    charity_raised_amounts: RaisedBook,
}

impl View for Registry {
    type V = RegistryView;

    closed spec fn view(&self) -> RegistryView {
        RegistryView {
            owner: self.owner,
            wallets: self.charity_wallets@,
            raised: self.charity_raised_amounts@,
            histories: self.histories@,
        }
    }
}

impl Registry {
    /// The registry's invariant: each charity and each (charity, coin)
    /// pair is recorded once.
    pub closed spec fn wf(&self) -> bool {
        &&& self.charity_wallets.wf()
        &&& self.charity_raised_amounts.wf()
    }

    /// An empty registry administered by `owner`.
    pub fn new(owner: AccountId) -> (r: Registry)
        ensures
            r.wf(),
            r@ == (RegistryView {
                owner,
                wallets: Map::empty(),
                raised: Map::total(|pair: (Seq<char>, Seq<char>)| 0nat),
                histories: Map::total(|donor: AccountId| Seq::empty()),
            }),
    {
        Registry {
            owner,
            histories: HistoryBook::new(),
            charity_wallets: WalletBook::new(),
            charity_raised_amounts: RaisedBook::new(),
        }
    }

    /// The administrator.
    pub fn owner(&self) -> (r: AccountId)
        ensures
            r == self@.owner,
    {
        self.owner
    }

    /// The wallet registered under `name`, if there is one.
    pub fn wallet(&self, name: &String) -> (r: Option<AccountId>)
        requires
            self.wf(),
        ensures
            r == if self@.wallets.dom().contains(name@) {
                Some(self@.wallets[name@])
            } else {
                None
            },
    {
        self.charity_wallets.get(name)
    }

    /// What `charity` has raised in `coin`; zero where nothing was given.
    pub fn raised(&self, charity: &String, coin: &String) -> (r: u128)
        requires
            self.wf(),
        ensures
            r == self@.raised[(charity@, coin@)],
    {
        self.charity_raised_amounts.get(charity, coin)
    }

    /// The donations of `donor` in the order they were made.
    pub fn history(&self, donor: AccountId) -> (r: Vec<Donation>)
        ensures
            r@.len() == self@.histories[donor].len(),
            donation_views(r@) == self@.histories[donor],
    {
        self.histories.get(donor)
    }

    /// Registers `wallet` under `name`, which must not be registered yet.
    pub fn register(&mut self, name: String, wallet: AccountId)
        requires
            old(self).wf(),
            !old(self)@.wallets.dom().contains(name@),
        ensures
            final(self).wf(),
            final(self)@ == with_charity(old(self)@, name@, wallet),
    {
        self.charity_wallets.insert(name, wallet);
    }

    /// Records `donation`. The total it adds to must stay within the
    /// 128-bit range.
    pub fn record(&mut self, donation: Donation)
        requires
            old(self).wf(),
            old(self)@.raised[(donation.charity_name@, donation.coin_name@)] + donation.amount
                <= u128::MAX,
        ensures
            final(self).wf(),
            final(self)@ == with_donation(old(self)@, donation@),
    {
        let current_amount = self.charity_raised_amounts.get(
            &donation.charity_name,
            &donation.coin_name,
        );
        self.charity_raised_amounts.set(
            donation.charity_name.clone(),
            donation.coin_name.clone(),
            current_amount + donation.amount,
        );
        self.histories.append(donation);
    }
}

} // verus!
