//! The donation registry with an explicit donation amount and a fixed list
//! of settlement tokens: charities are registered by the administrator,
//! donations are validated, and each successful donation is added to the
//! charity's raised total and appended to the donor's history.

use vstd::prelude::*;
use crate::account::AccountId;
use crate::books::{donation_views, Donation, DonationView};
use crate::registry::{
    grows_to, lemma_donation_appends_one_entry, with_charity, with_donation, Registry,
    RegistryView,
};

verus! {

/// One donation, as recorded in its donor's history.
#[derive(Debug, PartialEq, Eq)]
pub struct HistoryEntry {
    pub charity_name: String,
    pub token_name: String,
    pub amount_donated: u128,
    pub donor_address: AccountId,
    pub timestamp: u64,
}

impl View for HistoryEntry {
    type V = DonationView;

    open spec fn view(&self) -> DonationView {
        DonationView {
            charity_name: self.charity_name@,
            coin_name: self.token_name@,
            amount: self.amount_donated,
            donor: self.donor_address,
            timestamp: self.timestamp,
        }
    }
}

impl HistoryEntry {
    fn of(donation: &Donation) -> (r: HistoryEntry)
        ensures
            r@ == donation@,
    {
        HistoryEntry {
            charity_name: donation.charity_name.clone(),
            token_name: donation.coin_name.clone(),
            amount_donated: donation.amount,
            donor_address: donation.donor,
            timestamp: donation.timestamp,
        }
    }
}

/// The views of `entries`, in the same order.
pub open spec fn entry_views(entries: Seq<HistoryEntry>) -> Seq<DonationView> {
    Seq::new(entries.len(), |i: int| entries[i]@)
}

/// Why a registry operation was rejected.
#[derive(Clone, Copy, Debug, PartialEq, Eq)]
pub enum Error {
    ModuleNotInitialized,
    AlreadyInitialized,
    /// The name already has a wallet.
    CharityAlreadyExists,
    /// The name has no wallet.
    CharityNotFound,
    /// The amount is zero or differs from the value attached to the call.
    InvalidDonationAmount,
    /// The token is not one of the supported settlement tokens.
    CharityNotRegisteredForToken,
    /// The caller is not the administrator.
    NotModuleOwner,
    InsufficientBalance,
    /// The host could not move the value to the charity's wallet.
    TransferFailed,
}

/// Notification of a donation.
#[derive(Debug, PartialEq, Eq)]
pub struct DonateEvent {
    pub donor: AccountId,
    pub charity_name: String,
    pub token_name: String,
    pub amount: u128,
    pub timestamp: u64,
}

/// Notification of a registration.
#[derive(Debug, PartialEq, Eq)]
pub struct CharityRegisteredEvent {
    pub charity_name: String,
    pub charity_wallet: AccountId,
    pub admin: AccountId,
}

/// Whether `token` is one of the two supported settlement tokens, DOT and WND.
pub open spec fn supported_token(token: Seq<char>) -> bool {
    token == seq!['D', 'O', 'T'] || token == seq!['W', 'N', 'D']
}

/// What a registration by `caller` makes of the registry `pre`.
pub open spec fn add_charity_step(
    pre: RegistryView,
    caller: AccountId,
    name: Seq<char>,
    wallet: AccountId,
) -> Result<RegistryView, Error> {
    if caller != pre.owner {
        Err(Error::NotModuleOwner)
    } else if pre.wallets.dom().contains(name) {
        Err(Error::CharityAlreadyExists)
    } else {
        Ok(with_charity(pre, name, wallet))
    }
}

/// The wallet that a donation must be paid to, or why the donation is
/// refused before any value moves.
pub open spec fn donation_target(
    pre: RegistryView,
    charity: Seq<char>,
    token: Seq<char>,
    amount: u128,
    attached: u128,
) -> Result<AccountId, Error> {
    if !supported_token(token) {
        Err(Error::CharityNotRegisteredForToken)
    } else if amount == 0 || amount != attached {
        Err(Error::InvalidDonationAmount)
    } else if !pre.wallets.dom().contains(charity) {
        Err(Error::CharityNotFound)
    } else {
        Ok(pre.wallets[charity])
    }
}

/// The record of a donation.
pub open spec fn donation_record(
    donor: AccountId,
    charity: Seq<char>,
    token: Seq<char>,
    amount: u128,
    timestamp: u64,
) -> DonationView {
    DonationView { charity_name: charity, coin_name: token, amount, donor, timestamp }
}

/// What a donation by `caller` makes of the registry `pre`, given whether
/// the host moved the value to the charity's wallet.
pub open spec fn donate_step(
    pre: RegistryView,
    caller: AccountId,
    charity: Seq<char>,
    token: Seq<char>,
    amount: u128,
    attached: u128,
    timestamp: u64,
    transfer_succeeded: bool,
) -> Result<RegistryView, Error> {
    match donation_target(pre, charity, token, amount, attached) {
        Err(e) => Err(e),
        Ok(_) => if !transfer_succeeded {
            Err(Error::TransferFailed)
        } else {
            Ok(with_donation(pre, donation_record(caller, charity, token, amount, timestamp)))
        },
    }
}

fn is_supported(token_name: &String) -> (r: bool)
    ensures
        r == supported_token(token_name@),
{
    proof {
        reveal_strlit("DOT");
        reveal_strlit("WND");
    }
    let dot = String::from_str("DOT");
    let wnd = String::from_str("WND");
    assert(dot@ =~= seq!['D', 'O', 'T']);
    assert(wnd@ =~= seq!['W', 'N', 'D']);
    *token_name == dot || *token_name == wnd
}

/// The donation registry that takes the amount as an argument and accepts
/// the tokens DOT and WND.
pub struct EunoiaFoundation {
    registry: Registry,
}

impl View for EunoiaFoundation {
    type V = RegistryView;

    closed spec fn view(&self) -> RegistryView {
        self.registry@
    }
}

impl EunoiaFoundation {
    /// The registry's invariant: each charity and each (charity, token)
    /// pair is recorded once.
    pub closed spec fn wf(&self) -> bool {
        self.registry.wf()
    }

    /// An empty registry administered by `caller`.
    pub fn new(caller: AccountId) -> (r: EunoiaFoundation)
        ensures
            r.wf(),
            r@ == (RegistryView {
                owner: caller,
                wallets: Map::empty(),
                raised: Map::total(|pair: (Seq<char>, Seq<char>)| 0nat),
                histories: Map::total(|donor: AccountId| Seq::empty()),
            }),
    {
        EunoiaFoundation { registry: Registry::new(caller) }
    }

    /// Registers `charity_wallet` under `charity_name`. Only the
    /// administrator may register, and a name is registered once; a
    /// rejected call leaves the registry as it was.
    pub fn add_charity(
        &mut self,
        caller: AccountId,
        charity_name: String,
        charity_wallet: AccountId,
    ) -> (r: Result<CharityRegisteredEvent, Error>)
        requires
            old(self).wf(),
        ensures
            final(self).wf(),
            match add_charity_step(old(self)@, caller, charity_name@, charity_wallet) {
                Ok(post) => final(self)@ == post && (r matches Ok(event) && event.charity_name@
                    == charity_name@ && event.charity_wallet == charity_wallet && event.admin
                    == caller),
                Err(e) => *final(self) == *old(self) && r == Err::<CharityRegisteredEvent, Error>(
                    e,
                ),
            },
    {
        if !caller.same(&self.registry.owner()) {
            return Err(Error::NotModuleOwner);
        }
        if self.registry.wallet(&charity_name).is_some() {
            return Err(Error::CharityAlreadyExists);
        }
        self.registry.register(charity_name.clone(), charity_wallet);
        Ok(CharityRegisteredEvent { charity_name, charity_wallet, admin: caller })
    }

    /// Validates a donation before any value moves: the wallet to pay, or
    /// the reason for which the donation is refused.
    pub fn check_donation(
        &self,
        charity_name: &String,
        token_name: &String,
        amount: u128,
        attached_value: u128,
    ) -> (r: Result<AccountId, Error>)
        requires
            self.wf(),
        ensures
            r == donation_target(self@, charity_name@, token_name@, amount, attached_value),
    {
        if !is_supported(token_name) {
            return Err(Error::CharityNotRegisteredForToken);
        }
        if amount == 0 {
            return Err(Error::InvalidDonationAmount);
        }
        if amount != attached_value {
            return Err(Error::InvalidDonationAmount);
        }
        match self.registry.wallet(charity_name) {
            Some(wallet) => Ok(wallet),
            None => Err(Error::CharityNotFound),
        }
    }

    /// Records a donation of `amount` by `caller`. `transfer_succeeded`
    /// says whether the host moved the value to the wallet that
    /// `check_donation` named. A donation that is refused, or whose
    /// transfer failed, leaves the registry as it was; a successful one
    /// adds `amount` to the charity's total for the token and appends one
    /// entry to the caller's history. The total must stay within the
    /// 128-bit range.
    pub fn donate(
        &mut self,
        caller: AccountId,
        charity_name: String,
        token_name: String,
        amount: u128,
        attached_value: u128,
        timestamp: u64,
        transfer_succeeded: bool,
    ) -> (r: Result<DonateEvent, Error>)
        requires
            old(self).wf(),
            donation_target(old(self)@, charity_name@, token_name@, amount, attached_value) is Ok
                && transfer_succeeded ==> old(self)@.raised[(charity_name@, token_name@)] + amount
                <= u128::MAX,
        ensures
            final(self).wf(),
            match donate_step(
                old(self)@,
                caller,
                charity_name@,
                token_name@,
                amount,
                attached_value,
                timestamp,
                transfer_succeeded,
            ) {
                Ok(post) => final(self)@ == post && (r matches Ok(event) && event.donor == caller
                    && event.charity_name@ == charity_name@ && event.token_name@ == token_name@
                    && event.amount == amount && event.timestamp == timestamp),
                Err(e) => *final(self) == *old(self) && r == Err::<DonateEvent, Error>(e),
            },
    {
        match self.check_donation(&charity_name, &token_name, amount, attached_value) {
            Err(e) => {
                return Err(e);
            },
            Ok(_) => {},
        }
        if !transfer_succeeded {
            return Err(Error::TransferFailed);
        }
        self.registry.record(
            Donation {
                charity_name: charity_name.clone(),
                coin_name: token_name.clone(),
                amount,
                donor: caller,
                timestamp,
            },
        );
        Ok(DonateEvent { donor: caller, charity_name, token_name, amount, timestamp })
    }

    /// The donations of `donor_addr` in the order they were made; empty for
    /// a donor who never gave.
    pub fn get_donation_history(&self, donor_addr: AccountId) -> (r: Vec<HistoryEntry>)
        ensures
            r@.len() == self@.histories[donor_addr].len(),
            entry_views(r@) == self@.histories[donor_addr],
    {
        let donations = self.registry.history(donor_addr);
        let mut entries: Vec<HistoryEntry> = Vec::new();
        let mut i: usize = 0;
        while i < donations.len()
            invariant
                i <= donations@.len(),
                entries@.len() == i,
                forall|k: int| 0 <= k < i ==> entries@[k]@ == donations@[k]@,
            decreases donations@.len() - i,
        {
            entries.push(HistoryEntry::of(&donations[i]));
            i += 1;
        }
        assert(entry_views(entries@) =~= donation_views(donations@));
        entries
    }

    /// What `charity_name` has raised in `token_name`; zero for any pair
    /// that received nothing.
    pub fn get_charity_raised_amount(&self, charity_name: String, token_name: String) -> (r: u128)
        requires
            self.wf(),
        ensures
            r == self@.raised[(charity_name@, token_name@)],
    {
        self.registry.raised(&charity_name, &token_name)
    }

    /// The administrator.
    pub fn owner(&self) -> (r: AccountId)
        ensures
            r == self@.owner,
    {
        self.registry.owner()
    }

    /// The wallet registered for `charity_name`.
    pub fn get_charity_wallet(&self, charity_name: String) -> (r: Result<AccountId, Error>)
        requires
            self.wf(),
        ensures
            r == if self@.wallets.dom().contains(charity_name@) {
                Ok::<AccountId, Error>(self@.wallets[charity_name@])
            } else {
                Err::<AccountId, Error>(Error::CharityNotFound)
            },
    {
        match self.registry.wallet(&charity_name) {
            Some(wallet) => Ok(wallet),
            None => Err(Error::CharityNotFound),
        }
    }
}

/// A name that has been registered cannot be registered again: whoever
/// calls, the second registration is rejected, for the administrator
/// because the charity already exists, and the wallet of the first
/// registration stays.
pub proof fn lemma_registered_name_is_rejected(
    pre: RegistryView,
    first_caller: AccountId,
    name: Seq<char>,
    first_wallet: AccountId,
    second_caller: AccountId,
    second_wallet: AccountId,
)
    requires
        add_charity_step(pre, first_caller, name, first_wallet) is Ok,
    ensures
        ({
            let registered = add_charity_step(pre, first_caller, name, first_wallet)->Ok_0;
            let again = add_charity_step(registered, second_caller, name, second_wallet);
            &&& registered.wallets.dom().contains(name)
            &&& registered.wallets[name] == first_wallet
            &&& again is Err
            &&& second_caller == registered.owner ==> again == Err::<RegistryView, Error>(
                Error::CharityAlreadyExists,
            )
        }),
{
}

/// Every accepted registration is a step of growth of the registry: it
/// adds the one wallet and changes neither the administrator nor any
/// wallet, total or history that was there before.
pub proof fn lemma_registration_grows(
    pre: RegistryView,
    caller: AccountId,
    name: Seq<char>,
    wallet: AccountId,
)
    requires
        add_charity_step(pre, caller, name, wallet) is Ok,
    ensures
        ({
            let post = add_charity_step(pre, caller, name, wallet)->Ok_0;
            &&& grows_to(pre, post)
            &&& caller == pre.owner
            &&& !pre.wallets.dom().contains(name)
            &&& post.wallets == pre.wallets.insert(name, wallet)
            &&& forall|other: Seq<char>| #[trigger]
                pre.wallets.dom().contains(other) ==> post.wallets[other] == pre.wallets[other]
            &&& post.owner == pre.owner
            &&& post.raised == pre.raised
            &&& post.histories == pre.histories
        }),
{
    let post = add_charity_step(pre, caller, name, wallet)->Ok_0;
    assert(!pre.wallets.dom().contains(name) && post == with_charity(pre, name, wallet));
}

/// A successful donation lengthens the donor's history by exactly one
/// entry, the record of that donation, and leaves every earlier entry and
/// every other donor's history as they were; the total raised grows by the
/// amount given, which is not zero.
pub proof fn lemma_donation_grows(
    pre: RegistryView,
    caller: AccountId,
    charity: Seq<char>,
    token: Seq<char>,
    amount: u128,
    attached: u128,
    timestamp: u64,
    transfer_succeeded: bool,
)
    requires
        donate_step(
            pre,
            caller,
            charity,
            token,
            amount,
            attached,
            timestamp,
            transfer_succeeded,
        ) is Ok,
    ensures
        ({
            let post = donate_step(
                pre,
                caller,
                charity,
                token,
                amount,
                attached,
                timestamp,
                transfer_succeeded,
            )->Ok_0;
            let earlier = pre.histories[caller];
            &&& grows_to(pre, post)
            &&& post.histories[caller].len() == earlier.len() + 1
            &&& post.histories[caller].take(earlier.len() as int) == earlier
            &&& post.histories[caller].last() == donation_record(
                caller,
                charity,
                token,
                amount,
                timestamp,
            )
            &&& forall|other: AccountId|
                other != caller ==> post.histories[other] == pre.histories[other]
            &&& post.raised[(charity, token)] == pre.raised[(charity, token)] + amount
            &&& post.wallets == pre.wallets
            &&& amount > 0
        }),
{
    let donation = donation_record(caller, charity, token, amount, timestamp);
    lemma_donation_appends_one_entry(pre, donation);
}

} // verus!
