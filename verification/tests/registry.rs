use eunoia_ledger::account::AccountId;
use eunoia_ledger::eunoia_new::{
    CharityRegisteredEvent, DonateEvent, Error, EunoiaNew, HistoryEntry,
};

fn alice() -> AccountId {
    AccountId::new([1u8; 32])
}

fn bob() -> AccountId {
    AccountId::new([2u8; 32])
}

fn charlie() -> AccountId {
    AccountId::new([3u8; 32])
}

#[test]
fn initialization_works() {
    let contract = EunoiaNew::new(alice());
    assert_eq!(contract.owner(), alice());
}

#[test]
fn add_charity_works() {
    let mut contract = EunoiaNew::new(alice());
    let charity_name = String::from("Test Charity");
    let charity_wallet = bob();

    assert!(contract.add_charity(alice(), charity_name.clone(), charity_wallet).is_ok());
    assert_eq!(contract.get_charity_wallet(charity_name).unwrap(), charity_wallet);
}

#[test]
fn donation_works() {
    let mut contract = EunoiaNew::new(alice());
    let charity_name = String::from("Test Charity");
    let coin_name = String::from("DOT");
    let charity_wallet = bob();

    assert!(contract.add_charity(alice(), charity_name.clone(), charity_wallet).is_ok());

    // The contract holds enough to pay the donation out.
    let contract_balance: u128 = 1000;
    let value_transferred: u128 = 100;
    assert_eq!(contract.check_donation(&charity_name, value_transferred), Ok(charity_wallet));
    let transfer_succeeded = value_transferred <= contract_balance;

    assert!(contract
        .donate(
            alice(),
            charity_name.clone(),
            coin_name.clone(),
            value_transferred,
            5,
            transfer_succeeded
        )
        .is_ok());

    let donor = alice();
    let history = contract.get_donation_history(donor);
    assert_eq!(history.len(), 1);
    assert_eq!(history[0].charity_name, charity_name);
    assert_eq!(history[0].coin_name, coin_name);
    assert_eq!(history[0].amount_donated, 100);

    assert_eq!(contract.get_charity_raised_amount(charity_name, coin_name), 100);
}

#[test]
fn registration_and_donation_report_their_events() {
    let mut contract = EunoiaNew::new(alice());
    assert_eq!(
        contract.add_charity(alice(), String::from("Red Cross"), bob()),
        Ok(CharityRegisteredEvent {
            charity_name: String::from("Red Cross"),
            charity_wallet: bob(),
            admin: alice(),
        })
    );
    assert_eq!(
        contract.donate(charlie(), String::from("Red Cross"), String::from("DOT"), 100, 42, true),
        Ok(DonateEvent {
            donor: charlie(),
            charity_name: String::from("Red Cross"),
            coin_name: String::from("DOT"),
            amount: 100,
            timestamp: 42,
        })
    );
    assert_eq!(contract.get_charity_wallet(String::from("Red Cross")), Ok(bob()));
    assert_eq!(
        contract.get_charity_raised_amount(String::from("Red Cross"), String::from("DOT")),
        100
    );
    assert_eq!(
        contract.get_donation_history(charlie()),
        vec![HistoryEntry {
            charity_name: String::from("Red Cross"),
            coin_name: String::from("DOT"),
            amount_donated: 100,
            donor_address: charlie(),
            timestamp: 42,
        }]
    );
}

#[test]
fn stranger_cannot_register() {
    let mut contract = EunoiaNew::new(alice());
    assert_eq!(
        contract.add_charity(bob(), String::from("Red Cross"), bob()),
        Err(Error::NotModuleOwner)
    );
    assert_eq!(contract.get_charity_wallet(String::from("Red Cross")), Err(Error::CharityNotFound));
}

#[test]
fn name_is_registered_once() {
    let mut contract = EunoiaNew::new(alice());
    assert!(contract.add_charity(alice(), String::from("Red Cross"), bob()).is_ok());
    assert_eq!(
        contract.add_charity(alice(), String::from("Red Cross"), charlie()),
        Err(Error::CharityAlreadyExists)
    );
    assert_eq!(contract.get_charity_wallet(String::from("Red Cross")), Ok(bob()));
}

#[test]
fn rejected_donations_leave_no_trace() {
    let mut contract = EunoiaNew::new(alice());
    assert!(contract.add_charity(alice(), String::from("Red Cross"), bob()).is_ok());
    assert_eq!(
        contract.donate(charlie(), String::from("Red Cross"), String::from("DOT"), 0, 1, true),
        Err(Error::InvalidDonationAmount)
    );
    assert_eq!(
        contract.donate(charlie(), String::from("Nobody"), String::from("DOT"), 0, 1, true),
        Err(Error::InvalidDonationAmount)
    );
    assert_eq!(
        contract.donate(charlie(), String::from("Nobody"), String::from("DOT"), 9, 1, true),
        Err(Error::CharityNotFound)
    );
    assert_eq!(
        contract.donate(charlie(), String::from("Red Cross"), String::from("DOT"), 9, 1, false),
        Err(Error::InsufficientBalance)
    );
    assert_eq!(contract.get_donation_history(charlie()), vec![]);
    assert_eq!(
        contract.get_charity_raised_amount(String::from("Red Cross"), String::from("DOT")),
        0
    );
    assert_eq!(contract.get_charity_raised_amount(String::from("Nobody"), String::from("DOT")), 0);
}

#[test]
fn any_coin_name_is_accepted_and_counted_apart() {
    let mut contract = EunoiaNew::new(alice());
    assert!(contract.add_charity(alice(), String::from("Red Cross"), bob()).is_ok());
    assert!(contract.donate(alice(), String::from("Red Cross"), String::from("KSM"), 3, 1, true).is_ok());
    assert!(contract.donate(bob(), String::from("Red Cross"), String::from(""), 4, 2, true).is_ok());
    assert!(contract.donate(alice(), String::from("Red Cross"), String::from("KSM"), 5, 3, true).is_ok());
    assert_eq!(
        contract.get_charity_raised_amount(String::from("Red Cross"), String::from("KSM")),
        8
    );
    assert_eq!(contract.get_charity_raised_amount(String::from("Red Cross"), String::from("")), 4);
    assert_eq!(
        contract.get_charity_raised_amount(String::from("Red Cross"), String::from("DOT")),
        0
    );
    let given = contract.get_donation_history(alice());
    assert_eq!(given.len(), 2);
    assert_eq!(given[0].amount_donated, 3);
    assert_eq!(given[0].timestamp, 1);
    assert_eq!(given[1].amount_donated, 5);
    assert_eq!(given[1].timestamp, 3);
    assert_eq!(contract.get_donation_history(bob()).len(), 1);
    assert_eq!(contract.get_donation_history(charlie()).len(), 0);
}

#[test]
fn raised_total_may_reach_the_largest_amount() {
    let mut contract = EunoiaNew::new(alice());
    assert!(contract.add_charity(alice(), String::from("Red Cross"), bob()).is_ok());
    assert!(contract
        .donate(alice(), String::from("Red Cross"), String::from("DOT"), u128::MAX - 1, 1, true)
        .is_ok());
    assert!(contract.donate(alice(), String::from("Red Cross"), String::from("DOT"), 1, 2, true).is_ok());
    assert_eq!(
        contract.get_charity_raised_amount(String::from("Red Cross"), String::from("DOT")),
        u128::MAX
    );
}
