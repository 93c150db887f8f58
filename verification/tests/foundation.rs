use eunoia_ledger::account::AccountId;
use eunoia_ledger::eunoia_foundation::{
    CharityRegisteredEvent, DonateEvent, Error, EunoiaFoundation, HistoryEntry,
};

fn admin() -> AccountId {
    AccountId::new([1u8; 32])
}

fn wallet() -> AccountId {
    AccountId::new([2u8; 32])
}

fn donor() -> AccountId {
    AccountId::new([3u8; 32])
}

fn text(s: &str) -> String {
    String::from(s)
}

#[test]
fn test_new_contract() {
    let contract = EunoiaFoundation::new(admin());
    assert_eq!(contract.owner(), admin());
}

#[test]
fn test_add_charity() {
    let mut contract = EunoiaFoundation::new(admin());
    let charity_name = text("TestCharity");
    let result = contract.add_charity(admin(), charity_name.clone(), wallet());
    assert_eq!(
        result,
        Ok(CharityRegisteredEvent {
            charity_name: text("TestCharity"),
            charity_wallet: wallet(),
            admin: admin(),
        })
    );
    assert_eq!(contract.get_charity_wallet(charity_name).unwrap(), wallet());
}

#[test]
fn test_donate() {
    let mut contract = EunoiaFoundation::new(admin());
    let charity_name = text("TestCharity");
    let token_name = text("DOT");
    let amount = 1000;
    contract.add_charity(admin(), charity_name.clone(), wallet()).unwrap();
    assert_eq!(contract.check_donation(&charity_name, &token_name, amount, amount), Ok(wallet()));
    let result =
        contract.donate(donor(), charity_name.clone(), token_name.clone(), amount, amount, 7, true);
    assert_eq!(
        result,
        Ok(DonateEvent {
            donor: donor(),
            charity_name: text("TestCharity"),
            token_name: text("DOT"),
            amount: 1000,
            timestamp: 7,
        })
    );
    let history = contract.get_donation_history(donor());
    assert_eq!(history.len(), 1);
    assert_eq!(history[0].amount_donated, amount);
    assert_eq!(history[0].charity_name, charity_name);
    assert_eq!(history[0].token_name, token_name);
    assert_eq!(contract.get_charity_raised_amount(charity_name, token_name), amount);
}

#[test]
fn registered_charity_receives_a_donation() {
    let mut contract = EunoiaFoundation::new(admin());
    assert!(contract.add_charity(admin(), text("Red Cross"), wallet()).is_ok());
    assert!(contract.donate(donor(), text("Red Cross"), text("DOT"), 100, 100, 12, true).is_ok());
    assert_eq!(contract.get_charity_wallet(text("Red Cross")), Ok(wallet()));
    assert_eq!(contract.get_charity_raised_amount(text("Red Cross"), text("DOT")), 100);
    assert_eq!(
        contract.get_donation_history(donor()),
        vec![HistoryEntry {
            charity_name: text("Red Cross"),
            token_name: text("DOT"),
            amount_donated: 100,
            donor_address: donor(),
            timestamp: 12,
        }]
    );
}

#[test]
fn only_the_administrator_registers() {
    let mut contract = EunoiaFoundation::new(admin());
    assert_eq!(contract.add_charity(donor(), text("Red Cross"), wallet()), Err(Error::NotModuleOwner));
    assert_eq!(contract.get_charity_wallet(text("Red Cross")), Err(Error::CharityNotFound));
    assert_eq!(
        contract.check_donation(&text("Red Cross"), &text("DOT"), 5, 5),
        Err(Error::CharityNotFound)
    );
    assert_eq!(contract.owner(), admin());
}

#[test]
fn second_registration_of_a_name_is_rejected() {
    let mut contract = EunoiaFoundation::new(admin());
    assert!(contract.add_charity(admin(), text("Red Cross"), wallet()).is_ok());
    assert_eq!(
        contract.add_charity(admin(), text("Red Cross"), donor()),
        Err(Error::CharityAlreadyExists)
    );
    assert_eq!(contract.get_charity_wallet(text("Red Cross")), Ok(wallet()));
    assert_eq!(
        contract.add_charity(donor(), text("Red Cross"), donor()),
        Err(Error::NotModuleOwner)
    );
    assert_eq!(contract.get_charity_wallet(text("Red Cross")), Ok(wallet()));
    assert!(contract.add_charity(admin(), text("Red Cros"), donor()).is_ok());
    assert_eq!(contract.get_charity_wallet(text("Red Cros")), Ok(donor()));
    assert_eq!(contract.get_charity_wallet(text("Red Cross")), Ok(wallet()));
}

#[test]
fn donation_to_an_unregistered_charity_is_rejected() {
    let mut contract = EunoiaFoundation::new(admin());
    assert!(contract.add_charity(admin(), text("Red Cross"), wallet()).is_ok());
    assert_eq!(
        contract.donate(donor(), text("Green Cross"), text("DOT"), 100, 100, 1, true),
        Err(Error::CharityNotFound)
    );
    assert_eq!(contract.get_charity_raised_amount(text("Green Cross"), text("DOT")), 0);
    assert_eq!(contract.get_charity_raised_amount(text("Red Cross"), text("DOT")), 0);
    assert_eq!(contract.get_donation_history(donor()), vec![]);
}

#[test]
fn unsupported_token_is_rejected_first() {
    let mut contract = EunoiaFoundation::new(admin());
    assert!(contract.add_charity(admin(), text("Red Cross"), wallet()).is_ok());
    for token in ["KSM", "dot", "DOTS", "", "WN"] {
        assert_eq!(
            contract.donate(donor(), text("Nobody"), text(token), 0, 5, 1, true),
            Err(Error::CharityNotRegisteredForToken)
        );
        assert_eq!(
            contract.check_donation(&text("Red Cross"), &text(token), 5, 5),
            Err(Error::CharityNotRegisteredForToken)
        );
    }
    assert_eq!(contract.check_donation(&text("Red Cross"), &text("WND"), 5, 5), Ok(wallet()));
    assert_eq!(contract.check_donation(&text("Red Cross"), &text("DOT"), 5, 5), Ok(wallet()));
    assert_eq!(contract.get_donation_history(donor()), vec![]);
}

#[test]
fn zero_or_mismatched_amount_is_rejected() {
    let mut contract = EunoiaFoundation::new(admin());
    assert!(contract.add_charity(admin(), text("Red Cross"), wallet()).is_ok());
    assert_eq!(
        contract.donate(donor(), text("Red Cross"), text("DOT"), 0, 0, 1, true),
        Err(Error::InvalidDonationAmount)
    );
    assert_eq!(
        contract.donate(donor(), text("Red Cross"), text("DOT"), 10, 11, 1, true),
        Err(Error::InvalidDonationAmount)
    );
    assert_eq!(
        contract.donate(donor(), text("Nobody"), text("WND"), 10, 9, 1, true),
        Err(Error::InvalidDonationAmount)
    );
    assert_eq!(contract.get_charity_raised_amount(text("Red Cross"), text("DOT")), 0);
    assert_eq!(contract.get_donation_history(donor()), vec![]);
}

#[test]
fn failed_transfer_records_nothing() {
    let mut contract = EunoiaFoundation::new(admin());
    assert!(contract.add_charity(admin(), text("Red Cross"), wallet()).is_ok());
    assert_eq!(
        contract.donate(donor(), text("Red Cross"), text("DOT"), 10, 10, 1, false),
        Err(Error::TransferFailed)
    );
    assert_eq!(contract.get_charity_raised_amount(text("Red Cross"), text("DOT")), 0);
    assert_eq!(contract.get_donation_history(donor()), vec![]);
}

#[test]
fn history_grows_by_one_entry_per_donation() {
    let mut contract = EunoiaFoundation::new(admin());
    assert!(contract.add_charity(admin(), text("Red Cross"), wallet()).is_ok());
    assert!(contract.add_charity(admin(), text("Shelter"), admin()).is_ok());
    let gifts = [
        (donor(), "Red Cross", "DOT", 5u128),
        (wallet(), "Shelter", "WND", 7),
        (donor(), "Shelter", "DOT", 11),
        (donor(), "Red Cross", "DOT", 13),
    ];
    let mut time = 100;
    for (giver, charity, token, amount) in gifts {
        let before = contract.get_donation_history(giver);
        let others = contract.get_donation_history(admin());
        time += 1;
        assert!(contract.donate(giver, text(charity), text(token), amount, amount, time, true).is_ok());
        let after = contract.get_donation_history(giver);
        assert_eq!(after.len(), before.len() + 1);
        assert_eq!(&after[..before.len()], &before[..]);
        assert_eq!(
            after[before.len()],
            HistoryEntry {
                charity_name: text(charity),
                token_name: text(token),
                amount_donated: amount,
                donor_address: giver,
                timestamp: time,
            }
        );
        assert_eq!(contract.get_donation_history(admin()), others);
    }
    assert_eq!(contract.get_donation_history(donor()).len(), 3);
    assert_eq!(contract.get_donation_history(wallet()).len(), 1);
    assert_eq!(contract.get_charity_raised_amount(text("Red Cross"), text("DOT")), 18);
    assert_eq!(contract.get_charity_raised_amount(text("Shelter"), text("DOT")), 11);
    assert_eq!(contract.get_charity_raised_amount(text("Shelter"), text("WND")), 7);
    assert_eq!(contract.get_charity_raised_amount(text("Red Cross"), text("WND")), 0);
}
