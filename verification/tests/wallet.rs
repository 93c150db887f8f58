use eunoia_ledger::account::AccountId;
use eunoia_ledger::books::{Donation, HistoryBook, RaisedBook, WalletBook};
use eunoia_ledger::registry::Registry;
use eunoia_ledger::eunoia::{Eunoia, Payout, U256};

#[test]
fn toggle_starts_off_and_flips() {
    let mut wallet = Eunoia::new(AccountId::new([9u8; 32]));
    assert!(!wallet.get());
    wallet.flip();
    assert!(wallet.get());
    wallet.flip();
    assert!(!wallet.get());
}

#[test]
fn payout_goes_to_the_caller() {
    let mut wallet = Eunoia::new(AccountId::new([9u8; 32]));
    let caller = AccountId::new([4u8; 32]);
    let value = U256::new(0, 500);
    let balance = U256::new(1, 0);
    assert!(wallet.can_give(&value, &balance));
    assert_eq!(wallet.give_me(caller, value, balance), Payout { to: caller, value });
    assert!(!wallet.get());
    assert_eq!(caller.to_bytes(), [4u8; 32]);
}

#[test]
fn wide_amounts_compare_by_both_halves() {
    assert!(U256::new(0, u128::MAX).at_most(&U256::new(1, 0)));
    assert!(!U256::new(1, 0).at_most(&U256::new(0, u128::MAX)));
    assert!(U256::new(2, 7).at_most(&U256::new(2, 7)));
    assert!(U256::new(2, 6).at_most(&U256::new(2, 7)));
    assert!(!U256::new(2, 8).at_most(&U256::new(2, 7)));
    assert!(!U256::new(3, 0).at_most(&U256::new(2, 7)));
    let wallet = Eunoia::new(AccountId::new([0u8; 32]));
    assert!(!wallet.can_give(&U256::new(0, 2), &U256::new(0, 1)));
}

#[test]
fn wallet_book_keeps_each_name() {
    let mut book = WalletBook::new();
    assert_eq!(book.get(&String::from("a")), None);
    book.insert(String::from("a"), AccountId::new([1u8; 32]));
    book.insert(String::from("b"), AccountId::new([2u8; 32]));
    assert_eq!(book.get(&String::from("a")), Some(AccountId::new([1u8; 32])));
    assert_eq!(book.get(&String::from("b")), Some(AccountId::new([2u8; 32])));
    assert_eq!(book.get(&String::from("ab")), None);
}

#[test]
fn raised_book_keys_by_charity_and_coin() {
    let mut book = RaisedBook::new();
    assert_eq!(book.get(&String::from("a"), &String::from("x")), 0);
    book.set(String::from("a"), String::from("x"), 5);
    book.set(String::from("a"), String::from("y"), 6);
    book.set(String::from("b"), String::from("x"), 7);
    book.set(String::from("a"), String::from("x"), 8);
    assert_eq!(book.get(&String::from("a"), &String::from("x")), 8);
    assert_eq!(book.get(&String::from("a"), &String::from("y")), 6);
    assert_eq!(book.get(&String::from("b"), &String::from("x")), 7);
    assert_eq!(book.get(&String::from("b"), &String::from("y")), 0);
    assert_eq!(book.get(&String::from("ax"), &String::from("")), 0);
}

fn gift(charity: &str, coin: &str, amount: u128, donor: u8, timestamp: u64) -> Donation {
    Donation {
        charity_name: String::from(charity),
        coin_name: String::from(coin),
        amount,
        donor: AccountId::new([donor; 32]),
        timestamp,
    }
}

#[test]
fn history_book_keeps_each_donor_in_order() {
    let mut book = HistoryBook::new();
    assert_eq!(book.get(AccountId::new([1u8; 32])), vec![]);
    book.append(gift("a", "x", 1, 1, 10));
    book.append(gift("b", "y", 2, 2, 11));
    book.append(gift("c", "z", 3, 1, 12));
    assert_eq!(
        book.get(AccountId::new([1u8; 32])),
        vec![gift("a", "x", 1, 1, 10), gift("c", "z", 3, 1, 12)]
    );
    assert_eq!(book.get(AccountId::new([2u8; 32])), vec![gift("b", "y", 2, 2, 11)]);
    assert_eq!(book.get(AccountId::new([3u8; 32])), vec![]);
    assert_eq!(gift("a", "x", 1, 1, 10).duplicate(), gift("a", "x", 1, 1, 10));
}

#[test]
fn registry_registers_and_records() {
    let admin = AccountId::new([7u8; 32]);
    let mut registry = Registry::new(admin);
    assert_eq!(registry.owner(), admin);
    assert_eq!(registry.wallet(&String::from("a")), None);
    registry.register(String::from("a"), AccountId::new([8u8; 32]));
    assert_eq!(registry.wallet(&String::from("a")), Some(AccountId::new([8u8; 32])));
    assert_eq!(registry.raised(&String::from("a"), &String::from("x")), 0);
    registry.record(gift("a", "x", 40, 1, 10));
    registry.record(gift("a", "x", 2, 2, 11));
    registry.record(gift("a", "y", 5, 1, 12));
    assert_eq!(registry.raised(&String::from("a"), &String::from("x")), 42);
    assert_eq!(registry.raised(&String::from("a"), &String::from("y")), 5);
    assert_eq!(
        registry.history(AccountId::new([1u8; 32])),
        vec![gift("a", "x", 40, 1, 10), gift("a", "y", 5, 1, 12)]
    );
    assert_eq!(registry.history(admin), vec![]);
    assert_eq!(registry.owner(), admin);
}
