//! Accounting core of a charity-donation platform: a fungible-token ledger
//! and a donation registry, with every state transition proved against its
//! contract.

pub mod account;
pub mod tally;
pub mod psp22_token;
pub mod books;
pub mod registry;
pub mod eunoia_foundation;
pub mod eunoia_new;
pub mod eunoia;
