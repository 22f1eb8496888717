//! A fund-custody ledger: donors credit named banks, every donor's running
//! total is kept in one record per (bank, donor) pair, and a bank's authority
//! withdraws everything above the bank's persistence reserve.
pub mod handlers;
pub mod keys;
pub mod laws;
pub mod state;

pub use handlers::{
    initialize_with_derived, make_donation_with_derived,
    initialize, make_donation, withdraw, DonationError, DonationEvent, Initialize, MakeDonation,
    ProgramError, Withdraw, WithdrawEvent,
};
pub use keys::{derive_address, same_key};
pub use state::{Account, AccountData, DonationBank, Ledger, Registry};
