//! Creator earnings: what creators have earned, what they may claim, and what the
//! platform keeps of every credit.
//!
//! A creator's share of every credit is added to a claimable balance and to a lifetime
//! total; a claim pays the whole balance out and leaves the lifetime total alone. The
//! platform can pause crediting and claiming.
//!
//! The operations of [`contract::CreatorEarningsContract`] work on a [`ledger::Ledger`]:
//! they read and write storage slots and record, in order, what they ask of the host.
//! [`model`] says what each of them does, and [`laws`] what follows for the contract as a
//! whole: amounts and fees are always valid, no value is created or destroyed, no balance
//! becomes negative, a claim empties the balance, and a second claim is refused.

pub mod address;
pub mod contract;
pub mod error;
pub mod fee;
pub mod keys;
pub mod laws;
pub mod ledger;
pub mod model;
pub mod table;
