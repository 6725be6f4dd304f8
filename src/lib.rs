//! Native core of a payment rollup: account records and their canonical
//! encodings, the ledger that assigns identifiers and moves balances,
//! signed transactions, and Schnorr signatures with a Blake2s challenge.

pub mod account;
pub mod amount;
pub mod bytes;
pub mod crypto;
pub mod signature;
pub mod ledger;
pub mod transaction;
pub mod rollup;
pub mod random_oracle;
pub mod hash_shape;
pub mod range_check;
