//! A verified NFT ledger engine: tokens with unique ids and owners, delegated
//! transfer approvals (token-level and collection-level) with expiry, an
//! append-only hash-chained transaction log, and an archival trigger that
//! moves old blocks out of live storage once configured thresholds are crossed.

pub mod account;
pub mod approvals;
pub mod archive;
pub mod errors;
pub mod hashing;
pub mod laws;
pub mod ledger;
pub mod log;
pub mod token;
pub mod value;
