//! The logic of the Dash Platform terminal explorer: wallet coin selection and
//! the plans of the transactions that spend the wallet, the bookkeeping of
//! strategies, identities and known contracts, the decisions of strategy runs
//! and load tests, and the reports and texts that the explorer shows.

// Text, sums and encodings that the rest builds on.
pub mod amounts;
pub mod codec;
pub mod text;

// The wallet.
pub mod insight;
pub mod split;
pub mod wallet;
pub mod wallet_tasks;

// Identities and their keys.
pub mod dpns;
pub mod identity;
pub mod identity_tasks;
pub mod keys;

// Strategies and their runs.
pub mod description;
pub mod load;
pub mod runs;
pub mod strategy;

// Contracts, documents and the platform.
pub mod contracts;
pub mod documents;
pub mod platform;

// Statistics, errors, navigation and node addresses.
pub mod address_pool;
pub mod errors;
pub mod navigation;
pub mod stats;

// Properties that span several of the above.
pub mod laws;
