//! Domain core of a multi-mint ecash wallet: proof stores, per-mint wallet
//! instances, quote state machines, the mint registry and the backup records.
pub mod error;
pub mod proofs;
pub mod store;
pub mod quote;
pub mod hexcodec;
pub mod seed;
pub mod text;
pub mod mint;
pub mod ledger;
pub mod instance;
pub mod wallet;
pub mod identity;
pub mod backup;
