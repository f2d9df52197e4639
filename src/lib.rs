//! A permissioned multi-source data oracle: authorised feeders report keyed
//! values, and the library combines the fresh reports for a key into one
//! value by a median with a quorum and an expiry window, caching the result
//! until a new report for that key invalidates it. Beside it stands a small
//! token sale: pools, their winners, permissions and staking tiers.
pub mod table;
pub mod registry;
pub mod combine;
pub mod storage_order;
pub mod pallet;
pub mod primitives;
pub mod rpc;
pub mod laws;
pub mod redkite;
