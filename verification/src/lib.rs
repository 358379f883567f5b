//! Read-only client logic for a Safe transaction pool contract: network
//! resolution, deployment verification, transaction fetching with partial
//! failure tolerance, and normalization/sorting of the results.

pub mod config;
pub mod decimal;
pub mod fetch;
pub mod hexfmt;
pub mod order;
pub mod records;
