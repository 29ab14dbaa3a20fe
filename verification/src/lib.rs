//! A store for a community application: profiles, groups, the membership of
//! accounts in groups, and a ledger of reward points.
//!
//! Membership is recorded twice, in the member list of the group and in the
//! group list of the profile. The operations of `Contract` keep the two
//! records in agreement and pay each one-time bonus once; `laws` states what
//! that comes to over any sequence of calls.

pub mod account_map;
pub mod consistency;
pub mod error;
pub mod groups;
pub mod host;
pub mod laws;
pub mod models;
pub mod profile;
pub mod rewards;
pub mod text;
pub mod views;

pub use crate::models::contract::Contract;
