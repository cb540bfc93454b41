//! A rotating savings group: members pay a fixed contribution into a common
//! pool every cycle, and each cycle the whole pool goes to one member, in the
//! order in which the members joined, until everyone has been paid once.
//!
//! [`types`] holds the record of a group and its model, [`group`] the
//! operations on one group, [`storage`] the ledger of contributions and
//! payouts, and [`contract`] the registry of all groups. [`state`] is the
//! model of the registry that the contracts of the operations speak of;
//! [`laws`] and [`history`] prove what holds of every registry.
//!
//! The library neither authenticates callers, nor moves money, nor reads a
//! clock: its caller does, and hands over identities and times.

pub mod address;
pub mod contract;
pub mod errors;
pub mod events;
pub mod group;
pub mod history;
pub mod laws;
pub mod state;
pub mod storage;
pub mod types;
pub mod utils;

pub use crate::address::{Address, AddressKind};
pub use crate::contract::AjoContract;
pub use crate::errors::AjoError;
pub use crate::events::Event;
pub use crate::types::{Group, GroupStatus, Payout};
