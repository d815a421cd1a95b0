//! # GigGuard: milestone escrow with 72-hour auto-release
//!
//! Protects freelancers from non-payment. Clients lock tokens upfront, freelancers deliver per
//! milestone, and funds are released after 72 hours if the client does not respond.
//!
//! 1. The client creates a job with milestones and deposits the total.
//! 2. The freelancer submits completed milestones.
//! 3. The client approves: the funds of the milestone are released at once.
//! 4. The client does not respond: the freelancer claims the funds after 72 hours.
//! 5. The client disputes: the milestone is frozen.
//!
//! [`GigGuardContract`] decides every call on the entries that the ledger holds for the contract,
//! and says in [`Effects`] which payments to make and which entries to store. Authorization of
//! the caller, the payments and the storage itself are the host's.
pub mod contract;
pub mod entries;
pub mod error;
pub mod fees;
pub mod funds;
pub mod host;
pub mod laws;
pub mod model;
pub mod types;

pub use contract::GigGuardContract;
pub use error::GigGuardError;
pub use types::{Address, DataKey, Effects, Job, Milestone, MilestoneStatus, Transfer};
