//! A tip jar held in escrow by a smart contract.
//!
//! Supporters tip creators in whitelisted tokens. The jar keeps the tips until
//! the creator withdraws them, lets a supporter take a tip back, and lets
//! sponsors add matching funds to other people's tips.
//!
//! Every entry point of [`TipJarContract`] works on an [`Env`]: the ledger
//! entries at hand, the time, the jar's own address, and the list of what the
//! call asks of the host (authorisations, token transfers, events). The host
//! grants those requests in order and abandons the call if one is refused.
//!
//! * [`types`]: addresses, records, storage keys and errors.
//! * [`table`] and [`env`]: the entries at hand and the requests to the host.
//! * [`model`]: what each call means, as mathematics.
//! * `admin`, `tips`, `refunds`, `matching`: the entry points.
//! * [`calls`]: calls as values, and runs of them.
//! * [`footprint`]: which entries a call needs at hand.
//! * [`books`], [`history`], [`laws`], [`escrow`]: what holds of the jar as a
//!   whole.
//! * [`promises`]: what each call owes its callers, in numbers and records.
#![allow(unused_imports)]

use vstd::prelude::*;

pub mod types;
pub mod table;
pub mod env;
pub mod model;
pub mod calls;
pub mod footprint;
pub mod books;
pub mod history;
pub mod laws;
pub mod escrow;
pub mod promises;
mod admin;
mod tips;
mod refunds;
mod matching;

pub use crate::calls::Call;
pub use crate::env::{Env, Event, HostCall, Messages, Storage};
pub use crate::table::Table;
pub use crate::types::{
    Abort, Address, DataKey, MatchingProgram, Metadata, Milestone, TipJarError, TipRecord,
    TipWithMessage,
};

verus! {

/// The tip jar contract: the owner of every entry point.
pub struct TipJarContract;

} // verus!
