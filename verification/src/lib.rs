//! Per-identity financial and trust ledger for a social-payments platform.
//!
//! The crate tracks wallet balances, records spending with emotional and
//! contextual metadata, scores transactions and messages for fraud risk,
//! maintains a trust graph between identities, and raises append-only
//! safety alerts.  Money-moving operations follow a two-phase
//! reserve/commit protocol so that balances stay consistent even when an
//! operation is suspended mid-execution by an external payment call.

use vstd::prelude::*;

pub mod alerts;
pub mod errors;
pub mod identity;
pub mod laws;
pub mod ledger;
pub mod lookup;
pub mod payments;
pub mod principal;
pub mod risk;
pub mod spending;
pub mod state;
pub mod text;
pub mod trust;
pub mod wallet;

verus! {

/// Platform ceiling on a wallet's daily spending limit, in minor units.
pub const MAX_DAILY_LIMIT: u64 = 100_000_000_000;

/// Platform ceiling on a wallet's cooling-off period, in seconds.
pub const MAX_COOLING_OFF: u64 = 86_400;

/// Amount, in minor units, above which a spending record is flagged.
pub const LARGE_TRANSACTION: u64 = 5_000_000_000;

/// Minor units credited per external currency unit deposited.
pub const UNITS_PER_EXTERNAL: u64 = 100;

/// Bound on each principal's scam radar log; the oldest entry is evicted
/// first.
pub const RADAR_LOG_BOUND: usize = 100;

} // verus!
