//! A tamper-evident, hash-chained event ledger whose writes are gated by an
//! admission kernel that enforces per-route resource envelopes, per-class
//! equity ceilings and monotone safety limits.
//!
//! Fractions (shares, compute occupancy, risk) are fixed-point integers in
//! parts per million: `SHARE_SCALE` stands for `1.0`.

pub mod keyed;
pub mod budget;
pub mod usage;
pub mod admission;
pub mod record;
pub mod ledger;
pub mod writer;
pub mod accounts;
pub mod governance;
pub mod topology;
pub mod scripting;
