//! Sizing of source-routed payment onions: how many per-hop records fit in
//! the fixed payload budget, and how many filler bytes remain.

pub mod error;
pub mod planner;
pub mod record;
pub mod varint;
