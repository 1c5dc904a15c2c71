//! A metrics-aggregation engine: a registry of counter, gauge and histogram
//! families keyed by label-value tuples, rendered into the textual exposition
//! format that a scraping consumer parses.

pub mod model;
pub mod laws;
pub mod registry;
pub mod text;
pub mod encode;
pub mod simulator;
pub mod tracker;
