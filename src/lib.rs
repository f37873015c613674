//! Incremental loading of per-unit source-analysis records.
//!
//! `model` holds the shapes of a decoded analysis record; `freshness` holds
//! the tri-state snapshot of what a caller already knows about each artifact;
//! `loader` decides which artifacts to (re)load and assembles the loaded
//! units; `laws` states and proves what holds of every load.
pub mod freshness;
pub mod laws;
pub mod loader;
pub mod model;
