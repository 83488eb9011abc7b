//! Verified core of a desktop-store download engine.
//!
//! The crate holds the logic of the engine: the task registry and its state
//! machine, the single-stream download worker model with its retry and
//! back-off policy, the range-parallel chunk planner and scheduler, the
//! configuration file format, and the formatting helpers the UI sees.
//! Network and file I/O live outside, in thin drivers that feed plain values
//! into these functions and carry their decisions out.

pub mod strutil;
pub mod chunks;
pub mod config;
pub mod env;
pub mod fileinfo;
pub mod multi;
pub mod registry;
pub mod speed;
pub mod task;
pub mod worker;
