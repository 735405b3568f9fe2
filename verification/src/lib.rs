//! Screen-capture acquisition core for a Wayland compositor.
//!
//! The crate models a per-output screencopy pipeline: a protocol client that
//! tracks capturable outputs and in-flight capture sessions, an adaptive
//! selector that picks between a GPU-buffer path and a shared-memory path
//! from rolling per-output statistics, and a buffer normalization stage that
//! turns raw captured pixels into a canonical tightly packed RGBA image.
//!
//! All rolling statistics are kept in fixed-point integers: ratios (success
//! rates, memory pressure, strategy ratios) are in thousandths of one, and
//! latencies and times are in microseconds.  The embedding application owns
//! the compositor socket; it feeds protocol events into the verified state
//! machine here and performs the actual reads and writes.

pub mod adaptive;
pub mod client;
pub mod config;
pub mod convert;
pub mod error;
pub mod numfmt;
pub mod pipeline;
pub mod utils;
