//! The core of a terminal system monitor: the sampling engine that turns raw
//! operating-system counters into rate-based time series, and the layout and
//! scroll rules that fit those series into a bounded viewport.
//!
//! Everything here works on plain values. Reading the operating system and
//! drawing to the terminal are left to the caller.

pub mod canvas;
pub mod data_collection;
pub mod data_conversion;
