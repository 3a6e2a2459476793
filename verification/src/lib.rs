//! Drains recorded solar telemetry towards a remote monitoring service.
//!
//! The library holds the rules of one synchronisation run: which samples of a
//! tracker are pending, how a batch is written as a request, and in which order
//! fetching, sending and committing follow each other. Every reading and
//! writing of the outside world is left to the caller.

pub mod civil_time;
pub mod drain;
pub mod driver;
pub mod error;
pub mod payload;
pub mod request;
pub mod run;
pub mod solar_data;
pub mod store;
pub mod text;
