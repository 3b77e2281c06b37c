//! Acquisition and dispatch engine for a line-oriented serial instrument.
//!
//! The crate frames a serial byte stream into display lines and datasets,
//! parses completed datasets into sample rows, and decides how a dataset is
//! delivered to the detection service: when to retry, how long to wait and
//! which events to publish. Every function is verified against the contract
//! it carries; the callers perform the port, network and clock operations and
//! hand their results in as plain values.
//!
//! - [`framer`]: display lines and dataset boundaries.
//! - [`csv`] and [`numeric`]: the dataset format; [`csv_round_trip`]: written
//!   samples read back the same.
//! - [`detection_client`]: requests, replies and the retry policy.
//! - [`serial_handler`]: the port monitor; [`monitor_laws`]: what holds of
//!   it over any run of events.
//! - [`dispatch`]: what is published and recorded while a dataset is delivered.
//! - [`config`]: settings and the environment file.
//! - [`shared_types`]: names of test kinds, states and results.
//! - [`text`]: the text operations that the others share.

pub mod config;
pub mod csv;
pub mod csv_round_trip;
pub mod detection_client;
pub mod dispatch;
pub mod framer;
pub mod monitor_laws;
pub mod numeric;
pub mod serial_handler;
pub mod shared_types;
pub mod text;
