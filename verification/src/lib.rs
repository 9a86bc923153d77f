//! Synchronous driver core for the ADXL372 three-axis MEMS accelerometer.
//!
//! The crate is organised around three verified subsystems:
//! a register codec that maps typed field values to raw register bytes and
//! back, a configuration engine that keeps a cached [`config::Config`]
//! consistent with the device registers while issuing minimal bus traffic,
//! and a self-test procedure that samples the Z axis under a bounded time
//! budget and renders a pass/fail verdict.

pub mod config;
pub mod device;
pub mod error;
pub mod fifo;
pub mod interface;
pub mod params;
pub mod registers;
pub mod self_test;

pub use crate::device::Adxl372;
pub use crate::error::Error;
