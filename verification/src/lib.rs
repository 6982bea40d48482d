//! Verified core of a UART sensor-fleet manager.
//!
//! The crate models an ASCII, carriage-return-framed request/response
//! protocol spoken by temperature sensors on serial ports, the sensor
//! entities with their liveness state machine, and the single-writer
//! fleet supervisor that tracks them. All byte-level framing, response
//! parsing, retry policy and registry logic is verified; the actual
//! serial I/O and task scheduling live in an unverified adapter that
//! drives this crate.

pub mod bytes;
pub mod commands;
pub mod decimal;
pub mod errors;
pub mod fleet;
pub mod sensor;
pub mod seqs;
pub mod serial_port;
pub mod service;
pub mod transport;
