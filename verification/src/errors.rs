//! Error types of the three layers.
//!
//! A `TransportError` is fatal to one exchange and always propagates
//! unchanged; a `ProtocolError` marks a malformed response to a single
//! command; a `DiscoveryError` only skips one port for one detector cycle.

use vstd::prelude::*;

verus! {

/// Failure of the byte transport itself: the exchange did not complete.
#[derive(Clone, Copy, Debug, PartialEq, Eq, Structural)]
pub enum TransportError {
    /// The device path could not be opened.
    OpenFailed,
    /// Writing or flushing the framed command failed.
    WriteFailed,
    /// No terminator arrived within the fixed read timeout.
    ReadTimeout,
    /// The device disappeared mid-exchange.
    Disconnected,
}

/// The transport exchange completed but the response does not fit the
/// command's expected shape.
#[derive(Clone, Copy, Debug, PartialEq, Eq, Structural)]
pub enum ProtocolError {
    /// No well-formed identification response after all retries.
    UnexpectedDeviceInfo,
    /// A status response that does not begin with the status marker.
    InvalidStatusResponse,
    /// A calibration response that does not begin with the calibration
    /// marker.
    InvalidCalibrationResponse,
    /// A reading that does not parse as a decimal number.
    InvalidNumber,
}

/// A port was seen but cannot join the fleet this cycle.
#[derive(Clone, Copy, Debug, PartialEq, Eq, Structural)]
pub enum DiscoveryError {
    /// A matching port carries no USB serial-number string, so it cannot
    /// be tracked uniquely.
    MissingSerialNumber,
    /// Bring-up of the sensor behind the port failed; it is retried on
    /// the next cycle.
    BringUpFailed,
}

} // verus!
