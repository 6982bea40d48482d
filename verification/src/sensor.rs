//! The sensor entity: identity, kind, and the liveness state machine.
//!
//! A sensor is created when discovery completes bring-up of a port:
//! opening a transport and identifying the device. The returned device
//! type maps to a closed set of supported kinds, and an unrecognized type
//! falls back to the default kind rather than aborting bring-up, so the
//! fleet is never blocked by an unrecognized-but-alive device.

use vstd::prelude::*;

use crate::commands::DeviceInfo;
use crate::decimal::Decimal;
use crate::serial_port::SerialPort;

verus! {

/// The closed enumeration of supported sensor kinds.
#[derive(Clone, Copy, Debug, PartialEq, Eq, Structural)]
pub enum SensorKind {
    /// A resistance temperature detector.
    Rtd,
}

/// A sensor's optional display name.
#[derive(Debug)]
pub enum SensorName {
    /// No display name was assigned.
    Unnamed,
    /// An operator-assigned display name.
    Named(String),
}

impl Clone for SensorName {
    fn clone(&self) -> (r: Self)
        ensures
            r == *self,
    {
        match self {
            SensorName::Unnamed => SensorName::Unnamed,
            SensorName::Named(n) => SensorName::Named(n.clone()),
        }
    }
}

/// Liveness state of a sensor.
#[derive(Clone, Copy, Debug, PartialEq, Eq, Structural)]
pub enum SensorState {
    /// Brought up, no confirmed exchange yet.
    Initializing,
    /// A successful exchange was confirmed.
    Active,
    /// A health cycle found no confirmed activity; removed once the
    /// grace window elapses without renewed activity.
    Unreachable,
    /// Declared but reserved: no transition into or out of it is defined.
    Degraded,
}

/// How a sensor is attached.
#[derive(Debug)]
pub enum SensorType {
    /// A serial connection to a port.
    Uart {
        /// The port the sensor answers on.
        port: SerialPort,
    },
    /// A bus-addressed attachment; unused by this core.
    I2c {
        /// The bus address.
        addr: u8,
    },
}

impl Clone for SensorType {
    fn clone(&self) -> (r: Self)
        ensures
            r == *self,
    {
        match self {
            SensorType::Uart { port } => SensorType::Uart { port: port.clone() },
            SensorType::I2c { addr } => SensorType::I2c { addr: *addr },
        }
    }
}

/// An observation the liveness state machine reacts to.
#[derive(Clone, Copy, Debug, PartialEq, Eq, Structural)]
pub enum LivenessEvent {
    /// A successful exchange with the device was confirmed.
    ActivityConfirmed,
    /// A health cycle passed without any confirmed activity.
    HealthCycleSilent,
}

/// The liveness state machine: `Initializing` and `Unreachable` become
/// `Active` on confirmed activity, `Active` becomes `Unreachable` on a
/// silent health cycle, and everything else stays put. Leaving
/// `Unreachable` past the grace window is the supervisor's removal rule,
/// not a transition of the sensor itself.
pub open spec fn next_state(state: SensorState, event: LivenessEvent) -> SensorState {
    match (state, event) {
        (SensorState::Initializing, LivenessEvent::ActivityConfirmed) => SensorState::Active,
        (SensorState::Active, LivenessEvent::HealthCycleSilent) => SensorState::Unreachable,
        (SensorState::Unreachable, LivenessEvent::ActivityConfirmed) => SensorState::Active,
        _ => state,
    }
}

impl SensorKind {
    /// The default kind an unrecognized device type falls back to.
    pub fn default_kind() -> (r: SensorKind)
        ensures
            r == SensorKind::Rtd,
    {
        SensorKind::Rtd
    }

    /// Map a reported device type to a kind. Every device of the
    /// supported hardware family reports the RTD type, and anything
    /// unrecognized falls back to the default kind, which is the same;
    /// so the mapping is total and never blocks bring-up.
    pub fn from_device_type(device_type: &str) -> (r: SensorKind)
        ensures
            r == SensorKind::Rtd,
    {
        SensorKind::default_kind()
    }
}

/// One tracked sensor.
#[derive(Debug)]
pub struct Sensor {
    /// The hardware serial number; the fleet key.
    pub serial: String,
    /// Which kind of sensor this is.
    pub kind: SensorKind,
    /// Firmware version the device reported at bring-up.
    pub firmware: Decimal,
    /// Optional display name.
    pub name: Option<String>,
    /// Liveness state.
    pub state: SensorState,
    /// How the sensor is attached.
    pub sensor_type: SensorType,
    /// When the supervisor last asserted liveness, in milliseconds.
    pub last_activity: u64,
}

impl Clone for Sensor {
    fn clone(&self) -> (r: Self)
        ensures
            r == *self,
    {
        Sensor {
            serial: self.serial.clone(),
            kind: self.kind,
            firmware: self.firmware,
            name: match &self.name {
                Some(n) => Some(n.clone()),
                None => None,
            },
            state: self.state,
            sensor_type: self.sensor_type.clone(),
            last_activity: self.last_activity,
        }
    }
}

impl Sensor {
    /// Finish bring-up of a discovered port: record the identity the
    /// device reported, start `Initializing`, and stamp the current time.
    /// The identification exchange itself runs on the command layer; this
    /// takes its result.
    pub fn from_device(port: SerialPort, info: &DeviceInfo, now: u64) -> (s: Sensor)
        ensures
            s.serial == port.serial_number,
            s.kind == SensorKind::Rtd,
            s.firmware == info.firmware_version,
            s.name is None,
            s.state == SensorState::Initializing,
            (s.sensor_type matches SensorType::Uart { port: p } && p.port_name == port.port_name
                && p.serial_number == port.serial_number),
            s.last_activity == now,
    {
        let serial = port.serial_number.clone();
        let kind = SensorKind::from_device_type(info.device_type.as_str());
        Sensor {
            serial,
            kind,
            firmware: info.firmware_version,
            name: None,
            state: SensorState::Initializing,
            sensor_type: SensorType::Uart { port },
            last_activity: now,
        }
    }

    /// Apply one liveness observation to the state machine. Only the
    /// state changes; `last_activity` is advanced only by the supervisor
    /// processing an upsert.
    pub fn apply_liveness(&mut self, event: LivenessEvent)
        ensures
            final(self).state == next_state(old(self).state, event),
            final(self).serial == old(self).serial,
            final(self).kind == old(self).kind,
            final(self).firmware == old(self).firmware,
            final(self).name == old(self).name,
            final(self).sensor_type == old(self).sensor_type,
            final(self).last_activity == old(self).last_activity,
    {
        self.state = match (self.state, event) {
            (SensorState::Initializing, LivenessEvent::ActivityConfirmed) => SensorState::Active,
            (SensorState::Active, LivenessEvent::HealthCycleSilent) => SensorState::Unreachable,
            (SensorState::Unreachable, LivenessEvent::ActivityConfirmed) => SensorState::Active,
            (s, _) => s,
        };
    }
}

} // verus!
