//! Port metadata and discovery filtering.
//!
//! Discovery enumerates the host's serial devices (done by the unverified
//! adapter), then filters them to the supported hardware family and
//! extracts each port's unique identity. The filter and the identity
//! extraction are verified here over a plain model of the enumeration
//! data: vendor id, product id and the optional USB serial-number string.

use vstd::prelude::*;

use crate::errors::DiscoveryError;
use crate::seqs::lemma_filter_push;

verus! {

/// Passive metadata identifying one physical connection point.
#[derive(Debug)]
pub struct SerialPort {
    /// Host device path, e.g. a tty device node.
    pub port_name: String,
    /// The USB serial-number string; the fleet key.
    pub serial_number: String,
}

impl Clone for SerialPort {
    fn clone(&self) -> (r: Self)
        ensures
            r == *self,
    {
        SerialPort { port_name: self.port_name.clone(), serial_number: self.serial_number.clone() }
    }
}

/// What the host reports about one enumerated serial device.
#[derive(Debug)]
pub enum SerialPortType {
    /// A USB-attached serial bridge.
    UsbPort {
        /// USB vendor id.
        vid: u16,
        /// USB product id.
        pid: u16,
        /// The device's USB serial-number string, when it has one.
        serial_number: Option<String>,
    },
    /// Anything else: PCI, Bluetooth, or unknown.
    Other,
}

/// One entry of the host's serial-device enumeration.
#[derive(Debug)]
pub struct SerialPortInfo {
    /// Host device path.
    pub port_name: String,
    /// Transport-specific metadata.
    pub port_type: SerialPortType,
}

fn clone_opt_string(o: &Option<String>) -> (r: Option<String>)
    ensures
        r == *o,
{
    match o {
        Some(s) => Some(s.clone()),
        None => None,
    }
}

impl Clone for SerialPortType {
    fn clone(&self) -> (r: Self)
        ensures
            r == *self,
    {
        match self {
            SerialPortType::UsbPort { vid, pid, serial_number } => SerialPortType::UsbPort {
                vid: *vid,
                pid: *pid,
                serial_number: clone_opt_string(serial_number),
            },
            SerialPortType::Other => SerialPortType::Other,
        }
    }
}

impl Clone for SerialPortInfo {
    fn clone(&self) -> (r: Self)
        ensures
            r == *self,
    {
        SerialPortInfo { port_name: self.port_name.clone(), port_type: self.port_type.clone() }
    }
}

/// Vendor id of the FTDI bridges the supported sensors use.
pub const ATLAS_SC_VID: u16 = 0x0403;

/// Product id of the FT232 bridge.
pub const ATLAS_SC_PID_FT232: u16 = 0x6001;

/// Product id of the FT231X bridge.
pub const ATLAS_SC_PID_FT231X: u16 = 0x6015;

/// The supported hardware family: a USB port with the FTDI vendor id and
/// one of the two known bridge product ids.
pub open spec fn is_atlas_sc_spec(port: SerialPortInfo) -> bool {
    port.port_type matches SerialPortType::UsbPort { vid, pid, .. } && vid == ATLAS_SC_VID && (pid
        == ATLAS_SC_PID_FT232 || pid == ATLAS_SC_PID_FT231X)
}

/// Checks if a port belongs to the supported sensor hardware family.
pub fn is_atlas_sc_device(port: &SerialPortInfo) -> (r: bool)
    ensures
        r == is_atlas_sc_spec(*port),
{
    match &port.port_type {
        SerialPortType::UsbPort { vid, pid, .. } => *vid == ATLAS_SC_VID && (*pid
            == ATLAS_SC_PID_FT232 || *pid == ATLAS_SC_PID_FT231X),
        SerialPortType::Other => false,
    }
}

/// The discovery filter as a predicate value, shared by the contracts and
/// the proofs below.
pub open spec fn atlas_pred() -> spec_fn(SerialPortInfo) -> bool {
    |p: SerialPortInfo| is_atlas_sc_spec(p)
}

/// The supported-family subsequence of an enumeration.
pub open spec fn atlas_ports(ports: Seq<SerialPortInfo>) -> Seq<SerialPortInfo> {
    ports.filter(atlas_pred())
}

proof fn lemma_atlas_ports_push(s: Seq<SerialPortInfo>, e: SerialPortInfo)
    ensures
        atlas_ports(s.push(e)) == if is_atlas_sc_spec(e) {
            atlas_ports(s).push(e)
        } else {
            atlas_ports(s)
        },
{
    lemma_filter_push(s, atlas_pred(), e);
}

/// Keep, in order, the enumerated ports of the supported hardware family.
pub fn find_atlas_sc_port(ports: Vec<SerialPortInfo>) -> (r: Vec<SerialPortInfo>)
    ensures
        r@ == atlas_ports(ports@),
        forall|k: int| 0 <= k < r@.len() ==> is_atlas_sc_spec(#[trigger] r@[k]),
{
    let mut out: Vec<SerialPortInfo> = Vec::new();
    proof {
        reveal(Seq::filter);
        assert(out@ =~= ports@.subrange(0, 0).filter(atlas_pred()));
    }
    let mut i: usize = 0;
    while i < ports.len()
        invariant
            i <= ports@.len(),
            out@ == atlas_ports(ports@.subrange(0, i as int)),
        decreases ports@.len() - i,
    {
        proof {
            assert(ports@.subrange(0, i as int + 1) =~= ports@.subrange(0, i as int).push(
                ports@[i as int],
            ));
            lemma_atlas_ports_push(ports@.subrange(0, i as int), ports@[i as int]);
        }
        if is_atlas_sc_device(&ports[i]) {
            out.push(ports[i].clone());
        }
        i = i + 1;
    }
    proof {
        assert(ports@.subrange(0, ports@.len() as int) =~= ports@);
        assert forall|k: int| 0 <= k < out@.len() implies is_atlas_sc_spec(#[trigger] out@[k]) by {
            Seq::lemma_filter_pred(ports@, atlas_pred(), k);
        }
    }
    out
}

/// Extract the unique identity of a supported port: its device path and
/// USB serial number. A matching port without a serial-number string is
/// excluded, since it cannot be tracked uniquely.
pub fn port_identity(port: &SerialPortInfo) -> (r: Result<SerialPort, DiscoveryError>)
    requires
        is_atlas_sc_spec(*port),
    ensures
        match r {
            Ok(sp) => port.port_type->serial_number matches Some(sn) && sp.serial_number == sn
                && sp.port_name == port.port_name,
            Err(e) => e == DiscoveryError::MissingSerialNumber
                && port.port_type->serial_number is None,
        },
{
    match &port.port_type {
        SerialPortType::UsbPort { serial_number: Some(sn), .. } => Ok(
            SerialPort { port_name: port.port_name.clone(), serial_number: sn.clone() },
        ),
        _ => Err(DiscoveryError::MissingSerialNumber),
    }
}

} // verus!
