//! Byte-level transport framing.
//!
//! Every exchange on the wire is a line of ASCII bytes closed by a single
//! carriage-return terminator, with no length prefix. This module holds the
//! verified framing half of the transport: building the byte frame for an
//! outgoing command, and accumulating incoming bytes until the terminator
//! closes a response line. The unverified adapter owns the actual device
//! handle; it writes the frames this module produces and feeds every byte
//! it reads back through [`SerialPortConnection::receive_byte`]. At most
//! one exchange is in flight on a connection at a time.

use vstd::prelude::*;

use crate::bytes::trim;
use crate::bytes::trim_spec;
use crate::serial_port::SerialPort;

verus! {

/// The protocol terminator: a single carriage-return byte closes every frame.
pub const TERMINATOR: u8 = 13;

/// Fixed line speed of the supported sensors.
pub const BAUD_RATE: u32 = 9600;

/// Fixed read timeout, the sole safety net against an unresponsive device.
pub const READ_TIMEOUT_MS: u32 = 1000;

/// Frame an outgoing command: the command bytes followed by the terminator.
pub fn frame_command(cmd: &[u8]) -> (frame: Vec<u8>)
    ensures
        frame@ == cmd@.push(TERMINATOR),
{
    let mut frame: Vec<u8> = Vec::new();
    let mut i: usize = 0;
    while i < cmd.len()
        invariant
            i <= cmd@.len(),
            frame@ == cmd@.subrange(0, i as int),
        decreases cmd@.len() - i,
    {
        frame.push(cmd[i]);
        i = i + 1;
    }
    frame.push(TERMINATOR);
    proof {
        assert(cmd@.subrange(0, cmd@.len() as int) =~= cmd@);
        assert(frame@ =~= cmd@.push(TERMINATOR));
    }
    frame
}

/// The verified state of one exclusive, opened binding to a port: its
/// fixed configuration and the bytes received since the last frame ended.
/// The unverified adapter pairs it with the actual device handle.
#[derive(Debug)]
pub struct SerialPortConnection {
    /// The port this connection is bound to.
    pub port: SerialPort,
    /// Line speed the adapter must configure, fixed at 9600.
    pub baud_rate: u32,
    /// Read timeout in milliseconds the adapter must configure, fixed at
    /// 1000.
    pub timeout_ms: u32,
    /// Bytes of the response line being accumulated.
    pub rx_buffer: Vec<u8>,
}

impl SerialPortConnection {
    /// Bind a fresh connection to `port` with the fixed configuration.
    /// Any stale bytes a device may already have emitted are discarded:
    /// the receive buffer starts empty.
    pub fn open(port: SerialPort) -> (c: SerialPortConnection)
        ensures
            c.port == port,
            c.baud_rate == BAUD_RATE,
            c.timeout_ms == READ_TIMEOUT_MS,
            c.rx_buffer@ == Seq::<u8>::empty(),
    {
        SerialPortConnection {
            port,
            baud_rate: BAUD_RATE,
            timeout_ms: READ_TIMEOUT_MS,
            rx_buffer: Vec::new(),
        }
    }

    /// Discard whatever was buffered before a new command is issued; a
    /// device may emit unsolicited data between commands.
    pub fn flush_input(&mut self)
        ensures
            final(self).rx_buffer@ == Seq::<u8>::empty(),
            final(self).port == old(self).port,
            final(self).baud_rate == old(self).baud_rate,
            final(self).timeout_ms == old(self).timeout_ms,
    {
        self.rx_buffer.clear();
    }

    /// The bytes one command puts on the wire: the command followed by
    /// the terminator. The adapter writes them and flushes.
    pub fn write_command(&self, cmd: &[u8]) -> (frame: Vec<u8>)
        ensures
            frame@ == cmd@.push(TERMINATOR),
    {
        frame_command(cmd)
    }

    /// Begin one atomic exchange: discard stale input and produce the
    /// framed command bytes for the adapter to write and flush.
    pub fn send_command(&mut self, cmd: &[u8]) -> (frame: Vec<u8>)
        ensures
            frame@ == cmd@.push(TERMINATOR),
            final(self).rx_buffer@ == Seq::<u8>::empty(),
            final(self).port == old(self).port,
            final(self).baud_rate == old(self).baud_rate,
            final(self).timeout_ms == old(self).timeout_ms,
    {
        self.flush_input();
        self.write_command(cmd)
    }

    /// Accumulate one received byte. When the byte is the terminator, the
    /// response line is complete: it is returned trimmed of ASCII
    /// whitespace and the buffer is reset for the next exchange.
    pub fn receive_byte(&mut self, byte: u8) -> (line: Option<Vec<u8>>)
        ensures
            final(self).port == old(self).port,
            final(self).baud_rate == old(self).baud_rate,
            final(self).timeout_ms == old(self).timeout_ms,
            byte == TERMINATOR ==> (line matches Some(l) && l@ == trim_spec(
                old(self).rx_buffer@,
            ) && final(self).rx_buffer@ == Seq::<u8>::empty()),
            byte != TERMINATOR ==> line is None && final(self).rx_buffer@ == old(
                self,
            ).rx_buffer@.push(byte),
    {
        if byte == TERMINATOR {
            let line = trim(self.rx_buffer.as_slice());
            self.rx_buffer.clear();
            Some(line)
        } else {
            self.rx_buffer.push(byte);
            None
        }
    }
}

} // verus!
