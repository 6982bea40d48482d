//! The device command protocol.
//!
//! Commands are short ASCII words; responses carry fixed textual markers
//! (`?I,`, `?STATUS,`, `?Cal,`) followed by comma-separated fields, or a
//! bare numeric value for readings. This module verifies the command
//! framing, every response parser, and the identification retry policy.
//!
//! The command layer is transport-agnostic: each command has a request
//! builder that begins an exchange on the connection and yields the frame
//! to write, and a response handler that takes the trimmed response line
//! the transport produced. The unverified adapter performs the write and
//! the byte-wise read between the two calls.

use vstd::prelude::*;
use vstd::slice::slice_subrange;

use crate::bytes::all_ascii;
use crate::bytes::all_digits;
use crate::bytes::ascii_chars;
use crate::bytes::digits_value;
use crate::bytes::find_byte_from;
use crate::bytes::first_index_of;
use crate::bytes::lemma_first_index_of_is;
use crate::bytes::lemma_first_index_of_none;
use crate::bytes::parse_u64_digits;
use crate::bytes::starts_with;
use crate::bytes::starts_with_spec;
use crate::bytes::trim;
use crate::bytes::trim_spec;
use crate::decimal::decimal_of_literal;
use crate::decimal::is_decimal_literal;
use crate::decimal::literal_fits;
use crate::decimal::parse_decimal;
use crate::decimal::Decimal;
use crate::errors::ProtocolError;
use crate::serial_port::SerialPort;
use crate::transport::SerialPortConnection;
use crate::transport::TERMINATOR;

verus! {

/// Identification query, answered with `?I,<type>,<firmware>`.
pub open spec fn identify_command() -> Seq<u8> {
    seq![105u8]
}

/// Take one reading, answered with a bare decimal value.
pub open spec fn read_command() -> Seq<u8> {
    seq![82u8]
}

/// Status query, answered with `?STATUS,<code>`.
pub open spec fn status_command() -> Seq<u8> {
    seq![83u8, 116u8, 97u8, 116u8, 117u8, 115u8]
}

/// Enter low-power mode; the response content is discarded.
pub open spec fn sleep_command() -> Seq<u8> {
    seq![83u8, 108u8, 101u8, 101u8, 112u8]
}

/// Calibration query, answered with `?Cal,<points>`.
pub open spec fn calibration_command() -> Seq<u8> {
    seq![67u8, 97u8, 108u8, 44u8, 63u8]
}

/// Marker opening an identification response: `?I,`.
pub open spec fn info_marker() -> Seq<u8> {
    seq![63u8, 73u8, 44u8]
}

/// Marker opening a status response: `?STATUS,`.
pub open spec fn status_marker() -> Seq<u8> {
    seq![63u8, 83u8, 84u8, 65u8, 84u8, 85u8, 83u8, 44u8]
}

/// Marker opening a calibration response: `?Cal,`.
pub open spec fn cal_marker() -> Seq<u8> {
    seq![63u8, 67u8, 97u8, 108u8, 44u8]
}

fn identify_bytes() -> (v: Vec<u8>)
    ensures
        v@ == identify_command(),
{
    let mut v: Vec<u8> = Vec::new();
    v.push(105u8);
    proof {
        assert(v@ =~= identify_command());
    }
    v
}

fn read_bytes() -> (v: Vec<u8>)
    ensures
        v@ == read_command(),
{
    let mut v: Vec<u8> = Vec::new();
    v.push(82u8);
    proof {
        assert(v@ =~= read_command());
    }
    v
}

fn status_bytes() -> (v: Vec<u8>)
    ensures
        v@ == status_command(),
{
    let mut v: Vec<u8> = Vec::new();
    v.push(83u8);
    v.push(116u8);
    v.push(97u8);
    v.push(116u8);
    v.push(117u8);
    v.push(115u8);
    proof {
        assert(v@ =~= status_command());
    }
    v
}

fn sleep_bytes() -> (v: Vec<u8>)
    ensures
        v@ == sleep_command(),
{
    let mut v: Vec<u8> = Vec::new();
    v.push(83u8);
    v.push(108u8);
    v.push(101u8);
    v.push(101u8);
    v.push(112u8);
    proof {
        assert(v@ =~= sleep_command());
    }
    v
}

fn calibration_bytes() -> (v: Vec<u8>)
    ensures
        v@ == calibration_command(),
{
    let mut v: Vec<u8> = Vec::new();
    v.push(67u8);
    v.push(97u8);
    v.push(108u8);
    v.push(44u8);
    v.push(63u8);
    proof {
        assert(v@ =~= calibration_command());
    }
    v
}

fn info_marker_bytes() -> (v: Vec<u8>)
    ensures
        v@ == info_marker(),
{
    let mut v: Vec<u8> = Vec::new();
    v.push(63u8);
    v.push(73u8);
    v.push(44u8);
    proof {
        assert(v@ =~= info_marker());
    }
    v
}

fn status_marker_bytes() -> (v: Vec<u8>)
    ensures
        v@ == status_marker(),
{
    let mut v: Vec<u8> = Vec::new();
    v.push(63u8);
    v.push(83u8);
    v.push(84u8);
    v.push(65u8);
    v.push(84u8);
    v.push(85u8);
    v.push(83u8);
    v.push(44u8);
    proof {
        assert(v@ =~= status_marker());
    }
    v
}

fn cal_marker_bytes() -> (v: Vec<u8>)
    ensures
        v@ == cal_marker(),
{
    let mut v: Vec<u8> = Vec::new();
    v.push(63u8);
    v.push(67u8);
    v.push(97u8);
    v.push(108u8);
    v.push(44u8);
    proof {
        assert(v@ =~= cal_marker());
    }
    v
}

/// The characters that `String::from_utf8_lossy` decodes from a byte
/// sequence; a pure function of the bytes alone.
pub uninterp spec fn utf8_lossy(bytes: Seq<u8>) -> Seq<char>;

/// Relies on `String::from_utf8_lossy`: the decoding depends on the bytes
/// alone, and plain ASCII bytes decode to the same characters, since
/// UTF-8 extends ASCII and replacement only touches invalid sequences.
#[verifier::external_body]
fn decode_lossy(bytes: &[u8]) -> (r: String)
    ensures
        r@ == utf8_lossy(bytes@),
        all_ascii(bytes@) ==> r@ == ascii_chars(bytes@),
{
    String::from_utf8_lossy(bytes).into_owned()
}

/// Identity of a device: its type string and firmware version.
#[derive(Debug)]
pub struct DeviceInfo {
    /// The device type field, decoded as UTF-8 (lossily).
    pub device_type: String,
    /// The firmware version field, or zero when it is not a decimal.
    pub firmware_version: Decimal,
}

impl Clone for DeviceInfo {
    fn clone(&self) -> (r: Self)
        ensures
            r == *self,
    {
        DeviceInfo {
            device_type: self.device_type.clone(),
            firmware_version: self.firmware_version,
        }
    }
}

/// The restart cause a device reports in its status response.
#[derive(Clone, Copy, Debug, PartialEq, Eq, Structural)]
pub enum StatusCode {
    /// `P`: powered off and restarted.
    PoweredOn,
    /// `S`: software reset.
    SoftwareReset,
    /// `B`: brown-out.
    BrownOut,
    /// `W`: watchdog reset.
    Watchdog,
    /// Any other code character, or none at all.
    Unknown,
}

/// Advisory calibration state of a device.
#[derive(Clone, Copy, Debug, PartialEq, Eq, Structural)]
pub struct CalibrationStatus {
    /// Number of calibration points; 0 when the field does not parse.
    pub calibration_points: u8,
}

/// Does a response line carry a well-formed identification: the `?I,`
/// marker and at least two comma-separated fields after it?
pub open spec fn device_info_matches(s: Seq<u8>) -> bool {
    starts_with_spec(s, info_marker()) && first_index_of(info_fields(s), 44) >= 0
}

/// Everything after the `?I,` marker.
pub open spec fn info_fields(s: Seq<u8>) -> Seq<u8> {
    s.subrange(info_marker().len() as int, s.len() as int)
}

/// The device-type field: up to the first comma after the marker.
pub open spec fn info_type_field(s: Seq<u8>) -> Seq<u8> {
    info_fields(s).subrange(0, first_index_of(info_fields(s), 44))
}

/// The firmware field: between the first comma after the marker and the
/// second one, or the end of the line.
pub open spec fn info_firmware_field(s: Seq<u8>) -> Seq<u8> {
    let rest = info_fields(s);
    let tail = rest.subrange(first_index_of(rest, 44) + 1, rest.len() as int);
    let c2 = first_index_of(tail, 44);
    if c2 == -1 {
        tail
    } else {
        tail.subrange(0, c2)
    }
}

/// The firmware version an identification response reports: its firmware
/// field as a decimal, or zero when that field is not a fitting decimal.
pub open spec fn info_firmware_value(s: Seq<u8>) -> Decimal {
    let f = info_firmware_field(s);
    if is_decimal_literal(f) && literal_fits(f) {
        decimal_of_literal(f)
    } else {
        Decimal::spec_zero()
    }
}

/// What a `DeviceInfo` parsed from response `s` must hold.
pub open spec fn device_info_of(info: DeviceInfo, s: Seq<u8>) -> bool {
    &&& info.device_type@ == utf8_lossy(info_type_field(s))
    &&& (all_ascii(info_type_field(s)) ==> info.device_type@ == ascii_chars(info_type_field(s)))
    &&& info.firmware_version == info_firmware_value(s)
}

/// Parse an identification response line.
pub fn parse_device_info(response: &[u8]) -> (r: Option<DeviceInfo>)
    ensures
        r is Some <==> device_info_matches(response@),
        r matches Some(info) ==> device_info_of(info, response@),
{
    let marker = info_marker_bytes();
    if !starts_with(response, marker.as_slice()) {
        return None;
    }
    let rest = slice_subrange(response, 3, response.len());
    proof {
        assert(rest@ =~= info_fields(response@));
    }
    match find_byte_from(rest, 0, 44) {
        None => {
            proof {
                lemma_first_index_of_none(rest@, 44);
            }
            None
        },
        Some(c) => {
            proof {
                lemma_first_index_of_is(rest@, 44, c as int);
            }
            let type_field = slice_subrange(rest, 0, c);
            let tail = slice_subrange(rest, c + 1, rest.len());
            proof {
                assert(type_field@ =~= info_type_field(response@));
                assert(tail@ =~= info_fields(response@).subrange(
                    first_index_of(info_fields(response@), 44) + 1,
                    info_fields(response@).len() as int,
                ));
            }
            let firmware_field: &[u8] = match find_byte_from(tail, 0, 44) {
                None => {
                    proof {
                        lemma_first_index_of_none(tail@, 44);
                    }
                    tail
                },
                Some(c2) => {
                    proof {
                        lemma_first_index_of_is(tail@, 44, c2 as int);
                    }
                    slice_subrange(tail, 0, c2)
                },
            };
            proof {
                assert(firmware_field@ =~= info_firmware_field(response@));
            }
            let firmware_version = match parse_decimal(firmware_field) {
                Some(d) => d,
                None => Decimal::zero(),
            };
            Some(DeviceInfo { device_type: decode_lossy(type_field), firmware_version })
        },
    }
}

/// The status code a response reports: the single character right after
/// the `?STATUS,` marker, `Unknown` when absent or unrecognized.
pub open spec fn status_code_of(s: Seq<u8>) -> StatusCode {
    if s.len() <= status_marker().len() {
        StatusCode::Unknown
    } else if s[status_marker().len() as int] == 80u8 {
        StatusCode::PoweredOn
    } else if s[status_marker().len() as int] == 83u8 {
        StatusCode::SoftwareReset
    } else if s[status_marker().len() as int] == 66u8 {
        StatusCode::BrownOut
    } else if s[status_marker().len() as int] == 87u8 {
        StatusCode::Watchdog
    } else {
        StatusCode::Unknown
    }
}

/// The calibration-point count a response reports: the trailing integer
/// after the `?Cal,` marker, trimmed; 0 when it is not a plain digit
/// string fitting in a byte.
pub open spec fn cal_points_of(s: Seq<u8>) -> u8 {
    let rest = trim_spec(s.subrange(cal_marker().len() as int, s.len() as int));
    if rest.len() > 0 && all_digits(rest) && digits_value(rest) <= 255 {
        digits_value(rest) as u8
    } else {
        0
    }
}

/// How many identification attempts one `device_info` operation may use.
pub const MAX_RETRIES: u8 = 3;

/// Delay between identification attempts, in milliseconds.
pub const RETRY_DELAY_MS: u64 = 100;

/// What the retry policy asks the caller to do after one attempt.
#[derive(Debug)]
pub enum DeviceInfoStep {
    /// The response was well-formed; identification is complete.
    Done(DeviceInfo),
    /// The response did not match; resend the identification command
    /// after [`RETRY_DELAY_MS`] milliseconds.
    Retry,
    /// The response did not match and the retry budget is exhausted:
    /// identification failed with [`ProtocolError::UnexpectedDeviceInfo`].
    Failed,
}

/// The retry policy as a function of the attempts already used and
/// whether the response matched: accept, retry, or give up.
pub open spec fn retry_accepts(attempts: u8, matched: bool) -> bool {
    matched
}

/// The policy asks for another attempt: the response did not match and
/// the budget is not yet exhausted.
pub open spec fn retry_continues(attempts: u8, matched: bool) -> bool {
    !matched && attempts + 1 < MAX_RETRIES
}

/// The policy gives up: the response did not match on the last attempt.
pub open spec fn retry_gives_up(attempts: u8, matched: bool) -> bool {
    !matched && attempts + 1 >= MAX_RETRIES
}

/// Attempts used after one more response is processed: reset on success
/// or on giving up, advanced on a retry.
pub open spec fn next_attempts(attempts: u8, matched: bool) -> u8 {
    if retry_continues(attempts, matched) {
        (attempts + 1) as u8
    } else {
        0
    }
}

/// The command layer bound to one connection. It owns the per-command
/// framing, parsing and the identification retry state.
#[derive(Debug)]
pub struct UartCommand {
    connection: SerialPortConnection,
    info_attempts: u8,
}

impl UartCommand {
    /// The retry counter never reaches the budget between calls.
    pub closed spec fn wf(&self) -> bool {
        self.info_attempts < MAX_RETRIES
    }

    /// Identification attempts used so far in the current operation.
    pub closed spec fn attempts(&self) -> u8 {
        self.info_attempts
    }

    /// The port this command layer is bound to.
    pub closed spec fn port(&self) -> SerialPort {
        self.connection.port
    }

    /// The response bytes accumulated since the last frame ended.
    pub closed spec fn buffered(&self) -> Seq<u8> {
        self.connection.rx_buffer@
    }

    /// Bind a command layer to a sensor's port over a fresh connection.
    pub fn connect(port: SerialPort) -> (uart: UartCommand)
        ensures
            uart.wf(),
            uart.attempts() == 0,
            uart.port() == port,
    {
        UartCommand { connection: SerialPortConnection::open(port), info_attempts: 0 }
    }

    /// Create a command layer from an already-open connection.
    pub fn connect_with_connection(connection: SerialPortConnection) -> (uart: UartCommand)
        ensures
            uart.wf(),
            uart.attempts() == 0,
            uart.port() == connection.port,
    {
        UartCommand { connection, info_attempts: 0 }
    }

    /// Begin a fresh identification operation: reset the retry budget,
    /// flush stale input, and produce the framed identification command.
    /// A retry resends the same frame without calling this again, so the
    /// budget spans the whole operation.
    pub fn device_info_request(&mut self) -> (frame: Vec<u8>)
        ensures
            frame@ == identify_command().push(TERMINATOR),
            final(self).wf(),
            final(self).attempts() == 0,
            final(self).port() == old(self).port(),
    {
        self.info_attempts = 0;
        let cmd = identify_bytes();
        self.connection.send_command(cmd.as_slice())
    }

    /// Handle one identification response. On a well-formed response the
    /// parsed identity is returned and the retry state resets; otherwise
    /// the policy decides between another attempt and failure.
    pub fn device_info(&mut self, response: &[u8]) -> (step: DeviceInfoStep)
        requires
            old(self).wf(),
        ensures
            final(self).wf(),
            final(self).port() == old(self).port(),
            final(self).attempts() == next_attempts(
                old(self).attempts(),
                device_info_matches(response@),
            ),
            step is Done == retry_accepts(old(self).attempts(), device_info_matches(response@)),
            step is Retry == retry_continues(old(self).attempts(), device_info_matches(response@)),
            step is Failed == retry_gives_up(old(self).attempts(), device_info_matches(response@)),
            step matches DeviceInfoStep::Done(info) ==> device_info_of(info, response@),
    {
        match parse_device_info(response) {
            Some(info) => {
                self.info_attempts = 0;
                DeviceInfoStep::Done(info)
            },
            None => {
                if self.info_attempts + 1 < MAX_RETRIES {
                    self.info_attempts = self.info_attempts + 1;
                    DeviceInfoStep::Retry
                } else {
                    self.info_attempts = 0;
                    DeviceInfoStep::Failed
                }
            },
        }
    }

    /// Begin a reading exchange: the framed read command.
    pub fn read_request(&mut self) -> (frame: Vec<u8>)
        ensures
            frame@ == read_command().push(TERMINATOR),
            final(self).wf() == old(self).wf(),
            final(self).attempts() == old(self).attempts(),
            final(self).port() == old(self).port(),
    {
        let cmd = read_bytes();
        self.connection.send_command(cmd.as_slice())
    }

    /// Parse a reading: the whole trimmed response line as a decimal.
    pub fn read_temperature(&self, response: &[u8]) -> (r: Result<Decimal, ProtocolError>)
        ensures
            r is Ok <==> is_decimal_literal(trim_spec(response@)) && literal_fits(
                trim_spec(response@),
            ),
            r matches Ok(d) ==> d == decimal_of_literal(trim_spec(response@)),
            r matches Err(e) ==> e == ProtocolError::InvalidNumber,
    {
        let t = trim(response);
        match parse_decimal(t.as_slice()) {
            Some(d) => Ok(d),
            None => Err(ProtocolError::InvalidNumber),
        }
    }

    /// Begin a status exchange: the framed status command.
    pub fn status_request(&mut self) -> (frame: Vec<u8>)
        ensures
            frame@ == status_command().push(TERMINATOR),
            final(self).wf() == old(self).wf(),
            final(self).attempts() == old(self).attempts(),
            final(self).port() == old(self).port(),
    {
        let cmd = status_bytes();
        self.connection.send_command(cmd.as_slice())
    }

    /// Map a status response to its code. A missing `?STATUS,` marker is
    /// a protocol error; an unrecognized or absent code character is
    /// `Unknown`.
    pub fn check_status(&self, response: &[u8]) -> (r: Result<StatusCode, ProtocolError>)
        ensures
            starts_with_spec(response@, status_marker()) ==> r == Ok::<StatusCode, ProtocolError>(
                status_code_of(response@),
            ),
            !starts_with_spec(response@, status_marker()) ==> r == Err::<
                StatusCode,
                ProtocolError,
            >(ProtocolError::InvalidStatusResponse),
    {
        let marker = status_marker_bytes();
        if !starts_with(response, marker.as_slice()) {
            return Err(ProtocolError::InvalidStatusResponse);
        }
        if response.len() <= 8 {
            return Ok(StatusCode::Unknown);
        }
        let code = response[8];
        Ok(
            if code == 80u8 {
                StatusCode::PoweredOn
            } else if code == 83u8 {
                StatusCode::SoftwareReset
            } else if code == 66u8 {
                StatusCode::BrownOut
            } else if code == 87u8 {
                StatusCode::Watchdog
            } else {
                StatusCode::Unknown
            },
        )
    }

    /// Begin a sleep exchange: the framed sleep command. The command
    /// succeeds when the transport exchange does; whatever the device
    /// answers is discarded.
    pub fn sleep(&mut self) -> (frame: Vec<u8>)
        ensures
            frame@ == sleep_command().push(TERMINATOR),
            final(self).wf() == old(self).wf(),
            final(self).attempts() == old(self).attempts(),
            final(self).port() == old(self).port(),
    {
        let cmd = sleep_bytes();
        self.connection.send_command(cmd.as_slice())
    }

    /// Begin a calibration-query exchange: the framed calibration command.
    pub fn calibration_request(&mut self) -> (frame: Vec<u8>)
        ensures
            frame@ == calibration_command().push(TERMINATOR),
            final(self).wf() == old(self).wf(),
            final(self).attempts() == old(self).attempts(),
            final(self).port() == old(self).port(),
    {
        let cmd = calibration_bytes();
        self.connection.send_command(cmd.as_slice())
    }

    /// Parse a calibration response. A missing `?Cal,` marker is a
    /// protocol error; an unparsable count is 0 rather than a failure,
    /// since the count is advisory.
    pub fn get_calibration(&self, response: &[u8]) -> (r: Result<
        CalibrationStatus,
        ProtocolError,
    >)
        ensures
            starts_with_spec(response@, cal_marker()) ==> r == Ok::<
                CalibrationStatus,
                ProtocolError,
            >(CalibrationStatus { calibration_points: cal_points_of(response@) }),
            !starts_with_spec(response@, cal_marker()) ==> r == Err::<
                CalibrationStatus,
                ProtocolError,
            >(ProtocolError::InvalidCalibrationResponse),
    {
        let marker = cal_marker_bytes();
        if !starts_with(response, marker.as_slice()) {
            return Err(ProtocolError::InvalidCalibrationResponse);
        }
        let rest = slice_subrange(response, 5, response.len());
        let t = trim(rest);
        proof {
            assert(rest@ =~= response@.subrange(cal_marker().len() as int, response@.len() as int));
        }
        let calibration_points: u8 = match parse_u64_digits(t.as_slice()) {
            Some(v) => if v <= 255 {
                v as u8
            } else {
                0
            },
            None => 0,
        };
        Ok(CalibrationStatus { calibration_points })
    }

    /// Accumulate one byte the adapter read from the device. When the
    /// byte is the terminator, the trimmed response line is complete and
    /// ready for the pending command's response handler.
    pub fn receive_byte(&mut self, byte: u8) -> (line: Option<Vec<u8>>)
        ensures
            final(self).wf() == old(self).wf(),
            final(self).attempts() == old(self).attempts(),
            final(self).port() == old(self).port(),
            byte == TERMINATOR ==> (line matches Some(l) && l@ == trim_spec(old(self).buffered())
                && final(self).buffered() == Seq::<u8>::empty()),
            byte != TERMINATOR ==> line is None && final(self).buffered() == old(
                self,
            ).buffered().push(byte),
    {
        self.connection.receive_byte(byte)
    }

    /// Begin a raw exchange for diagnostics: frame an arbitrary command.
    pub fn send_raw(&mut self, command: &[u8]) -> (frame: Vec<u8>)
        ensures
            frame@ == command@.push(TERMINATOR),
            final(self).wf() == old(self).wf(),
            final(self).attempts() == old(self).attempts(),
            final(self).port() == old(self).port(),
    {
        self.connection.send_command(command)
    }
}

/// Every response of the shape `?I,<type>,<firmware>` identifies: it
/// matches, its device-type field is exactly `<type>` and its firmware
/// field exactly `<firmware>`, provided neither field holds a comma.
pub proof fn lemma_device_info_shape(device_type: Seq<u8>, firmware: Seq<u8>)
    requires
        forall|i: int| 0 <= i < device_type.len() ==> device_type[i] != 44,
        forall|i: int| 0 <= i < firmware.len() ==> firmware[i] != 44,
    ensures
        device_info_matches(info_marker() + device_type + seq![44u8] + firmware),
        info_type_field(info_marker() + device_type + seq![44u8] + firmware) == device_type,
        info_firmware_field(info_marker() + device_type + seq![44u8] + firmware) == firmware,
        info_firmware_value(info_marker() + device_type + seq![44u8] + firmware) == (
        if is_decimal_literal(firmware) && literal_fits(firmware) {
            decimal_of_literal(firmware)
        } else {
            Decimal::spec_zero()
        }),
{
    let resp = info_marker() + device_type + seq![44u8] + firmware;
    assert(resp.subrange(0, 3) =~= info_marker());
    let rest = info_fields(resp);
    assert(rest =~= device_type + seq![44u8] + firmware);
    assert(rest[device_type.len() as int] == 44);
    lemma_first_index_of_is(rest, 44, device_type.len() as int);
    assert(rest.subrange(0, device_type.len() as int) =~= device_type);
    let tail = rest.subrange(
        first_index_of(rest, 44) + 1,
        rest.len() as int,
    );
    assert(tail =~= firmware);
    lemma_first_index_of_none(tail, 44);
}

/// Three non-matching responses in a row exhaust the retry budget: the
/// first two ask for a retry and the third fails, so exactly three
/// attempts are made.
pub proof fn lemma_device_info_retries_then_fails(r1: Seq<u8>, r2: Seq<u8>, r3: Seq<u8>)
    requires
        !device_info_matches(r1),
        !device_info_matches(r2),
        !device_info_matches(r3),
    ensures
        retry_continues(0, device_info_matches(r1)),
        retry_continues(
            next_attempts(0, device_info_matches(r1)),
            device_info_matches(r2),
        ),
        retry_gives_up(
            next_attempts(
                next_attempts(0, device_info_matches(r1)),
                device_info_matches(r2),
            ),
            device_info_matches(r3),
        ),
{
}

/// A response matching on the second attempt completes identification;
/// no third attempt is asked for.
pub proof fn lemma_device_info_succeeds_on_second(r1: Seq<u8>, r2: Seq<u8>)
    requires
        !device_info_matches(r1),
        device_info_matches(r2),
    ensures
        retry_continues(0, device_info_matches(r1)),
        retry_accepts(next_attempts(0, device_info_matches(r1)), device_info_matches(r2)),
        !retry_continues(next_attempts(0, device_info_matches(r1)), device_info_matches(r2)),
        !retry_gives_up(next_attempts(0, device_info_matches(r1)), device_info_matches(r2)),
{
}

} // verus!
