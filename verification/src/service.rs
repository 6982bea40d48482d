//! The fleet supervisor and its background-task logic.
//!
//! The supervisor is the single writer of the fleet: every other task
//! observes or mutates the registry only through a [`ServiceCommand`] and
//! its [`ServiceReply`]. This module verifies the command semantics and
//! the decision cores of the two periodic tasks: which discovered ports
//! the detector proposes, and which sensors a health cycle expires. The
//! unverified adapter owns the queues, timers and task scheduling.

use vstd::prelude::*;

use crate::fleet::serials_keys;
use crate::fleet::unique_serials;
use crate::fleet::upserted;
use crate::fleet::Fleet;
use crate::sensor::Sensor;
use crate::sensor::SensorState;
use crate::seqs::lemma_filter_origin;
use crate::seqs::lemma_filter_push;
use crate::serial_port::SerialPort;

verus! {

/// Period of the detector task, in milliseconds.
pub const DETECTOR_PERIOD_MS: u64 = 5000;

/// Period of the healthcheck task, in milliseconds.
pub const HEALTHCHECK_PERIOD_MS: u64 = 20000;

/// How long an `Unreachable` sensor is retained before removal.
pub const GRACE_WINDOW_MS: u64 = 120000;

/// Depth of the bounded command queue the adapter creates.
pub const COMMAND_QUEUE_DEPTH: usize = 100;

/// The only way any task may observe or mutate the fleet.
#[derive(Debug)]
pub enum ServiceCommand {
    /// Insert or replace entries; each is activated with a fresh
    /// `last_activity`.
    UpsertSensors(Vec<Sensor>),
    /// Delete the listed serial numbers; absent keys are no-ops.
    RemoveSensors(Vec<String>),
    /// Point lookup by serial number.
    FindSensor(String),
    /// A read-only snapshot of the whole fleet, taken at call time.
    AllSensors,
}

/// What the supervisor sends back on the command's reply channel.
#[derive(Debug)]
pub enum ServiceReply {
    /// The mutation was applied; nothing to report.
    Done,
    /// Result of a point lookup.
    FoundSensor(Option<Sensor>),
    /// The snapshot taken when the command was processed.
    Sensors(Vec<Sensor>),
}

/// The supervisor: sole owner and sole mutator of the fleet.
#[derive(Debug)]
pub struct UartService {
    /// The canonical registry.
    pub fleet: Fleet,
}

impl UartService {
    /// A supervisor over an empty fleet.
    pub fn new() -> (s: UartService)
        ensures
            s.fleet.wf(),
            s.fleet@ == Map::<Seq<char>, Sensor>::empty(),
            s.fleet.sensors() == Seq::<Sensor>::empty(),
    {
        UartService { fleet: Fleet::new() }
    }

    /// Process one command, in arrival order. `now` is the time the
    /// command is processed; it stamps every upserted entry.
    pub fn handle_cmd(&mut self, cmd: ServiceCommand, now: u64) -> (reply: ServiceReply)
        requires
            old(self).fleet.wf(),
        ensures
            final(self).fleet.wf(),
            (cmd matches ServiceCommand::UpsertSensors(list) ==> final(self).fleet@ == upserted(
                old(self).fleet@,
                list@,
                now,
            ) && reply is Done),
            (cmd matches ServiceCommand::RemoveSensors(serials) ==> final(self).fleet@ == old(
                self,
            ).fleet@.remove_keys(serials_keys(serials@)) && reply is Done),
            (cmd matches ServiceCommand::FindSensor(serial) ==> final(self).fleet@ == old(
                self,
            ).fleet@ && (reply matches ServiceReply::FoundSensor(found) && (match found {
                Some(s) => old(self).fleet@.contains_key(serial@) && s == old(
                    self,
                ).fleet@[serial@],
                None => !old(self).fleet@.contains_key(serial@),
            }))),
            (cmd matches ServiceCommand::AllSensors ==> final(self).fleet@ == old(self).fleet@ && (
            reply matches ServiceReply::Sensors(snapshot) && snapshot@ == old(
                self,
            ).fleet.sensors())),
    {
        match cmd {
            ServiceCommand::UpsertSensors(list) => {
                self.fleet.upsert_sensors(list, now);
                ServiceReply::Done
            },
            ServiceCommand::RemoveSensors(serials) => {
                self.fleet.remove_sensors(&serials);
                ServiceReply::Done
            },
            ServiceCommand::FindSensor(serial) => ServiceReply::FoundSensor(
                self.fleet.find_sensor(&serial),
            ),
            ServiceCommand::AllSensors => ServiceReply::Sensors(self.fleet.all_sensors()),
        }
    }
}

/// Is this entry past expiry: `Unreachable`, and silent for longer than
/// the grace window?
pub open spec fn is_expired(s: Sensor, now: u64, grace_ms: u64) -> bool {
    s.state is Unreachable && now - s.last_activity > grace_ms
}

/// The expiry test as a predicate value, shared by contracts and proofs.
pub open spec fn expired_pred(now: u64, grace_ms: u64) -> spec_fn(Sensor) -> bool {
    |s: Sensor| is_expired(s, now, grace_ms)
}

/// Complement of the expiry test.
pub open spec fn retained_pred(now: u64, grace_ms: u64) -> spec_fn(Sensor) -> bool {
    |s: Sensor| !is_expired(s, now, grace_ms)
}

/// The snapshot entries a health cycle expires, in snapshot order.
pub open spec fn expired_entries(snapshot: Seq<Sensor>, now: u64, grace_ms: u64) -> Seq<Sensor> {
    snapshot.filter(expired_pred(now, grace_ms))
}

/// The serial numbers a health cycle removes.
pub open spec fn expired_serials(snapshot: Seq<Sensor>, now: u64, grace_ms: u64) -> Seq<String> {
    expired_entries(snapshot, now, grace_ms).map_values(|s: Sensor| s.serial)
}

/// The snapshot entries a health cycle retains, in snapshot order.
pub open spec fn retained_sensors(snapshot: Seq<Sensor>, now: u64, grace_ms: u64) -> Seq<Sensor> {
    snapshot.filter(retained_pred(now, grace_ms))
}

proof fn lemma_partition_push(snapshot: Seq<Sensor>, now: u64, grace_ms: u64, e: Sensor)
    ensures
        expired_serials(snapshot.push(e), now, grace_ms) == if is_expired(e, now, grace_ms) {
            expired_serials(snapshot, now, grace_ms).push(e.serial)
        } else {
            expired_serials(snapshot, now, grace_ms)
        },
        retained_sensors(snapshot.push(e), now, grace_ms) == if is_expired(e, now, grace_ms) {
            retained_sensors(snapshot, now, grace_ms)
        } else {
            retained_sensors(snapshot, now, grace_ms).push(e)
        },
{
    lemma_filter_push(snapshot, expired_pred(now, grace_ms), e);
    lemma_filter_push(snapshot, retained_pred(now, grace_ms), e);
    if is_expired(e, now, grace_ms) {
        assert(expired_entries(snapshot, now, grace_ms).push(e).map_values(|s: Sensor| s.serial)
            =~= expired_serials(snapshot, now, grace_ms).push(e.serial));
    }
}

/// Partition a fleet snapshot into the serial numbers to remove and the
/// entries to retain. An entry is removed exactly when its state is
/// `Unreachable` and more than the grace window has passed since its
/// last activity.
pub fn healthcheck_partition(snapshot: &Vec<Sensor>, now: u64, grace_ms: u64) -> (r: (
    Vec<String>,
    Vec<Sensor>,
))
    ensures
        r.0@ == expired_serials(snapshot@, now, grace_ms),
        r.1@ == retained_sensors(snapshot@, now, grace_ms),
{
    let mut expired: Vec<String> = Vec::new();
    let mut retained: Vec<Sensor> = Vec::new();
    proof {
        reveal(Seq::filter);
        assert(expired@ =~= expired_serials(snapshot@.subrange(0, 0), now, grace_ms));
        assert(retained@ =~= retained_sensors(snapshot@.subrange(0, 0), now, grace_ms));
    }
    let mut i: usize = 0;
    while i < snapshot.len()
        invariant
            i <= snapshot@.len(),
            expired@ == expired_serials(snapshot@.subrange(0, i as int), now, grace_ms),
            retained@ == retained_sensors(snapshot@.subrange(0, i as int), now, grace_ms),
        decreases snapshot@.len() - i,
    {
        proof {
            assert(snapshot@.subrange(0, i as int + 1) =~= snapshot@.subrange(0, i as int).push(
                snapshot@[i as int],
            ));
            lemma_partition_push(snapshot@.subrange(0, i as int), now, grace_ms, snapshot@[i as int]);
        }
        let e = &snapshot[i];
        let silent_past_grace = match e.state {
            SensorState::Unreachable => now > e.last_activity && now - e.last_activity > grace_ms,
            _ => false,
        };
        if silent_past_grace {
            expired.push(e.serial.clone());
        } else {
            retained.push(e.clone());
        }
        i = i + 1;
    }
    proof {
        assert(snapshot@.subrange(0, snapshot@.len() as int) =~= snapshot@);
    }
    (expired, retained)
}

/// A health cycle removes an entry of the snapshot exactly when it is
/// expired, and never removes an `Active` entry, regardless of its age.
pub proof fn lemma_healthcheck_removes_iff(
    snapshot: Seq<Sensor>,
    now: u64,
    grace_ms: u64,
    i: int,
)
    requires
        unique_serials(snapshot),
        0 <= i < snapshot.len(),
    ensures
        expired_serials(snapshot, now, grace_ms).contains(snapshot[i].serial) <==> is_expired(
            snapshot[i],
            now,
            grace_ms,
        ),
        snapshot[i].state is Active ==> !expired_serials(snapshot, now, grace_ms).contains(
            snapshot[i].serial,
        ),
{
    let pred = expired_pred(now, grace_ms);
    let entries = expired_entries(snapshot, now, grace_ms);
    let serials = expired_serials(snapshot, now, grace_ms);
    if is_expired(snapshot[i], now, grace_ms) {
        Seq::lemma_filter_contains(snapshot, pred, i);
        let j = choose|j: int| 0 <= j < entries.len() && entries[j] == snapshot[i];
        assert(serials[j] == snapshot[i].serial);
    }
    if serials.contains(snapshot[i].serial) {
        let j = choose|j: int| 0 <= j < serials.len() && serials[j] == snapshot[i].serial;
        assert(entries[j].serial == snapshot[i].serial);
        Seq::lemma_filter_pred(snapshot, pred, j);
        lemma_filter_origin(snapshot, pred, j);
        let k = choose|k: int| 0 <= k < snapshot.len() && snapshot[k] == entries[j];
        assert(snapshot[k].serial@ == snapshot[i].serial@);
        if k != i {
            assert(snapshot[k].serial@ != snapshot[i].serial@);
        }
        assert(is_expired(snapshot[i], now, grace_ms));
    }
}

/// Is a serial number already present in a snapshot?
pub open spec fn known_serial(snapshot: Seq<Sensor>, serial: Seq<char>) -> bool {
    exists|i: int| 0 <= i < snapshot.len() && (#[trigger] snapshot[i]).serial@ == serial
}

/// The novelty test of the detector as a predicate value.
pub open spec fn fresh_pred(snapshot: Seq<Sensor>) -> spec_fn(SerialPort) -> bool {
    |p: SerialPort| !known_serial(snapshot, p.serial_number@)
}

/// The discovered ports whose serial numbers are absent from the
/// snapshot taken at the start of the detector cycle.
pub open spec fn fresh_ports(discovered: Seq<SerialPort>, snapshot: Seq<Sensor>) -> Seq<
    SerialPort,
> {
    discovered.filter(fresh_pred(snapshot))
}

fn snapshot_has_serial(snapshot: &Vec<Sensor>, serial: &String) -> (r: bool)
    ensures
        r == known_serial(snapshot@, serial@),
{
    let mut i: usize = 0;
    while i < snapshot.len()
        invariant
            i <= snapshot@.len(),
            forall|j: int| 0 <= j < i ==> (#[trigger] snapshot@[j]).serial@ != serial@,
        decreases snapshot@.len() - i,
    {
        if snapshot[i].serial == *serial {
            return true;
        }
        i = i + 1;
    }
    false
}

/// One detector decision: of the discovered supported ports, keep those
/// whose serial numbers the snapshot does not already track. Bring-up is
/// attempted only for these; the rest are left untouched.
pub fn detect_new_ports(discovered: &Vec<SerialPort>, snapshot: &Vec<Sensor>) -> (r: Vec<
    SerialPort,
>)
    ensures
        r@ == fresh_ports(discovered@, snapshot@),
        forall|k: int|
            0 <= k < r@.len() ==> !known_serial(snapshot@, (#[trigger] r@[k]).serial_number@),
{
    let mut out: Vec<SerialPort> = Vec::new();
    proof {
        reveal(Seq::filter);
        assert(out@ =~= fresh_ports(discovered@.subrange(0, 0), snapshot@));
    }
    let mut i: usize = 0;
    while i < discovered.len()
        invariant
            i <= discovered@.len(),
            out@ == fresh_ports(discovered@.subrange(0, i as int), snapshot@),
        decreases discovered@.len() - i,
    {
        proof {
            assert(discovered@.subrange(0, i as int + 1) =~= discovered@.subrange(0, i as int).push(
                discovered@[i as int],
            ));
            lemma_filter_push(
                discovered@.subrange(0, i as int),
                fresh_pred(snapshot@),
                discovered@[i as int],
            );
        }
        let p = &discovered[i];
        if !snapshot_has_serial(snapshot, &p.serial_number) {
            out.push(p.clone());
        }
        i = i + 1;
    }
    proof {
        assert(discovered@.subrange(0, discovered@.len() as int) =~= discovered@);
        assert forall|k: int|
            0 <= k < out@.len() implies !known_serial(
            snapshot@,
            (#[trigger] out@[k]).serial_number@,
        ) by {
            Seq::lemma_filter_pred(discovered@, fresh_pred(snapshot@), k);
        }
    }
    out
}

/// The detector never proposes a serial number already present in the
/// snapshot taken at the start of its cycle.
pub proof fn lemma_detector_no_reproposal(
    discovered: Seq<SerialPort>,
    snapshot: Seq<Sensor>,
    k: int,
)
    requires
        0 <= k < fresh_ports(discovered, snapshot).len(),
    ensures
        !known_serial(snapshot, fresh_ports(discovered, snapshot)[k].serial_number@),
{
    Seq::lemma_filter_pred(discovered, fresh_pred(snapshot), k);
}

} // verus!
