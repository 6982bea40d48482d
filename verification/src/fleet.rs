//! The fleet registry: the canonical mapping from hardware serial number
//! to sensor.
//!
//! The registry's mathematical model is a map from serial-number
//! characters to the sensor entry; uniqueness of the key is an invariant
//! every operation preserves. Upserting asserts liveness: each written
//! entry gets `state = Active` and a fresh `last_activity`, the sole
//! mechanism by which liveness enters the fleet. Removing absent keys and
//! looking up absent keys are defined no-ops, not errors.

use vstd::prelude::*;
use vstd::pervasive::VecAdditionalExecFns;

use crate::sensor::Sensor;
use crate::sensor::SensorState;

verus! {

/// No two entries share a serial number.
pub open spec fn unique_serials(s: Seq<Sensor>) -> bool {
    forall|i: int, j: int|
        0 <= i < j < s.len() ==> (#[trigger] s[i]).serial@ != (#[trigger] s[j]).serial@
}

/// The mapping a sequence of entries denotes; later entries win.
pub open spec fn fleet_map(s: Seq<Sensor>) -> Map<Seq<char>, Sensor>
    decreases s.len(),
{
    if s.len() == 0 {
        Map::empty()
    } else {
        fleet_map(s.drop_last()).insert(s.last().serial@, s.last())
    }
}

/// A sensor as an upsert writes it: liveness asserted now.
pub open spec fn activated(s: Sensor, now: u64) -> Sensor {
    Sensor {
        serial: s.serial,
        kind: s.kind,
        firmware: s.firmware,
        name: s.name,
        state: SensorState::Active,
        sensor_type: s.sensor_type,
        last_activity: now,
    }
}

/// The map after upserting `list` in order, each entry activated at `now`.
pub open spec fn upserted(m: Map<Seq<char>, Sensor>, list: Seq<Sensor>, now: u64) -> Map<
    Seq<char>,
    Sensor,
>
    decreases list.len(),
{
    if list.len() == 0 {
        m
    } else {
        upserted(m, list.drop_last(), now).insert(
            list.last().serial@,
            activated(list.last(), now),
        )
    }
}

/// The key set a list of serial numbers denotes.
pub open spec fn serials_keys(serials: Seq<String>) -> Set<Seq<char>> {
    Set::new(|k: Seq<char>| exists|i: int| 0 <= i < serials.len() && serials[i]@ == k)
}

proof fn lemma_fleet_map_contains(s: Seq<Sensor>, k: Seq<char>)
    ensures
        fleet_map(s).contains_key(k) <==> exists|i: int| 0 <= i < s.len() && (#[trigger] s[i]).serial@ == k,
    decreases s.len(),
{
    if s.len() > 0 {
        lemma_fleet_map_contains(s.drop_last(), k);
        if s.last().serial@ == k {
            assert(s[s.len() - 1].serial@ == k);
        } else {
            if fleet_map(s).contains_key(k) {
                let i = choose|i: int|
                    0 <= i < s.drop_last().len() && (#[trigger] s.drop_last()[i]).serial@ == k;
                assert(s[i].serial@ == k);
            }
            if exists|i: int| 0 <= i < s.len() && (#[trigger] s[i]).serial@ == k {
                let i = choose|i: int| 0 <= i < s.len() && (#[trigger] s[i]).serial@ == k;
                assert(i < s.len() - 1);
                assert(s.drop_last()[i].serial@ == k);
            }
        }
    }
}

proof fn lemma_fleet_map_index(s: Seq<Sensor>, i: int)
    requires
        unique_serials(s),
        0 <= i < s.len(),
    ensures
        fleet_map(s).contains_key(s[i].serial@),
        fleet_map(s)[s[i].serial@] == s[i],
    decreases s.len(),
{
    if i < s.len() - 1 {
        let t = s.drop_last();
        assert(unique_serials(t)) by {
            assert(forall|a: int| 0 <= a < t.len() ==> t[a] == s[a]);
        }
        lemma_fleet_map_index(t, i);
        assert(s[s.len() - 1].serial@ != s[i].serial@);
    }
}

proof fn lemma_fleet_map_push(s: Seq<Sensor>, x: Sensor)
    ensures
        fleet_map(s.push(x)) == fleet_map(s).insert(x.serial@, x),
{
    assert(s.push(x).drop_last() =~= s);
    assert(s.push(x).last() == x);
}

proof fn lemma_fleet_map_update(s: Seq<Sensor>, i: int, x: Sensor)
    requires
        unique_serials(s),
        0 <= i < s.len(),
        x.serial@ == s[i].serial@,
    ensures
        fleet_map(s.update(i, x)) == fleet_map(s).insert(x.serial@, x),
    decreases s.len(),
{
    let t = s.update(i, x);
    if i == s.len() - 1 {
        assert(t.drop_last() =~= s.drop_last());
        assert(t.last() == x);
        assert(fleet_map(s).insert(x.serial@, x) =~= fleet_map(s.drop_last()).insert(
            x.serial@,
            x,
        ));
    } else {
        let u = s.drop_last();
        assert(unique_serials(u)) by {
            assert(forall|a: int| 0 <= a < u.len() ==> u[a] == s[a]);
        }
        lemma_fleet_map_update(u, i, x);
        assert(t.drop_last() =~= u.update(i, x));
        assert(t.last() == s.last());
        assert(x.serial@ != s.last().serial@);
        assert(fleet_map(u).insert(x.serial@, x).insert(s.last().serial@, s.last())
            =~= fleet_map(u).insert(s.last().serial@, s.last()).insert(x.serial@, x));
    }
}

fn index_of_serial(entries: &Vec<Sensor>, serial: &String) -> (r: Option<usize>)
    ensures
        match r {
            Some(i) => i < entries@.len() && entries@[i as int].serial@ == serial@,
            None => forall|j: int| 0 <= j < entries@.len() ==> (#[trigger] entries@[j]).serial@
                != serial@,
        },
{
    let mut i: usize = 0;
    while i < entries.len()
        invariant
            i <= entries@.len(),
            forall|j: int| 0 <= j < i ==> (#[trigger] entries@[j]).serial@ != serial@,
        decreases entries@.len() - i,
    {
        if entries[i].serial == *serial {
            return Some(i);
        }
        i = i + 1;
    }
    None
}

fn contains_serial(serials: &Vec<String>, s: &String) -> (r: bool)
    ensures
        r == serials_keys(serials@).contains(s@),
{
    let mut i: usize = 0;
    while i < serials.len()
        invariant
            i <= serials@.len(),
            forall|j: int| 0 <= j < i ==> (#[trigger] serials@[j])@ != s@,
        decreases serials@.len() - i,
    {
        if serials[i] == *s {
            return true;
        }
        i = i + 1;
    }
    false
}

/// The registry. Only the supervisor holds one; every other task sees it
/// through commands and snapshots.
#[derive(Debug)]
pub struct Fleet {
    entries: Vec<Sensor>,
}

impl View for Fleet {
    type V = Map<Seq<char>, Sensor>;

    closed spec fn view(&self) -> Map<Seq<char>, Sensor> {
        fleet_map(self.entries@)
    }
}

impl Fleet {
    /// The entries in insertion order; the map view folds them up.
    pub closed spec fn sensors(&self) -> Seq<Sensor> {
        self.entries@
    }

    /// The registry invariant: serial numbers are unique.
    pub open spec fn wf(&self) -> bool {
        unique_serials(self.sensors())
    }

    /// An empty registry.
    pub fn new() -> (f: Fleet)
        ensures
            f.wf(),
            f@ == Map::<Seq<char>, Sensor>::empty(),
            f.sensors() == Seq::<Sensor>::empty(),
    {
        Fleet { entries: Vec::new() }
    }

    /// Number of tracked sensors.
    pub fn len(&self) -> (n: usize)
        ensures
            n == self.sensors().len(),
    {
        self.entries.len()
    }

    /// The entry sequence and the map view agree: every entry is the
    /// binding of its serial, and every bound key comes from an entry.
    pub proof fn lemma_sensors_map(self)
        requires
            self.wf(),
        ensures
            forall|i: int|
                0 <= i < self.sensors().len() ==> self@.contains_key(
                    (#[trigger] self.sensors()[i]).serial@,
                ) && self@[self.sensors()[i].serial@] == self.sensors()[i],
            forall|k: Seq<char>| #[trigger]
                self@.contains_key(k) ==> exists|i: int|
                    0 <= i < self.sensors().len() && (#[trigger] self.sensors()[i]).serial@ == k,
    {
        assert forall|i: int| 0 <= i < self.sensors().len() implies self@.contains_key(
            (#[trigger] self.sensors()[i]).serial@,
        ) && self@[self.sensors()[i].serial@] == self.sensors()[i] by {
            lemma_fleet_map_index(self.entries@, i);
        }
        assert forall|k: Seq<char>| #[trigger] self@.contains_key(k) implies exists|i: int|
            0 <= i < self.sensors().len() && (#[trigger] self.sensors()[i]).serial@ == k by {
            lemma_fleet_map_contains(self.entries@, k);
        }
    }

    /// Insert or replace one sensor under its serial number, asserting
    /// liveness: the written entry is `Active` with `last_activity = now`.
    /// A present key keeps the entry count; an absent key grows it by one.
    pub fn upsert_sensor(&mut self, sensor: Sensor, now: u64)
        requires
            old(self).wf(),
        ensures
            final(self).wf(),
            final(self)@ == old(self)@.insert(sensor.serial@, activated(sensor, now)),
            old(self)@.contains_key(sensor.serial@) ==> final(self).sensors().len() == old(
                self,
            ).sensors().len(),
            !old(self)@.contains_key(sensor.serial@) ==> final(self).sensors().len() == old(
                self,
            ).sensors().len() + 1,
    {
        let ghost orig = self.entries@;
        let idx = index_of_serial(&self.entries, &sensor.serial);
        let updated = Sensor {
            serial: sensor.serial,
            kind: sensor.kind,
            firmware: sensor.firmware,
            name: sensor.name,
            state: SensorState::Active,
            sensor_type: sensor.sensor_type,
            last_activity: now,
        };
        proof {
            lemma_fleet_map_contains(orig, updated.serial@);
        }
        match idx {
            Some(i) => {
                proof {
                    lemma_fleet_map_update(orig, i as int, updated);
                }
                self.entries.set(i, updated);
                proof {
                    assert forall|a: int, b: int|
                        0 <= a < b < self.entries@.len() implies (#[trigger] self.entries@[a]).serial@
                        != (#[trigger] self.entries@[b]).serial@ by {
                        assert(orig[a].serial@ != orig[b].serial@);
                    }
                }
            },
            None => {
                proof {
                    lemma_fleet_map_push(orig, updated);
                }
                self.entries.push(updated);
                proof {
                    assert forall|a: int, b: int|
                        0 <= a < b < self.entries@.len() implies (#[trigger] self.entries@[a]).serial@
                        != (#[trigger] self.entries@[b]).serial@ by {
                        if b < self.entries@.len() - 1 {
                            assert(orig[a].serial@ != orig[b].serial@);
                        } else {
                            assert(orig[a].serial@ != updated.serial@);
                        }
                    }
                }
            },
        }
    }

    /// Insert or replace a batch, in order; every written entry is
    /// activated at `now`.
    pub fn upsert_sensors(&mut self, sensors: Vec<Sensor>, now: u64)
        requires
            old(self).wf(),
        ensures
            final(self).wf(),
            final(self)@ == upserted(old(self)@, sensors@, now),
    {
        let ghost m0 = self@;
        let mut i: usize = 0;
        while i < sensors.len()
            invariant
                i <= sensors@.len(),
                self.wf(),
                self@ == upserted(m0, sensors@.subrange(0, i as int), now),
            decreases sensors@.len() - i,
        {
            proof {
                let p = sensors@.subrange(0, i as int + 1);
                assert(p.drop_last() =~= sensors@.subrange(0, i as int));
                assert(p.last() == sensors@[i as int]);
            }
            let s = sensors[i].clone();
            self.upsert_sensor(s, now);
            i = i + 1;
        }
        proof {
            assert(sensors@.subrange(0, sensors@.len() as int) =~= sensors@);
        }
    }

    /// Delete the listed serial numbers; absent keys are no-ops.
    pub fn remove_sensors(&mut self, serials: &Vec<String>)
        requires
            old(self).wf(),
        ensures
            final(self).wf(),
            final(self)@ == old(self)@.remove_keys(serials_keys(serials@)),
    {
        let ghost orig = self.entries@;
        let mut kept: Vec<Sensor> = Vec::new();
        let mut i: usize = 0;
        proof {
            assert(fleet_map(kept@) =~= fleet_map(orig.subrange(0, 0)).remove_keys(
                serials_keys(serials@),
            ));
        }
        while i < self.entries.len()
            invariant
                i <= orig.len(),
                self.entries@ == orig,
                unique_serials(orig),
                fleet_map(kept@) == fleet_map(orig.subrange(0, i as int)).remove_keys(
                    serials_keys(serials@),
                ),
                unique_serials(kept@),
                forall|a: int|
                    0 <= a < kept@.len() ==> exists|l: int|
                        0 <= l < i && #[trigger] kept@[a] == orig[l],
            decreases orig.len() - i,
        {
            let ghost pre = orig.subrange(0, i as int);
            let ghost keys = serials_keys(serials@);
            proof {
                assert(orig.subrange(0, i as int + 1) =~= pre.push(orig[i as int]));
                lemma_fleet_map_push(pre, orig[i as int]);
            }
            let e = &self.entries[i];
            if contains_serial(serials, &e.serial) {
                proof {
                    assert(fleet_map(pre.push(orig[i as int])).remove_keys(keys)
                        =~= fleet_map(pre).remove_keys(keys));
                }
            } else {
                let ghost kept0 = kept@;
                kept.push(e.clone());
                proof {
                    lemma_fleet_map_push(kept0, orig[i as int]);
                    assert(fleet_map(pre.push(orig[i as int])).remove_keys(keys)
                        =~= fleet_map(pre).remove_keys(keys).insert(
                        orig[i as int].serial@,
                        orig[i as int],
                    ));
                    assert forall|a: int, b: int|
                        0 <= a < b < kept@.len() implies (#[trigger] kept@[a]).serial@
                        != (#[trigger] kept@[b]).serial@ by {
                        if b < kept@.len() - 1 {
                        } else {
                            let l = choose|l: int| 0 <= l < i && #[trigger] kept0[a] == orig[l];
                            assert(orig[l].serial@ != orig[i as int].serial@);
                        }
                    }
                    assert forall|a: int| 0 <= a < kept@.len() implies exists|l: int|
                        0 <= l < i + 1 && #[trigger] kept@[a] == orig[l] by {
                        if a < kept@.len() - 1 {
                            let l = choose|l: int| 0 <= l < i && #[trigger] kept0[a] == orig[l];
                            assert(kept@[a] == orig[l]);
                        } else {
                            assert(kept@[a] == orig[i as int]);
                        }
                    }
                }
            }
            i = i + 1;
        }
        proof {
            assert(orig.subrange(0, orig.len() as int) =~= orig);
        }
        self.entries = kept;
    }

    /// Point lookup: a copy of the entry bound to `serial`, or nothing.
    pub fn find_sensor(&self, serial: &String) -> (r: Option<Sensor>)
        requires
            self.wf(),
        ensures
            match r {
                Some(s) => self@.contains_key(serial@) && s == self@[serial@],
                None => !self@.contains_key(serial@),
            },
    {
        match index_of_serial(&self.entries, serial) {
            Some(i) => {
                proof {
                    lemma_fleet_map_index(self.entries@, i as int);
                }
                Some(self.entries[i].clone())
            },
            None => {
                proof {
                    lemma_fleet_map_contains(self.entries@, serial@);
                }
                None
            },
        }
    }

    /// A read-only snapshot of all entries, taken at call time; never a
    /// live view.
    pub fn all_sensors(&self) -> (r: Vec<Sensor>)
        ensures
            r@ == self.sensors(),
    {
        let mut out: Vec<Sensor> = Vec::new();
        let mut i: usize = 0;
        while i < self.entries.len()
            invariant
                i <= self.entries@.len(),
                out@ == self.entries@.subrange(0, i as int),
            decreases self.entries@.len() - i,
        {
            out.push(self.entries[i].clone());
            proof {
                assert(out@ =~= self.entries@.subrange(0, i as int + 1));
            }
            i = i + 1;
        }
        proof {
            assert(self.entries@.subrange(0, self.entries@.len() as int) =~= self.entries@);
        }
        out
    }
}

/// Upserting the same serial number twice leaves exactly the binding the
/// second upsert wrote: the first write is fully overwritten.
pub proof fn lemma_upsert_idempotent_key(
    m: Map<Seq<char>, Sensor>,
    s1: Sensor,
    s2: Sensor,
    t1: u64,
    t2: u64,
)
    requires
        s1.serial@ == s2.serial@,
    ensures
        upserted(upserted(m, seq![s1], t1), seq![s2], t2) == upserted(m, seq![s2], t2),
{
    let e = Seq::<Sensor>::empty();
    assert(upserted(m, e, t1) == m);
    assert(seq![s1].drop_last() =~= e);
    assert(seq![s2].drop_last() =~= e);
    let m1 = upserted(m, seq![s1], t1);
    assert(m1 == m.insert(s1.serial@, activated(s1, t1)));
    assert(upserted(m1, e, t2) == m1);
    assert(upserted(m1, seq![s2], t2) == m1.insert(s2.serial@, activated(s2, t2)));
    assert(upserted(m, e, t2) == m);
    assert(upserted(m, seq![s2], t2) == m.insert(s2.serial@, activated(s2, t2)));
    assert(m1.insert(s2.serial@, activated(s2, t2)) =~= m.insert(s2.serial@, activated(s2, t2)));
}

} // verus!
