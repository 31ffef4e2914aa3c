//! Master/slave drift estimation between output endpoints.
//!
//! The first adopted endpoint is the master; every other endpoint is a
//! slave whose reported playback position is compared with the wall clock.
//! The smoothed drift of a slave turns into a bounded, one-shot correction
//! in samples that its renderer applies.
use vstd::prelude::*;

verus! {

/// Drift, in samples, beyond which a slave is corrected (about 5 ms at 48 kHz).
pub const DRIFT_THRESHOLD_SAMPLES: i64 = 240;

/// Largest correction applied in one step (about 1 ms at 48 kHz).
pub const MAX_CORRECTION_SAMPLES: i64 = 48;

/// Microseconds in a second.
const MICROS_PER_SECOND: u128 = 1_000_000;

/// `std::time::Instant`, carried as an opaque value.
#[verifier::external_type_specification]
#[verifier::external_body]
pub struct ExInstant(std::time::Instant);

/// Relies on `std::time::Instant::now`: an instant of the monotonic clock.
#[verifier::external_body]
fn clock_now() -> (r: std::time::Instant) {
    std::time::Instant::now()
}

/// Relies on `std::time::Instant::elapsed`: the time since `epoch`, in whole
/// microseconds.
#[verifier::external_body]
fn micros_since(epoch: &std::time::Instant) -> (r: u128) {
    epoch.elapsed().as_micros()
}

/// Synchronisation state of one slave endpoint.
#[derive(Clone, Copy, Debug, PartialEq, Eq)]
pub struct SlaveState {
    /// Playback position reported at the last update.
    pub last_position: u64,
    /// Smoothed drift in samples: positive when the slave runs ahead.
    pub drift_samples: i64,
    /// Time of the last update, in microseconds of the sync's own clock.
    pub last_sync: u64,
    /// Correction waiting to be applied, in samples.
    pub pending_correction: i64,
}

/// Clamps `x` to the range of `i64`.
pub open spec fn clamp_i64(x: int) -> int {
    if x < i64::MIN {
        i64::MIN as int
    } else if x > i64::MAX {
        i64::MAX as int
    } else {
        x
    }
}

/// `x / 8` rounded toward zero.
pub open spec fn div8_toward_zero(x: int) -> int {
    if x >= 0 {
        x / 8
    } else {
        -((-x) / 8)
    }
}

/// Samples the wall clock says have passed between `last` and `now` at
/// `rate` samples per second, clamped to `i64`.
pub open spec fn elapsed_samples(last: u64, now: u64, rate: u32) -> int {
    let us: int = if now >= last {
        now - last
    } else {
        0
    };
    clamp_i64((us * rate) / 1_000_000)
}

/// How far the reported position moved since `last`, modulo 2^64 and read
/// as a signed 64-bit value.
pub open spec fn movement(position: u64, last: u64) -> int {
    let d: int = if position >= last {
        position - last
    } else {
        position - last + 0x1_0000_0000_0000_0000
    };
    if d > i64::MAX {
        d - 0x1_0000_0000_0000_0000
    } else {
        d
    }
}

/// Drift observed in one update: actual movement minus expected movement.
pub open spec fn drift_delta(s: SlaveState, position: u64, now: u64, rate: u32) -> int {
    clamp_i64(movement(position, s.last_position) - elapsed_samples(s.last_sync, now, rate))
}

/// Exponential moving average with factor 7/8.
pub open spec fn smoothed(drift: int, delta: int) -> int {
    div8_toward_zero(7 * drift + delta)
}

/// Correction owed for a smoothed drift: none within the threshold, else
/// the drift's sign times its magnitude capped at the maximum correction.
pub open spec fn correction_for(drift: int) -> int {
    if drift > DRIFT_THRESHOLD_SAMPLES {
        if drift < MAX_CORRECTION_SAMPLES {
            drift
        } else {
            MAX_CORRECTION_SAMPLES as int
        }
    } else if drift < -DRIFT_THRESHOLD_SAMPLES {
        if -drift < MAX_CORRECTION_SAMPLES {
            drift
        } else {
            -MAX_CORRECTION_SAMPLES
        }
    } else {
        0
    }
}

/// A slave as registered at time `now`.
pub open spec fn fresh_slave(now: u64) -> SlaveState {
    SlaveState { last_position: 0, drift_samples: 0, last_sync: now, pending_correction: 0 }
}

/// A slave after reporting `position` at time `now`.
pub open spec fn updated_slave(s: SlaveState, position: u64, now: u64, rate: u32) -> SlaveState {
    let drift = smoothed(s.drift_samples as int, drift_delta(s, position, now, rate));
    SlaveState {
        last_position: position,
        drift_samples: drift as i64,
        last_sync: now,
        pending_correction: correction_for(drift) as i64,
    }
}

/// A slave after its pending correction was handed out.
pub open spec fn corrected_slave(s: SlaveState) -> SlaveState {
    SlaveState {
        drift_samples: (s.drift_samples - s.pending_correction) as i64,
        pending_correction: 0,
        ..s
    }
}

/// The pending correction stands for the current drift, or nothing is pending.
pub open spec fn slave_wf(s: SlaveState) -> bool {
    s.pending_correction == 0 || s.pending_correction == correction_for(s.drift_samples as int)
}

/// Clamps `x` to `i64`.
fn clamp_to_i64(x: i128) -> (r: i64)
    ensures
        r as int == clamp_i64(x as int),
{
    if x < i64::MIN as i128 {
        i64::MIN
    } else if x > i64::MAX as i128 {
        i64::MAX
    } else {
        x as i64
    }
}

/// The slave state after a report of `position` at time `now`.
fn next_slave_state(s: SlaveState, position: u64, now: u64, rate: u32) -> (r: SlaveState)
    ensures
        r == updated_slave(s, position, now, rate),
{
    let us: u64 = if now >= s.last_sync {
        now - s.last_sync
    } else {
        0
    };
    assert((us as int) * (rate as int) <= (u64::MAX as int) * (u32::MAX as int)) by (nonlinear_arith)
        requires
            0 <= us <= u64::MAX,
            0 <= rate <= u32::MAX,
    ;
    let product: u128 = us as u128 * rate as u128;
    let elapsed: i64 = clamp_to_i64((product / MICROS_PER_SECOND) as i128);
    let d: u64 = position.wrapping_sub(s.last_position);
    let moved: i64 = if d > i64::MAX as u64 {
        (d as i128 - 0x1_0000_0000_0000_0000i128) as i64
    } else {
        d as i64
    };
    let delta: i64 = clamp_to_i64(moved as i128 - elapsed as i128);
    let x: i128 = 7 * (s.drift_samples as i128) + delta as i128;
    let q: i128 = if x >= 0 {
        x / 8
    } else {
        -((-x) / 8)
    };
    let drift: i64 = q as i64;
    // Beyond the threshold the drift always exceeds the cap.
    let pending: i64 = if drift > DRIFT_THRESHOLD_SAMPLES {
        MAX_CORRECTION_SAMPLES
    } else if drift < -DRIFT_THRESHOLD_SAMPLES {
        -MAX_CORRECTION_SAMPLES
    } else {
        0
    };
    SlaveState {
        last_position: position,
        drift_samples: drift,
        last_sync: now,
        pending_correction: pending,
    }
}

/// A table with distinct keys holds as many entries as the map it stands
/// for.
proof fn lemma_table_len(table: Seq<(String, SlaveState)>, m: Map<Seq<char>, SlaveState>)
    requires
        forall|i: int, j: int|
            0 <= i < j < table.len() ==> #[trigger] table[i].0@ != #[trigger] table[j].0@,
        forall|i: int| 0 <= i < table.len() ==> #[trigger] m.contains_key(table[i].0@),
        forall|k: Seq<char>|
            #[trigger] m.contains_key(k) ==> exists|i: int| 0 <= i < table.len() && #[trigger] table[i].0@ == k,
    ensures
        m.dom().finite(),
        m.len() == table.len(),
    decreases table.len(),
{
    if table.len() == 0 {
        assert(m.dom() =~= Set::empty());
    } else {
        let n = table.len() - 1;
        let last = table[n].0@;
        let rest = table.drop_last();
        let m2 = m.remove(last);
        assert forall|k: Seq<char>| #[trigger] m2.contains_key(k) implies exists|i: int|
            0 <= i < rest.len() && #[trigger] rest[i].0@ == k by {
            let i = choose|i: int| 0 <= i < table.len() && #[trigger] table[i].0@ == k;
            assert(i != n);
            assert(rest[i].0@ == k);
        }
        assert forall|i: int| 0 <= i < rest.len() implies #[trigger] m2.contains_key(rest[i].0@) by {
            assert(table[i].0@ != table[n].0@);
            assert(m.contains_key(table[i].0@));
        }
        assert forall|i: int, j: int| 0 <= i < j < rest.len() implies #[trigger] rest[i].0@
            != #[trigger] rest[j].0@ by {
            assert(table[i].0@ != table[j].0@);
        }
        lemma_table_len(rest, m2);
        assert(m.contains_key(last));
        assert(m.dom() =~= m2.dom().insert(last));
    }
}

/// Clock synchronisation for one master and any number of slaves.
pub struct ClockSync {
    master_id: Option<String>,
    master_position: u64,
    last_update: u64,
    slaves: Vec<(String, SlaveState)>,
    sample_rate: u32,
    epoch: std::time::Instant,
    model: Ghost<Map<Seq<char>, SlaveState>>,
}

impl ClockSync {
    /// The master's id, once one is set.
    pub closed spec fn master(&self) -> Option<Seq<char>> {
        match self.master_id {
            Some(m) => Some(m@),
            None => None,
        }
    }

    /// Each slave's state, by id.
    pub closed spec fn slaves(&self) -> Map<Seq<char>, SlaveState> {
        self.model@
    }

    /// Samples per second used to turn time into samples.
    pub closed spec fn rate(&self) -> u32 {
        self.sample_rate
    }

    /// The master's last reported position.
    pub closed spec fn master_pos(&self) -> u64 {
        self.master_position
    }

    /// The correction `get_correction` hands out for `id`.
    pub open spec fn correction_of(&self, id: Seq<char>) -> int {
        if self.slaves().contains_key(id) {
            self.slaves()[id].pending_correction as int
        } else {
            0
        }
    }

    pub closed spec fn wf(&self) -> bool {
        &&& forall|i: int, j: int|
            0 <= i < j < self.slaves@.len() ==> #[trigger] self.slaves@[i].0@
                != #[trigger] self.slaves@[j].0@
        &&& forall|i: int|
            0 <= i < self.slaves@.len() ==> #[trigger] self.model@.contains_key(self.slaves@[i].0@)
                && self.model@[self.slaves@[i].0@] == self.slaves@[i].1
        &&& forall|k: Seq<char>|
            #[trigger] self.model@.contains_key(k) ==> exists|i: int|
                0 <= i < self.slaves@.len() && #[trigger] self.slaves@[i].0@ == k
        &&& forall|k: Seq<char>| #[trigger] self.model@.contains_key(k) ==> slave_wf(self.model@[k])
        &&& match self.master_id {
            Some(m) => !self.model@.contains_key(m@),
            None => true,
        }
    }

    /// Position of the slave `key` in the table.
    fn find(&self, key: &String) -> (r: Option<usize>)
        requires
            self.wf(),
        ensures
            match r {
                Some(i) => i < self.slaves@.len() && self.slaves@[i as int].0@ == key@,
                None => !self.slaves().contains_key(key@),
            },
    {
        let mut i: usize = 0;
        while i < self.slaves.len()
            invariant
                self.wf(),
                0 <= i <= self.slaves@.len(),
                forall|j: int| 0 <= j < i ==> self.slaves@[j].0@ != key@,
            decreases self.slaves@.len() - i,
        {
            if self.slaves[i].0 == *key {
                return Some(i);
            }
            i = i + 1;
        }
        None
    }

    /// Microseconds since this sync was made, saturating.
    fn now_micros(&self) -> u64 {
        let us = micros_since(&self.epoch);
        if us > u64::MAX as u128 {
            u64::MAX
        } else {
            us as u64
        }
    }

    /// Replaces the state of the slave at `i`.
    fn store_slave(&mut self, i: usize, key: String, st: SlaveState)
        requires
            old(self).wf(),
            i < old(self).slaves@.len(),
            old(self).slaves@[i as int].0@ == key@,
            slave_wf(st),
        ensures
            final(self).wf(),
            final(self).slaves() == old(self).slaves().insert(key@, st),
            final(self).master() == old(self).master(),
            final(self).rate() == old(self).rate(),
            final(self).master_pos() == old(self).master_pos(),
    {
        let ghost k = key@;
        self.slaves.set(i, (key, st));
        proof {
            self.model@ = self.model@.insert(k, st);
            assert forall|kk: Seq<char>| #[trigger] self.model@.contains_key(kk) implies exists|j: int|
                0 <= j < self.slaves@.len() && #[trigger] self.slaves@[j].0@ == kk by {
                if kk != k {
                    let j = choose|j: int|
                        0 <= j < old(self).slaves@.len() && #[trigger] old(self).slaves@[j].0@ == kk;
                    assert(self.slaves@[j].0@ == kk);
                } else {
                    assert(self.slaves@[i as int].0@ == kk);
                }
            }
        }
    }

    /// Drops the slave at `i`.
    fn remove_at(&mut self, i: usize, key: &String)
        requires
            old(self).wf(),
            i < old(self).slaves@.len(),
            old(self).slaves@[i as int].0@ == key@,
        ensures
            final(self).wf(),
            final(self).slaves() == old(self).slaves().remove(key@),
            final(self).master_id == old(self).master_id,
            final(self).rate() == old(self).rate(),
            final(self).master_pos() == old(self).master_pos(),
    {
        let ghost old_slaves = self.slaves@;
        let ghost k = key@;
        self.slaves.remove(i);
        proof {
            self.model@ = self.model@.remove(k);
            assert forall|j: int| 0 <= j < self.slaves@.len() implies #[trigger] self.slaves@[j] == (if j
                < i {
                old_slaves[j]
            } else {
                old_slaves[j + 1]
            }) by {}
            assert forall|kk: Seq<char>| #[trigger] self.model@.contains_key(kk) implies exists|j: int|
                0 <= j < self.slaves@.len() && #[trigger] self.slaves@[j].0@ == kk by {
                let j = choose|j: int| 0 <= j < old_slaves.len() && #[trigger] old_slaves[j].0@ == kk;
                if j < i {
                    assert(self.slaves@[j].0@ == kk);
                } else {
                    assert(j != i);
                    assert(self.slaves@[j - 1].0@ == kk);
                }
            }
            assert forall|a: int, b: int|
                0 <= a < b < self.slaves@.len() implies #[trigger] self.slaves@[a].0@
                != #[trigger] self.slaves@[b].0@ by {
                let oa = if a < i {
                    a
                } else {
                    a + 1
                };
                let ob = if b < i {
                    b
                } else {
                    b + 1
                };
                assert(old_slaves[oa].0@ != old_slaves[ob].0@);
            }
            assert forall|a: int| 0 <= a < self.slaves@.len() implies #[trigger]
                self.model@.contains_key(self.slaves@[a].0@) && self.model@[self.slaves@[a].0@]
                == self.slaves@[a].1 by {
                let oa = if a < i {
                    a
                } else {
                    a + 1
                };
                assert(old_slaves[oa].0@ != old_slaves[i as int].0@);
                assert(old(self).model@.contains_key(old_slaves[oa].0@));
            }
        }
    }

    /// A sync with no master and no slaves, counting time at `sample_rate`.
    pub fn new(sample_rate: u32) -> (r: ClockSync)
        ensures
            r.wf(),
            r.master() == None::<Seq<char>>,
            r.slaves() == Map::<Seq<char>, SlaveState>::empty(),
            r.rate() == sample_rate,
            r.master_pos() == 0,
    {
        ClockSync {
            master_id: None,
            master_position: 0,
            last_update: 0,
            slaves: Vec::new(),
            sample_rate,
            epoch: clock_now(),
            model: Ghost(Map::empty()),
        }
    }

    /// Makes `device_id` the master; it stops being a slave if it was one.
    pub fn set_master(&mut self, device_id: &str)
        requires
            old(self).wf(),
        ensures
            final(self).wf(),
            final(self).master() == Some(device_id@),
            final(self).slaves() == old(self).slaves().remove(device_id@),
            final(self).rate() == old(self).rate(),
            final(self).master_pos() == 0,
    {
        let key = device_id.to_owned();
        match self.find(&key) {
            Some(i) => {
                self.remove_at(i, &key);
            },
            None => {
                proof {
                    assert(self.model@.remove(key@) =~= self.model@);
                }
            },
        }
        let now = self.now_micros();
        let ghost before = *self;
        self.master_id = Some(key);
        self.master_position = 0;
        self.last_update = now;
        proof {
            assert forall|k: Seq<char>| #[trigger] self.model@.contains_key(k) implies exists|j: int|
                0 <= j < self.slaves@.len() && #[trigger] self.slaves@[j].0@ == k by {
                let j = choose|j: int|
                    0 <= j < before.slaves@.len() && #[trigger] before.slaves@[j].0@ == k;
                assert(self.slaves@[j].0@ == k);
            }
        }
    }

    /// Registers `device_id` as a slave, as of time `now`; the master is
    /// never registered, and a slave registered again starts afresh.
    pub fn register_slave_at(&mut self, device_id: &str, now: u64)
        requires
            old(self).wf(),
        ensures
            final(self).wf(),
            final(self).master() == old(self).master(),
            final(self).rate() == old(self).rate(),
            final(self).master_pos() == old(self).master_pos(),
            old(self).master() == Some(device_id@) ==> final(self).slaves() == old(self).slaves(),
            old(self).master() != Some(device_id@) ==> final(self).slaves() == old(self).slaves().insert(device_id@, fresh_slave(now)),
    {
        let key = device_id.to_owned();
        let is_master = match &self.master_id {
            Some(m) => *m == key,
            None => false,
        };
        if is_master {
            return;
        }
        let st = SlaveState { last_position: 0, drift_samples: 0, last_sync: now, pending_correction: 0 };
        match self.find(&key) {
            Some(i) => {
                self.store_slave(i, key, st);
            },
            None => {
                let ghost k = key@;
                self.slaves.push((key, st));
                proof {
                    self.model@ = self.model@.insert(k, st);
                    let n = self.slaves@.len() - 1;
                    assert(self.slaves@[n].0@ == k);
                    assert forall|kk: Seq<char>| #[trigger]
                        self.model@.contains_key(kk) implies exists|j: int|
                        0 <= j < self.slaves@.len() && #[trigger] self.slaves@[j].0@ == kk by {
                        if kk != k {
                            let j = choose|j: int|
                                0 <= j < old(self).slaves@.len() && #[trigger] old(self).slaves@[j].0@ == kk;
                            assert(self.slaves@[j].0@ == kk);
                        }
                    }
                    assert forall|a: int| 0 <= a < self.slaves@.len() implies #[trigger]
                        self.model@.contains_key(self.slaves@[a].0@) && self.model@[self.slaves@[a].0@]
                        == self.slaves@[a].1 by {
                        if a < n {
                            assert(old(self).model@.contains_key(old(self).slaves@[a].0@));
                        }
                    }
                }
            },
        }
    }

    /// Registers `device_id` as a slave as of now.
    pub fn register_slave(&mut self, device_id: &str)
        requires
            old(self).wf(),
        ensures
            final(self).wf(),
            final(self).master() == old(self).master(),
            final(self).rate() == old(self).rate(),
            final(self).master_pos() == old(self).master_pos(),
            old(self).master() == Some(device_id@) ==> final(self).slaves() == old(self).slaves(),
            old(self).master() != Some(device_id@) ==> final(self).slaves() == old(self).slaves().insert(device_id@, fresh_slave(final(self).slaves()[device_id@].last_sync)),
    {
        let now = self.now_micros();
        self.register_slave_at(device_id, now);
    }

    /// Forgets the slave `device_id`.
    pub fn remove_slave(&mut self, device_id: &str)
        requires
            old(self).wf(),
        ensures
            final(self).wf(),
            final(self).slaves() == old(self).slaves().remove(device_id@),
            final(self).master() == old(self).master(),
            final(self).rate() == old(self).rate(),
            final(self).master_pos() == old(self).master_pos(),
    {
        let key = device_id.to_owned();
        match self.find(&key) {
            Some(i) => {
                self.remove_at(i, &key);
            },
            None => {
                proof {
                    assert(self.model@.remove(key@) =~= self.model@);
                }
            },
        }
    }

    /// Records the master's playback position.
    pub fn update_master(&mut self, position: u64)
        requires
            old(self).wf(),
        ensures
            final(self).wf(),
            final(self).master_pos() == position,
            final(self).master() == old(self).master(),
            final(self).slaves() == old(self).slaves(),
            final(self).rate() == old(self).rate(),
    {
        let now = self.now_micros();
        self.master_position = position;
        self.last_update = now;
        proof {
            assert forall|k: Seq<char>| #[trigger] self.model@.contains_key(k) implies exists|j: int|
                0 <= j < self.slaves@.len() && #[trigger] self.slaves@[j].0@ == k by {
                let j = choose|j: int|
                    0 <= j < old(self).slaves@.len() && #[trigger] old(self).slaves@[j].0@ == k;
                assert(self.slaves@[j].0@ == k);
            }
        }
    }

    /// Records the playback position `position` that the slave `device_id`
    /// reported at time `now`, and recomputes its drift and correction.
    /// Unknown ids are ignored.
    pub fn update_slave_at(&mut self, device_id: &str, position: u64, now: u64)
        requires
            old(self).wf(),
        ensures
            final(self).wf(),
            final(self).master() == old(self).master(),
            final(self).rate() == old(self).rate(),
            final(self).master_pos() == old(self).master_pos(),
            old(self).slaves().contains_key(device_id@) ==> final(self).slaves() == old(self).slaves().insert(
                device_id@,
                updated_slave(old(self).slaves()[device_id@], position, now, old(self).rate()),
            ),
            !old(self).slaves().contains_key(device_id@) ==> final(self).slaves() == old(self).slaves(),
    {
        let key = device_id.to_owned();
        if let Some(i) = self.find(&key) {
            let st = next_slave_state(self.slaves[i].1, position, now, self.sample_rate);
            proof {
                assert(self.model@.contains_key(self.slaves@[i as int].0@));
            }
            self.store_slave(i, key, st);
        }
    }

    /// Records the position the slave `device_id` reports now.
    pub fn update_slave(&mut self, device_id: &str, position: u64)
        requires
            old(self).wf(),
        ensures
            final(self).wf(),
            final(self).master() == old(self).master(),
            final(self).rate() == old(self).rate(),
            final(self).master_pos() == old(self).master_pos(),
            old(self).slaves().contains_key(device_id@) ==> final(self).slaves() == old(self).slaves().insert(
                device_id@,
                updated_slave(
                    old(self).slaves()[device_id@],
                    position,
                    final(self).slaves()[device_id@].last_sync,
                    old(self).rate(),
                ),
            ),
            !old(self).slaves().contains_key(device_id@) ==> final(self).slaves() == old(self).slaves(),
    {
        let now = self.now_micros();
        self.update_slave_at(device_id, position, now);
    }

    /// The correction pending for `device_id` (0 for the master and for
    /// unknown ids), leaving it pending.
    pub fn get_correction_readonly(&self, device_id: &str) -> (r: i64)
        requires
            self.wf(),
        ensures
            r == self.correction_of(device_id@),
    {
        let key = device_id.to_owned();
        match self.find(&key) {
            Some(i) => {
                proof {
                    assert(self.model@.contains_key(self.slaves@[i as int].0@));
                }
                self.slaves[i].1.pending_correction
            },
            None => 0,
        }
    }

    /// Marks the pending correction of `device_id` as applied: the drift
    /// estimate absorbs it and nothing stays pending.
    pub fn apply_correction(&mut self, device_id: &str)
        requires
            old(self).wf(),
        ensures
            final(self).wf(),
            final(self).master() == old(self).master(),
            final(self).rate() == old(self).rate(),
            final(self).master_pos() == old(self).master_pos(),
            old(self).slaves().contains_key(device_id@) ==> final(self).slaves() == old(self).slaves().insert(device_id@, corrected_slave(old(self).slaves()[device_id@])),
            !old(self).slaves().contains_key(device_id@) ==> final(self).slaves() == old(self).slaves(),
            old(self).slaves().contains_key(device_id@) ==> final(self).slaves()[device_id@].drift_samples == old(self).slaves()[device_id@].drift_samples - old(self).slaves()[device_id@].pending_correction,
            old(self).slaves().contains_key(device_id@) ==> final(self).slaves()[device_id@].pending_correction == 0,
    {
        let key = device_id.to_owned();
        if let Some(i) = self.find(&key) {
            let st = self.slaves[i].1;
            proof {
                assert(self.model@.contains_key(self.slaves@[i as int].0@));
            }
            let fixed = SlaveState {
                drift_samples: st.drift_samples - st.pending_correction,
                pending_correction: 0,
                ..st
            };
            self.store_slave(i, key, fixed);
        }
    }

    /// Hands out the pending correction of `device_id` (0 for the master and
    /// for unknown ids) and marks it applied.
    pub fn get_correction(&mut self, device_id: &str) -> (r: i64)
        requires
            old(self).wf(),
        ensures
            r == old(self).correction_of(device_id@),
            final(self).wf(),
            final(self).master() == old(self).master(),
            final(self).rate() == old(self).rate(),
            final(self).master_pos() == old(self).master_pos(),
            old(self).slaves().contains_key(device_id@) ==> final(self).slaves() == old(self).slaves().insert(device_id@, corrected_slave(old(self).slaves()[device_id@])),
            !old(self).slaves().contains_key(device_id@) ==> final(self).slaves() == old(self).slaves(),
            old(self).slaves().contains_key(device_id@) ==> final(self).slaves()[device_id@].drift_samples == old(self).slaves()[device_id@].drift_samples - old(self).slaves()[device_id@].pending_correction,
            old(self).slaves().contains_key(device_id@) ==> final(self).slaves()[device_id@].pending_correction == 0,
    {
        let r = self.get_correction_readonly(device_id);
        self.apply_correction(device_id);
        r
    }

    /// `device_id` is the master.
    pub fn is_master(&self, device_id: &str) -> (r: bool)
        ensures
            r == (self.master() == Some(device_id@)),
    {
        let key = device_id.to_owned();
        match &self.master_id {
            Some(m) => *m == key,
            None => false,
        }
    }

    /// The smoothed drift of the slave `device_id`, in samples.
    pub fn get_drift_samples(&self, device_id: &str) -> (r: Option<i64>)
        requires
            self.wf(),
        ensures
            self.slaves().contains_key(device_id@) ==> r == Some(
                self.slaves()[device_id@].drift_samples,
            ),
            !self.slaves().contains_key(device_id@) ==> r == None::<i64>,
    {
        let key = device_id.to_owned();
        match self.find(&key) {
            Some(i) => {
                proof {
                    assert(self.model@.contains_key(self.slaves@[i as int].0@));
                }
                Some(self.slaves[i].1.drift_samples)
            },
            None => None,
        }
    }

    /// Every slave with its smoothed drift in samples.
    pub fn get_all_drift_samples(&self) -> (r: Vec<(String, i64)>)
        requires
            self.wf(),
        ensures
            r@.len() == self.slaves().len(),
            forall|i: int|
                0 <= i < r@.len() ==> #[trigger] self.slaves().contains_key(r@[i].0@)
                    && self.slaves()[r@[i].0@].drift_samples == r@[i].1,
            forall|k: Seq<char>|
                #[trigger] self.slaves().contains_key(k) ==> exists|i: int|
                    0 <= i < r@.len() && #[trigger] r@[i].0@ == k,
    {
        let mut out: Vec<(String, i64)> = Vec::new();
        let mut i: usize = 0;
        while i < self.slaves.len()
            invariant
                self.wf(),
                0 <= i <= self.slaves@.len(),
                out@.len() == i,
                forall|j: int|
                    0 <= j < i ==> #[trigger] out@[j].0@ == self.slaves@[j].0@ && out@[j].1
                        == self.slaves@[j].1.drift_samples,
            decreases self.slaves@.len() - i,
        {
            out.push((self.slaves[i].0.clone(), self.slaves[i].1.drift_samples));
            i = i + 1;
        }
        proof {
            assert forall|j: int| 0 <= j < out@.len() implies #[trigger] self.slaves().contains_key(
                out@[j].0@,
            ) && self.slaves()[out@[j].0@].drift_samples == out@[j].1 by {
                assert(self.model@.contains_key(self.slaves@[j].0@));
            }
            assert forall|k: Seq<char>| #[trigger] self.slaves().contains_key(k) implies exists|j: int|
                0 <= j < out@.len() && #[trigger] out@[j].0@ == k by {
                let j = choose|j: int| 0 <= j < self.slaves@.len() && #[trigger] self.slaves@[j].0@ == k;
                assert(out@[j].0@ == k);
            }
            lemma_table_len(self.slaves@, self.model@);
        }
        out
    }

    /// Samples per second.
    pub fn sample_rate(&self) -> (r: u32)
        ensures
            r == self.rate(),
    {
        self.sample_rate
    }

    /// Makes the first of `ids` the master and registers the others as
    /// fresh slaves, all as of one instant of the clock.
    pub fn assign_roles(&mut self, ids: &Vec<String>)
        requires
            old(self).wf(),
            ids@.len() > 0,
        ensures
            final(self).wf(),
            final(self).rate() == old(self).rate(),
            final(self).master() == Some(ids@[0]@),
            forall|i: int|
                1 <= i < ids@.len() && (#[trigger] ids@[i])@ != ids@[0]@ ==> final(self).slaves().contains_key(ids@[i]@) && final(self).slaves()[ids@[i]@].last_position
                    == 0 && final(self).slaves()[ids@[i]@].drift_samples == 0 && final(self).slaves()[ids@[i]@].pending_correction == 0,
    {
        self.set_master(ids[0].as_str());
        let now = self.now_micros();
        let mut i: usize = 1;
        while i < ids.len()
            invariant
                self.wf(),
                1 <= i <= ids@.len(),
                self.rate() == old(self).rate(),
                self.master() == Some(ids@[0]@),
                forall|q: int|
                    1 <= q < i && (#[trigger] ids@[q])@ != ids@[0]@ ==> self.slaves().contains_key(
                        ids@[q]@,
                    ) && self.slaves()[ids@[q]@] == fresh_slave(now),
            decreases ids@.len() - i,
        {
            self.register_slave_at(ids[i].as_str(), now);
            i = i + 1;
        }
    }

    /// Records the playback position `position` that `device_id` reported:
    /// as the master's position when it is the master, else as a slave's.
    pub fn report_position(&mut self, device_id: &str, position: u64)
        requires
            old(self).wf(),
        ensures
            final(self).wf(),
            final(self).master() == old(self).master(),
            final(self).rate() == old(self).rate(),
            old(self).master() == Some(device_id@) ==> final(self).master_pos() == position
                && final(self).slaves() == old(self).slaves(),
            old(self).master() != Some(device_id@) ==> final(self).master_pos() == old(self).master_pos() && (old(self).slaves().contains_key(device_id@) ==> final(self).slaves() == old(self).slaves().insert(
                device_id@,
                updated_slave(
                    old(self).slaves()[device_id@],
                    position,
                    final(self).slaves()[device_id@].last_sync,
                    old(self).rate(),
                ),
            )) && (!old(self).slaves().contains_key(device_id@) ==> final(self).slaves() == old(self).slaves()),
    {
        if self.is_master(device_id) {
            self.update_master(position);
        } else {
            self.update_slave(device_id, position);
        }
    }
}

/// Once a master is set, it is the one id that `is_master` accepts, and it
/// is never a slave, so the correction handed out for it is always zero.
pub proof fn lemma_master_is_unique(sync: ClockSync, m: Seq<char>)
    requires
        sync.wf(),
        sync.master() == Some(m),
    ensures
        forall|id: Seq<char>| (sync.master() == Some(id)) <==> id == m,
        !sync.slaves().contains_key(m),
        sync.correction_of(m) == 0,
{
    reveal(ClockSync::wf);
}

/// Every slave's pending correction is zero or the one its drift calls
/// for, so handing it out keeps the drift within `i64`.
pub proof fn lemma_slaves_well_formed(sync: ClockSync)
    requires
        sync.wf(),
    ensures
        forall|k: Seq<char>| #[trigger] sync.slaves().contains_key(k) ==> slave_wf(sync.slaves()[k]),
{
}

/// A correction is never larger than the maximum correction.
pub proof fn lemma_correction_is_bounded(drift: int)
    ensures
        -MAX_CORRECTION_SAMPLES <= correction_for(drift) <= MAX_CORRECTION_SAMPLES,
{
}

/// A slave whose smoothed drift is within the threshold keeps it there, and
/// owes no correction, as long as every observed drift is under half the
/// threshold.
pub proof fn lemma_drift_stays_within_threshold(s: SlaveState, position: u64, now: u64, rate: u32)
    requires
        -DRIFT_THRESHOLD_SAMPLES <= s.drift_samples <= DRIFT_THRESHOLD_SAMPLES,
        -DRIFT_THRESHOLD_SAMPLES / 2 < drift_delta(s, position, now, rate)
            < DRIFT_THRESHOLD_SAMPLES / 2,
    ensures
        -DRIFT_THRESHOLD_SAMPLES <= updated_slave(s, position, now, rate).drift_samples
            <= DRIFT_THRESHOLD_SAMPLES,
        updated_slave(s, position, now, rate).pending_correction == 0,
{
}


/// Outside the threshold, an update whose observed drift is under half the
/// threshold moves the smoothed drift toward zero without crossing it, and
/// handing out the correction that update sets moves it further the same
/// way: the estimate converges back into the threshold.
pub proof fn lemma_drift_converges(s: SlaveState, position: u64, now: u64, rate: u32)
    requires
        s.drift_samples > DRIFT_THRESHOLD_SAMPLES || s.drift_samples < -DRIFT_THRESHOLD_SAMPLES,
        -DRIFT_THRESHOLD_SAMPLES / 2 < drift_delta(s, position, now, rate)
            < DRIFT_THRESHOLD_SAMPLES / 2,
    ensures
        ({
            let u = updated_slave(s, position, now, rate);
            let c = corrected_slave(u);
            &&& s.drift_samples > 0 ==> 0 < c.drift_samples <= u.drift_samples < s.drift_samples
            &&& s.drift_samples < 0 ==> s.drift_samples < u.drift_samples <= c.drift_samples < 0
        }),
{
}

/// A slave after the reports `reports` (position, time), each followed by
/// its renderer taking the pending correction.
pub open spec fn after_reports(s: SlaveState, reports: Seq<(u64, u64)>, rate: u32) -> SlaveState
    decreases reports.len(),
{
    if reports.len() == 0 {
        s
    } else {
        let prev = after_reports(s, reports.drop_last(), rate);
        corrected_slave(updated_slave(prev, reports.last().0, reports.last().1, rate))
    }
}

/// Over a whole run of reports whose observed drift stays under half the
/// threshold, a slave that starts within the threshold stays within it
/// after every report, and is never corrected.
pub proof fn lemma_run_stays_within_threshold(s: SlaveState, reports: Seq<(u64, u64)>, rate: u32)
    requires
        -DRIFT_THRESHOLD_SAMPLES <= s.drift_samples <= DRIFT_THRESHOLD_SAMPLES,
        forall|i: int|
            0 <= i < reports.len() ==> -DRIFT_THRESHOLD_SAMPLES / 2 < #[trigger] drift_delta(
                after_reports(s, reports.take(i), rate),
                reports[i].0,
                reports[i].1,
                rate,
            ) < DRIFT_THRESHOLD_SAMPLES / 2,
    ensures
        -DRIFT_THRESHOLD_SAMPLES <= after_reports(s, reports, rate).drift_samples
            <= DRIFT_THRESHOLD_SAMPLES,
        after_reports(s, reports, rate).pending_correction == 0 || reports.len() == 0,
    decreases reports.len(),
{
    if reports.len() > 0 {
        let n = reports.len() - 1;
        let rest = reports.drop_last();
        assert forall|i: int| 0 <= i < rest.len() implies -DRIFT_THRESHOLD_SAMPLES / 2
            < #[trigger] drift_delta(after_reports(s, rest.take(i), rate), rest[i].0, rest[i].1, rate)
            < DRIFT_THRESHOLD_SAMPLES / 2 by {
            assert(rest.take(i) =~= reports.take(i));
            assert(rest[i] == reports[i]);
            assert(-DRIFT_THRESHOLD_SAMPLES / 2 < drift_delta(
                after_reports(s, reports.take(i), rate),
                reports[i].0,
                reports[i].1,
                rate,
            ) < DRIFT_THRESHOLD_SAMPLES / 2);
        }
        lemma_run_stays_within_threshold(s, rest, rate);
        assert(reports.take(n) =~= rest);
        let prev = after_reports(s, rest, rate);
        assert(-DRIFT_THRESHOLD_SAMPLES / 2 < drift_delta(prev, reports[n].0, reports[n].1, rate)
            < DRIFT_THRESHOLD_SAMPLES / 2);
        lemma_drift_stays_within_threshold(prev, reports.last().0, reports.last().1, rate);
    }
}

} // verus!
