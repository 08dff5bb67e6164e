//! MIDI clock generator: 24 pulses per quarter note on a drift-compensated
//! schedule.
//!
//! Time is given by the caller as nanoseconds on a monotonic clock; tempo is
//! in thousandths of a beat per minute.
use vstd::prelude::*;

use crate::types::{clamp_spec, Bpm, ClockState};

verus! {

/// What a clock generator holds.
#[derive(Debug, Clone, Copy, PartialEq, Eq, Structural)]
pub struct ClockModel {
    pub bpm: u64,
    pub running: bool,
    pub last_tick: Option<u64>,
}

/// Nanoseconds between two pulses at `bpm` thousandths of a beat per minute.
pub open spec fn interval_ns(bpm: u64) -> u64 {
    if bpm == 0 {
        0
    } else {
        (60_000_000_000_000int / (24 * bpm as int)) as u64
    }
}

/// A tempo within the range that a clock runs at.
pub open spec fn bpm_in_range(bpm: u64) -> bool {
    Bpm::MIN <= bpm <= Bpm::MAX
}

/// The observable part of a clock.
pub open spec fn state_of(c: ClockModel) -> ClockState {
    ClockState { bpm: c.bpm, running: c.running }
}

/// The clock after `set_bpm(bpm)`.
pub open spec fn with_bpm(c: ClockModel, bpm: u64) -> ClockModel {
    ClockModel { bpm: clamp_spec(bpm, Bpm::MIN, Bpm::MAX), ..c }
}

/// The clock after `start()`: running on a fresh schedule.
pub open spec fn started(c: ClockModel) -> ClockModel {
    ClockModel { running: true, last_tick: None, ..c }
}

/// The clock after `continue_playback()`: running on the schedule it had.
pub open spec fn continued(c: ClockModel) -> ClockModel {
    ClockModel { running: true, ..c }
}

/// The clock after `stop()`.
pub open spec fn stopped(c: ClockModel) -> ClockModel {
    ClockModel { running: false, ..c }
}

/// One poll of the clock at time `now`: the next state, and whether a pulse
/// is due.
///
/// The first poll of a fresh schedule pulses at once. Later polls pulse when
/// a whole interval has passed since the last scheduled pulse; the schedule
/// then moves on by one interval, or to `now` when it has fallen more than
/// one interval behind.
pub open spec fn tick_step(c: ClockModel, now: u64) -> (ClockModel, bool) {
    if !c.running {
        (c, false)
    } else {
        match c.last_tick {
            None => (ClockModel { last_tick: Some(now), ..c }, true),
            Some(last) => {
                let dt = interval_ns(c.bpm);
                if now >= last && now - last >= dt {
                    let next = (last + dt) as u64;
                    let moved = if now - next > dt {
                        now
                    } else {
                        next
                    };
                    (ClockModel { last_tick: Some(moved), ..c }, true)
                } else {
                    (c, false)
                }
            },
        }
    }
}

/// After `start()` the next poll pulses at once and opens a fresh schedule
/// at that time; `continue_playback()` keeps the schedule, so the next poll
/// behaves as it would have on a running clock.
pub proof fn lemma_start_resets_continue_keeps(c: ClockModel, now: u64)
    ensures
        tick_step(started(c), now) == (ClockModel { running: true, last_tick: Some(now), ..c }, true),
        continued(c).last_tick == c.last_tick,
        tick_step(continued(c), now) == tick_step(ClockModel { running: true, ..c }, now),
{
}

/// Polls at the times of `ts`, in order: the clock after them and the
/// number of pulses.
pub open spec fn run_polls(c: ClockModel, ts: Seq<u64>) -> (ClockModel, nat)
    decreases ts.len(),
{
    if ts.len() == 0 {
        (c, 0)
    } else {
        let (c1, n) = run_polls(c, ts.drop_last());
        let (c2, pulse) = tick_step(c1, ts.last());
        (c2, if pulse {
            n + 1
        } else {
            n
        })
    }
}

/// Times that never go back.
pub open spec fn nondecreasing(ts: Seq<u64>) -> bool {
    forall|i: int, j: int| 0 <= i <= j < ts.len() ==> ts[i] <= ts[j]
}

/// Times with no gap wider than `g` between neighbours.
pub open spec fn gaps_at_most(ts: Seq<u64>, g: u64) -> bool {
    forall|i: int| 0 < i < ts.len() ==> ts[i] - #[trigger] ts[i - 1] <= g
}

proof fn lemma_interval_positive(bpm: u64)
    requires
        bpm_in_range(bpm),
    ensures
        interval_ns(bpm) > 0,
{
    assert(60_000_000_000_000int / (24 * bpm as int) > 0) by (nonlinear_arith)
        requires
            20_000 <= bpm <= 300_000,
    ;
}

/// What holds after the first `k` polls of a run that starts on a fresh
/// schedule.
proof fn lemma_polls_invariant(c: ClockModel, ts: Seq<u64>, k: int)
    requires
        bpm_in_range(c.bpm),
        c.running,
        c.last_tick is None,
        nondecreasing(ts),
        1 <= k <= ts.len(),
    ensures
        ({
            let (ck, n) = run_polls(c, ts.take(k));
            let dt = interval_ns(c.bpm) as int;
            &&& ck.running
            &&& ck.bpm == c.bpm
            &&& n >= 1
            &&& ck.last_tick matches Some(l) && {
                &&& ts[0] + (n - 1) * dt <= l <= ts[k - 1]
                &&& gaps_at_most(ts, interval_ns(c.bpm)) ==> l == ts[0] + (n - 1) * dt && ts[k - 1]
                    - l <= dt
            }
        }),
    decreases k,
{
    let dt = interval_ns(c.bpm) as int;
    lemma_interval_positive(c.bpm);
    assert(ts.take(k).drop_last() =~= ts.take(k - 1));
    assert(ts.take(k).last() == ts[k - 1]);
    if k == 1 {
        assert(ts.take(0) =~= Seq::<u64>::empty());
    } else {
        lemma_polls_invariant(c, ts, k - 1);
        let (cp, n) = run_polls(c, ts.take(k - 1));
        let l = cp.last_tick->Some_0;
        let t = ts[k - 1];
        assert(ts[k - 2] <= t);
        assert((n + 1 - 1) * dt == (n - 1) * dt + dt) by (nonlinear_arith);
        if gaps_at_most(ts, interval_ns(c.bpm)) {
            assert(t - ts[(k - 1) - 1] <= dt);
        }
    }
}

/// Pulse count over a run of polls that starts right after `start()`, at
/// times that never go back: with `dt` the interval and `span` the time from
/// the first poll to the last, the `n` pulses satisfy `(n - 1) * dt <= span`,
/// and, when no two neighbouring polls are more than `dt` apart, also
/// `span <= n * dt`; so `n` is within one of `span / dt`.
pub proof fn lemma_pulse_count(c: ClockModel, ts: Seq<u64>)
    requires
        bpm_in_range(c.bpm),
        c.running,
        c.last_tick is None,
        ts.len() > 0,
        nondecreasing(ts),
    ensures
        ({
            let n = run_polls(c, ts).1;
            let dt = interval_ns(c.bpm) as int;
            let span = ts.last() - ts[0];
            &&& dt > 0
            &&& n >= 1
            &&& (n - 1) * dt <= span
            &&& gaps_at_most(ts, interval_ns(c.bpm)) ==> span <= n * dt
        }),
{
    lemma_interval_positive(c.bpm);
    lemma_polls_invariant(c, ts, ts.len() as int);
    assert(ts.take(ts.len() as int) =~= ts);
    let n = run_polls(c, ts).1;
    let dt = interval_ns(c.bpm) as int;
    assert((n - 1) * dt + dt == n * dt) by (nonlinear_arith);
}

/// MIDI clock generator.
pub struct ClockGenerator {
    bpm: u64,
    running: bool,
    last_tick: Option<u64>,
}

impl View for ClockGenerator {
    type V = ClockModel;

    closed spec fn view(&self) -> ClockModel {
        ClockModel { bpm: self.bpm, running: self.running, last_tick: self.last_tick }
    }
}

impl ClockGenerator {
    pub const PULSES_PER_QUARTER_NOTE: u64 = 24;

    #[verifier::type_invariant]
    closed spec fn inv(self) -> bool {
        bpm_in_range(self.bpm)
    }

    /// A stopped clock at `bpm`, clamped into the range.
    pub fn new(bpm: u64) -> (r: ClockGenerator)
        ensures
            r@ == (ClockModel {
                bpm: clamp_spec(bpm, Bpm::MIN, Bpm::MAX),
                running: false,
                last_tick: None,
            }),
    {
        ClockGenerator { bpm: Bpm::clamped(bpm).value(), running: false, last_tick: None }
    }

    /// Set the tempo, clamped into the range; the schedule goes on.
    pub fn set_bpm(&mut self, bpm: u64)
        ensures
            final(self)@ == with_bpm(old(self)@, bpm),
    {
        proof {
            use_type_invariant(&*self);
        }
        self.bpm = Bpm::clamped(bpm).value();
    }

    pub fn bpm(&self) -> (r: u64)
        ensures
            r == self@.bpm,
            bpm_in_range(r),
    {
        proof {
            use_type_invariant(self);
        }
        self.bpm
    }

    pub fn is_running(&self) -> (r: bool)
        ensures
            r == self@.running,
    {
        self.running
    }

    /// The observable state: tempo and whether the clock runs.
    pub fn state(&self) -> (r: ClockState)
        ensures
            r == state_of(self@),
    {
        ClockState { bpm: self.bpm, running: self.running }
    }

    /// Start the clock on a fresh schedule: the next poll pulses at once.
    pub fn start(&mut self)
        ensures
            final(self)@ == started(old(self)@),
    {
        proof {
            use_type_invariant(&*self);
        }
        self.running = true;
        self.last_tick = None;
    }

    /// Resume the clock on the schedule that it had.
    pub fn continue_playback(&mut self)
        ensures
            final(self)@ == continued(old(self)@),
    {
        proof {
            use_type_invariant(&*self);
        }
        self.running = true;
    }

    /// Stop the clock.
    pub fn stop(&mut self)
        ensures
            final(self)@ == stopped(old(self)@),
    {
        proof {
            use_type_invariant(&*self);
        }
        self.running = false;
    }

    /// Nanoseconds between two pulses at the current tempo.
    fn clock_interval(&self) -> (r: u64)
        ensures
            r == interval_ns(self@.bpm),
            r > 0,
    {
        proof {
            use_type_invariant(self);
        }
        let r = 60_000_000_000_000u64 / (Self::PULSES_PER_QUARTER_NOTE * self.bpm);
        assert(r > 0) by (nonlinear_arith)
            requires
                r == 60_000_000_000_000int / (24 * self.bpm as int),
                self.bpm <= 300_000,
                self.bpm > 0,
        ;
        r
    }

    /// Poll the clock at time `now` (nanoseconds): whether a pulse is due.
    pub fn should_tick(&mut self, now: u64) -> (r: bool)
        ensures
            (final(self)@, r) == tick_step(old(self)@, now),
    {
        proof {
            use_type_invariant(&*self);
        }
        if !self.running {
            return false;
        }
        let interval = self.clock_interval();
        match self.last_tick {
            None => {
                self.last_tick = Some(now);
                true
            },
            Some(last) => {
                if now >= last && now - last >= interval {
                    let next = last + interval;
                    if now - next > interval {
                        self.last_tick = Some(now);
                    } else {
                        self.last_tick = Some(next);
                    }
                    true
                } else {
                    false
                }
            },
        }
    }
}

} // verus!
