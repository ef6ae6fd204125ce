//! Frequency pacing with drift correction.
//!
//! A runner paces its loop to a target frequency: after each cycle it
//! measures, on a monotonic clock, how long the cycle took, and sleeps the
//! remainder of the target interval. The sleep itself is an effect of the
//! embedding program; this module decides how long to sleep and accounts for
//! oversleeping. Overshoot accumulates as drift and is subtracted from future
//! sleeps, so the long-run average rate converges to the target. A frequency
//! of zero disables pacing entirely.
//!
//! All times are nanosecond readings of one monotonic clock, so pacing is
//! immune to system-time adjustments.

use vstd::prelude::*;

verus! {

/// One second in nanoseconds.
pub const NANOS_PER_SECOND: u64 = 1_000_000_000;

/// The target interval between cycle starts, in nanoseconds; zero both for an
/// unthrottled runner and for targets above one cycle per nanosecond.
pub open spec fn spec_target_interval_ns(frequency: u64) -> int {
    if frequency == 0 {
        0
    } else {
        NANOS_PER_SECOND as int / frequency as int
    }
}

/// The target interval between cycle starts, in nanoseconds.
pub fn target_interval_ns(frequency: u64) -> (r: u64)
    ensures
        r == spec_target_interval_ns(frequency),
{
    if frequency == 0 {
        0
    } else {
        NANOS_PER_SECOND / frequency
    }
}

/// Drift-corrected pacing state for one runner.
///
/// The protocol per cycle: run the servers, call [`ClockSync::sync`] with the
/// current time to learn how long to sleep, sleep at least that long, then
/// report the actual wake time with [`ClockSync::observe_wake`]; the wake
/// time is the start of the next cycle.
#[derive(Clone, Copy, Debug, PartialEq, Eq, Structural)]
pub struct ClockSync {
    /// When the current cycle started (the last observed wake), if a cycle
    /// has completed before.
    pub last_cycle_start: Option<u64>,
    /// The time the pending sleep was asked to last until; set by `sync`,
    /// cleared by `observe_wake`.
    pub pending_deadline: Option<u64>,
    /// Accumulated sleep overshoot, to be subtracted from future sleeps.
    pub drift: u64,
}

impl ClockSync {
    /// Fresh pacing state: no cycle measured yet, no drift.
    pub fn new() -> (r: ClockSync)
        ensures
            r == ClockSync::spec_new(),
    {
        ClockSync { last_cycle_start: None, pending_deadline: None, drift: 0 }
    }

    /// Fresh pacing state.
    pub open spec fn spec_new() -> ClockSync {
        ClockSync { last_cycle_start: None, pending_deadline: None, drift: 0 }
    }

    /// `sync` may be called: no sleep is pending, the clock has not gone
    /// backwards, and a full target interval still fits in the time type.
    pub open spec fn sync_ok(self, now: u64) -> bool {
        &&& self.pending_deadline is None
        &&& (self.last_cycle_start matches Some(t) ==> t <= now)
        &&& now + NANOS_PER_SECOND <= u64::MAX
    }

    /// State and commanded sleep of a `sync` at time `now`: sleep whatever
    /// remains of the target interval after the measured cycle, less any
    /// drift owed, and remember the deadline the sleep aims at.
    pub open spec fn spec_sync(self, now: u64, frequency: u64) -> (ClockSync, u64) {
        if frequency == 0 || self.last_cycle_start is None {
            (ClockSync { pending_deadline: Some(now), ..self }, 0u64)
        } else {
            let target = spec_target_interval_ns(frequency);
            let elapsed = now - self.last_cycle_start->Some_0;
            let owed: int = if elapsed < target {
                target - elapsed
            } else {
                0
            };
            let consumed: int = if self.drift < owed {
                self.drift as int
            } else {
                owed
            };
            let sleep: int = owed - consumed;
            (
                ClockSync {
                    last_cycle_start: self.last_cycle_start,
                    pending_deadline: Some((now + sleep) as u64),
                    drift: (self.drift - consumed) as u64,
                },
                sleep as u64,
            )
        }
    }

    /// Measure the cycle that ends at `now` and decide how long to sleep.
    /// The caller must sleep at least the returned number of nanoseconds,
    /// then report the actual wake time through `observe_wake`.
    pub fn sync(&mut self, now: u64, frequency: u64) -> (sleep: u64)
        requires
            old(self).sync_ok(now),
        ensures
            (*final(self), sleep) == old(self).spec_sync(now, frequency),
    {
        if frequency == 0 {
            self.pending_deadline = Some(now);
            return 0;
        }
        match self.last_cycle_start {
            None => {
                self.pending_deadline = Some(now);
                0
            },
            Some(t) => {
                let target: u64 = NANOS_PER_SECOND / frequency;
                let elapsed: u64 = now - t;
                let owed: u64 = if elapsed < target {
                    target - elapsed
                } else {
                    0
                };
                let consumed: u64 = if self.drift < owed {
                    self.drift
                } else {
                    owed
                };
                let sleep: u64 = owed - consumed;
                self.drift = self.drift - consumed;
                self.pending_deadline = Some(now + sleep);
                sleep
            },
        }
    }

    /// `observe_wake` may be called: a sleep is pending, the sleeper did not
    /// wake before its deadline, and the overshoot still fits in the drift
    /// counter.
    pub open spec fn wake_ok(self, woke: u64) -> bool {
        &&& self.pending_deadline matches Some(d) && d <= woke
        &&& self.drift + (woke - self.pending_deadline->Some_0) <= u64::MAX
    }

    /// State after the wake at `woke` is recorded: the overshoot beyond the
    /// deadline joins the drift, and `woke` starts the next cycle.
    pub open spec fn spec_observe(self, woke: u64) -> ClockSync {
        ClockSync {
            last_cycle_start: Some(woke),
            pending_deadline: None,
            drift: (self.drift + (woke - self.pending_deadline->Some_0)) as u64,
        }
    }

    /// Record when the sleep commanded by the last `sync` actually ended.
    pub fn observe_wake(&mut self, woke: u64)
        requires
            old(self).wake_ok(woke),
        ensures
            *final(self) == old(self).spec_observe(woke),
    {
        match self.pending_deadline {
            Some(d) => {
                self.drift = self.drift + (woke - d);
            },
            None => {
            },
        }
        self.last_cycle_start = Some(woke);
        self.pending_deadline = None;
    }

    /// One whole cycle seen from the pacing state: a `sync` at `now` followed
    /// by an `observe_wake` at `woke`.
    pub open spec fn spec_cycle(self, now: u64, woke: u64, frequency: u64) -> ClockSync {
        self.spec_sync(now, frequency).0.spec_observe(woke)
    }

    /// A cycle with measurements `now` and `woke` is well-formed: `sync` may
    /// run at `now`, and the wake is no earlier than the deadline `sync` set.
    pub open spec fn cycle_ok(self, now: u64, woke: u64, frequency: u64) -> bool {
        self.sync_ok(now) && self.spec_sync(now, frequency).0.wake_ok(woke)
    }
}

/// The pacing state after a run of cycles, each given as its `(now, woke)`
/// measurements in order.
pub open spec fn run_cycles(s: ClockSync, obs: Seq<(u64, u64)>, frequency: u64) -> ClockSync
    decreases obs.len(),
{
    if obs.len() == 0 {
        s
    } else {
        run_cycles(s.spec_cycle(obs[0].0, obs[0].1, frequency), obs.skip(1), frequency)
    }
}

/// Every cycle of the run is well-formed.
pub open spec fn cycles_ok(s: ClockSync, obs: Seq<(u64, u64)>, frequency: u64) -> bool
    decreases obs.len(),
{
    obs.len() == 0 || {
        &&& s.cycle_ok(obs[0].0, obs[0].1, frequency)
        &&& cycles_ok(s.spec_cycle(obs[0].0, obs[0].1, frequency), obs.skip(1), frequency)
    }
}

/// One paced cycle never lets the corrected schedule fall behind: the cycle
/// start advances by at least the target interval, up to drift already owed
/// and newly incurred.
proof fn lemma_cycle_preserves_rate(s: ClockSync, now: u64, woke: u64, frequency: u64)
    requires
        frequency > 0,
        s.last_cycle_start is Some,
        s.cycle_ok(now, woke, frequency),
    ensures
        s.spec_cycle(now, woke, frequency).last_cycle_start is Some,
        s.spec_cycle(now, woke, frequency).last_cycle_start->Some_0 as int - s.spec_cycle(
            now,
            woke,
            frequency,
        ).drift as int >= s.last_cycle_start->Some_0 as int - s.drift as int
            + spec_target_interval_ns(frequency),
{
}

/// Rate law of the frequency limiter: starting from a marked cycle with no
/// drift owed, any well-formed run of `n` paced cycles at a positive target
/// frequency spans at least `n` target intervals of wall-clock time — the
/// average cycle interval never falls below the target interval, no matter
/// how long each cycle's work took or how much every sleep overshot.
pub proof fn lemma_paced_run_rate(s: ClockSync, obs: Seq<(u64, u64)>, frequency: u64)
    requires
        frequency > 0,
        s.last_cycle_start is Some,
        s.pending_deadline is None,
        s.drift == 0,
        cycles_ok(s, obs, frequency),
    ensures
        run_cycles(s, obs, frequency).last_cycle_start is Some,
        run_cycles(s, obs, frequency).last_cycle_start->Some_0 as int
            >= s.last_cycle_start->Some_0 as int + obs.len() * spec_target_interval_ns(frequency),
    decreases obs.len(),
{
    lemma_paced_run_rate_with_debt(s, obs, frequency);
}

/// Rate law from an arbitrary start: any well-formed run of `n` paced cycles
/// spans at least `n` target intervals less the drift already owed when it
/// began. A pacing state that inherited accumulated overshoot is allowed to
/// run that much faster while it pays the debt back — which is why the
/// plain `n` target intervals of [`lemma_paced_run_rate`] ask for a
/// drift-free start.
pub proof fn lemma_paced_run_rate_with_debt(s: ClockSync, obs: Seq<(u64, u64)>, frequency: u64)
    requires
        frequency > 0,
        s.last_cycle_start is Some,
        s.pending_deadline is None,
        cycles_ok(s, obs, frequency),
    ensures
        run_cycles(s, obs, frequency).last_cycle_start is Some,
        run_cycles(s, obs, frequency).last_cycle_start->Some_0 as int - run_cycles(
            s,
            obs,
            frequency,
        ).drift as int >= s.last_cycle_start->Some_0 as int - s.drift as int + obs.len()
            * spec_target_interval_ns(frequency),
        run_cycles(s, obs, frequency).drift >= 0,
    decreases obs.len(),
{
    if obs.len() == 0 {
    } else {
        let s1 = s.spec_cycle(obs[0].0, obs[0].1, frequency);
        lemma_cycle_preserves_rate(s, obs[0].0, obs[0].1, frequency);
        lemma_paced_run_rate_with_debt(s1, obs.skip(1), frequency);
        assert(obs.skip(1).len() == obs.len() - 1);
        let target = spec_target_interval_ns(frequency);
        assert((obs.len() - 1) * target + target == obs.len() * target) by (nonlinear_arith);
    }
}

} // verus!
