//! When poll rounds start.
//!
//! Rounds are due on the boundaries of the poll interval, counted from when the
//! schedule was made. A round starts on the first tick at or after a boundary and
//! at most one round is in flight; boundaries passed while waiting are not made up.
use vstd::prelude::*;
use vstd::arithmetic::div_mod::{
    lemma_fundamental_div_mod,
    lemma_mod_add_multiples_vanish,
    lemma_mod_pos_bound,
    lemma_small_mod,
};

verus! {

/// Times are milliseconds on a clock that does not go backwards.
#[derive(Clone, Copy, Debug, PartialEq, Eq, Structural)]
pub struct PollSchedule {
    /// The poll interval.
    pub interval_ms: u64,
    /// The boundary that the last round started on (or the start of the schedule).
    pub anchor_ms: u64,
    /// A round has started and its results are not in yet.
    pub in_flight: bool,
}

/// The interval boundary at or below `now`, counted from `anchor` in steps of `interval`.
pub open spec fn boundary_at(anchor: u64, interval: u64, now: u64) -> u64 {
    if interval == 0 {
        now
    } else {
        (now - (now - anchor) % (interval as int)) as u64
    }
}

impl PollSchedule {
    /// Time since the last round's boundary; zero for a time before it.
    pub open spec fn spec_elapsed(self, now: u64) -> u64 {
        if now >= self.anchor_ms {
            (now - self.anchor_ms) as u64
        } else {
            0
        }
    }

    /// A new round may start at `now`.
    pub open spec fn spec_due(self, now: u64) -> bool {
        !self.in_flight && self.spec_elapsed(now) >= self.interval_ms
    }

    pub open spec fn spec_remaining(self, now: u64) -> u64 {
        if self.spec_elapsed(now) >= self.interval_ms {
            0
        } else {
            (self.interval_ms - self.spec_elapsed(now)) as u64
        }
    }

    /// The schedule after a round starts at `now`.
    pub open spec fn started_at(self, now: u64) -> PollSchedule {
        PollSchedule {
            anchor_ms: boundary_at(self.anchor_ms, self.interval_ms, now),
            in_flight: true,
            ..self
        }
    }

    /// A schedule with the given interval whose first round is due one interval after `now_ms`.
    pub fn new(interval_ms: u64, now_ms: u64) -> (r: PollSchedule)
        ensures
            r == (PollSchedule { interval_ms, anchor_ms: now_ms, in_flight: false }),
    {
        PollSchedule { interval_ms, anchor_ms: now_ms, in_flight: false }
    }

    /// How long the loop may wait for input before a round is due:
    /// the interval less the time elapsed since the last round's boundary, floored at zero.
    pub fn remaining_ms(&self, now_ms: u64) -> (r: u64)
        ensures
            r == self.spec_remaining(now_ms),
            r <= self.interval_ms,
    {
        let elapsed: u64 = if now_ms >= self.anchor_ms {
            now_ms - self.anchor_ms
        } else {
            0
        };
        if elapsed >= self.interval_ms {
            0
        } else {
            self.interval_ms - elapsed
        }
    }

    pub fn is_due(&self, now_ms: u64) -> (r: bool)
        ensures
            r == self.spec_due(now_ms),
    {
        let elapsed: u64 = if now_ms >= self.anchor_ms {
            now_ms - self.anchor_ms
        } else {
            0
        };
        !self.in_flight && elapsed >= self.interval_ms
    }

    /// Starts a round at `now_ms` if one is due, and says whether it did.
    pub fn try_start(&mut self, now_ms: u64) -> (started: bool)
        ensures
            started == old(self).spec_due(now_ms),
            started ==> *final(self) == old(self).started_at(now_ms),
            !started ==> *final(self) == *old(self),
    {
        if !self.is_due(now_ms) {
            return false;
        }
        if self.interval_ms == 0 {
            self.anchor_ms = now_ms;
        } else {
            let since: u64 = now_ms - self.anchor_ms;
            proof {
                lemma_mod_below(since as int, self.interval_ms as int);
            }
            self.anchor_ms = now_ms - since % self.interval_ms;
        }
        self.in_flight = true;
        true
    }

    /// The round in flight has delivered its results.
    pub fn finish_round(&mut self)
        ensures
            *final(self) == (PollSchedule { in_flight: false, ..*old(self) }),
    {
        self.in_flight = false;
    }
}

proof fn lemma_mod_below(x: int, m: int)
    requires
        0 <= x,
        0 < m,
    ensures
        0 <= x % m <= x,
{
    lemma_fundamental_div_mod(x, m);
    lemma_mod_pos_bound(x, m);
    assert(x / m >= 0) by {
        vstd::arithmetic::div_mod::lemma_div_pos_is_pos(x, m);
    }
    assert(m * (x / m) >= 0) by (nonlinear_arith)
        requires
            m > 0,
            x / m >= 0,
    ;
}

/// The schedule after ticks at each of `times`, where every round that starts
/// delivers its results before the next tick, and how many rounds started.
pub open spec fn run_ticks(s: PollSchedule, times: Seq<u64>) -> (PollSchedule, nat)
    decreases times.len(),
{
    if times.len() == 0 {
        (s, 0)
    } else {
        let (before, count) = run_ticks(s, times.drop_last());
        if before.spec_due(times.last()) {
            (PollSchedule { in_flight: false, ..before.started_at(times.last()) }, count + 1)
        } else {
            (before, count)
        }
    }
}

pub open spec fn latest_time(times: Seq<u64>) -> u64 {
    if times.len() == 0 {
        0
    } else {
        times.last()
    }
}

/// Time advances from zero without going back and by less than one interval per tick.
pub open spec fn ticks_finer_than(interval: u64, times: Seq<u64>) -> bool {
    &&& (times.len() > 0 ==> times[0] < interval)
    &&& forall|j: int|
        0 <= j < times.len() - 1 ==> #[trigger] times[j] <= times[j + 1] < times[j] + interval
}

proof fn lemma_next_boundary(i: int, t: int, t2: int)
    requires
        i > 0,
        0 <= t <= t2 < t + i,
    ensures
        0 <= (t / i) * i <= t,
        0 <= (t2 / i) * i <= t2,
        t2 - (t / i) * i >= i ==> t2 / i == t / i + 1 && t2 - (t2 - (t / i) * i) % i == (t2 / i)
            * i,
        t2 - (t / i) * i < i ==> t2 / i == t / i,
{
    lemma_fundamental_div_mod(t, i);
    lemma_fundamental_div_mod(t2, i);
    lemma_mod_pos_bound(t, i);
    lemma_mod_pos_bound(t2, i);
    let q = t / i;
    let q2 = t2 / i;
    let r2 = t2 % i;
    assert(0 <= q <= q2 <= q + 1 && 0 <= q * i <= t && 0 <= q2 * i <= t2 && (q2 == q + 1 ==> t2 - q * i == i + r2) && (q2 == q
        ==> t2 - q * i == r2)) by (nonlinear_arith)
        requires
            t == i * q + t % i,
            t2 == i * q2 + r2,
            0 <= t,
            0 <= t % i < i,
            0 <= r2 < i,
            t <= t2 < t + i,
            i > 0,
    ;
    if q2 == q + 1 {
        lemma_mod_add_multiples_vanish(r2, i);
        lemma_small_mod(r2 as nat, i as nat);
        assert(t2 - r2 == q2 * i) by (nonlinear_arith)
            requires
                t2 == i * q2 + r2,
        ;
    }
}

proof fn lemma_run_ticks_tracks(interval: u64, times: Seq<u64>)
    requires
        interval > 0,
        ticks_finer_than(interval, times),
    ensures
        run_ticks(PollSchedule { interval_ms: interval, anchor_ms: 0, in_flight: false }, times).0
            == (PollSchedule {
            interval_ms: interval,
            anchor_ms: ((latest_time(times) / interval) * interval) as u64,
            in_flight: false,
        }),
        run_ticks(PollSchedule { interval_ms: interval, anchor_ms: 0, in_flight: false }, times).1
            == latest_time(times) / interval,
    decreases times.len(),
{
    if times.len() > 0 {
        let prefix = times.drop_last();
        assert(ticks_finer_than(interval, prefix)) by {
            assert forall|j: int| 0 <= j < prefix.len() - 1 implies #[trigger] prefix[j] <= prefix[j
                + 1] < prefix[j] + interval by {
                assert(prefix[j] == times[j] && prefix[j + 1] == times[j + 1]);
            }
        }
        lemma_run_ticks_tracks(interval, prefix);
        let t = latest_time(prefix) as int;
        let t2 = times.last() as int;
        if prefix.len() > 0 {
            assert(times[times.len() - 2] <= times[times.len() - 1]);
        }
        assert(t <= t2 < t + interval);
        lemma_next_boundary(interval as int, t, t2);
        let before = run_ticks(
            PollSchedule { interval_ms: interval, anchor_ms: 0, in_flight: false },
            prefix,
        ).0;
        assert(before.anchor_ms as int == (t / interval as int) * interval);
        if before.spec_due(times.last()) {
            assert(boundary_at(before.anchor_ms, interval, times.last()) as int == (t2
                / interval as int) * interval);
        } else {
            assert(t2 / interval as int == t / interval as int);
        }
    } else {
        assert(latest_time(times) / interval == 0) by {
            vstd::arithmetic::div_mod::lemma_div_of0(interval as int);
        }
    }
}

/// Ticking from time zero in steps smaller than the poll interval, with each round
/// done before the next tick, starts exactly as many rounds as whole intervals have
/// elapsed by the last tick.
pub proof fn lemma_rounds_match_elapsed_intervals(interval: u64, times: Seq<u64>)
    requires
        interval > 0,
        ticks_finer_than(interval, times),
    ensures
        run_ticks(PollSchedule { interval_ms: interval, anchor_ms: 0, in_flight: false }, times).1
            == latest_time(times) / interval,
{
    lemma_run_ticks_tracks(interval, times);
}

} // verus!
