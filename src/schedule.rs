//! Timing of periodic background jobs: a random start offset, then a
//! fixed period, and after a missed tick one immediate run rather than a
//! burst of runs.
//!
//! Times are milliseconds on the caller's monotonic clock.

use vstd::prelude::*;

verus! {

/// The first run of a job is delayed by less than this, and less than its
/// period.
pub const MAX_INITIAL_DELAY_MS: u64 = 60_000;

pub open spec fn spec_min(a: u64, b: u64) -> u64 {
    if a <= b {
        a
    } else {
        b
    }
}

/// The exclusive upper bound of a job's random start offset.
pub fn initial_delay_bound(period_ms: u64) -> (r: u64)
    ensures
        r == spec_min(period_ms, MAX_INITIAL_DELAY_MS),
{
    if period_ms <= MAX_INITIAL_DELAY_MS {
        period_ms
    } else {
        MAX_INITIAL_DELAY_MS
    }
}

/// Relies on `rand::Rng::random_range` over the thread-local generator: a
/// value drawn uniformly from `0..bound`; it panics on an empty range.
#[verifier::external_body]
fn random_below(bound: u64) -> (r: u64)
    requires
        bound > 0,
    ensures
        r < bound,
{
    rand::Rng::random_range(&mut rand::rng(), 0..bound)
}

/// A random start offset for a job with the given period, drawn uniformly
/// below `min(period, 60 s)`.
pub fn initial_delay(period_ms: u64) -> (r: u64)
    requires
        period_ms > 0,
    ensures
        r < spec_min(period_ms, MAX_INITIAL_DELAY_MS),
{
    random_below(initial_delay_bound(period_ms))
}

/// What the job's timer does when it is polled.
#[derive(Clone, Copy, Debug, PartialEq, Eq, Structural)]
pub enum Tick {
    /// Not yet due: sleep until the given time and poll again.
    Wait { until: u64 },
    /// Run the job now.
    Fire,
}

/// The timer of one periodic job.
#[derive(Clone, Copy, Debug, PartialEq, Eq, Structural)]
pub struct Schedule {
    pub period: u64,
    pub next_due: u64,
}

/// The due time that follows a run started at `now` for the due time `due`.
/// A run that starts on time keeps the period grid; a late one delays it, so
/// the next run is one period after the late start.
pub open spec fn due_after_run(due: u64, now: u64, period: u64) -> int {
    if now == due {
        due + period
    } else {
        now + period
    }
}

/// One poll at `now`: the schedule afterwards, and whether the job runs.
pub open spec fn step(s: Schedule, now: u64) -> (Schedule, bool) {
    if now < s.next_due {
        (s, false)
    } else {
        (Schedule { period: s.period, next_due: due_after_run(s.next_due, now, s.period) as u64 }, true)
    }
}

impl Schedule {
    pub open spec fn wf(&self) -> bool {
        self.period > 0
    }

    /// A schedule whose first run is `delay` after `now`.
    pub fn start(now: u64, period: u64, delay: u64) -> (r: Schedule)
        requires
            period > 0,
            now + delay <= u64::MAX,
        ensures
            r.wf(),
            r.period == period,
            r.next_due == now + delay,
    {
        Schedule { period, next_due: now + delay }
    }

    /// Polls the timer at `now`; a run moves the due time on by
    /// `due_after_run`.
    pub fn poll(&mut self, now: u64) -> (r: Tick)
        requires
            old(self).wf(),
            now + old(self).period <= u64::MAX,
        ensures
            final(self).wf(),
            (*final(self), r == Tick::Fire) == step(*old(self), now),
            r == Tick::Fire || r == (Tick::Wait { until: old(self).next_due }),
    {
        if now < self.next_due {
            Tick::Wait { until: self.next_due }
        } else {
            if now == self.next_due {
                self.next_due = self.next_due + self.period;
            } else {
                self.next_due = now + self.period;
            }
            Tick::Fire
        }
    }
}

/// Runs that start on time keep the grid: the next run is due exactly one
/// period after the previous due time.
pub proof fn lemma_on_time_runs_are_one_period_apart(s: Schedule, now: u64)
    requires
        s.wf(),
        now == s.next_due,
        now + s.period <= u64::MAX,
    ensures
        step(s, now).1,
        step(s, now).0.next_due == s.next_due + s.period,
{
}

/// A missed tick causes one immediate run and no more: the late run happens
/// at once, and after it nothing is due before `now + period`; the runs that
/// follow are whole periods after the late one.
pub proof fn lemma_overrun_catches_up_once(s: Schedule, now: u64, later: u64)
    requires
        s.wf(),
        now > s.next_due,
        now + s.period <= u64::MAX,
        now <= later < now + s.period,
    ensures
        step(s, now).1,
        step(s, now).0.next_due == now + s.period,
        !step(step(s, now).0, later).1,
{
}

/// However late a poll comes, it runs the job at most once: a second poll at
/// the same instant waits.
pub proof fn lemma_no_burst(s: Schedule, now: u64)
    requires
        s.wf(),
        now + s.period <= u64::MAX,
    ensures
        !step(step(s, now).0, now).1,
{
}

} // verus!
