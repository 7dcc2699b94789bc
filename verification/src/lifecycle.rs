//! The life of a run: idle, running, draining, stopped. The controller
//! decides from the clock and the stop flag what happens next; its caller
//! sleeps, samples, joins the workers and removes the backing file as told.

use vstd::prelude::*;
use crate::config::{clamped, resolve_sample_ms, SAMPLE_MS_MIN};

verus! {

/// Where a run stands.
#[derive(Clone, Copy, Debug, PartialEq, Eq, Structural)]
pub enum Phase {
    /// Not started yet.
    Idle,
    /// Sampling on every tick.
    Running,
    /// Stop was signalled; the workers are being joined.
    Draining,
    /// All workers have returned.
    Stopped,
}

/// What the caller is to do next.
#[derive(Clone, Copy, Debug, PartialEq, Eq, Structural)]
pub enum Action {
    /// Nothing.
    Nothing,
    /// Sleep for `wait_ms` milliseconds, then ask again.
    Wait { wait_ms: u64 },
    /// Sleep for `wait_ms` milliseconds, then take a sample and ask again.
    Sample { wait_ms: u64 },
    /// Set the workers' stop flag, join every worker, then report that they
    /// are joined.
    StopAndJoin,
    /// Delete the backing file; the run is over.
    RemoveBackingFile,
    /// The run is over.
    Finish,
}

/// The request to stop: set at most once, never cleared.
#[derive(Clone, Copy, Debug, PartialEq, Eq, Structural)]
pub struct StopFlag {
    set: bool,
}

impl StopFlag {
    /// Whether the stop was requested.
    pub closed spec fn raised(self) -> bool {
        self.set
    }

    /// The flag after a request to stop.
    pub closed spec fn requested(self) -> StopFlag {
        StopFlag { set: true }
    }

    /// A requested flag is raised, and a raised flag is not changed by
    /// another request.
    pub proof fn lemma_requested(self)
        ensures
            self.requested().raised(),
            self.raised() ==> self.requested() == self,
    {
    }

    /// A flag that is not raised.
    pub fn new() -> (f: Self)
        ensures
            !f.raised(),
    {
        StopFlag { set: false }
    }

    /// Requests the stop. Requesting it again changes nothing.
    pub fn request(&mut self)
        ensures
            *final(self) == old(self).requested(),
            final(self).raised(),
    {
        self.set = true;
    }

    /// Whether the stop was requested.
    pub fn is_set(&self) -> (b: bool)
        ensures
            b == self.raised(),
    {
        self.set
    }
}

/// The controller of one run. Times are milliseconds on the caller's clock.
#[derive(Clone, Copy, Debug, PartialEq, Eq)]
pub struct Lifecycle {
    /// Where the run stands.
    pub phase: Phase,
    /// The request to stop, from outside or from the duration.
    pub stop: StopFlag,
    /// Seconds after which the run ends by itself; zero for no limit.
    pub duration_s: u64,
    /// Milliseconds between two ticks.
    pub interval_ms: u64,
    /// When the run began.
    pub started_ms: u64,
    /// When the next tick is due.
    pub deadline_ms: u64,
    /// Whether a backing file is to be removed at the end.
    pub has_backing_file: bool,
}

/// Position of a phase in the order in which a run passes through them.
pub open spec fn phase_rank(p: Phase) -> int {
    match p {
        Phase::Idle => 0,
        Phase::Running => 1,
        Phase::Draining => 2,
        Phase::Stopped => 3,
    }
}

/// `a + b`, cut off at the largest `u64`.
pub open spec fn add_clipped(a: u64, b: u64) -> u64 {
    if a + b > u64::MAX {
        u64::MAX
    } else {
        (a + b) as u64
    }
}

/// `a - b`, or zero if `b` is the greater.
pub open spec fn sub_floor(a: u64, b: u64) -> u64 {
    if a >= b {
        (a - b) as u64
    } else {
        0
    }
}

/// Whether the run has used up its duration at time `now_ms`.
pub open spec fn expired(c: Lifecycle, now_ms: u64) -> bool {
    c.duration_s > 0 && sub_floor(now_ms, c.started_ms) / 1000 >= c.duration_s
}

/// When the duration is used up, on the caller's clock. Meaningful for a
/// limited run only.
pub open spec fn end_ms(c: Lifecycle) -> int {
    c.started_ms + c.duration_s * 1000
}

/// Whether the next tick is due only when the duration is used up, or
/// later: such a tick is not sampled any more.
pub open spec fn tick_beyond_end(c: Lifecycle) -> bool {
    c.duration_s > 0 && c.deadline_ms >= end_ms(c)
}

/// Milliseconds from `now_ms` to the end of the duration, cut off at the
/// largest `u64`.
pub open spec fn until_end(c: Lifecycle, now_ms: u64) -> u64 {
    if end_ms(c) - now_ms > u64::MAX {
        u64::MAX
    } else if end_ms(c) < now_ms {
        0
    } else {
        (end_ms(c) - now_ms) as u64
    }
}

/// The controller after the run is started at `now_ms`: running, first tick
/// due at once. A controller that is not idle is left as it is.
pub open spec fn started(c: Lifecycle, now_ms: u64, has_backing_file: bool) -> Lifecycle {
    if c.phase == Phase::Idle {
        Lifecycle {
            phase: Phase::Running,
            started_ms: now_ms,
            deadline_ms: now_ms,
            has_backing_file,
            ..c
        }
    } else {
        c
    }
}

/// The controller after a request to stop.
pub open spec fn stop_requested(c: Lifecycle) -> Lifecycle {
    Lifecycle { stop: c.stop.requested(), ..c }
}

/// The controller after it was asked at `now_ms` what to do, and what it
/// answered. While running: with the stop flag set or the duration used up
/// it turns to draining; if the next tick would fall on the end of the
/// duration or after it, it waits for that end without sampling; otherwise
/// it asks for a sample, and the next tick is due one interval after the
/// deadline before it, not after `now_ms`, so that a late tick does not
/// delay those that follow.
pub open spec fn polled(c: Lifecycle, now_ms: u64) -> (Lifecycle, Action) {
    match c.phase {
        Phase::Running => if c.stop.raised() || expired(c, now_ms) {
            (Lifecycle { phase: Phase::Draining, stop: c.stop.requested(), ..c }, Action::StopAndJoin)
        } else if tick_beyond_end(c) {
            (c, Action::Wait { wait_ms: until_end(c, now_ms) })
        } else {
            (
                Lifecycle { deadline_ms: add_clipped(c.deadline_ms, c.interval_ms), ..c },
                Action::Sample { wait_ms: sub_floor(c.deadline_ms, now_ms) },
            )
        },
        Phase::Draining => (c, Action::StopAndJoin),
        Phase::Idle => (c, Action::Nothing),
        Phase::Stopped => (c, Action::Finish),
    }
}

/// The controller after all workers have returned, and what is left to do.
/// Only a draining controller takes notice.
pub open spec fn joined(c: Lifecycle) -> (Lifecycle, Action) {
    if c.phase == Phase::Draining {
        (
            Lifecycle { phase: Phase::Stopped, ..c },
            if c.has_backing_file {
                Action::RemoveBackingFile
            } else {
                Action::Finish
            },
        )
    } else {
        (c, Action::Nothing)
    }
}

impl Lifecycle {
    /// An idle controller for a run of `duration_s` seconds (zero: until
    /// stopped) that samples every `interval_ms` milliseconds, or every
    /// `SAMPLE_MS_MIN` milliseconds if that is more, so that the loop never
    /// spins.
    pub fn new(duration_s: u64, interval_ms: u64) -> (c: Self)
        ensures
            c.phase == Phase::Idle,
            !c.stop.raised(),
            c.duration_s == duration_s,
            c.interval_ms == clamped(interval_ms as int, SAMPLE_MS_MIN as int, u64::MAX as int),
            c.interval_ms >= SAMPLE_MS_MIN,
            c.started_ms == 0,
            c.deadline_ms == 0,
            !c.has_backing_file,
    {
        Lifecycle {
            phase: Phase::Idle,
            stop: StopFlag::new(),
            duration_s,
            interval_ms: resolve_sample_ms(interval_ms),
            started_ms: 0,
            deadline_ms: 0,
            has_backing_file: false,
        }
    }

    /// Starts the run: the workers are spawned and the baselines taken.
    pub fn start(&mut self, now_ms: u64, has_backing_file: bool)
        ensures
            *final(self) == started(*old(self), now_ms, has_backing_file),
    {
        if self.phase == Phase::Idle {
            self.phase = Phase::Running;
            self.started_ms = now_ms;
            self.deadline_ms = now_ms;
            self.has_backing_file = has_backing_file;
        }
    }

    /// Takes note of a request to stop, from outside or from the duration.
    pub fn request_stop(&mut self)
        ensures
            *final(self) == stop_requested(*old(self)),
    {
        self.stop.request();
    }

    /// What to do at `now_ms`.
    pub fn poll(&mut self, now_ms: u64) -> (a: Action)
        ensures
            (*final(self), a) == polled(*old(self), now_ms),
    {
        match self.phase {
            Phase::Running => {
                let elapsed_s: u64 = now_ms.saturating_sub(self.started_ms) / 1000;
                let end: u128 = self.started_ms as u128 + self.duration_s as u128 * 1000;
                if self.stop.is_set() || (self.duration_s > 0 && elapsed_s >= self.duration_s) {
                    self.phase = Phase::Draining;
                    self.stop.request();
                    Action::StopAndJoin
                } else if self.duration_s > 0 && self.deadline_ms as u128 >= end {
                    let left: u128 = if end < now_ms as u128 {
                        0
                    } else {
                        end - now_ms as u128
                    };
                    Action::Wait {
                        wait_ms: if left > u64::MAX as u128 {
                            u64::MAX
                        } else {
                            left as u64
                        },
                    }
                } else {
                    let wait_ms: u64 = self.deadline_ms.saturating_sub(now_ms);
                    self.deadline_ms = self.deadline_ms.saturating_add(self.interval_ms);
                    Action::Sample { wait_ms }
                }
            },
            Phase::Draining => Action::StopAndJoin,
            Phase::Idle => Action::Nothing,
            Phase::Stopped => Action::Finish,
        }
    }

    /// Takes note that every worker has returned.
    pub fn workers_joined(&mut self) -> (a: Action)
        ensures
            (*final(self), a) == joined(*old(self)),
    {
        if self.phase == Phase::Draining {
            self.phase = Phase::Stopped;
            if self.has_backing_file {
                Action::RemoveBackingFile
            } else {
                Action::Finish
            }
        } else {
            Action::Nothing
        }
    }
}

/// Requesting the stop twice is the same as requesting it once, for the flag
/// and for the controller that holds it.
pub proof fn lemma_stop_idempotent(c: Lifecycle)
    ensures
        c.stop.requested().requested() == c.stop.requested(),
        stop_requested(stop_requested(c)) == stop_requested(c),
        forall|now_ms: u64|
            polled(stop_requested(stop_requested(c)), now_ms) == polled(stop_requested(c), now_ms),
{
}

/// The stop flag never reverts: once set it stays set whatever happens to
/// the controller.
pub proof fn lemma_stop_is_kept(c: Lifecycle, now_ms: u64, has_backing_file: bool)
    requires
        c.stop.raised(),
    ensures
        started(c, now_ms, has_backing_file).stop.raised(),
        stop_requested(c).stop.raised(),
        polled(c, now_ms).0.stop.raised(),
        joined(c).0.stop.raised(),
{
}

/// A running controller whose stop flag is set takes no further sample: the
/// next poll turns it to draining and asks for the workers to be stopped
/// and joined.
pub proof fn lemma_stop_ends_sampling(c: Lifecycle, now_ms: u64)
    requires
        c.phase == Phase::Running,
        c.stop.raised(),
    ensures
        polled(c, now_ms).0.phase == Phase::Draining,
        polled(c, now_ms).1 == Action::StopAndJoin,
{
}

/// A run never goes back to an earlier phase, and the backing file is
/// removed only once every worker has returned.
pub proof fn lemma_phases_in_order(c: Lifecycle, now_ms: u64, has_backing_file: bool)
    ensures
        phase_rank(started(c, now_ms, has_backing_file).phase) >= phase_rank(c.phase),
        phase_rank(stop_requested(c).phase) >= phase_rank(c.phase),
        phase_rank(polled(c, now_ms).0.phase) >= phase_rank(c.phase),
        phase_rank(joined(c).0.phase) >= phase_rank(c.phase),
        polled(c, now_ms).1 != Action::RemoveBackingFile,
        joined(c).1 == Action::RemoveBackingFile ==> c.phase == Phase::Draining && joined(
            c,
        ).0.phase == Phase::Stopped,
{
}

/// Ticks do not drift: after a sample the next deadline is one interval
/// after the previous deadline, however late the poll came.
pub proof fn lemma_deadline_ignores_lateness(c: Lifecycle, now_a: u64, now_b: u64)
    requires
        c.phase == Phase::Running,
        !c.stop.raised(),
        !expired(c, now_a),
        !expired(c, now_b),
        !tick_beyond_end(c),
    ensures
        polled(c, now_a).0.deadline_ms == polled(c, now_b).0.deadline_ms,
        polled(c, now_a).0.deadline_ms == add_clipped(c.deadline_ms, c.interval_ms),
{
}

/// No sample falls on the end of the duration or after it: when a sample
/// is asked for in a limited run, its tick is due before the end; and once
/// the clock has reached the end, the next poll of a running controller
/// turns it to draining.
pub proof fn lemma_no_sample_after_end(c: Lifecycle, now_ms: u64)
    requires
        c.phase == Phase::Running,
        c.duration_s > 0,
    ensures
        polled(c, now_ms).1 is Sample ==> c.deadline_ms < end_ms(c) && now_ms < end_ms(c),
        now_ms >= end_ms(c) ==> polled(c, now_ms).1 == Action::StopAndJoin,
        polled(c, now_ms).1 is Wait ==> now_ms + polled(c, now_ms).1->Wait_wait_ms == end_ms(c)
            || polled(c, now_ms).1->Wait_wait_ms == u64::MAX,
{
    if now_ms >= end_ms(c) {
        let e = sub_floor(now_ms, c.started_ms) as int;
        let d = c.duration_s as int;
        assert(e / 1000 >= d) by (nonlinear_arith)
            requires
                e >= d * 1000,
        ;
    } else {
        let e = sub_floor(now_ms, c.started_ms) as int;
        let d = c.duration_s as int;
        assert(e / 1000 < d) by (nonlinear_arith)
            requires
                0 <= e < d * 1000,
        ;
    }
}

/// The clock of a caller who does as told: after an answer that asks for a
/// sleep it has moved on by that sleep, otherwise it stands.
pub open spec fn clock_after(now_ms: u64, action: Action) -> u64 {
    match action {
        Action::Wait { wait_ms } => add_clipped(now_ms, wait_ms),
        Action::Sample { wait_ms } => add_clipped(now_ms, wait_ms),
        _ => now_ms,
    }
}

/// How many of the next `n` polls ask for a sample, when the caller does as
/// told and loses no time of its own.
pub open spec fn samples_taken(c: Lifecycle, now_ms: u64, n: nat) -> nat
    decreases n,
{
    if n == 0 {
        0
    } else {
        let (next, action) = polled(c, now_ms);
        (if action is Sample {
            1nat
        } else {
            0nat
        }) + samples_taken(next, clock_after(now_ms, action), (n - 1) as nat)
    }
}

/// How many ticks of a limited run are still due before its end: those at
/// the deadline and every interval after it, as long as they fall before
/// the end.
pub open spec fn ticks_left(c: Lifecycle) -> nat {
    if c.deadline_ms >= end_ms(c) {
        0
    } else {
        ((end_ms(c) - c.deadline_ms + c.interval_ms - 1) / (c.interval_ms as int)) as nat
    }
}

/// A controller that is draining or stopped asks for no more samples.
pub proof fn lemma_no_samples_once_draining(c: Lifecycle, now_ms: u64, n: nat)
    requires
        c.phase == Phase::Draining || c.phase == Phase::Stopped,
    ensures
        samples_taken(c, now_ms, n) == 0,
    decreases n,
{
    if n > 0 {
        lemma_no_samples_once_draining(c, now_ms, (n - 1) as nat);
    }
}

/// A limited run takes exactly the samples whose ticks fall before its end:
/// a caller who does as told gets, within any `n` polls, as many samples as
/// ticks were left, or `n` if that is less.
pub proof fn lemma_samples_of_a_limited_run(c: Lifecycle, now_ms: u64, n: nat)
    requires
        c.phase == Phase::Running,
        !c.stop.raised(),
        c.duration_s > 0,
        c.interval_ms > 0,
        c.started_ms <= now_ms <= c.deadline_ms,
        now_ms < end_ms(c),
        end_ms(c) + c.interval_ms <= u64::MAX,
    ensures
        samples_taken(c, now_ms, n) == if n <= ticks_left(c) {
            n
        } else {
            ticks_left(c)
        },
    decreases n,
{
    if n > 0 {
        let e = sub_floor(now_ms, c.started_ms) as int;
        let d = c.duration_s as int;
        assert(e / 1000 < d) by (nonlinear_arith)
            requires
                0 <= e < d * 1000,
        ;
        let (next, action) = polled(c, now_ms);
        let t = clock_after(now_ms, action);
        let i = c.interval_ms as int;
        let gap = end_ms(c) - c.deadline_ms;
        assert(samples_taken(c, now_ms, n) == (if action is Sample {
            1nat
        } else {
            0nat
        }) + samples_taken(next, t, (n - 1) as nat));
        if tick_beyond_end(c) {
            // The wait ends at the end of the duration; the poll after it drains.
            assert(t == end_ms(c));
            assert(ticks_left(c) == 0);
            if n > 1 {
                let e2 = sub_floor(t, c.started_ms) as int;
                assert(e2 / 1000 >= d) by (nonlinear_arith)
                    requires
                        e2 == d * 1000,
                ;
                let (after, drain) = polled(next, t);
                assert(drain == Action::StopAndJoin);
                assert(samples_taken(next, t, (n - 1) as nat) == samples_taken(
                    after,
                    t,
                    (n - 2) as nat,
                ));
                lemma_no_samples_once_draining(after, t, (n - 2) as nat);
            }
        } else {
            assert(t == c.deadline_ms);
            assert(ticks_left(c) >= 1) by (nonlinear_arith)
                requires
                    gap >= 1,
                    i >= 1,
                    ticks_left(c) == (gap + i - 1) / i,
            ;
            if next.deadline_ms >= end_ms(c) {
                assert(ticks_left(c) == 1) by (nonlinear_arith)
                    requires
                        1 <= gap <= i,
                        ticks_left(c) == (gap + i - 1) / i,
                ;
            } else {
                assert(ticks_left(next) == ticks_left(c) - 1) by (nonlinear_arith)
                    requires
                        gap > i,
                        i >= 1,
                        ticks_left(c) == (gap + i - 1) / i,
                        ticks_left(next) == (gap - i + i - 1) / i,
                ;
            }
            lemma_samples_of_a_limited_run(next, t, (n - 1) as nat);
        }
    }
}

/// A run of `duration_s` seconds that is sampled every `interval_ms`
/// milliseconds gives the duration divided by the interval, rounded up, in
/// samples: a caller who starts it and then does as told gets that many,
/// however often it polls beyond them.
pub proof fn lemma_samples_of_a_fresh_run(c: Lifecycle, now_ms: u64, n: nat)
    requires
        c.phase == Phase::Idle,
        !c.stop.raised(),
        c.duration_s > 0,
        c.interval_ms > 0,
        now_ms + c.duration_s * 1000 + c.interval_ms <= u64::MAX,
        n >= (c.duration_s * 1000 + c.interval_ms - 1) / (c.interval_ms as int),
    ensures
        samples_taken(started(c, now_ms, false), now_ms, n) == (c.duration_s * 1000
            + c.interval_ms - 1) / (c.interval_ms as int),
{
    let run = started(c, now_ms, false);
    assert(end_ms(run) - run.deadline_ms == c.duration_s * 1000);
    lemma_samples_of_a_limited_run(run, now_ms, n);
}

} // verus!
