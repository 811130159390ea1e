//! The scheduler: when the next sweep is due.
//!
//! A schedule is a value. The caller owns the clock and the waiting: it polls
//! the schedule with the current time, and either runs a sweep or sleeps for
//! the time it is told. The first sweep is due one full period after the
//! start, never at the start itself. Due times lie one period apart; where a
//! sweep ran long, or the caller polled late, the due times that were missed
//! are skipped, so that sweeps never pile up. Times are readings of one clock
//! in whatever unit it counts; a due time past the clock's last reading is
//! held at that reading.

use vstd::arithmetic::div_mod::{
    lemma_div_is_ordered, lemma_div_plus_one, lemma_fundamental_div_mod, lemma_mod_decreases,
    lemma_mod_multiples_vanish, lemma_mod_self_0,
};
use vstd::prelude::*;

verus! {

/// When sweeps are due.
pub struct Schedule {
    origin: u64,
    period: u64,
    next_due: u64,
}

pub struct ScheduleView {
    /// When the schedule was started.
    pub origin: u64,
    /// The time from one due time to the next.
    pub period: u64,
    /// When the next sweep is due.
    pub next_due: u64,
}

/// What the caller is to do after a poll.
#[derive(Clone, Copy, Debug, PartialEq, Eq, Structural)]
pub enum Wake {
    /// Run a sweep now, then poll again.
    Sweep,
    /// Sleep for this long, then poll again.
    Sleep(u64),
}

/// The due time that follows a sweep at `now`: the first after `now` among
/// those that lie whole periods after `due`.
pub open spec fn next_due_after(due: int, period: int, now: int) -> int {
    now + period - (now - due) % period
}

/// How many due times up to `horizon` there are from `due` on, one period
/// apart.
pub open spec fn ticks_by(due: int, period: int, horizon: int) -> int {
    if horizon < due {
        0
    } else {
        (horizon - due) / period + 1
    }
}

impl ScheduleView {
    /// Whether this is a schedule that was started and polled: the period is
    /// not zero, and the next due time lies a whole number of periods after
    /// the start, or is held at the clock's last reading.
    pub open spec fn wf(self) -> bool {
        &&& self.period > 0
        &&& self.origin <= self.next_due
        &&& self.next_due == u64::MAX || {
            &&& self.origin < self.next_due
            &&& (self.next_due - self.origin) % (self.period as int) == 0
        }
    }

    /// The schedule that was started at `now`.
    pub open spec fn started(period: u64, now: u64) -> ScheduleView {
        ScheduleView {
            origin: now,
            period,
            next_due: if now + period > u64::MAX {
                u64::MAX
            } else {
                (now + period) as u64
            },
        }
    }

    /// Whether a sweep is due at `now`.
    pub open spec fn due(self, now: u64) -> bool {
        self.next_due <= now
    }

    /// What a poll at `now` tells the caller.
    pub open spec fn wake(self, now: u64) -> Wake {
        if self.due(now) {
            Wake::Sweep
        } else {
            Wake::Sleep((self.next_due - now) as u64)
        }
    }

    /// The schedule after a poll at `now`.
    pub open spec fn polled(self, now: u64) -> ScheduleView {
        if self.due(now) {
            let next = next_due_after(self.next_due as int, self.period as int, now as int);
            ScheduleView {
                origin: self.origin,
                period: self.period,
                next_due: if next > u64::MAX {
                    u64::MAX
                } else {
                    next as u64
                },
            }
        } else {
            self
        }
    }

    /// How many sweeps polls at these times start, one poll after the other.
    pub open spec fn sweeps(self, times: Seq<u64>) -> nat
        decreases times.len(),
    {
        if times.len() == 0 {
            0
        } else {
            self.polled(times[0]).sweeps(times.drop_first()) + if self.due(times[0]) {
                1nat
            } else {
                0nat
            }
        }
    }
}

impl View for Schedule {
    type V = ScheduleView;

    closed spec fn view(&self) -> ScheduleView {
        ScheduleView { origin: self.origin, period: self.period, next_due: self.next_due }
    }
}

/// A sweep moves the due time on by at least one period, past the time of
/// the sweep and by no more than one period past it, and keeps it a whole
/// number of periods after the start.
pub proof fn lemma_polled_due(schedule: ScheduleView, now: u64)
    requires
        schedule.wf(),
        schedule.due(now),
    ensures
        schedule.polled(now).wf(),
        schedule.polled(now).next_due == u64::MAX || {
            &&& now < schedule.polled(now).next_due <= now + schedule.period
            &&& schedule.next_due + schedule.period <= schedule.polled(now).next_due
        },
{
    let p = schedule.period as int;
    let x = now - schedule.next_due;
    let q = x / p;
    let r = x % p;
    let next = next_due_after(schedule.next_due as int, p, now as int);
    lemma_fundamental_div_mod(x, p);
    lemma_mod_decreases(x as nat, p as nat);
    assert(0 <= r < p) by (nonlinear_arith)
        requires
            r == x % p,
            p > 0,
    ;
    assert(p * (q + 1) == p * q + p) by (nonlinear_arith);
    assert(next - schedule.origin == p * (q + 1) + (schedule.next_due - schedule.origin));
    if next <= u64::MAX {
        assert(schedule.next_due < u64::MAX);
        lemma_mod_multiples_vanish(q + 1, schedule.next_due - schedule.origin, p);
    }
}

/// A poll at the due time itself starts a sweep, and makes the next one due
/// exactly one period later.
pub proof fn lemma_polled_on_time(schedule: ScheduleView)
    requires
        schedule.wf(),
        schedule.next_due + schedule.period <= u64::MAX,
    ensures
        schedule.wake(schedule.next_due) == Wake::Sweep,
        schedule.polled(schedule.next_due).next_due == schedule.next_due + schedule.period,
{
    assert(0int % (schedule.period as int) == 0) by (nonlinear_arith)
        requires
            schedule.period > 0,
    ;
}

/// No schedule starts more sweeps up to a time than there are due times up
/// to it, however often and whenever it is polled.
pub proof fn lemma_sweeps_bounded(schedule: ScheduleView, times: Seq<u64>, horizon: u64)
    requires
        schedule.wf(),
        horizon < u64::MAX,
        forall|i: int| 0 <= i < times.len() ==> times[i] <= horizon,
    ensures
        schedule.sweeps(times) <= ticks_by(
            schedule.next_due as int,
            schedule.period as int,
            horizon as int,
        ),
    decreases times.len(),
{
    let p = schedule.period as int;
    let due = schedule.next_due as int;
    if horizon >= due {
        assert((horizon - due) / p >= 0) by (nonlinear_arith)
            requires
                horizon - due >= 0,
                p > 0,
        ;
    }
    if times.len() > 0 {
        let now = times[0];
        let after = schedule.polled(now);
        assert forall|i: int| 0 <= i < times.drop_first().len() implies times.drop_first()[i]
            <= horizon by {
            assert(times.drop_first()[i] == times[i + 1]);
        }
        if schedule.due(now) {
            lemma_polled_due(schedule, now);
            lemma_sweeps_bounded(after, times.drop_first(), horizon);
            let next = after.next_due as int;
            if horizon >= next {
                lemma_div_plus_one(horizon - next, p);
                lemma_div_is_ordered(p + (horizon - next), horizon - due, p);
            }
        } else {
            lemma_sweeps_bounded(after, times.drop_first(), horizon);
        }
    }
}

impl Schedule {
    /// Whether this is a schedule that was started and polled. Every
    /// schedule that this module hands out is.
    pub open spec fn wf(&self) -> bool {
        self@.wf()
    }

    /// Starts a schedule at `now`. The first sweep is due one period later.
    pub fn start(period: u64, now: u64) -> (schedule: Schedule)
        requires
            period > 0,
        ensures
            schedule@ == ScheduleView::started(period, now),
            schedule.wf(),
    {
        let next_due: u64 = if period > u64::MAX - now {
            u64::MAX
        } else {
            now + period
        };
        proof {
            lemma_mod_self_0(period as int);
        }
        Schedule { origin: now, period, next_due }
    }

    /// When the schedule was started.
    pub fn origin(&self) -> (origin: u64)
        ensures
            origin == self@.origin,
    {
        self.origin
    }

    /// The time from one due time to the next.
    pub fn period(&self) -> (period: u64)
        ensures
            period == self@.period,
    {
        self.period
    }

    /// When the next sweep is due.
    pub fn next_due(&self) -> (next_due: u64)
        ensures
            next_due == self@.next_due,
    {
        self.next_due
    }

    /// Tells the caller what to do at `now`. Before the due time: to sleep
    /// until then, and the schedule stays as it is. From the due time on: to
    /// sweep, and the next sweep is due at the first due time after `now`.
    pub fn poll(&mut self, now: u64) -> (wake: Wake)
        requires
            old(self).wf(),
        ensures
            wake == old(self)@.wake(now),
            final(self)@ == old(self)@.polled(now),
            final(self).wf(),
    {
        if now < self.next_due {
            Wake::Sleep(self.next_due - now)
        } else {
            let behind: u64 = (now - self.next_due) % self.period;
            let gap: u64 = self.period - behind;
            proof {
                lemma_polled_due(self@, now);
            }
            self.next_due = if gap > u64::MAX - now {
                u64::MAX
            } else {
                now + gap
            };
            Wake::Sweep
        }
    }
}

} // verus!
