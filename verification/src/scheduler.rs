//! The nightly scheduler: melatonin at 1 AM UTC and the dream trigger at 2 AM
//! UTC, each at most once per day of the year.
use vstd::prelude::*;
use crate::clock::{hour, hour_of, ordinal, ordinal_of, utc_now, Instant, MAX_TIMESTAMP};

verus! {

/// The hour at which melatonin runs.
pub const MELATONIN_HOUR: u32 = 1;

/// The hour at which dreaming is triggered.
pub const DREAM_HOUR: u32 = 2;

/// The days (of the year) on which each job last ran; -1 before the first run.
pub struct Scheduler {
    pub last_melatonin_day: i32,
    pub last_dream_day: i32,
}

/// What one check of the clock starts.
#[derive(Clone, Debug, PartialEq)]
pub struct SchedulerActions {
    pub run_melatonin: bool,
    pub trigger_dream: bool,
}

/// The jobs one check at `hour` of day `day` starts: melatonin at its hour if it
/// has not run on that day, and likewise the dream trigger.
pub open spec fn actions_of(s: Scheduler, hour: u32, day: u32) -> (bool, bool) {
    (
        hour == MELATONIN_HOUR && s.last_melatonin_day != day,
        hour == DREAM_HOUR && s.last_dream_day != day,
    )
}

/// The scheduler after that check: the day of each job started is recorded.
pub open spec fn next_state(s: Scheduler, hour: u32, day: u32) -> Scheduler {
    let (m, d) = actions_of(s, hour, day);
    Scheduler {
        last_melatonin_day: if m { day as i32 } else { s.last_melatonin_day },
        last_dream_day: if d { day as i32 } else { s.last_dream_day },
    }
}

impl Scheduler {
    /// A scheduler before any run.
    pub fn new() -> (r: Self)
        ensures
            r.last_melatonin_day == -1,
            r.last_dream_day == -1,
    {
        Scheduler { last_melatonin_day: -1, last_dream_day: -1 }
    }

    /// One check at `hour` of day `day` of the year.
    pub fn tick(&mut self, hour: u32, day: u32) -> (r: SchedulerActions)
        requires
            day <= 366,
        ensures
            (r.run_melatonin, r.trigger_dream) == actions_of(*old(self), hour, day),
            *final(self) == next_state(*old(self), hour, day),
    {
        let d = day as i32;
        let run_melatonin = hour == MELATONIN_HOUR && self.last_melatonin_day != d;
        if run_melatonin {
            self.last_melatonin_day = d;
        }
        let trigger_dream = hour == DREAM_HOUR && self.last_dream_day != d;
        if trigger_dream {
            self.last_dream_day = d;
        }
        SchedulerActions { run_melatonin, trigger_dream }
    }

    /// One check of the clock: the hour and the day of the year are read from the
    /// current time.
    pub fn check_now(&mut self) -> (r: SchedulerActions)
        ensures
            exists|now: Instant|
                0 <= now.secs <= MAX_TIMESTAMP && (r.run_melatonin, r.trigger_dream) == actions_of(
                    *old(self),
                    hour_of(now.secs as int) as u32,
                    ordinal_of(now.secs),
                ) && *final(self) == next_state(*old(self), hour_of(now.secs as int) as u32, ordinal_of(now.secs)),
    {
        let now = utc_now();
        let (h, d) = hour_and_day(now);
        self.tick(h, d)
    }
}

/// The hour of the day and the day of the year at `now`.
pub fn hour_and_day(now: Instant) -> (r: (u32, u32))
    requires
        0 <= now.secs <= MAX_TIMESTAMP,
    ensures
        r.0 == hour_of(now.secs as int),
        r.1 == ordinal_of(now.secs),
        r.0 < 24,
        1 <= r.1 <= 366,
{
    (hour(now.secs), ordinal(now.secs))
}

/// A job never starts twice on the same day of the year: once a check has
/// started it, no later check on that day starts it again, whatever checks
/// (on that day) come between.
pub proof fn lemma_once_per_day(s: Scheduler, h1: u32, h2: u32, day: u32)
    requires
        day <= 366,
    ensures
        actions_of(s, h1, day).0 ==> !actions_of(next_state(s, h1, day), h2, day).0,
        actions_of(s, h1, day).1 ==> !actions_of(next_state(s, h1, day), h2, day).1,
        next_state(s, h1, day).last_melatonin_day == day ==> !actions_of(next_state(s, h1, day), h2, day).0,
        next_state(s, h1, day).last_dream_day == day ==> !actions_of(next_state(s, h1, day), h2, day).1,
{
}

/// Melatonin starts only at 1 AM UTC and dreaming only at 2 AM UTC, and each
/// starts at its hour on any day on which it has not run yet.
pub proof fn lemma_job_hours(s: Scheduler, hour: u32, day: u32)
    ensures
        actions_of(s, hour, day).0 <==> (hour == 1 && s.last_melatonin_day != day),
        actions_of(s, hour, day).1 <==> (hour == 2 && s.last_dream_day != day),
{
}

} // verus!
