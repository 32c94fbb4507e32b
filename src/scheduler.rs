use vstd::prelude::*;
use crate::keypad::Key;
use crate::machine::Chip8;
use crate::semantics::{step_spec, tick_timers_spec, ExecError, Machine};

verus! {

/// The instruction cadence, about 500 Hz, in microseconds.
pub const STEP_PERIOD_MICROS: u64 = 2000;
/// The timer and redraw cadence, 60 Hz, in microseconds.
pub const TIMER_PERIOD_MICROS: u64 = 16_666;

/// Whether more than `period` has passed from `last` to `now`. A clock that
/// reads earlier than `last` makes nothing due.
pub open spec fn due(now: u64, last: u64, period: u64) -> bool {
    now >= last && now - last > period
}

/// What one pass of the host loop has to do.
#[derive(Clone, Copy, Debug, PartialEq, Eq, Structural)]
pub struct TickPlan {
    /// Run one instruction tick.
    pub step: bool,
    /// Decrement the timers and redraw the screen.
    pub timers: bool,
}

/// The two independent cadences: when each last fired, and its period.
/// Times are microseconds on a clock supplied by the host.
#[derive(Clone, Copy, Debug, PartialEq, Eq, Structural)]
pub struct Scheduler {
    pub last_step: u64,
    pub last_timer: u64,
    pub step_period: u64,
    pub timer_period: u64,
}

impl Scheduler {
    /// Both cadences start at `now`.
    pub fn new(now: u64, step_period: u64, timer_period: u64) -> (r: Scheduler)
        ensures
            r == (Scheduler { last_step: now, last_timer: now, step_period, timer_period }),
    {
        Scheduler { last_step: now, last_timer: now, step_period, timer_period }
    }

    /// Decides, at time `now`, which cadences are due, and restarts those.
    pub fn poll(&mut self, now: u64) -> (r: TickPlan)
        ensures
            r.step == due(now, old(self).last_step, old(self).step_period),
            r.timers == due(now, old(self).last_timer, old(self).timer_period),
            final(self).last_step == (if r.step { now } else { old(self).last_step }),
            final(self).last_timer == (if r.timers { now } else { old(self).last_timer }),
            final(self).step_period == old(self).step_period,
            final(self).timer_period == old(self).timer_period,
    {
        let step = now >= self.last_step && now - self.last_step > self.step_period;
        let timers = now >= self.last_timer && now - self.last_timer > self.timer_period;
        if step {
            self.last_step = now;
        }
        if timers {
            self.last_timer = now;
        }
        TickPlan { step, timers }
    }
}

/// What a pass of the host loop did: the instruction tick's result (`Ok`
/// where none ran), and whether the screen is to be presented again.
#[derive(Clone, Copy, Debug)]
pub struct TickReport {
    pub result: Result<(), ExecError>,
    pub redraw: bool,
}

/// The machine after carrying out `plan`: the instruction tick first, if
/// due, then the timer tick, if due. The timer tick does not depend on the
/// wait state, so timers keep running while the program waits for a key.
pub open spec fn tick_spec(
    m: Machine,
    plan: TickPlan,
    held: Seq<Key>,
    pressed: Option<Key>,
    rnd: u8,
) -> (Machine, Result<(), ExecError>) {
    let s = if plan.step {
        step_spec(m, held, pressed, rnd)
    } else {
        (m, Ok(()))
    };
    (if plan.timers { tick_timers_spec(s.0) } else { s.0 }, s.1)
}

impl Chip8 {
    /// One pass of the host loop at time `now` with a given random byte.
    pub fn tick_with_random(
        &mut self,
        sched: &mut Scheduler,
        now: u64,
        held: &[Key],
        pressed: Option<Key>,
        random: u8,
    ) -> (r: TickReport)
        requires
            old(self).wf(),
        ensures
            final(self).wf(),
            final(sched).last_step == (if due(now, old(sched).last_step, old(sched).step_period) {
                now
            } else {
                old(sched).last_step
            }),
            final(sched).last_timer == (if due(now, old(sched).last_timer, old(sched).timer_period) {
                now
            } else {
                old(sched).last_timer
            }),
            final(sched).step_period == old(sched).step_period,
            final(sched).timer_period == old(sched).timer_period,
            r.redraw == due(now, old(sched).last_timer, old(sched).timer_period),
            (final(self)@, r.result) == tick_spec(
                old(self)@,
                TickPlan {
                    step: due(now, old(sched).last_step, old(sched).step_period),
                    timers: r.redraw,
                },
                held@,
                pressed,
                random,
            ),
    {
        let plan = sched.poll(now);
        let result = if plan.step {
            self.step_with_random(held, pressed, random)
        } else {
            Ok(())
        };
        if plan.timers {
            self.tick_timers();
        }
        TickReport { result, redraw: plan.timers }
    }

    /// One pass of the host loop at time `now`, drawing a random byte for
    /// `Cxkk`.
    pub fn tick(&mut self, sched: &mut Scheduler, now: u64, held: &[Key], pressed: Option<Key>) -> (r:
        TickReport)
        requires
            old(self).wf(),
        ensures
            final(self).wf(),
            final(sched).last_step == (if due(now, old(sched).last_step, old(sched).step_period) {
                now
            } else {
                old(sched).last_step
            }),
            final(sched).last_timer == (if due(now, old(sched).last_timer, old(sched).timer_period) {
                now
            } else {
                old(sched).last_timer
            }),
            final(sched).step_period == old(sched).step_period,
            final(sched).timer_period == old(sched).timer_period,
            r.redraw == due(now, old(sched).last_timer, old(sched).timer_period),
            exists|random: u8| #[trigger]
                tick_spec(
                    old(self)@,
                    TickPlan {
                        step: due(now, old(sched).last_step, old(sched).step_period),
                        timers: r.redraw,
                    },
                    held@,
                    pressed,
                    random,
                ) == (final(self)@, r.result),
    {
        let random: u8 = rand::random::<u8>();
        self.tick_with_random(sched, now, held, pressed, random)
    }
}

} // verus!
