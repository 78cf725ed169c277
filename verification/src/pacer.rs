use vstd::prelude::*;

verus! {

/// A monotonic clock reading (`std::time::Instant`), carried opaquely.
#[verifier::external_type_specification]
#[verifier::external_body]
pub struct ExInstant(std::time::Instant);

/// The current monotonic time.
///
/// Calls `std::time::Instant::now`; the reading depends on the clock, so
/// nothing is promised of it.
#[verifier::external_body]
pub(crate) fn instant_now() -> (t: std::time::Instant) {
    std::time::Instant::now()
}

/// Nanoseconds elapsed since `t`.
///
/// Calls `Instant::elapsed` and `Duration::as_nanos`; the value depends on
/// the clock, so nothing is promised of it.
#[verifier::external_body]
fn elapsed_nanos_wide(t: &std::time::Instant) -> (n: u128) {
    t.elapsed().as_nanos()
}

/// A nanosecond count as a `u64`, saturating at `u64::MAX`.
pub fn saturating_nanos(n: u128) -> (r: u64)
    ensures
        r == (if n > u64::MAX {
            u64::MAX as int
        } else {
            n as int
        }),
{
    if n > u64::MAX as u128 {
        u64::MAX
    } else {
        n as u64
    }
}

/// Nanoseconds elapsed since `t`, saturating at `u64::MAX`.
pub(crate) fn elapsed_nanos(t: &std::time::Instant) -> (n: u64) {
    saturating_nanos(elapsed_nanos_wide(t))
}

/// How long to sleep so that a tick lasts `tick_duration` nanoseconds when
/// `elapsed` nanoseconds of it have already passed: the rest of the tick, or
/// nothing when the tick already overran.
pub open spec fn remaining_spec(tick_duration: u64, elapsed: u64) -> u64 {
    if elapsed < tick_duration {
        (tick_duration - elapsed) as u64
    } else {
        0
    }
}

/// Law: the sleep a pacer asks for makes a tick last exactly its length when
/// the step took less than the tick (sleep plus elapsed time is the tick), is
/// zero when the step overran, and is never longer than the tick.
pub proof fn law_sleep_fills_the_tick(tick_duration: u64, elapsed: u64)
    ensures
        remaining_spec(tick_duration, elapsed) <= tick_duration,
        elapsed < tick_duration ==> remaining_spec(tick_duration, elapsed) + elapsed == tick_duration,
        elapsed >= tick_duration ==> remaining_spec(tick_duration, elapsed) == 0,
{
}

/// The rest of a tick after `elapsed` of it has passed.
pub fn remaining_sleep(tick_duration: u64, elapsed: u64) -> (r: u64)
    ensures
        r == remaining_spec(tick_duration, elapsed),
{
    if elapsed < tick_duration {
        tick_duration - elapsed
    } else {
        0
    }
}

/// Paces the match loop between steps.  `wait_for_next_tick` returns how many
/// nanoseconds the caller should sleep before the next tick.
pub trait TickPacer {
    fn wait_for_next_tick(&mut self) -> u64;
}

/// A pacer that never sleeps: ticks run at CPU speed.
pub struct NoopPacer;

impl TickPacer for NoopPacer {
    fn wait_for_next_tick(&mut self) -> (r: u64)
        ensures
            r == 0,
    {
        0
    }
}

/// One second in nanoseconds.
pub const NANOS_PER_SEC: u64 = 1_000_000_000;

/// A pacer that keeps a fixed tick rate, accounting for the time the step
/// itself took.
pub struct LivePacer {
    tick_duration_nanos: u64,
    tick_start: std::time::Instant,
    /// The time of the current tick that had passed at the last wait, as the
    /// clock read it.
    elapsed: Ghost<u64>,
}

impl LivePacer {
    /// The time of the current tick (in nanoseconds) that had passed at the
    /// last `wait_for_next_tick`.
    pub closed spec fn last_elapsed(&self) -> u64 {
        self.elapsed@
    }

    /// The length of one tick in nanoseconds.
    pub closed spec fn tick_duration(&self) -> u64 {
        self.tick_duration_nanos
    }

    /// A pacer for `ticks_per_second` ticks per second: one tick lasts
    /// one second divided by the rate, in whole nanoseconds.
    pub fn new(ticks_per_second: u32) -> (p: Self)
        requires
            ticks_per_second > 0,
        ensures
            p.tick_duration() == NANOS_PER_SEC / (ticks_per_second as u64),
    {
        LivePacer {
            tick_duration_nanos: NANOS_PER_SEC / (ticks_per_second as u64),
            tick_start: instant_now(),
            elapsed: Ghost(0),
        }
    }

    /// Record the start of this tick's work.
    pub fn begin_tick(&mut self)
        ensures
            final(self).tick_duration() == old(self).tick_duration(),
    {
        self.tick_start = instant_now();
    }
}

impl TickPacer for LivePacer {
    /// The rest of the current tick (measured from `begin_tick`), or zero
    /// when the step overran the tick.
    fn wait_for_next_tick(&mut self) -> (r: u64)
        ensures
            r <= old(self).tick_duration(),
            final(self).tick_duration() == old(self).tick_duration(),
            r == remaining_spec(old(self).tick_duration(), final(self).last_elapsed()),
    {
        let elapsed = elapsed_nanos(&self.tick_start);
        proof {
            self.elapsed@ = elapsed;
        }
        remaining_sleep(self.tick_duration_nanos, elapsed)
    }
}

} // verus!
