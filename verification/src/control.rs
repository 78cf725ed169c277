use vstd::prelude::*;

use crate::auth::{check_facilitator_auth, facilitator_auth_ok, header_text};
use crate::keyed::StrMap;
use crate::pacer::{elapsed_nanos, instant_now, remaining_spec, remaining_sleep};
use crate::text::str_eq;

verus! {

/// The abstract state of a live match's controls.
pub struct ControlView {
    pub paused: bool,
    pub aborted: bool,
    pub tps: u32,
    pub tick_count: u32,
}

/// Control state of one live match: pause/resume, abort, tick rate and the
/// number of ticks played so far.
///
/// A handle has one owner and no copies: once registered, the match's
/// controls live in the `MatchRegistry`, which is the one state that the
/// admin commands change and the match loop reads (see
/// `law_registry_is_the_shared_state`).  Waking a paused loop is the
/// embedding application's job.
pub struct MatchControlHandle {
    paused: bool,
    aborted: bool,
    tps: u32,
    tick_count: u32,
}

impl View for MatchControlHandle {
    type V = ControlView;

    closed spec fn view(&self) -> ControlView {
        ControlView {
            paused: self.paused,
            aborted: self.aborted,
            tps: self.tps,
            tick_count: self.tick_count,
        }
    }
}

impl MatchControlHandle {
    /// Running (not paused, not aborted) at `initial_tps`, no ticks yet.
    pub fn new(initial_tps: u32) -> (h: Self)
        ensures
            h@ == (ControlView { paused: false, aborted: false, tps: initial_tps, tick_count: 0 }),
    {
        MatchControlHandle { paused: false, aborted: false, tps: initial_tps, tick_count: 0 }
    }

    /// Pause the match.
    pub fn pause(&mut self)
        ensures
            final(self)@ == (ControlView { paused: true, ..old(self)@ }),
    {
        self.paused = true;
    }

    /// Resume a paused match.
    pub fn resume(&mut self)
        ensures
            final(self)@ == (ControlView { paused: false, ..old(self)@ }),
    {
        self.paused = false;
    }

    /// Abort the match; a paused loop stops waiting.
    pub fn abort(&mut self)
        ensures
            final(self)@ == (ControlView { aborted: true, ..old(self)@ }),
    {
        self.aborted = true;
    }

    /// Change the tick rate (0 means unpaced).
    pub fn set_tps(&mut self, tps: u32)
        ensures
            final(self)@ == (ControlView { tps: tps, ..old(self)@ }),
    {
        self.tps = tps;
    }

    /// The current tick rate.
    pub fn tps(&self) -> (r: u32)
        ensures
            r == self@.tps,
    {
        self.tps
    }

    /// Whether the match is paused.
    pub fn is_paused(&self) -> (r: bool)
        ensures
            r == self@.paused,
    {
        self.paused
    }

    /// Whether the match was aborted.
    pub fn is_aborted(&self) -> (r: bool)
        ensures
            r == self@.aborted,
    {
        self.aborted
    }

    /// Ticks played so far.
    pub fn tick_count(&self) -> (r: u32)
        ensures
            r == self@.tick_count,
    {
        self.tick_count
    }

    /// Whether the match loop must keep waiting before its next tick: paused
    /// and not aborted.
    pub fn must_wait(&self) -> (r: bool)
        ensures
            r == (self@.paused && !self@.aborted),
    {
        self.paused && !self.aborted
    }

    /// Count one more tick (wrapping, like the atomic counter it models).
    pub fn increment_tick(&mut self)
        ensures
            final(self)@ == incremented(old(self)@),
    {
        if self.tick_count == u32::MAX {
            self.tick_count = 0;
        } else {
            self.tick_count = self.tick_count + 1;
        }
    }
}

/// The controls after one more tick was counted: the count goes up by one,
/// wrapping to 0 after `u32::MAX`; nothing else changes.
pub open spec fn incremented(v: ControlView) -> ControlView {
    ControlView {
        tick_count: if v.tick_count == u32::MAX {
            0
        } else {
            (v.tick_count + 1) as u32
        },
        ..v
    }
}

/// The controls after `n` ticks were counted.
pub open spec fn incremented_times(v: ControlView, n: nat) -> ControlView
    decreases n,
{
    if n == 0 {
        v
    } else {
        incremented(incremented_times(v, (n - 1) as nat))
    }
}

/// The smallest power of two that is at least `t`, searching upward from the
/// power of two `acc`.
pub open spec fn pow2_at_least(t: int, acc: int) -> int
    decreases (if acc >= t { 0 } else { t - acc }),
    when acc > 0
{
    if acc >= t {
        acc
    } else {
        pow2_at_least(t, 2 * acc)
    }
}

/// `n / d` rounded to the nearest integer, ties to the even one.
pub open spec fn rne_div(n: int, d: int) -> int
    recommends
        d > 0,
{
    let q = n / d;
    let r = n % d;
    if 2 * r > d {
        q + 1
    } else if 2 * r < d {
        q
    } else if q % 2 == 0 {
        q
    } else {
        q + 1
    }
}

/// The scale at which `1/tps` is a 53-bit double: `2^52` times the smallest
/// power of two that is at least `tps`.
pub open spec fn tick_scale(tps: u32) -> int {
    pow2_at_least(tps as int, 1) * 0x10_0000_0000_0000
}

/// The length of one tick at `tps` ticks per second, in nanoseconds:
/// `1/tps` seconds rounded to the nearest double (ties to even), which is
/// `rne_div(scale, tps) / scale`, then rounded to the nearest nanosecond (ties
/// to even), as `std::time::Duration::from_secs_f64(1.0 / tps)` measures it.
pub open spec fn tick_nanos_spec(tps: u32) -> u64
    recommends
        tps > 0,
{
    rne_div(rne_div(tick_scale(tps), tps as int) * 1_000_000_000, tick_scale(tps)) as u64
}

/// What the match loop does after a step, as decided by a controlled pacer.
pub enum PacerStep {
    /// The match is paused: wait until it is resumed or aborted, then ask again.
    WaitWhilePaused,
    /// Go on to the next tick at once.
    Proceed,
    /// Sleep this many nanoseconds, call `restart_tick`, then go on.
    SleepThenRestart(u64),
}

/// What a live match loop does next.
pub enum LiveAction {
    /// The match is over or was aborted: stop, then record the result.
    Finish,
    /// The match is paused: wait until it is resumed or aborted, then ask again.
    WaitWhilePaused,
    /// Play one tick (then count it, publish it and pace).
    Step,
}

/// One decision of a live match loop under the controls `handle`.
pub fn live_loop_action(match_over: bool, handle: &MatchControlHandle) -> (r: LiveAction)
    ensures
        match_over || handle@.aborted ==> r is Finish,
        !match_over && !handle@.aborted && handle@.paused ==> r is WaitWhilePaused,
        !match_over && !handle@.aborted && !handle@.paused ==> r is Step,
{
    if match_over || handle.is_aborted() {
        LiveAction::Finish
    } else if handle.is_paused() {
        LiveAction::WaitWhilePaused
    } else {
        LiveAction::Step
    }
}

/// A pacer driven by a match's control state: it honours pause and abort and
/// the (changeable) tick rate.
pub struct ControlledPacer {
    tick_start: std::time::Instant,
    /// The time of the current tick that had passed when the pacer last
    /// decided to sleep, as the clock read it.
    elapsed: Ghost<u64>,
}

impl ControlledPacer {
    /// The time of the current tick (in nanoseconds) that had passed when the
    /// pacer last decided to sleep.
    pub closed spec fn last_elapsed(&self) -> u64 {
        self.elapsed@
    }

    /// A pacer whose current tick starts now.
    pub fn new() -> (p: Self) {
        ControlledPacer { tick_start: instant_now(), elapsed: Ghost(0) }
    }

    /// Mark the start of a new tick.
    pub fn restart_tick(&mut self) {
        self.tick_start = instant_now();
    }

    /// Decide what happens between two ticks under the controls `handle`.
    ///
    /// Paused and not aborted: wait.  Aborted: proceed (the loop then sees the
    /// abort).  Unpaced (`tps == 0`): restart the tick and proceed.  Otherwise
    /// sleep the rest of the tick: its length at the current rate less the
    /// time already passed since the tick started (`last_elapsed`), or
    /// nothing when the tick already overran.
    pub fn wait_for_next_tick(&mut self, handle: &MatchControlHandle) -> (r: PacerStep)
        ensures
            handle@.paused && !handle@.aborted ==> r is WaitWhilePaused,
            !(handle@.paused && !handle@.aborted) && handle@.aborted ==> r is Proceed,
            !handle@.paused && !handle@.aborted && handle@.tps == 0 ==> r is Proceed,
            !handle@.paused && !handle@.aborted && handle@.tps > 0 ==> r is SleepThenRestart
                && r->0 <= tick_nanos_spec(handle@.tps),
            r matches PacerStep::SleepThenRestart(n) ==> n == remaining_spec(
                tick_nanos_spec(handle@.tps),
                final(self).last_elapsed(),
            ),
    {
        if handle.must_wait() {
            return PacerStep::WaitWhilePaused;
        }
        if handle.is_aborted() {
            return PacerStep::Proceed;
        }
        let tps = handle.tps();
        if tps == 0 {
            self.tick_start = instant_now();
            return PacerStep::Proceed;
        }
        let tick = tick_nanos(tps);
        let elapsed = elapsed_nanos(&self.tick_start);
        proof {
            self.elapsed@ = elapsed;
        }
        PacerStep::SleepThenRestart(remaining_sleep(tick, elapsed))
    }
}

/// `n / d` rounded to the nearest integer, ties to the even one.
fn rne_div_u128(n: u128, d: u128) -> (q: u128)
    requires
        d > 0,
        n < 0x1_0000_0000_0000_0000_0000_0000_0000,
    ensures
        q == rne_div(n as int, d as int),
{
    let q = n / d;
    let r = n % d;
    proof {
        vstd::arithmetic::div_mod::lemma_fundamental_div_mod(n as int, d as int);
        assert(q <= n) by (nonlinear_arith)
            requires
                q == n / d,
                d > 0,
                n >= 0,
        ;
    }
    if r > d - r {
        q + 1
    } else if r < d - r {
        q
    } else if q % 2 == 0 {
        q
    } else {
        q + 1
    }
}

/// The doubling search behind `pow2_at_least` moves its start up by one step.
proof fn lemma_pow2_step(t: int, acc: int)
    requires
        0 < acc < t,
    ensures
        pow2_at_least(t, acc) == pow2_at_least(t, 2 * acc),
{
}

/// Bounds on `rne_div(scale, tps)` that keep the tick arithmetic in range.
proof fn lemma_tick_bounds(p2: int, t: int, m: int)
    requires
        1 <= t,
        t <= p2,
        p2 < 2 * t,
        m == rne_div(p2 * 0x10_0000_0000_0000, t),
    ensures
        0 <= m <= 0x20_0000_0000_0000,
        p2 * 0x10_0000_0000_0000 >= 0x10_0000_0000_0000,
{
    let big = p2 * 0x10_0000_0000_0000;
    let q = big / t;
    vstd::arithmetic::div_mod::lemma_fundamental_div_mod(big, t);
    assert(q * t < 0x20_0000_0000_0000 * t) by (nonlinear_arith)
        requires
            q * t <= big,
            big == p2 * 0x10_0000_0000_0000,
            p2 < 2 * t,
    ;
    assert(q < 0x20_0000_0000_0000) by (nonlinear_arith)
        requires
            q * t < 0x20_0000_0000_0000 * t,
            t >= 1,
    ;
    assert(q >= 0) by (nonlinear_arith)
        requires
            q == big / t,
            big >= 0,
            t >= 1,
    ;
}

/// The final rounding stays far below `u64::MAX`.
proof fn lemma_nanos_bound(m: int, big: int, n: int)
    requires
        0 <= m <= 0x20_0000_0000_0000,
        big >= 0x10_0000_0000_0000,
        n == rne_div(m * 1_000_000_000, big),
    ensures
        0 <= n <= 2_000_000_001,
{
    let x = m * 1_000_000_000;
    let q = x / big;
    vstd::arithmetic::div_mod::lemma_fundamental_div_mod(x, big);
    assert(x <= 2_000_000_000 * big) by (nonlinear_arith)
        requires
            x == m * 1_000_000_000,
            m <= 0x20_0000_0000_0000,
            big >= 0x10_0000_0000_0000,
    ;
    assert(0 <= q <= 2_000_000_000) by (nonlinear_arith)
        requires
            q == x / big,
            x >= 0,
            x <= 2_000_000_000 * big,
            big > 0,
    ;
}

/// Rounding to the nearest integer is off by at most half.
proof fn lemma_rne_close(n: int, d: int)
    requires
        d > 0,
        n >= 0,
    ensures
        -d <= 2 * (rne_div(n, d) * d - n) <= d,
        rne_div(n, d) >= 0,
{
    let q = n / d;
    let r = n % d;
    vstd::arithmetic::div_mod::lemma_fundamental_div_mod(n, d);
    assert(q >= 0) by (nonlinear_arith)
        requires
            q == n / d,
            n >= 0,
            d > 0,
    ;
    assert((q + 1) * d == q * d + d) by (nonlinear_arith);
}

/// The doubling search ends at a power of two that is at least `t`.
proof fn lemma_pow2_at_least_covers(t: int, acc: int)
    requires
        acc > 0,
    ensures
        pow2_at_least(t, acc) >= t,
        pow2_at_least(t, acc) >= acc,
    decreases (if acc >= t { 0 } else { t - acc }),
{
    if acc < t {
        lemma_pow2_at_least_covers(t, 2 * acc);
    }
}

/// Law: one tick lasts one second divided by the rate, to within a
/// nanosecond: `tick * tps` differs from a second by less than `tps`
/// nanoseconds.
pub proof fn law_tick_is_one_second_over_rate(tps: u32)
    requires
        tps > 0,
    ensures
        1_000_000_000 - (tps as int) < tick_nanos_spec(tps) * tps < 1_000_000_000 + (tps as int),
{
    let t = tps as int;
    lemma_pow2_at_least_covers(t, 1);
    let big = tick_scale(tps);
    assert(big >= t * 0x10_0000_0000_0000) by (nonlinear_arith)
        requires
            big == pow2_at_least(t, 1) * 0x10_0000_0000_0000,
            pow2_at_least(t, 1) >= t,
    ;
    let m = rne_div(big, t);
    lemma_rne_close(big, t);
    assert(m * 1_000_000_000 >= 0) by (nonlinear_arith)
        requires
            m >= 0,
    ;
    let n = rne_div(m * 1_000_000_000, big);
    lemma_rne_close(m * 1_000_000_000, big);
    let x = n * big - m * 1_000_000_000;
    let y = m * t - big;
    assert(n * t * big - 1_000_000_000 * big == t * x + 1_000_000_000 * y) by (nonlinear_arith)
        requires
            x == n * big - m * 1_000_000_000,
            y == m * t - big,
    ;
    assert(-(t * big) <= 2 * (t * x) <= t * big) by (nonlinear_arith)
        requires
            -big <= 2 * x <= big,
            t >= 1,
    ;
    assert(1_000_000_000 * t < big * t) by (nonlinear_arith)
        requires
            big >= t * 0x10_0000_0000_0000,
            t >= 1,
    ;
    let e = n * t - 1_000_000_000;
    assert(e * big == t * x + 1_000_000_000 * y) by (nonlinear_arith)
        requires
            e == n * t - 1_000_000_000,
            n * t * big - 1_000_000_000 * big == t * x + 1_000_000_000 * y,
    ;
    assert(-(t * big) < e * big < t * big);
    assert(-t < e < t) by (nonlinear_arith)
        requires
            -(t * big) < e * big,
            e * big < t * big,
            big > 0,
    ;
    assert(0 <= n < 0x1_0000_0000_0000_0000) by (nonlinear_arith)
        requires
            n >= 0,
            n * t < 1_000_000_000 + t,
            t >= 1,
    ;
}

/// One tick's length in nanoseconds at `tps` ticks per second.
pub fn tick_nanos(tps: u32) -> (r: u64)
    requires
        tps > 0,
    ensures
        r == tick_nanos_spec(tps),
{
    let t = tps as u128;
    let mut p2: u128 = 1;
    while p2 < t
        invariant
            1 <= t <= 0xffff_ffff,
            1 <= p2,
            p2 < 2 * t,
            pow2_at_least(t as int, p2 as int) == pow2_at_least(t as int, 1),
        decreases 2 * t - p2,
    {
        proof {
            lemma_pow2_step(t as int, p2 as int);
        }
        p2 = p2 * 2;
    }
    let big = p2 * 0x10_0000_0000_0000;
    assert(tick_scale(tps) == big);
    let m = rne_div_u128(big, t);
    proof {
        lemma_tick_bounds(p2 as int, t as int, m as int);
    }
    let n = rne_div_u128(m * 1_000_000_000, big);
    proof {
        lemma_nanos_bound(m as int, big as int, n as int);
    }
    n as u64
}

/// Currently-running live matches, keyed by match id: the one place where a
/// match's controls live while it runs.
pub struct MatchRegistry {
    matches: StrMap<MatchControlHandle>,
}

/// The controls of each registered match.
pub open spec fn control_views(m: Map<Seq<char>, MatchControlHandle>) -> Map<Seq<char>, ControlView> {
    m.map_values(|h: MatchControlHandle| h@)
}

impl View for MatchRegistry {
    type V = Map<Seq<char>, ControlView>;

    closed spec fn view(&self) -> Map<Seq<char>, ControlView> {
        control_views(self.matches@)
    }
}

/// What the live loop of a match does next: stop when the match is over or
/// its controls are aborted or gone, wait while paused, step otherwise.
pub open spec fn live_action_spec(match_over: bool, controls: Option<ControlView>) -> LiveAction {
    match controls {
        None => LiveAction::Finish,
        Some(c) => if match_over || c.aborted {
            LiveAction::Finish
        } else if c.paused {
            LiveAction::WaitWhilePaused
        } else {
            LiveAction::Step
        },
    }
}

/// The registered controls of `id`, if any.
pub open spec fn controls_of(m: Map<Seq<char>, ControlView>, id: Seq<char>) -> Option<ControlView> {
    if m.contains_key(id) {
        Some(m[id])
    } else {
        None
    }
}

impl MatchRegistry {
    /// The map is well formed.
    pub closed spec fn wf(&self) -> bool {
        self.matches.wf()
    }

    /// No matches.
    pub fn new() -> (r: Self)
        ensures
            r.wf(),
            r@ == Map::<Seq<char>, ControlView>::empty(),
    {
        let r = MatchRegistry { matches: StrMap::new() };
        proof {
            assert(r@ =~= Map::<Seq<char>, ControlView>::empty());
        }
        r
    }

    /// Register (or replace) the controls of `match_id`; the registry owns
    /// them from now on.
    pub fn register(&mut self, match_id: String, handle: MatchControlHandle)
        requires
            old(self).wf(),
        ensures
            final(self).wf(),
            final(self)@ == old(self)@.insert(match_id@, handle@),
    {
        let ghost h = handle@;
        let ghost id = match_id@;
        self.matches.insert(match_id, handle);
        proof {
            assert(self@ =~= old(self)@.insert(id, h));
        }
    }

    /// The controls of `match_id`, if registered.
    pub fn get(&self, match_id: &str) -> (r: Option<&MatchControlHandle>)
        requires
            self.wf(),
        ensures
            match r {
                Some(h) => self@.contains_key(match_id@) && h@ == self@[match_id@],
                None => !self@.contains_key(match_id@),
            },
    {
        self.matches.get(match_id)
    }

    /// Forget `match_id`.
    pub fn remove(&mut self, match_id: &str)
        requires
            old(self).wf(),
        ensures
            final(self).wf(),
            final(self)@ == old(self)@.remove(match_id@),
    {
        let _ = self.matches.remove(match_id);
        proof {
            assert(self@ =~= old(self)@.remove(match_id@));
        }
    }

    /// Apply `cmd` to the registered controls of `match_id`; `false` (and no
    /// change) when the match is not registered.
    pub fn apply(&mut self, match_id: &str, cmd: MatchCommand) -> (found: bool)
        requires
            old(self).wf(),
        ensures
            final(self).wf(),
            found == old(self)@.contains_key(match_id@),
            found ==> final(self)@ == old(self)@.insert(
                match_id@,
                command_effect(old(self)@[match_id@], cmd),
            ),
            !found ==> final(self)@ == old(self)@,
    {
        match self.matches.remove(match_id) {
            None => {
                proof {
                    assert(self@ =~= old(self)@);
                }
                false
            },
            Some(h) => {
                let mut h = h;
                match cmd {
                    MatchCommand::Pause => h.pause(),
                    MatchCommand::Resume => h.resume(),
                    MatchCommand::SetTps(t) => h.set_tps(t),
                    MatchCommand::Abort => h.abort(),
                }
                let ghost v = h@;
                self.matches.insert(match_id.to_owned(), h);
                proof {
                    assert(self@ =~= old(self)@.insert(match_id@, v));
                }
                true
            },
        }
    }

    /// Count one played tick on the registered controls of `match_id`;
    /// `false` (and no change) when the match is not registered.
    pub fn count_tick(&mut self, match_id: &str) -> (found: bool)
        requires
            old(self).wf(),
        ensures
            final(self).wf(),
            found == old(self)@.contains_key(match_id@),
            found ==> final(self)@ == old(self)@.insert(match_id@, incremented(old(self)@[match_id@])),
            !found ==> final(self)@ == old(self)@,
    {
        match self.matches.remove(match_id) {
            None => {
                proof {
                    assert(self@ =~= old(self)@);
                }
                false
            },
            Some(h) => {
                let mut h = h;
                h.increment_tick();
                let ghost v = h@;
                self.matches.insert(match_id.to_owned(), h);
                proof {
                    assert(self@ =~= old(self)@.insert(match_id@, v));
                }
                true
            },
        }
    }

    /// What the live loop of `match_id` does next, from its registered
    /// controls: a match whose controls are gone counts as aborted.
    pub fn live_action(&self, match_id: &str, match_over: bool) -> (r: LiveAction)
        requires
            self.wf(),
        ensures
            r == live_action_spec(match_over, controls_of(self@, match_id@)),
    {
        match self.get(match_id) {
            None => LiveAction::Finish,
            Some(h) => live_loop_action(match_over, h),
        }
    }
}

/// A facilitator command on a running match.
pub enum MatchCommand {
    Pause,
    Resume,
    SetTps(u32),
    Abort,
}

/// The controls after applying `cmd`.
pub open spec fn command_effect(h: ControlView, cmd: MatchCommand) -> ControlView {
    match cmd {
        MatchCommand::Pause => ControlView { paused: true, ..h },
        MatchCommand::Resume => ControlView { paused: false, ..h },
        MatchCommand::SetTps(t) => ControlView { tps: t, ..h },
        MatchCommand::Abort => ControlView { aborted: true, ..h },
    }
}

/// The admin match-control endpoints (pause, resume, set tps, delete).
///
/// Returns the HTTP status: 401 without facilitator auth, 404 for an unknown
/// match, 200 after applying the command.  Deleting aborts the match and
/// removes it from the registry.
pub fn control_match(
    registry: &mut MatchRegistry,
    auth_header: Option<&str>,
    facilitator_password: &str,
    match_id: &str,
    cmd: MatchCommand,
) -> (status: u16)
    requires
        old(registry).wf(),
    ensures
        final(registry).wf(),
        !facilitator_auth_ok(header_text(auth_header), facilitator_password@) ==> status == 401 && final(registry)@ == old(registry)@,
        facilitator_auth_ok(header_text(auth_header), facilitator_password@) ==> {
            if !old(registry)@.contains_key(match_id@) {
                status == 404 && final(registry)@ == old(registry)@
            } else {
                &&& status == 200
                &&& match cmd {
                    MatchCommand::Abort => final(registry)@ == old(registry)@.remove(match_id@),
                    _ => final(registry)@ == old(registry)@.insert(
                        match_id@,
                        command_effect(old(registry)@[match_id@], cmd),
                    ),
                }
            }
        },
{
    if check_facilitator_auth(auth_header, facilitator_password).is_err() {
        return 401;
    }
    match cmd {
        MatchCommand::Abort => {
            if registry.get(match_id).is_none() {
                return 404;
            }
            registry.remove(match_id);
            200
        },
        _ => {
            if registry.apply(match_id, cmd) {
                200
            } else {
                404
            }
        },
    }
}

/// The two placeholder team names used to fill a live roster.
pub open spec fn placeholder_a() -> Seq<char> {
    "team-a"@
}

pub open spec fn placeholder_b() -> Seq<char> {
    "team-b"@
}

/// The live roster built from connected teams: the connected teams, then
/// `"team-a"` and `"team-b"` as needed to reach two slots, never duplicating
/// a connected name.
pub open spec fn live_teams_spec(connected: Seq<Seq<char>>) -> Seq<Seq<char>> {
    let s1 = if connected.len() >= 2 || connected.contains(placeholder_a()) {
        connected
    } else {
        connected.push(placeholder_a())
    };
    if s1.len() >= 2 || s1.contains(placeholder_b()) {
        s1
    } else {
        s1.push(placeholder_b())
    }
}

fn contains_text(v: &Vec<String>, x: &str) -> (r: bool)
    ensures
        r == crate::text::texts(v@).contains(x@),
{
    let mut i: usize = 0;
    while i < v.len()
        invariant
            0 <= i <= v@.len(),
            forall|j: int| 0 <= j < i ==> v@[j]@ != x@,
        decreases v@.len() - i,
    {
        if str_eq(v[i].as_str(), x) {
            proof {
                assert(crate::text::texts(v@)[i as int] == x@);
            }
            return true;
        }
        i = i + 1;
    }
    proof {
        if crate::text::texts(v@).contains(x@) {
            let j = choose|j: int| 0 <= j < v@.len() && crate::text::texts(v@)[j] == x@;
            assert(v@[j]@ == x@);
        }
    }
    false
}

/// Build a live roster from the connected teams, filling up to two slots with
/// placeholder names.
pub fn live_teams(connected: Vec<String>) -> (r: Vec<String>)
    ensures
        crate::text::texts(r@) == live_teams_spec(crate::text::texts(connected@)),
{
    let mut teams = connected;
    let ghost c = crate::text::texts(teams@);
    proof {
        reveal_strlit("team-a");
        reveal_strlit("team-b");
    }
    if teams.len() < 2 && !contains_text(&teams, "team-a") {
        teams.push("team-a".to_owned());
        proof {
            assert(crate::text::texts(teams@) =~= c.push(placeholder_a()));
        }
    }
    let ghost s1 = crate::text::texts(teams@);
    if teams.len() < 2 && !contains_text(&teams, "team-b") {
        teams.push("team-b".to_owned());
        proof {
            assert(crate::text::texts(teams@) =~= s1.push(placeholder_b()));
        }
    }
    teams
}

/// What the exhibition loop does next.
pub enum ExhibitionStep {
    /// Stop was requested or the match budget is used up.
    Stop,
    /// Fewer than two teams: wait a while and look again.
    WaitForTeams,
    /// Play a match with this seed and roster.
    StartMatch { seed: u64, teams: Vec<String> },
}

/// One decision of the exhibition loop.
///
/// `configured` is the explicit roster (empty means "use the registered
/// teams"), `max_matches == 0` means no limit, and the n-th match uses
/// `base_seed + n`.
pub fn exhibition_step(
    stop_requested: bool,
    max_matches: u32,
    match_count: u32,
    configured: Vec<String>,
    registered: Vec<String>,
    base_seed: u64,
) -> (r: ExhibitionStep)
    requires
        base_seed + match_count <= u64::MAX,
    ensures
        stop_requested ==> r is Stop,
        !stop_requested && max_matches > 0 && match_count >= max_matches ==> r is Stop,
        !stop_requested && !(max_matches > 0 && match_count >= max_matches) ==> {
            let roster = if configured@.len() == 0 {
                registered@
            } else {
                configured@
            };
            match r {
                ExhibitionStep::WaitForTeams => roster.len() < 2,
                ExhibitionStep::StartMatch { seed, teams } => roster.len() >= 2 && teams@ == roster
                    && seed == base_seed + match_count,
                ExhibitionStep::Stop => false,
            }
        },
{
    if stop_requested {
        return ExhibitionStep::Stop;
    }
    if max_matches > 0 && match_count >= max_matches {
        return ExhibitionStep::Stop;
    }
    let teams = if configured.len() == 0 {
        registered
    } else {
        configured
    };
    if teams.len() < 2 {
        return ExhibitionStep::WaitForTeams;
    }
    ExhibitionStep::StartMatch { seed: base_seed + match_count as u64, teams }
}

} // verus!
