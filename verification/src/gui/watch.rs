//! The stopwatch, the timer, and the clock they are read against.

use vstd::prelude::*;

verus! {

/// A calendar date.
#[derive(Debug, Clone, Copy, PartialEq, Eq, Structural)]
pub struct Date {
    pub year: u16,
    pub month: u8,
    pub day: u8,
}

/// The clock, as it stands at one instant.
pub struct Clock<F: Fn(u64) -> u64> {
    /// Counter ticks since boot.
    pub now: u64,
    /// Nanoseconds since boot.
    pub elapsed_ns: u64,
    /// Nanoseconds since midnight, where there is a real-time clock.
    pub wall_ns: Option<u64>,
    /// The date, where there is a real-time clock.
    pub date: Option<Date>,
    /// Counter ticks a second.
    pub hz: u64,
    /// What the rate was measured against.
    pub source: &'static str,
    /// Whether that is to be believed.
    pub trustworthy: bool,
    /// Ticks to nanoseconds, at that rate.
    pub to_ns: F,
}

impl<F: Fn(u64) -> u64> Clock<F> {
    /// The nanoseconds in a number of ticks.
    pub open spec fn ns(self, ticks: u64) -> u64 {
        choose|ns: u64| call_ensures(self.to_ns, (ticks,), ns)
    }

    /// Every number of ticks is a number of nanoseconds, always the same one.
    pub open spec fn wf(self) -> bool {
        &&& forall|t: u64| #[trigger] call_requires(self.to_ns, (t,))
        &&& forall|t: u64, ns: u64| #[trigger]
            call_ensures(self.to_ns, (t,), ns) ==> ns == self.ns(t)
    }

    /// The nanoseconds in a number of ticks.
    pub fn ticks_to_ns(&self, ticks: u64) -> (r: u64)
        requires
            self.wf(),
        ensures
            r == self.ns(ticks),
    {
        (self.to_ns)(ticks)
    }
}

/// Ticks from one counter value to another, on the counter's circle.
pub open spec fn between(start: u64, now: u64) -> int {
    (now - start) % 0x1_0000_0000_0000_0000
}

/// What a redundant store says of a value it holds: how bad it is, nothing
/// being worse than zero, and what that is called.
#[derive(Debug, Clone, Copy)]
pub struct Verdict {
    pub rank: u8,
    pub name: &'static str,
}

/// The worse of two verdicts.
pub open spec fn worse(a: Verdict, b: Verdict) -> Verdict {
    if b.rank >= a.rank {
        b
    } else {
        a
    }
}

/// A value out of a redundant store, and what the store says of it.
#[derive(Debug, Clone, Copy)]
pub struct Banked {
    pub value: u64,
    pub verdict: Verdict,
}

/// How many laps are kept.
pub const MAX_LAPS: usize = 6;

/// A stopwatch, whose total is kept in a redundant store: on a machine with
/// nothing underneath, a flipped bit in the total is a wrong measurement that
/// nothing else would ever notice.
///
/// The store itself is outside. This is the stopwatch between two looks at it:
/// it holds what the store last gave, with the store's verdict on it, and says
/// when there is a new total to put there.
pub struct Stopwatch {
    pub running: bool,
    /// Counter ticks banked from previous runs, as the store last gave them or
    /// as they are to be put there.
    pub accumulated: Banked,
    /// Whether there is a total that has not been put in the store.
    pub unsaved: bool,
    /// The counter when the current run started.
    pub started_at: u64,
    /// The laps, oldest first.
    pub laps: Vec<u64>,
    /// The worst verdict seen since the last reset.
    pub integrity: Verdict,
    /// The verdict on a value that is as it was stored.
    pub clean: Verdict,
}

/// The laps kept once another has been recorded: the latest, the oldest
/// dropped once the table is full.
pub open spec fn laps_with(laps: Seq<u64>, ticks: u64) -> Seq<u64> {
    if laps.len() < MAX_LAPS {
        laps.push(ticks)
    } else {
        laps.skip(laps.len() - MAX_LAPS + 1).push(ticks)
    }
}

/// What a stopwatch is: the same, with its laps as a sequence.
#[verifier::ext_equal]
pub struct Watch {
    pub running: bool,
    pub accumulated: Banked,
    pub unsaved: bool,
    pub started_at: u64,
    pub laps: Seq<u64>,
    pub integrity: Verdict,
    pub clean: Verdict,
}

impl Watch {
    /// A stopwatch that has never run.
    pub open spec fn fresh(clean: Verdict) -> Watch {
        Watch {
            running: false,
            accumulated: Banked { value: 0, verdict: clean },
            unsaved: true,
            started_at: 0,
            laps: seq![],
            integrity: clean,
            clean,
        }
    }

    /// Ticks elapsed.
    pub open spec fn elapsed(self, now: u64) -> int {
        if self.running {
            self.accumulated.value + between(self.started_at, now)
        } else {
            self.accumulated.value as int
        }
    }

    /// The total is a number the counter can hold.
    pub open spec fn fits(self, now: u64) -> bool {
        self.elapsed(now) <= u64::MAX
    }

    /// The stopwatch once its accumulator has been read.
    pub open spec fn noted(self) -> Watch {
        Watch { integrity: worse(self.integrity, self.accumulated.verdict), ..self }
    }

    /// The stopwatch a toggle leaves.
    pub open spec fn toggled(self, now: u64) -> Watch {
        if self.running {
            Watch {
                running: false,
                accumulated: Banked { value: self.elapsed(now) as u64, verdict: self.clean },
                unsaved: true,
                ..self.noted()
            }
        } else {
            Watch { running: true, started_at: now, ..self }
        }
    }

    /// The total to put in the store, where there is a new one.
    pub open spec fn to_save(self) -> Option<u64> {
        if self.unsaved {
            Some(self.accumulated.value)
        } else {
            None
        }
    }

    /// The stopwatch once its total has been stored.
    pub open spec fn saved(self) -> Watch {
        Watch { unsaved: false, ..self }
    }

    /// The stopwatch a reset leaves.
    pub open spec fn zeroed(self) -> Watch {
        Watch {
            running: false,
            accumulated: Banked { value: 0, verdict: self.clean },
            unsaved: true,
            laps: seq![],
            integrity: self.clean,
            ..self
        }
    }

    /// The stopwatch once a lap has been recorded.
    pub open spec fn lapped(self, now: u64) -> Watch {
        Watch { laps: laps_with(self.laps, self.elapsed(now) as u64), ..self.noted() }
    }

    /// The stopwatch once its total has been read out of the store. One that
    /// has not been put there yet is kept.
    pub open spec fn reloaded(self, stored: Banked) -> Watch {
        if self.unsaved {
            self
        } else {
            Watch { accumulated: stored, ..self }
        }
    }

    /// Started no later than now, with no more banked than had passed by
    /// then.
    pub open spec fn within(self, now: u64) -> bool {
        if self.running {
            self.started_at <= now && self.accumulated.value <= self.started_at
        } else {
            self.accumulated.value <= now
        }
    }
}

impl View for Stopwatch {
    type V = Watch;

    open spec fn view(&self) -> Watch {
        Watch {
            running: self.running,
            accumulated: self.accumulated,
            unsaved: self.unsaved,
            started_at: self.started_at,
            laps: self.laps@,
            integrity: self.integrity,
            clean: self.clean,
        }
    }
}

impl Stopwatch {
    /// No more laps than the table has room for.
    pub open spec fn wf(self) -> bool {
        self.laps@.len() <= MAX_LAPS
    }

    pub fn new(clean: Verdict) -> (r: Stopwatch)
        ensures
            r.wf(),
            r@ == Watch::fresh(clean),
    {
        Stopwatch {
            running: false,
            accumulated: Banked { value: 0, verdict: clean },
            unsaved: true,
            started_at: 0,
            laps: Vec::new(),
            integrity: clean,
            clean,
        }
    }

    /// Takes the total out of the store, with its verdict on it, before
    /// anything is read or changed.
    pub fn reload(&mut self, stored: Banked)
        requires
            old(self).wf(),
        ensures
            final(self).wf(),
            final(self)@ == old(self)@.reloaded(stored),
    {
        if !self.unsaved {
            self.accumulated = stored;
        }
    }

    /// The total to put in the store, where there is a new one.
    ///
    /// Only a new one: writing back what was read would give a damaged total a
    /// clean code.
    pub fn save(&mut self) -> (r: Option<u64>)
        requires
            old(self).wf(),
        ensures
            final(self).wf(),
            r == old(self)@.to_save(),
            final(self)@ == old(self)@.saved(),
    {
        let unsaved: bool = self.unsaved;
        self.unsaved = false;
        if unsaved {
            Some(self.accumulated.value)
        } else {
            None
        }
    }

    /// Whether the reading is a number the counter can hold.
    pub fn readable_at(&self, now: u64) -> (r: bool)
        ensures
            r == self@.fits(now),
    {
        !self.running || now.wrapping_sub(self.started_at) <= u64::MAX - self.accumulated.value
    }

    /// Ticks elapsed, noting the accumulator's verdict as it is read.
    pub fn ticks(&mut self, now: u64) -> (r: u64)
        requires
            old(self).wf(),
            old(self)@.fits(now),
        ensures
            final(self).wf(),
            r == old(self)@.elapsed(now),
            final(self)@ == old(self)@.noted(),
    {
        if self.accumulated.verdict.rank >= self.integrity.rank {
            self.integrity = self.accumulated.verdict;
        }
        if self.running {
            self.accumulated.value + now.wrapping_sub(self.started_at)
        } else {
            self.accumulated.value
        }
    }

    /// Stops a running stopwatch, banking what it measured; starts a stopped
    /// one.
    pub fn toggle(&mut self, now: u64)
        requires
            old(self).wf(),
            old(self)@.fits(now),
        ensures
            final(self).wf(),
            final(self)@ == old(self)@.toggled(now),
    {
        if self.running {
            let banked: u64 = self.ticks(now);
            self.accumulated = Banked { value: banked, verdict: self.clean };
            self.unsaved = true;
            self.running = false;
        } else {
            self.started_at = now;
            self.running = true;
        }
    }

    /// Back to nothing.
    pub fn reset(&mut self)
        ensures
            final(self).wf(),
            final(self)@ == old(self)@.zeroed(),
    {
        self.running = false;
        self.accumulated = Banked { value: 0, verdict: self.clean };
        self.unsaved = true;
        self.laps = Vec::new();
        self.integrity = self.clean;
    }

    /// Records a lap, dropping the oldest once the table is full.
    pub fn lap(&mut self, now: u64)
        requires
            old(self).wf(),
            old(self)@.fits(now),
        ensures
            final(self).wf(),
            final(self)@ == old(self)@.lapped(now),
    {
        let ticks: u64 = self.ticks(now);
        if self.laps.len() == MAX_LAPS {
            let _ = self.laps.remove(0);
        }
        self.laps.push(ticks);
        assert(self.laps@ =~= laps_with(old(self).laps@, ticks));
    }
}

/// A run adds exactly what passed between its start and its stop, and time
/// that passes while it is stopped adds nothing.
pub proof fn a_run_measures_its_interval(watch: Watch, start: u64, stop: u64, later: u64)
    requires
        !watch.running,
        watch.toggled(start).fits(stop),
    ensures
        watch.toggled(start).toggled(stop).elapsed(later) == watch.elapsed(start) + between(
            start,
            stop,
        ),
        !watch.toggled(start).toggled(stop).running,
        watch.elapsed(later) == watch.elapsed(start),
{
}

/// The reading is what was banked, and while it runs what has passed since the
/// start on top of it, even where the counter has rolled over in between.
pub proof fn a_reading_is_what_was_banked_and_what_has_passed(watch: Watch, now: u64)
    ensures
        !watch.running ==> watch.elapsed(now) == watch.accumulated.value,
        watch.running && watch.started_at <= now ==> watch.elapsed(now) - watch.accumulated.value
            == now - watch.started_at,
        watch.running && now < watch.started_at ==> watch.elapsed(now) - watch.accumulated.value
            == 0x1_0000_0000_0000_0000 - (watch.started_at - now),
        watch.fits(now) <==> watch.elapsed(now) < 0x1_0000_0000_0000_0000,
{
}

/// A toggle moves no time: the reading at that instant is the same before and
/// after, stopped goes to running and running to stopped, and the laps stay.
pub proof fn a_toggle_keeps_the_reading(watch: Watch, now: u64)
    requires
        watch.fits(now),
    ensures
        watch.toggled(now).elapsed(now) == watch.elapsed(now),
        watch.toggled(now).running == !watch.running,
        watch.toggled(now).laps == watch.laps,
        watch.toggled(now).clean == watch.clean,
        watch.running ==> watch.toggled(now).accumulated.value == watch.elapsed(now)
            && watch.toggled(now).accumulated.verdict == watch.clean,
        !watch.running ==> watch.toggled(now).started_at == now && watch.toggled(now).accumulated
            == watch.accumulated && watch.toggled(now).integrity == watch.integrity,
{
}

/// Stopping and starting again goes on from where the stopwatch stood: at any
/// later instant it reads what it read at the stop and what has passed since the
/// new start.
pub proof fn a_resumed_watch_goes_on(watch: Watch, stop: u64, start: u64, now: u64)
    requires
        watch.running,
        watch.fits(stop),
        start <= now,
    ensures
        watch.toggled(stop).toggled(start).running,
        watch.toggled(stop).toggled(start).elapsed(now) == watch.elapsed(stop) + (now - start),
{
}

/// A lap is what the stopwatch reads at that instant, whatever was banked
/// before, and it comes after the laps already there. Six are kept: the oldest
/// makes room. The stopwatch itself goes on as if nothing had been recorded.
pub proof fn a_lap_is_the_reading(watch: Watch, now: u64, later: u64)
    requires
        watch.fits(now),
        watch.laps.len() <= 6,
    ensures
        ({
            let laps = watch.lapped(now).laps;
            &&& laps.len() == (if watch.laps.len() < 6 {
                watch.laps.len() + 1
            } else {
                6
            })
            &&& laps.last() == watch.elapsed(now)
            &&& forall|i: int|
                #![trigger laps[i]]
                0 <= i < laps.len() - 1 ==> laps[i] == watch.laps[i + (watch.laps.len() + 1
                    - laps.len())]
        }),
        watch.lapped(now).elapsed(later) == watch.elapsed(later),
        watch.lapped(now).running == watch.running,
        watch.lapped(now).accumulated == watch.accumulated,
{
}

/// Every lap of a run of them is there, in the order they were recorded, each
/// the reading at its instant.
pub proof fn laps_are_in_order(watch: Watch, a: u64, b: u64)
    requires
        watch.fits(a),
        watch.fits(b),
        watch.laps.len() <= 4,
    ensures
        watch.lapped(a).lapped(b).laps == watch.laps + seq![
            watch.elapsed(a) as u64,
            watch.elapsed(b) as u64,
        ],
{
    assert(watch.lapped(a).lapped(b).laps =~= watch.laps + seq![
        watch.elapsed(a) as u64,
        watch.elapsed(b) as u64,
    ]);
}

/// A reset leaves nothing: no time, no laps, nothing running and no verdict
/// worse than clean. It is the stopwatch that has never run.
pub proof fn a_reset_leaves_nothing(watch: Watch, clean: Verdict, now: u64)
    ensures
        watch.zeroed().elapsed(now) == 0,
        watch.zeroed().laps.len() == 0,
        !watch.zeroed().running,
        watch.zeroed().accumulated.verdict == watch.clean,
        watch.zeroed().clean == watch.clean,
        Watch::fresh(clean).elapsed(now) == 0,
        Watch::fresh(clean).laps.len() == 0,
        !Watch::fresh(clean).running,
        Watch::fresh(clean).unsaved,
        Watch::fresh(clean).integrity == clean,
        Watch::fresh(clean).clean == clean,
        Watch::fresh(clean).accumulated.verdict == clean,
{
}

/// The worse of two verdicts is one of them, no better than either; where they
/// are as bad, the later one.
pub proof fn the_worse_is_one_of_the_two(a: Verdict, b: Verdict)
    ensures
        worse(a, b) == a || worse(a, b) == b,
        worse(a, b).rank >= a.rank,
        worse(a, b).rank >= b.rank,
        a.rank == b.rank ==> worse(a, b) == b,
{
}

/// What the store gives is what is read, unless there is a newer total that has
/// not been put there; nothing but the total changes.
pub proof fn the_store_is_believed(watch: Watch, stored: Banked, now: u64)
    ensures
        watch.unsaved ==> watch.reloaded(stored) == watch,
        !watch.unsaved ==> watch.reloaded(stored).accumulated == stored,
        !watch.unsaved && !watch.running ==> watch.reloaded(stored).elapsed(now) == stored.value,
        watch.reloaded(stored).laps == watch.laps,
        watch.reloaded(stored).running == watch.running,
        watch.reloaded(stored).started_at == watch.started_at,
        watch.reloaded(stored).integrity == watch.integrity,
        watch.noted() == (Watch { integrity: watch.noted().integrity, ..watch }),
{
}

/// While it runs, the reading grows by exactly what passes.
pub proof fn a_running_watch_keeps_time(watch: Watch, a: u64, b: u64)
    requires
        watch.running,
        watch.started_at <= a <= b,
    ensures
        watch.elapsed(b) == watch.elapsed(a) + (b - a),
{
}

/// A stopwatch driven by a clock that does not run backwards never reads more
/// than the clock does, so its total always fits; and that stays so however
/// it is toggled.
pub proof fn a_watch_never_outruns_its_clock(watch: Watch, now: u64, later: u64)
    requires
        watch.within(now),
        now <= later,
    ensures
        watch.fits(now),
        watch.elapsed(now) <= now,
        watch.toggled(now).within(now),
        watch.within(later),
{
}

/// The worst verdict is kept until a reset: reading, stopping and recording
/// laps never make it look better.
pub proof fn damage_is_not_forgotten(watch: Watch, now: u64)
    ensures
        watch.noted().integrity.rank >= watch.integrity.rank,
        watch.noted().integrity.rank >= watch.accumulated.verdict.rank,
        watch.toggled(now).integrity.rank >= watch.integrity.rank,
        watch.lapped(now).integrity.rank >= watch.integrity.rank,
        watch.zeroed().integrity == watch.clean,
{
}

/// Damage in the store does not go unnoticed: once a total that was damaged has
/// been taken out of it, the next reading carries a verdict at least as bad, and
/// says so until a reset. And a total is saved exactly where it was changed: a
/// store that gives back what was put there changes nothing.
pub proof fn damage_is_noticed(watch: Watch, stored: Banked, now: u64)
    requires
        !watch.unsaved,
    ensures
        watch.reloaded(stored).noted().integrity.rank >= stored.verdict.rank,
        watch.reloaded(stored).lapped(now).integrity.rank >= stored.verdict.rank,
        watch.running ==> watch.reloaded(stored).toggled(now).integrity.rank >= stored.verdict.rank,
        watch.reloaded(watch.accumulated) == watch,
        watch.toggled(now).unsaved == watch.running,
        watch.zeroed().unsaved,
        !watch.lapped(now).unsaved && !watch.noted().unsaved,
{
}

/// A countdown.
#[derive(Debug, Clone, Copy, PartialEq, Eq, Structural)]
pub struct Timer {
    pub running: bool,
    /// What it counts down from, in nanoseconds.
    pub target_ns: u64,
    /// Counter ticks already spent.
    pub spent: u64,
    pub started_at: u64,
    /// Set when it reaches zero, cleared by a reset.
    pub expired: bool,
}

/// A minute, which is the length a timer with no keypad most often wants.
pub const DEFAULT_NS: u64 = 60_000_000_000;

/// How much a press of up or down moves the target.
pub const STEP_NS: u64 = 10_000_000_000;

impl Timer {
    /// A timer that has never run.
    pub open spec fn fresh() -> Timer {
        Timer { running: false, target_ns: DEFAULT_NS, spent: 0, started_at: 0, expired: false }
    }

    pub fn new() -> (r: Timer)
        ensures
            r == Timer::fresh(),
    {
        Timer { running: false, target_ns: DEFAULT_NS, spent: 0, started_at: 0, expired: false }
    }

    /// Ticks spent.
    pub open spec fn elapsed(self, now: u64) -> int {
        if self.running {
            self.spent + between(self.started_at, now)
        } else {
            self.spent as int
        }
    }

    /// That is a number the counter can hold.
    pub open spec fn fits(self, now: u64) -> bool {
        self.elapsed(now) <= u64::MAX
    }

    /// Whether what it has spent is a number the counter can hold.
    pub fn readable_at(&self, now: u64) -> (r: bool)
        ensures
            r == self.fits(now),
    {
        !self.running || now.wrapping_sub(self.started_at) <= u64::MAX - self.spent
    }

    pub fn elapsed_ticks(&self, now: u64) -> (r: u64)
        requires
            self.fits(now),
        ensures
            r == self.elapsed(now),
    {
        if self.running {
            self.spent + now.wrapping_sub(self.started_at)
        } else {
            self.spent
        }
    }

    /// Whether the time is up.
    pub open spec fn is_up<F: Fn(u64) -> u64>(self, now: u64, clock: Clock<F>) -> bool {
        clock.ns(self.elapsed(now) as u64) >= self.target_ns
    }

    /// Nanoseconds left.
    pub open spec fn left<F: Fn(u64) -> u64>(self, now: u64, clock: Clock<F>) -> u64 {
        if self.is_up(now, clock) {
            0
        } else {
            (self.target_ns - clock.ns(self.elapsed(now) as u64)) as u64
        }
    }

    /// The timer once it has been looked at: stopped where its time is up,
    /// rather than left running past zero.
    pub open spec fn looked_at<F: Fn(u64) -> u64>(self, now: u64, clock: Clock<F>) -> Timer {
        if self.running && self.is_up(now, clock) {
            Timer { spent: self.elapsed(now) as u64, running: false, expired: true, ..self }
        } else {
            self
        }
    }

    /// Nanoseconds left, saturating at zero.
    pub fn remaining_ns<F: Fn(u64) -> u64>(&mut self, now: u64, clock: &Clock<F>) -> (r: u64)
        requires
            old(self).fits(now),
            clock.wf(),
        ensures
            r == old(self).left(now, *clock),
            *final(self) == old(self).looked_at(now, *clock),
    {
        let ticks: u64 = self.elapsed_ticks(now);
        let spent: u64 = clock.ticks_to_ns(ticks);
        if spent >= self.target_ns {
            if self.running {
                self.spent = ticks;
                self.running = false;
                self.expired = true;
            }
            return 0;
        }
        self.target_ns - spent
    }

    /// The timer a toggle leaves. An expired one waits for a reset.
    pub open spec fn toggled(self, now: u64) -> Timer {
        if self.expired {
            self
        } else if self.running {
            Timer { spent: self.elapsed(now) as u64, running: false, ..self }
        } else {
            Timer { started_at: now, running: true, ..self }
        }
    }

    pub fn toggle(&mut self, now: u64)
        requires
            !old(self).expired ==> old(self).fits(now),
        ensures
            *final(self) == old(self).toggled(now),
    {
        if self.expired {
            return;
        }
        if self.running {
            self.spent = self.elapsed_ticks(now);
            self.running = false;
        } else {
            self.started_at = now;
            self.running = true;
        }
    }

    /// The timer a reset leaves.
    pub open spec fn zeroed(self) -> Timer {
        Timer { running: false, spent: 0, expired: false, ..self }
    }

    pub fn reset(&mut self)
        ensures
            *final(self) == old(self).zeroed(),
    {
        self.running = false;
        self.spent = 0;
        self.expired = false;
    }

    /// The target a step up or down leads to: never below one step, never
    /// past what can be counted.
    pub open spec fn stepped(target: u64, up: bool) -> u64 {
        if up {
            if target + STEP_NS > u64::MAX {
                u64::MAX
            } else {
                (target + STEP_NS) as u64
            }
        } else if target < 2 * STEP_NS {
            STEP_NS
        } else {
            (target - STEP_NS) as u64
        }
    }

    /// The timer a press of up or down leaves.
    pub open spec fn adjusted(self, up: bool) -> Timer {
        if self.running {
            self
        } else {
            Timer {
                target_ns: Timer::stepped(self.target_ns, up),
                expired: false,
                spent: 0,
                ..self
            }
        }
    }

    /// Moves the target of a timer that is not running.
    pub fn adjust(&mut self, up: bool)
        ensures
            *final(self) == old(self).adjusted(up),
    {
        if self.running {
            return;
        }
        if up {
            self.target_ns = self.target_ns.saturating_add(STEP_NS);
        } else {
            let lower: u64 = self.target_ns.saturating_sub(STEP_NS);
            self.target_ns = if lower < STEP_NS {
                STEP_NS
            } else {
                lower
            };
        }
        self.expired = false;
        self.spent = 0;
    }
}

/// What is left never exceeds what was set, and a timer that has run out says
/// zero and goes on saying it until it is reset or set again.
pub proof fn a_timer_counts_down_to_zero<F: Fn(u64) -> u64>(
    timer: Timer,
    clock: Clock<F>,
    now: u64,
    later: u64,
)
    ensures
        timer.left(now, clock) <= timer.target_ns,
        timer.is_up(now, clock) && timer.running && timer.fits(now) ==> {
            let after = timer.looked_at(now, clock);
            &&& after.expired && !after.running
            &&& after.left(later, clock) == 0
            &&& after.toggled(later) == after
        },
        !timer.is_up(now, clock) ==> timer.looked_at(now, clock) == timer,
{
}

/// What a timer has spent is what it had spent before, and while it runs what
/// has passed since the start on top of it.
pub proof fn a_timer_spends_what_passes(timer: Timer, now: u64)
    ensures
        !timer.running ==> timer.elapsed(now) == timer.spent,
        timer.running && timer.started_at <= now ==> timer.elapsed(now) - timer.spent == now
            - timer.started_at,
        timer.running && now < timer.started_at ==> timer.elapsed(now) - timer.spent
            == 0x1_0000_0000_0000_0000 - (timer.started_at - now),
        timer.fits(now) <==> timer.elapsed(now) < 0x1_0000_0000_0000_0000,
{
}

/// Pausing keeps what was spent, for as long as the pause lasts, and resuming
/// goes on from there. What it counts down from stays.
pub proof fn a_pause_keeps_what_was_spent(timer: Timer, a: u64, b: u64, c: u64)
    requires
        timer.running,
        !timer.expired,
        timer.fits(a),
    ensures
        !timer.toggled(a).running,
        timer.toggled(a).elapsed(b) == timer.elapsed(a),
        timer.toggled(a).toggled(b).running,
        timer.toggled(a).toggled(b).elapsed(c) == timer.elapsed(a) + between(b, c),
        b <= c ==> timer.toggled(a).toggled(b).elapsed(c) == timer.elapsed(a) + (c - b),
        timer.toggled(a).target_ns == timer.target_ns,
        timer.toggled(a).toggled(b).target_ns == timer.target_ns,
        !timer.toggled(a).toggled(b).expired,
{
}

/// Starting a stopped timer spends nothing yet; one that has run out does not
/// start.
pub proof fn a_start_spends_nothing(timer: Timer, now: u64, later: u64)
    requires
        !timer.running,
    ensures
        timer.toggled(now).elapsed(now) == timer.spent,
        !timer.expired ==> timer.toggled(now).running && (now <= later ==> timer.toggled(
            now,
        ).elapsed(later) == timer.spent + (later - now)),
        timer.expired ==> timer.toggled(now) == timer,
        timer.toggled(now).target_ns == timer.target_ns,
        timer.toggled(now).expired == timer.expired,
{
}

/// What is left and what was spent make up what was set, until the time is up;
/// and it is up as soon as what was spent is what was set.
pub proof fn what_is_left_makes_up_the_target<F: Fn(u64) -> u64>(
    timer: Timer,
    clock: Clock<F>,
    now: u64,
)
    ensures
        ({
            let spent = clock.ns(timer.elapsed(now) as u64);
            &&& spent <= timer.target_ns ==> timer.left(now, clock) + spent == timer.target_ns
            &&& spent >= timer.target_ns ==> timer.left(now, clock) == 0
            &&& timer.running && spent >= timer.target_ns ==> timer.looked_at(now, clock).expired
            &&& timer.running && spent < timer.target_ns ==> timer.looked_at(now, clock) == timer
            &&& !timer.running ==> timer.looked_at(now, clock) == timer
        }),
        timer.fits(now) ==> timer.looked_at(now, clock).elapsed(now) == timer.elapsed(now),
        timer.looked_at(now, clock).target_ns == timer.target_ns,
{
}

/// A reset gives back all of the time, and leaves what was set.
pub proof fn a_reset_gives_the_time_back<F: Fn(u64) -> u64>(
    timer: Timer,
    clock: Clock<F>,
    now: u64,
)
    requires
        clock.ns(0) == 0,
    ensures
        timer.zeroed().elapsed(now) == 0,
        timer.zeroed().left(now, clock) == timer.target_ns,
        !timer.zeroed().running && !timer.zeroed().expired,
        timer.zeroed().target_ns == timer.target_ns,
        Timer::fresh().left(now, clock) == 60_000_000_000,
        !Timer::fresh().running && !Timer::fresh().expired,
        Timer::fresh().elapsed(now) == 0,
{
}

/// A press moves what a stopped timer counts down from by ten seconds, up to
/// what can be counted and down to ten seconds, and gives all of it back; a
/// running timer is left alone.
pub proof fn a_press_moves_the_target(timer: Timer, up: bool, now: u64)
    ensures
        timer.running ==> timer.adjusted(up) == timer,
        !timer.running ==> {
            let after = timer.adjusted(up);
            &&& after.elapsed(now) == 0 && !after.running && !after.expired
            &&& up && timer.target_ns + 10_000_000_000 <= u64::MAX ==> after.target_ns
                == timer.target_ns + 10_000_000_000
            &&& up && timer.target_ns + 10_000_000_000 > u64::MAX ==> after.target_ns == u64::MAX
            &&& !up && timer.target_ns >= 20_000_000_000 ==> after.target_ns == timer.target_ns
                - 10_000_000_000
            &&& !up && timer.target_ns < 20_000_000_000 ==> after.target_ns == 10_000_000_000
        },
{
}

/// A step down undoes a step up, wherever there was room for both.
pub proof fn steps_undo_each_other(target: u64)
    requires
        STEP_NS <= target <= u64::MAX - STEP_NS,
    ensures
        Timer::stepped(Timer::stepped(target, true), false) == target,
        Timer::stepped(target, false) >= STEP_NS,
{
}

/// What is to be stored is the reading the watch was stopped at, or nothing at
/// all after a reset, and it is stored once: starting, recording a lap and
/// storing itself give nothing new to store.
pub proof fn a_total_is_stored_once(watch: Watch, now: u64)
    requires
        watch.elapsed(now) <= u64::MAX,
    ensures
        watch.running ==> watch.toggled(now).to_save() == Some(watch.elapsed(now) as u64),
        watch.zeroed().to_save() == Some(0u64),
        watch.saved().to_save() is None,
        watch.saved().elapsed(now) == watch.elapsed(now),
        watch.saved().laps == watch.laps && watch.saved().running == watch.running,
        !watch.running ==> watch.saved().toggled(now).to_save() is None,
        watch.saved().lapped(now).to_save() is None,
{
}

} // verus!
