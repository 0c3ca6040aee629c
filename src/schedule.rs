use vstd::prelude::*;

verus! {

/// A repeating timer that gates a rule: it fires on each tick that
/// completes its interval, and carries the remainder over.
pub struct Timer {
    pub interval_ms: u64,
    pub elapsed_ms: u64,
}

/// Whether a tick of `delta_ms` completes the interval of `t`.
pub open spec fn fires(t: Timer, delta_ms: u64) -> bool {
    t.elapsed_ms + delta_ms >= t.interval_ms
}

/// `t` after a tick of `delta_ms`: the remainder of the elapsed time carried over.
pub open spec fn advanced(t: Timer, delta_ms: u64) -> Timer {
    Timer { interval_ms: t.interval_ms, elapsed_ms: ((t.elapsed_ms + delta_ms) % (t.interval_ms as int)) as u64 }
}

impl Timer {
    /// The interval is not zero and the carried time is below it.
    pub open spec fn wf(self) -> bool {
        0 < self.interval_ms && self.elapsed_ms < self.interval_ms
    }

    /// A timer of `interval_ms` milliseconds that has not run yet.
    pub fn new(interval_ms: u64) -> (r: Timer)
        requires
            interval_ms > 0,
        ensures
            r.wf(),
            r.interval_ms == interval_ms,
            r.elapsed_ms == 0,
    {
        Timer { interval_ms, elapsed_ms: 0 }
    }

    /// Advances the timer by `delta_ms`; true when the interval completed.
    pub fn tick(&mut self, delta_ms: u64) -> (fired: bool)
        requires
            old(self).wf(),
        ensures
            final(self).wf(),
            *final(self) == advanced(*old(self), delta_ms),
            fired == fires(*old(self), delta_ms),
    {
        let total = self.elapsed_ms as u128 + delta_ms as u128;
        let fired = total >= self.interval_ms as u128;
        self.elapsed_ms = (total % self.interval_ms as u128) as u64;
        fired
    }
}

/// Interval of the movement rules, in milliseconds.
pub const MOVEMENT_INTERVAL_MS: u64 = 500;

/// Interval of the reproduction rules, in milliseconds.
pub const REPRODUCTION_INTERVAL_MS: u64 = 1000;

/// Interval of pellet replenishment, in milliseconds.
pub const RAIN_INTERVAL_MS: u64 = 10;

/// Interval of energy decay used by [`Schedule::standard`], in milliseconds.
pub const DECAY_INTERVAL_MS: u64 = 2000;

/// Which timer-gated rules are due in a pass. Consumption and the
/// spawn-on-tag rules run in every pass.
#[derive(Clone, Copy, Debug, PartialEq, Eq, Structural)]
pub struct Due {
    pub movement: bool,
    pub decay: bool,
    pub reproduction: bool,
    pub rain: bool,
}

/// The timers of the timer-gated rules.
pub struct Schedule {
    pub movement: Timer,
    pub decay: Timer,
    pub reproduction: Timer,
    pub rain: Timer,
}

/// The rules that a tick of `delta_ms` makes due.
pub open spec fn due_after(s: Schedule, delta_ms: u64) -> Due {
    Due {
        movement: fires(s.movement, delta_ms),
        decay: fires(s.decay, delta_ms),
        reproduction: fires(s.reproduction, delta_ms),
        rain: fires(s.rain, delta_ms),
    }
}

/// `s` after a tick of `delta_ms`.
pub open spec fn schedule_after(s: Schedule, delta_ms: u64) -> Schedule {
    Schedule {
        movement: advanced(s.movement, delta_ms),
        decay: advanced(s.decay, delta_ms),
        reproduction: advanced(s.reproduction, delta_ms),
        rain: advanced(s.rain, delta_ms),
    }
}

impl Schedule {
    /// Every timer is well formed.
    pub open spec fn wf(self) -> bool {
        self.movement.wf() && self.decay.wf() && self.reproduction.wf() && self.rain.wf()
    }

    /// The standard cadences, with energy decay every `decay_interval_ms`.
    pub fn new(decay_interval_ms: u64) -> (r: Schedule)
        requires
            decay_interval_ms > 0,
        ensures
            r.wf(),
            r.movement.interval_ms == MOVEMENT_INTERVAL_MS && r.movement.elapsed_ms == 0,
            r.decay.interval_ms == decay_interval_ms && r.decay.elapsed_ms == 0,
            r.reproduction.interval_ms == REPRODUCTION_INTERVAL_MS && r.reproduction.elapsed_ms == 0,
            r.rain.interval_ms == RAIN_INTERVAL_MS && r.rain.elapsed_ms == 0,
    {
        Schedule {
            movement: Timer::new(MOVEMENT_INTERVAL_MS),
            decay: Timer::new(decay_interval_ms),
            reproduction: Timer::new(REPRODUCTION_INTERVAL_MS),
            rain: Timer::new(RAIN_INTERVAL_MS),
        }
    }

    /// The standard cadences with energy decay every two seconds.
    pub fn standard() -> (r: Schedule)
        ensures
            r.wf(),
            r.movement.interval_ms == MOVEMENT_INTERVAL_MS && r.movement.elapsed_ms == 0,
            r.decay.interval_ms == DECAY_INTERVAL_MS && r.decay.elapsed_ms == 0,
            r.reproduction.interval_ms == REPRODUCTION_INTERVAL_MS && r.reproduction.elapsed_ms == 0,
            r.rain.interval_ms == RAIN_INTERVAL_MS && r.rain.elapsed_ms == 0,
    {
        Schedule::new(DECAY_INTERVAL_MS)
    }

    /// Advances every timer by `delta_ms` and reports which rules are due.
    pub fn tick(&mut self, delta_ms: u64) -> (r: Due)
        requires
            old(self).wf(),
        ensures
            final(self).wf(),
            r == due_after(*old(self), delta_ms),
            *final(self) == schedule_after(*old(self), delta_ms),
    {
        let movement = self.movement.tick(delta_ms);
        let decay = self.decay.tick(delta_ms);
        let reproduction = self.reproduction.tick(delta_ms);
        let rain = self.rain.tick(delta_ms);
        Due { movement, decay, reproduction, rain }
    }
}

} // verus!
