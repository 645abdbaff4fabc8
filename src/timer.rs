use std::time::{Duration, Instant};
use vstd::arithmetic::div_mod::lemma_fundamental_div_mod_converse;
use vstd::prelude::*;

verus! {

/// `std::time::Instant`, held as an opaque value: a timer's reference instant.
#[verifier::external_type_specification]
#[verifier::external_body]
pub struct ExInstant(Instant);

/// Ticks per second at which a timer counts down.
pub const TIMER_FREQUENCY: u8 = 60;

/// Length of one tick in whole microseconds.
pub open spec fn tick_micros(frequency: u8) -> int {
    1_000_000int / frequency as int
}

/// What a countdown that held `value` reads after `ticks` whole ticks: it
/// stops at zero.
pub open spec fn countdown(value: u8, ticks: int) -> u8 {
    if ticks >= value as int {
        0
    } else {
        (value - ticks) as u8
    }
}

/// Relies on `Instant::now`: a reading of the monotonic clock.
#[verifier::external_body]
fn now() -> Instant {
    Instant::now()
}

/// Relies on `Instant::elapsed` and `Duration::as_micros`: the whole
/// microseconds that passed since `start`.
#[verifier::external_body]
fn elapsed_micros(start: &Instant) -> u128 {
    start.elapsed().as_micros()
}

/// Relies on `Instant::checked_add`: `start` moved `micros` microseconds
/// later, or `None` where the clock cannot represent that instant.
#[verifier::external_body]
fn later_by(start: &Instant, micros: u64) -> Option<Instant> {
    start.checked_add(Duration::from_micros(micros))
}

/// An 8-bit countdown that decays by one every tick of wall-clock time. The
/// stored value is the reading at `start`; a reading consumes the whole ticks
/// since then and moves `start` on by exactly their length, so the part of a
/// tick that has passed is kept for the next reading.
pub struct Timer {
    value: u8,
    frequency: u8,
    start: Instant,
}

impl Default for Timer {
    /// As `Timer::new`.
    fn default() -> (r: Timer)
        ensures
            r.stored() == 0,
    {
        Timer::new()
    }
}

impl Timer {
    #[verifier::type_invariant]
    spec fn inv(&self) -> bool {
        self.frequency == TIMER_FREQUENCY
    }

    /// The value as of the last reading or setting.
    pub closed spec fn stored(&self) -> u8 {
        self.value
    }

    /// Ticks per second.
    pub closed spec fn spec_frequency(&self) -> u8 {
        self.frequency
    }

    /// A timer at zero.
    pub fn new() -> (r: Timer)
        ensures
            r.stored() == 0,
    {
        Timer { value: 0, frequency: TIMER_FREQUENCY, start: now() }
    }

    /// Ticks per second.
    pub fn frequency(&self) -> (r: u8)
        ensures
            r == TIMER_FREQUENCY,
            r == self.spec_frequency(),
    {
        proof {
            use_type_invariant(self);
        }
        self.frequency
    }

    /// Sets the countdown to `value`, starting now.
    pub fn set_value(&mut self, value: u8)
        ensures
            final(self).stored() == value,
    {
        proof {
            use_type_invariant(&*self);
        }
        self.value = value;
        self.start = now();
    }

    /// The countdown now: the stored value less the whole ticks since it was
    /// stored, and never below zero.
    pub fn get_value(&mut self) -> (r: u8)
        ensures
            final(self).stored() == r,
            exists|ticks: int| ticks >= 0 && r == countdown(old(self).stored(), ticks),
    {
        let elapsed = elapsed_micros(&self.start);
        self.advance(elapsed)
    }

    /// The countdown after `elapsed_micros` microseconds since the last
    /// reading or setting: the whole ticks in that time are taken off the
    /// stored value, and the reference instant moves on by their length.
    pub fn advance(&mut self, elapsed_micros: u128) -> (r: u8)
        ensures
            r == countdown(old(self).stored(), elapsed_micros as int / tick_micros(TIMER_FREQUENCY)),
            final(self).stored() == r,
    {
        proof {
            use_type_invariant(&*self);
        }
        let tick: u128 = 1_000_000 / self.frequency as u128;
        assert(self.frequency == 60);
        assert(1_000_000int / 60int == 16666) by (nonlinear_arith);
        assert(tick == tick_micros(TIMER_FREQUENCY) && tick == 16666);
        let ticks: u128 = elapsed_micros / tick;
        assert(ticks * tick <= elapsed_micros) by (nonlinear_arith)
            requires
                ticks == elapsed_micros / tick,
                tick > 0,
        ;
        let consumed: u128 = ticks * tick;
        let moved = if consumed <= u64::MAX as u128 {
            later_by(&self.start, consumed as u64)
        } else {
            None
        };
        self.start = match moved {
            Some(start) => start,
            None => now(),
        };
        if ticks > u8::MAX as u128 {
            self.value = 0;
        } else if (ticks as u8) > self.value {
            self.value = 0;
        } else {
            self.value = self.value - ticks as u8;
        }
        self.value
    }
}

/// A timer set to `value` reads `value - k` once `k` whole ticks and any part
/// of another have passed, and zero from `value` ticks on: it never wraps
/// below zero.
pub proof fn lemma_countdown_after_ticks(value: u8, k: nat, part: nat)
    requires
        part < tick_micros(TIMER_FREQUENCY),
    ensures
        countdown(value, (k * tick_micros(TIMER_FREQUENCY) + part) / tick_micros(TIMER_FREQUENCY))
            == if k >= value {
            0
        } else {
            value - k
        },
{
    let t = tick_micros(TIMER_FREQUENCY);
    assert(1_000_000int / 60int == 16666) by (nonlinear_arith);
    assert(t == 16666);
    lemma_fundamental_div_mod_converse(k * t + part, t, k as int, part as int);
}

} // verus!
