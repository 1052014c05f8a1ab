//! The flashing pattern of a single-colour LED: the state that the platform
//! updates, and the plan that the LED's driver loop carries out.
use std::time::Duration;
use vstd::prelude::*;

use crate::status::Status;

verus! {

/// The length of a duration in nanoseconds (`Duration::as_nanos`).
pub uninterp spec fn duration_nanos(d: Duration) -> nat;

/// What `Duration / u32` gives.
pub uninterp spec fn duration_quotient(d: Duration, n: u32) -> Duration;

/// `Duration::as_nanos`: the whole length in nanoseconds.
#[verifier::external_body]
fn duration_as_nanos(d: &Duration) -> (r: u128)
    ensures
        r == duration_nanos(*d),
{
    d.as_nanos()
}

/// `Duration::from_secs`: a duration of that many seconds.
#[verifier::external_body]
fn duration_from_secs(secs: u64) -> (r: Duration)
    ensures
        duration_nanos(r) == secs as nat * 1_000_000_000,
{
    Duration::from_secs(secs)
}

/// `Duration / u32`, which panics on a zero divisor.
#[verifier::external_body]
fn duration_div(d: Duration, n: u32) -> (r: Duration)
    requires
        n != 0,
    ensures
        r == duration_quotient(d, n),
{
    d / n
}

/// How many flashes make a burst, how long the burst lasts, and the pause after it.
#[derive(Clone, Copy)]
pub struct FlashConfig {
    pub flashes: u32,
    pub burst: Duration,
    pub pause: Duration,
}

/// Why a flash pattern was refused.
#[derive(Debug, Clone, Copy, PartialEq, Eq, Structural)]
pub enum LedError {
    /// The burst or the pause is shorter than 100 ms.
    DurationTooShort,
}

/// What the LED does until its pattern changes.
pub enum LedPlan {
    /// Stay dark, waiting for a change for at most this long.
    Dark(Duration),
    /// Stay lit, waiting for a change for at most this long.
    Lit(Duration),
    /// Flash `flashes` times, on and off for `on_off` each, then pause.
    Flash { flashes: u32, on_off: Duration, pause: Duration },
}

/// The shortest burst or pause that a pattern may have, in nanoseconds.
pub open spec fn min_flash_nanos() -> nat {
    100_000_000
}

/// A pattern of one flash with no burst and no pause means steadily lit.
pub open spec fn is_steady(c: FlashConfig) -> bool {
    c.flashes == 1 && duration_nanos(c.burst) == 0 && duration_nanos(c.pause) == 0
}

/// The patterns whose plan can be worked out: a flashing pattern needs twice its
/// number of flashes to fit in a `u32`.
pub open spec fn plan_defined(c: FlashConfig) -> bool {
    c.flashes == 0 || is_steady(c) || c.flashes <= 0x7fff_ffff
}

/// How long the LED waits for a change while it stays dark or lit: five minutes.
pub open spec fn idle_wait_nanos() -> nat {
    300_000_000_000
}

/// The state that the platform shares with the LED's driver: the pattern, and whether
/// it changed since the driver last took it.
pub struct MonoLedManager {
    config: FlashConfig,
    updated: bool,
}

impl MonoLedManager {
    /// The flash pattern last set.
    pub closed spec fn config(&self) -> FlashConfig {
        self.config
    }

    /// Whether a new pattern was set since the driver last took one.
    pub closed spec fn updated(&self) -> bool {
        self.updated
    }

    /// Three flashes in a one-second burst, then a one-second pause.
    pub fn new() -> (r: Self)
        ensures
            r.config().flashes == 3,
            duration_nanos(r.config().burst) == 1_000_000_000,
            duration_nanos(r.config().pause) == 1_000_000_000,
            !r.updated(),
    {
        MonoLedManager {
            config: FlashConfig {
                flashes: 3,
                burst: duration_from_secs(1),
                pause: duration_from_secs(1),
            },
            updated: false,
        }
    }

    /// Sets a whole pattern; a burst or pause under 100 ms is refused and changes nothing.
    pub fn set_flash_config(&mut self, flashes: u32, burst: Duration, pause: Duration) -> (r: Result<(), LedError>)
        ensures
            if duration_nanos(burst) < min_flash_nanos() || duration_nanos(pause) < min_flash_nanos() {
                r == Err::<(), LedError>(LedError::DurationTooShort) && *final(self) == *old(self)
            } else {
                r is Ok && final(self).config() == (FlashConfig { flashes, burst, pause })
                    && final(self).updated()
            },
    {
        if duration_as_nanos(&burst) < 100_000_000 || duration_as_nanos(&pause) < 100_000_000 {
            return Err(LedError::DurationTooShort);
        }
        self.config.flashes = flashes;
        self.config.burst = burst;
        self.config.pause = pause;
        self.updated = true;
        Ok(())
    }

    /// Changes the number of flashes only.
    pub fn set_flashes(&mut self, flashes: u32)
        ensures
            final(self).config() == (FlashConfig { flashes, ..old(self).config() }),
            final(self).updated(),
    {
        self.config.flashes = flashes;
        self.updated = true;
    }

    /// Lights the LED steadily.
    pub fn set_on(&mut self)
        ensures
            is_steady(final(self).config()),
            final(self).updated(),
    {
        self.config.flashes = 1;
        self.config.burst = duration_from_secs(0);
        self.config.pause = duration_from_secs(0);
        self.updated = true;
    }

    /// Darkens the LED.
    pub fn set_off(&mut self)
        ensures
            final(self).config() == (FlashConfig { flashes: 0, ..old(self).config() }),
            final(self).updated(),
    {
        self.config.flashes = 0;
        self.updated = true;
    }

    /// Shows a status: one flash while starting, dark while running, two flashes in
    /// setup and three on error.
    pub fn set_status(&mut self, status: &Status)
        ensures
            final(self).updated(),
            final(self).config() == (FlashConfig {
                flashes: match *status {
                    Status::Initializing(_) => 1u32,
                    Status::Running => 0u32,
                    Status::Setup => 2u32,
                    Status::Error => 3u32,
                },
                ..old(self).config()
            }),
    {
        match status {
            Status::Initializing(_) => self.set_flashes(1),
            Status::Running => self.set_off(),
            Status::Setup => self.set_flashes(2),
            Status::Error => self.set_flashes(3),
        }
    }

    /// What the driver's wait for a change reports when it ends, by a change or by
    /// its timeout: whether the pattern changed since the driver last took it.
    pub fn wait_or_interrupt(&self) -> (r: bool)
        ensures
            r == self.updated(),
    {
        self.updated
    }

    /// The driver takes the current pattern; it counts as seen from then on.
    pub fn take_config(&mut self) -> (r: FlashConfig)
        ensures
            r == old(self).config(),
            final(self).config() == old(self).config(),
            !final(self).updated(),
    {
        self.updated = false;
        self.config
    }
}

/// The plan for a pattern: dark with no flashes, lit when steady, else flashing with
/// each on and off phase lasting the burst divided by twice the flashes.
pub fn plan(config: &FlashConfig) -> (r: LedPlan)
    requires
        plan_defined(*config),
    ensures
        config.flashes == 0 ==> (r matches LedPlan::Dark(d) && duration_nanos(d) == idle_wait_nanos()),
        is_steady(*config) ==> (r matches LedPlan::Lit(d) && duration_nanos(d) == idle_wait_nanos()),
        config.flashes != 0 && !is_steady(*config) ==> (r matches LedPlan::Flash { flashes, on_off, pause }
            && flashes == config.flashes && pause == config.pause
            && on_off == duration_quotient(config.burst, (config.flashes * 2) as u32)),
{
    if config.flashes == 0 {
        LedPlan::Dark(duration_from_secs(300))
    } else if config.flashes == 1 && duration_as_nanos(&config.burst) == 0 && duration_as_nanos(&config.pause) == 0 {
        LedPlan::Lit(duration_from_secs(300))
    } else {
        LedPlan::Flash {
            flashes: config.flashes,
            on_off: duration_div(config.burst, config.flashes * 2),
            pause: config.pause,
        }
    }
}

/// Once running, the LED is dark; switched on, it is lit: whatever the pattern was before.
pub proof fn lemma_status_plans(before: FlashConfig, after_running: FlashConfig, after_on: FlashConfig)
    requires
        after_running == (FlashConfig { flashes: 0, ..before }),
        is_steady(after_on),
    ensures
        plan_defined(after_running),
        plan_defined(after_on),
        after_running.flashes == 0,
        !(after_on.flashes == 0),
{
}

} // verus!
