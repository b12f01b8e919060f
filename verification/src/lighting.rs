//! When the lights flash, change with the time of day, and are written anew.
use vstd::prelude::*;

use crate::config;
use crate::config::{AppConfig, LightingConfig, LightingMode};
use crate::state;
use crate::state::{Engine, EngineModel, LightingChange};
use crate::status;
use crate::status::SOCKET_POLL_INTERVAL_SECS;
use crate::time;
use crate::time::{Duration, Instant};

verus! {

/// How long to wait between two looks at the time of day, in seconds.
pub const LIGHTING_MODE_CHECK_INTERVAL_SECS: u64 = 1;

/// Some slot is in use.
pub open spec fn shows_tasks(m: EngineModel) -> bool {
    exists|i: int| 0 <= i < m.slots.len() && (#[trigger] m.slots[i]) is Some
}

/// Whether the keys flash, and since when.
#[derive(Clone, Copy, Debug, PartialEq, Eq, Structural)]
pub struct FlashController {
    pub bright: bool,
    pub last_toggle: Instant,
}

/// The keys do not flash: at night, when that is switched off, or without a task to show.
pub open spec fn is_steady(mode: LightingMode, config: LightingConfig, m: EngineModel) -> bool {
    mode == LightingMode::Night || !config.flash_enabled || !shows_tasks(m)
}

/// The flashing at a moment: what is remembered, and the brightness of the frame that is due.
pub open spec fn flashed(
    flash: FlashController,
    now: Instant,
    mode: LightingMode,
    config: LightingConfig,
    m: EngineModel,
) -> (FlashController, Option<u8>) {
    if is_steady(mode, config, m) {
        (
            if flash.bright {
                flash
            } else {
                FlashController { bright: true, last_toggle: now }
            },
            None,
        )
    } else if time::elapsed(flash.last_toggle, now) < time::millis(
        config.flash_interval_ms as int,
    ) {
        (flash, None)
    } else {
        (
            FlashController { bright: !flash.bright, last_toggle: now },
            Some(
                if flash.bright {
                    config.flash_dim_percent
                } else {
                    100u8
                },
            ),
        )
    }
}

impl FlashController {
    /// The keys are bright from now on.
    pub fn new_at(now: Instant) -> (r: Self)
        ensures
            r == (FlashController { bright: true, last_toggle: now }),
    {
        FlashController { bright: true, last_toggle: now }
    }

    /// The keys are bright again from now on.
    pub fn reset_at(&mut self, now: Instant)
        ensures
            *final(self) == (FlashController { bright: true, last_toggle: now }),
    {
        self.bright = true;
        self.last_toggle = now;
    }

    /// The lights to write, where it is time to make the keys dim or bright.
    pub fn frame_if_due_for_mode(
        &mut self,
        now: Instant,
        mode: LightingMode,
        config: &AppConfig,
        engine: &Engine,
    ) -> (r: Option<Vec<LightingChange>>)
        requires
            state::has_keys(*config, state::occupied(engine@.slots)),
        ensures
            *final(self) == flashed(*old(self), now, mode, config.lighting, engine@).0,
            match flashed(*old(self), now, mode, config.lighting, engine@).1 {
                Some(percent) => r matches Some(frame) && frame@ == state::active_lights(
                    *config,
                    engine@,
                    percent,
                ),
                None => r is None,
            },
    {
        if mode == LightingMode::Night || !config.lighting.flash_enabled
            || !engine.has_active_slots() {
            if !self.bright {
                self.reset_at(now);
            }
            return None;
        }
        let interval: Duration = Duration::from_millis(config.lighting.flash_interval_ms);
        if now.saturating_duration_since(self.last_toggle).nanos < interval.nanos {
            return None;
        }
        self.bright = !self.bright;
        self.last_toggle = now;
        let brightness: u8 = if self.bright {
            100
        } else {
            config.lighting.flash_dim_percent
        };
        Some(engine.active_lighting(brightness, config))
    }

    /// How long to wait for an event at most.
    pub fn poll_interval_for_mode(
        &self,
        now: Instant,
        mode: LightingMode,
        config: &AppConfig,
        engine: &Engine,
    ) -> (r: Duration)
        ensures
            r.nanos == if is_steady(mode, config.lighting, engine@) {
                status::longest_wait()
            } else {
                let interval = time::millis(config.lighting.flash_interval_ms as int);
                let passed = time::elapsed(self.last_toggle, now);
                time::clamped(
                    if passed <= interval {
                        interval - passed
                    } else {
                        0
                    },
                    status::shortest_wait(),
                    status::longest_wait(),
                )
            },
    {
        let longest: Duration = Duration::from_secs(SOCKET_POLL_INTERVAL_SECS);
        if mode == LightingMode::Night || !config.lighting.flash_enabled
            || !engine.has_active_slots() {
            return longest;
        }
        let interval: Duration = Duration::from_millis(config.lighting.flash_interval_ms);
        interval.saturating_sub(now.saturating_duration_since(self.last_toggle)).clamped(
            Duration::from_millis(1),
            longest,
        )
    }
}

/// At night no key flashes.
pub proof fn law_night_is_steady(
    flash: FlashController,
    now: Instant,
    config: LightingConfig,
    m: EngineModel,
)
    ensures
        flashed(flash, now, LightingMode::Night, config, m).1 is None,
        flashed(flash, now, LightingMode::Night, config, m).0.bright,
{
}

/// While tasks are shown by day, the frames are dim and bright in turn.
pub proof fn law_frames_alternate(
    flash: FlashController,
    first: Instant,
    second: Instant,
    config: LightingConfig,
    m: EngineModel,
)
    requires
        !is_steady(LightingMode::Day, config, m),
        flashed(flash, first, LightingMode::Day, config, m).1 is Some,
        flashed(
            flashed(flash, first, LightingMode::Day, config, m).0,
            second,
            LightingMode::Day,
            config,
            m,
        ).1 is Some,
    ensures
        ({
            let (after, frame) = flashed(flash, first, LightingMode::Day, config, m);
            let (_, next) = flashed(after, second, LightingMode::Day, config, m);
            frame == Some(config.flash_dim_percent) && next == Some(100u8) || frame == Some(100u8)
                && next == Some(config.flash_dim_percent)
        }),
{
}

/// The mode of the lights at a minute of the day.
pub open spec fn mode_at(config: LightingConfig, minute_of_day: u16) -> LightingMode {
    if config::is_night(config, minute_of_day) {
        LightingMode::Night
    } else {
        LightingMode::Day
    }
}

/// The minute of the day, of the hour and the minute that a clock shows.
pub fn minute_of_day(hour: i32, minute: i32) -> (r: Option<u16>)
    ensures
        match r {
            Some(n) => 0 <= hour <= 23 && 0 <= minute <= 59 && n == hour * 60 + minute,
            None => !(0 <= hour <= 23 && 0 <= minute <= 59),
        },
{
    if hour < 0 || hour > 23 || minute < 0 || minute > 59 {
        return None;
    }
    Some(hour as u16 * 60 + minute as u16)
}

/// Whether it is day or night, and when that was looked up.
#[derive(Clone, Copy, Debug, PartialEq, Eq, Structural)]
pub struct LightingModeController {
    pub mode: LightingMode,
    pub last_checked: Instant,
}

impl LightingModeController {
    /// The mode at the minute `minute_of_day`, looked up now.
    pub fn new_at_minute(config: &AppConfig, minute_of_day: u16, now: Instant) -> (r: Self)
        ensures
            r.mode == mode_at(config.lighting, minute_of_day),
            r.last_checked == now,
    {
        LightingModeController {
            mode: config.lighting.mode_at_minute(minute_of_day),
            last_checked: now,
        }
    }

    /// The mode.
    pub fn mode(&self) -> (r: LightingMode)
        ensures
            r == self.mode,
    {
        self.mode
    }

    /// Takes over the mode at the minute `minute_of_day`. The result says whether it has changed.
    pub fn update_at_minute(&mut self, config: &AppConfig, minute_of_day: u16) -> (r: bool)
        ensures
            final(self).mode == mode_at(config.lighting, minute_of_day),
            final(self).last_checked == old(self).last_checked,
            r == (final(self).mode != old(self).mode),
    {
        let updated: LightingMode = config.lighting.mode_at_minute(minute_of_day);
        if updated == self.mode {
            return false;
        }
        self.mode = updated;
        true
    }

    /// Looks the mode up now. `minute` is the minute of the day, where the clock could be read.
    pub fn update_now(&mut self, now: Instant, minute: Option<u16>, config: &AppConfig) -> (r: bool)
        ensures
            final(self).last_checked == now,
            final(self).mode == (match minute {
                Some(minute) => mode_at(config.lighting, minute),
                None => old(self).mode,
            }),
            r == (final(self).mode != old(self).mode),
    {
        self.last_checked = now;
        match minute {
            Some(minute) => self.update_at_minute(config, minute),
            None => false,
        }
    }

    /// Whether it is time to look the mode up.
    pub fn is_due(&self, now: Instant) -> (r: bool)
        ensures
            r == (time::elapsed(self.last_checked, now) >= time::seconds(
                LIGHTING_MODE_CHECK_INTERVAL_SECS as int,
            )),
    {
        now.saturating_duration_since(self.last_checked).nanos >= Duration::from_secs(
            LIGHTING_MODE_CHECK_INTERVAL_SECS,
        ).nanos
    }

    /// Looks the mode up, where it is time for that. The result says whether it has changed.
    pub fn update_if_due(&mut self, now: Instant, minute: Option<u16>, config: &AppConfig) -> (r: bool)
        ensures
            if time::elapsed(old(self).last_checked, now) < time::seconds(
                LIGHTING_MODE_CHECK_INTERVAL_SECS as int,
            ) {
                *final(self) == *old(self) && !r
            } else {
                &&& final(self).last_checked == now
                &&& final(self).mode == match minute {
                    Some(minute) => mode_at(config.lighting, minute),
                    None => old(self).mode,
                }
                &&& r == (final(self).mode != old(self).mode)
            },
    {
        if !self.is_due(now) {
            return false;
        }
        self.update_now(now, minute, config)
    }
}

/// When the lights were last written anew.
#[derive(Clone, Copy, Debug, PartialEq, Eq, Structural)]
pub struct LightingWatchdog {
    pub last_reassert: Instant,
}

impl LightingWatchdog {
    /// The lights are as they should be now.
    pub fn new_at(now: Instant) -> (r: Self)
        ensures
            r.last_reassert == now,
    {
        LightingWatchdog { last_reassert: now }
    }

    /// Whether it is time to write the lights anew. The time is counted from then on.
    pub fn take_if_due(&mut self, now: Instant, interval: Duration) -> (r: bool)
        ensures
            r == (time::elapsed(old(self).last_reassert, now) >= interval.nanos),
            final(self).last_reassert == if r {
                now
            } else {
                old(self).last_reassert
            },
    {
        if now.saturating_duration_since(self.last_reassert).nanos < interval.nanos {
            return false;
        }
        self.last_reassert = now;
        true
    }
}

} // verus!
