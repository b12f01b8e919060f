//! What holds of everything that waits for its time.
use vstd::prelude::*;

use crate::config;
use crate::config::{LightingConfig, LightingMode};
use crate::daemon;
use crate::daemon::DaemonModel;
use crate::hardware;
use crate::journal_tracker;
use crate::lighting;
use crate::lighting::FlashController;
use crate::log_rotation;
use crate::state::EngineModel;
use crate::status;
use crate::status::StatusWriteRequest;
use crate::text;
use crate::time;
use crate::time::Instant;

verus! {

/// A thousand milliseconds are a second, and a milliard nanoseconds are one too.
pub proof fn law_spans_are_nanoseconds(n: int)
    ensures
        time::millis(1000 * n) == time::seconds(n),
        time::seconds(n) == 1_000_000_000 * n,
{
}

/// As much time has passed as lies between two moments, and none where the second comes first.
pub proof fn law_elapsed_time_lies_between(a: Instant, b: Instant)
    ensures
        a.nanos <= b.nanos ==> a.nanos + time::elapsed(a, b) == b.nanos,
        b.nanos <= a.nanos ==> time::elapsed(a, b) == 0,
{
}

/// A value within the limits stays, and any other becomes the limit that is nearest to it.
pub proof fn law_limits_are_kept(value: int, low: int, high: int)
    requires
        low <= high,
    ensures
        low <= time::clamped(value, low, high) <= high,
        low <= value <= high ==> time::clamped(value, low, high) == value,
        value <= low ==> time::clamped(value, low, high) == low,
        high <= value ==> time::clamped(value, low, high) == high,
{
}

/// A deferred write is due a quarter of a second after the first request. What comes later leaves
/// that time as it is, unless the status is written at once.
pub proof fn law_deferred_write_is_due_soon(now: Instant, due: Instant, later: Instant)
    requires
        now.nanos + 250_000_000 <= u128::MAX,
    ensures
        status::noted(None, now, StatusWriteRequest::Deferred) matches Some(moment)
            && moment.nanos == now.nanos + 250_000_000,
        status::noted(Some(due), later, StatusWriteRequest::Deferred) == Some(due),
        status::noted(Some(due), later, StatusWriteRequest::Unneeded) == Some(due),
        status::noted(Some(due), later, StatusWriteRequest::Immediate) is None,
        status::noted(None, later, StatusWriteRequest::Unneeded) is None,
        status::noted(None, later, StatusWriteRequest::Immediate) is None,
{
}

/// The event loop is late a quarter of a second after the moment it was to come back at, and not
/// before. Where it did not wait for a moment it is never late.
pub proof fn law_late_is_a_quarter_of_a_second(due: Instant, now: Instant)
    ensures
        status::is_late(Some(due), now) <==> now.nanos >= due.nanos + 250_000_000,
        !status::is_late(None, now),
{
}

/// Counting goes up by one until it can go no further.
pub proof fn law_counting_goes_up_by_one(count: u64)
    ensures
        count < u64::MAX ==> status::one_more(count) == count + 1,
        count == u64::MAX ==> status::one_more(count) == u64::MAX,
{
}

/// The larger of two numbers is one of them, and neither is larger.
pub proof fn law_larger_is_an_upper_bound(a: u64, b: u64)
    ensures
        status::larger(a, b) >= a,
        status::larger(a, b) >= b,
        status::larger(a, b) == a || status::larger(a, b) == b,
{
}

/// The whole milliseconds in a span fill it but for less than one.
pub proof fn law_whole_millis_fill_the_span(nanos: int)
    requires
        0 <= nanos < 1_000_000 * u64::MAX,
    ensures
        status::whole_millis(nanos) * 1_000_000 <= nanos,
        nanos < (status::whole_millis(nanos) + 1) * 1_000_000,
{
}

/// While a task is shown by day and flashing is on, the keys turn dim or bright once the interval
/// has passed, and nothing happens before that.
pub proof fn law_keys_flash_by_day(
    flash: FlashController,
    now: Instant,
    config: LightingConfig,
    m: EngineModel,
    i: int,
)
    requires
        config.flash_enabled,
        0 <= i < m.slots.len(),
        m.slots[i] is Some,
    ensures
        ({
            let (after, frame) = lighting::flashed(flash, now, LightingMode::Day, config, m);
            let due = now.nanos >= flash.last_toggle.nanos && now.nanos - flash.last_toggle.nanos
                >= config.flash_interval_ms * 1_000_000 || config.flash_interval_ms == 0;
            &&& due ==> after.bright == !flash.bright && after.last_toggle == now
            &&& due && flash.bright ==> frame == Some(config.flash_dim_percent)
            &&& due && !flash.bright ==> frame == Some(100u8)
            &&& !due ==> after == flash && frame is None
        }),
{
    assert(lighting::shows_tasks(m));
}

/// At night, without flashing or without a task to show, the keys stay bright, or become bright
/// with what is lit next, and no frame is due.
pub proof fn law_keys_are_steady_otherwise(
    flash: FlashController,
    now: Instant,
    mode: LightingMode,
    config: LightingConfig,
    m: EngineModel,
)
    requires
        mode == LightingMode::Night || !config.flash_enabled || forall|i: int|
            0 <= i < m.slots.len() ==> (#[trigger] m.slots[i]) is None,
    ensures
        ({
            let (after, frame) = lighting::flashed(flash, now, mode, config, m);
            &&& after.bright
            &&& frame is None
            &&& flash.bright ==> after.last_toggle == flash.last_toggle
            &&& !flash.bright ==> after.last_toggle == now
        }),
{
    if lighting::shows_tasks(m) {
        let i = choose|i: int| 0 <= i < m.slots.len() && (#[trigger] m.slots[i]) is Some;
        assert(m.slots[i] is Some);
    }
}

/// The minutes from `start` round the clock to `minute`.
pub open spec fn minutes_since(start: int, minute: int) -> int {
    (minute - start) % 1440
}

/// The night begins at its first minute and lasts, round the clock, until its end.
pub proof fn law_night_lasts_from_start_to_end(config: LightingConfig, minute: u16)
    requires
        minute < 1440,
        config.night_start_minute < 1440,
        config.night_end_minute < 1440,
    ensures
        lighting::mode_at(config, minute) == LightingMode::Night <==> minutes_since(
            config.night_start_minute as int,
            minute as int,
        ) < minutes_since(config.night_start_minute as int, config.night_end_minute as int),
        lighting::mode_at(config, minute) == LightingMode::Day <==> !config::is_night(
            config,
            minute,
        ),
{
    let start = config.night_start_minute as int;
    let end = config.night_end_minute as int;
    lemma_round_the_clock(start, minute as int);
    lemma_round_the_clock(start, end);
}

proof fn lemma_round_the_clock(start: int, minute: int)
    requires
        0 <= start < 1440,
        0 <= minute < 1440,
    ensures
        minute >= start ==> minutes_since(start, minute) == minute - start,
        minute < start ==> minutes_since(start, minute) == minute - start + 1440,
{
}

/// The moment at which the keys turn dim or bright next, in nanoseconds.
pub open spec fn next_turn(daemon: DaemonModel) -> int {
    daemon.flash.last_toggle.nanos + daemon.config.lighting.flash_interval_ms * 1_000_000
}

/// The larger of two numbers.
pub open spec fn at_least(a: int, b: int) -> int {
    if a >= b {
        a
    } else {
        b
    }
}

/// The daemon never sleeps past anything that is due: neither a deferred write, nor a look at the
/// journals, nor a turn of the flashing, nor a press of a G-key. It sleeps a millisecond at least
/// and a quarter of a second at most.
pub proof fn law_nothing_is_slept_through(daemon: DaemonModel, now: Instant)
    requires
        now.nanos >= daemon.flash.last_toggle.nanos,
    ensures
        ({
            let wait = daemon.longest_wait(now);
            &&& 1_000_000 <= wait <= 250_000_000
            &&& daemon.journals.next_poll.nanos >= now.nanos ==> wait <= at_least(
                1_000_000,
                daemon.journals.next_poll.nanos - now.nanos,
            )
            &&& daemon.journals.next_poll.nanos <= now.nanos ==> wait == 1_000_000
            &&& daemon.persistence.deadline matches Some(due) ==> wait <= at_least(
                1_000_000,
                due.nanos - now.nanos,
            )
            &&& !lighting::is_steady(
                daemon.lighting_mode.mode,
                daemon.config.lighting,
                daemon.engine,
            ) ==> wait <= at_least(1_000_000, next_turn(daemon) - now.nanos)
            &&& daemon.hardware.keyboard is Some && daemon.hardware.keyboard->0.navigates()
                ==> wait <= 25_000_000
        }),
{
}

/// The daemon does not come back for nothing: where it sleeps less than a quarter of a second,
/// something is due by then, or G-keys are looked at.
pub proof fn law_daemon_wakes_for_a_reason(daemon: DaemonModel, now: Instant)
    requires
        now.nanos >= daemon.flash.last_toggle.nanos,
        daemon.longest_wait(now) < 250_000_000,
    ensures
        ({
            let back = now.nanos + daemon.longest_wait(now);
            ||| daemon.journals.next_poll.nanos <= back
            ||| daemon.persistence.deadline is Some && daemon.persistence.deadline->0.nanos <= back
            ||| !lighting::is_steady(
                daemon.lighting_mode.mode,
                daemon.config.lighting,
                daemon.engine,
            ) && next_turn(daemon) <= back
            ||| daemon.hardware.keyboard is Some && daemon.hardware.keyboard->0.navigates()
                && daemon.longest_wait(now) == 25_000_000
        }),
{
}

/// The keys do not flash exactly at night, with flashing switched off, or without a task on a key.
pub proof fn law_what_makes_keys_steady(
    mode: LightingMode,
    config: LightingConfig,
    m: EngineModel,
    i: int,
)
    ensures
        mode == LightingMode::Night ==> lighting::is_steady(mode, config, m),
        !config.flash_enabled ==> lighting::is_steady(mode, config, m),
        (forall|j: int| 0 <= j < m.slots.len() ==> (#[trigger] m.slots[j]) is None)
            ==> lighting::is_steady(mode, config, m),
        mode == LightingMode::Day && config.flash_enabled && 0 <= i < m.slots.len()
            && m.slots[i] is Some ==> !lighting::is_steady(mode, config, m),
{
    if lighting::shows_tasks(m) {
        let j = choose|j: int| 0 <= j < m.slots.len() && (#[trigger] m.slots[j]) is Some;
        assert(m.slots[j] is Some);
    }
    if 0 <= i < m.slots.len() && m.slots[i] is Some {
        assert(lighting::shows_tasks(m));
    }
}

/// Something that is looked at every `span` nanoseconds is due exactly when that much has passed
/// since the last look.
pub open spec fn is_due(last: Instant, now: Instant, span: int) -> bool {
    now.nanos >= last.nanos + span
}

/// How often things are looked at: the configuration every five seconds, the time of day every
/// second, the log every minute, the journals four times a second, the keyboard that failed after
/// five seconds, and a late event loop is reported every half minute.
pub proof fn law_how_often_things_are_looked_at(last: Instant, now: Instant)
    ensures
        time::elapsed(last, now) >= time::seconds(daemon::CONFIG_CHECK_INTERVAL_SECS as int)
            <==> is_due(last, now, 5_000_000_000),
        time::elapsed(last, now) >= time::seconds(
            lighting::LIGHTING_MODE_CHECK_INTERVAL_SECS as int,
        ) <==> is_due(last, now, 1_000_000_000),
        time::elapsed(last, now) >= time::seconds(
            log_rotation::LOG_ROTATION_CHECK_INTERVAL_SECS as int,
        ) <==> is_due(last, now, 60_000_000_000),
        time::elapsed(last, now) >= time::millis(journal_tracker::JOURNAL_POLL_INTERVAL_MS as int)
            <==> is_due(last, now, 250_000_000),
        time::elapsed(last, now) >= time::seconds(hardware::DEVICE_RETRY_INTERVAL_SECS as int)
            <==> is_due(last, now, 5_000_000_000),
        time::elapsed(last, now) >= time::seconds(status::EVENT_LOOP_REPORT_INTERVAL_SECS as int)
            <==> is_due(last, now, 30_000_000_000),
        time::elapsed(last, now) >= time::millis(status::STATUS_WAIT_MS as int) <==> is_due(
            last,
            now,
            500_000_000,
        ),
{
}

/// What the log says of a delay names its length, how many there were, and the longest, each as a
/// number behind its name.
pub proof fn law_delays_are_told(delay_ms: u64, count: u64, max_delay_ms: u64)
    ensures
        ({
            let told = status::delay_text(delay_ms, count, max_delay_ms);
            let first = "delay_ms="@ + text::decimal(delay_ms as nat);
            let second = " count="@ + text::decimal(count as nat);
            let third = " max_delay_ms="@ + text::decimal(max_delay_ms as nat);
            told == first + second + third
        }),
{
    let first = "delay_ms="@ + text::decimal(delay_ms as nat);
    let second = " count="@ + text::decimal(count as nat);
    let third = " max_delay_ms="@ + text::decimal(max_delay_ms as nat);
    assert(status::delay_text(delay_ms, count, max_delay_ms) =~= first + second + third);
}

} // verus!
