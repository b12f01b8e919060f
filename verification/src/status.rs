//! When the status file is written, and what went wrong with it.
use vstd::prelude::*;

use crate::text;
use crate::time;
use crate::time::{duration_millis, Duration, Instant};
use crate::wire;

verus! {

/// The longest wait for an event, in seconds.
pub const SOCKET_POLL_INTERVAL_SECS: u64 = 1;

/// How long a status that shows nothing new may wait, in milliseconds.
pub const STATUS_WRITE_DEBOUNCE_INTERVAL_MS: u64 = 250;

/// A delay of the event loop that is worth noting, in milliseconds.
pub const EVENT_LOOP_DELAY_THRESHOLD_MS: u64 = 250;

/// How long to wait between two reports of delays, in seconds.
pub const EVENT_LOOP_REPORT_INTERVAL_SECS: u64 = 30;

/// How long to wait for the daemon to write its status, in milliseconds.
pub const STATUS_WAIT_MS: u64 = 500;

/// Whether the status has to be written.
#[derive(Clone, Copy, Debug, PartialEq, Eq, Structural)]
pub enum StatusWriteRequest {
    Unneeded,
    Deferred,
    Immediate,
}

/// The longest wait for an event.
pub open spec fn longest_wait() -> int {
    time::seconds(SOCKET_POLL_INTERVAL_SECS as int)
}

/// The shortest wait for an event.
pub open spec fn shortest_wait() -> int {
    time::millis(1)
}

/// When the status is written next, after a request. A deferred write keeps its time.
pub open spec fn noted(deadline: Option<Instant>, now: Instant, request: StatusWriteRequest) -> Option<
    Instant,
> {
    match request {
        StatusWriteRequest::Unneeded => deadline,
        StatusWriteRequest::Deferred => match deadline {
            Some(_) => deadline,
            None => Some(
                Instant {
                    nanos: (now.nanos + time::millis(STATUS_WRITE_DEBOUNCE_INTERVAL_MS as int))
                        as u128,
                },
            ),
        },
        StatusWriteRequest::Immediate => None,
    }
}

/// When the status is written next, after some requests.
pub open spec fn noted_all(
    deadline: Option<Instant>,
    requests: Seq<(Instant, StatusWriteRequest)>,
) -> Option<Instant>
    decreases requests.len(),
{
    if requests.len() == 0 {
        deadline
    } else {
        let (now, request) = requests.last();
        noted(noted_all(deadline, requests.drop_last()), now, request)
    }
}

/// When the status is written next.
#[derive(Clone, Copy, Debug)]
pub struct StatusPersistence {
    pub deadline: Option<Instant>,
}

impl StatusPersistence {
    /// Nothing has to be written.
    pub fn new() -> (r: Self)
        ensures
            r.deadline is None,
    {
        StatusPersistence { deadline: None }
    }

    /// Takes note of a request. The result says whether to write now.
    pub fn note(&mut self, now: Instant, request: StatusWriteRequest) -> (r: bool)
        requires
            request == StatusWriteRequest::Deferred ==> now.nanos + time::millis(
                STATUS_WRITE_DEBOUNCE_INTERVAL_MS as int,
            ) <= u128::MAX,
        ensures
            final(self).deadline == noted(old(self).deadline, now, request),
            r == (request == StatusWriteRequest::Immediate),
    {
        match request {
            StatusWriteRequest::Unneeded => false,
            StatusWriteRequest::Deferred => {
                if self.deadline.is_none() {
                    self.deadline = Some(
                        now.after(Duration::from_millis(STATUS_WRITE_DEBOUNCE_INTERVAL_MS)),
                    );
                }
                false
            },
            StatusWriteRequest::Immediate => {
                self.deadline = None;
                true
            },
        }
    }

    /// How long to wait for an event at most.
    pub fn poll_interval(&self, now: Instant) -> (r: Duration)
        ensures
            r.nanos == time::clamped(
                match self.deadline {
                    Some(deadline) => time::elapsed(now, deadline),
                    None => longest_wait(),
                },
                shortest_wait(),
                longest_wait(),
            ),
    {
        let wait: Duration = match self.deadline {
            Some(deadline) => deadline.saturating_duration_since(now),
            None => Duration::from_secs(SOCKET_POLL_INTERVAL_SECS),
        };
        wait.clamped(Duration::from_millis(1), Duration::from_secs(SOCKET_POLL_INTERVAL_SECS))
    }

    /// Whether a deferred write is due. It is not due again after that.
    pub fn take_if_due(&mut self, now: Instant) -> (r: bool)
        ensures
            r == (old(self).deadline matches Some(deadline) && now.nanos >= deadline.nanos),
            if r {
                final(self).deadline is None
            } else {
                *final(self) == *old(self)
            },
    {
        match self.deadline {
            Some(deadline) => {
                if now.nanos < deadline.nanos {
                    false
                } else {
                    self.deadline = None;
                    true
                }
            },
            None => false,
        }
    }

    /// The status has been written.
    pub fn mark_flushed(&mut self)
        ensures
            final(self).deadline is None,
    {
        self.deadline = None;
    }
}

/// Something that went wrong, and when.
#[derive(Clone, Debug)]
pub struct ObservedFailure {
    pub occurred_at: u64,
    pub message: String,
}

/// A delay of the event loop, and when it was seen.
#[derive(Clone, Copy, Debug, PartialEq, Eq, Structural)]
pub struct ObservedDelay {
    pub occurred_at: u64,
    pub delay_ms: u64,
}

/// How punctual the event loop is.
#[derive(Clone, Copy, Debug)]
pub struct EventLoopHealth {
    pub wait_deadline: Option<Instant>,
    pub last_reported_at: Option<Instant>,
    pub delay_count: u64,
    pub last_delay: Option<ObservedDelay>,
    pub max_delay_ms: u64,
}

/// One more, as far as it can be counted.
pub open spec fn one_more(count: u64) -> u64 {
    if count == u64::MAX {
        count
    } else {
        (count + 1) as u64
    }
}

/// One more, as far as it can be counted.
pub fn count_one_more(count: u64) -> (r: u64)
    ensures
        r == one_more(count),
{
    if count == u64::MAX {
        count
    } else {
        count + 1
    }
}

/// The larger of two numbers.
pub open spec fn larger(a: u64, b: u64) -> u64 {
    if a >= b {
        a
    } else {
        b
    }
}

/// The whole milliseconds in `nanos`, as far as they fit.
pub open spec fn whole_millis(nanos: int) -> u64 {
    if nanos / 1_000_000 <= u64::MAX {
        (nanos / 1_000_000) as u64
    } else {
        u64::MAX
    }
}

/// The event loop came back so late that it is worth noting.
pub open spec fn is_late(deadline: Option<Instant>, now: Instant) -> bool {
    deadline is Some && time::elapsed(deadline->0, now) >= time::millis(
        EVENT_LOOP_DELAY_THRESHOLD_MS as int,
    )
}

impl EventLoopHealth {
    /// Nothing has been seen yet.
    pub fn new() -> (r: Self)
        ensures
            r.wait_deadline is None,
            r.last_reported_at is None,
            r.delay_count == 0,
            r.last_delay is None,
            r.max_delay_ms == 0,
    {
        EventLoopHealth {
            wait_deadline: None,
            last_reported_at: None,
            delay_count: 0,
            last_delay: None,
            max_delay_ms: 0,
        }
    }

    /// The loop waits for `interval` from now on.
    pub fn begin_wait(&mut self, now: Instant, interval: Duration)
        requires
            now.nanos + interval.nanos <= u128::MAX,
        ensures
            *final(self) == (EventLoopHealth {
                wait_deadline: final(self).wait_deadline,
                ..*old(self)
            }),
            final(self).wait_deadline matches Some(deadline) && deadline.nanos == now.nanos
                + interval.nanos,
    {
        self.wait_deadline = Some(now.after(interval));
    }

    /// The loop has come back. The result says whether it came back late.
    pub fn observe_at(&mut self, now: Instant, occurred_at: u64) -> (r: bool)
        ensures
            r == is_late(old(self).wait_deadline, now),
            *final(self) == if r {
                let delay_ms = whole_millis(time::elapsed(old(self).wait_deadline->0, now));
                EventLoopHealth {
                    wait_deadline: None,
                    delay_count: one_more(old(self).delay_count),
                    max_delay_ms: larger(old(self).max_delay_ms, delay_ms),
                    last_delay: Some(ObservedDelay { occurred_at, delay_ms }),
                    ..*old(self)
                }
            } else {
                EventLoopHealth { wait_deadline: None, ..*old(self) }
            },
    {
        match self.wait_deadline {
            Some(deadline) => {
                self.wait_deadline = None;
                let delay: Duration = now.saturating_duration_since(deadline);
                if delay.nanos < Duration::from_millis(EVENT_LOOP_DELAY_THRESHOLD_MS).nanos {
                    return false;
                }
                let delay_ms: u64 = duration_millis(delay);
                self.delay_count = count_one_more(self.delay_count);
                if delay_ms > self.max_delay_ms {
                    self.max_delay_ms = delay_ms;
                }
                self.last_delay = Some(ObservedDelay { occurred_at, delay_ms });
                true
            },
            None => false,
        }
    }

    /// Whether a delay may be reported again.
    pub fn take_report_if_due(&mut self, now: Instant) -> (r: bool)
        ensures
            r == !(old(self).last_reported_at matches Some(last) && time::elapsed(last, now)
                < time::seconds(EVENT_LOOP_REPORT_INTERVAL_SECS as int)),
            *final(self) == if r {
                EventLoopHealth { last_reported_at: Some(now), ..*old(self) }
            } else {
                *old(self)
            },
    {
        if let Some(last) = self.last_reported_at {
            if now.saturating_duration_since(last).nanos < Duration::from_secs(
                EVENT_LOOP_REPORT_INTERVAL_SECS,
            ).nanos {
                return false;
            }
        }
        self.last_reported_at = Some(now);
        true
    }
}

/// What the log says of a delay.
pub open spec fn delay_text(delay_ms: u64, count: u64, max_delay_ms: u64) -> Seq<char> {
    "delay_ms="@ + text::decimal(delay_ms as nat) + " count="@ + text::decimal(count as nat)
        + " max_delay_ms="@ + text::decimal(max_delay_ms as nat)
}

impl EventLoopHealth {
    /// The loop has come back. Where it came back late and that may be reported, the result is what
    /// the log says of it.
    pub fn report_delay(&mut self, now: Instant, occurred_at: u64) -> (r: Option<String>)
        ensures
            ({
                let late = is_late(old(self).wait_deadline, now);
                let delay_ms = whole_millis(time::elapsed(old(self).wait_deadline->0, now));
                let quiet = old(self).last_reported_at matches Some(last) && time::elapsed(
                    last,
                    now,
                ) < time::seconds(EVENT_LOOP_REPORT_INTERVAL_SECS as int);
                &&& *final(self) == (EventLoopHealth {
                    wait_deadline: None,
                    delay_count: if late {
                        one_more(old(self).delay_count)
                    } else {
                        old(self).delay_count
                    },
                    max_delay_ms: if late {
                        larger(old(self).max_delay_ms, delay_ms)
                    } else {
                        old(self).max_delay_ms
                    },
                    last_delay: if late {
                        Some(ObservedDelay { occurred_at, delay_ms })
                    } else {
                        old(self).last_delay
                    },
                    last_reported_at: if late && !quiet {
                        Some(now)
                    } else {
                        old(self).last_reported_at
                    },
                })
                &&& match r {
                    Some(text) => late && !quiet && text@ == delay_text(
                        delay_ms,
                        final(self).delay_count,
                        final(self).max_delay_ms,
                    ),
                    None => !late || quiet,
                }
            }),
    {
        if !self.observe_at(now, occurred_at) || !self.take_report_if_due(now) {
            return None;
        }
        match self.last_delay {
            Some(delay) => {
                let delay_ms: String = text::decimal_text(delay.delay_ms);
                let count: String = text::decimal_text(self.delay_count);
                let max_delay_ms: String = text::decimal_text(self.max_delay_ms);
                let mut text: String = "delay_ms=".to_owned();
                text.append(delay_ms.as_str());
                text.append(" count=");
                text.append(count.as_str());
                text.append(" max_delay_ms=");
                text.append(max_delay_ms.as_str());
                Some(text)
            },
            None => None,
        }
    }
}

/// Whether the last problem is another one than before, so that the status has to be written.
pub fn error_changed(before: &Option<String>, after: &Option<String>) -> (r: bool)
    ensures
        r == (wire::chars_in(*before) != wire::chars_in(*after)),
{
    match (before, after) {
        (Some(before), Some(after)) => !text::same_text(before.as_str(), after.as_str()),
        (None, None) => false,
        _ => true,
    }
}

/// Waiting for the daemon to write its status anew.
#[derive(Clone, Copy, Debug)]
pub struct StatusWait {
    /// When the wait began.
    pub started: Instant,
    /// When the status had been written before, in nanoseconds, where there was one.
    pub written: Option<i128>,
}

impl StatusWait {
    /// Whether the wait is over: the status was written at `written`, which is news, or it has
    /// taken too long.
    pub fn is_over(&self, now: Instant, written: Option<i128>) -> (r: bool)
        ensures
            r == (written != self.written || time::elapsed(self.started, now) >= time::millis(
                STATUS_WAIT_MS as int,
            )),
    {
        let news: bool = match (written, self.written) {
            (Some(now), Some(before)) => now != before,
            (None, None) => false,
            _ => true,
        };
        news || now.saturating_duration_since(self.started).nanos >= Duration::from_millis(
            STATUS_WAIT_MS,
        ).nanos
    }
}

/// What to say in the log after an attempt to write the status.
#[derive(Clone, Debug)]
pub enum PublishReport {
    /// Nothing new.
    Quiet,
    /// The status can be written again, after this problem.
    Recovered(String),
    /// The status cannot be written.
    Failed(String),
}

/// How writing the status goes.
#[derive(Debug)]
pub struct StatusPublisher {
    pub active_error: Option<String>,
    pub failure_count: u64,
    pub last_failure: Option<ObservedFailure>,
    pub event_loop: EventLoopHealth,
}

/// What failed last.
pub open spec fn is_failure(
    failure: Option<ObservedFailure>,
    message: Seq<char>,
    occurred_at: u64,
) -> bool {
    failure matches Some(failure) && failure.message@ == message && failure.occurred_at
        == occurred_at
}

impl StatusPublisher {
    /// Nothing has been written yet.
    pub fn new() -> (r: Self)
        ensures
            r.active_error is None,
            r.failure_count == 0,
            r.last_failure is None,
            r.event_loop.wait_deadline is None,
            r.event_loop.last_reported_at is None,
            r.event_loop.delay_count == 0,
            r.event_loop.last_delay is None,
            r.event_loop.max_delay_ms == 0,
    {
        StatusPublisher {
            active_error: None,
            failure_count: 0,
            last_failure: None,
            event_loop: EventLoopHealth::new(),
        }
    }

    /// An attempt to write the status has ended.
    pub fn publish(&mut self, outcome: Result<(), String>, occurred_at: u64) -> (r: PublishReport)
        ensures
            final(self).event_loop == old(self).event_loop,
            match outcome {
                Ok(_) => {
                    &&& final(self).active_error is None
                    &&& final(self).failure_count == old(self).failure_count
                    &&& final(self).last_failure == old(self).last_failure
                    &&& match old(self).active_error {
                        Some(error) => r matches PublishReport::Recovered(after) && after@ == error@,
                        None => r is Quiet,
                    }
                },
                Err(message) => {
                    &&& wire::chars_in(final(self).active_error) == Some(message@)
                    &&& final(self).failure_count == one_more(old(self).failure_count)
                    &&& is_failure(final(self).last_failure, message@, occurred_at)
                    &&& if wire::chars_in(old(self).active_error) == Some(message@) {
                        r is Quiet
                    } else {
                        r matches PublishReport::Failed(text) && text@ == message@
                    }
                },
            },
    {
        match outcome {
            Ok(_) => {
                let recovered: Option<String> = self.active_error.take();
                match recovered {
                    Some(error) => PublishReport::Recovered(error),
                    None => PublishReport::Quiet,
                }
            },
            Err(message) => {
                let text: String = message.clone();
                if self.observe_failure_at(message, occurred_at) {
                    PublishReport::Failed(text)
                } else {
                    PublishReport::Quiet
                }
            },
        }
    }

    /// The status could not be written. The result says whether the problem is a new one.
    pub fn observe_failure_at(&mut self, message: String, occurred_at: u64) -> (r: bool)
        ensures
            final(self).event_loop == old(self).event_loop,
            wire::chars_in(final(self).active_error) == Some(message@),
            final(self).failure_count == one_more(old(self).failure_count),
            is_failure(final(self).last_failure, message@, occurred_at),
            r == (wire::chars_in(old(self).active_error) != Some(message@)),
    {
        let known: bool = match &self.active_error {
            Some(error) => text::same_text(error.as_str(), message.as_str()),
            None => false,
        };
        self.failure_count = count_one_more(self.failure_count);
        self.last_failure = Some(ObservedFailure { occurred_at, message: message.clone() });
        self.active_error = Some(message);
        !known
    }
}

/// A deferred write is not put off by what comes after it: it stays due when the span since the
/// first request has passed, unless the status is written at once before that.
pub proof fn law_deferred_write_is_not_put_off(
    first: Instant,
    later: Seq<(Instant, StatusWriteRequest)>,
)
    requires
        forall|i: int|
            0 <= i < later.len() ==> (#[trigger] later[i]).1 != StatusWriteRequest::Immediate,
    ensures
        noted_all(noted(None, first, StatusWriteRequest::Deferred), later) == noted(
            None,
            first,
            StatusWriteRequest::Deferred,
        ),
    decreases later.len(),
{
    if later.len() > 0 {
        law_deferred_write_is_not_put_off(first, later.drop_last());
        assert(later.last() == later[later.len() - 1]);
    }
}

/// A write at once makes a deferred one needless.
pub proof fn law_immediate_write_cancels_deferred(deadline: Option<Instant>, now: Instant)
    ensures
        noted(deadline, now, StatusWriteRequest::Immediate) is None,
{
}

} // verus!
