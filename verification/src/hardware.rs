//! The connection to the keyboard: when to make it, what to write, and what went wrong.
//!
//! Nothing here talks to the keyboard. A function that needs something written gives an
//! [`HardwareAction`], and another one takes in how that went.
use vstd::prelude::*;

use crate::config::{AppConfig, Color};
use crate::device;
use crate::device::{KeyboardModel, G915};
use crate::protocol;
use crate::state;
use crate::state::{Engine, EngineModel, LightingChange};
use crate::status;
use crate::status::{count_one_more, ObservedFailure};
use crate::text;
use crate::time;
use crate::time::{duration_millis, Duration, Instant};
use crate::wire;

verus! {

/// How long to wait before the keyboard is looked for again, in seconds.
pub const DEVICE_RETRY_INTERVAL_SECS: u64 = 5;

/// How often to look for pressed G-keys, in milliseconds.
pub const G_KEY_INPUT_POLL_INTERVAL_MS: u64 = 25;

/// What has to be done to the keyboard.
#[derive(Debug)]
pub enum HardwareAction {
    Nothing,
    /// The keyboard has to be looked for.
    Connect,
    /// The packets have to be written, one after the other.
    Write(Vec<[u8; 20]>),
}

/// What has to be done to the keyboard.
pub enum Plan {
    Nothing,
    Connect,
    Write(Seq<Seq<u8>>),
}

impl View for HardwareAction {
    type V = Plan;

    open spec fn view(&self) -> Plan {
        match *self {
            HardwareAction::Nothing => Plan::Nothing,
            HardwareAction::Connect => Plan::Connect,
            HardwareAction::Write(packets) => Plan::Write(device::packet_bytes(packets@)),
        }
    }
}

/// What was done when the keyboard failed.
#[derive(Clone, Copy, Debug, PartialEq, Eq, Structural)]
pub enum Attempt {
    /// It was looked for.
    Search,
    /// The background was lit for the first time.
    FirstBackground,
    /// The tasks were lit for the first time.
    FirstLights,
    /// Keys were lit.
    Lights,
    /// Everything was written anew.
    Watchdog,
    /// The background was lit anew.
    Background,
    /// The background was lit before another keyboard takes its place.
    BackgroundReset,
    /// Its reports were read.
    Input,
}

/// What to do after the background was lit anew.
#[derive(Debug)]
pub enum RefreshStep {
    /// The G-keys and the lights of the tasks come next.
    Continue,
    /// The keyboard has failed and nothing more is written. This has to be reported.
    Stop(Option<String>),
}

/// How the search for the keyboard has ended.
#[derive(Debug)]
pub enum ConnectOutcome {
    /// It was not found or could not be set up.
    Failed(String),
    /// The background could not be lit.
    BackgroundFailed(String),
    /// The tasks could not be lit.
    LightsFailed(String),
    /// It is ready. `navigation` says whether it reports G-keys, or what went wrong with that.
    Ready { keyboard: G915, navigation: Result<bool, String> },
}

/// What to say in the log after the search for the keyboard.
#[derive(Debug)]
pub enum ConnectReport {
    /// Nothing new.
    Quiet,
    /// It failed in this way.
    Failed(String),
    /// It is ready.
    Connected,
    /// It is ready again, after this problem.
    Recovered(String),
}

/// What is written before the description of a failure.
pub open spec fn failure_prefix(attempt: Attempt) -> Seq<char> {
    match attempt {
        Attempt::Search => ""@,
        Attempt::FirstBackground => "G915 initialization failed: "@,
        Attempt::FirstLights => "G915 task-light initialization failed: "@,
        Attempt::Lights => "G915 lighting write failed: "@,
        Attempt::Watchdog => "G915 direct-lighting watchdog failed: "@,
        Attempt::Background => "G915 background refresh failed: "@,
        Attempt::BackgroundReset => "failed to reset keyboard background: "@,
        Attempt::Input => "G915 input read failed: "@,
    }
}

/// The description of a failure.
pub open spec fn failure_text(attempt: Attempt, error: Seq<char>) -> Seq<char> {
    failure_prefix(attempt) + error
}

/// What is wrong with reporting G-keys.
pub open spec fn navigation_error(
    outcome: Result<bool, String>,
    enabled: bool,
    prefix: Seq<char>,
) -> Option<Seq<char>> {
    match outcome {
        Ok(available) => if !available && enabled {
            Some("G915 does not expose HID++ G-key notifications"@)
        } else {
            None
        },
        Err(error) => Some(prefix + error@),
    }
}

/// The connection to the keyboard, and its history.
#[derive(Debug)]
pub struct Hardware {
    pub keyboard: Option<G915>,
    pub last_error: Option<String>,
    pub last_navigation_error: Option<String>,
    pub failure_count: u64,
    pub connection_count: u64,
    pub last_failure: Option<ObservedFailure>,
    pub last_connected_at: Option<u64>,
    pub lighting_reassertion_count: u64,
    pub last_lighting_reasserted_at: Option<u64>,
    pub last_lighting_reassert_duration_ms: Option<u64>,
    pub max_lighting_reassert_duration_ms: u64,
    pub next_retry: Instant,
}

/// A failure, and when it occurred.
pub struct Failure {
    pub occurred_at: u64,
    pub message: Seq<char>,
}

/// The connection to the keyboard, and its history.
#[verifier::ext_equal]
pub struct HardwareModel {
    pub keyboard: Option<KeyboardModel>,
    pub last_error: Option<Seq<char>>,
    pub last_navigation_error: Option<Seq<char>>,
    pub failure_count: u64,
    pub connection_count: u64,
    pub last_failure: Option<Failure>,
    pub last_connected_at: Option<u64>,
    pub lighting_reassertion_count: u64,
    pub last_lighting_reasserted_at: Option<u64>,
    pub last_lighting_reassert_duration_ms: Option<u64>,
    pub max_lighting_reassert_duration_ms: u64,
    pub next_retry: Instant,
}

/// What an observed failure says.
pub open spec fn failure_of(failure: Option<ObservedFailure>) -> Option<Failure> {
    match failure {
        Some(failure) => Some(
            Failure { occurred_at: failure.occurred_at, message: failure.message@ },
        ),
        None => None,
    }
}

impl View for Hardware {
    type V = HardwareModel;

    open spec fn view(&self) -> HardwareModel {
        HardwareModel {
            keyboard: match self.keyboard {
                Some(keyboard) => Some(keyboard@),
                None => None,
            },
            last_error: wire::chars_in(self.last_error),
            last_navigation_error: wire::chars_in(self.last_navigation_error),
            failure_count: self.failure_count,
            connection_count: self.connection_count,
            last_failure: failure_of(self.last_failure),
            last_connected_at: self.last_connected_at,
            lighting_reassertion_count: self.lighting_reassertion_count,
            last_lighting_reasserted_at: self.last_lighting_reasserted_at,
            last_lighting_reassert_duration_ms: self.last_lighting_reassert_duration_ms,
            max_lighting_reassert_duration_ms: self.max_lighting_reassert_duration_ms,
            next_retry: self.next_retry,
        }
    }
}

/// The moment at which the keyboard is looked for again.
pub open spec fn retry_time(now: Instant) -> Instant {
    Instant { nanos: (now.nanos + time::seconds(DEVICE_RETRY_INTERVAL_SECS as int)) as u128 }
}

/// That moment can be told.
pub open spec fn retry_fits(now: Instant) -> bool {
    now.nanos + time::seconds(DEVICE_RETRY_INTERVAL_SECS as int) <= u128::MAX
}

impl HardwareModel {
    /// A failure is noted.
    pub open spec fn with_failure(self, message: Seq<char>, occurred_at: u64) -> HardwareModel {
        HardwareModel {
            failure_count: status::one_more(self.failure_count),
            last_failure: Some(Failure { occurred_at, message }),
            last_error: Some(message),
            ..self
        }
    }

    /// The keyboard has failed and is looked for later.
    pub open spec fn failed(self, message: Seq<char>, occurred_at: u64, now: Instant) -> HardwareModel {
        HardwareModel {
            keyboard: None,
            next_retry: retry_time(now),
            ..self.with_failure(message, occurred_at)
        }
    }

    /// The keyboard is ready.
    pub open spec fn connected(self, at: u64) -> HardwareModel {
        HardwareModel {
            last_error: None,
            connection_count: status::one_more(self.connection_count),
            last_connected_at: Some(at),
            ..self
        }
    }

    /// The lights have been written anew.
    pub open spec fn reasserted(self, occurred_at: u64, duration: Duration) -> HardwareModel {
        let duration_ms = status::whole_millis(duration.nanos as int);
        HardwareModel {
            lighting_reassertion_count: status::one_more(self.lighting_reassertion_count),
            last_lighting_reasserted_at: Some(occurred_at),
            last_lighting_reassert_duration_ms: Some(duration_ms),
            max_lighting_reassert_duration_ms: status::larger(
                self.max_lighting_reassert_duration_ms,
                duration_ms,
            ),
            ..self
        }
    }

    /// It is time to look for the keyboard.
    pub open spec fn search_due(self, now: Instant) -> bool {
        self.keyboard is None && now.nanos >= self.next_retry.nanos
    }

    /// What has to be done where something has to be written to the keyboard.
    pub open spec fn plan(self, now: Instant, packets: Seq<Seq<u8>>) -> Plan {
        if self.keyboard is Some {
            Plan::Write(packets)
        } else if now.nanos >= self.next_retry.nanos {
            Plan::Connect
        } else {
            Plan::Nothing
        }
    }

    /// What has to be said of a problem: one that is not the last one again.
    pub open spec fn report(self, message: Seq<char>) -> Option<Seq<char>> {
        if self.last_error == Some(message) {
            None
        } else {
            Some(message)
        }
    }
}

/// The keys of some lights.
pub open spec fn keys_of(changes: Seq<LightingChange>) -> Seq<(u8, Color)> {
    changes.map_values(|change: LightingChange| (change.key, change.color))
}

/// The keys of some lights.
pub fn lighting_keys(changes: &Vec<LightingChange>) -> (r: Vec<(u8, Color)>)
    ensures
        r@ == keys_of(changes@),
{
    let mut r: Vec<(u8, Color)> = Vec::new();
    let mut i: usize = 0;
    while i < changes.len()
        invariant
            i <= changes@.len(),
            r@ == keys_of(changes@.take(i as int)),
        decreases changes@.len() - i,
    {
        r.push((changes[i].key, changes[i].color));
        i += 1;
        assert(r@ =~= keys_of(changes@.take(i as int)));
    }
    assert(changes@.take(i as int) =~= changes@);
    r
}

/// The packets that light keys in their colours.
pub open spec fn lights_packets(keyboard: KeyboardModel, keys: Seq<(u8, Color)>) -> Seq<Seq<u8>> {
    device::committed(
        keyboard.config,
        keyboard.indices.per_key_lighting,
        device::key_reports(keyboard.config, keyboard.indices.per_key_lighting, keys),
    )
}

/// The packets that light the whole keyboard in one colour.
pub open spec fn background_packets(keyboard: KeyboardModel, color: Color) -> Seq<Seq<u8>> {
    device::committed(
        keyboard.config,
        keyboard.indices.per_key_lighting,
        device::one_color_reports(
            keyboard.config,
            keyboard.indices.per_key_lighting,
            keyboard.zones,
            color,
        ),
    )
}

/// The packet that has G-keys reported, where that is wanted and possible.
pub open spec fn navigation_packets(keyboard: KeyboardModel, enabled: bool) -> Seq<Seq<u8>> {
    match keyboard.indices.g_keys {
        Some(feature) => if enabled {
            seq![protocol::diversion_report(keyboard.config, feature, true)]
        } else {
            Seq::empty()
        },
        None => Seq::empty(),
    }
}

/// The packets that write everything anew.
pub open spec fn watchdog_packets(
    keyboard: KeyboardModel,
    config: AppConfig,
    m: EngineModel,
) -> Seq<Seq<u8>> {
    protocol::init_reports(keyboard.config, keyboard.indices.mode, keyboard.indices.rgb_effects)
        + background_packets(keyboard, config.lighting.background) + lights_packets(
        keyboard,
        keys_of(state::active_lights(config, m, 100)),
    ) + navigation_packets(keyboard, config.navigation.enabled)
}

/// The packets that are written to a keyboard that was found, one list after the other.
#[derive(Debug)]
pub struct ConnectionPackets {
    /// Those that light the whole keyboard.
    pub background: Vec<[u8; 20]>,
    /// Those that light the keys of the tasks, at full brightness.
    pub lights: Vec<[u8; 20]>,
}

/// What to write to a keyboard that was found: first the background, then the keys of the tasks.
pub fn connection_packets(keyboard: &G915, config: &AppConfig, engine: &Engine) -> (r:
    ConnectionPackets)
    requires
        state::has_keys(*config, state::occupied(engine@.slots)),
    ensures
        device::packet_bytes(r.background@) == background_packets(
            keyboard@,
            config.lighting.background,
        ),
        device::packet_bytes(r.lights@) == lights_packets(
            keyboard@,
            keys_of(state::active_lights(*config, engine@, 100)),
        ),
{
    let active: Vec<LightingChange> = engine.active_lighting(100, config);
    ConnectionPackets {
        background: keyboard.set_background(config.lighting.background),
        lights: keyboard.set_keys(lighting_keys(&active).as_slice()),
    }
}

/// Appends packets to packets.
fn append_packets(packets: &mut Vec<[u8; 20]>, more: &Vec<[u8; 20]>)
    ensures
        final(packets)@ == old(packets)@ + more@,
{
    let ghost before = packets@;
    let mut i: usize = 0;
    assert(before + more@.take(0) =~= before);
    while i < more.len()
        invariant
            i <= more@.len(),
            packets@ == before + more@.take(i as int),
        decreases more@.len() - i,
    {
        packets.push(more[i]);
        i += 1;
        assert(packets@ =~= before + more@.take(i as int));
    }
    assert(more@.take(i as int) =~= more@);
}

/// The description of a failure.
fn describe_failure(attempt: Attempt, error: &str) -> (r: String)
    ensures
        r@ == failure_text(attempt, error@),
{
    let mut r: String = match attempt {
        Attempt::Search => "".to_owned(),
        Attempt::FirstBackground => "G915 initialization failed: ".to_owned(),
        Attempt::FirstLights => "G915 task-light initialization failed: ".to_owned(),
        Attempt::Lights => "G915 lighting write failed: ".to_owned(),
        Attempt::Watchdog => "G915 direct-lighting watchdog failed: ".to_owned(),
        Attempt::Background => "G915 background refresh failed: ".to_owned(),
        Attempt::BackgroundReset => "failed to reset keyboard background: ".to_owned(),
        Attempt::Input => "G915 input read failed: ".to_owned(),
    };
    r.append(error);
    r
}

/// What is wrong with reporting G-keys.
fn describe_navigation(outcome: &Result<bool, String>, enabled: bool, prefix: &str) -> (r: Option<
    String,
>)
    ensures
        wire::chars_in(r) == navigation_error(*outcome, enabled, prefix@),
{
    match outcome {
        Ok(available) => {
            if !*available && enabled {
                Some("G915 does not expose HID++ G-key notifications".to_owned())
            } else {
                None
            }
        },
        Err(error) => {
            let mut r: String = prefix.to_owned();
            r.append(error.as_str());
            Some(r)
        },
    }
}

impl Hardware {
    /// No keyboard has been looked for yet.
    pub fn new(now: Instant) -> (r: Self)
        ensures
            r@ == (HardwareModel {
                keyboard: None,
                last_error: None,
                last_navigation_error: None,
                failure_count: 0,
                connection_count: 0,
                last_failure: None,
                last_connected_at: None,
                lighting_reassertion_count: 0,
                last_lighting_reasserted_at: None,
                last_lighting_reassert_duration_ms: None,
                max_lighting_reassert_duration_ms: 0,
                next_retry: now,
            }),
    {
        Hardware {
            keyboard: None,
            last_error: None,
            last_navigation_error: None,
            failure_count: 0,
            connection_count: 0,
            last_failure: None,
            last_connected_at: None,
            lighting_reassertion_count: 0,
            last_lighting_reasserted_at: None,
            last_lighting_reassert_duration_ms: None,
            max_lighting_reassert_duration_ms: 0,
            next_retry: now,
        }
    }

    /// Whether it is time to look for the keyboard.
    pub fn retry_due(&self, now: Instant) -> (r: bool)
        ensures
            r == self@.search_due(now),
    {
        self.keyboard.is_none() && now.nanos >= self.next_retry.nanos
    }

    /// Notes a failure. The result says whether it is a new one.
    pub fn record_failure_at(&mut self, message: String, occurred_at: u64) -> (r: bool)
        ensures
            final(self)@ == old(self)@.with_failure(message@, occurred_at),
            r == (old(self)@.last_error != Some(message@)),
    {
        let known: bool = match &self.last_error {
            Some(error) => text::same_text(error.as_str(), message.as_str()),
            None => false,
        };
        self.failure_count = count_one_more(self.failure_count);
        self.last_failure = Some(ObservedFailure { occurred_at, message: message.clone() });
        self.last_error = Some(message);
        !known
    }

    /// The keyboard is ready. The result is the problem that is over by that.
    pub fn record_connected_at(&mut self, connected_at: u64) -> (r: Option<String>)
        ensures
            final(self)@ == old(self)@.connected(connected_at),
            wire::chars_in(r) == old(self)@.last_error,
    {
        let recovered: Option<String> = self.last_error.take();
        self.connection_count = count_one_more(self.connection_count);
        self.last_connected_at = Some(connected_at);
        recovered
    }

    /// The lights have been written anew, which took `duration`.
    pub fn record_lighting_reassertion_at(&mut self, occurred_at: u64, duration: Duration)
        ensures
            final(self)@ == old(self)@.reasserted(occurred_at, duration),
    {
        let duration_ms: u64 = duration_millis(duration);
        self.lighting_reassertion_count = count_one_more(self.lighting_reassertion_count);
        self.last_lighting_reasserted_at = Some(occurred_at);
        self.last_lighting_reassert_duration_ms = Some(duration_ms);
        if duration_ms > self.max_lighting_reassert_duration_ms {
            self.max_lighting_reassert_duration_ms = duration_ms;
        }
    }

    /// The keyboard has failed, and is looked for later. The result is what has to be reported.
    pub fn schedule_retry(&mut self, attempt: Attempt, error: &str, occurred_at: u64, now: Instant) -> (r:
        Option<String>)
        requires
            retry_fits(now),
        ensures
            final(self)@ == old(self)@.failed(failure_text(attempt, error@), occurred_at, now),
            wire::chars_in(r) == old(self)@.report(failure_text(attempt, error@)),
    {
        let message: String = describe_failure(attempt, error);
        let text: String = message.clone();
        let new: bool = self.record_failure_at(message, occurred_at);
        self.keyboard = None;
        self.next_retry = now.after(Duration::from_secs(DEVICE_RETRY_INTERVAL_SECS));
        if new {
            Some(text)
        } else {
            None
        }
    }

    /// The search for the keyboard has ended.
    pub fn connect(
        &mut self,
        outcome: ConnectOutcome,
        config: &AppConfig,
        occurred_at: u64,
        now: Instant,
    ) -> (r: ConnectReport)
        requires
            outcome is Ready || retry_fits(now),
        ensures
            match outcome {
                ConnectOutcome::Failed(error) => {
                    let message = failure_text(Attempt::Search, error@);
                    &&& final(self)@ == old(self)@.failed(message, occurred_at, now)
                    &&& reports_failure(r, old(self)@.report(message))
                },
                ConnectOutcome::BackgroundFailed(error) => {
                    let message = failure_text(Attempt::FirstBackground, error@);
                    &&& final(self)@ == old(self)@.failed(message, occurred_at, now)
                    &&& reports_failure(r, old(self)@.report(message))
                },
                ConnectOutcome::LightsFailed(error) => {
                    let message = failure_text(Attempt::FirstLights, error@);
                    &&& final(self)@ == old(self)@.failed(message, occurred_at, now)
                    &&& reports_failure(r, old(self)@.report(message))
                },
                ConnectOutcome::Ready { keyboard, navigation } => {
                    &&& final(self)@ == (HardwareModel {
                        keyboard: Some(keyboard@),
                        last_navigation_error: navigation_error(
                            navigation,
                            config.navigation.enabled,
                            "G-key navigation initialization failed: "@,
                        ),
                        ..old(self)@.connected(occurred_at)
                    })
                    &&& match old(self)@.last_error {
                        Some(error) => r matches ConnectReport::Recovered(after) && after@ == error,
                        None => r is Connected,
                    }
                },
            },
    {
        match outcome {
            ConnectOutcome::Failed(error) => self.connect_failed(
                Attempt::Search,
                error.as_str(),
                occurred_at,
                now,
            ),
            ConnectOutcome::BackgroundFailed(error) => self.connect_failed(
                Attempt::FirstBackground,
                error.as_str(),
                occurred_at,
                now,
            ),
            ConnectOutcome::LightsFailed(error) => self.connect_failed(
                Attempt::FirstLights,
                error.as_str(),
                occurred_at,
                now,
            ),
            ConnectOutcome::Ready { keyboard, navigation } => {
                self.last_navigation_error = describe_navigation(
                    &navigation,
                    config.navigation.enabled,
                    "G-key navigation initialization failed: ",
                );
                let recovered: Option<String> = self.record_connected_at(occurred_at);
                self.keyboard = Some(keyboard);
                match recovered {
                    Some(error) => ConnectReport::Recovered(error),
                    None => ConnectReport::Connected,
                }
            },
        }
    }

    /// The search for the keyboard has failed.
    fn connect_failed(&mut self, attempt: Attempt, error: &str, occurred_at: u64, now: Instant) -> (r:
        ConnectReport)
        requires
            retry_fits(now),
        ensures
            final(self)@ == old(self)@.failed(failure_text(attempt, error@), occurred_at, now),
            reports_failure(r, old(self)@.report(failure_text(attempt, error@))),
    {
        match self.schedule_retry(attempt, error, occurred_at, now) {
            Some(text) => ConnectReport::Failed(text),
            None => ConnectReport::Quiet,
        }
    }

    /// What has to be done to light some keys.
    pub fn apply(&self, changes: &Vec<LightingChange>, now: Instant) -> (r: HardwareAction)
        ensures
            r@ == if changes@.len() == 0 {
                Plan::Nothing
            } else {
                self@.plan(
                    now,
                    match self@.keyboard {
                        Some(keyboard) => lights_packets(keyboard, keys_of(changes@)),
                        None => Seq::empty(),
                    },
                )
            },
    {
        if changes.len() == 0 {
            return HardwareAction::Nothing;
        }
        match &self.keyboard {
            Some(keyboard) => HardwareAction::Write(
                keyboard.set_keys(lighting_keys(changes).as_slice()),
            ),
            None => self.search_action(now),
        }
    }

    /// What has to be done without a keyboard.
    fn search_action(&self, now: Instant) -> (r: HardwareAction)
        requires
            self@.keyboard is None,
        ensures
            r@ == self@.plan(now, Seq::empty()),
    {
        if now.nanos >= self.next_retry.nanos {
            HardwareAction::Connect
        } else {
            HardwareAction::Nothing
        }
    }

    /// Keys have been lit, or not. The result is what has to be reported.
    pub fn applied(&mut self, outcome: Result<(), String>, occurred_at: u64, now: Instant) -> (r:
        Option<String>)
        requires
            outcome is Ok || retry_fits(now),
        ensures
            match outcome {
                Ok(_) => final(self)@ == (HardwareModel { last_error: None, ..old(self)@ })
                    && r is None,
                Err(error) => {
                    let message = failure_text(Attempt::Lights, error@);
                    &&& final(self)@ == old(self)@.failed(message, occurred_at, now)
                    &&& wire::chars_in(r) == old(self)@.report(message)
                },
            },
    {
        match outcome {
            Ok(_) => {
                self.last_error = None;
                None
            },
            Err(error) => self.schedule_retry(Attempt::Lights, error.as_str(), occurred_at, now),
        }
    }

    /// What has to be done to write everything anew.
    pub fn reassert_direct_lighting(&self, config: &AppConfig, engine: &Engine, now: Instant) -> (r:
        HardwareAction)
        requires
            state::has_keys(*config, state::occupied(engine@.slots)),
        ensures
            r@ == self@.plan(
                now,
                match self@.keyboard {
                    Some(keyboard) => watchdog_packets(keyboard, *config, engine@),
                    None => Seq::empty(),
                },
            ),
    {
        match &self.keyboard {
            Some(keyboard) => {
                let init: [[u8; 20]; 4] = keyboard.reassert_direct_mode();
                let mut packets: Vec<[u8; 20]> = vec![init[0], init[1], init[2], init[3]];
                assert(packets@ =~= init@);
                let background: Vec<[u8; 20]> = keyboard.set_background(config.lighting.background);
                append_packets(&mut packets, &background);
                assert(device::packet_bytes(packets@) =~= device::packet_bytes(init@)
                    + device::packet_bytes(background@));
                let ghost before = packets@;
                let active: Vec<LightingChange> = engine.active_lighting(100, config);
                let lights: Vec<[u8; 20]> = keyboard.set_keys(lighting_keys(&active).as_slice());
                append_packets(&mut packets, &lights);
                assert(device::packet_bytes(packets@) =~= device::packet_bytes(before)
                    + device::packet_bytes(lights@));
                let ghost lit = packets@;
                if config.navigation.enabled {
                    if let Some(packet) = keyboard.reassert_g_key_navigation() {
                        packets.push(packet);
                        assert(device::packet_bytes(packets@) =~= device::packet_bytes(lit)
                            + seq![packet@]);
                    }
                }
                assert(device::packet_bytes(packets@) =~= watchdog_packets(
                    keyboard@,
                    *config,
                    engine@,
                ));
                HardwareAction::Write(packets)
            },
            None => self.search_action(now),
        }
    }

    /// Everything has been written anew, which took `duration`, or not. The result is what has to
    /// be reported.
    pub fn lighting_reasserted(
        &mut self,
        outcome: Result<(), String>,
        duration: Duration,
        occurred_at: u64,
        now: Instant,
    ) -> (r: Option<String>)
        requires
            outcome is Ok || retry_fits(now),
        ensures
            match outcome {
                Ok(_) => final(self)@ == (HardwareModel { last_error: None, ..old(self)@ }).reasserted(
                    occurred_at,
                    duration,
                ) && r is None,
                Err(error) => {
                    let message = failure_text(Attempt::Watchdog, error@);
                    &&& final(self)@ == old(self)@.failed(message, occurred_at, now)
                    &&& wire::chars_in(r) == old(self)@.report(message)
                },
            },
    {
        match outcome {
            Ok(_) => {
                self.last_error = None;
                self.record_lighting_reassertion_at(occurred_at, duration);
                None
            },
            Err(error) => self.schedule_retry(Attempt::Watchdog, error.as_str(), occurred_at, now),
        }
    }

    /// What has to be done first to show everything anew.
    pub fn refresh(&self, config: &AppConfig, now: Instant) -> (r: HardwareAction)
        ensures
            r@ == self@.plan(
                now,
                match self@.keyboard {
                    Some(keyboard) => background_packets(keyboard, config.lighting.background),
                    None => Seq::empty(),
                },
            ),
    {
        match &self.keyboard {
            Some(keyboard) => HardwareAction::Write(
                keyboard.set_background(config.lighting.background),
            ),
            None => self.search_action(now),
        }
    }

    /// The background has been lit anew, or not. The result says what to do next.
    pub fn background_refreshed(
        &mut self,
        outcome: Result<(), String>,
        occurred_at: u64,
        now: Instant,
    ) -> (r: RefreshStep)
        requires
            outcome is Ok || retry_fits(now),
        ensures
            match outcome {
                Ok(_) => final(self)@ == old(self)@ && r is Continue,
                Err(error) => {
                    let message = failure_text(Attempt::Background, error@);
                    &&& final(self)@ == old(self)@.failed(message, occurred_at, now)
                    &&& r matches RefreshStep::Stop(report) && wire::chars_in(report) == old(
                        self,
                    )@.report(message)
                },
            },
    {
        match outcome {
            Ok(_) => RefreshStep::Continue,
            Err(error) => RefreshStep::Stop(
                self.schedule_retry(Attempt::Background, error.as_str(), occurred_at, now),
            ),
        }
    }

    /// The G-keys are reported, or not, after everything has been shown anew.
    pub fn navigation_refreshed(&mut self, outcome: &Result<bool, String>, config: &AppConfig)
        ensures
            final(self)@ == (HardwareModel {
                last_navigation_error: navigation_error(
                    *outcome,
                    config.navigation.enabled,
                    "G-key navigation refresh failed: "@,
                ),
                last_error: None,
                ..old(self)@
            }),
    {
        self.last_navigation_error = describe_navigation(
            outcome,
            config.navigation.enabled,
            "G-key navigation refresh failed: ",
        );
        self.last_error = None;
    }

    /// What has to be done before another keyboard takes the place of this one.
    pub fn reset_background(&self, config: &AppConfig) -> (r: HardwareAction)
        ensures
            r@ == match self@.keyboard {
                Some(keyboard) => Plan::Write(
                    background_packets(keyboard, config.lighting.background),
                ),
                None => Plan::Nothing,
            },
    {
        match &self.keyboard {
            Some(keyboard) => HardwareAction::Write(
                keyboard.set_background(config.lighting.background),
            ),
            None => HardwareAction::Nothing,
        }
    }

    /// The keyboard is not used any more, and may be looked for at once.
    pub fn disconnect(&mut self, now: Instant)
        ensures
            final(self)@ == (HardwareModel { keyboard: None, next_retry: now, ..old(self)@ }),
    {
        self.keyboard = None;
        self.next_retry = now;
    }

    /// How long to wait for an event at most, where `default` is the longest wait otherwise.
    pub fn poll_interval(&self, default: Duration) -> (r: Duration)
        ensures
            r.nanos == if self@.keyboard is Some && self@.keyboard->0.navigates() && default.nanos
                > time::millis(G_KEY_INPUT_POLL_INTERVAL_MS as int) {
                time::millis(G_KEY_INPUT_POLL_INTERVAL_MS as int)
            } else {
                default.nanos as int
            },
    {
        match &self.keyboard {
            Some(keyboard) => {
                if keyboard.g_key_navigation_active() {
                    default.shorter(Duration::from_millis(G_KEY_INPUT_POLL_INTERVAL_MS))
                } else {
                    default
                }
            },
            None => default,
        }
    }

    /// Whether G-keys are reported.
    pub fn navigation_active(&self) -> (r: bool)
        ensures
            r == (self@.keyboard is Some && self@.keyboard->0.navigates()),
    {
        match &self.keyboard {
            Some(keyboard) => keyboard.g_key_navigation_active(),
            None => false,
        }
    }

    /// The G-keys that have been pressed. `reports` are the reports that have come, or what went
    /// wrong with reading them. The second result is what has to be reported.
    pub fn poll_g_key_presses(
        &mut self,
        reports: Result<Vec<Vec<u8>>, String>,
        occurred_at: u64,
        now: Instant,
    ) -> (r: (Vec<usize>, Option<String>))
        requires
            old(self)@.keyboard is None || reports is Ok || retry_fits(now),
        ensures
            match old(self)@.keyboard {
                None => final(self)@ == old(self)@ && r.0@.len() == 0 && r.1 is None,
                Some(keyboard) => match reports {
                    Ok(reports) => {
                        &&& r.1 is None
                        &&& if keyboard.navigates() {
                            let (after, pressed) = keyboard.after_reports(
                                reports@,
                                keyboard.indices.g_keys->0,
                            );
                            &&& final(self)@ == (HardwareModel {
                                keyboard: Some(KeyboardModel { pending: Seq::empty(), ..after }),
                                ..old(self)@
                            })
                            &&& r.0@ == keyboard.pending + pressed
                        } else {
                            final(self)@ == old(self)@ && r.0@.len() == 0
                        }
                    },
                    Err(error) => {
                        let message = failure_text(Attempt::Input, error@);
                        &&& r.0@.len() == 0
                        &&& final(self)@ == old(self)@.failed(message, occurred_at, now)
                        &&& wire::chars_in(r.1) == old(self)@.report(message)
                    },
                },
            },
    {
        let nothing: Vec<usize> = Vec::new();
        let keyboard: Option<G915> = self.keyboard.take();
        match keyboard {
            None => (nothing, None),
            Some(keyboard) => {
                match reports {
                    Ok(reports) => {
                        let mut keyboard: G915 = keyboard;
                        let pressed: Vec<usize> = keyboard.poll_g_key_presses(&reports);
                        self.keyboard = Some(keyboard);
                        (pressed, None)
                    },
                    Err(error) => {
                        let report: Option<String> = self.schedule_retry(
                            Attempt::Input,
                            error.as_str(),
                            occurred_at,
                            now,
                        );
                        (nothing, report)
                    },
                }
            },
        }
    }

    /// The task on a G-key could not be opened, or was opened.
    pub fn navigation_finished(&mut self, g_key: usize, error: Option<&str>)
        ensures
            final(self)@ == (HardwareModel {
                last_navigation_error: match error {
                    Some(error) => Some(
                        "failed to open G"@ + text::decimal(g_key as nat) + " task: "@ + error@,
                    ),
                    None => None,
                },
                ..old(self)@
            }),
    {
        self.last_navigation_error = match error {
            Some(error) => {
                let mut text: String = "failed to open G".to_owned();
                let number: String = text::decimal_text(g_key as u64);
                text.append(number.as_str());
                text.append(" task: ");
                text.append(error);
                Some(text)
            },
            None => None,
        };
    }
}

/// The report tells of a failure, where there is a new one.
pub open spec fn reports_failure(report: ConnectReport, message: Option<Seq<char>>) -> bool {
    match message {
        Some(message) => report matches ConnectReport::Failed(text) && text@ == message,
        None => report is Quiet,
    }
}

/// A failure stays on record after the keyboard is ready again.
pub proof fn law_failure_stays_on_record(
    hardware: HardwareModel,
    message: Seq<char>,
    failed_at: u64,
    now: Instant,
    connected_at: u64,
)
    ensures
        ({
            let after = hardware.failed(message, failed_at, now).connected(connected_at);
            &&& after.last_error is None
            &&& after.last_failure == Some(Failure { occurred_at: failed_at, message })
            &&& after.failure_count == status::one_more(hardware.failure_count)
            &&& after.last_connected_at == Some(connected_at)
        }),
{
}

/// Writing the lights anew leaves the record of failures as it is.
pub proof fn law_reassertion_keeps_failures(
    hardware: HardwareModel,
    occurred_at: u64,
    duration: Duration,
)
    ensures
        hardware.reasserted(occurred_at, duration).last_failure == hardware.last_failure,
        hardware.reasserted(occurred_at, duration).failure_count == hardware.failure_count,
        hardware.reasserted(occurred_at, duration).max_lighting_reassert_duration_ms
            >= hardware.max_lighting_reassert_duration_ms,
{
}

/// After a failure the keyboard is not looked for before the waiting time is over.
pub proof fn law_failed_keyboard_is_left_alone(
    hardware: HardwareModel,
    message: Seq<char>,
    failed_at: u64,
    now: Instant,
    later: Instant,
)
    requires
        retry_fits(now),
    ensures
        hardware.failed(message, failed_at, now).search_due(later) <==> later.nanos >= now.nanos
            + time::seconds(DEVICE_RETRY_INTERVAL_SECS as int),
{
}

} // verus!
