//! The daemon: what each event changes, and what has to be lit and written after it.
//!
//! Nothing here waits, reads or writes. A turn of the event loop calls the functions below one
//! after the other and does what their results ask for.
use vstd::prelude::*;

use crate::collections::StringSet;
use crate::config;
use crate::config::{AppConfig, ConfigError, LightingMode};
use crate::hardware;
use crate::hardware::{Hardware, HardwareModel};
use crate::journal_tracker;
use crate::journal_tracker::{
    JournalPoll, JournalTracker, SessionJournalTransition, SessionTransition, TrackerModel,
};
use crate::lighting;
use crate::lighting::{FlashController, LightingModeController, LightingWatchdog};
use crate::seqs;
use crate::state;
use crate::state::{
    Engine, EngineModel, LightingChange, RestoredQueuedSession, RestoredSlot, SlotSnapshot,
    StateKind, Task,
};
use crate::status;
use crate::status::{
    ObservedDelay, ObservedFailure, StatusPersistence, StatusPublisher, StatusWriteRequest,
};
use crate::text;
use crate::time;
use crate::time::{Duration, Instant};
use crate::wire;
use crate::wire::{Activity, EventMessage, LifecycleTracker};

verus! {

/// How long to wait between two looks at the configuration, in seconds.
pub const CONFIG_CHECK_INTERVAL_SECS: u64 = 5;

/// How a datagram to the socket of the daemon went.
#[derive(Clone, Copy, Debug, PartialEq, Eq, Structural)]
pub enum ProbeResult {
    Delivered,
    WouldBlock,
    NotFound,
    Refused,
    Failed,
}

/// What to do about the socket that was there before.
#[derive(Clone, Copy, Debug, PartialEq, Eq, Structural)]
pub enum SocketVerdict {
    /// Another daemon listens.
    AlreadyRunning,
    /// Nobody listens, and the socket may go.
    Stale,
    /// It cannot be told.
    Unknown,
}

/// What to do about the socket that was there before: it goes only where nobody listens.
pub fn judge_probe(result: ProbeResult) -> (r: SocketVerdict)
    ensures
        r == SocketVerdict::AlreadyRunning <==> result == ProbeResult::Delivered || result
            == ProbeResult::WouldBlock,
        r == SocketVerdict::Stale <==> result == ProbeResult::NotFound || result
            == ProbeResult::Refused,
{
    match result {
        ProbeResult::Delivered | ProbeResult::WouldBlock => SocketVerdict::AlreadyRunning,
        ProbeResult::NotFound | ProbeResult::Refused => SocketVerdict::Stale,
        ProbeResult::Failed => SocketVerdict::Unknown,
    }
}

/// What was found of the status that was saved last.
#[derive(Debug)]
pub enum SavedStatus {
    /// There is none, or it cannot be used.
    Absent,
    /// The slots and the queue that it holds.
    Found { slots: Vec<RestoredSlot>, queued_sessions: Vec<RestoredQueuedSession> },
}

/// The tasks as they were saved last.
pub fn restore_engine(saved: SavedStatus, max_sessions: usize) -> (r: Engine)
    ensures
        r@ == (match saved {
            SavedStatus::Absent => state::empty_engine(max_sessions as nat),
            SavedStatus::Found { slots, queued_sessions } => state::restored_engine(
                max_sessions as nat,
                slots@.map_values(|saved: RestoredSlot| saved@),
                queued_sessions@.map_values(|task: RestoredQueuedSession| task@),
            ),
        }),
{
    match saved {
        SavedStatus::Absent => Engine::new(max_sessions),
        SavedStatus::Found { slots, queued_sessions } => Engine::restore(
            max_sessions,
            slots,
            queued_sessions,
        ),
    }
}

/// The configuration has a key for each slot.
pub open spec fn fits(config: AppConfig, m: EngineModel) -> bool {
    m.slots.len() <= config.device.slot_keys@.len()
}

/// Where there is a key for each slot, there is one for each that is used.
pub proof fn lemma_fits(config: AppConfig, m: EngineModel)
    requires
        fits(config, m),
    ensures
        state::has_keys(config, state::occupied(m.slots)),
{
    state::lemma_occupied_prefix(m.slots, m.slots.len());
}

/// Where there is a key for each slot, there is one for each that may change.
proof fn lemma_light_fits(config: AppConfig, m: EngineModel, session: Seq<char>, next: StateKind)
    requires
        fits(config, m),
    ensures
        m.moved_light(session, next) matches Some(i) ==> i < config.device.slot_keys@.len(),
        m.cleared_light(session) matches Some(i) ==> i < config.device.slot_keys@.len(),
{
    seqs::lemma_first_index(m.slots, state::shows(session));
    seqs::lemma_first_index(m.slots, state::is_free());
}

/// Tasks are cleared one after the other.
pub open spec fn all_cleared(m: EngineModel, sessions: Seq<Seq<char>>) -> EngineModel
    decreases sessions.len(),
{
    if sessions.len() == 0 {
        m
    } else {
        all_cleared(m, sessions.drop_last()).cleared(sessions.last())
    }
}

/// The lights that change when tasks are cleared one after the other.
pub open spec fn clear_lights(
    config: AppConfig,
    m: EngineModel,
    sessions: Seq<Seq<char>>,
) -> Seq<LightingChange>
    decreases sessions.len(),
{
    if sessions.len() == 0 {
        Seq::empty()
    } else {
        let before = all_cleared(m, sessions.drop_last());
        clear_lights(config, m, sessions.drop_last()) + state::relit(
            config,
            before.cleared(sessions.last()),
            before.cleared_light(sessions.last()),
        )
    }
}

/// Tasks take on the states that their journals tell, one after the other.
pub open spec fn all_reconciled(m: EngineModel, told: Seq<SessionTransition>) -> EngineModel
    decreases told.len(),
{
    if told.len() == 0 {
        m
    } else {
        let before = all_reconciled(m, told.drop_last());
        before.moved(
            Task {
                session: told.last().session,
                state: told.last().state,
                updated_at: before.not_before(told.last().session, told.last().occurred_at),
            },
        )
    }
}

/// The lights that change when tasks take on the states that their journals tell.
pub open spec fn reconcile_lights(
    config: AppConfig,
    m: EngineModel,
    told: Seq<SessionTransition>,
) -> Seq<LightingChange>
    decreases told.len(),
{
    if told.len() == 0 {
        Seq::empty()
    } else {
        let before = all_reconciled(m, told.drop_last());
        reconcile_lights(config, m, told.drop_last()) + state::relit(
            config,
            all_reconciled(m, told),
            before.moved_light(told.last().session, told.last().state),
        )
    }
}

/// A task that is cleared or changed leaves the number of slots as it is.
proof fn lemma_slot_count(m: EngineModel, task: Task)
    ensures
        m.cleared(task.session).slots.len() == m.slots.len(),
        m.moved(task).slots.len() == m.slots.len(),
{
}

/// Appends lights to lights.
fn append_lights(lights: &mut Vec<LightingChange>, more: &Vec<LightingChange>)
    ensures
        final(lights)@ == old(lights)@ + more@,
{
    let ghost before = lights@;
    let mut i: usize = 0;
    assert(before + more@.take(0) =~= before);
    while i < more.len()
        invariant
            i <= more@.len(),
            lights@ == before + more@.take(i as int),
        decreases more@.len() - i,
    {
        lights.push(more[i]);
        i += 1;
        assert(lights@ =~= before + more@.take(i as int));
    }
    assert(more@.take(i as int) =~= more@);
}

/// Clears the tasks whose journals are gone. The result is the lights that change.
pub fn clear_removed_journal_sessions(
    session_ids: &Vec<String>,
    config: &AppConfig,
    engine: &mut Engine,
    lifecycle: &mut LifecycleTracker,
) -> (r: Vec<LightingChange>)
    requires
        fits(*config, old(engine)@),
    ensures
        ({
            let sessions = session_ids@.map_values(|id: String| id@);
            &&& final(engine)@ == all_cleared(old(engine)@, sessions)
            &&& final(lifecycle)@ == old(lifecycle)@.remove_keys(sessions.to_set())
            &&& r@ == clear_lights(*config, old(engine)@, sessions)
        }),
        final(engine)@.slots.len() == old(engine)@.slots.len(),
{
    let ghost sessions = session_ids@.map_values(|id: String| id@);
    let mut changes: Vec<LightingChange> = Vec::new();
    let mut i: usize = 0;
    proof {
        assert(sessions.take(0) =~= Seq::empty());
        assert(lifecycle@.remove_keys(sessions.take(0).to_set()) =~= lifecycle@);
    }
    while i < session_ids.len()
        invariant
            i <= session_ids@.len(),
            sessions == session_ids@.map_values(|id: String| id@),
            engine@ == all_cleared(old(engine)@, sessions.take(i as int)),
            engine@.slots.len() == old(engine)@.slots.len(),
            fits(*config, old(engine)@),
            lifecycle@ == old(lifecycle)@.remove_keys(sessions.take(i as int).to_set()),
            changes@ == clear_lights(*config, old(engine)@, sessions.take(i as int)),
        decreases session_ids@.len() - i,
    {
        let session: &str = session_ids[i].as_str();
        proof {
            assert(sessions.take(i + 1).drop_last() =~= sessions.take(i as int));
            assert(sessions.take(i + 1).last() == session@);
            lemma_light_fits(*config, engine@, session@, StateKind::Idle);
            lemma_keys_without_one_more(old(lifecycle)@, sessions, i as int);
        }
        lifecycle.clear(Some(session));
        let more: Vec<LightingChange> = engine.clear_session(session, config);
        append_lights(&mut changes, &more);
        i += 1;
    }
    assert(sessions.take(i as int) =~= sessions);
    changes
}

/// The tasks that were not admitted.
pub open spec fn unadmitted(sessions: Seq<Seq<char>>, admitted: Set<Seq<char>>) -> Seq<Seq<char>>
    decreases sessions.len(),
{
    if sessions.len() == 0 {
        Seq::empty()
    } else if admitted.contains(sessions.last()) {
        unadmitted(sessions.drop_last(), admitted)
    } else {
        unadmitted(sessions.drop_last(), admitted).push(sessions.last())
    }
}

/// Clears the tasks that were not admitted.
pub fn prune_unadmitted_sessions(
    engine: &mut Engine,
    admitted_sessions: &StringSet,
    config: &AppConfig,
)
    requires
        fits(*config, old(engine)@),
    ensures
        final(engine)@ == all_cleared(
            old(engine)@,
            unadmitted(old(engine)@.sessions(), admitted_sessions@),
        ),
        final(engine)@.slots.len() == old(engine)@.slots.len(),
{
    let ids: Vec<String> = engine.tracked_session_ids();
    let ghost names = |id: String| id@;
    let ghost sessions = ids@.map_values(names);
    let mut i: usize = 0;
    assert(sessions.take(0) =~= Seq::empty());
    while i < ids.len()
        invariant
            i <= ids@.len(),
            names == (|id: String| id@),
            sessions == ids@.map_values(names),
            engine@ == all_cleared(
                old(engine)@,
                unadmitted(sessions.take(i as int), admitted_sessions@),
            ),
            engine@.slots.len() == old(engine)@.slots.len(),
            fits(*config, old(engine)@),
        decreases ids@.len() - i,
    {
        let session: &str = ids[i].as_str();
        proof {
            assert(sessions.take(i + 1).drop_last() =~= sessions.take(i as int));
            assert(sessions.take(i + 1).last() == session@);
            lemma_light_fits(*config, engine@, session@, StateKind::Idle);
        }
        if !admitted_sessions.contains(session) {
            let ghost stale = unadmitted(sessions.take(i as int), admitted_sessions@);
            let _ = engine.clear_session(session, config);
            proof {
                assert(stale.push(session@).drop_last() =~= stale);
            }
        }
        i += 1;
    }
    assert(sessions.take(i as int) =~= sessions);
}

/// Tasks take on the states that their journals tell. The result is the lights that change.
fn reconcile_all(engine: &mut Engine, told: &Vec<SessionJournalTransition>, config: &AppConfig) -> (r:
    Vec<LightingChange>)
    requires
        fits(*config, old(engine)@),
    ensures
        ({
            let views = told@.map_values(|t: SessionJournalTransition| t@);
            &&& final(engine)@ == all_reconciled(old(engine)@, views)
            &&& r@ == reconcile_lights(*config, old(engine)@, views)
        }),
        final(engine)@.slots.len() == old(engine)@.slots.len(),
{
    let ghost views = told@.map_values(|t: SessionJournalTransition| t@);
    let mut changes: Vec<LightingChange> = Vec::new();
    let mut i: usize = 0;
    assert(views.take(0) =~= Seq::empty());
    while i < told.len()
        invariant
            i <= told@.len(),
            views == told@.map_values(|t: SessionJournalTransition| t@),
            engine@ == all_reconciled(old(engine)@, views.take(i as int)),
            engine@.slots.len() == old(engine)@.slots.len(),
            fits(*config, old(engine)@),
            changes@ == reconcile_lights(*config, old(engine)@, views.take(i as int)),
        decreases told@.len() - i,
    {
        let transition: &SessionJournalTransition = &told[i];
        proof {
            assert(views.take(i + 1).drop_last() =~= views.take(i as int));
            assert(views.take(i + 1).last() == transition@);
            lemma_light_fits(*config, engine@, transition.session_id@, transition.state);
        }
        let more: Vec<LightingChange> = engine.reconcile(
            transition.session_id.as_str(),
            transition.state,
            transition.occurred_at,
            config,
        );
        append_lights(&mut changes, &more);
        i += 1;
    }
    assert(views.take(i as int) =~= views);
    changes
}

/// Whether the task of a hook is one of ours.
#[derive(Debug)]
pub enum Admission {
    Admitted,
    Refused,
    /// It could not be told, for this reason.
    Failed(String),
}

/// What has to be done after a message.
#[derive(Debug)]
pub struct Handled {
    pub request: StatusWriteRequest,
    /// The keys to light.
    pub lights: Vec<LightingChange>,
    /// The configuration has to be read anew.
    pub reload: bool,
    /// A problem that has not been reported yet.
    pub warning: Option<String>,
}

/// What has to be done after a look at the journals.
#[derive(Debug)]
pub struct JournalOutcome {
    pub request: StatusWriteRequest,
    /// The keys to light after tasks took on new states.
    pub lights: Vec<LightingChange>,
    /// The keys to light after tasks went.
    pub removed_lights: Vec<LightingChange>,
}

/// Why a configuration is not taken over, or not wholly.
#[derive(Clone, Copy, Debug, PartialEq, Eq, Structural)]
pub enum ReloadError {
    /// It cannot be used, and nothing has changed.
    Invalid(ConfigError),
    /// It is taken over, and the time of day is not known.
    NoClock,
}

/// All that the daemon knows.
#[derive(Debug)]
pub struct Daemon {
    pub config: AppConfig,
    pub engine: Engine,
    pub lifecycle: LifecycleTracker,
    pub journals: JournalTracker,
    pub hardware: Hardware,
    pub flash: FlashController,
    pub lighting_mode: LightingModeController,
    pub watchdog: LightingWatchdog,
    pub persistence: StatusPersistence,
    pub last_config_check: Instant,
    /// When the configuration was written that was read last, in nanoseconds, where there was one.
    pub config_modified: Option<i128>,
}

/// All that the daemon knows.
#[verifier::ext_equal]
pub struct DaemonModel {
    pub config: AppConfig,
    pub engine: EngineModel,
    pub lifecycle: Map<Seq<char>, Activity>,
    pub journals: TrackerModel,
    pub hardware: HardwareModel,
    pub flash: FlashController,
    pub lighting_mode: LightingModeController,
    pub watchdog: LightingWatchdog,
    pub persistence: StatusPersistence,
    pub last_config_check: Instant,
    /// When the configuration was written that was read last, in nanoseconds, where there was one.
    pub config_modified: Option<i128>,
}

impl View for Daemon {
    type V = DaemonModel;

    open spec fn view(&self) -> DaemonModel {
        DaemonModel {
            config: self.config,
            engine: self.engine@,
            lifecycle: self.lifecycle@,
            journals: self.journals@,
            hardware: self.hardware@,
            flash: self.flash,
            lighting_mode: self.lighting_mode,
            watchdog: self.watchdog,
            persistence: self.persistence,
            last_config_check: self.last_config_check,
            config_modified: self.config_modified,
        }
    }
}

/// The journals of the tasks that are shown or wait.
pub open spec fn retained(journals: TrackerModel, m: EngineModel) -> TrackerModel {
    journals.with_readers(journals.readers.restrict(m.sessions().to_set()))
}

/// A task is forgotten by the journals, or all of them are.
pub open spec fn journals_cleared(journals: TrackerModel, session: Option<Seq<char>>) -> TrackerModel {
    match session {
        Some(session) => journals.with_readers(journals.readers.remove(session)).with_ignored(
            journal_tracker::without(journals.ignored, session),
        ),
        None => journals.with_readers(Map::empty()).with_ignored(Seq::empty()),
    }
}

/// How urgent the status is after a task took on a state.
pub open spec fn change_request(changed: bool) -> StatusWriteRequest {
    if changed {
        StatusWriteRequest::Immediate
    } else {
        StatusWriteRequest::Deferred
    }
}

/// The smaller of two numbers.
pub open spec fn smaller(a: int, b: int) -> int {
    if a <= b {
        a
    } else {
        b
    }
}

impl DaemonModel {
    /// The longest wait that the flashing allows.
    pub open spec fn flash_wait(self, now: Instant) -> int {
        if lighting::is_steady(self.lighting_mode.mode, self.config.lighting, self.engine) {
            status::longest_wait()
        } else {
            let interval = time::millis(self.config.lighting.flash_interval_ms as int);
            let passed = time::elapsed(self.flash.last_toggle, now);
            time::clamped(
                if passed <= interval {
                    interval - passed
                } else {
                    0
                },
                status::shortest_wait(),
                status::longest_wait(),
            )
        }
    }

    /// The longest wait that a deferred status allows.
    pub open spec fn status_wait(self, now: Instant) -> int {
        time::clamped(
            match self.persistence.deadline {
                Some(deadline) => time::elapsed(now, deadline),
                None => status::longest_wait(),
            },
            status::shortest_wait(),
            status::longest_wait(),
        )
    }

    /// The longest wait that the journals allow.
    pub open spec fn journal_wait(self, now: Instant) -> int {
        time::clamped(
            time::elapsed(now, self.journals.next_poll),
            time::millis(1),
            time::millis(journal_tracker::JOURNAL_POLL_INTERVAL_MS as int),
        )
    }

    /// The longest wait for an event that everything allows, pressed G-keys among it where they
    /// are reported.
    pub open spec fn longest_wait(self, now: Instant) -> int {
        let wait = smaller(
            smaller(self.flash_wait(now), self.status_wait(now)),
            self.journal_wait(now),
        );
        if self.hardware.keyboard is Some && self.hardware.keyboard->0.navigates() {
            smaller(wait, time::millis(hardware::G_KEY_INPUT_POLL_INTERVAL_MS as int))
        } else {
            wait
        }
    }

    /// There is a key for each slot.
    pub open spec fn fits(self) -> bool {
        fits(self.config, self.engine)
    }

    /// Some lights have changed: the flashing starts anew.
    pub open spec fn shown(self, changed: bool, now: Instant) -> DaemonModel {
        if changed {
            DaemonModel { flash: FlashController { bright: true, last_toggle: now }, ..self }
        } else {
            self
        }
    }

    /// The keys to light after some lights have changed: all of them.
    pub open spec fn lights(self, changed: bool) -> Seq<LightingChange> {
        if changed {
            state::all_lights(self.config, self.engine)
        } else {
            Seq::empty()
        }
    }

    /// A task takes on a state.
    pub open spec fn with_state(self, session: Seq<char>, next: StateKind, at: u64) -> DaemonModel {
        let engine = self.engine.moved(Task { session, state: next, updated_at: at });
        DaemonModel { engine, journals: retained(self.journals, engine), ..self }
    }

    /// A task takes on a state: whether a light changes by that.
    pub open spec fn state_shows(self, session: Seq<char>, next: StateKind) -> bool {
        self.engine.moved_light(session, next) is Some
    }

    /// The event of a task that is not one of ours.
    pub open spec fn hook_refused(
        self,
        session: Seq<char>,
        event: Seq<char>,
        error: Option<Seq<char>>,
    ) -> DaemonModel {
        let journals = match error {
            Some(error) => TrackerModel { last_error: Some(error), ..self.journals },
            None => self.journals,
        };
        DaemonModel {
            lifecycle: self.lifecycle.remove(session),
            journals: if event == "SessionEnd"@ {
                journals_cleared(journals, Some(session))
            } else {
                journals
            },
            ..self
        }
    }

    /// The state that an event of one of our tasks leads to.
    pub open spec fn hook_state(self, message: EventMessage) -> Option<StateKind> {
        wire::state_after(self.lifecycle, message, self.config)
    }

    /// The event of one of our tasks.
    pub open spec fn hook_admitted(
        self,
        message: EventMessage,
        session: Seq<char>,
        at: u64,
    ) -> DaemonModel {
        let next = DaemonModel {
            lifecycle: wire::sessions_after(self.lifecycle, message, self.config),
            ..self
        };
        match self.hook_state(message) {
            Some(state) => next.with_state(session, state, at),
            None => DaemonModel { journals: retained(self.journals, self.engine), ..next },
        }
    }

    /// A task is cleared, or all of them.
    pub open spec fn with_cleared(self, session: Option<Seq<char>>) -> DaemonModel {
        DaemonModel {
            engine: match session {
                Some(session) => self.engine.cleared(session),
                None => self.engine.emptied(),
            },
            lifecycle: match session {
                Some(session) => self.lifecycle.remove(session),
                None => Map::empty(),
            },
            journals: journals_cleared(self.journals, session),
            ..self
        }
    }

    /// A task is cleared, or all of them: whether a light changes by that.
    pub open spec fn clear_shows(self, session: Option<Seq<char>>) -> bool {
        match session {
            Some(session) => self.engine.cleared_light(session) is Some,
            None => state::occupied(self.engine.slots).len() > 0,
        }
    }

    /// A new configuration takes the place of the old one. Where it is for another keyboard or
    /// other keys, all tasks go and the keyboard is looked for.
    pub open spec fn with_config(self, updated: AppConfig, now: Instant) -> DaemonModel {
        if shape_changes(self.config, updated) {
            DaemonModel {
                config: updated,
                engine: state::empty_engine(updated.behavior.max_sessions as nat),
                hardware: HardwareModel { keyboard: None, next_retry: now, ..self.hardware },
                ..self
            }
        } else {
            DaemonModel { config: updated, ..self }
        }
    }
}

/// A configuration is for another keyboard or other keys.
pub open spec fn shape_changes(current: AppConfig, updated: AppConfig) -> bool {
    ||| updated.behavior.max_sessions != current.behavior.max_sessions
    ||| updated.device.slot_keys@ != current.device.slot_keys@
    ||| updated.device.vendor_id != current.device.vendor_id
    ||| updated.device.product_id != current.device.product_id
    ||| updated.device.usage_page != current.device.usage_page
    ||| updated.device.usage != current.device.usage
}

/// Whether two lists of keys are the same.
fn same_keys(a: &Vec<u8>, b: &Vec<u8>) -> (r: bool)
    ensures
        r == (a@ == b@),
{
    if a.len() != b.len() {
        return false;
    }
    let mut i: usize = 0;
    while i < a.len()
        invariant
            i <= a@.len(),
            a@.len() == b@.len(),
            forall|j: int| 0 <= j < i ==> a@[j] == b@[j],
        decreases a@.len() - i,
    {
        if a[i] != b[i] {
            return false;
        }
        i += 1;
    }
    assert(a@ =~= b@);
    true
}

/// Whether a configuration is for another keyboard or other keys.
pub fn changes_shape(current: &AppConfig, updated: &AppConfig) -> (r: bool)
    ensures
        r == shape_changes(*current, *updated),
{
    updated.behavior.max_sessions != current.behavior.max_sessions || !same_keys(
        &updated.device.slot_keys,
        &current.device.slot_keys,
    ) || updated.device.vendor_id != current.device.vendor_id || updated.device.product_id
        != current.device.product_id || updated.device.usage_page != current.device.usage_page
        || updated.device.usage != current.device.usage
}

impl Daemon {
    /// A daemon that has just started. `config_modified` says when the configuration was written,
    /// and `minute` is the minute of the day.
    pub fn new(
        config: AppConfig,
        config_modified: Option<i128>,
        engine: Engine,
        journals: JournalTracker,
        minute: u16,
        now: Instant,
    ) -> (r: Self)
        ensures
            r@.config == config,
            r@.engine == engine@,
            r@.lifecycle == Map::<Seq<char>, Activity>::empty(),
            r@.journals == journals@,
            r@.hardware.keyboard is None,
            r@.hardware.last_error is None,
            r@.hardware.last_navigation_error is None,
            r@.hardware.failure_count == 0,
            r@.hardware.connection_count == 0,
            r@.hardware.last_failure is None,
            r@.hardware.last_connected_at is None,
            r@.hardware.lighting_reassertion_count == 0,
            r@.hardware.last_lighting_reasserted_at is None,
            r@.hardware.last_lighting_reassert_duration_ms is None,
            r@.hardware.max_lighting_reassert_duration_ms == 0,
            r@.hardware.next_retry == now,
            r@.flash == (FlashController { bright: true, last_toggle: now }),
            r@.lighting_mode == (LightingModeController {
                mode: lighting::mode_at(config.lighting, minute),
                last_checked: now,
            }),
            r@.watchdog == (LightingWatchdog { last_reassert: now }),
            r@.persistence.deadline is None,
            r@.last_config_check == now,
            r@.config_modified == config_modified,
    {
        let lighting_mode: LightingModeController = LightingModeController::new_at_minute(
            &config,
            minute,
            now,
        );
        Daemon {
            config,
            engine,
            lifecycle: LifecycleTracker::default(),
            journals,
            hardware: Hardware::new(now),
            flash: FlashController::new_at(now),
            lighting_mode,
            watchdog: LightingWatchdog::new_at(now),
            persistence: StatusPersistence::new(),
            last_config_check: now,
            config_modified,
        }
    }

    /// Drops the tasks that were not admitted, and takes in what the journals tell of the others.
    pub fn restore_sessions(
        &mut self,
        admitted_sessions: &StringSet,
        transitions: &Vec<SessionJournalTransition>,
    )
        requires
            old(self)@.fits(),
        ensures
            final(self)@ == (DaemonModel {
                engine: all_reconciled(
                    all_cleared(
                        old(self)@.engine,
                        unadmitted(old(self)@.engine.sessions(), admitted_sessions@),
                    ),
                    transitions@.map_values(|t: SessionJournalTransition| t@),
                ),
                ..old(self)@
            }),
            final(self)@.fits(),
    {
        prune_unadmitted_sessions(&mut self.engine, admitted_sessions, &self.config);
        let _ = reconcile_all(&mut self.engine, transitions, &self.config);
    }

    /// How long to wait for an event at most.
    pub fn wait_interval(&self, now: Instant) -> (r: Duration)
        ensures
            r.nanos == self@.longest_wait(now),
            r.nanos <= status::longest_wait(),
    {
        let flash: Duration = self.flash.poll_interval_for_mode(
            now,
            self.lighting_mode.mode(),
            &self.config,
            &self.engine,
        );
        let status: Duration = self.persistence.poll_interval(now);
        let journal: Duration = self.journals.poll_interval(now);
        self.hardware.poll_interval(flash.shorter(status).shorter(journal))
    }

    /// Some lights have changed: the flashing starts anew, and all keys are lit.
    fn apply_state_change(&mut self, changed: bool, now: Instant) -> (r: Vec<LightingChange>)
        requires
            old(self)@.fits(),
        ensures
            final(self)@ == old(self)@.shown(changed, now),
            r@ == old(self)@.lights(changed),
    {
        if !changed {
            return Vec::new();
        }
        self.flash.reset_at(now);
        self.engine.repaint(&self.config)
    }

    /// Follows the journals of the tasks that are shown or wait, and no others.
    pub fn retain_journals_for_engine(&mut self)
        ensures
            final(self)@ == (DaemonModel {
                journals: retained(old(self)@.journals, old(self)@.engine),
                ..old(self)@
            }),
    {
        let ids: Vec<String> = self.engine.tracked_session_ids();
        self.journals.retain_sessions(&ids);
    }

    /// A task takes on a state.
    fn change_state(&mut self, session_id: &str, next: StateKind, at: u64, now: Instant) -> (r: (
        StatusWriteRequest,
        Vec<LightingChange>,
    ))
        requires
            old(self)@.fits(),
        ensures
            ({
                let after = old(self)@.with_state(session_id@, next, at);
                let changed = old(self)@.state_shows(session_id@, next);
                &&& final(self)@ == after.shown(changed, now)
                &&& r.0 == change_request(changed)
                &&& r.1@ == after.lights(changed)
            }),
            final(self)@.fits(),
    {
        proof {
            lemma_light_fits(self.config, self.engine@, session_id@, next);
            lemma_slot_count(
                self.engine@,
                Task { session: session_id@, state: next, updated_at: at },
            );
        }
        let changes: Vec<LightingChange> = self.engine.transition(
            session_id,
            next,
            at,
            &self.config,
        );
        let changed: bool = changes.len() > 0;
        let lights: Vec<LightingChange> = self.apply_state_change(changed, now);
        self.retain_journals_for_engine();
        let request: StatusWriteRequest = if changed {
            StatusWriteRequest::Immediate
        } else {
            StatusWriteRequest::Deferred
        };
        (request, lights)
    }

    /// Takes a message in. `admission` says whether the task of a hook that names its journal is
    /// one of ours; a hook that names none is refused whatever it says, and for other messages it
    /// does not matter.
    pub fn handle_message(
        &mut self,
        message: &EventMessage,
        admission: Admission,
        at: u64,
        now: Instant,
    ) -> (r: Handled)
        requires
            old(self)@.fits(),
        ensures
            final(self)@.fits(),
            r.reload == (*message is Reload),
            match *message {
                EventMessage::Hook {
                    session_id,
                    run_id,
                    hook_event_name,
                    is_subagent,
                    tool_name,
                    last_assistant_message,
                    tool_failed,
                    transcript_path,
                } => {
                    let session = session_id@;
                    match (if transcript_path is None {
                        Admission::Refused
                    } else {
                        admission
                    }) {
                        Admission::Admitted => {
                            let after = old(self)@.hook_admitted(*message, session, at);
                            let state = old(self)@.hook_state(*message);
                            let changed = state is Some && old(self)@.state_shows(
                                session,
                                state->0,
                            );
                            &&& final(self)@ == after.shown(changed, now)
                            &&& r.lights@ == after.lights(changed)
                            &&& r.request == if state is Some {
                                change_request(changed)
                            } else {
                                StatusWriteRequest::Unneeded
                            }
                            &&& r.warning is None
                        },
                        Admission::Refused => {
                            &&& final(self)@ == old(self)@.hook_refused(
                                session,
                                hook_event_name@,
                                None,
                            )
                            &&& r.lights@.len() == 0
                            &&& r.request == StatusWriteRequest::Unneeded
                            &&& r.warning is None
                        },
                        Admission::Failed(error) => {
                            &&& final(self)@ == old(self)@.hook_refused(
                                session,
                                hook_event_name@,
                                Some(error@),
                            )
                            &&& r.lights@.len() == 0
                            &&& r.request == StatusWriteRequest::Unneeded
                            &&& wire::chars_in(r.warning) == if old(self)@.journals.last_error
                                == Some(error@) {
                                None
                            } else {
                                Some(error@)
                            }
                        },
                    }
                },
                EventMessage::SetState { session_id, state } => {
                    let after = old(self)@.with_state(session_id@, state, at);
                    let changed = old(self)@.state_shows(session_id@, state);
                    &&& final(self)@ == after.shown(changed, now)
                    &&& r.lights@ == after.lights(changed)
                    &&& r.request == change_request(changed)
                    &&& r.warning is None
                },
                EventMessage::Clear { session_id } => {
                    let session = wire::chars_in(session_id);
                    let after = old(self)@.with_cleared(session);
                    let changed = old(self)@.clear_shows(session);
                    &&& final(self)@ == after.shown(changed, now)
                    &&& r.lights@ == after.lights(changed)
                    &&& r.request == if changed {
                        StatusWriteRequest::Immediate
                    } else {
                        StatusWriteRequest::Unneeded
                    }
                    &&& r.warning is None
                },
                EventMessage::Reload | EventMessage::Snapshot => {
                    &&& final(self)@ == old(self)@
                    &&& r.lights@.len() == 0
                    &&& r.request == StatusWriteRequest::Immediate
                    &&& r.warning is None
                },
            },
    {
        match message {
            EventMessage::Hook { session_id, hook_event_name, transcript_path, .. } => {
                let session: &str = session_id.as_str();
                let admission: Admission = if transcript_path.is_none() {
                    Admission::Refused
                } else {
                    admission
                };
                let mut warning: Option<String> = None;
                let admitted: bool = match admission {
                    Admission::Admitted => true,
                    Admission::Refused => false,
                    Admission::Failed(error) => {
                        if self.journals.record_error(error.clone()) {
                            warning = Some(error);
                        }
                        false
                    },
                };
                if !admitted {
                    self.lifecycle.clear(Some(session));
                    if text::same_text(hook_event_name.as_str(), "SessionEnd") {
                        self.journals.clear(Some(session));
                    }
                    return Handled {
                        request: StatusWriteRequest::Unneeded,
                        lights: Vec::new(),
                        reload: false,
                        warning,
                    };
                }
                match self.lifecycle.state_for_event(message, &self.config) {
                    Some(state) => {
                        let (request, lights) = self.change_state(session, state, at, now);
                        Handled { request, lights, reload: false, warning: None }
                    },
                    None => {
                        self.retain_journals_for_engine();
                        Handled {
                            request: StatusWriteRequest::Unneeded,
                            lights: Vec::new(),
                            reload: false,
                            warning: None,
                        }
                    },
                }
            },
            EventMessage::SetState { session_id, state } => {
                let (request, lights) = self.change_state(session_id.as_str(), *state, at, now);
                Handled { request, lights, reload: false, warning: None }
            },
            EventMessage::Clear { session_id } => {
                let changes: Vec<LightingChange> = match session_id {
                    Some(session) => {
                        let session: &str = session.as_str();
                        self.lifecycle.clear(Some(session));
                        self.journals.clear(Some(session));
                        proof {
                            lemma_light_fits(
                                self.config,
                                self.engine@,
                                session@,
                                StateKind::Idle,
                            );
                        }
                        self.engine.clear_session(session, &self.config)
                    },
                    None => {
                        self.lifecycle.clear(None);
                        self.journals.clear(None);
                        proof {
                            lemma_fits(self.config, self.engine@);
                        }
                        self.engine.clear_all(&self.config)
                    },
                };
                let changed: bool = changes.len() > 0;
                let lights: Vec<LightingChange> = self.apply_state_change(changed, now);
                let request: StatusWriteRequest = if changed {
                    StatusWriteRequest::Immediate
                } else {
                    StatusWriteRequest::Unneeded
                };
                Handled { request, lights, reload: false, warning: None }
            },
            EventMessage::Reload => Handled {
                request: StatusWriteRequest::Immediate,
                lights: Vec::new(),
                reload: true,
                warning: None,
            },
            EventMessage::Snapshot => Handled {
                request: StatusWriteRequest::Immediate,
                lights: Vec::new(),
                reload: false,
                warning: None,
            },
        }
    }

    /// Takes over a configuration that was read anew. `minute` is the minute of the day, where the
    /// clock could be read. Without an error everything has to be shown anew.
    pub fn reload_config(&mut self, updated: AppConfig, minute: Option<u16>, now: Instant) -> (r:
        Result<(), ReloadError>)
        requires
            old(self)@.fits(),
        ensures
            match config::first_problem(updated) {
                Some(problem) => {
                    &&& final(self)@ == old(self)@
                    &&& r == Err::<(), ReloadError>(ReloadError::Invalid(problem))
                },
                None => {
                    let after = old(self)@.with_config(updated, now);
                    match minute {
                        Some(minute) => {
                            &&& final(self)@ == (DaemonModel {
                                lighting_mode: LightingModeController {
                                    mode: lighting::mode_at(updated.lighting, minute),
                                    last_checked: now,
                                },
                                flash: FlashController { bright: true, last_toggle: now },
                                ..after
                            })
                            &&& r == Ok::<(), ReloadError>(())
                        },
                        None => {
                            &&& final(self)@ == (DaemonModel {
                                lighting_mode: LightingModeController {
                                    mode: old(self)@.lighting_mode.mode,
                                    last_checked: now,
                                },
                                ..after
                            })
                            &&& r == Err::<(), ReloadError>(ReloadError::NoClock)
                        },
                    }
                },
            },
            final(self)@.fits(),
    {
        match updated.validate() {
            Ok(_) => {},
            Err(problem) => {
                return Err(ReloadError::Invalid(problem));
            },
        }
        if changes_shape(&self.config, &updated) {
            self.engine = Engine::new(updated.behavior.max_sessions);
            self.hardware.disconnect(now);
        }
        self.config = updated;
        let _ = self.lighting_mode.update_now(now, minute, &self.config);
        if minute.is_none() {
            return Err(ReloadError::NoClock);
        }
        self.flash.reset_at(now);
        Ok(())
    }

    /// The keys to light when everything is shown anew: those of the tasks, at full brightness.
    pub fn refreshed_lights(&self) -> (r: Vec<LightingChange>)
        requires
            self@.fits(),
        ensures
            r@ == state::active_lights(self@.config, self@.engine, 100),
    {
        proof {
            lemma_fits(self.config, self.engine@);
        }
        self.engine.active_lighting(100, &self.config)
    }

    /// A message asked for the configuration to be read anew, and that has been tried. `modified`
    /// says when it was written.
    pub fn finish_reload(&mut self, error: Option<&str>, modified: Option<i128>)
        ensures
            final(self)@ == (DaemonModel {
                config_modified: if error is None {
                    modified
                } else {
                    old(self)@.config_modified
                },
                lifecycle: if error is None {
                    Map::empty()
                } else {
                    old(self)@.lifecycle
                },
                hardware: match error {
                    Some(error) => HardwareModel {
                        last_error: Some("configuration reload failed: "@ + error@),
                        ..old(self)@.hardware
                    },
                    None => old(self)@.hardware,
                },
                journals: retained(old(self)@.journals, old(self)@.engine),
                ..old(self)@
            }),
    {
        match error {
            Some(error) => {
                let mut text: String = "configuration reload failed: ".to_owned();
                text.append(error);
                self.hardware.last_error = Some(text);
            },
            None => {
                self.lifecycle.clear(None);
                self.config_modified = modified;
            },
        }
        self.retain_journals_for_engine();
    }

    /// Whether a configuration that was written at `modified` is another one than the one that
    /// was taken over last.
    pub fn config_changed(&self, modified: Option<i128>) -> (r: bool)
        ensures
            r == (modified != self@.config_modified),
    {
        match (modified, self.config_modified) {
            (Some(new), Some(known)) => new != known,
            (None, None) => false,
            _ => true,
        }
    }

    /// A changed configuration, written at `modified`, has been taken over.
    pub fn finish_config_check(&mut self, modified: Option<i128>)
        ensures
            final(self)@ == (DaemonModel {
                config_modified: modified,
                lifecycle: Map::empty(),
                journals: retained(old(self)@.journals, old(self)@.engine),
                persistence: StatusPersistence { deadline: None },
                ..old(self)@
            }),
    {
        self.lifecycle.clear(None);
        self.config_modified = modified;
        self.retain_journals_for_engine();
        self.persistence.mark_flushed();
    }

    /// Whether it is time to look at the configuration. The time is counted from then on.
    pub fn config_check_due(&mut self, now: Instant) -> (r: bool)
        ensures
            r == (time::elapsed(old(self)@.last_config_check, now) >= time::seconds(
                CONFIG_CHECK_INTERVAL_SECS as int,
            )),
            final(self)@ == if r {
                DaemonModel { last_config_check: now, ..old(self)@ }
            } else {
                old(self)@
            },
    {
        if now.saturating_duration_since(self.last_config_check).nanos < Duration::from_secs(
            CONFIG_CHECK_INTERVAL_SECS,
        ).nanos {
            return false;
        }
        self.last_config_check = now;
        true
    }

    /// The task on a G-key that was pressed has been opened, or not, for the reason `error`. The
    /// result is the keys to light.
    pub fn finish_press(&mut self, g_key: usize, error: Option<&str>, now: Instant) -> (r: Vec<
        LightingChange,
    >)
        requires
            old(self)@.fits(),
        ensures
            ({
                let noted = DaemonModel {
                    hardware: HardwareModel {
                        last_navigation_error: match error {
                            Some(error) => Some(
                                "failed to open G"@ + text::decimal(g_key as nat) + " task: "@
                                    + error@,
                            ),
                            None => None,
                        },
                        ..old(self)@.hardware
                    },
                    ..old(self)@
                };
                match error {
                    Some(_) => final(self)@ == noted && r@.len() == 0,
                    None => {
                        let after = DaemonModel {
                            engine: old(self)@.engine.acknowledged(g_key as int),
                            ..noted
                        };
                        let changed = old(self)@.engine.can_acknowledge(g_key as int);
                        &&& final(self)@ == after.shown(changed, now)
                        &&& r@ == after.lights(changed)
                    },
                }
            }),
            final(self)@.fits(),
    {
        self.hardware.navigation_finished(g_key, error);
        if error.is_some() {
            return Vec::new();
        }
        let changes: Vec<LightingChange> = self.engine.acknowledge_g_key(g_key, &self.config);
        let changed: bool = changes.len() > 0;
        self.apply_state_change(changed, now)
    }

    /// All pressed G-keys have been dealt with; the tasks of `tried` of them were to be opened. The
    /// result says whether the status has to be written.
    pub fn finish_presses(&mut self, tried: usize) -> (r: bool)
        ensures
            r == (tried > 0),
            final(self)@ == if tried > 0 {
                DaemonModel {
                    journals: retained(old(self)@.journals, old(self)@.engine),
                    persistence: StatusPersistence { deadline: None },
                    ..old(self)@
                }
            } else {
                old(self)@
            },
    {
        if tried == 0 {
            return false;
        }
        self.retain_journals_for_engine();
        self.persistence.mark_flushed();
        true
    }

    /// Takes in the states that journals tell. The result is how urgent the status is, and the keys
    /// to light.
    pub fn apply_journal_transitions(
        &mut self,
        transitions: &Vec<SessionJournalTransition>,
        now: Instant,
    ) -> (r: (StatusWriteRequest, Vec<LightingChange>))
        requires
            old(self)@.fits(),
        ensures
            ({
                let told = transitions@.map_values(|t: SessionJournalTransition| t@);
                let after = DaemonModel {
                    engine: all_reconciled(old(self)@.engine, told),
                    ..old(self)@
                };
                let changed = reconcile_lights(old(self)@.config, old(self)@.engine, told).len()
                    > 0;
                &&& final(self)@ == after.shown(changed, now)
                &&& r.0 == if told.len() == 0 {
                    StatusWriteRequest::Unneeded
                } else {
                    change_request(changed)
                }
                &&& r.1@ == after.lights(changed)
            }),
            final(self)@.fits(),
    {
        if transitions.len() == 0 {
            assert(transitions@.map_values(|t: SessionJournalTransition| t@) =~= Seq::empty());
            return (StatusWriteRequest::Unneeded, Vec::new());
        }
        let changes: Vec<LightingChange> = reconcile_all(
            &mut self.engine,
            transitions,
            &self.config,
        );
        let changed: bool = changes.len() > 0;
        let lights: Vec<LightingChange> = self.apply_state_change(changed, now);
        let request: StatusWriteRequest = if changed {
            StatusWriteRequest::Immediate
        } else {
            StatusWriteRequest::Deferred
        };
        (request, lights)
    }

    /// Takes in a look at the journals: first the states that they tell, then the tasks that went.
    /// What hooks have told of a task before counts no more once its journal has told something.
    pub fn apply_journal_poll(&mut self, poll: &JournalPoll, now: Instant) -> (r: JournalOutcome)
        requires
            old(self)@.fits(),
        ensures
            ({
                let told = poll.transitions@.map_values(|t: SessionJournalTransition| t@);
                let gone = poll.removed_sessions@.map_values(|id: String| id@);
                let named = told.map_values(|t: SessionTransition| t.session);
                let reconciled = DaemonModel {
                    engine: all_reconciled(old(self)@.engine, told),
                    lifecycle: old(self)@.lifecycle.remove_keys(named.to_set()),
                    ..old(self)@
                };
                let first = reconcile_lights(old(self)@.config, old(self)@.engine, told).len() > 0;
                let between = reconciled.shown(first, now);
                let after = DaemonModel {
                    engine: all_cleared(between.engine, gone),
                    lifecycle: between.lifecycle.remove_keys(gone.to_set()),
                    ..between
                };
                let second = clear_lights(between.config, between.engine, gone).len() > 0;
                &&& final(self)@ == after.shown(second, now)
                &&& r.lights@ == reconciled.lights(first)
                &&& r.removed_lights@ == after.lights(second)
                &&& r.request == if gone.len() > 0 {
                    StatusWriteRequest::Immediate
                } else if told.len() == 0 {
                    StatusWriteRequest::Unneeded
                } else {
                    change_request(first)
                }
            }),
            final(self)@.fits(),
    {
        let ghost told = poll.transitions@.map_values(|t: SessionJournalTransition| t@);
        let ghost named = told.map_values(|t: SessionTransition| t.session);
        let mut i: usize = 0;
        proof {
            assert(named.take(0) =~= Seq::empty());
            assert(self.lifecycle@.remove_keys(named.take(0).to_set()) =~= self.lifecycle@);
        }
        while i < poll.transitions.len()
            invariant
                i <= poll.transitions@.len(),
                told == poll.transitions@.map_values(|t: SessionJournalTransition| t@),
                named == told.map_values(|t: SessionTransition| t.session),
                self@ == (DaemonModel {
                    lifecycle: old(self)@.lifecycle.remove_keys(named.take(i as int).to_set()),
                    ..old(self)@
                }),
            decreases poll.transitions@.len() - i,
        {
            let session: &str = poll.transitions[i].session_id.as_str();
            proof {
                assert(told[i as int] == poll.transitions@[i as int]@);
                assert(named[i as int] == session@);
                lemma_keys_without_one_more(old(self)@.lifecycle, named, i as int);
            }
            self.lifecycle.clear(Some(session));
            i += 1;
        }
        assert(named.take(i as int) =~= named);
        let (told_request, lights) = self.apply_journal_transitions(&poll.transitions, now);
        if poll.removed_sessions.len() == 0 {
            proof {
                let gone = poll.removed_sessions@.map_values(|id: String| id@);
                assert(gone =~= Seq::empty());
                assert(self.lifecycle@.remove_keys(gone.to_set()) =~= self.lifecycle@);
            }
            return JournalOutcome { request: told_request, lights, removed_lights: Vec::new() };
        }
        let changes: Vec<LightingChange> = clear_removed_journal_sessions(
            &poll.removed_sessions,
            &self.config,
            &mut self.engine,
            &mut self.lifecycle,
        );
        let changed: bool = changes.len() > 0;
        let removed_lights: Vec<LightingChange> = self.apply_state_change(changed, now);
        JournalOutcome { request: StatusWriteRequest::Immediate, lights, removed_lights }
    }

    /// Looks up whether it is day or night, where it is time for that. `minute` is the minute of
    /// the day, where the clock could be read. Where the result is `true`, everything has to be
    /// shown anew and the status to be written.
    pub fn update_mode_if_due(&mut self, now: Instant, minute: Option<u16>) -> (r: bool)
        ensures
            ({
                let before = old(self)@.lighting_mode;
                let due = time::elapsed(before.last_checked, now) >= time::seconds(
                    lighting::LIGHTING_MODE_CHECK_INTERVAL_SECS as int,
                );
                let mode = match minute {
                    Some(minute) => lighting::mode_at(old(self)@.config.lighting, minute),
                    None => before.mode,
                };
                if !due {
                    final(self)@ == old(self)@ && !r
                } else if mode == before.mode {
                    &&& !r
                    &&& final(self)@ == (DaemonModel {
                        lighting_mode: LightingModeController { mode, last_checked: now },
                        ..old(self)@
                    })
                } else {
                    &&& r
                    &&& final(self)@ == (DaemonModel {
                        lighting_mode: LightingModeController { mode, last_checked: now },
                        flash: FlashController { bright: true, last_toggle: now },
                        persistence: StatusPersistence { deadline: None },
                        ..old(self)@
                    })
                }
            }),
    {
        if !self.lighting_mode.update_if_due(now, minute, &self.config) {
            return false;
        }
        self.flash.reset_at(now);
        self.persistence.mark_flushed();
        true
    }

    /// The keys to light, where it is time to make them dim or bright.
    pub fn flash_frame_if_due(&mut self, now: Instant) -> (r: Option<Vec<LightingChange>>)
        requires
            old(self)@.fits(),
        ensures
            ({
                let (flash, percent) = lighting::flashed(
                    old(self)@.flash,
                    now,
                    old(self)@.lighting_mode.mode,
                    old(self)@.config.lighting,
                    old(self)@.engine,
                );
                &&& final(self)@ == (DaemonModel { flash, ..old(self)@ })
                &&& match percent {
                    Some(percent) => r matches Some(frame) && frame@ == state::active_lights(
                        old(self)@.config,
                        old(self)@.engine,
                        percent,
                    ),
                    None => r is None,
                }
            }),
    {
        proof {
            lemma_fits(self.config, self.engine@);
        }
        let mode: LightingMode = self.lighting_mode.mode();
        self.flash.frame_if_due_for_mode(now, mode, &self.config, &self.engine)
    }

    /// Whether it is time to write the lights anew.
    pub fn reassert_due(&mut self, now: Instant) -> (r: bool)
        ensures
            r == (time::elapsed(old(self)@.watchdog.last_reassert, now) >= time::millis(
                old(self)@.config.lighting.reassert_interval_ms as int,
            )),
            final(self)@ == if r {
                DaemonModel { watchdog: LightingWatchdog { last_reassert: now }, ..old(self)@ }
            } else {
                old(self)@
            },
    {
        let interval: Duration = Duration::from_millis(self.config.lighting.reassert_interval_ms);
        self.watchdog.take_if_due(now, interval)
    }
}

/// Removing the first keys and one more is removing the first keys, and then that one.
proof fn lemma_keys_without_one_more(
    m: Map<Seq<char>, Activity>,
    names: Seq<Seq<char>>,
    i: int,
)
    requires
        0 <= i < names.len(),
    ensures
        m.remove_keys(names.take(i + 1).to_set()) == m.remove_keys(
            names.take(i).to_set(),
        ).remove(names[i]),
{
    let grown = names.take(i + 1);
    assert forall|key: Seq<char>| grown.to_set().contains(key) <==> names.take(
        i,
    ).to_set().contains(key) || key == names[i] by {
        if names.take(i).contains(key) {
            let j = names.take(i).index_of(key);
            assert(grown[j] == key);
        }
        assert(grown[i] == names[i]);
        if grown.contains(key) && key != names[i] {
            let j = grown.index_of(key);
            assert(names.take(i)[j] == key);
        }
    }
    assert(m.remove_keys(grown.to_set()) =~= m.remove_keys(names.take(i).to_set()).remove(names[i]));
}

/// What the daemon shows of itself.
#[derive(Debug)]
pub struct DaemonStatus {
    pub pid: u32,
    pub updated_at: u64,
    pub config_path: String,
    pub lighting_mode: LightingMode,
    pub device_connected: bool,
    pub last_error: Option<String>,
    pub hardware_connection_count: u64,
    pub hardware_failure_count: u64,
    pub last_hardware_connected_at: Option<u64>,
    pub last_hardware_failure: Option<ObservedFailure>,
    pub lighting_reassertion_count: u64,
    pub last_lighting_reasserted_at: Option<u64>,
    pub last_lighting_reassert_duration_ms: Option<u64>,
    pub max_lighting_reassert_duration_ms: u64,
    pub status_write_failure_count: u64,
    pub last_status_write_failure: Option<ObservedFailure>,
    pub event_loop_delay_count: u64,
    pub last_event_loop_delay: Option<ObservedDelay>,
    pub max_event_loop_delay_ms: u64,
    pub g_key_navigation_enabled: bool,
    pub g_key_navigation_active: bool,
    pub last_navigation_error: Option<String>,
    pub lifecycle_sources: usize,
    pub last_lifecycle_error: Option<String>,
    pub slots: Vec<SlotSnapshot>,
    pub queued_sessions: Vec<RestoredQueuedSession>,
}

/// A copy of an optional string.
fn copied_text(text: &Option<String>) -> (r: Option<String>)
    ensures
        wire::chars_in(r) == wire::chars_in(*text),
{
    match text {
        Some(text) => Some(text.clone()),
        None => None,
    }
}

/// A copy of an observed failure.
fn copied_failure(failure: &Option<ObservedFailure>) -> (r: Option<ObservedFailure>)
    ensures
        hardware::failure_of(r) == hardware::failure_of(*failure),
{
    match failure {
        Some(failure) => Some(
            ObservedFailure {
                occurred_at: failure.occurred_at,
                message: failure.message.clone(),
            },
        ),
        None => None,
    }
}

impl Daemon {
    /// What the daemon shows of itself.
    pub fn status(
        &self,
        publisher: &StatusPublisher,
        pid: u32,
        updated_at: u64,
        config_path: String,
        lighting_mode: LightingMode,
    ) -> (r: DaemonStatus)
        requires
            self@.fits(),
        ensures
            r.pid == pid,
            r.updated_at == updated_at,
            r.config_path == config_path,
            r.lighting_mode == lighting_mode,
            r.device_connected == (self@.hardware.keyboard is Some),
            wire::chars_in(r.last_error) == self@.hardware.last_error,
            r.hardware_connection_count == self@.hardware.connection_count,
            r.hardware_failure_count == self@.hardware.failure_count,
            r.last_hardware_connected_at == self@.hardware.last_connected_at,
            hardware::failure_of(r.last_hardware_failure) == self@.hardware.last_failure,
            r.lighting_reassertion_count == self@.hardware.lighting_reassertion_count,
            r.last_lighting_reasserted_at == self@.hardware.last_lighting_reasserted_at,
            r.last_lighting_reassert_duration_ms
                == self@.hardware.last_lighting_reassert_duration_ms,
            r.max_lighting_reassert_duration_ms == self@.hardware.max_lighting_reassert_duration_ms,
            r.status_write_failure_count == publisher.failure_count,
            hardware::failure_of(r.last_status_write_failure) == hardware::failure_of(
                publisher.last_failure,
            ),
            r.event_loop_delay_count == publisher.event_loop.delay_count,
            r.last_event_loop_delay == publisher.event_loop.last_delay,
            r.max_event_loop_delay_ms == publisher.event_loop.max_delay_ms,
            r.g_key_navigation_enabled == self@.config.navigation.enabled,
            r.g_key_navigation_active == (self@.hardware.keyboard is Some
                && self@.hardware.keyboard->0.navigates()),
            wire::chars_in(r.last_navigation_error) == self@.hardware.last_navigation_error,
            self@.journals.readers.dom().finite(),
            r.lifecycle_sources == self@.journals.readers.dom().len(),
            wire::chars_in(r.last_lifecycle_error) == self@.journals.last_error,
            r.slots@.len() == state::occupied(self@.engine.slots).len(),
            forall|k: int|
                0 <= k < r.slots@.len() ==> state::snapshot_of(
                    #[trigger] r.slots@[k],
                    self@.config,
                    self@.engine.slots[state::occupied(self@.engine.slots)[k]],
                    state::occupied(self@.engine.slots)[k],
                ),
            r.queued_sessions@.map_values(|task: RestoredQueuedSession| task@)
                == self@.engine.waiting,
    {
        proof {
            lemma_fits(self.config, self.engine@);
        }
        DaemonStatus {
            pid,
            updated_at,
            config_path,
            lighting_mode,
            device_connected: self.hardware.keyboard.is_some(),
            last_error: copied_text(&self.hardware.last_error),
            hardware_connection_count: self.hardware.connection_count,
            hardware_failure_count: self.hardware.failure_count,
            last_hardware_connected_at: self.hardware.last_connected_at,
            last_hardware_failure: copied_failure(&self.hardware.last_failure),
            lighting_reassertion_count: self.hardware.lighting_reassertion_count,
            last_lighting_reasserted_at: self.hardware.last_lighting_reasserted_at,
            last_lighting_reassert_duration_ms: self.hardware.last_lighting_reassert_duration_ms,
            max_lighting_reassert_duration_ms: self.hardware.max_lighting_reassert_duration_ms,
            status_write_failure_count: publisher.failure_count,
            last_status_write_failure: copied_failure(&publisher.last_failure),
            event_loop_delay_count: publisher.event_loop.delay_count,
            last_event_loop_delay: publisher.event_loop.last_delay,
            max_event_loop_delay_ms: publisher.event_loop.max_delay_ms,
            g_key_navigation_enabled: self.config.navigation.enabled,
            g_key_navigation_active: self.hardware.navigation_active(),
            last_navigation_error: copied_text(&self.hardware.last_navigation_error),
            lifecycle_sources: self.journals.source_count(),
            last_lifecycle_error: copied_text(self.journals.last_error()),
            slots: self.engine.snapshot(&self.config),
            queued_sessions: self.engine.queued_snapshot(),
        }
    }
}

} // verus!
