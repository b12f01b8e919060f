//! The tasks on the G-keys.
//!
//! The engine keeps one slot per G-key, and a queue of tasks that wait for a free slot.
use std::collections::VecDeque;
use std::str::FromStr;

use vstd::prelude::*;

use crate::config::{AppConfig, Color};
use crate::config;
use crate::seqs;
use crate::text;

verus! {

/// What a task is doing.
#[derive(Clone, Copy, Debug, PartialEq, Eq, Structural)]
pub enum StateKind {
    Idle,
    Working,
    Approval,
    Requested,
    Done,
    Error,
}

/// A string that is not the name of a state.
#[derive(Clone, Debug, PartialEq, Eq)]
pub struct ParseStateError {
    pub value: String,
}

/// The name of a state.
pub open spec fn state_name(state: StateKind) -> Seq<char> {
    match state {
        StateKind::Idle => "idle"@,
        StateKind::Working => "working"@,
        StateKind::Approval => "approval"@,
        StateKind::Requested => "requested"@,
        StateKind::Done => "done"@,
        StateKind::Error => "error"@,
    }
}

/// The state that a word stands for. A state has a name and some other words.
pub open spec fn state_of_word(w: Seq<char>) -> Option<StateKind> {
    if w == "idle"@ || w == "clear"@ || w == "off"@ {
        Some(StateKind::Idle)
    } else if w == "working"@ || w == "running"@ || w == "busy"@ {
        Some(StateKind::Working)
    } else if w == "approval"@ || w == "approve"@ || w == "permission"@ {
        Some(StateKind::Approval)
    } else if w == "requested"@ || w == "request"@ || w == "input"@ || w == "waiting"@ {
        Some(StateKind::Requested)
    } else if w == "done"@ || w == "complete"@ || w == "completed"@ {
        Some(StateKind::Done)
    } else if w == "error"@ || w == "failed"@ || w == "failure"@ {
        Some(StateKind::Error)
    } else {
        None
    }
}

/// The state that a string stands for, whatever white space is around it and whatever its case.
pub open spec fn state_value(value: Seq<char>) -> Option<StateKind> {
    state_of_word(text::lowered(text::trimmed(value)))
}

impl StateKind {
    /// The name of the state.
    pub fn name(&self) -> (r: &'static str)
        ensures
            r@ == state_name(*self),
    {
        match self {
            StateKind::Idle => "idle",
            StateKind::Working => "working",
            StateKind::Approval => "approval",
            StateKind::Requested => "requested",
            StateKind::Done => "done",
            StateKind::Error => "error",
        }
    }

    /// The name of the state.
    pub fn to_string(&self) -> (r: String)
        ensures
            r@ == state_name(*self),
    {
        self.name().to_owned()
    }

    /// Reads the name of a state, or another word for it.
    pub fn parse(value: &str) -> (r: Result<Self, ParseStateError>)
        ensures
            match r {
                Ok(state) => state_value(value@) == Some(state),
                Err(error) => state_value(value@) is None && error.value@ == value@,
            },
    {
        let word: Vec<char> = text::lower_chars(text::trim(value));
        let w: &[char] = word.as_slice();
        if text::chars_are(w, "idle") || text::chars_are(w, "clear") || text::chars_are(w, "off") {
            Ok(StateKind::Idle)
        } else if text::chars_are(w, "working") || text::chars_are(w, "running") || text::chars_are(
            w,
            "busy",
        ) {
            Ok(StateKind::Working)
        } else if text::chars_are(w, "approval") || text::chars_are(w, "approve")
            || text::chars_are(w, "permission") {
            Ok(StateKind::Approval)
        } else if text::chars_are(w, "requested") || text::chars_are(w, "request")
            || text::chars_are(w, "input") || text::chars_are(w, "waiting") {
            Ok(StateKind::Requested)
        } else if text::chars_are(w, "done") || text::chars_are(w, "complete") || text::chars_are(
            w,
            "completed",
        ) {
            Ok(StateKind::Done)
        } else if text::chars_are(w, "error") || text::chars_are(w, "failed") || text::chars_are(
            w,
            "failure",
        ) {
            Ok(StateKind::Error)
        } else {
            Err(ParseStateError { value: value.to_owned() })
        }
    }
}

impl FromStr for StateKind {
    type Err = ParseStateError;

    fn from_str(value: &str) -> (r: Result<Self, ParseStateError>)
        ensures
            match r {
                Ok(state) => state_value(value@) == Some(state),
                Err(error) => state_value(value@) is None && error.value@ == value@,
            },
    {
        StateKind::parse(value)
    }
}

/// Reading back the name of a state gives the same state.
pub proof fn law_state_name_round_trip(state: StateKind)
    ensures
        state_value(state_name(state)) == Some(state),
{
    reveal_strlit("idle");
    reveal_strlit("clear");
    reveal_strlit("off");
    reveal_strlit("working");
    reveal_strlit("running");
    reveal_strlit("busy");
    reveal_strlit("approval");
    reveal_strlit("approve");
    reveal_strlit("permission");
    reveal_strlit("requested");
    reveal_strlit("request");
    reveal_strlit("input");
    reveal_strlit("waiting");
    reveal_strlit("done");
    reveal_strlit("complete");
    reveal_strlit("completed");
    reveal_strlit("error");
    reveal_strlit("failed");
    reveal_strlit("failure");
    let n = state_name(state);
    assert(!text::is_space(n[0]) && !text::is_space(n.last()));
    assert(text::trimmed(n) == n);
    assert(text::lowered(n) == n);
    match state {
        StateKind::Idle => {},
        StateKind::Working => {
            assert(n[0] == 'w');
        },
        StateKind::Approval => {
            assert(n[0] == 'a');
        },
        StateKind::Requested => {
            assert(n[0] == 'r' && n[1] == 'e');
        },
        StateKind::Done => {
            assert(n[0] == 'd');
        },
        StateKind::Error => {
            assert(n[0] == 'e');
        },
    }
}

/// A task as the engine knows it.
pub struct Task {
    pub session: Seq<char>,
    pub state: StateKind,
    pub updated_at: u64,
}

/// A task with the number of its slot, counted from one.
pub struct SavedSlot {
    pub slot: nat,
    pub task: Task,
}

/// The tasks in their slots, and those that wait.
#[verifier::ext_equal]
pub struct EngineModel {
    pub slots: Seq<Option<Task>>,
    pub waiting: Seq<Task>,
}

/// The slot shows the task `session`.
pub open spec fn shows(session: Seq<char>) -> spec_fn(Option<Task>) -> bool {
    |slot: Option<Task>| slot is Some && slot->0.session == session
}

/// The slot is free.
pub open spec fn is_free() -> spec_fn(Option<Task>) -> bool {
    |slot: Option<Task>| slot is None
}

/// The task is `session`.
pub open spec fn is_session(session: Seq<char>) -> spec_fn(Task) -> bool {
    |task: Task| task.session == session
}

/// The slots from the first to the `n`th that are in use.
pub open spec fn occupied_among(slots: Seq<Option<Task>>, n: nat) -> Seq<int>
    decreases n,
{
    if n == 0 {
        Seq::empty()
    } else if slots[n - 1] is Some {
        occupied_among(slots, (n - 1) as nat).push(n - 1)
    } else {
        occupied_among(slots, (n - 1) as nat)
    }
}

/// The slots in use, in the order of the keys.
pub open spec fn occupied(slots: Seq<Option<Task>>) -> Seq<int> {
    occupied_among(slots, slots.len())
}

impl EngineModel {
    /// The slot of a task.
    pub open spec fn slot_of(self, session: Seq<char>) -> Option<int> {
        seqs::first_index(self.slots, shows(session))
    }

    /// The first free slot.
    pub open spec fn free_slot(self) -> Option<int> {
        seqs::first_index(self.slots, is_free())
    }

    /// The place of a task in the queue.
    pub open spec fn place_of(self, session: Seq<char>) -> Option<int> {
        seqs::first_index(self.waiting, is_session(session))
    }

    /// The task is in a slot or in the queue.
    pub open spec fn tracks(self, session: Seq<char>) -> bool {
        self.slot_of(session) is Some || self.place_of(session) is Some
    }

    /// The slot that a task has or would get.
    pub open spec fn target_slot(self, session: Seq<char>) -> Option<int> {
        if self.slot_of(session) is Some {
            self.slot_of(session)
        } else {
            self.free_slot()
        }
    }

    /// Slot `i` goes to the task that has waited longest, or becomes free.
    pub open spec fn released(self, i: int) -> EngineModel {
        if self.waiting.len() > 0 {
            EngineModel {
                slots: self.slots.update(i, Some(self.waiting[0])),
                waiting: self.waiting.subrange(1, self.waiting.len() as int),
            }
        } else {
            EngineModel { slots: self.slots.update(i, None), waiting: self.waiting }
        }
    }

    /// A task leaves the queue, or its slot is released.
    pub open spec fn cleared(self, session: Seq<char>) -> EngineModel {
        match self.place_of(session) {
            Some(i) => EngineModel { slots: self.slots, waiting: self.waiting.remove(i) },
            None => match self.slot_of(session) {
                Some(i) => self.released(i),
                None => self,
            },
        }
    }

    /// The slot whose light changes when a task is cleared.
    pub open spec fn cleared_light(self, session: Seq<char>) -> Option<int> {
        if self.place_of(session) is Some {
            None
        } else {
            self.slot_of(session)
        }
    }

    /// A task takes on a state. A waiting task stays where it is; any other goes to its slot, to
    /// the first free slot, or to the end of the queue. An idle task is cleared.
    pub open spec fn moved(self, task: Task) -> EngineModel {
        if task.state == StateKind::Idle {
            self.cleared(task.session)
        } else {
            match self.place_of(task.session) {
                Some(i) => EngineModel {
                    slots: self.slots,
                    waiting: self.waiting.update(i, task),
                },
                None => match self.target_slot(task.session) {
                    Some(i) => EngineModel {
                        slots: self.slots.update(i, Some(task)),
                        waiting: self.waiting,
                    },
                    None => EngineModel {
                        slots: self.slots,
                        waiting: self.waiting.push(task),
                    },
                },
            }
        }
    }

    /// The slot whose light changes when a task takes on a state.
    pub open spec fn moved_light(self, session: Seq<char>, state: StateKind) -> Option<int> {
        if state == StateKind::Idle {
            self.cleared_light(session)
        } else if self.place_of(session) is Some {
            None
        } else {
            match self.target_slot(session) {
                Some(i) => if shows(session)(self.slots[i]) && self.slots[i]->0.state == state {
                    None
                } else {
                    Some(i)
                },
                None => None,
            }
        }
    }

    /// When a task was last updated.
    pub open spec fn last_update(self, session: Seq<char>) -> Option<u64> {
        match self.slot_of(session) {
            Some(i) => Some(self.slots[i]->0.updated_at),
            None => match self.place_of(session) {
                Some(i) => Some(self.waiting[i].updated_at),
                None => None,
            },
        }
    }

    /// The later of a task's last update and `occurred_at`.
    pub open spec fn not_before(self, session: Seq<char>, occurred_at: u64) -> u64 {
        match self.last_update(session) {
            Some(t) => if t >= occurred_at {
                t
            } else {
                occurred_at
            },
            None => occurred_at,
        }
    }

    /// The G-key `g_key` shows a task that is not at work any more.
    pub open spec fn can_acknowledge(self, g_key: int) -> bool {
        1 <= g_key <= self.slots.len() && self.slots[g_key - 1] is Some && self.slots[g_key
            - 1]->0.state != StateKind::Working
    }

    /// The G-key `g_key` was pressed and its task opened.
    pub open spec fn acknowledged(self, g_key: int) -> EngineModel {
        if self.can_acknowledge(g_key) {
            self.released(g_key - 1)
        } else {
            self
        }
    }

    /// No task in any slot, and none waits.
    pub open spec fn emptied(self) -> EngineModel {
        EngineModel { slots: Seq::new(self.slots.len(), |i: int| None), waiting: Seq::empty() }
    }

    /// A saved slot is taken over, unless it is out of range, in use, idle, nameless or a repetition.
    pub open spec fn with_saved_slot(self, saved: SavedSlot) -> EngineModel {
        if 1 <= saved.slot <= self.slots.len() && saved.task.session.len() > 0 && saved.task.state
            != StateKind::Idle && self.slots[saved.slot - 1] is None && !self.tracks(
            saved.task.session,
        ) {
            EngineModel {
                slots: self.slots.update(saved.slot - 1, Some(saved.task)),
                waiting: self.waiting,
            }
        } else {
            self
        }
    }

    /// A saved task joins the queue, unless it is idle, nameless or a repetition.
    pub open spec fn with_saved_task(self, task: Task) -> EngineModel {
        if task.session.len() > 0 && task.state != StateKind::Idle && !self.tracks(task.session) {
            EngineModel { slots: self.slots, waiting: self.waiting.push(task) }
        } else {
            self
        }
    }

    /// The first saved slots are taken over, one after the other.
    pub open spec fn with_saved_slots(self, saved: Seq<SavedSlot>) -> EngineModel
        decreases saved.len(),
    {
        if saved.len() == 0 {
            self
        } else {
            self.with_saved_slots(saved.drop_last()).with_saved_slot(saved.last())
        }
    }

    /// The saved tasks join the queue, one after the other.
    pub open spec fn with_saved_tasks(self, tasks: Seq<Task>) -> EngineModel
        decreases tasks.len(),
    {
        if tasks.len() == 0 {
            self
        } else {
            self.with_saved_tasks(tasks.drop_last()).with_saved_task(tasks.last())
        }
    }

    /// Waiting tasks go to free slots as long as there are both.
    pub open spec fn filled(self) -> EngineModel
        decreases self.waiting.len(),
    {
        match self.free_slot() {
            Some(i) => if self.waiting.len() > 0 {
                self.released(i).filled()
            } else {
                self
            },
            None => self,
        }
    }

    /// The tasks in their slots, as they are saved.
    pub open spec fn saved_slots(self) -> Seq<SavedSlot> {
        occupied(self.slots).map_values(
            |i: int| SavedSlot { slot: (i + 1) as nat, task: self.slots[i]->0 },
        )
    }

    /// The tasks in their slots, then those that wait.
    pub open spec fn sessions(self) -> Seq<Seq<char>> {
        occupied(self.slots).map_values(|i: int| self.slots[i]->0.session)
            + self.waiting.map_values(|task: Task| task.session)
    }
}

/// `slots` free slots.
pub open spec fn empty_engine(slots: nat) -> EngineModel {
    EngineModel { slots: Seq::new(slots, |i: int| None), waiting: Seq::empty() }
}

/// The engine that saved slots and a saved queue stand for.
pub open spec fn restored_engine(
    slots: nat,
    saved: Seq<SavedSlot>,
    queued: Seq<Task>,
) -> EngineModel {
    empty_engine(slots).with_saved_slots(saved).with_saved_tasks(queued).filled()
}

/// The colour of a slot: that of its task's state, or the background.
pub open spec fn slot_color(config: AppConfig, slot: Option<Task>) -> Color {
    match slot {
        Some(task) => config::state_color(config.colors, task.state),
        None => config.lighting.background,
    }
}

/// There is a key for each of the slots.
pub open spec fn has_keys(config: AppConfig, slots: Seq<int>) -> bool {
    forall|k: int| 0 <= k < slots.len() ==> #[trigger] slots[k] < config.device.slot_keys@.len()
}

/// The lights after a change of at most one slot.
pub open spec fn relit(
    config: AppConfig,
    after: EngineModel,
    light: Option<int>,
) -> Seq<LightingChange> {
    match light {
        Some(i) => seq![
            LightingChange {
                key: config.device.slot_keys@[i],
                color: slot_color(config, after.slots[i]),
            },
        ],
        None => Seq::empty(),
    }
}

/// `color` at `percent` per cent.
pub open spec fn dimmed(color: Color, percent: u8) -> Color {
    Color {
        red: config::scaled_channel(color.red, percent),
        green: config::scaled_channel(color.green, percent),
        blue: config::scaled_channel(color.blue, percent),
    }
}

/// The lights of the slots in use, at `percent` per cent.
pub open spec fn active_lights(config: AppConfig, m: EngineModel, percent: u8) -> Seq<
    LightingChange,
> {
    occupied(m.slots).map_values(
        |i: int|
            LightingChange {
                key: config.device.slot_keys@[i],
                color: dimmed(slot_color(config, m.slots[i]), percent),
            },
    )
}

/// The lights of all slots.
pub open spec fn all_lights(config: AppConfig, m: EngineModel) -> Seq<LightingChange> {
    Seq::new(
        m.slots.len(),
        |i: int|
            LightingChange {
                key: config.device.slot_keys@[i],
                color: slot_color(config, m.slots[i]),
            },
    )
}

/// A task in a slot or in the queue.
#[derive(Clone, Debug)]
struct Slot {
    session_id: String,
    state: StateKind,
    updated_at: u64,
}

impl View for Slot {
    type V = Task;

    closed spec fn view(&self) -> Task {
        Task { session: self.session_id@, state: self.state, updated_at: self.updated_at }
    }
}

/// A key and the colour that it takes on.
#[derive(Clone, Copy, Debug, PartialEq, Eq, Structural)]
pub struct LightingChange {
    pub key: u8,
    pub color: Color,
}

/// The tasks on the G-keys, and those that wait for a G-key.
#[derive(Debug)]
pub struct Engine {
    slots: Vec<Option<Slot>>,
    waiting: VecDeque<Slot>,
}

/// A slot as it was saved.
#[derive(Clone, Debug)]
pub struct RestoredSlot {
    pub slot: usize,
    pub session_id: String,
    pub state: StateKind,
    pub updated_at: u64,
}

impl View for RestoredSlot {
    type V = SavedSlot;

    open spec fn view(&self) -> SavedSlot {
        SavedSlot {
            slot: self.slot as nat,
            task: Task {
                session: self.session_id@,
                state: self.state,
                updated_at: self.updated_at,
            },
        }
    }
}

/// A waiting task as it was saved.
#[derive(Clone, Debug)]
pub struct RestoredQueuedSession {
    pub session_id: String,
    pub state: StateKind,
    pub updated_at: u64,
}

impl View for RestoredQueuedSession {
    type V = Task;

    open spec fn view(&self) -> Task {
        Task { session: self.session_id@, state: self.state, updated_at: self.updated_at }
    }
}

/// A slot in use, as it is shown and saved.
#[derive(Clone, Debug)]
pub struct SlotSnapshot {
    pub slot: usize,
    pub key: String,
    pub key_address: u8,
    pub session_id: String,
    pub state: StateKind,
    pub color: Color,
    pub updated_at: u64,
    pub expires_at: Option<u64>,
}

/// What a snapshot says of slot `i`.
pub open spec fn snapshot_of(
    snapshot: SlotSnapshot,
    config: AppConfig,
    slot: Option<Task>,
    i: int,
) -> bool {
    &&& slot is Some
    &&& snapshot.slot == i + 1
    &&& snapshot.key@ == seq!['G'] + text::decimal((i + 1) as nat)
    &&& snapshot.key_address == config.device.slot_keys@[i]
    &&& snapshot.session_id@ == slot->0.session
    &&& snapshot.state == slot->0.state
    &&& snapshot.color == slot_color(config, slot)
    &&& snapshot.updated_at == slot->0.updated_at
    &&& snapshot.expires_at is None
}

spec fn slot_view(slot: Option<Slot>) -> Option<Task> {
    match slot {
        Some(s) => Some(s@),
        None => None,
    }
}

impl View for Engine {
    type V = EngineModel;

    closed spec fn view(&self) -> EngineModel {
        EngineModel {
            slots: self.slots@.map_values(|slot: Option<Slot>| slot_view(slot)),
            waiting: self.waiting@.map_values(|slot: Slot| slot@),
        }
    }
}

proof fn lemma_occupied_grows(slots: Seq<Option<Task>>, n: nat)
    requires
        n <= slots.len(),
    ensures
        forall|k: int|
            0 <= k < occupied_among(slots, n).len() ==> 0 <= #[trigger] occupied_among(slots, n)[k]
                < n && slots[occupied_among(slots, n)[k]] is Some,
        occupied_among(slots, n).len() <= occupied(slots).len(),
        occupied_among(slots, n) == occupied(slots).take(occupied_among(slots, n).len() as int),
    decreases slots.len() - n, n,
{
    if n > 0 {
        lemma_occupied_prefix(slots, n);
    }
    if n < slots.len() {
        lemma_occupied_grows(slots, n + 1);
        let here = occupied_among(slots, n);
        let next = occupied_among(slots, n + 1);
        assert(next.take(here.len() as int) == here);
        assert(here == occupied(slots).take(here.len() as int));
    } else {
        assert(occupied(slots).take(occupied(slots).len() as int) == occupied(slots));
    }
}

pub proof fn lemma_occupied_prefix(slots: Seq<Option<Task>>, n: nat)
    requires
        n <= slots.len(),
    ensures
        forall|k: int|
            0 <= k < occupied_among(slots, n).len() ==> 0 <= #[trigger] occupied_among(slots, n)[k]
                < n && slots[occupied_among(slots, n)[k]] is Some,
    decreases n,
{
    if n > 0 {
        lemma_occupied_prefix(slots, (n - 1) as nat);
    }
}

impl Engine {
    /// An engine with `max_sessions` free slots.
    pub fn new(max_sessions: usize) -> (r: Self)
        ensures
            r@ == empty_engine(max_sessions as nat),
    {
        let mut slots: Vec<Option<Slot>> = Vec::new();
        let mut i: usize = 0;
        while i < max_sessions
            invariant
                i <= max_sessions,
                slots@.len() == i,
                forall|j: int| 0 <= j < i ==> #[trigger] slots@[j] is None,
            decreases max_sessions - i,
        {
            slots.push(None);
            i += 1;
        }
        let r = Engine { slots, waiting: VecDeque::new() };
        assert(r@ =~= empty_engine(max_sessions as nat));
        r
    }

    /// The slot of a task.
    fn slot_position(&self, session_id: &str) -> (r: Option<usize>)
        ensures
            (match r {
                Some(i) => Some(i as int),
                None => None,
            }) == self@.slot_of(session_id@),
            r matches Some(i) ==> i < self.slots@.len() && shows(session_id@)(self@.slots[i as int]),
    {
        let mut i: usize = 0;
        while i < self.slots.len()
            invariant
                i <= self.slots@.len(),
                forall|j: int| 0 <= j < i ==> !shows(session_id@)(#[trigger] self@.slots[j]),
            decreases self.slots@.len() - i,
        {
            if let Some(slot) = &self.slots[i] {
                if text::same_text(slot.session_id.as_str(), session_id) {
                    proof {
                        assert(self@.slots[i as int] == Some(slot@));
                        assert(seqs::is_first(self@.slots, shows(session_id@), i as int));
                        seqs::lemma_first(self@.slots, shows(session_id@), i as int);
                    }
                    return Some(i);
                }
                assert(self@.slots[i as int] == Some(slot@));
            } else {
                assert(self@.slots[i as int] is None);
            }
            i += 1;
        }
        proof {
            seqs::lemma_no_first(self@.slots, shows(session_id@));
        }
        None
    }

    /// The place of a task in the queue.
    fn waiting_position(&self, session_id: &str) -> (r: Option<usize>)
        ensures
            (match r {
                Some(i) => Some(i as int),
                None => None,
            }) == self@.place_of(session_id@),
            r matches Some(i) ==> i < self.waiting@.len(),
    {
        let mut i: usize = 0;
        while i < self.waiting.len()
            invariant
                i <= self.waiting@.len(),
                forall|j: int| 0 <= j < i ==> !is_session(session_id@)(#[trigger] self@.waiting[j]),
            decreases self.waiting@.len() - i,
        {
            assert(self@.waiting[i as int] == self.waiting@[i as int]@);
            if text::same_text(self.waiting[i].session_id.as_str(), session_id) {
                proof {
                    assert(seqs::is_first(self@.waiting, is_session(session_id@), i as int));
                    seqs::lemma_first(self@.waiting, is_session(session_id@), i as int);
                }
                return Some(i);
            }
            i += 1;
        }
        proof {
            seqs::lemma_no_first(self@.waiting, is_session(session_id@));
        }
        None
    }

    /// The first free slot.
    fn select_slot(&self) -> (r: Option<usize>)
        ensures
            (match r {
                Some(i) => Some(i as int),
                None => None,
            }) == self@.free_slot(),
            r matches Some(i) ==> i < self.slots@.len(),
    {
        let mut i: usize = 0;
        while i < self.slots.len()
            invariant
                i <= self.slots@.len(),
                forall|j: int| 0 <= j < i ==> !is_free()(#[trigger] self@.slots[j]),
            decreases self.slots@.len() - i,
        {
            assert(self@.slots[i as int] == slot_view(self.slots@[i as int]));
            if self.slots[i].is_none() {
                proof {
                    assert(seqs::is_first(self@.slots, is_free(), i as int));
                    seqs::lemma_first(self@.slots, is_free(), i as int);
                }
                return Some(i);
            }
            i += 1;
        }
        proof {
            seqs::lemma_no_first(self@.slots, is_free());
        }
        None
    }

    /// Whether a task is in a slot or in the queue.
    fn tracks(&self, session_id: &str) -> (r: bool)
        ensures
            r == self@.tracks(session_id@),
    {
        self.slot_position(session_id).is_some() || self.waiting_position(session_id).is_some()
    }

    /// Gives slot `slot_index` to the task that has waited longest, or frees it.
    fn release(&mut self, slot_index: usize)
        requires
            slot_index < old(self).slots@.len(),
        ensures
            final(self)@ == old(self)@.released(slot_index as int),
            final(self).slots@.len() == old(self).slots@.len(),
    {
        let next: Option<Slot> = self.waiting.pop_front();
        self.slots.set(slot_index, next);
        assert(self@ =~= old(self)@.released(slot_index as int));
    }

    /// Releases a slot and lights its key anew.
    fn release_slot(&mut self, slot_index: usize, config: &AppConfig) -> (r: Vec<LightingChange>)
        requires
            slot_index < old(self).slots@.len(),
            slot_index < config.device.slot_keys@.len(),
        ensures
            final(self)@ == old(self)@.released(slot_index as int),
            r@ == relit(*config, final(self)@, Some(slot_index as int)),
    {
        self.release(slot_index);
        assert(self@.slots[slot_index as int] == slot_view(self.slots@[slot_index as int]));
        let color: Color = match &self.slots[slot_index] {
            Some(slot) => config.color_for(slot.state),
            None => config.lighting.background,
        };
        vec![LightingChange { key: config.device.slot_keys[slot_index], color }]
    }

    /// Brings saved slots and a saved queue back. Entries that cannot stand are left out, and
    /// waiting tasks go to the slots that are free.
    pub fn restore(
        max_sessions: usize,
        slots: Vec<RestoredSlot>,
        queued_sessions: Vec<RestoredQueuedSession>,
    ) -> (r: Self)
        ensures
            r@ == restored_engine(
                max_sessions as nat,
                slots@.map_values(|saved: RestoredSlot| saved@),
                queued_sessions@.map_values(|task: RestoredQueuedSession| task@),
            ),
    {
        let mut engine = Engine::new(max_sessions);
        let ghost saved = slots@.map_values(|saved: RestoredSlot| saved@);
        let ghost queued = queued_sessions@.map_values(|task: RestoredQueuedSession| task@);
        let ghost start = empty_engine(max_sessions as nat);
        let mut i: usize = 0;
        assert(saved.take(0) == Seq::<SavedSlot>::empty());
        assert(engine@.slots.len() == engine.slots@.len());
        while i < slots.len()
            invariant
                i <= slots@.len(),
                saved == slots@.map_values(|saved: RestoredSlot| saved@),
                engine@ == start.with_saved_slots(saved.take(i as int)),
                engine@.slots.len() == engine.slots@.len(),
                engine.slots@.len() == max_sessions,
            decreases slots@.len() - i,
        {
            proof {
                assert(saved.take(i + 1).drop_last() == saved.take(i as int));
                assert(saved.take(i + 1).last() == slots@[i as int]@);
            }
            let ghost before = engine@;
            let restored: &RestoredSlot = &slots[i];
            if restored.slot >= 1 && restored.slot <= max_sessions
                && !restored.session_id.as_str().is_empty() && restored.state != StateKind::Idle {
                let index: usize = restored.slot - 1;
                assert(engine@.slots[index as int] == slot_view(engine.slots@[index as int]));
                if engine.slots[index].is_none() && !engine.tracks(restored.session_id.as_str()) {
                    engine.slots.set(
                        index,
                        Some(
                            Slot {
                                session_id: restored.session_id.clone(),
                                state: restored.state,
                                updated_at: restored.updated_at,
                            },
                        ),
                    );
                    assert(engine@ =~= before.with_saved_slot(slots@[i as int]@));
                }
            }
            i += 1;
        }
        assert(saved.take(saved.len() as int) == saved);
        let ghost placed = engine@;
        let mut k: usize = 0;
        assert(queued.take(0) == Seq::<Task>::empty());
        while k < queued_sessions.len()
            invariant
                k <= queued_sessions@.len(),
                queued == queued_sessions@.map_values(|task: RestoredQueuedSession| task@),
                engine@ == placed.with_saved_tasks(queued.take(k as int)),
            decreases queued_sessions@.len() - k,
        {
            proof {
                assert(queued.take(k + 1).drop_last() == queued.take(k as int));
                assert(queued.take(k + 1).last() == queued_sessions@[k as int]@);
            }
            let ghost before = engine@;
            let restored: &RestoredQueuedSession = &queued_sessions[k];
            if !restored.session_id.as_str().is_empty() && restored.state != StateKind::Idle
                && !engine.tracks(restored.session_id.as_str()) {
                engine.waiting.push_back(
                    Slot {
                        session_id: restored.session_id.clone(),
                        state: restored.state,
                        updated_at: restored.updated_at,
                    },
                );
                assert(engine@ =~= before.with_saved_task(queued_sessions@[k as int]@));
            }
            k += 1;
        }
        assert(queued.take(queued.len() as int) == queued);
        let ghost joined = engine@;
        while engine.waiting.len() > 0
            invariant
                engine@.filled() == joined.filled(),
            ensures
                engine@ == joined.filled(),
            decreases engine.waiting@.len(),
        {
            match engine.select_slot() {
                Some(slot_index) => {
                    engine.release(slot_index);
                },
                None => {
                    break;
                },
            }
        }
        engine
    }

    /// A task takes on a state at the time `now`. The result is the light that changes.
    pub fn transition(
        &mut self,
        session_id: &str,
        state: StateKind,
        now: u64,
        config: &AppConfig,
    ) -> (r: Vec<LightingChange>)
        requires
            old(self)@.moved_light(session_id@, state) matches Some(i) ==> i
                < config.device.slot_keys@.len(),
        ensures
            final(self)@ == old(self)@.moved(Task { session: session_id@, state, updated_at: now }),
            r@ == relit(*config, final(self)@, old(self)@.moved_light(session_id@, state)),
    {
        if state == StateKind::Idle {
            return self.clear_session(session_id, config);
        }
        let ghost task = Task { session: session_id@, state, updated_at: now };
        if let Some(i) = self.waiting_position(session_id) {
            let _ = self.waiting.remove(i);
            self.waiting.insert(
                i,
                Slot { session_id: session_id.to_owned(), state, updated_at: now },
            );
            assert(self@ =~= old(self)@.moved(task));
            return Vec::new();
        }
        let target: Option<usize> = match self.slot_position(session_id) {
            Some(i) => Some(i),
            None => self.select_slot(),
        };
        match target {
            None => {
                self.waiting.push_back(
                    Slot { session_id: session_id.to_owned(), state, updated_at: now },
                );
                assert(self@ =~= old(self)@.moved(task));
                Vec::new()
            },
            Some(slot_index) => {
                assert(self@.slots[slot_index as int] == slot_view(self.slots@[slot_index as int]));
                let unchanged: bool = match &self.slots[slot_index] {
                    Some(slot) => text::same_text(slot.session_id.as_str(), session_id)
                        && slot.state == state,
                    None => false,
                };
                self.slots.set(
                    slot_index,
                    Some(Slot { session_id: session_id.to_owned(), state, updated_at: now }),
                );
                assert(self@ =~= old(self)@.moved(task));
                if unchanged {
                    Vec::new()
                } else {
                    vec![
                        LightingChange {
                            key: config.device.slot_keys[slot_index],
                            color: config.color_for(state),
                        },
                    ]
                }
            },
        }
    }

    /// A task takes on a state that became true at `occurred_at`. What is known of the task never
    /// becomes older by that.
    pub fn reconcile(
        &mut self,
        session_id: &str,
        state: StateKind,
        occurred_at: u64,
        config: &AppConfig,
    ) -> (r: Vec<LightingChange>)
        requires
            old(self)@.moved_light(session_id@, state) matches Some(i) ==> i
                < config.device.slot_keys@.len(),
        ensures
            final(self)@ == old(self)@.moved(
                Task {
                    session: session_id@,
                    state,
                    updated_at: old(self)@.not_before(session_id@, occurred_at),
                },
            ),
            r@ == relit(*config, final(self)@, old(self)@.moved_light(session_id@, state)),
    {
        let known: Option<u64> = match self.slot_position(session_id) {
            Some(i) => {
                assert(self@.slots[i as int] == slot_view(self.slots@[i as int]));
                match &self.slots[i] {
                    Some(slot) => Some(slot.updated_at),
                    None => None,
                }
            },
            None => match self.waiting_position(session_id) {
                Some(i) => {
                    assert(self@.waiting[i as int] == self.waiting@[i as int]@);
                    Some(self.waiting[i].updated_at)
                },
                None => None,
            },
        };
        let updated_at: u64 = match known {
            Some(t) => if t >= occurred_at {
                t
            } else {
                occurred_at
            },
            None => occurred_at,
        };
        self.transition(session_id, state, updated_at, config)
    }

    /// A task goes. Its slot goes to the task that has waited longest.
    pub fn clear_session(&mut self, session_id: &str, config: &AppConfig) -> (r: Vec<
        LightingChange,
    >)
        requires
            old(self)@.cleared_light(session_id@) matches Some(i) ==> i
                < config.device.slot_keys@.len(),
        ensures
            final(self)@ == old(self)@.cleared(session_id@),
            r@ == relit(*config, final(self)@, old(self)@.cleared_light(session_id@)),
    {
        if let Some(i) = self.waiting_position(session_id) {
            let _ = self.waiting.remove(i);
            assert(self@ =~= old(self)@.cleared(session_id@));
            return Vec::new();
        }
        match self.slot_position(session_id) {
            Some(slot_index) => self.release_slot(slot_index, config),
            None => Vec::new(),
        }
    }

    /// All tasks go. The keys that were in use take on the background.
    pub fn clear_all(&mut self, config: &AppConfig) -> (r: Vec<LightingChange>)
        requires
            has_keys(*config, occupied(old(self)@.slots)),
        ensures
            final(self)@ == old(self)@.emptied(),
            r@ == occupied(old(self)@.slots).map_values(
                |i: int|
                    LightingChange {
                        key: config.device.slot_keys@[i],
                        color: config.lighting.background,
                    },
            ),
    {
        let mut changes: Vec<LightingChange> = Vec::new();
        let mut index: usize = 0;
        let ghost before = self@.slots;
        let ghost light = |i: int|
            LightingChange {
                key: config.device.slot_keys@[i],
                color: config.lighting.background,
            };
        while index < self.slots.len()
            invariant
                index <= self.slots@.len(),
                before.len() == self.slots@.len(),
                has_keys(*config, occupied(before)),
                light == (|i: int|
                    LightingChange {
                        key: config.device.slot_keys@[i],
                        color: config.lighting.background,
                    }),
                forall|j: int| 0 <= j < index ==> #[trigger] self.slots@[j] is None,
                forall|j: int|
                    index <= j < self.slots@.len() ==> slot_view(#[trigger] self.slots@[j])
                        == before[j],
                changes@ == occupied_among(before, index as nat).map_values(light),
            decreases self.slots@.len() - index,
        {
            if self.slots[index].is_some() {
                proof {
                    assert(slot_view(self.slots@[index as int]) == before[index as int]);
                    lemma_occupied_grows(before, (index + 1) as nat);
                    let k = occupied_among(before, index as nat).len() as int;
                    assert(occupied_among(before, (index + 1) as nat)[k] == index);
                    assert(occupied(before)[k] == index);
                }
                changes.push(
                    LightingChange {
                        key: config.device.slot_keys[index],
                        color: config.lighting.background,
                    },
                );
                self.slots.set(index, None);
            } else {
                assert(slot_view(self.slots@[index as int]) == before[index as int]);
            }
            index += 1;
            assert(changes@ =~= occupied_among(before, index as nat).map_values(light));
        }
        self.waiting.clear();
        assert(self@ =~= old(self)@.emptied());
        changes
    }

    /// The lights of all slots.
    pub fn repaint(&self, config: &AppConfig) -> (r: Vec<LightingChange>)
        requires
            self@.slots.len() <= config.device.slot_keys@.len(),
        ensures
            r@ == all_lights(*config, self@),
    {
        let mut changes: Vec<LightingChange> = Vec::new();
        let mut index: usize = 0;
        while index < self.slots.len()
            invariant
                index <= self.slots@.len(),
                self@.slots.len() == self.slots@.len(),
                self@.slots.len() <= config.device.slot_keys@.len(),
                changes@ == all_lights(*config, self@).take(index as int),
            decreases self.slots@.len() - index,
        {
            assert(self@.slots[index as int] == slot_view(self.slots@[index as int]));
            let color: Color = match &self.slots[index] {
                Some(slot) => config.color_for(slot.state),
                None => config.lighting.background,
            };
            changes.push(LightingChange { key: config.device.slot_keys[index], color });
            index += 1;
            assert(changes@ =~= all_lights(*config, self@).take(index as int));
        }
        assert(all_lights(*config, self@).take(index as int) == all_lights(*config, self@));
        changes
    }

    /// The lights of the slots in use, at `brightness_percent` per cent.
    pub fn active_lighting(&self, brightness_percent: u8, config: &AppConfig) -> (r: Vec<
        LightingChange,
    >)
        requires
            has_keys(*config, occupied(self@.slots)),
        ensures
            r@ == active_lights(*config, self@, brightness_percent),
    {
        let mut changes: Vec<LightingChange> = Vec::new();
        let mut index: usize = 0;
        let ghost light = |i: int|
            LightingChange {
                key: config.device.slot_keys@[i],
                color: dimmed(slot_color(*config, self@.slots[i]), brightness_percent),
            };
        while index < self.slots.len()
            invariant
                index <= self.slots@.len(),
                self@.slots.len() == self.slots@.len(),
                has_keys(*config, occupied(self@.slots)),
                light == (|i: int|
                    LightingChange {
                        key: config.device.slot_keys@[i],
                        color: dimmed(slot_color(*config, self@.slots[i]), brightness_percent),
                    }),
                changes@ == occupied_among(self@.slots, index as nat).map_values(light),
            decreases self.slots@.len() - index,
        {
            assert(self@.slots[index as int] == slot_view(self.slots@[index as int]));
            if let Some(slot) = &self.slots[index] {
                proof {
                    lemma_occupied_grows(self@.slots, (index + 1) as nat);
                    let k = occupied_among(self@.slots, index as nat).len() as int;
                    assert(occupied_among(self@.slots, (index + 1) as nat)[k] == index);
                    assert(occupied(self@.slots)[k] == index);
                }
                changes.push(
                    LightingChange {
                        key: config.device.slot_keys[index],
                        color: config.color_for(slot.state).scale_percent(brightness_percent),
                    },
                );
            }
            index += 1;
            assert(changes@ =~= occupied_among(self@.slots, index as nat).map_values(light));
        }
        changes
    }

    /// The slots in use, as they are shown and saved.
    pub fn snapshot(&self, config: &AppConfig) -> (r: Vec<SlotSnapshot>)
        requires
            has_keys(*config, occupied(self@.slots)),
        ensures
            r@.len() == occupied(self@.slots).len(),
            forall|k: int|
                0 <= k < r@.len() ==> snapshot_of(
                    #[trigger] r@[k],
                    *config,
                    self@.slots[occupied(self@.slots)[k]],
                    occupied(self@.slots)[k],
                ),
    {
        let mut result: Vec<SlotSnapshot> = Vec::new();
        let mut index: usize = 0;
        while index < self.slots.len()
            invariant
                index <= self.slots@.len(),
                self@.slots.len() == self.slots@.len(),
                has_keys(*config, occupied(self@.slots)),
                result@.len() == occupied_among(self@.slots, index as nat).len(),
                forall|k: int|
                    0 <= k < result@.len() ==> snapshot_of(
                        #[trigger] result@[k],
                        *config,
                        self@.slots[occupied_among(self@.slots, index as nat)[k]],
                        occupied_among(self@.slots, index as nat)[k],
                    ),
            decreases self.slots@.len() - index,
        {
            assert(self@.slots[index as int] == slot_view(self.slots@[index as int]));
            if let Some(slot) = &self.slots[index] {
                proof {
                    lemma_occupied_grows(self@.slots, (index + 1) as nat);
                    let k = occupied_among(self@.slots, index as nat).len() as int;
                    assert(occupied_among(self@.slots, (index + 1) as nat)[k] == index);
                    assert(occupied(self@.slots)[k] == index);
                    reveal_strlit("G");
                }
                let number: String = text::decimal_text((index + 1) as u64);
                let mut key: String = "G".to_owned();
                assert(key@ == seq!['G']);
                key.append(number.as_str());
                result.push(
                    SlotSnapshot {
                        slot: index + 1,
                        key,
                        key_address: config.device.slot_keys[index],
                        session_id: slot.session_id.clone(),
                        state: slot.state,
                        color: config.color_for(slot.state),
                        updated_at: slot.updated_at,
                        expires_at: None,
                    },
                );
            }
            index += 1;
        }
        result
    }

    /// The waiting tasks, as they are saved.
    pub fn queued_snapshot(&self) -> (r: Vec<RestoredQueuedSession>)
        ensures
            r@.map_values(|task: RestoredQueuedSession| task@) == self@.waiting,
    {
        let mut result: Vec<RestoredQueuedSession> = Vec::new();
        let mut i: usize = 0;
        while i < self.waiting.len()
            invariant
                i <= self.waiting@.len(),
                result@.len() == i,
                forall|k: int| 0 <= k < i ==> (#[trigger] result@[k])@ == self.waiting@[k]@,
            decreases self.waiting@.len() - i,
        {
            let slot: &Slot = &self.waiting[i];
            result.push(
                RestoredQueuedSession {
                    session_id: slot.session_id.clone(),
                    state: slot.state,
                    updated_at: slot.updated_at,
                },
            );
            i += 1;
        }
        assert(result@.map_values(|task: RestoredQueuedSession| task@) =~= self@.waiting);
        result
    }

    /// The tasks in their slots, then those that wait.
    pub fn tracked_session_ids(&self) -> (r: Vec<String>)
        ensures
            r@.map_values(|id: String| id@) == self@.sessions(),
    {
        let mut result: Vec<String> = Vec::new();
        let mut index: usize = 0;
        let ghost session = |i: int| self@.slots[i]->0.session;
        while index < self.slots.len()
            invariant
                index <= self.slots@.len(),
                self@.slots.len() == self.slots@.len(),
                session == (|i: int| self@.slots[i]->0.session),
                result@.map_values(|id: String| id@) == occupied_among(
                    self@.slots,
                    index as nat,
                ).map_values(session),
            decreases self.slots@.len() - index,
        {
            assert(self@.slots[index as int] == slot_view(self.slots@[index as int]));
            let ghost before = result@;
            if let Some(slot) = &self.slots[index] {
                result.push(slot.session_id.clone());
                assert(result@.map_values(|id: String| id@) =~= before.map_values(
                    |id: String| id@,
                ).push(slot.session_id@));
            }
            index += 1;
            assert(result@.map_values(|id: String| id@) =~= occupied_among(
                self@.slots,
                index as nat,
            ).map_values(session));
        }
        let ghost shown = occupied(self@.slots).map_values(session);
        let ghost queue = self@.waiting.map_values(|task: Task| task.session);
        let mut i: usize = 0;
        assert(shown + queue.take(0) =~= shown);
        while i < self.waiting.len()
            invariant
                i <= self.waiting@.len(),
                queue == self@.waiting.map_values(|task: Task| task.session),
                queue.len() == self.waiting@.len(),
                result@.map_values(|id: String| id@) == shown + queue.take(i as int),
            decreases self.waiting@.len() - i,
        {
            let ghost before = result@;
            result.push(self.waiting[i].session_id.clone());
            proof {
                assert(self@.waiting[i as int] == self.waiting@[i as int]@);
                assert(result@.map_values(|id: String| id@) =~= before.map_values(
                    |id: String| id@,
                ).push(queue[i as int]));
                assert(queue.take(i + 1) =~= queue.take(i as int).push(queue[i as int]));
                assert(shown + queue.take(i + 1) =~= (shown + queue.take(i as int)).push(
                    queue[i as int],
                ));
            }
            i += 1;
        }
        assert(queue.take(i as int) =~= queue);
        result
    }

    /// Whether any slot is in use.
    pub fn has_active_slots(&self) -> (r: bool)
        ensures
            r == exists|i: int| 0 <= i < self@.slots.len() && (#[trigger] self@.slots[i]) is Some,
    {
        let mut index: usize = 0;
        while index < self.slots.len()
            invariant
                index <= self.slots@.len(),
                self@.slots.len() == self.slots@.len(),
                forall|j: int| 0 <= j < index ==> (#[trigger] self@.slots[j]) is None,
            decreases self.slots@.len() - index,
        {
            assert(self@.slots[index as int] == slot_view(self.slots@[index as int]));
            if self.slots[index].is_some() {
                return true;
            }
            index += 1;
        }
        false
    }

    /// The task on the G-key `g_key`, counted from one.
    pub fn session_for_g_key(&self, g_key: usize) -> (r: Option<&str>)
        ensures
            match r {
                Some(session) => 1 <= g_key <= self@.slots.len() && shows(session@)(
                    self@.slots[g_key - 1],
                ),
                None => !(1 <= g_key <= self@.slots.len()) || self@.slots[g_key - 1] is None,
            },
    {
        if g_key == 0 || g_key > self.slots.len() {
            return None;
        }
        assert(self@.slots[g_key - 1] == slot_view(self.slots@[g_key - 1]));
        match &self.slots[g_key - 1] {
            Some(slot) => Some(slot.session_id.as_str()),
            None => None,
        }
    }

    /// The user has opened the task on the G-key `g_key`. A task at work keeps its light; the slot
    /// of any other is released.
    pub fn acknowledge_g_key(&mut self, g_key: usize, config: &AppConfig) -> (r: Vec<
        LightingChange,
    >)
        requires
            old(self)@.can_acknowledge(g_key as int) ==> g_key <= config.device.slot_keys@.len(),
        ensures
            final(self)@ == old(self)@.acknowledged(g_key as int),
            r@ == relit(
                *config,
                final(self)@,
                if old(self)@.can_acknowledge(g_key as int) {
                    Some(g_key - 1)
                } else {
                    None
                },
            ),
    {
        if g_key == 0 || g_key > self.slots.len() {
            return Vec::new();
        }
        let slot_index: usize = g_key - 1;
        assert(self@.slots[slot_index as int] == slot_view(self.slots@[slot_index as int]));
        let finished: bool = match &self.slots[slot_index] {
            Some(slot) => slot.state != StateKind::Working,
            None => false,
        };
        if !finished {
            return Vec::new();
        }
        self.release_slot(slot_index, config)
    }
}

} // verus!
