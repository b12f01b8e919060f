//! What holds of the engine as a whole, whatever happens to the tasks.
use vstd::prelude::*;

use crate::seqs;
use crate::state;
use crate::state::{EngineModel, SavedSlot, StateKind, Task};

verus! {

impl EngineModel {
    /// No task occurs twice, none is idle, and a task waits only while no slot is free.
    pub open spec fn valid(self) -> bool {
        &&& forall|i: int, j: int|
            0 <= i < j < self.slots.len() && (#[trigger] self.slots[i]) is Some && (
            #[trigger] self.slots[j]) is Some ==> self.slots[i]->0.session
                != self.slots[j]->0.session
        &&& forall|i: int, j: int|
            0 <= i < j < self.waiting.len() ==> (#[trigger] self.waiting[i]).session != (
            #[trigger] self.waiting[j]).session
        &&& forall|i: int, j: int|
            0 <= i < self.slots.len() && 0 <= j < self.waiting.len() && (
            #[trigger] self.slots[i]) is Some ==> self.slots[i]->0.session != (
            #[trigger] self.waiting[j]).session
        &&& forall|i: int|
            0 <= i < self.slots.len() && (#[trigger] self.slots[i]) is Some
                ==> self.slots[i]->0.state != StateKind::Idle
        &&& forall|j: int|
            0 <= j < self.waiting.len() ==> (#[trigger] self.waiting[j]).state != StateKind::Idle
        &&& self.waiting.len() > 0 ==> forall|i: int|
            0 <= i < self.slots.len() ==> (#[trigger] self.slots[i]) is Some
    }

    /// What is known of a task.
    pub open spec fn task_of(self, session: Seq<char>) -> Option<Task> {
        match self.slot_of(session) {
            Some(i) => self.slots[i],
            None => match self.place_of(session) {
                Some(k) => Some(self.waiting[k]),
                None => None,
            },
        }
    }

    /// Both tasks wait, `first` before `second`.
    pub open spec fn waits_before(self, first: Seq<char>, second: Seq<char>) -> bool {
        &&& self.place_of(first) is Some
        &&& self.place_of(second) is Some
        &&& self.place_of(first)->0 < self.place_of(second)->0
    }

    /// Every task has a name.
    pub open spec fn named(self) -> bool {
        &&& forall|i: int|
            0 <= i < self.slots.len() && (#[trigger] self.slots[i]) is Some
                ==> self.slots[i]->0.session.len() > 0
        &&& forall|j: int|
            0 <= j < self.waiting.len() ==> (#[trigger] self.waiting[j]).session.len() > 0
    }
}

/// What the places of a task say of the slots and of the queue.
pub proof fn lemma_places(m: EngineModel, session: Seq<char>)
    ensures
        match m.slot_of(session) {
            Some(i) => seqs::is_first(m.slots, state::shows(session), i),
            None => forall|j: int|
                0 <= j < m.slots.len() ==> !state::shows(session)(#[trigger] m.slots[j]),
        },
        match m.place_of(session) {
            Some(i) => seqs::is_first(m.waiting, state::is_session(session), i),
            None => forall|j: int|
                0 <= j < m.waiting.len() ==> !state::is_session(session)(#[trigger] m.waiting[j]),
        },
        match m.free_slot() {
            Some(i) => seqs::is_first(m.slots, state::is_free(), i),
            None => forall|j: int|
                0 <= j < m.slots.len() ==> !state::is_free()(#[trigger] m.slots[j]),
        },
{
    seqs::lemma_first_index(m.slots, state::shows(session));
    seqs::lemma_first_index(m.waiting, state::is_session(session));
    seqs::lemma_first_index(m.slots, state::is_free());
}

/// A task in slot `i` is tracked.
proof fn lemma_shown_is_tracked(m: EngineModel, i: int)
    requires
        0 <= i < m.slots.len(),
        m.slots[i] is Some,
    ensures
        m.slot_of(m.slots[i]->0.session) is Some,
        m.tracks(m.slots[i]->0.session),
{
    seqs::lemma_first_exists(m.slots, state::shows(m.slots[i]->0.session), i);
}

/// A task at place `i` of the queue is tracked.
proof fn lemma_queued_is_tracked(m: EngineModel, i: int)
    requires
        0 <= i < m.waiting.len(),
    ensures
        m.place_of(m.waiting[i].session) is Some,
        m.tracks(m.waiting[i].session),
{
    seqs::lemma_first_exists(m.waiting, state::is_session(m.waiting[i].session), i);
}

/// A released slot keeps the engine valid.
proof fn lemma_released_is_valid(m: EngineModel, i: int)
    requires
        m.valid(),
        0 <= i < m.slots.len(),
    ensures
        m.released(i).valid(),
        m.released(i).slots.len() == m.slots.len(),
{
}

/// Clearing a task keeps the engine valid, and the task is gone.
pub proof fn law_cleared_task_is_gone(m: EngineModel, session: Seq<char>)
    requires
        m.valid(),
    ensures
        m.cleared(session).valid(),
        !m.cleared(session).tracks(session),
        m.cleared(session).slots.len() == m.slots.len(),
{
    lemma_places(m, session);
    let after = m.cleared(session);
    lemma_places(after, session);
    if m.place_of(session) is None && m.slot_of(session) is Some {
        lemma_released_is_valid(m, m.slot_of(session)->0);
    }
}

/// A slot that shows a task is the one of that task.
pub proof fn lemma_task_in_slot(m: EngineModel, i: int)
    requires
        m.valid(),
        0 <= i < m.slots.len(),
        m.slots[i] is Some,
    ensures
        m.task_of(m.slots[i]->0.session) == m.slots[i],
{
    let session = m.slots[i]->0.session;
    lemma_places(m, session);
    assert(state::shows(session)(m.slots[i]));
    let j = m.slot_of(session)->0;
    assert(state::shows(session)(m.slots[j]));
    assert(i == j);
}

/// A place in the queue is the one of the task that stands there.
pub proof fn lemma_task_in_queue(m: EngineModel, k: int)
    requires
        m.valid(),
        0 <= k < m.waiting.len(),
    ensures
        m.place_of(m.waiting[k].session) == Some(k),
        m.task_of(m.waiting[k].session) == Some(m.waiting[k]),
{
    let session = m.waiting[k].session;
    lemma_places(m, session);
    assert(state::is_session(session)(m.waiting[k]));
    let j = m.place_of(session)->0;
    assert(state::is_session(session)(m.waiting[j]));
    assert(j == k);
    if m.slot_of(session) is Some {
        let i = m.slot_of(session)->0;
        assert(state::shows(session)(m.slots[i]));
        assert(m.slots[i]->0.session != m.waiting[k].session);
    }
}

/// Clearing one task leaves what is known of every other one as it is.
pub proof fn law_clearing_keeps_other_tasks(m: EngineModel, session: Seq<char>, other: Seq<char>)
    requires
        m.valid(),
        m.tracks(other),
        other != session,
    ensures
        m.cleared(session).task_of(other) == m.task_of(other),
{
    let after = m.cleared(session);
    law_cleared_task_is_gone(m, session);
    lemma_places(m, session);
    lemma_places(m, other);
    match m.slot_of(other) {
        Some(i) => {
            assert(state::shows(other)(m.slots[i]));
            law_other_tasks_keep_their_keys(
                m,
                Task { session, state: StateKind::Idle, updated_at: 0 },
                i,
            );
            lemma_task_in_slot(after, i);
        },
        None => {
            let k = m.place_of(other)->0;
            assert(state::is_session(other)(m.waiting[k]));
            match m.place_of(session) {
                Some(at) => {
                    assert(state::is_session(session)(m.waiting[at]));
                    let now = if k < at {
                        k
                    } else {
                        k - 1
                    };
                    assert(after.waiting[now] == m.waiting[k]);
                    lemma_task_in_queue(after, now);
                },
                None => match m.slot_of(session) {
                    Some(i) => {
                        if k == 0 {
                            assert(after.slots[i] == Some(m.waiting[0]));
                            lemma_task_in_slot(after, i);
                        } else {
                            assert(after.waiting[k - 1] == m.waiting[k]);
                            lemma_task_in_queue(after, k - 1);
                        }
                    },
                    None => {},
                },
            }
        },
    }
}

/// Clearing a task leaves those that still wait in their order.
pub proof fn law_clearing_keeps_queue_order(
    m: EngineModel,
    session: Seq<char>,
    first: Seq<char>,
    second: Seq<char>,
)
    requires
        m.valid(),
        m.cleared(session).waits_before(first, second),
    ensures
        m.waits_before(first, second),
{
    let after = m.cleared(session);
    lemma_places(m, session);
    lemma_places(after, first);
    lemma_places(after, second);
    let a = after.place_of(first)->0;
    let b = after.place_of(second)->0;
    assert(state::is_session(first)(after.waiting[a]));
    assert(state::is_session(second)(after.waiting[b]));
    let (i, j) = match m.place_of(session) {
        Some(at) => (
            if a < at {
                a
            } else {
                a + 1
            },
            if b < at {
                b
            } else {
                b + 1
            },
        ),
        None => if m.slot_of(session) is Some && m.waiting.len() > 0 {
            (a + 1, b + 1)
        } else {
            (a, b)
        },
    };
    assert(after.waiting[a] == m.waiting[i]);
    assert(after.waiting[b] == m.waiting[j]);
    lemma_task_in_queue(m, i);
    lemma_task_in_queue(m, j);
}

/// A change of state keeps the engine valid: no task occurs twice, and none waits while a slot
/// is free.
pub proof fn law_change_keeps_engine_valid(m: EngineModel, task: Task)
    requires
        m.valid(),
    ensures
        m.moved(task).valid(),
        m.moved(task).slots.len() == m.slots.len(),
{
    lemma_places(m, task.session);
    if task.state == StateKind::Idle {
        law_cleared_task_is_gone(m, task.session);
    }
}

/// Opening a task on a G-key keeps the engine valid.
pub proof fn law_acknowledgement_keeps_engine_valid(m: EngineModel, g_key: int)
    requires
        m.valid(),
    ensures
        m.acknowledged(g_key).valid(),
        m.acknowledged(g_key).slots.len() == m.slots.len(),
{
    if m.can_acknowledge(g_key) {
        lemma_released_is_valid(m, g_key - 1);
    }
}

/// An engine without tasks is valid.
pub proof fn law_empty_engine_is_valid(slots: nat, m: EngineModel)
    ensures
        state::empty_engine(slots).valid(),
        m.emptied().valid(),
        m.emptied() == state::empty_engine(m.slots.len()),
{
}

/// A new task takes the first free slot, and waits at the end of the queue when there is none.
pub proof fn law_new_task_takes_first_free_slot(m: EngineModel, task: Task)
    requires
        !m.tracks(task.session),
        task.state != StateKind::Idle,
    ensures
        match m.free_slot() {
            Some(i) => {
                &&& 0 <= i < m.slots.len()
                &&& m.slots[i] is None
                &&& forall|j: int| 0 <= j < i ==> (#[trigger] m.slots[j]) is Some
                &&& m.moved(task).slots == m.slots.update(i, Some(task))
                &&& m.moved(task).waiting == m.waiting
            },
            None => {
                &&& forall|j: int| 0 <= j < m.slots.len() ==> (#[trigger] m.slots[j]) is Some
                &&& m.moved(task).slots == m.slots
                &&& m.moved(task).waiting == m.waiting.push(task)
            },
        },
{
    lemma_places(m, task.session);
    assert forall|j: int| 0 <= j < m.slots.len() && !state::is_free()(m.slots[j]) implies (
    #[trigger] m.slots[j]) is Some by {}
}

/// A change of one task leaves every other task on its G-key.
pub proof fn law_other_tasks_keep_their_keys(m: EngineModel, task: Task, i: int)
    requires
        0 <= i < m.slots.len(),
        m.slots[i] is Some,
        m.slots[i]->0.session != task.session,
    ensures
        m.moved(task).slots[i] == m.slots[i],
        m.cleared(task.session).slots[i] == m.slots[i],
{
    lemma_places(m, task.session);
}

/// A change of one task forgets no other task, and a task that is not idle is tracked after it.
pub proof fn law_no_task_is_forgotten(m: EngineModel, task: Task, session: Seq<char>)
    requires
        m.tracks(session) || session == task.session,
        session != task.session || task.state != StateKind::Idle,
    ensures
        m.moved(task).tracks(session),
{
    let after = m.moved(task);
    lemma_places(m, task.session);
    lemma_places(m, session);
    if session == task.session {
        match m.place_of(session) {
            Some(i) => {
                assert(after.waiting[i] == task);
                lemma_queued_is_tracked(after, i);
            },
            None => match m.target_slot(session) {
                Some(i) => {
                    assert(after.slots[i] == Some(task));
                    lemma_shown_is_tracked(after, i);
                },
                None => {
                    assert(after.waiting[m.waiting.len() as int] == task);
                    lemma_queued_is_tracked(after, m.waiting.len() as int);
                },
            },
        }
    } else if m.slot_of(session) is Some {
        let i = m.slot_of(session)->0;
        law_other_tasks_keep_their_keys(m, task, i);
        lemma_shown_is_tracked(after, i);
    } else {
        lemma_queue_keeps_others(m, task, session, m.place_of(session)->0);
    }
}

/// A waiting task stays tracked when another task changes.
proof fn lemma_queue_keeps_others(m: EngineModel, task: Task, session: Seq<char>, k: int)
    requires
        0 <= k < m.waiting.len(),
        m.waiting[k].session == session,
        session != task.session,
    ensures
        m.moved(task).tracks(session),
{
    let after = m.moved(task);
    lemma_places(m, task.session);
    match m.place_of(task.session) {
        Some(i) => {
            if task.state == StateKind::Idle {
                if k < i {
                    assert(after.waiting[k] == m.waiting[k]);
                    lemma_queued_is_tracked(after, k);
                } else {
                    assert(after.waiting[k - 1] == m.waiting[k]);
                    lemma_queued_is_tracked(after, k - 1);
                }
            } else {
                assert(after.waiting[k] == m.waiting[k]);
                lemma_queued_is_tracked(after, k);
            }
        },
        None => {
            if task.state == StateKind::Idle && m.slot_of(task.session) is Some {
                let i = m.slot_of(task.session)->0;
                if k == 0 {
                    assert(after.slots[i] == Some(m.waiting[0]));
                    lemma_shown_is_tracked(after, i);
                } else {
                    assert(after.waiting[k - 1] == m.waiting[k]);
                    lemma_queued_is_tracked(after, k - 1);
                }
            } else {
                assert(after.waiting[k] == m.waiting[k]);
                lemma_queued_is_tracked(after, k);
            }
        },
    }
}

/// A task at work keeps its light when its G-key is pressed.
pub proof fn law_working_task_keeps_its_key(m: EngineModel, g_key: int)
    requires
        1 <= g_key <= m.slots.len(),
        m.slots[g_key - 1] is Some,
        m.slots[g_key - 1]->0.state == StateKind::Working,
    ensures
        m.acknowledged(g_key) == m,
{
}

/// A released slot goes to the task that has waited longest, and the others move up.
pub proof fn law_oldest_waiting_task_is_promoted(m: EngineModel, session: Seq<char>)
    requires
        m.valid(),
        m.slot_of(session) is Some,
        m.waiting.len() > 0,
    ensures
        m.cleared(session).slots == m.slots.update(m.slot_of(session)->0, Some(m.waiting[0])),
        m.cleared(session).waiting == m.waiting.subrange(1, m.waiting.len() as int),
        m.slots[m.slot_of(session)->0]->0.state != StateKind::Working ==> m.acknowledged(
            m.slot_of(session)->0 + 1,
        ) == m.cleared(session),
{
    lemma_places(m, session);
    if m.place_of(session) is Some {
        let i = m.slot_of(session)->0;
        let k = m.place_of(session)->0;
        assert(m.slots[i]->0.session != m.waiting[k].session);
    }
}

/// A state that a task already has changes no light.
pub proof fn law_repeated_state_changes_no_light(m: EngineModel, task: Task)
    requires
        m.valid(),
    ensures
        m.moved(task).moved_light(task.session, task.state) is None,
{
    let after = m.moved(task);
    lemma_places(m, task.session);
    lemma_places(after, task.session);
    law_change_keeps_engine_valid(m, task);
    if task.state == StateKind::Idle {
        law_cleared_task_is_gone(m, task.session);
    } else if after.place_of(task.session) is None {
        law_no_task_is_forgotten(m, task, task.session);
        let i = after.slot_of(task.session)->0;
        assert(state::shows(task.session)(after.slots[i]));
        match m.place_of(task.session) {
            Some(k) => {
                assert(after.waiting[k] == task);
                assert(state::is_session(task.session)(after.waiting[k]));
            },
            None => match m.target_slot(task.session) {
                Some(j) => {
                    assert(after.slots[j] == Some(task));
                    assert(i == j);
                },
                None => {
                    let k = m.waiting.len() as int;
                    assert(after.waiting[k] == task);
                    assert(state::is_session(task.session)(after.waiting[k]));
                },
            },
        }
    }
}

/// Reconciling a task never makes what is known of it older.
pub proof fn law_reconciliation_never_regresses(
    m: EngineModel,
    session: Seq<char>,
    next: StateKind,
    occurred_at: u64,
)
    requires
        m.valid(),
        m.tracks(session),
        next != StateKind::Idle,
    ensures
        ({
            let task = Task {
                session,
                state: next,
                updated_at: m.not_before(session, occurred_at),
            };
            &&& m.moved(task).last_update(session) == Some(task.updated_at)
            &&& task.updated_at >= m.last_update(session)->0
            &&& task.updated_at >= occurred_at
        }),
{
    let task = Task { session, state: next, updated_at: m.not_before(session, occurred_at) };
    let after = m.moved(task);
    lemma_places(m, session);
    lemma_places(after, session);
    law_change_keeps_engine_valid(m, task);
    match m.place_of(session) {
        Some(k) => {
            assert(after.waiting[k] == task);
            assert(state::is_session(session)(after.waiting[k]));
            if m.slot_of(session) is Some {
                let i = m.slot_of(session)->0;
                assert(m.slots[i]->0.session != m.waiting[k].session);
            }
            let p = after.place_of(session)->0;
            assert(after.waiting[p].session == after.waiting[k].session);
        },
        None => {
            let j = m.slot_of(session)->0;
            assert(after.slots[j] == Some(task));
            assert(state::shows(session)(after.slots[j]));
            let p = after.slot_of(session)->0;
            assert(after.slots[p]->0.session == after.slots[j]->0.session);
        },
    }
}

/// A restored slot keeps what holds before the queue is restored.
proof fn lemma_saved_slots_are_valid(m: EngineModel, saved: Seq<SavedSlot>)
    requires
        m.valid(),
        m.waiting.len() == 0,
    ensures
        m.with_saved_slots(saved).valid(),
        m.with_saved_slots(saved).waiting.len() == 0,
        m.with_saved_slots(saved).slots.len() == m.slots.len(),
    decreases saved.len(),
{
    if saved.len() > 0 {
        lemma_saved_slots_are_valid(m, saved.drop_last());
        let before = m.with_saved_slots(saved.drop_last());
        lemma_places(before, saved.last().task.session);
        let i = saved.last().slot - 1;
        let after = before.with_saved_slot(saved.last());
        if after != before {
            assert forall|a: int, b: int|
                0 <= a < b < after.slots.len() && (#[trigger] after.slots[a]) is Some && (
                #[trigger] after.slots[b]) is Some implies after.slots[a]->0.session
                != after.slots[b]->0.session by {
                if a == i {
                    assert(!state::shows(saved.last().task.session)(before.slots[b]));
                } else if b == i {
                    assert(!state::shows(saved.last().task.session)(before.slots[a]));
                }
            }
        }
    }
}

/// No task occurs twice, and none is idle.
spec fn distinct(m: EngineModel) -> bool {
    EngineModel { slots: m.slots, waiting: Seq::empty() }.valid() && {
        &&& forall|i: int, j: int|
            0 <= i < j < m.waiting.len() ==> (#[trigger] m.waiting[i]).session != (
            #[trigger] m.waiting[j]).session
        &&& forall|i: int, j: int|
            0 <= i < m.slots.len() && 0 <= j < m.waiting.len() && (#[trigger] m.slots[i]) is Some
                ==> m.slots[i]->0.session != (#[trigger] m.waiting[j]).session
        &&& forall|j: int|
            0 <= j < m.waiting.len() ==> (#[trigger] m.waiting[j]).state != StateKind::Idle
    }
}

proof fn lemma_saved_tasks_are_distinct(m: EngineModel, tasks: Seq<Task>)
    requires
        distinct(m),
    ensures
        distinct(m.with_saved_tasks(tasks)),
        m.with_saved_tasks(tasks).slots == m.slots,
    decreases tasks.len(),
{
    if tasks.len() > 0 {
        lemma_saved_tasks_are_distinct(m, tasks.drop_last());
        let before = m.with_saved_tasks(tasks.drop_last());
        let after = before.with_saved_task(tasks.last());
        lemma_places(before, tasks.last().session);
        if after != before {
            let k = before.waiting.len() as int;
            assert forall|a: int, b: int|
                0 <= a < b < after.waiting.len() implies (#[trigger] after.waiting[a]).session != (
            #[trigger] after.waiting[b]).session by {
                if b == k {
                    assert(!state::is_session(tasks.last().session)(before.waiting[a]));
                }
            }
            assert forall|a: int, b: int|
                0 <= a < after.slots.len() && 0 <= b < after.waiting.len() && (
                #[trigger] after.slots[a]) is Some implies after.slots[a]->0.session != (
            #[trigger] after.waiting[b]).session by {
                if b == k {
                    assert(!state::shows(tasks.last().session)(before.slots[a]));
                }
            }
        }
    }
}

proof fn lemma_filled_is_valid(m: EngineModel)
    requires
        distinct(m),
    ensures
        m.filled().valid(),
        m.filled().slots.len() == m.slots.len(),
    decreases m.waiting.len(),
{
    lemma_places(m, Seq::empty());
    match m.free_slot() {
        Some(i) => {
            if m.waiting.len() > 0 {
                assert(m.slots[i] is None);
                let next = m.released(i);
                let shown = EngineModel { slots: m.slots, waiting: Seq::empty() };
                assert(shown.valid());
                assert forall|a: int, b: int|
                    0 <= a < b < next.slots.len() && (#[trigger] next.slots[a]) is Some && (
                    #[trigger] next.slots[b]) is Some implies next.slots[a]->0.session
                    != next.slots[b]->0.session by {
                    assert(a != i ==> shown.slots[a] == next.slots[a]);
                    assert(b != i ==> shown.slots[b] == next.slots[b]);
                    assert(a != i ==> m.slots[a] == next.slots[a]);
                    assert(b != i ==> m.slots[b] == next.slots[b]);
                    assert(next.slots[i] == Some(m.waiting[0]));
                }
                assert forall|a: int|
                    0 <= a < next.slots.len() && (#[trigger] next.slots[a]) is Some implies next.slots[a]->0.state
                    != StateKind::Idle by {
                    assert(a != i ==> shown.slots[a] == next.slots[a]);
                    assert(next.slots[i] == Some(m.waiting[0]));
                }
                assert(EngineModel { slots: next.slots, waiting: Seq::empty() }.valid());
                assert(distinct(next));
                lemma_filled_is_valid(next);
            } else {
                let shown = EngineModel { slots: m.slots, waiting: Seq::empty() };
                assert(shown =~= m);
            }
        },
        None => {
            let shown = EngineModel { slots: m.slots, waiting: Seq::empty() };
            assert(shown.valid());
            assert forall|j: int| 0 <= j < m.slots.len() implies (#[trigger] m.slots[j]) is Some by {
                assert(!state::is_free()(m.slots[j]));
            }
            assert forall|a: int, b: int|
                0 <= a < b < m.slots.len() && (#[trigger] m.slots[a]) is Some && (
                #[trigger] m.slots[b]) is Some implies m.slots[a]->0.session
                != m.slots[b]->0.session by {
                assert(shown.slots[a]->0.session != shown.slots[b]->0.session);
            }
            assert forall|a: int|
                0 <= a < m.slots.len() && (#[trigger] m.slots[a]) is Some implies m.slots[a]->0.state
                != StateKind::Idle by {
                assert(shown.slots[a] is Some);
            }
        },
    }
}

/// Whatever was saved, the restored engine is valid and has as many slots as asked for.
pub proof fn law_restored_engine_is_valid(slots: nat, saved: Seq<SavedSlot>, queued: Seq<Task>)
    ensures
        state::restored_engine(slots, saved, queued).valid(),
        state::restored_engine(slots, saved, queued).slots.len() == slots,
{
    let start = state::empty_engine(slots);
    lemma_saved_slots_are_valid(start, saved);
    let placed = start.with_saved_slots(saved);
    assert(EngineModel { slots: placed.slots, waiting: Seq::empty() } =~= placed);
    lemma_saved_tasks_are_distinct(placed, queued);
    lemma_filled_is_valid(placed.with_saved_tasks(queued));
}

/// The first `n` slots of `m`, and nothing else.
spec fn shown_up_to(m: EngineModel, n: nat) -> EngineModel {
    EngineModel {
        slots: Seq::new(
            m.slots.len(),
            |i: int|
                if i < n {
                    m.slots[i]
                } else {
                    None
                },
        ),
        waiting: Seq::empty(),
    }
}

spec fn saved_up_to(m: EngineModel, n: nat) -> Seq<SavedSlot> {
    state::occupied_among(m.slots, n).map_values(
        |i: int| SavedSlot { slot: (i + 1) as nat, task: m.slots[i]->0 },
    )
}

proof fn lemma_saved_slots_come_back(m: EngineModel, n: nat)
    requires
        m.valid(),
        m.named(),
        n <= m.slots.len(),
    ensures
        state::empty_engine(m.slots.len()).with_saved_slots(saved_up_to(m, n)) == shown_up_to(m, n),
    decreases n,
{
    let start = state::empty_engine(m.slots.len());
    if n == 0 {
        assert(saved_up_to(m, 0) =~= Seq::empty());
        assert(start =~= shown_up_to(m, 0));
    } else {
        let k = (n - 1) as nat;
        lemma_saved_slots_come_back(m, k);
        let before = shown_up_to(m, k);
        if m.slots[k as int] is Some {
            let entry = SavedSlot { slot: n, task: m.slots[k as int]->0 };
            assert(saved_up_to(m, n) =~= saved_up_to(m, k).push(entry));
            assert(saved_up_to(m, n).drop_last() =~= saved_up_to(m, k));
            assert(saved_up_to(m, n).last() == entry);
            lemma_places(before, entry.task.session);
            assert(!before.tracks(entry.task.session)) by {
                if before.slot_of(entry.task.session) is Some {
                    let i = before.slot_of(entry.task.session)->0;
                    assert(state::shows(entry.task.session)(before.slots[i]));
                    assert(before.slots[i] == m.slots[i]);
                }
            }
            assert(before.with_saved_slot(entry) =~= shown_up_to(m, n));
        } else {
            assert(shown_up_to(m, n) =~= before);
        }
    }
}

proof fn lemma_saved_tasks_come_back(m: EngineModel, n: nat)
    requires
        m.valid(),
        m.named(),
        n <= m.waiting.len(),
    ensures
        (EngineModel { slots: m.slots, waiting: Seq::empty() }).with_saved_tasks(
            m.waiting.take(n as int),
        ) == (EngineModel { slots: m.slots, waiting: m.waiting.take(n as int) }),
    decreases n,
{
    let start = EngineModel { slots: m.slots, waiting: Seq::empty() };
    if n == 0 {
        assert(m.waiting.take(0) =~= Seq::empty());
    } else {
        let k = (n - 1) as nat;
        lemma_saved_tasks_come_back(m, k);
        let before = EngineModel { slots: m.slots, waiting: m.waiting.take(k as int) };
        let task = m.waiting[k as int];
        assert(m.waiting.take(n as int).drop_last() =~= m.waiting.take(k as int));
        assert(m.waiting.take(n as int) =~= m.waiting.take(k as int).push(task));
        lemma_places(before, task.session);
        assert(!before.tracks(task.session)) by {
            if before.slot_of(task.session) is Some {
                let i = before.slot_of(task.session)->0;
                assert(m.slots[i]->0.session != m.waiting[k as int].session);
            }
            if before.place_of(task.session) is Some {
                let i = before.place_of(task.session)->0;
                assert(before.waiting[i] == m.waiting[i]);
            }
        }
    }
}

/// Saving an engine and restoring it gives the same engine back: every task on its key, with its
/// state, and the queue in its order.
pub proof fn law_saved_engine_is_restored(m: EngineModel)
    requires
        m.valid(),
        m.named(),
    ensures
        state::restored_engine(m.slots.len(), m.saved_slots(), m.waiting) == m,
{
    lemma_saved_slots_come_back(m, m.slots.len());
    assert(saved_up_to(m, m.slots.len()) =~= m.saved_slots());
    let shown = EngineModel { slots: m.slots, waiting: Seq::empty() };
    assert(shown_up_to(m, m.slots.len()) =~= shown);
    lemma_saved_tasks_come_back(m, m.waiting.len());
    assert(m.waiting.take(m.waiting.len() as int) =~= m.waiting);
    lemma_places(m, Seq::empty());
    if m.free_slot() is Some && m.waiting.len() > 0 {
        let i = m.free_slot()->0;
        assert(state::is_free()(m.slots[i]));
        assert(m.slots[i] is Some);
    }
}

} // verus!
