//! What a change of one task does to the slots, to the queue and to the lights.
use vstd::prelude::*;

use crate::config;
use crate::config::{AppConfig, Color, ColorConfig};
use crate::engine_laws;
use crate::seqs;
use crate::state;
use crate::state::{
    EngineModel, LightingChange, RestoredQueuedSession, RestoredSlot,
    SavedSlot, SlotSnapshot, StateKind, Task,
};
use crate::text;

verus! {

/// The configured colour of a state.
pub open spec fn is_color_of(color: Color, colors: ColorConfig, state: StateKind) -> bool {
    &&& state is Idle ==> color == colors.idle
    &&& state is Working ==> color == colors.working
    &&& state is Approval ==> color == colors.approval
    &&& state is Requested ==> color == colors.requested
    &&& state is Done ==> color == colors.done
    &&& state is Error ==> color == colors.error
}

/// The lights are one light: that of slot `i`, in the colour of its task's state or in that of the
/// background.
pub open spec fn is_light_of(
    lights: Seq<LightingChange>,
    config: AppConfig,
    slot: Option<Task>,
    i: int,
) -> bool {
    &&& lights.len() == 1
    &&& lights[0].key == config.device.slot_keys@[i]
    &&& slot is Some ==> is_color_of(lights[0].color, config.colors, slot->0.state)
    &&& slot is None ==> lights[0].color == config.lighting.background
}

/// The task stands in `after` as it is, in a slot or in the queue and nowhere else under another
/// state or moment, and nothing else differs from `m`.
pub open spec fn is_kept(m: EngineModel, after: EngineModel, task: Task) -> bool {
    &&& (exists|i: int| 0 <= i < after.slots.len() && #[trigger] after.slots[i] == Some(task)) || (
    exists|k: int| 0 <= k < after.waiting.len() && #[trigger] after.waiting[k] == task)
    &&& forall|i: int|
        0 <= i < after.slots.len() && (#[trigger] after.slots[i]) is Some
            && after.slots[i]->0.session == task.session ==> after.slots[i] == Some(task)
    &&& forall|k: int|
        0 <= k < after.waiting.len() && (#[trigger] after.waiting[k]).session == task.session
            ==> after.waiting[k] == task
    &&& after.slots.len() == m.slots.len()
    &&& forall|i: int|
        0 <= i < m.slots.len() && #[trigger] after.slots[i] != Some(task) ==> after.slots[i]
            == m.slots[i]
    &&& m.waiting.len() <= after.waiting.len() <= m.waiting.len() + 1
    &&& forall|k: int|
        0 <= k < m.waiting.len() && #[trigger] after.waiting[k] != task ==> after.waiting[k]
            == m.waiting[k]
}

/// A task that takes on a state is kept as it was given, in one place: in its slot, in the first
/// free one, or in the queue. Nothing else changes.
pub proof fn law_changed_task_is_kept(m: EngineModel, task: Task)
    requires
        m.valid(),
        task.state != StateKind::Idle,
    ensures
        is_kept(m, m.moved(task), task),
{
    let after = m.moved(task);
    engine_laws::lemma_places(m, task.session);
    engine_laws::law_change_keeps_engine_valid(m, task);
    match m.place_of(task.session) {
        Some(k) => {
            assert(after.waiting[k] == task);
        },
        None => match m.target_slot(task.session) {
            Some(i) => {
                assert(after.slots[i] == Some(task));
            },
            None => {
                let k = m.waiting.len() as int;
                assert(after.waiting[k] == task);
            },
        },
    }
}

/// A task stays where it is when it takes on a state: on its key, or at its place in the queue.
pub proof fn law_changed_task_stays(m: EngineModel, task: Task, i: int)
    requires
        m.valid(),
        task.state != StateKind::Idle,
    ensures
        0 <= i < m.slots.len() && m.slots[i] is Some && m.slots[i]->0.session == task.session
            ==> m.moved(task).slots == m.slots.update(i, Some(task)) && m.moved(task).waiting
            == m.waiting,
        0 <= i < m.waiting.len() && m.waiting[i].session == task.session ==> m.moved(task).waiting
            == m.waiting.update(i, task) && m.moved(task).slots == m.slots,
{
    engine_laws::lemma_places(m, task.session);
    if 0 <= i < m.slots.len() && m.slots[i] is Some && m.slots[i]->0.session == task.session {
        assert(state::shows(task.session)(m.slots[i]));
        if m.place_of(task.session) is Some {
            let k = m.place_of(task.session)->0;
            assert(m.slots[i]->0.session != m.waiting[k].session);
        }
        let j = m.slot_of(task.session)->0;
        assert(state::shows(task.session)(m.slots[j]));
        assert(i == j);
    }
    if 0 <= i < m.waiting.len() && m.waiting[i].session == task.session {
        assert(state::is_session(task.session)(m.waiting[i]));
        let k = m.place_of(task.session)->0;
        assert(m.waiting[k].session == m.waiting[i].session);
        assert(i == k);
    }
}

/// A task that nothing is known of takes the first free slot, or the end of the queue where all
/// slots are in use.
pub proof fn law_unknown_task_takes_a_place(m: EngineModel, task: Task, i: int)
    requires
        task.state != StateKind::Idle,
        forall|j: int|
            0 <= j < m.slots.len() && (#[trigger] m.slots[j]) is Some ==> m.slots[j]->0.session
                != task.session,
        forall|j: int|
            0 <= j < m.waiting.len() ==> (#[trigger] m.waiting[j]).session != task.session,
        0 <= i <= m.slots.len(),
        forall|j: int| 0 <= j < i ==> (#[trigger] m.slots[j]) is Some,
        i < m.slots.len() ==> m.slots[i] is None,
    ensures
        i < m.slots.len() ==> m.moved(task).slots == m.slots.update(i, Some(task)) && m.moved(
            task,
        ).waiting == m.waiting,
        i == m.slots.len() ==> m.moved(task).slots == m.slots && m.moved(task).waiting
            == m.waiting.push(task),
{
    engine_laws::lemma_places(m, task.session);
    assert(m.slot_of(task.session) is None);
    assert(m.place_of(task.session) is None);
    if i < m.slots.len() {
        assert(state::is_free()(m.slots[i]));
        seqs::lemma_first(m.slots, state::is_free(), i);
    }
}

/// A task that takes on a state changes the light of its key to the colour of that state. Where it
/// is not on a key, or its key shows that state already, no light changes.
pub proof fn law_changed_task_lights_its_key(
    m: EngineModel,
    task: Task,
    config: AppConfig,
    i: int,
)
    requires
        m.valid(),
        task.state != StateKind::Idle,
    ensures
        ({
            let after = m.moved(task);
            let lights = state::relit(config, after, m.moved_light(task.session, task.state));
            &&& 0 <= i < m.slots.len() && after.slots[i] == Some(task) && !(m.slots[i] is Some
                && m.slots[i]->0.state == task.state) ==> is_light_of(
                lights,
                config,
                Some(task),
                i,
            )
            &&& 0 <= i < m.slots.len() && after.slots[i] == Some(task) && m.slots[i] is Some
                && m.slots[i]->0.state == task.state ==> lights.len() == 0
            &&& 0 <= i < after.waiting.len() && after.waiting[i] == task ==> lights.len() == 0
        }),
{
    let after = m.moved(task);
    engine_laws::lemma_places(m, task.session);
    engine_laws::law_change_keeps_engine_valid(m, task);
    if m.place_of(task.session) is Some {
        let k = m.place_of(task.session)->0;
        assert(after.waiting[k] == task);
    } else if m.target_slot(task.session) is Some {
        let k = m.target_slot(task.session)->0;
        assert(after.slots[k] == Some(task));
    } else {
        assert(after.waiting[m.waiting.len() as int] == task);
    }
}

/// A task on a key that is cleared, or becomes idle, gives its key to the task that has waited
/// longest, whose colour the key then has. Where none waits the key shows the background.
pub proof fn law_cleared_key_shows_the_next_task(
    m: EngineModel,
    config: AppConfig,
    i: int,
    updated_at: u64,
)
    requires
        m.valid(),
        0 <= i < m.slots.len(),
        m.slots[i] is Some,
    ensures
        ({
            let session = m.slots[i]->0.session;
            let after = m.cleared(session);
            let next = if m.waiting.len() > 0 {
                Some(m.waiting[0])
            } else {
                None
            };
            &&& after.slots == m.slots.update(i, next)
            &&& m.waiting.len() > 0 ==> after.waiting == m.waiting.subrange(
                1,
                m.waiting.len() as int,
            )
            &&& m.waiting.len() == 0 ==> after.waiting.len() == 0
            &&& is_light_of(state::relit(config, after, m.cleared_light(session)), config, next, i)
            &&& m.moved(Task { session, state: StateKind::Idle, updated_at }) == after
            &&& m.moved_light(session, StateKind::Idle) == m.cleared_light(session)
        }),
{
    let session = m.slots[i]->0.session;
    engine_laws::lemma_places(m, session);
    assert(state::shows(session)(m.slots[i]));
    let j = m.slot_of(session)->0;
    assert(state::shows(session)(m.slots[j]));
    assert(i == j);
    if m.place_of(session) is Some {
        let k = m.place_of(session)->0;
        assert(m.slots[i]->0.session != m.waiting[k].session);
    }
}

/// A task that waits leaves the queue when it is cleared, and no light changes. Clearing a task
/// that nothing is known of changes nothing.
pub proof fn law_clearing_off_keys_changes_no_light(
    m: EngineModel,
    config: AppConfig,
    session: Seq<char>,
    k: int,
)
    requires
        m.valid(),
        forall|i: int|
            0 <= i < m.slots.len() && (#[trigger] m.slots[i]) is Some ==> m.slots[i]->0.session
                != session,
    ensures
        m.cleared(session).slots == m.slots,
        state::relit(config, m.cleared(session), m.cleared_light(session)).len() == 0,
        0 <= k < m.waiting.len() && m.waiting[k].session == session ==> m.cleared(session).waiting
            == m.waiting.remove(k),
        (forall|j: int| 0 <= j < m.waiting.len() ==> (#[trigger] m.waiting[j]).session != session)
            ==> m.cleared(session).waiting == m.waiting,
{
    engine_laws::lemma_places(m, session);
    assert(m.slot_of(session) is None);
    if 0 <= k < m.waiting.len() && m.waiting[k].session == session {
        assert(state::is_session(session)(m.waiting[k]));
        let p = m.place_of(session)->0;
        assert(m.waiting[p].session == m.waiting[k].session);
        assert(p == k);
    }
}

/// A key whose task is not at work goes to the task that has waited longest once it was pressed,
/// and shows the background where none waits. A key that is free, at work or unknown stays.
pub proof fn law_pressed_key_shows_the_next_task(m: EngineModel, config: AppConfig, g_key: int)
    requires
        m.valid(),
    ensures
        ({
            let after = m.acknowledged(g_key);
            let known = 1 <= g_key <= m.slots.len() && m.slots[g_key - 1] is Some;
            let next = if m.waiting.len() > 0 {
                Some(m.waiting[0])
            } else {
                None
            };
            &&& known && !(m.slots[g_key - 1]->0.state is Working) ==> {
                &&& m.can_acknowledge(g_key)
                &&& after.slots == m.slots.update(g_key - 1, next)
                &&& m.waiting.len() > 0 ==> after.waiting == m.waiting.subrange(
                    1,
                    m.waiting.len() as int,
                )
                &&& m.waiting.len() == 0 ==> after.waiting.len() == 0
                &&& is_light_of(
                    state::relit(config, after, Some(g_key - 1)),
                    config,
                    next,
                    g_key - 1,
                )
            }
            &&& !known || m.slots[g_key - 1]->0.state is Working ==> after == m
                && !m.can_acknowledge(g_key)
        }),
{
}

/// The slots in use are listed from the first key to the last, each once and none left out.
pub proof fn law_slots_in_use_are_listed(slots: Seq<Option<Task>>)
    ensures
        ({
            let listed = state::occupied(slots);
            &&& forall|k: int|
                0 <= k < listed.len() ==> 0 <= #[trigger] listed[k] < slots.len()
                    && slots[listed[k]] is Some
            &&& forall|j: int, k: int|
                0 <= j < k < listed.len() ==> #[trigger] listed[j] < #[trigger] listed[k]
            &&& forall|i: int|
                0 <= i < slots.len() && (#[trigger] slots[i]) is Some ==> listed.contains(i)
        }),
{
    lemma_listed(slots, slots.len());
}

proof fn lemma_listed(slots: Seq<Option<Task>>, n: nat)
    requires
        n <= slots.len(),
    ensures
        ({
            let listed = state::occupied_among(slots, n);
            &&& forall|k: int|
                0 <= k < listed.len() ==> 0 <= #[trigger] listed[k] < n && slots[listed[k]] is Some
            &&& forall|j: int, k: int|
                0 <= j < k < listed.len() ==> #[trigger] listed[j] < #[trigger] listed[k]
            &&& forall|i: int| 0 <= i < n && (#[trigger] slots[i]) is Some ==> listed.contains(i)
        }),
    decreases n,
{
    if n > 0 {
        let before = state::occupied_among(slots, (n - 1) as nat);
        let listed = state::occupied_among(slots, n);
        lemma_listed(slots, (n - 1) as nat);
        assert forall|i: int| 0 <= i < n && (#[trigger] slots[i]) is Some implies listed.contains(
            i,
        ) by {
            if i < n - 1 {
                assert(before.contains(i));
                let k = choose|k: int| 0 <= k < before.len() && before[k] == i;
                assert(listed[k] == i);
            } else {
                assert(listed[before.len() as int] == i);
            }
        }
    }
}

/// Every slot has one light when all are shown anew: the colour of its task's state, or the
/// background.
pub proof fn law_every_slot_is_shown(m: EngineModel, config: AppConfig, i: int)
    requires
        0 <= i < m.slots.len(),
    ensures
        state::all_lights(config, m).len() == m.slots.len(),
        is_light_of(seq![state::all_lights(config, m)[i]], config, m.slots[i], i),
{
}

/// Only the slots in use flash, each on its own key: every part of its colour at so many per
/// cent, rounded down.
pub proof fn law_slots_in_use_flash(
    m: EngineModel,
    config: AppConfig,
    percent: u8,
    k: int,
    steady: Color,
)
    requires
        percent <= 100,
        0 <= k < state::occupied(m.slots).len(),
        is_color_of(steady, config.colors, m.slots[state::occupied(m.slots)[k]]->0.state),
    ensures
        ({
            let lights = state::active_lights(config, m, percent);
            let i = state::occupied(m.slots)[k];
            &&& lights.len() == state::occupied(m.slots).len()
            &&& lights[k].key == config.device.slot_keys@[i]
            &&& lights[k].color.red == steady.red * percent / 100
            &&& lights[k].color.green == steady.green * percent / 100
            &&& lights[k].color.blue == steady.blue * percent / 100
            &&& percent == 100 ==> lights[k].color == steady
        }),
{
    law_slots_in_use_are_listed(m.slots);
    let i = state::occupied(m.slots)[k];
    assert(m.slots[i] is Some);
    let color = state::slot_color(config, m.slots[i]);
    assert(color == steady);
    law_scaled_channel_is_rounded_down(color.red, percent);
    law_scaled_channel_is_rounded_down(color.green, percent);
    law_scaled_channel_is_rounded_down(color.blue, percent);
}

/// A part of a colour at so many per cent is no brighter than it was.
pub proof fn law_scaled_channel_is_rounded_down(channel: u8, percent: u8)
    requires
        percent <= 100,
    ensures
        config::scaled_channel(channel, percent) == channel * percent / 100,
        config::scaled_channel(channel, percent) <= channel,
        percent == 100 ==> config::scaled_channel(channel, percent) == channel,
{
    assert(channel * percent <= channel * 100) by (nonlinear_arith)
        requires
            percent <= 100,
    ;
    assert(0 <= channel * percent) by (nonlinear_arith);
}

/// The tasks that are tracked are those on keys, by key, then those that wait, in their order.
pub proof fn law_tasks_are_listed_in_order(m: EngineModel, k: int)
    requires
        0 <= k < m.sessions().len(),
    ensures
        ({
            let shown = state::occupied(m.slots);
            &&& m.sessions().len() == shown.len() + m.waiting.len()
            &&& k < shown.len() ==> m.sessions()[k] == m.slots[shown[k]]->0.session
            &&& k >= shown.len() ==> m.sessions()[k] == m.waiting[k - shown.len()].session
        }),
{
}

/// What was last heard of a task, on a key or in the queue, is never made older.
pub proof fn law_later_time_is_kept(m: EngineModel, session: Seq<char>, occurred_at: u64, i: int)
    requires
        m.valid(),
    ensures
        ({
            let kept = m.not_before(session, occurred_at);
            &&& 0 <= i < m.slots.len() && m.slots[i] is Some && m.slots[i]->0.session == session
                ==> kept >= m.slots[i]->0.updated_at && (kept == m.slots[i]->0.updated_at || kept
                == occurred_at)
            &&& 0 <= i < m.waiting.len() && m.waiting[i].session == session ==> kept
                >= m.waiting[i].updated_at && (kept == m.waiting[i].updated_at || kept
                == occurred_at)
            &&& kept >= occurred_at
            &&& !m.tracks(session) ==> kept == occurred_at
        }),
{
    engine_laws::lemma_places(m, session);
    if 0 <= i < m.slots.len() && m.slots[i] is Some && m.slots[i]->0.session == session {
        assert(state::shows(session)(m.slots[i]));
        let j = m.slot_of(session)->0;
        assert(state::shows(session)(m.slots[j]));
        assert(i == j);
    }
    if 0 <= i < m.waiting.len() && m.waiting[i].session == session {
        assert(state::is_session(session)(m.waiting[i]));
        let k = m.place_of(session)->0;
        assert(m.waiting[k].session == m.waiting[i].session);
        assert(i == k);
        if m.slot_of(session) is Some {
            let j = m.slot_of(session)->0;
            assert(m.slots[j]->0.session != m.waiting[i].session);
        }
    }
}

/// What is shown of a slot in use: its key, its task, the state of that, and its colour.
pub proof fn law_snapshot_shows_the_slot(
    snapshot: SlotSnapshot,
    config: AppConfig,
    slot: Option<Task>,
    i: int,
)
    requires
        0 <= i < usize::MAX,
    ensures
        state::snapshot_of(snapshot, config, slot, i) <==> slot is Some && snapshot.slot == i + 1
            && snapshot.key@ == seq!['G'] + text::decimal((i + 1) as nat) && snapshot.key_address
            == config.device.slot_keys@[i] && snapshot.session_id@ == slot->0.session
            && snapshot.state == slot->0.state && snapshot.updated_at == slot->0.updated_at
            && snapshot.expires_at is None && is_color_of(
            snapshot.color,
            config.colors,
            slot->0.state,
        ),
{
}

/// A saved slot comes back on its key, where it is in range, has a name and a state, and no entry
/// before it claims its key or its task.
pub proof fn law_saved_slot_comes_back(
    slots: nat,
    saved: Seq<SavedSlot>,
    queued: Seq<Task>,
    k: int,
)
    requires
        0 <= k < saved.len(),
        1 <= saved[k].slot <= slots,
        saved[k].task.session.len() > 0,
        saved[k].task.state != StateKind::Idle,
        forall|j: int|
            0 <= j < k ==> (#[trigger] saved[j]).slot != saved[k].slot && saved[j].task.session
                != saved[k].task.session,
    ensures
        state::restored_engine(slots, saved, queued).slots[saved[k].slot - 1] == Some(
            saved[k].task,
        ),
{
    let start = state::empty_engine(slots);
    let entry = saved[k];
    lemma_saved_slot_is_taken(slots, saved, k);
    let placed = start.with_saved_slots(saved);
    lemma_saved_tasks_leave_slots(placed, queued);
    lemma_filled_leaves_slots(placed.with_saved_tasks(queued), entry.slot - 1);
}

/// A saved slot is free as long as no entry claimed it, and no entry that was read is that task.
proof fn lemma_unclaimed(slots: nat, saved: Seq<SavedSlot>, slot: nat, session: Seq<char>)
    requires
        1 <= slot <= slots,
        forall|j: int|
            0 <= j < saved.len() ==> (#[trigger] saved[j]).slot != slot && saved[j].task.session
                != session,
    ensures
        ({
            let m = state::empty_engine(slots).with_saved_slots(saved);
            &&& m.slots.len() == slots
            &&& m.slots[slot - 1] is None
            &&& !m.tracks(session)
            &&& m.waiting.len() == 0
        }),
    decreases saved.len(),
{
    let m = state::empty_engine(slots).with_saved_slots(saved);
    if saved.len() > 0 {
        let rest = saved.drop_last();
        assert forall|j: int| 0 <= j < rest.len() implies (#[trigger] rest[j]).slot != slot
            && rest[j].task.session != session by {
            assert(rest[j] == saved[j]);
        }
        lemma_unclaimed(slots, rest, slot, session);
        let before = state::empty_engine(slots).with_saved_slots(rest);
        let last = saved[saved.len() - 1];
        assert(last == saved.last());
        engine_laws::lemma_places(before, session);
        engine_laws::lemma_places(m, session);
        if m.slot_of(session) is Some {
            let i = m.slot_of(session)->0;
            assert(state::shows(session)(m.slots[i]));
            assert(!state::shows(session)(before.slots[i]));
        }
    } else {
        engine_laws::lemma_places(m, session);
        if m.slot_of(session) is Some {
            let i = m.slot_of(session)->0;
            assert(state::shows(session)(m.slots[i]));
        }
    }
}

proof fn lemma_saved_slot_is_taken(slots: nat, saved: Seq<SavedSlot>, k: int)
    requires
        0 <= k < saved.len(),
        1 <= saved[k].slot <= slots,
        saved[k].task.session.len() > 0,
        saved[k].task.state != StateKind::Idle,
        forall|j: int|
            0 <= j < k ==> (#[trigger] saved[j]).slot != saved[k].slot && saved[j].task.session
                != saved[k].task.session,
    ensures
        state::empty_engine(slots).with_saved_slots(saved).slots.len() == slots,
        state::empty_engine(slots).with_saved_slots(saved).slots[saved[k].slot - 1] == Some(
            saved[k].task,
        ),
    decreases saved.len(),
{
    let rest = saved.drop_last();
    if k == saved.len() - 1 {
        assert forall|j: int| 0 <= j < rest.len() implies (#[trigger] rest[j]).slot
            != saved[k].slot && rest[j].task.session != saved[k].task.session by {
            assert(rest[j] == saved[j]);
        }
        lemma_unclaimed(slots, rest, saved[k].slot, saved[k].task.session);
    } else {
        assert(rest[k] == saved[k]);
        assert forall|j: int| 0 <= j < k implies (#[trigger] rest[j]).slot != rest[k].slot
            && rest[j].task.session != rest[k].task.session by {
            assert(rest[j] == saved[j]);
        }
        lemma_saved_slot_is_taken(slots, rest, k);
    }
}

proof fn lemma_saved_tasks_leave_slots(m: EngineModel, tasks: Seq<Task>)
    ensures
        m.with_saved_tasks(tasks).slots == m.slots,
    decreases tasks.len(),
{
    if tasks.len() > 0 {
        lemma_saved_tasks_leave_slots(m, tasks.drop_last());
    }
}

proof fn lemma_filled_leaves_slots(m: EngineModel, i: int)
    requires
        0 <= i < m.slots.len(),
        m.slots[i] is Some,
    ensures
        m.filled().slots[i] == m.slots[i],
    decreases m.waiting.len(),
{
    engine_laws::lemma_places(m, Seq::empty());
    if m.free_slot() is Some && m.waiting.len() > 0 {
        let j = m.free_slot()->0;
        assert(state::is_free()(m.slots[j]));
        lemma_filled_leaves_slots(m.released(j), i);
    }
}

/// What is restored was saved: every task has a name and a state, and stands in the saved slots or
/// in the saved queue, word for word.
pub proof fn law_restored_tasks_were_saved(slots: nat, saved: Seq<SavedSlot>, queued: Seq<Task>)
    ensures
        ({
            let m = state::restored_engine(slots, saved, queued);
            &&& forall|i: int|
                0 <= i < m.slots.len() && (#[trigger] m.slots[i]) is Some ==> was_saved(
                    saved,
                    queued,
                    m.slots[i]->0,
                    i + 1,
                )
            &&& forall|k: int|
                0 <= k < m.waiting.len() ==> was_queued(queued, #[trigger] m.waiting[k])
        }),
{
    let start = state::empty_engine(slots);
    let placed = start.with_saved_slots(saved);
    lemma_placed_was_saved(slots, saved, queued);
    let joined = placed.with_saved_tasks(queued);
    lemma_saved_tasks_leave_slots(placed, queued);
    lemma_joined_was_queued(placed, queued);
    lemma_filled_was_saved(joined, saved, queued);
}

/// The task stands in the queue that was saved.
pub open spec fn was_queued(queued: Seq<Task>, task: Task) -> bool {
    &&& task.session.len() > 0
    &&& !(task.state is Idle)
    &&& exists|k: int| 0 <= k < queued.len() && #[trigger] queued[k] == task
}

/// The task was saved on the G-key `g_key`, or in the queue.
pub open spec fn was_saved(
    saved: Seq<SavedSlot>,
    queued: Seq<Task>,
    task: Task,
    g_key: int,
) -> bool {
    &&& task.session.len() > 0
    &&& !(task.state is Idle)
    &&& was_queued(queued, task) || exists|k: int|
        0 <= k < saved.len() && (#[trigger] saved[k]).task == task && saved[k].slot == g_key
}

proof fn lemma_placed_was_saved(slots: nat, saved: Seq<SavedSlot>, queued: Seq<Task>)
    ensures
        ({
            let m = state::empty_engine(slots).with_saved_slots(saved);
            &&& m.waiting.len() == 0
            &&& forall|i: int|
                0 <= i < m.slots.len() && (#[trigger] m.slots[i]) is Some ==> was_saved(
                    saved,
                    queued,
                    m.slots[i]->0,
                    i + 1,
                )
        }),
    decreases saved.len(),
{
    if saved.len() > 0 {
        let rest = saved.drop_last();
        lemma_placed_was_saved(slots, rest, queued);
        let before = state::empty_engine(slots).with_saved_slots(rest);
        let m = state::empty_engine(slots).with_saved_slots(saved);
        let last = saved[saved.len() - 1];
        assert forall|i: int| 0 <= i < m.slots.len() && (#[trigger] m.slots[i]) is Some implies
            was_saved(saved, queued, m.slots[i]->0, i + 1) by {
            if m.slots[i] != before.slots[i] {
                assert(saved[saved.len() - 1].task == m.slots[i]->0);
            } else {
                assert(was_saved(rest, queued, before.slots[i]->0, i + 1));
                if !was_queued(queued, before.slots[i]->0) {
                    let k = choose|k: int|
                        0 <= k < rest.len() && (#[trigger] rest[k]).task == before.slots[i]->0
                            && rest[k].slot == i + 1;
                    assert(saved[k] == rest[k]);
                }
            }
        }
    }
}

proof fn lemma_joined_was_queued(m: EngineModel, queued: Seq<Task>)
    requires
        m.waiting.len() == 0,
    ensures
        forall|k: int|
            0 <= k < m.with_saved_tasks(queued).waiting.len() ==> was_queued(
                queued,
                #[trigger] m.with_saved_tasks(queued).waiting[k],
            ),
    decreases queued.len(),
{
    if queued.len() > 0 {
        let rest = queued.drop_last();
        lemma_joined_was_queued(m, rest);
        let before = m.with_saved_tasks(rest);
        let after = m.with_saved_tasks(queued);
        assert forall|k: int| 0 <= k < after.waiting.len() implies was_queued(
            queued,
            #[trigger] after.waiting[k],
        ) by {
            if k < before.waiting.len() {
                assert(after.waiting[k] == before.waiting[k]);
                assert(was_queued(rest, before.waiting[k]));
                let j = choose|j: int| 0 <= j < rest.len() && #[trigger] rest[j] == before.waiting[k];
                assert(queued[j] == rest[j]);
            } else {
                assert(queued[queued.len() - 1] == after.waiting[k]);
            }
        }
    }
}

proof fn lemma_filled_was_saved(m: EngineModel, saved: Seq<SavedSlot>, queued: Seq<Task>)
    requires
        forall|i: int|
            0 <= i < m.slots.len() && (#[trigger] m.slots[i]) is Some ==> was_saved(
                saved,
                queued,
                m.slots[i]->0,
                i + 1,
            ),
        forall|k: int| 0 <= k < m.waiting.len() ==> was_queued(queued, #[trigger] m.waiting[k]),
    ensures
        forall|i: int|
            0 <= i < m.filled().slots.len() && (#[trigger] m.filled().slots[i]) is Some
                ==> was_saved(saved, queued, m.filled().slots[i]->0, i + 1),
        forall|k: int|
            0 <= k < m.filled().waiting.len() ==> was_queued(
                queued,
                #[trigger] m.filled().waiting[k],
            ),
    decreases m.waiting.len(),
{
    engine_laws::lemma_places(m, Seq::empty());
    if m.free_slot() is Some && m.waiting.len() > 0 {
        let j = m.free_slot()->0;
        lemma_filled_was_saved(m.released(j), saved, queued);
    }
}

/// What was saved is read as it was written.
pub proof fn law_saved_tasks_are_read_as_written(saved: RestoredSlot, queued: RestoredQueuedSession)
    ensures
        saved@.slot == saved.slot,
        saved@.task.session == saved.session_id@,
        saved@.task.state == saved.state,
        saved@.task.updated_at == saved.updated_at,
        queued@.session == queued.session_id@,
        queued@.state == queued.state,
        queued@.updated_at == queued.updated_at,
{
}

/// There is a key for each of some slots exactly where none of them is beyond the last key.
pub proof fn law_slots_need_keys(config: AppConfig, slots: Seq<int>)
    ensures
        state::has_keys(config, slots) <==> forall|i: int|
            slots.contains(i) ==> i < config.device.slot_keys@.len(),
{
    if state::has_keys(config, slots) {
        assert forall|i: int| slots.contains(i) implies i < config.device.slot_keys@.len() by {
            let k = slots.index_of(i);
            assert(slots[k] == i);
        }
    }
    if forall|i: int| slots.contains(i) ==> i < config.device.slot_keys@.len() {
        assert forall|k: int| 0 <= k < slots.len() implies #[trigger] slots[k]
            < config.device.slot_keys@.len() by {
            assert(slots.contains(slots[k]));
        }
    }
}

} // verus!
