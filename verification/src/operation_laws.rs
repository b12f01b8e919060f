//! What the operations on tasks, messages and journals do, stated of what goes in and what comes
//! out.
use vstd::prelude::*;

use crate::config::{AppConfig, Color, LightingConfig, LightingMode};
use crate::engine_laws;
use crate::follow_laws;
use crate::hook_laws;
use crate::journal;
use crate::journal::{
    is_top_level_codex_desktop_journal, session_meta_line, JournalError, JournalReader,
    JournalRecord, JournalTransition, SessionMetaRecord,
};
use crate::journal_laws;
use crate::json::Json;
use crate::message_laws;
use crate::state;
use crate::state::{
    Engine, LightingChange, ParseStateError, RestoredQueuedSession, SlotSnapshot, StateKind, Task,
};
use crate::task_laws;
use crate::text;
use crate::wire;
use crate::wire::{
    assistant_message_reports_failure, assistant_message_requests_input, state_for_hook,
    tool_failed, EventMessage, HookInput, LifecycleTracker,
};
use crate::wire_laws;

verus! {

/// A task that takes on a state other than idle is kept with that state and moment, and nothing
/// else changes. Its key, where it has one and showed another state, takes on the colour of the
/// state, and no other light changes.
pub proof fn law_transition(
    engine: &mut Engine,
    session: &str,
    next: StateKind,
    now: u64,
    config: &AppConfig,
    r: Vec<LightingChange>,
    i: int,
)
    requires
        call_ensures(Engine::transition, (engine, session, next, now, config), r),
        old(engine)@.valid(),
        next != StateKind::Idle,
    ensures
        ({
            let task = Task { session: session@, state: next, updated_at: now };
            let before = old(engine)@;
            let after = final(engine)@;
            let shown = 0 <= i < before.slots.len() && before.slots[i] is Some
                && before.slots[i]->0.state == next;
            &&& after.valid()
            &&& task_laws::is_kept(before, after, task)
            &&& 0 <= i < after.slots.len() && after.slots[i] == Some(task) && !shown
                ==> task_laws::is_light_of(r@, *config, Some(task), i)
            &&& 0 <= i < after.slots.len() && after.slots[i] == Some(task) && shown ==> r@.len()
                == 0
            &&& 0 <= i < after.waiting.len() && after.waiting[i] == task ==> r@.len() == 0
        }),
{
    let task = Task { session: session@, state: next, updated_at: now };
    task_laws::law_changed_task_is_kept(old(engine)@, task);
    task_laws::law_changed_task_lights_its_key(old(engine)@, task, *config, i);
    engine_laws::law_change_keeps_engine_valid(old(engine)@, task);
}

/// What a journal tells of a task is taken over in the same way, but for the moment: the later of
/// the two counts.
pub proof fn law_reconcile(
    engine: &mut Engine,
    session: &str,
    next: StateKind,
    occurred_at: u64,
    config: &AppConfig,
    r: Vec<LightingChange>,
    i: int,
)
    requires
        call_ensures(Engine::reconcile, (engine, session, next, occurred_at, config), r),
        old(engine)@.valid(),
        next != StateKind::Idle,
    ensures
        ({
            let before = old(engine)@;
            let after = final(engine)@;
            exists|task: Task| #[trigger]
                task_laws::is_kept(before, after, task) && task.session == session@ && task.state
                    == next && task.updated_at >= occurred_at && (before.task_of(
                    session@,
                ) matches Some(known) ==> task.updated_at >= known.updated_at)
        }),
{
    let before = old(engine)@;
    let task = Task {
        session: session@,
        state: next,
        updated_at: before.not_before(session@, occurred_at),
    };
    task_laws::law_changed_task_is_kept(before, task);
    engine_laws::lemma_places(before, session@);
    assert(task_laws::is_kept(before, final(engine)@, task));
}

/// A task that is cleared, or becomes idle, gives its key to the task that has waited longest, or
/// to the background.
pub proof fn law_clear_session(
    engine: &mut Engine,
    session: &str,
    config: &AppConfig,
    r: Vec<LightingChange>,
    i: int,
)
    requires
        call_ensures(Engine::clear_session, (engine, session, config), r),
        old(engine)@.valid(),
    ensures
        ({
            let before = old(engine)@;
            let after = final(engine)@;
            let next = if before.waiting.len() > 0 {
                Some(before.waiting[0])
            } else {
                None
            };
            let on_key = 0 <= i < before.slots.len() && before.slots[i] is Some
                && before.slots[i]->0.session == session@;
            let waits = 0 <= i < before.waiting.len() && before.waiting[i].session == session@;
            &&& after.valid()
            &&& after.task_of(session@) is None
            &&& on_key ==> after.slots == before.slots.update(i, next)
            &&& on_key ==> task_laws::is_light_of(r@, *config, next, i)
            &&& on_key && before.waiting.len() > 0 ==> after.waiting == before.waiting.subrange(
                1,
                before.waiting.len() as int,
            )
            &&& waits ==> after.slots == before.slots && after.waiting == before.waiting.remove(i)
                && r@.len() == 0
        }),
{
    let before = old(engine)@;
    engine_laws::law_cleared_task_is_gone(before, session@);
    if 0 <= i < before.slots.len() && before.slots[i] is Some && before.slots[i]->0.session
        == session@ {
        task_laws::law_cleared_key_shows_the_next_task(before, *config, i, 0);
    }
    if 0 <= i < before.waiting.len() && before.waiting[i].session == session@ {
        task_laws::law_clearing_off_keys_changes_no_light(before, *config, session@, i);
    }
}

/// Where all tasks are cleared, every key that showed one shows the background.
pub proof fn law_clear_all(
    engine: &mut Engine,
    config: &AppConfig,
    r: Vec<LightingChange>,
    i: int,
    k: int,
)
    requires
        call_ensures(Engine::clear_all, (engine, config), r),
    ensures
        ({
            let before = old(engine)@;
            let after = final(engine)@;
            &&& after.slots.len() == before.slots.len()
            &&& 0 <= i < after.slots.len() ==> after.slots[i] is None
            &&& after.waiting.len() == 0
            &&& r@.len() == state::occupied(before.slots).len()
            &&& 0 <= k < r@.len() ==> r@[k].key == config.device.slot_keys@[state::occupied(
                before.slots,
            )[k]] && r@[k].color == config.lighting.background
        }),
{
}

/// A pressed key goes to the task that has waited longest, or to the background, unless its task is
/// at work.
pub proof fn law_acknowledge(
    engine: &mut Engine,
    g_key: usize,
    config: &AppConfig,
    r: Vec<LightingChange>,
)
    requires
        call_ensures(Engine::acknowledge_g_key, (engine, g_key, config), r),
        old(engine)@.valid(),
    ensures
        ({
            let before = old(engine)@;
            let after = final(engine)@;
            let shown = 1 <= g_key <= before.slots.len() && before.slots[g_key - 1] is Some;
            let next = if before.waiting.len() > 0 {
                Some(before.waiting[0])
            } else {
                None
            };
            &&& after.valid()
            &&& !shown || before.slots[g_key - 1]->0.state is Working ==> after == before
                && r@.len() == 0
            &&& shown && !(before.slots[g_key - 1]->0.state is Working) ==> after.slots
                == before.slots.update(g_key - 1, next) && task_laws::is_light_of(
                r@,
                *config,
                next,
                g_key - 1,
            )
        }),
{
    task_laws::law_pressed_key_shows_the_next_task(old(engine)@, *config, g_key as int);
    engine_laws::law_acknowledgement_keeps_engine_valid(old(engine)@, g_key as int);
}

/// What can be seen of the tasks: the light of every slot, the slots in use, those that flash, the
/// queue, and the task of a key.
pub proof fn law_engine_is_shown(
    engine: &Engine,
    config: &AppConfig,
    g_key: usize,
    lights: Vec<LightingChange>,
    slots: Vec<SlotSnapshot>,
    queue: Vec<RestoredQueuedSession>,
    names: Vec<String>,
    any: bool,
    named: Option<&str>,
    i: int,
    k: int,
)
    requires
        call_ensures(Engine::repaint, (engine, config), lights),
        call_ensures(Engine::snapshot, (engine, config), slots),
        call_ensures(Engine::queued_snapshot, (engine,), queue),
        call_ensures(Engine::tracked_session_ids, (engine,), names),
        call_ensures(Engine::has_active_slots, (engine,), any),
        call_ensures(Engine::session_for_g_key, (engine, g_key), named),
        0 <= i < engine@.slots.len(),
    ensures
        ({
            let m = engine@;
            let shown = state::occupied(m.slots);
            &&& lights@.len() == m.slots.len()
            &&& task_laws::is_light_of(seq![lights@[i]], *config, m.slots[i], i)
            &&& slots@.len() == shown.len()
            &&& 0 <= k < slots@.len() ==> {
                let task = m.slots[shown[k]]->0;
                &&& slots@[k].slot == shown[k] + 1
                &&& slots@[k].key_address == config.device.slot_keys@[shown[k]]
                &&& slots@[k].session_id@ == task.session
                &&& slots@[k].state == task.state
                &&& slots@[k].updated_at == task.updated_at
                &&& task_laws::is_color_of(slots@[k].color, config.colors, task.state)
            }
            &&& queue@.len() == m.waiting.len()
            &&& 0 <= k < queue@.len() ==> queue@[k].session_id@ == m.waiting[k].session
                && queue@[k].state == m.waiting[k].state && queue@[k].updated_at
                == m.waiting[k].updated_at
            &&& names@.len() == shown.len() + m.waiting.len()
            &&& 0 <= k < shown.len() ==> names@[k]@ == m.slots[shown[k]]->0.session
            &&& 0 <= k < m.waiting.len() ==> names@[shown.len() + k]@ == m.waiting[k].session
            &&& m.slots[i] is Some ==> any
            &&& any ==> shown.len() > 0
            &&& g_key == i + 1 && m.slots[i] is Some ==> named is Some && named->0@
                == m.slots[i]->0.session
            &&& g_key == i + 1 && m.slots[i] is None ==> named is None
            &&& g_key == 0 || g_key > m.slots.len() ==> named is None
        }),
{
    let m = engine@;
    let shown = state::occupied(m.slots);
    task_laws::law_every_slot_is_shown(m, *config, i);
    task_laws::law_slots_in_use_are_listed(m.slots);
    if 0 <= k < slots@.len() {
        assert(state::snapshot_of(slots@[k], *config, m.slots[shown[k]], shown[k]));
    }
    let views = queue@.map_values(|task: RestoredQueuedSession| task@);
    assert(views == m.waiting);
    assert(queue@.len() == views.len());
    if 0 <= k < queue@.len() {
        assert(views[k] == queue@[k]@);
    }
    let ids = names@.map_values(|id: String| id@);
    assert(ids == m.sessions());
    assert(names@.len() == ids.len());
    if 0 <= k < shown.len() {
        assert(ids[k] == names@[k]@);
    }
    if 0 <= k < m.waiting.len() {
        assert(ids[shown.len() + k] == names@[shown.len() + k]@);
    }
    if any {
        let j = choose|j: int| 0 <= j < m.slots.len() && (#[trigger] m.slots[j]) is Some;
        assert(shown.contains(j));
    }
}

/// A new engine has as many slots as asked for, all free.
pub proof fn law_new_engine(max_sessions: usize, r: Engine, i: int)
    requires
        call_ensures(Engine::new, (max_sessions,), r),
    ensures
        r@.slots.len() == max_sessions,
        0 <= i < max_sessions ==> r@.slots[i] is None,
        r@.waiting.len() == 0,
{
}

/// A name is read back as its state, with any white space around and in either case.
pub proof fn law_state_names(
    state: &StateKind,
    name: &str,
    value: &str,
    r: Result<StateKind, ParseStateError>,
)
    requires
        call_ensures(StateKind::name, (state,), name),
        call_ensures(StateKind::parse, (value,), r),
    ensures
        *state is Idle ==> name@ == "idle"@,
        *state is Working ==> name@ == "working"@,
        *state is Approval ==> name@ == "approval"@,
        *state is Requested ==> name@ == "requested"@,
        *state is Done ==> name@ == "done"@,
        *state is Error ==> name@ == "error"@,
        value@ == name@ ==> r == Ok::<StateKind, ParseStateError>(*state),
        r is Err ==> r->Err_0.value@ == value@,
{
    state::law_state_name_round_trip(*state);
}

/// Every state has its own colour, and the night has its own hours.
pub proof fn law_configured_lights(
    config: &AppConfig,
    state: StateKind,
    color: Color,
    minute: u16,
    mode: LightingMode,
)
    requires
        call_ensures(AppConfig::color_for, (config, state), color),
        call_ensures(LightingConfig::mode_at_minute, (&config.lighting, minute), mode),
    ensures
        task_laws::is_color_of(color, config.colors, state),
        ({
            let start = config.lighting.night_start_minute;
            let end = config.lighting.night_end_minute;
            &&& start <= minute && minute < end ==> mode == LightingMode::Night
            &&& end < start && (start <= minute || minute < end) ==> mode == LightingMode::Night
            &&& end <= minute && minute < start ==> mode == LightingMode::Day
            &&& start <= end && (minute < start || end <= minute) ==> mode == LightingMode::Day
        }),
{
}

/// Where the last paragraph of a message asks, the message asks. `k` is the last character that is
/// no white space, and `p` the first of the paragraph that ends there.
pub proof fn law_requests_input(message: &str, r: bool, k: int, p: int)
    requires
        call_ensures(assistant_message_requests_input, (message,), r),
    ensures
        message_laws::ends_at(message@, k) && message_laws::begins_at(message@, k, p) ==> r
            == message_laws::asks_between(message@, p, k),
        text::is_blank(message@) ==> !r,
{
    if message_laws::ends_at(message@, k) && message_laws::begins_at(message@, k, p) {
        message_laws::law_message_asks(message@, k, p);
    }
    if text::is_blank(message@) {
        message_laws::law_blank_message_says_nothing(message@);
    }
}

/// A message without an empty line asks exactly where it ends in a question mark or holds an asking
/// phrase, in either case.
pub proof fn law_short_message_requests_input(message: &str, r: bool, k: int)
    requires
        call_ensures(assistant_message_requests_input, (message,), r),
        message_laws::ends_at(message@, k),
        forall|i: int|
            0 <= i < k ==> !(#[trigger] message@[i] == '\n' && message@[i + 1] == '\n'),
    ensures
        message@[k] == '?' ==> r,
        message_laws::says_any(message@, message_laws::asking_phrases(), 0, k + 1) ==> r,
        message@[k] != '?' && !message_laws::says_any(
            message@,
            message_laws::asking_phrases(),
            0,
            k + 1,
        ) ==> !r,
{
    message_laws::law_short_message_asks(message@, k);
}

/// A message tells of a failure exactly where it holds a failure phrase, in either case.
pub proof fn law_reports_failure(message: &str, r: bool)
    requires
        call_ensures(assistant_message_reports_failure, (message,), r),
    ensures
        r == message_laws::says_any(
            message@,
            message_laws::failure_phrases(),
            0,
            message@.len() as int,
        ),
{
    message_laws::law_failure_is_told(message@);
}

/// The use of a tool that asks the user nothing: its run is at work and does not wait, what other
/// runs wait for stays, and where none of them waits the task is at work.
pub proof fn law_tool_use(
    tracker: &mut LifecycleTracker,
    message: &EventMessage,
    config: &AppConfig,
    r: Option<StateKind>,
    session: Seq<char>,
    run: Seq<char>,
    tool: Option<Seq<char>>,
    failed: bool,
    other: Seq<char>,
)
    requires
        call_ensures(LifecycleTracker::state_for_event, (tracker, message, config), r),
        wire_laws::is_tool_event(*message, session, run, "PreToolUse"@, tool, failed),
        tool matches Some(name) ==> !wire_laws::asks_for_input(name),
    ensures
        ({
            let before = wire_laws::runs_waiting(old(tracker)@, session);
            let after = wire_laws::runs_waiting(final(tracker)@, session);
            &&& wire_laws::runs_at_work(final(tracker)@, session).contains(run)
            &&& !after.contains_key(run)
            &&& other != run ==> after.contains_key(other) == before.contains_key(other)
            &&& other != run && before.contains_key(other) ==> after[other] == before[other]
            &&& (forall|waiting: Seq<char>| before.contains_key(waiting) ==> waiting == run) ==> r
                == Some(config.events.user_prompt_submit)
            &&& before.dom().finite() ==> r is Some && wire_laws::is_shown(
                after,
                config.events.user_prompt_submit,
                r->0,
            )
        }),
{
    wire_laws::law_next_tool_ends_waiting(
        old(tracker)@,
        *message,
        *config,
        session,
        run,
        tool,
        failed,
    );
    let before = wire_laws::runs_waiting(old(tracker)@, session);
    if before.dom().finite() {
        assert(before.remove(run).dom() =~= before.dom().remove(run));
    }
}

/// A tool that asks the user, and a request for permission, have their run wait for that.
pub proof fn law_waiting_for_user(
    tracker: &mut LifecycleTracker,
    message: &EventMessage,
    config: &AppConfig,
    r: Option<StateKind>,
    session: Seq<char>,
    run: Seq<char>,
    event: Seq<char>,
    tool: Seq<char>,
    failed: bool,
    other: Seq<char>,
)
    requires
        call_ensures(LifecycleTracker::state_for_event, (tracker, message, config), r),
        wire_laws::is_tool_event(*message, session, run, event, Some(tool), failed),
        event == "PermissionRequest"@ || event == "PreToolUse"@ && wire_laws::asks_for_input(tool),
    ensures
        ({
            let before = wire_laws::runs_waiting(old(tracker)@, session);
            let after = wire_laws::runs_waiting(final(tracker)@, session);
            let waits_for = if event == "PermissionRequest"@ {
                config.events.permission_request
            } else {
                config.events.stop_question
            };
            &&& wire_laws::runs_at_work(final(tracker)@, session).contains(run)
            &&& after.contains_key(run) && after[run] == waits_for
            &&& other != run ==> after.contains_key(other) == before.contains_key(other)
            &&& other != run && before.contains_key(other) ==> after[other] == before[other]
            &&& before.dom().finite() ==> r is Some && wire_laws::is_shown(after, waits_for, r->0)
        }),
{
    wire::lemma_event_names_differ();
    let before = wire_laws::runs_waiting(old(tracker)@, session);
    if event == "PermissionRequest"@ {
        wire_laws::law_permission_waits(
            old(tracker)@,
            *message,
            *config,
            session,
            run,
            Some(tool),
            failed,
        );
    } else {
        wire_laws::law_asking_tool_waits(
            old(tracker)@,
            *message,
            *config,
            session,
            run,
            tool,
            failed,
        );
    }
    let after = wire_laws::runs_waiting(final(tracker)@, session);
    assert(after.contains_key(run));
    if before.dom().finite() {
        assert(after.dom() =~= before.dom().insert(run));
    }
}

/// The end of a tool's use: its run does not wait any more, and where none waits the task is in the
/// state for the tool's outcome.
pub proof fn law_tool_used(
    tracker: &mut LifecycleTracker,
    message: &EventMessage,
    config: &AppConfig,
    r: Option<StateKind>,
    session: Seq<char>,
    run: Seq<char>,
    tool: Option<Seq<char>>,
    failed: bool,
)
    requires
        call_ensures(LifecycleTracker::state_for_event, (tracker, message, config), r),
        wire_laws::is_tool_event(*message, session, run, "PostToolUse"@, tool, failed),
        wire_laws::runs_waiting(old(tracker)@, session).dom().finite(),
    ensures
        ({
            let before = wire_laws::runs_waiting(old(tracker)@, session);
            let after = wire_laws::runs_waiting(final(tracker)@, session);
            &&& wire_laws::runs_at_work(final(tracker)@, session).contains(run)
            &&& after == before.remove(run)
            &&& r is Some
            &&& failed ==> wire_laws::is_shown(after, config.events.post_tool_failure, r->0)
            &&& !failed ==> wire_laws::is_shown(after, config.events.post_tool_success, r->0)
        }),
{
    wire_laws::law_used_tool_ends_waiting(
        old(tracker)@,
        *message,
        *config,
        session,
        run,
        tool,
        failed,
    );
    let before = wire_laws::runs_waiting(old(tracker)@, session);
    assert(before.remove(run).dom() =~= before.dom().remove(run));
}

/// The end of a task forgets its runs and leads to the state that its last message tells of.
pub proof fn law_task_ended(
    tracker: &mut LifecycleTracker,
    message: &EventMessage,
    config: &AppConfig,
    r: Option<StateKind>,
    session: Seq<char>,
    run: Seq<char>,
    said: Seq<char>,
    k: int,
    p: int,
)
    requires
        call_ensures(LifecycleTracker::state_for_event, (tracker, message, config), r),
        wire_laws::is_event(*message, session, run, "Stop"@, false),
        *message matches EventMessage::Hook {
            session_id,
            run_id,
            hook_event_name,
            is_subagent,
            tool_name,
            last_assistant_message,
            tool_failed,
            transcript_path,
        } && wire::chars_in(last_assistant_message) == Some(said),
        message_laws::ends_at(said, k),
        message_laws::begins_at(said, k, p),
    ensures
        !final(tracker)@.contains_key(session),
        r is Some,
        message_laws::is_outcome(r->0, said, *config, k, p),
{
    wire_laws::law_ended_task_tells_outcome(
        old(tracker)@,
        *message,
        *config,
        session,
        run,
        Some(said),
        k,
        p,
    );
    assert(!text::is_blank(said));
}

/// What is known of tasks after an event, and the state that it leads to, in all other cases: a
/// prompt, the beginning and the end of a subagent, and events that tell nothing.
pub proof fn law_other_event(
    tracker: &mut LifecycleTracker,
    message: &EventMessage,
    config: &AppConfig,
    r: Option<StateKind>,
    other: Seq<char>,
)
    requires
        call_ensures(LifecycleTracker::state_for_event, (tracker, message, config), r),
    ensures
        final(tracker)@ == wire::sessions_after(old(tracker)@, *message, *config),
        r == wire::state_after(old(tracker)@, *message, *config),
        !(*message is Hook) ==> final(tracker)@ == old(tracker)@ && r is None,
{
}

/// Forgetting one task, or all of them.
pub proof fn law_forget(
    tracker: &mut LifecycleTracker,
    session: Option<&str>,
    r: (),
    other: Seq<char>,
)
    requires
        call_ensures(LifecycleTracker::clear, (tracker, session), r),
    ensures
        session is None ==> !final(tracker)@.contains_key(other),
        session is Some ==> !final(tracker)@.contains_key(session->0@),
        session is Some && other != session->0@ ==> final(tracker)@.contains_key(other) == old(tracker)@.contains_key(other),
        session is Some && other != session->0@ && old(tracker)@.contains_key(other)
            ==> final(tracker)@[other] == old(tracker)@[other],
{
}

/// What a hook was told arrives as it is, with the run it belongs to, whether it is a subagent's,
/// the end of the last message within two kibibytes, and whether the tool failed.
pub proof fn law_hook_becomes_event(
    input: HookInput,
    r: EventMessage,
    before: Seq<char>,
    shown: Seq<char>,
)
    requires
        call_ensures(HookInput::into_event, (input,), r),
        input.last_assistant_message matches Some(message) ==> message_laws::is_shown_of(
            before,
            shown,
            message@,
        ),
    ensures
        r is Hook,
        r->Hook_session_id == input.session_id,
        r->hook_event_name == input.hook_event_name,
        r->tool_name == input.tool_name,
        r->transcript_path == input.transcript_path,
        r->is_subagent <==> input.hook_event_name@ == "SubagentStart"@ || input.hook_event_name@
            == "SubagentStop"@ || hook_laws::is_filled(input.agent_id) || hook_laws::is_filled(
            input.agent_type,
        ),
        hook_laws::is_filled(input.agent_id) ==> r->run_id@ == text::trimmed(input.agent_id->0@),
        !hook_laws::is_filled(input.agent_id) && hook_laws::is_filled(input.turn_id)
            ==> r->run_id@ == text::trimmed(input.turn_id->0@),
        !hook_laws::is_filled(input.agent_id) && !hook_laws::is_filled(input.turn_id)
            ==> r->run_id@ == input.session_id@,
        input.last_assistant_message is None ==> r->last_assistant_message is None,
        input.last_assistant_message is Some ==> r->last_assistant_message is Some
            && r->last_assistant_message->0@ == shown,
        input.tool_response is None ==> !r->tool_failed,
        input.tool_response is Some ==> r->tool_failed == wire::response_fails(
            input.tool_response->0,
        ),
{
    hook_laws::law_subagents_are_recognised(input);
    hook_laws::law_runs_are_named(input);
    if input.last_assistant_message is Some {
        message_laws::law_end_of_message_is_shown(
            before,
            shown,
            input.last_assistant_message->0@,
        );
    }
}

/// A response tells of a failure where it, or one of its parts, does.
pub proof fn law_tool_response(value: &Json, r: bool, i: int)
    requires
        call_ensures(tool_failed, (value,), r),
    ensures
        *value matches Json::Array(items) ==> 0 <= i < items@.len() && wire::response_fails(items@[i])
            ==> r,
        *value matches Json::Object(entries) ==> 0 <= i < entries@.len() && (wire::response_fails(
            entries@[i].1,
        ) || hook_laws::tells_failure(entries@, i)) ==> r,
        !(*value is Array) && !(*value is Object) ==> !r,
        r == wire::response_fails(*value),
{
    hook_laws::law_failure_is_found_at_any_depth(*value, i);
}

/// The state of an event alone, where nothing else is known of the task.
pub proof fn law_hook_state(
    event: &str,
    message: Option<&str>,
    failed: bool,
    config: &AppConfig,
    r: Option<StateKind>,
    k: int,
    p: int,
)
    requires
        call_ensures(state_for_hook, (event, message, failed, config), r),
    ensures
        event@ == "UserPromptSubmit"@ ==> r == Some(config.events.user_prompt_submit),
        event@ == "PermissionRequest"@ ==> r == Some(config.events.permission_request),
        event@ == "PostToolUse"@ && failed ==> r == Some(config.events.post_tool_failure),
        event@ == "PostToolUse"@ && !failed ==> r == Some(config.events.post_tool_success),
        event@ == "Stop"@ && message is None ==> r == Some(config.events.stop_complete),
        event@ == "Stop"@ && message is Some && message_laws::ends_at(message->0@, k)
            && message_laws::begins_at(message->0@, k, p) ==> r is Some && message_laws::is_outcome(
            r->0,
            message->0@,
            *config,
            k,
            p,
        ),
        event@ != "UserPromptSubmit"@ && event@ != "PermissionRequest"@ && event@ != "PostToolUse"@
            && event@ != "Stop"@ ==> r is None,
{
    wire::lemma_event_names_differ();
    if event@ == "Stop"@ && message is Some && message_laws::ends_at(message->0@, k)
        && message_laws::begins_at(message->0@, k, p) {
        message_laws::law_stop_tells_outcome(message->0@, failed, *config, k, p);
    }
}

/// The record of the end of the turn at work leads to the state that its last message tells of.
pub proof fn law_observed_completion(
    reader: &mut JournalReader,
    record: &JournalRecord,
    config: &AppConfig,
    modified_at: u64,
    r: Option<JournalTransition>,
    turn: Seq<char>,
    at: u64,
    before: Seq<char>,
    shown: Seq<char>,
    k: int,
    p: int,
)
    requires
        call_ensures(JournalReader::observe, (reader, record, config, modified_at), r),
        journal_laws::ends_current_turn(old(reader)@, *record, turn, at),
        record.payload.last_agent_message matches Some(message) && message_laws::is_shown_of(
            before,
            shown,
            message@,
        ),
        message_laws::ends_at(shown, k),
        message_laws::begins_at(shown, k, p),
    ensures
        r is Some,
        r->0.occurred_at == at,
        message_laws::is_outcome(r->0.state, shown, *config, k, p),
        final(reader)@.active_turn is None,
        final(reader)@.completed_turn == Some(turn),
        forall|call: Seq<char>| !final(reader)@.pending.contains(call),
{
    journal_laws::law_finished_turn_tells_outcome(
        old(reader)@,
        *record,
        *config,
        modified_at,
        turn,
        at,
        before,
        shown,
        k,
        p,
    );
    journal_laws::law_finished_turn_is_a_stop(
        old(reader)@,
        *record,
        *config,
        modified_at,
        turn,
        at,
        before,
        shown,
    );
}

/// The record of the beginning of a turn has the task at work, and the records of a tool call keep
/// count of the calls that are pending.
pub proof fn law_observed_work(
    reader: &mut JournalReader,
    record: &JournalRecord,
    config: &AppConfig,
    modified_at: u64,
    r: Option<JournalTransition>,
    name: Seq<char>,
    other: Seq<char>,
)
    requires
        call_ensures(JournalReader::observe, (reader, record, config, modified_at), r),
    ensures
        ({
            let before = old(reader)@;
            let after = final(reader)@;
            let begins = record.record_type@ == "event_msg"@ && record.payload.event_type@
                == "task_started"@ && record.payload.turn_id is Some && record.payload.turn_id->0@
                == name && before.completed_turn != Some(name);
            &&& begins ==> after.active_turn == Some(name) && after.completed_turn is None
                && !after.pending.contains(other)
            &&& begins && record.payload.started_at is Some ==> r is Some && r->0.state
                == config.events.user_prompt_submit && r->0.occurred_at
                == record.payload.started_at->0
            &&& begins && record.payload.started_at is None ==> r is None
            &&& journal_laws::opens_call(*record, name) ==> r is None && after.pending
                == before.pending.insert(name)
            &&& journal_laws::ends_call(*record, name) ==> after.pending == before.pending.remove(
                name,
            )
            &&& journal_laws::ends_call(*record, name) && other != name && before.pending.contains(
                other,
            ) ==> r is None
            &&& journal_laws::ends_call(*record, name) && (forall|call: Seq<char>|
                before.pending.contains(call) ==> call == name) ==> r is Some && r->0.state
                == config.events.post_tool_success && r->0.occurred_at == modified_at
        }),
{
    let before = old(reader)@;
    journal_laws::law_finished_call_hides_no_other(before, *record, *config, modified_at, name);
    if record.record_type@ == "event_msg"@ && record.payload.event_type@ == "task_started"@
        && record.payload.turn_id is Some && record.payload.turn_id->0@ == name
        && before.completed_turn != Some(name) {
        journal_laws::law_begun_turn_is_at_work(before, *record, *config, modified_at, name);
    }
}

/// A look at a journal tells what its new lines tell, a reader that recovers begins near the end,
/// and a new one at the end.
pub proof fn law_journal_is_read(
    reader: &mut JournalReader,
    path: &str,
    length: u64,
    previous: u8,
    modified_at: u64,
    content: &[u8],
    records: &[JournalRecord],
    config: &AppConfig,
    r: Result<Option<JournalTransition>, JournalError>,
    recovered: Result<(JournalReader, Option<JournalTransition>), JournalError>,
    new: JournalReader,
)
    requires
        call_ensures(
            JournalReader::poll,
            (reader, length, modified_at, content, records, config),
            r,
        ),
        call_ensures(
            JournalReader::recover,
            (path, length, previous, modified_at, content, records, config),
            recovered,
        ),
        call_ensures(JournalReader::follow, (path, length), new),
    ensures
        ({
            let reading = journal::polled(
                old(reader)@,
                length as int,
                content@,
                records@,
                *config,
                modified_at,
            );
            let first = journal::polled(
                journal::tail_reader(length as int, previous),
                length as int,
                content@,
                records@,
                *config,
                modified_at,
            );
            &&& final(reader)@ == reading.reader
            &&& reading.failed ==> r is Err
            &&& !reading.failed && (exists|call: Seq<char>| reading.reader.pending.contains(call))
                ==> r == Ok::<Option<JournalTransition>, JournalError>(None)
            &&& !reading.failed && !(exists|call: Seq<char>| reading.reader.pending.contains(call))
                ==> r == Ok::<Option<JournalTransition>, JournalError>(reading.latest)
            &&& first.failed <==> recovered is Err
            &&& recovered is Ok ==> recovered->Ok_0.0@ == first.reader
                && recovered->Ok_0.0.spec_path() == path@
            &&& new@.offset == length
            &&& !new@.skip_partial_line
            &&& new@.active_turn is None
            &&& new.spec_path() == path@
        }),
{
    let reading = journal::polled(
        old(reader)@,
        length as int,
        content@,
        records@,
        *config,
        modified_at,
    );
    let pending = reading.reader.pending;
    if exists|call: Seq<char>| pending.contains(call) {
        let call = choose|call: Seq<char>| pending.contains(call);
        assert(pending != Set::<Seq<char>>::empty());
    } else {
        assert(pending =~= Set::<Seq<char>>::empty());
    }
}

/// The first line of a journal ends in its first newline, and tells whether the task is a desktop
/// task.
pub proof fn law_journal_begins(
    prefix: &[u8],
    line: Result<Option<usize>, JournalError>,
    record: &SessionMetaRecord,
    session: &str,
    r: bool,
    k: int,
)
    requires
        call_ensures(session_meta_line, (prefix,), line),
        call_ensures(is_top_level_codex_desktop_journal, (record, session), r),
    ensures
        prefix@.len() == 0 ==> line == Ok::<Option<usize>, JournalError>(None),
        0 <= k < prefix@.len() && k < 262_144 && prefix@[k] == 10 && (forall|j: int|
            0 <= j < k ==> #[trigger] prefix@[j] != 10) ==> line is Ok && line->Ok_0 is Some
            && line->Ok_0->0 == k + 1,
        prefix@.len() > 0 && (forall|j: int|
            0 <= j < prefix@.len() && j < 262_144 ==> #[trigger] prefix@[j] != 10) ==> line is Err,
        r <==> record.record_type@ == "session_meta"@ && record.payload.id@ == session@
            && record.payload.originator@ == "Codex Desktop"@ && record.payload.source is String
            && record.payload.source->String_0@ == "vscode"@,
{
    follow_laws::law_first_line_is_bounded(prefix@, k);
}

} // verus!
