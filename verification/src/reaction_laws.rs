//! What each event changes in the daemon, and what it leaves as it is.
use vstd::prelude::*;

use crate::config::AppConfig;
use crate::daemon;
use crate::daemon::DaemonModel;
use crate::daemon_laws;
use crate::engine_laws;
use crate::journal_tracker;
use crate::journal_tracker::{SessionTransition, TrackerModel};
use crate::state;
use crate::state::{EngineModel, StateKind, Task};
use crate::status::StatusWriteRequest;
use crate::task_laws;
use crate::time::Instant;
use crate::wire;
use crate::wire::EventMessage;

verus! {

/// Nothing but tasks and what is known of them differs.
pub open spec fn same_but_for_tasks(a: DaemonModel, b: DaemonModel) -> bool {
    &&& a.config == b.config
    &&& a.hardware == b.hardware
    &&& a.flash == b.flash
    &&& a.lighting_mode == b.lighting_mode
    &&& a.watchdog == b.watchdog
    &&& a.persistence == b.persistence
    &&& a.last_config_check == b.last_config_check
    &&& a.config_modified == b.config_modified
}

/// Of the journals that were followed, those of tasks that are shown or wait are followed on, as
/// they were.
pub open spec fn follows_known(before: TrackerModel, after: TrackerModel, m: EngineModel) -> bool {
    &&& forall|session: Seq<char>| #[trigger]
        after.readers.contains_key(session) <==> before.readers.contains_key(session) && m.tracks(
            session,
        )
    &&& forall|session: Seq<char>| #[trigger]
        after.readers.contains_key(session) ==> after.readers[session] == before.readers[session]
    &&& after.sessions_root == before.sessions_root
    &&& after.ignored == before.ignored
    &&& after.next_poll == before.next_poll
    &&& after.last_error == before.last_error
}

/// Only the journals of tasks that are shown or wait are kept.
pub proof fn law_known_journals_are_kept(journals: TrackerModel, m: EngineModel)
    ensures
        follows_known(journals, daemon::retained(journals, m), m),
{
    let after = daemon::retained(journals, m);
    assert forall|session: Seq<char>| #[trigger]
        after.readers.contains_key(session) <==> journals.readers.contains_key(session)
            && m.tracks(session) by {
        daemon_laws::law_tracked_tasks_are_listed(m, session);
    }
}

/// A state that is set is that of the task from then on, with its moment. No other task changes,
/// and nothing but tasks.
pub proof fn law_set_state_is_taken_on(
    daemon: DaemonModel,
    session: Seq<char>,
    next: StateKind,
    at: u64,
    other: Seq<char>,
)
    requires
        daemon.engine.valid(),
    ensures
        ({
            let after = daemon.with_state(session, next, at);
            &&& !(next is Idle) ==> after.engine.task_of(session) == Some(
                Task { session, state: next, updated_at: at },
            )
            &&& next is Idle ==> after.engine.task_of(session) is None
            &&& other != session ==> after.engine.task_of(other) == daemon.engine.task_of(other)
            &&& follows_known(daemon.journals, after.journals, after.engine)
            &&& after.lifecycle == daemon.lifecycle
            &&& same_but_for_tasks(daemon, after)
        }),
{
    let task = Task { session, state: next, updated_at: at };
    law_changed_task_is_known(daemon.engine, task);
    if other != session {
        law_change_keeps_other_tasks(daemon.engine, task, other);
    }
    law_known_journals_are_kept(daemon.journals, daemon.engine.moved(task));
}

/// What is known of a task after it took on a state is just that, and nothing where it is idle.
pub proof fn law_changed_task_is_known(m: EngineModel, task: Task)
    requires
        m.valid(),
    ensures
        !(task.state is Idle) ==> m.moved(task).task_of(task.session) == Some(task),
        task.state is Idle ==> m.moved(task).task_of(task.session) is None,
{
    let after = m.moved(task);
    engine_laws::law_change_keeps_engine_valid(m, task);
    if task.state is Idle {
        engine_laws::law_cleared_task_is_gone(m, task.session);
    } else {
        task_laws::law_changed_task_is_kept(m, task);
        if exists|i: int| 0 <= i < after.slots.len() && #[trigger] after.slots[i] == Some(task) {
            let i = choose|i: int|
                0 <= i < after.slots.len() && #[trigger] after.slots[i] == Some(task);
            engine_laws::lemma_task_in_slot(after, i);
        } else {
            let k = choose|k: int|
                0 <= k < after.waiting.len() && #[trigger] after.waiting[k] == task;
            engine_laws::lemma_task_in_queue(after, k);
        }
    }
}

/// A change of one task leaves what is known of every other one as it is.
pub proof fn law_change_keeps_other_tasks(m: EngineModel, task: Task, other: Seq<char>)
    requires
        m.valid(),
        other != task.session,
    ensures
        m.moved(task).task_of(other) == m.task_of(other),
{
    let after = m.moved(task);
    engine_laws::law_change_keeps_engine_valid(m, task);
    engine_laws::lemma_places(m, other);
    engine_laws::lemma_places(after, other);
    engine_laws::lemma_places(m, task.session);
    if task.state is Idle {
        if m.tracks(other) {
            engine_laws::law_clearing_keeps_other_tasks(m, task.session, other);
        } else {
            daemon_laws::law_only_removed_tasks_are_gone(m, seq![task.session], other);
            assert(seq![task.session].drop_last() =~= Seq::empty());
            assert(daemon::all_cleared(m, seq![task.session].drop_last()) == m);
            assert(daemon::all_cleared(m, seq![task.session]) == m.cleared(task.session));
        }
    } else {
        task_laws::law_changed_task_is_kept(m, task);
        if m.slot_of(other) is Some {
            let i = m.slot_of(other)->0;
            assert(state::shows(other)(m.slots[i]));
            engine_laws::law_other_tasks_keep_their_keys(m, task, i);
            engine_laws::lemma_task_in_slot(after, i);
        } else if m.place_of(other) is Some {
            let k = m.place_of(other)->0;
            assert(state::is_session(other)(m.waiting[k]));
            assert(after.waiting[k] == m.waiting[k]);
            engine_laws::lemma_task_in_queue(after, k);
        } else {
            if after.slot_of(other) is Some {
                let i = after.slot_of(other)->0;
                assert(state::shows(other)(after.slots[i]));
                assert(!state::shows(other)(m.slots[i]));
            }
            if after.place_of(other) is Some {
                let k = after.place_of(other)->0;
                assert(state::is_session(other)(after.waiting[k]));
                if k < m.waiting.len() {
                    assert(!state::is_session(other)(m.waiting[k]));
                } else {
                    assert(after.waiting[k] == task);
                }
            }
        }
    }
}

/// A light changes with a state exactly where a light is given for it.
pub proof fn law_shown_states_are_lit(daemon: DaemonModel, session: Seq<char>, next: StateKind, at: u64)
    ensures
        daemon.state_shows(session, next) <==> state::relit(
            daemon.config,
            daemon.engine.moved(Task { session, state: next, updated_at: at }),
            daemon.engine.moved_light(session, next),
        ).len() > 0,
{
}

/// The event of one of our tasks puts it in the state that the event leads to. An event that leads
/// to none leaves all tasks as they are.
pub proof fn law_admitted_event_is_followed(
    daemon: DaemonModel,
    message: EventMessage,
    session: Seq<char>,
    at: u64,
)
    requires
        daemon.engine.valid(),
    ensures
        ({
            let after = daemon.hook_admitted(message, session, at);
            let next = wire::state_after(daemon.lifecycle, message, daemon.config);
            &&& daemon.hook_state(message) == next
            &&& next is Some && !(next->0 is Idle) ==> after.engine.task_of(session) == Some(
                Task { session, state: next->0, updated_at: at },
            )
            &&& next is Some && next->0 is Idle ==> after.engine.task_of(session) is None
            &&& next is Some ==> after.engine == daemon.with_state(session, next->0, at).engine
            &&& next is None ==> after.engine == daemon.engine
            &&& after.lifecycle == wire::sessions_after(daemon.lifecycle, message, daemon.config)
            &&& follows_known(daemon.journals, after.journals, after.engine)
            &&& same_but_for_tasks(daemon, after)
        }),
{
    let next = wire::state_after(daemon.lifecycle, message, daemon.config);
    if next is Some {
        law_changed_task_is_known(
            daemon.engine,
            Task { session, state: next->0, updated_at: at },
        );
    }
    law_known_journals_are_kept(
        daemon.journals,
        daemon.hook_admitted(message, session, at).engine,
    );
}

/// The event of a task that is not one of ours leaves all tasks as they are. What hooks told of it
/// is forgotten, a problem with it is noted, and at its end its journal is forgotten too.
pub proof fn law_refused_event_is_forgotten(
    daemon: DaemonModel,
    session: Seq<char>,
    event: Seq<char>,
    error: Option<Seq<char>>,
    other: Seq<char>,
)
    ensures
        ({
            let after = daemon.hook_refused(session, event, error);
            &&& after.engine == daemon.engine
            &&& after.lifecycle == daemon.lifecycle.remove(session)
            &&& same_but_for_tasks(daemon, after)
            &&& error is Some ==> after.journals.last_error == error
            &&& error is None ==> after.journals.last_error == daemon.journals.last_error
            &&& after.journals.sessions_root == daemon.journals.sessions_root
            &&& after.journals.next_poll == daemon.journals.next_poll
            &&& event == "SessionEnd"@ ==> after.journals.readers == daemon.journals.readers.remove(
                session,
            )
            &&& event == "SessionEnd"@ ==> (after.journals.ignored.contains(other) <==> other
                != session && daemon.journals.ignored.contains(other))
            &&& event != "SessionEnd"@ ==> after.journals.readers == daemon.journals.readers
                && after.journals.ignored == daemon.journals.ignored
        }),
{
    law_one_name_is_taken_out(daemon.journals.ignored, session, other);
}

/// Taking a name out of a list takes out that name and no other.
pub proof fn law_one_name_is_taken_out(names: Seq<Seq<char>>, name: Seq<char>, other: Seq<char>)
    ensures
        journal_tracker::without(names, name).contains(other) <==> other != name && names.contains(
            other,
        ),
    decreases names.len(),
{
    if names.len() > 0 {
        let rest = names.drop_last();
        let before = journal_tracker::without(rest, name);
        let now = journal_tracker::without(names, name);
        law_one_name_is_taken_out(rest, name, other);
        if rest.contains(other) {
            assert(names[rest.index_of(other)] == other);
        }
        if names.contains(other) && other != names.last() {
            assert(rest[names.index_of(other)] == other);
        }
        if before.contains(other) && now.len() > before.len() {
            assert(now[before.index_of(other)] == other);
        }
        if now.contains(other) && now.len() > before.len() && other != names.last() {
            assert(before[now.index_of(other)] == other);
        }
        if names.last() == other && other != name {
            assert(names[names.len() - 1] == other);
            assert(now[now.len() - 1] == other);
        }
    }
}

/// A task that is cleared is forgotten everywhere, and no other task is.
pub proof fn law_clearing_forgets_one_task(
    daemon: DaemonModel,
    session: Seq<char>,
    other: Seq<char>,
    i: int,
)
    requires
        daemon.engine.valid(),
    ensures
        ({
            let after = daemon.with_cleared(Some(session));
            &&& after.engine.task_of(session) is None
            &&& other != session ==> after.engine.task_of(other) == daemon.engine.task_of(other)
            &&& after.lifecycle == daemon.lifecycle.remove(session)
            &&& after.journals.readers == daemon.journals.readers.remove(session)
            &&& after.journals.ignored.contains(other) <==> other != session
                && daemon.journals.ignored.contains(other)
            &&& after.journals.sessions_root == daemon.journals.sessions_root
            &&& after.journals.next_poll == daemon.journals.next_poll
            &&& after.journals.last_error == daemon.journals.last_error
            &&& same_but_for_tasks(daemon, after)
            &&& 0 <= i < daemon.engine.slots.len() && daemon.engine.slots[i] is Some
                && daemon.engine.slots[i]->0.session == session ==> daemon.clear_shows(
                Some(session),
            )
            &&& (forall|j: int|
                0 <= j < daemon.engine.slots.len() && (#[trigger] daemon.engine.slots[j]) is Some
                    ==> daemon.engine.slots[j]->0.session != session) ==> !daemon.clear_shows(
                Some(session),
            )
        }),
{
    let m = daemon.engine;
    let task = Task { session, state: StateKind::Idle, updated_at: 0 };
    law_changed_task_is_known(m, task);
    if other != session {
        law_change_keeps_other_tasks(m, task, other);
    }
    law_one_name_is_taken_out(daemon.journals.ignored, session, other);
    engine_laws::lemma_places(m, session);
    if 0 <= i < m.slots.len() && m.slots[i] is Some && m.slots[i]->0.session == session {
        assert(state::shows(session)(m.slots[i]));
        if m.place_of(session) is Some {
            let k = m.place_of(session)->0;
            assert(m.slots[i]->0.session != m.waiting[k].session);
        }
    }
}

/// Where all tasks are cleared, all slots are free, none waits, and nothing is known of any.
pub proof fn law_clearing_all_forgets_everything(daemon: DaemonModel, session: Seq<char>, i: int)
    ensures
        ({
            let after = daemon.with_cleared(None);
            &&& after.engine.slots.len() == daemon.engine.slots.len()
            &&& 0 <= i < after.engine.slots.len() ==> after.engine.slots[i] is None
            &&& after.engine.waiting.len() == 0
            &&& !after.lifecycle.contains_key(session)
            &&& !after.journals.readers.contains_key(session)
            &&& after.journals.ignored.len() == 0
            &&& after.journals.sessions_root == daemon.journals.sessions_root
            &&& after.journals.next_poll == daemon.journals.next_poll
            &&& after.journals.last_error == daemon.journals.last_error
            &&& same_but_for_tasks(daemon, after)
            &&& 0 <= i < daemon.engine.slots.len() && daemon.engine.slots[i] is Some
                ==> daemon.clear_shows(None)
            &&& (forall|j: int|
                0 <= j < daemon.engine.slots.len() ==> (#[trigger] daemon.engine.slots[j]) is None)
                ==> !daemon.clear_shows(None)
        }),
{
    let listed = state::occupied(daemon.engine.slots);
    task_laws::law_slots_in_use_are_listed(daemon.engine.slots);
    if 0 <= i < daemon.engine.slots.len() && daemon.engine.slots[i] is Some {
        assert(listed.contains(i));
    }
    if listed.len() > 0 {
        assert(daemon.engine.slots[listed[0]] is Some);
    }
}

/// Where lights have changed, all slots are lit, bright from then on. Otherwise nothing is lit and
/// the flashing goes on.
pub proof fn law_changed_lights_are_bright(daemon: DaemonModel, now: Instant)
    ensures
        daemon.shown(true, now).flash.bright,
        daemon.shown(true, now).flash.last_toggle == now,
        daemon.shown(true, now).engine == daemon.engine,
        daemon.shown(true, now).lifecycle == daemon.lifecycle,
        daemon.shown(true, now).journals == daemon.journals,
        daemon.shown(true, now).hardware == daemon.hardware,
        daemon.shown(true, now).config == daemon.config,
        daemon.shown(true, now).lighting_mode == daemon.lighting_mode,
        daemon.shown(true, now).watchdog == daemon.watchdog,
        daemon.shown(true, now).persistence == daemon.persistence,
        daemon.shown(true, now).last_config_check == daemon.last_config_check,
        daemon.shown(true, now).config_modified == daemon.config_modified,
        daemon.shown(false, now) == daemon,
        daemon.lights(true) == state::all_lights(daemon.config, daemon.engine),
        daemon.lights(true).len() == daemon.engine.slots.len(),
        daemon.lights(false).len() == 0,
{
}

/// What can be seen is written at once, and what cannot be seen a little later.
pub proof fn law_seen_changes_are_urgent(changed: bool)
    ensures
        daemon::change_request(changed) == StatusWriteRequest::Immediate <==> changed,
        daemon::change_request(changed) == StatusWriteRequest::Deferred <==> !changed,
{
}

/// Two configurations are for the same keyboard and keys.
pub open spec fn same_shape(a: AppConfig, b: AppConfig) -> bool {
    &&& a.behavior.max_sessions == b.behavior.max_sessions
    &&& a.device.slot_keys@ == b.device.slot_keys@
    &&& a.device.vendor_id == b.device.vendor_id
    &&& a.device.product_id == b.device.product_id
    &&& a.device.usage_page == b.device.usage_page
    &&& a.device.usage == b.device.usage
}

/// A new configuration counts from then on. One for the same keyboard and keys leaves the rest as
/// it is. With any other all tasks go, and the keyboard is looked for at once.
pub proof fn law_new_configuration_counts(
    daemon: DaemonModel,
    updated: AppConfig,
    now: Instant,
    i: int,
)
    ensures
        ({
            let after = daemon.with_config(updated, now);
            &&& after.config == updated
            &&& same_shape(daemon.config, updated) ==> after.engine == daemon.engine
                && after.hardware == daemon.hardware
            &&& !same_shape(daemon.config, updated) ==> {
                &&& after.engine.slots.len() == updated.behavior.max_sessions
                &&& 0 <= i < after.engine.slots.len() ==> after.engine.slots[i] is None
                &&& after.engine.waiting.len() == 0
                &&& after.hardware.keyboard is None
                &&& after.hardware.next_retry == now
                &&& after.hardware.last_error == daemon.hardware.last_error
                &&& after.hardware.last_navigation_error == daemon.hardware.last_navigation_error
                &&& after.hardware.failure_count == daemon.hardware.failure_count
                &&& after.hardware.last_failure == daemon.hardware.last_failure
                &&& after.hardware.connection_count == daemon.hardware.connection_count
            }
            &&& after.lifecycle == daemon.lifecycle
            &&& after.journals == daemon.journals
            &&& after.flash == daemon.flash
            &&& after.lighting_mode == daemon.lighting_mode
            &&& after.watchdog == daemon.watchdog
            &&& after.persistence == daemon.persistence
            &&& after.last_config_check == daemon.last_config_check
            &&& after.config_modified == daemon.config_modified
        }),
{
}

/// Of what journals tell of a task, the last counts, with the later of its moment and the one that
/// was known. Tasks that no journal tells of stay as they are.
pub proof fn law_last_told_state_counts(
    m: EngineModel,
    told: Seq<SessionTransition>,
    session: Seq<char>,
    i: int,
)
    requires
        m.valid(),
    ensures
        ({
            let after = daemon::all_reconciled(m, told);
            let last = 0 <= i < told.len() && told[i].session == session && forall|j: int|
                i < j < told.len() ==> (#[trigger] told[j]).session != session;
            &&& last && !(told[i].state is Idle) ==> (after.task_of(session) matches Some(task)
                && task.session == session && task.state == told[i].state && task.updated_at
                >= told[i].occurred_at)
            &&& last && told[i].state is Idle ==> after.task_of(session) is None
            &&& (forall|j: int| 0 <= j < told.len() ==> (#[trigger] told[j]).session != session)
                ==> after.task_of(session) == m.task_of(session)
        }),
    decreases told.len(),
{
    if told.len() > 0 {
        let rest = told.drop_last();
        let before = daemon::all_reconciled(m, rest);
        let newest = told.last();
        let task = Task {
            session: newest.session,
            state: newest.state,
            updated_at: before.not_before(newest.session, newest.occurred_at),
        };
        daemon_laws::lemma_all_reconciled_is_valid(m, rest);
        law_last_told_state_counts(m, rest, session, i);
        law_changed_task_is_known(before, task);
        assert(newest == told[told.len() - 1]);
        if newest.session != session {
            law_change_keeps_other_tasks(before, task, session);
            if 0 <= i < told.len() - 1 {
                assert(rest[i] == told[i]);
                assert forall|j: int| i < j < rest.len() && (forall|j: int|
                    i < j < told.len() ==> (#[trigger] told[j]).session != session) implies (
                #[trigger] rest[j]).session != session by {
                    assert(rest[j] == told[j]);
                }
            }
            assert forall|j: int| 0 <= j < rest.len() && (forall|j: int|
                0 <= j < told.len() ==> (#[trigger] told[j]).session != session) implies (
            #[trigger] rest[j]).session != session by {
                assert(rest[j] == told[j]);
            }
        } else if 0 <= i < told.len() - 1 {
            assert(told[told.len() - 1].session == session);
        }
    }
}

/// The lights that change while tasks are cleared are those of each clearing, in their order.
pub proof fn law_cleared_lights_come_in_turn(
    config: AppConfig,
    m: EngineModel,
    sessions: Seq<Seq<char>>,
    next: Seq<char>,
)
    ensures
        ({
            let before = daemon::all_cleared(m, sessions);
            &&& daemon::clear_lights(config, m, sessions.push(next)) == daemon::clear_lights(
                config,
                m,
                sessions,
            ) + state::relit(config, before.cleared(next), before.cleared_light(next))
            &&& daemon::all_cleared(m, sessions.push(next)) == before.cleared(next)
            &&& daemon::clear_lights(config, m, Seq::empty()).len() == 0
            &&& daemon::all_cleared(m, Seq::empty()) == m
        }),
{
    assert(sessions.push(next).drop_last() =~= sessions);
    assert(sessions.push(next).last() == next);
}

/// The lights that change while tasks take on states are those of each change, in their order.
pub proof fn law_told_lights_come_in_turn(
    config: AppConfig,
    m: EngineModel,
    told: Seq<SessionTransition>,
    next: SessionTransition,
)
    ensures
        ({
            let before = daemon::all_reconciled(m, told);
            &&& daemon::reconcile_lights(config, m, told.push(next)) == daemon::reconcile_lights(
                config,
                m,
                told,
            ) + state::relit(
                config,
                daemon::all_reconciled(m, told.push(next)),
                before.moved_light(next.session, next.state),
            )
            &&& daemon::reconcile_lights(config, m, Seq::empty()).len() == 0
            &&& daemon::all_reconciled(m, Seq::empty()) == m
        }),
{
    assert(told.push(next).drop_last() =~= told);
    assert(told.push(next).last() == next);
}

} // verus!
