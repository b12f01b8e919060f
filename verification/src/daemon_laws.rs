//! What holds of the daemon as a whole, whatever happens.
use vstd::prelude::*;

use crate::config::AppConfig;
use crate::daemon;
use crate::daemon::DaemonModel;
use crate::engine_laws;
use crate::journal_tracker;
use crate::journal_tracker::SessionTransition;
use crate::seqs;
use crate::state;
use crate::state::{EngineModel, StateKind, Task};
use crate::time::Instant;
use crate::wire::EventMessage;

verus! {

/// Clearing tasks keeps the engine valid.
proof fn lemma_all_cleared_is_valid(m: EngineModel, sessions: Seq<Seq<char>>)
    requires
        m.valid(),
    ensures
        daemon::all_cleared(m, sessions).valid(),
        daemon::all_cleared(m, sessions).slots.len() == m.slots.len(),
    decreases sessions.len(),
{
    if sessions.len() > 0 {
        lemma_all_cleared_is_valid(m, sessions.drop_last());
        engine_laws::law_cleared_task_is_gone(
            daemon::all_cleared(m, sessions.drop_last()),
            sessions.last(),
        );
    }
}

/// What journals tell keeps the engine valid.
pub proof fn lemma_all_reconciled_is_valid(m: EngineModel, told: Seq<SessionTransition>)
    requires
        m.valid(),
    ensures
        daemon::all_reconciled(m, told).valid(),
        daemon::all_reconciled(m, told).slots.len() == m.slots.len(),
    decreases told.len(),
{
    if told.len() > 0 {
        lemma_all_reconciled_is_valid(m, told.drop_last());
        let before = daemon::all_reconciled(m, told.drop_last());
        engine_laws::law_change_keeps_engine_valid(
            before,
            Task {
                session: told.last().session,
                state: told.last().state,
                updated_at: before.not_before(told.last().session, told.last().occurred_at),
            },
        );
    }
}

/// Clearing a task brings in no other.
proof fn lemma_clearing_adds_nothing(m: EngineModel, session: Seq<char>, other: Seq<char>)
    requires
        m.valid(),
        m.cleared(session).tracks(other),
    ensures
        m.tracks(other),
{
    let after = m.cleared(session);
    seqs::lemma_first_index(after.slots, state::shows(other));
    seqs::lemma_first_index(after.waiting, state::is_session(other));
    seqs::lemma_first_index(m.slots, state::shows(session));
    seqs::lemma_first_index(m.waiting, state::is_session(session));
    if after.slot_of(other) is Some {
        let i = after.slot_of(other)->0;
        assert(state::shows(other)(after.slots[i]));
        if after.slots[i] == m.slots[i] {
            seqs::lemma_first_exists(m.slots, state::shows(other), i);
        } else {
            assert(after.slots[i] == Some(m.waiting[0]));
            seqs::lemma_first_exists(m.waiting, state::is_session(other), 0);
        }
    } else {
        let k = after.place_of(other)->0;
        assert(state::is_session(other)(after.waiting[k]));
        match m.place_of(session) {
            Some(i) => {
                if k < i {
                    assert(after.waiting[k] == m.waiting[k]);
                    seqs::lemma_first_exists(m.waiting, state::is_session(other), k);
                } else {
                    assert(after.waiting[k] == m.waiting[k + 1]);
                    seqs::lemma_first_exists(m.waiting, state::is_session(other), k + 1);
                }
            },
            None => {
                if m.slot_of(session) is Some && m.waiting.len() > 0 {
                    assert(after.waiting[k] == m.waiting[k + 1]);
                    seqs::lemma_first_exists(m.waiting, state::is_session(other), k + 1);
                } else {
                    assert(after.waiting[k] == m.waiting[k]);
                    seqs::lemma_first_exists(m.waiting, state::is_session(other), k);
                }
            },
        }
    }
}

/// Of the tasks that were tracked, exactly those that were not cleared are left.
proof fn lemma_all_cleared_tracks(m: EngineModel, sessions: Seq<Seq<char>>, other: Seq<char>)
    requires
        m.valid(),
    ensures
        daemon::all_cleared(m, sessions).tracks(other) <==> m.tracks(other) && !sessions.contains(
            other,
        ),
    decreases sessions.len(),
{
    if sessions.len() > 0 {
        let rest = sessions.drop_last();
        let last = sessions.last();
        let before = daemon::all_cleared(m, rest);
        lemma_all_cleared_tracks(m, rest, other);
        lemma_all_cleared_is_valid(m, rest);
        engine_laws::law_cleared_task_is_gone(before, last);
        assert(sessions.contains(other) <==> rest.contains(other) || other == last) by {
            if rest.contains(other) {
                assert(sessions[rest.index_of(other)] == other);
            }
            if other == last {
                assert(sessions[sessions.len() - 1] == other);
            }
            if sessions.contains(other) && other != last {
                assert(rest[sessions.index_of(other)] == other);
            }
        }
        if before.cleared(last).tracks(other) {
            lemma_clearing_adds_nothing(before, last, other);
        } else if before.tracks(other) && other != last {
            engine_laws::law_no_task_is_forgotten(
                before,
                Task { session: last, state: StateKind::Idle, updated_at: 0 },
                other,
            );
        }
    }
}

/// Clearing tasks one after the other takes those away and no others.
pub proof fn law_only_removed_tasks_are_gone(
    m: EngineModel,
    sessions: Seq<Seq<char>>,
    other: Seq<char>,
)
    requires
        m.valid(),
    ensures
        daemon::all_cleared(m, sessions).tracks(other) <==> m.tracks(other) && !sessions.contains(
            other,
        ),
{
    lemma_all_cleared_tracks(m, sessions, other);
}

/// The slots in use are listed.
proof fn lemma_occupied_lists(slots: Seq<Option<Task>>, n: nat, i: int)
    requires
        0 <= i < n <= slots.len(),
        slots[i] is Some,
    ensures
        state::occupied_among(slots, n).contains(i),
    decreases n,
{
    let listed = state::occupied_among(slots, n);
    if i == n - 1 {
        assert(listed.last() == i);
        assert(listed[listed.len() - 1] == i);
    } else {
        lemma_occupied_lists(slots, (n - 1) as nat, i);
        let before = state::occupied_among(slots, (n - 1) as nat);
        let k = before.index_of(i);
        assert(listed[k] == i);
    }
}

/// A task is tracked where it is listed, and nowhere else.
pub proof fn law_tracked_tasks_are_listed(m: EngineModel, session: Seq<char>)
    ensures
        m.tracks(session) <==> m.sessions().contains(session),
{
    let listed = state::occupied(m.slots);
    let shown = listed.map_values(|i: int| m.slots[i]->0.session);
    let queue = m.waiting.map_values(|task: Task| task.session);
    let all = m.sessions();
    seqs::lemma_first_index(m.slots, state::shows(session));
    seqs::lemma_first_index(m.waiting, state::is_session(session));
    if m.slot_of(session) is Some {
        let i = m.slot_of(session)->0;
        assert(state::shows(session)(m.slots[i]));
        lemma_occupied_lists(m.slots, m.slots.len(), i);
        let k = listed.index_of(i);
        assert(shown[k] == session);
        assert(all[k] == session);
    } else if m.place_of(session) is Some {
        let k = m.place_of(session)->0;
        assert(state::is_session(session)(m.waiting[k]));
        assert(queue[k] == session);
        assert(all[shown.len() + k] == session);
    }
    if all.contains(session) {
        let k = all.index_of(session);
        if k < shown.len() {
            state::lemma_occupied_prefix(m.slots, m.slots.len());
            assert(shown[k] == session);
            let i = listed[k];
            seqs::lemma_first_exists(m.slots, state::shows(session), i);
        } else {
            let j = k - shown.len();
            assert(queue[j] == session);
            seqs::lemma_first_exists(m.waiting, state::is_session(session), j);
        }
    }
}

/// The tasks that were not admitted are listed.
proof fn lemma_unadmitted_lists(
    sessions: Seq<Seq<char>>,
    admitted: Set<Seq<char>>,
    session: Seq<char>,
)
    ensures
        daemon::unadmitted(sessions, admitted).contains(session) <==> sessions.contains(session)
            && !admitted.contains(session),
    decreases sessions.len(),
{
    if sessions.len() > 0 {
        let rest = sessions.drop_last();
        let last = sessions.last();
        let before = daemon::unadmitted(rest, admitted);
        let now = daemon::unadmitted(sessions, admitted);
        lemma_unadmitted_lists(rest, admitted, session);
        if rest.contains(session) {
            assert(sessions[rest.index_of(session)] == session);
        }
        if session == last {
            assert(sessions[sessions.len() - 1] == session);
        }
        if sessions.contains(session) && session != last {
            assert(rest[sessions.index_of(session)] == session);
        }
        if !admitted.contains(last) {
            if before.contains(session) {
                assert(now[before.index_of(session)] == session);
            }
            if session == last {
                assert(now[now.len() - 1] == session);
            }
            if now.contains(session) && session != last {
                assert(before[now.index_of(session)] == session);
            }
        }
    }
}

/// After a start only admitted tasks are shown or wait, and every admitted one still does.
pub proof fn law_start_keeps_only_admitted_tasks(
    m: EngineModel,
    admitted: Set<Seq<char>>,
    session: Seq<char>,
)
    requires
        m.valid(),
    ensures
        ({
            let after = daemon::all_cleared(m, daemon::unadmitted(m.sessions(), admitted));
            &&& after.valid()
            &&& after.tracks(session) <==> m.tracks(session) && admitted.contains(session)
        }),
{
    let stale = daemon::unadmitted(m.sessions(), admitted);
    lemma_all_cleared_is_valid(m, stale);
    lemma_all_cleared_tracks(m, stale, session);
    lemma_unadmitted_lists(m.sessions(), admitted, session);
    law_tracked_tasks_are_listed(m, session);
}

/// Clearing tasks leaves what is known of the others as it is.
proof fn lemma_all_cleared_keeps_task(m: EngineModel, sessions: Seq<Seq<char>>, other: Seq<char>)
    requires
        m.valid(),
        m.tracks(other),
        !sessions.contains(other),
    ensures
        daemon::all_cleared(m, sessions).task_of(other) == m.task_of(other),
    decreases sessions.len(),
{
    if sessions.len() > 0 {
        let rest = sessions.drop_last();
        assert(sessions[sessions.len() - 1] != other);
        assert forall|i: int| 0 <= i < rest.len() implies rest[i] != other by {
            assert(sessions[i] != other);
        }
        lemma_all_cleared_keeps_task(m, rest, other);
        lemma_all_cleared_is_valid(m, rest);
        lemma_all_cleared_tracks(m, rest, other);
        engine_laws::law_clearing_keeps_other_tasks(
            daemon::all_cleared(m, rest),
            sessions.last(),
            other,
        );
    }
}

/// Clearing tasks leaves those that still wait in their order.
proof fn lemma_all_cleared_keeps_order(
    m: EngineModel,
    sessions: Seq<Seq<char>>,
    first: Seq<char>,
    second: Seq<char>,
)
    requires
        m.valid(),
        daemon::all_cleared(m, sessions).waits_before(first, second),
    ensures
        m.waits_before(first, second),
    decreases sessions.len(),
{
    if sessions.len() > 0 {
        let rest = sessions.drop_last();
        lemma_all_cleared_is_valid(m, rest);
        engine_laws::law_clearing_keeps_queue_order(
            daemon::all_cleared(m, rest),
            sessions.last(),
            first,
            second,
        );
        lemma_all_cleared_keeps_order(m, rest, first, second);
    }
}

/// After a start an admitted task has the state and the time that it had before.
pub proof fn law_start_keeps_what_is_known(
    m: EngineModel,
    admitted: Set<Seq<char>>,
    session: Seq<char>,
)
    requires
        m.valid(),
        m.tracks(session),
        admitted.contains(session),
    ensures
        daemon::all_cleared(m, daemon::unadmitted(m.sessions(), admitted)).task_of(session)
            == m.task_of(session),
        m.task_of(session) is Some,
{
    lemma_unadmitted_lists(m.sessions(), admitted, session);
    lemma_all_cleared_keeps_task(m, daemon::unadmitted(m.sessions(), admitted), session);
    seqs::lemma_first_index(m.slots, state::shows(session));
}

/// After a start the tasks that still wait do so in the order that they had before.
pub proof fn law_start_keeps_queue_order(
    m: EngineModel,
    admitted: Set<Seq<char>>,
    first: Seq<char>,
    second: Seq<char>,
)
    requires
        m.valid(),
        daemon::all_cleared(m, daemon::unadmitted(m.sessions(), admitted)).waits_before(
            first,
            second,
        ),
    ensures
        m.waits_before(first, second),
{
    lemma_all_cleared_keeps_order(
        m,
        daemon::unadmitted(m.sessions(), admitted),
        first,
        second,
    );
}

/// No message, no press of a G-key and no journal brings the engine out of order.
pub proof fn law_engine_stays_valid(
    daemon: DaemonModel,
    message: EventMessage,
    session: Seq<char>,
    next: StateKind,
    at: u64,
    g_key: int,
    told: Seq<SessionTransition>,
    gone: Seq<Seq<char>>,
)
    requires
        daemon.engine.valid(),
    ensures
        daemon.hook_admitted(message, session, at).engine.valid(),
        daemon.with_state(session, next, at).engine.valid(),
        daemon.with_cleared(Some(session)).engine.valid(),
        daemon.with_cleared(None).engine.valid(),
        daemon.engine.acknowledged(g_key).valid(),
        daemon::all_cleared(daemon::all_reconciled(daemon.engine, told), gone).valid(),
{
    let m = daemon.engine;
    engine_laws::law_change_keeps_engine_valid(m, Task { session, state: next, updated_at: at });
    match daemon.hook_state(message) {
        Some(state) => {
            engine_laws::law_change_keeps_engine_valid(m, Task { session, state, updated_at: at });
        },
        None => {},
    }
    engine_laws::law_cleared_task_is_gone(m, session);
    engine_laws::law_empty_engine_is_valid(m.slots.len(), m);
    engine_laws::law_acknowledgement_keeps_engine_valid(m, g_key);
    lemma_all_reconciled_is_valid(m, told);
    lemma_all_cleared_is_valid(daemon::all_reconciled(m, told), gone);
}

/// A configuration that is taken over leaves the engine in order, with the slots that it asks for.
pub proof fn law_reload_keeps_engine_valid(daemon: DaemonModel, updated: AppConfig, now: Instant)
    requires
        daemon.engine.valid(),
        daemon.engine.slots.len() == daemon.config.behavior.max_sessions,
    ensures
        daemon.with_config(updated, now).engine.valid(),
        daemon.with_config(updated, now).engine.slots.len() == updated.behavior.max_sessions,
        !daemon::shape_changes(daemon.config, updated) ==> daemon.with_config(updated, now).engine
            == daemon.engine,
{
    engine_laws::law_empty_engine_is_valid(
        updated.behavior.max_sessions as nat,
        daemon.engine,
    );
}

/// The event of a task that is not one of ours shows nothing: tasks, lights and keyboard stay.
pub proof fn law_refused_hook_shows_nothing(
    daemon: DaemonModel,
    session: Seq<char>,
    event: Seq<char>,
    error: Option<Seq<char>>,
)
    ensures
        ({
            let after = daemon.hook_refused(session, event, error);
            &&& after.engine == daemon.engine
            &&& after.flash == daemon.flash
            &&& after.hardware == daemon.hardware
            &&& !after.lifecycle.contains_key(session)
        }),
{
}

/// No name is left that was taken out.
proof fn lemma_without(names: Seq<Seq<char>>, name: Seq<char>)
    ensures
        !journal_tracker::without(names, name).contains(name),
    decreases names.len(),
{
    if names.len() > 0 {
        lemma_without(names.drop_last(), name);
        let before = journal_tracker::without(names.drop_last(), name);
        let now = journal_tracker::without(names, name);
        if now.contains(name) {
            let k = now.index_of(name);
            if k < before.len() {
                assert(before[k] == name);
            }
        }
    }
}

/// A task that is cleared is gone from everywhere.
pub proof fn law_cleared_task_leaves_no_trace(daemon: DaemonModel, session: Seq<char>)
    requires
        daemon.engine.valid(),
    ensures
        ({
            let after = daemon.with_cleared(Some(session));
            &&& !after.engine.tracks(session)
            &&& !after.lifecycle.contains_key(session)
            &&& !after.journals.readers.contains_key(session)
            &&& !after.journals.ignored.contains(session)
        }),
{
    engine_laws::law_cleared_task_is_gone(daemon.engine, session);
    lemma_without(daemon.journals.ignored, session);
}

/// Once a task has taken on a state, only journals of tasks that are shown or wait are followed.
pub proof fn law_only_known_journals_are_followed(
    daemon: DaemonModel,
    session: Seq<char>,
    next: StateKind,
    at: u64,
    other: Seq<char>,
)
    ensures
        ({
            let after = daemon.with_state(session, next, at);
            after.journals.readers.contains_key(other) ==> after.engine.tracks(other)
        }),
{
    let after = daemon.with_state(session, next, at);
    law_tracked_tasks_are_listed(after.engine, other);
}

} // verus!
