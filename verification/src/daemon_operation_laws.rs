//! What the operations of the daemon and of the journal tracker do, stated of what goes in and what
//! comes out.
use vstd::prelude::*;

use crate::collections::StringSet;
use crate::config::AppConfig;
use crate::config_laws;
use crate::daemon;
use crate::daemon::{
    changes_shape, judge_probe, prune_unadmitted_sessions, Admission, Daemon, Handled,
    JournalOutcome, ProbeResult, ReloadError, SocketVerdict,
};
use crate::daemon_laws;
use crate::journal_tracker;
use crate::journal_tracker::{
    JournalPoll, JournalTracker, Observation, SessionJournalTransition, SessionTransition,
    TranscriptError,
};
use crate::lighting;
use crate::paths;
use crate::reaction_laws;
use crate::schedule_laws;
use crate::state;
use crate::state::{Engine, LightingChange, StateKind, Task};
use crate::status::StatusWriteRequest;
use crate::task_laws;
use crate::text;
use crate::time::{Duration, Instant};
use crate::wire;
use crate::wire::EventMessage;

verus! {

/// A socket on which something listens is left alone, one on which nothing listens goes, and of any
/// other nothing is known.
pub proof fn law_probed_socket(result: ProbeResult, r: SocketVerdict)
    requires
        call_ensures(judge_probe, (result,), r),
    ensures
        result is Delivered ==> r is AlreadyRunning,
        result is WouldBlock ==> r is AlreadyRunning,
        result is NotFound ==> r is Stale,
        result is Refused ==> r is Stale,
        result is Failed ==> r is Unknown,
{
}

/// The event of one of our tasks puts it in the state that the event leads to. What can be seen of
/// that is lit and written at once.
pub proof fn law_admitted_hook(
    daemon: &mut Daemon,
    message: &EventMessage,
    at: u64,
    now: Instant,
    r: Handled,
    session: Seq<char>,
)
    requires
        call_ensures(Daemon::handle_message, (daemon, message, Admission::Admitted, at, now), r),
        old(daemon)@.engine.valid(),
        *message matches EventMessage::Hook {
            session_id,
            run_id,
            hook_event_name,
            is_subagent,
            tool_name,
            last_assistant_message,
            tool_failed,
            transcript_path,
        } && session_id@ == session && transcript_path is Some,
    ensures
        ({
            let before = old(daemon)@;
            let after = final(daemon)@;
            let next = wire::state_after(before.lifecycle, *message, before.config);
            &&& after.lifecycle == wire::sessions_after(before.lifecycle, *message, before.config)
            &&& next is None ==> after.engine == before.engine && r.request
                == StatusWriteRequest::Unneeded && r.lights@.len() == 0
            &&& next is Some && !(next->0 is Idle) ==> after.engine.task_of(session) == Some(
                Task { session, state: next->0, updated_at: at },
            )
            &&& next is Some && next->0 is Idle ==> after.engine.task_of(session) is None
            &&& r.request == StatusWriteRequest::Immediate ==> after.flash.bright
                && after.flash.last_toggle == now && r.lights@ == state::all_lights(
                after.config,
                after.engine,
            )
            &&& r.request != StatusWriteRequest::Immediate ==> after.flash == before.flash
                && r.lights@.len() == 0
            &&& after.config == before.config
            &&& after.hardware == before.hardware
            &&& r.warning is None
            &&& !r.reload
        }),
{
    reaction_laws::law_admitted_event_is_followed(old(daemon)@, *message, session, at);
}

/// The event of a task that is not one of ours, or that names no journal, shows nothing.
pub proof fn law_refused_hook(
    daemon: &mut Daemon,
    message: &EventMessage,
    admission: Admission,
    at: u64,
    now: Instant,
    r: Handled,
    session: Seq<char>,
)
    requires
        call_ensures(Daemon::handle_message, (daemon, message, admission, at, now), r),
        *message matches EventMessage::Hook {
            session_id,
            run_id,
            hook_event_name,
            is_subagent,
            tool_name,
            last_assistant_message,
            tool_failed,
            transcript_path,
        } && session_id@ == session && (transcript_path is None || !(admission is Admitted)),
    ensures
        final(daemon)@.engine == old(daemon)@.engine,
        final(daemon)@.flash == old(daemon)@.flash,
        final(daemon)@.hardware == old(daemon)@.hardware,
        final(daemon)@.config == old(daemon)@.config,
        final(daemon)@.lifecycle == old(daemon)@.lifecycle.remove(session),
        r.lights@.len() == 0,
        r.request == StatusWriteRequest::Unneeded,
        !r.reload,
        message->transcript_path is None ==> r.warning is None,
        admission is Refused ==> r.warning is None,
{
}

/// A state that is set by hand is that of the task, whatever it was.
pub proof fn law_state_by_hand(
    daemon: &mut Daemon,
    message: &EventMessage,
    admission: Admission,
    at: u64,
    now: Instant,
    r: Handled,
    session: Seq<char>,
    next: StateKind,
    other: Seq<char>,
)
    requires
        call_ensures(Daemon::handle_message, (daemon, message, admission, at, now), r),
        old(daemon)@.engine.valid(),
        *message matches EventMessage::SetState { session_id, state } && session_id@ == session
            && state == next,
    ensures
        ({
            let before = old(daemon)@;
            let after = final(daemon)@;
            &&& !(next is Idle) ==> after.engine.task_of(session) == Some(
                Task { session, state: next, updated_at: at },
            )
            &&& next is Idle ==> after.engine.task_of(session) is None
            &&& other != session ==> after.engine.task_of(other) == before.engine.task_of(other)
            &&& after.lifecycle == before.lifecycle
            &&& r.request == StatusWriteRequest::Immediate || r.request
                == StatusWriteRequest::Deferred
            &&& r.request == StatusWriteRequest::Immediate ==> r.lights@ == state::all_lights(
                after.config,
                after.engine,
            )
            &&& r.request == StatusWriteRequest::Deferred ==> r.lights@.len() == 0
            &&& !r.reload
        }),
{
    reaction_laws::law_set_state_is_taken_on(old(daemon)@, session, next, at, other);
}

/// Clearing a task, or all of them, by hand.
pub proof fn law_clear_by_hand(
    daemon: &mut Daemon,
    message: &EventMessage,
    admission: Admission,
    at: u64,
    now: Instant,
    r: Handled,
    session: Seq<char>,
    i: int,
)
    requires
        call_ensures(Daemon::handle_message, (daemon, message, admission, at, now), r),
        old(daemon)@.engine.valid(),
        *message is Clear,
    ensures
        ({
            let before = old(daemon)@;
            let after = final(daemon)@;
            let all = message->Clear_session_id is None;
            let one = message->Clear_session_id is Some && message->Clear_session_id->0@
                == session;
            &&& all && 0 <= i < after.engine.slots.len() ==> after.engine.slots[i] is None
            &&& all ==> after.engine.waiting.len() == 0 && !after.lifecycle.contains_key(session)
                && !after.journals.readers.contains_key(session)
            &&& one ==> after.engine.task_of(session) is None && !after.lifecycle.contains_key(
                session,
            ) && !after.journals.readers.contains_key(session)
            &&& after.engine.slots.len() == before.engine.slots.len()
            &&& r.request == StatusWriteRequest::Immediate || r.request
                == StatusWriteRequest::Unneeded
            &&& r.request == StatusWriteRequest::Immediate ==> r.lights@ == state::all_lights(
                after.config,
                after.engine,
            )
            &&& r.request == StatusWriteRequest::Unneeded ==> r.lights@.len() == 0
            &&& !r.reload
        }),
{
    reaction_laws::law_clearing_all_forgets_everything(old(daemon)@, session, i);
    reaction_laws::law_clearing_forgets_one_task(old(daemon)@, session, session, i);
}

/// A request to read the configuration anew, or to write the status, changes nothing by itself.
pub proof fn law_plain_requests(
    daemon: &mut Daemon,
    message: &EventMessage,
    admission: Admission,
    at: u64,
    now: Instant,
    r: Handled,
)
    requires
        call_ensures(Daemon::handle_message, (daemon, message, admission, at, now), r),
    ensures
        r.reload <==> *message is Reload,
        *message is Reload || *message is Snapshot ==> final(daemon)@ == old(daemon)@ && r.request
            == StatusWriteRequest::Immediate && r.lights@.len() == 0,
{
}

/// A G-key gives its place to the next task once its own was opened, unless that is at work. One
/// that could not be opened stays, and why is noted.
pub proof fn law_press_is_finished(
    daemon: &mut Daemon,
    g_key: usize,
    error: Option<&str>,
    now: Instant,
    r: Vec<LightingChange>,
)
    requires
        call_ensures(Daemon::finish_press, (daemon, g_key, error, now), r),
        old(daemon)@.engine.valid(),
    ensures
        ({
            let before = old(daemon)@;
            let after = final(daemon)@;
            let slots = before.engine.slots;
            let shown = 1 <= g_key <= slots.len() && slots[g_key - 1] is Some;
            let next = if before.engine.waiting.len() > 0 {
                Some(before.engine.waiting[0])
            } else {
                None
            };
            &&& error is Some ==> after.engine == before.engine && r@.len() == 0
                && after.hardware.last_navigation_error == Some(
                "failed to open G"@ + text::decimal(g_key as nat) + " task: "@ + error->0@,
            )
            &&& error is None ==> after.hardware.last_navigation_error is None
            &&& error is None && shown && !(slots[g_key - 1]->0.state is Working)
                ==> after.engine.slots == slots.update(g_key - 1, next) && r@ == state::all_lights(
                after.config,
                after.engine,
            )
            &&& error is None && (!shown || slots[g_key - 1]->0.state is Working) ==> after.engine
                == before.engine && r@.len() == 0
            &&& after.lifecycle == before.lifecycle
            &&& after.config == before.config
        }),
{
    task_laws::law_pressed_key_shows_the_next_task(
        old(daemon)@.engine,
        old(daemon)@.config,
        g_key as int,
    );
}

/// A look at the journals: each task takes on the last state that its journal tells, tasks whose
/// journals are gone go, and of both nothing more is known from hooks.
pub proof fn law_journals_are_followed(
    daemon: &mut Daemon,
    poll: &JournalPoll,
    now: Instant,
    r: JournalOutcome,
    session: Seq<char>,
    i: int,
)
    requires
        call_ensures(Daemon::apply_journal_poll, (daemon, poll, now), r),
        old(daemon)@.engine.valid(),
        0 <= i < poll.transitions@.len(),
        poll.transitions@[i].session_id@ == session,
        forall|j: int|
            i < j < poll.transitions@.len() ==> (#[trigger] poll.transitions@[j]).session_id@
                != session,
        !(poll.transitions@[i].state is Idle),
        poll.removed_sessions@.len() == 0,
    ensures
        ({
            let told = poll.transitions@[i];
            let after = final(daemon)@;
            &&& after.engine.task_of(session) is Some
            &&& after.engine.task_of(session)->0.state == told.state
            &&& after.engine.task_of(session)->0.updated_at >= told.occurred_at
            &&& !after.lifecycle.contains_key(session)
            &&& r.request == StatusWriteRequest::Immediate || r.request
                == StatusWriteRequest::Deferred
            &&& r.request == StatusWriteRequest::Immediate ==> r.lights@ == state::all_lights(
                after.config,
                after.engine,
            )
            &&& r.request == StatusWriteRequest::Deferred ==> r.lights@.len() == 0
        }),
{
    let told = poll.transitions@.map_values(|t: SessionJournalTransition| t@);
    let named = told.map_values(|t: SessionTransition| t.session);
    let gone = poll.removed_sessions@.map_values(|id: String| id@);
    assert(gone =~= Seq::empty());
    assert(told[i] == poll.transitions@[i]@);
    assert forall|j: int| i < j < told.len() implies (#[trigger] told[j]).session != session by {
        assert(told[j] == poll.transitions@[j]@);
    }
    assert(named[i] == session);
    assert(named.to_set().contains(session));
    reaction_laws::law_last_told_state_counts(old(daemon)@.engine, told, session, i);
}

/// A task whose journal is gone goes too, and that is written at once.
pub proof fn law_gone_journals_take_their_tasks(
    daemon: &mut Daemon,
    poll: &JournalPoll,
    now: Instant,
    r: JournalOutcome,
    session: Seq<char>,
    i: int,
)
    requires
        call_ensures(Daemon::apply_journal_poll, (daemon, poll, now), r),
        old(daemon)@.engine.valid(),
        0 <= i < poll.removed_sessions@.len(),
        poll.removed_sessions@[i]@ == session,
    ensures
        !final(daemon)@.engine.tracks(session),
        !final(daemon)@.lifecycle.contains_key(session),
        r.request == StatusWriteRequest::Immediate,
{
    let told = poll.transitions@.map_values(|t: SessionJournalTransition| t@);
    let gone = poll.removed_sessions@.map_values(|id: String| id@);
    assert(gone[i] == session);
    assert(gone.contains(session));
    assert(gone.to_set().contains(session));
    daemon_laws::lemma_all_reconciled_is_valid(old(daemon)@.engine, told);
    daemon_laws::law_only_removed_tasks_are_gone(
        daemon::all_reconciled(old(daemon)@.engine, told),
        gone,
        session,
    );
}

/// The daemon sleeps a millisecond at least and a quarter of a second at most, and never past a
/// write, a look at the journals or a press.
pub proof fn law_daemon_sleeps(daemon: &Daemon, now: Instant, r: Duration)
    requires
        call_ensures(Daemon::wait_interval, (daemon, now), r),
        now.nanos >= daemon@.flash.last_toggle.nanos,
    ensures
        1_000_000 <= r.nanos <= 250_000_000,
        daemon@.journals.next_poll.nanos <= now.nanos ==> r.nanos == 1_000_000,
        daemon@.journals.next_poll.nanos >= now.nanos + 1_000_000 ==> now.nanos + r.nanos
            <= daemon@.journals.next_poll.nanos,
        daemon@.persistence.deadline matches Some(due) ==> due.nanos >= now.nanos + 1_000_000
            ==> now.nanos + r.nanos <= due.nanos,
        daemon@.hardware.keyboard is Some && daemon@.hardware.keyboard->0.navigates() ==> r.nanos
            <= 25_000_000,
{
    schedule_laws::law_nothing_is_slept_through(daemon@, now);
}

/// A configuration that breaks a limit is refused and changes nothing. Any other is taken over, and
/// where it is for another keyboard or other keys all tasks go.
pub proof fn law_configuration_is_taken_over(
    daemon: &mut Daemon,
    updated: AppConfig,
    minute: Option<u16>,
    now: Instant,
    r: Result<(), ReloadError>,
    i: int,
)
    requires
        call_ensures(Daemon::reload_config, (daemon, updated, minute, now), r),
    ensures
        ({
            let before = old(daemon)@;
            let after = final(daemon)@;
            let usable = config_laws::keys_are_right(updated) && config_laws::tasks_are_right(
                updated,
            ) && config_laws::numbers_are_right(updated) && config_laws::timeout_is_right(updated)
                && config_laws::flashing_is_right(updated) && config_laws::dimming_is_right(
                updated,
            );
            &&& !usable ==> after == before && r is Err && r->Err_0 is Invalid
            &&& usable && minute is None ==> r is Err && r->Err_0 is NoClock
            &&& usable && minute is Some ==> r is Ok && after.flash.bright
                && after.flash.last_toggle == now && after.lighting_mode.mode == lighting::mode_at(
                updated.lighting,
                minute->0,
            )
            &&& usable ==> after.config == updated && after.lighting_mode.last_checked == now
            &&& usable && reaction_laws::same_shape(before.config, updated) ==> after.engine
                == before.engine && after.hardware == before.hardware
            &&& usable && !reaction_laws::same_shape(before.config, updated)
                ==> after.engine.slots.len() == updated.behavior.max_sessions
                && after.engine.waiting.len() == 0 && after.hardware.keyboard is None
                && after.hardware.next_retry == now
            &&& usable && !reaction_laws::same_shape(before.config, updated) && 0 <= i
                < after.engine.slots.len() ==> after.engine.slots[i] is None
        }),
{
    config_laws::law_every_limit_is_checked(updated);
    reaction_laws::law_new_configuration_counts(old(daemon)@, updated, now, i);
}

/// A configuration is looked at every five seconds, and the lights are written anew at the
/// configured interval.
pub proof fn law_daemon_looks_in_time(
    daemon: &mut Daemon,
    now: Instant,
    r: bool,
)
    requires
        call_ensures(Daemon::config_check_due, (daemon, now), r),
    ensures
        r <==> now.nanos >= old(daemon)@.last_config_check.nanos + 5_000_000_000,
        r ==> final(daemon)@.last_config_check == now,
        !r ==> final(daemon)@ == old(daemon)@,
        final(daemon)@.engine == old(daemon)@.engine,
{
    schedule_laws::law_how_often_things_are_looked_at(old(daemon)@.last_config_check, now);
}

/// Two configurations differ in shape exactly where they are for other keyboards or other keys.
pub proof fn law_shape_changes(current: &AppConfig, updated: &AppConfig, r: bool)
    requires
        call_ensures(changes_shape, (current, updated), r),
    ensures
        r <==> !reaction_laws::same_shape(*current, *updated),
{
}

/// After a start only admitted tasks are left, and every admitted one is.
pub proof fn law_tasks_are_pruned(
    engine: &mut Engine,
    admitted: &StringSet,
    config: &AppConfig,
    r: (),
    session: Seq<char>,
)
    requires
        call_ensures(prune_unadmitted_sessions, (engine, admitted, config), r),
        old(engine)@.valid(),
    ensures
        final(engine)@.tracks(session) <==> old(engine)@.tracks(session) && admitted@.contains(
            session,
        ),
{
    daemon_laws::law_start_keeps_only_admitted_tasks(old(engine)@, admitted@, session);
}

/// A journal that a hook names is followed from its end where it is the right one of a desktop task,
/// and its task is remembered as no concern of ours where it is not.
pub proof fn law_journal_is_registered(
    tracker: &mut JournalTracker,
    session: &str,
    root: &str,
    path: &str,
    top_level: bool,
    length: u64,
    r: Result<bool, TranscriptError>,
)
    requires
        call_ensures(
            JournalTracker::register_live,
            (tracker, session, root, path, top_level, length),
            r,
        ),
        !old(tracker)@.ignored.contains(session@),
        !old(tracker)@.readers.contains_key(session@),
    ensures
        ({
            let after = final(tracker)@;
            let inside = paths::lies_under(path@, root@);
            let name = paths::file_name_of(path@);
            let right = inside && name is Some && journal_tracker::is_transcript_name(
                name->0,
                session@,
            );
            &&& !inside ==> r == Err::<bool, TranscriptError>(TranscriptError::OutsideSessions)
            &&& inside && !right ==> r == Err::<bool, TranscriptError>(
                TranscriptError::OtherSession,
            )
            &&& !right ==> after == old(tracker)@
            &&& right ==> r == Ok::<bool, TranscriptError>(top_level)
            &&& right && top_level ==> after.readers.contains_key(session@)
                && after.readers[session@].path == path@ && after.readers[session@].reader.offset
                == length && after.ignored == old(tracker)@.ignored
            &&& right && !top_level ==> after.readers == old(tracker)@.readers
                && after.ignored.contains(session@)
        }),
{
    let before = old(tracker)@;
    let grown = before.ignored.push(session@);
    assert(grown[grown.len() - 1] == session@);
    let kept = journal_tracker::newest(grown);
    assert(kept[kept.len() - 1] == session@);
}

/// Journals are looked at four times a second, and not before.
pub proof fn law_journals_are_polled_in_time(
    tracker: &mut JournalTracker,
    now: Instant,
    seen: &Vec<Observation>,
    config: &AppConfig,
    r: JournalPoll,
)
    requires
        call_ensures(JournalTracker::poll_if_due, (tracker, now, seen, config), r),
    ensures
        now.nanos < old(tracker)@.next_poll.nanos ==> final(tracker)@ == old(tracker)@
            && r.transitions@.len() == 0 && r.removed_sessions@.len() == 0,
        now.nanos >= old(tracker)@.next_poll.nanos ==> final(tracker)@.next_poll.nanos == now.nanos
            + 250_000_000,
{
}

/// What the journals tell, which are gone, and what went wrong comes from looking at one after the
/// other.
pub proof fn law_polled_journals_are_told(
    tracker: &mut JournalTracker,
    now: Instant,
    seen: &Vec<Observation>,
    config: &AppConfig,
    r: JournalPoll,
    k: int,
)
    requires
        call_ensures(JournalTracker::poll_if_due, (tracker, now, seen, config), r),
        now.nanos >= old(tracker)@.next_poll.nanos,
    ensures
        ({
            let end = journal_tracker::nothing_polled(old(tracker)@).with_observations(
                seen@,
                *config,
            );
            &&& r.transitions@.len() == end.transitions.len()
            &&& 0 <= k < r.transitions@.len() ==> r.transitions@[k].session_id@
                == end.transitions[k].session && r.transitions@[k].state
                == end.transitions[k].state && r.transitions@[k].occurred_at
                == end.transitions[k].occurred_at
            &&& r.removed_sessions@.len() == end.removed.len()
            &&& 0 <= k < r.removed_sessions@.len() ==> r.removed_sessions@[k]@ == end.removed[k]
            &&& final(tracker)@.readers == end.tracker.readers
            &&& final(tracker)@.ignored == end.tracker.ignored
            &&& end.errors.len() == 0 ==> final(tracker)@.last_error is None && r.warning is None
            &&& end.errors.len() > 0 ==> final(tracker)@.last_error is Some
        }),
{
    let end = journal_tracker::nothing_polled(old(tracker)@).with_observations(seen@, *config);
    let told = r.transitions@.map_values(|t: SessionJournalTransition| t@);
    let gone = r.removed_sessions@.map_values(|session: String| session@);
    assert(told == end.transitions);
    assert(gone == end.removed);
    assert(told.len() == r.transitions@.len());
    assert(gone.len() == r.removed_sessions@.len());
    if 0 <= k < r.transitions@.len() {
        assert(told[k] == r.transitions@[k]@);
    }
    if 0 <= k < r.removed_sessions@.len() {
        assert(gone[k] == r.removed_sessions@[k]@);
    }
}

/// A journal of a task that is cleared is not followed, and the task may be looked at again.
pub proof fn law_cleared_journal_is_forgotten(
    tracker: &mut JournalTracker,
    session: Option<&str>,
    r: (),
    other: Seq<char>,
)
    requires
        call_ensures(JournalTracker::clear, (tracker, session), r),
    ensures
        session is None ==> !final(tracker)@.readers.contains_key(other)
            && final(tracker)@.ignored.len() == 0,
        session is Some ==> !final(tracker)@.readers.contains_key(session->0@)
            && !final(tracker)@.ignored.contains(session->0@),
        session is Some && other != session->0@ ==> final(tracker)@.readers.contains_key(other)
            == old(tracker)@.readers.contains_key(other) && final(tracker)@.ignored.contains(other)
            == old(tracker)@.ignored.contains(other),
{
    if session is Some {
        reaction_laws::law_one_name_is_taken_out(
            old(tracker)@.ignored,
            session->0@,
            session->0@,
        );
        reaction_laws::law_one_name_is_taken_out(old(tracker)@.ignored, session->0@, other);
    }
}

} // verus!
