//! What holds of the tasks as a whole, whatever events arrive.
use vstd::prelude::*;

use crate::collections;
use crate::config::AppConfig;
use crate::message_laws;
use crate::state::StateKind;
use crate::text;
use crate::wire;
use crate::wire::{Activity, EventMessage};

verus! {

/// The message is the event `event` of the run `run` in the task `session`.
pub open spec fn is_event(
    message: EventMessage,
    session: Seq<char>,
    run: Seq<char>,
    event: Seq<char>,
    subagent: bool,
) -> bool {
    message matches EventMessage::Hook {
        session_id,
        run_id,
        hook_event_name,
        is_subagent,
        tool_name,
        last_assistant_message,
        tool_failed,
        transcript_path,
    } && session_id@ == session && run_id@ == run && hook_event_name@ == event && is_subagent
        == subagent
}

/// An event of one task leaves what is known of every other task as it is.
pub proof fn law_other_tasks_are_untouched(
    sessions: Map<Seq<char>, Activity>,
    message: EventMessage,
    config: AppConfig,
    other: Seq<char>,
)
    requires
        message matches EventMessage::Hook {
            session_id,
            run_id,
            hook_event_name,
            is_subagent,
            tool_name,
            last_assistant_message,
            tool_failed,
            transcript_path,
        } ==> session_id@ != other,
    ensures
        ({
            let after = wire::sessions_after(sessions, message, config);
            &&& after.contains_key(other) == sessions.contains_key(other)
            &&& wire::activity_of(after, other) == wire::activity_of(sessions, other)
        }),
{
}

/// The end of a subagent's run does not finish its task: while another run is at work and none
/// waits, the task stays at work, and that run stays known.
pub proof fn law_subagent_never_finishes_its_task(
    sessions: Map<Seq<char>, Activity>,
    message: EventMessage,
    config: AppConfig,
    session: Seq<char>,
    run: Seq<char>,
    event: Seq<char>,
    other: Seq<char>,
)
    requires
        is_event(message, session, run, event, true),
        event == "SubagentStop"@ || event == "Stop"@,
        sessions.contains_key(session),
        sessions[session].active.contains(other),
        other != run,
        sessions[session].waiting.remove(run) == Map::<Seq<char>, StateKind>::empty(),
    ensures
        wire::state_after(sessions, message, config) == Some(config.events.user_prompt_submit),
        wire::sessions_after(sessions, message, config).contains_key(session),
        wire::sessions_after(sessions, message, config)[session].active.contains(other),
{
    wire::lemma_event_names_differ();
    let after = sessions[session].without(run);
    assert(after.active.contains(other));
    assert(after != Activity::none());
    assert(!after.has_waiting(StateKind::Approval));
    assert(!after.has_waiting(StateKind::Requested));
}

/// An approval that one run waits for outlives what other runs of the task do: no event of another
/// run, short of a new prompt or the end of the task, shows anything else.
pub proof fn law_approval_outlives_other_runs(
    sessions: Map<Seq<char>, Activity>,
    message: EventMessage,
    config: AppConfig,
    session: Seq<char>,
    run: Seq<char>,
    event: Seq<char>,
    subagent: bool,
    other: Seq<char>,
)
    requires
        is_event(message, session, run, event, subagent),
        !wire::ends_task(event, subagent),
        event != "UserPromptSubmit"@,
        other != run,
        sessions.contains_key(session),
        sessions[session].waiting.contains_key(other),
        sessions[session].waiting[other] == StateKind::Approval,
    ensures
        wire::state_after(sessions, message, config) matches Some(state) ==> state
            == StateKind::Approval,
        wire::sessions_after(sessions, message, config).contains_key(session),
        wire::sessions_after(sessions, message, config)[session].waiting.contains_key(other),
        wire::sessions_after(sessions, message, config)[session].waiting[other]
            == StateKind::Approval,
{
    lemma_waiting_is_kept(sessions, message, config, session, run, event, subagent, other);
}

/// A request that one run waits for is hidden by nothing but an approval.
pub proof fn law_request_outlives_other_runs(
    sessions: Map<Seq<char>, Activity>,
    message: EventMessage,
    config: AppConfig,
    session: Seq<char>,
    run: Seq<char>,
    event: Seq<char>,
    subagent: bool,
    other: Seq<char>,
)
    requires
        is_event(message, session, run, event, subagent),
        !wire::ends_task(event, subagent),
        event != "UserPromptSubmit"@,
        other != run,
        sessions.contains_key(session),
        sessions[session].waiting.contains_key(other),
        sessions[session].waiting[other] == StateKind::Requested,
    ensures
        wire::state_after(sessions, message, config) matches Some(state) ==> state
            == StateKind::Approval || state == StateKind::Requested,
        wire::sessions_after(sessions, message, config).contains_key(session),
        wire::sessions_after(sessions, message, config)[session].waiting.contains_key(other),
        wire::sessions_after(sessions, message, config)[session].waiting[other]
            == StateKind::Requested,
{
    lemma_waiting_is_kept(sessions, message, config, session, run, event, subagent, other);
}

/// What one run waits for is kept through the events of other runs, and shows in their states.
proof fn lemma_waiting_is_kept(
    sessions: Map<Seq<char>, Activity>,
    message: EventMessage,
    config: AppConfig,
    session: Seq<char>,
    run: Seq<char>,
    event: Seq<char>,
    subagent: bool,
    other: Seq<char>,
)
    requires
        is_event(message, session, run, event, subagent),
        !wire::ends_task(event, subagent),
        event != "UserPromptSubmit"@,
        other != run,
        sessions.contains_key(session),
        sessions[session].waiting.contains_key(other),
    ensures
        ({
            let after = wire::sessions_after(sessions, message, config);
            let kept = sessions[session].waiting[other];
            &&& after.contains_key(session)
            &&& after[session].waiting.contains_key(other)
            &&& after[session].waiting[other] == kept
            &&& wire::state_after(sessions, message, config) matches Some(state) ==> exists|
                fallback: StateKind,
            | state == #[trigger] after[session].state_or(fallback)
        }),
{
    wire::lemma_event_names_differ();
    let before = sessions[session];
    let after = wire::sessions_after(sessions, message, config);
    if wire::ends_run(event, subagent) {
        let next = before.without(run);
        assert(next.waiting.contains_key(other));
        assert(next != Activity::none());
        assert(after[session] == next);
        assert(wire::state_after(sessions, message, config) == Some(
            after[session].state_or(config.events.user_prompt_submit),
        ));
    }
}

/// A failed tool leaves its task at work, unless the configuration says otherwise or a run waits.
pub proof fn law_failed_tool_leaves_task_at_work(
    sessions: Map<Seq<char>, Activity>,
    message: EventMessage,
    config: AppConfig,
    session: Seq<char>,
    run: Seq<char>,
    subagent: bool,
)
    requires
        is_event(message, session, run, "PostToolUse"@, subagent),
        config.events.post_tool_failure == StateKind::Working,
        config.events.post_tool_success == StateKind::Working,
        wire::activity_of(sessions, session).waiting.remove(run)
            == Map::<Seq<char>, StateKind>::empty(),
    ensures
        wire::state_after(sessions, message, config) == Some(StateKind::Working),
{
    wire::lemma_event_names_differ();
    let after = wire::activity_of(sessions, session).with_active(run).without_waiting(run);
    assert(!after.has_waiting(StateKind::Approval));
    assert(!after.has_waiting(StateKind::Requested));
}

/// A run whose tool goes on does not wait any more.
pub proof fn law_resumed_run_stops_waiting(
    sessions: Map<Seq<char>, Activity>,
    message: EventMessage,
    config: AppConfig,
    session: Seq<char>,
    run: Seq<char>,
    subagent: bool,
)
    requires
        is_event(message, session, run, "PostToolUse"@, subagent),
    ensures
        ({
            let after = wire::sessions_after(sessions, message, config);
            &&& after.contains_key(session)
            &&& after[session].active.contains(run)
            &&& !after[session].waiting.contains_key(run)
        }),
{
    wire::lemma_event_names_differ();
}

/// A prompt starts a task afresh: one run, nothing to wait for.
pub proof fn law_prompt_starts_afresh(
    sessions: Map<Seq<char>, Activity>,
    message: EventMessage,
    config: AppConfig,
    session: Seq<char>,
    run: Seq<char>,
)
    requires
        is_event(message, session, run, "UserPromptSubmit"@, false),
    ensures
        wire::sessions_after(sessions, message, config)[session] == Activity::none().with_active(
            run,
        ),
        wire::state_after(sessions, message, config) == Some(config.events.user_prompt_submit),
{
    wire::lemma_event_names_differ();
    let after = Activity::none().with_active(run);
    assert(!after.has_waiting(StateKind::Approval));
    assert(!after.has_waiting(StateKind::Requested));
}

/// The end of a task or of its session forgets its runs. The end of a session shows no state of
/// its own, so that a result not yet looked at stays.
pub proof fn law_end_forgets_task(
    sessions: Map<Seq<char>, Activity>,
    message: EventMessage,
    config: AppConfig,
    session: Seq<char>,
    run: Seq<char>,
    event: Seq<char>,
    subagent: bool,
)
    requires
        is_event(message, session, run, event, subagent),
        event == "Stop"@ && !subagent || event == "SessionEnd"@,
    ensures
        !wire::sessions_after(sessions, message, config).contains_key(session),
        event == "SessionEnd"@ ==> wire::state_after(sessions, message, config) is None,
        event == "Stop"@ ==> wire::state_after(sessions, message, config) is Some,
{
    wire::lemma_event_names_differ();
}

/// Where the last paragraph begins: behind an empty line, with no other one behind that.
pub proof fn lemma_paragraph_start(s: Seq<char>, n: int)
    requires
        0 <= n <= s.len(),
    ensures
        ({
            let start = wire::paragraph_start(s, n);
            &&& 0 <= start <= n
            &&& start > 0 ==> start >= 2 && s[start - 1] == '\n' && s[start - 2] == '\n'
            &&& forall|k: int|
                start < k <= n && k >= 2 ==> !(#[trigger] s[k - 1] == '\n' && s[k - 2] == '\n')
        }),
    decreases n,
{
    if n >= 2 && !(s[n - 1] == '\n' && s[n - 2] == '\n') {
        lemma_paragraph_start(s, n - 1);
    }
}

/// There is no empty line in `s`.
pub open spec fn is_one_paragraph(s: Seq<char>) -> bool {
    forall|k: int| 1 <= k < s.len() ==> !(#[trigger] s[k] == '\n' && s[k - 1] == '\n')
}

/// The last paragraph that is not blank is the last paragraph.
#[verifier::spinoff_prover]
#[verifier::rlimit(60)]
proof fn lemma_last_paragraph(before: Seq<char>, paragraph: Seq<char>, after: Seq<char>)
    requires
        is_one_paragraph(paragraph),
        !text::is_blank(paragraph),
        text::is_blank(after),
    ensures
        wire::last_paragraph(before + seq!['\n', '\n'] + paragraph + after) == text::trimmed(
            paragraph,
        ),
        wire::last_paragraph(paragraph) == text::trimmed(paragraph),
        text::trimmed(paragraph).len() > 0,
        text::trimmed(before + seq!['\n', '\n'] + paragraph + after).len() > 0,
{
    let gap = seq!['\n', '\n'];
    let message = before + gap + paragraph + after;
    let at = text::blank_start(paragraph);
    let lead = paragraph.take(at);
    let body = text::trimmed_start(paragraph);
    let core = text::trimmed(paragraph);
    text::lemma_trimmed_start(paragraph);
    text::lemma_trimmed_end(body);
    let tail = body.skip(core.len() as int);
    assert(paragraph =~= lead + core + tail);
    if core.len() == 0 {
        assert forall|i: int| 0 <= i < paragraph.len() implies text::is_space(
            #[trigger] paragraph[i],
        ) by {
            if i < lead.len() {
                assert(text::is_space(lead[i]));
            } else {
                assert(text::is_space(tail[i - lead.len()]));
            }
        }
    }
    assert(core[0] == body[0]);
    assert(text::is_space('\n'));
    // The paragraph alone.
    lemma_paragraph_start(core, core.len() as int);
    let alone = wire::paragraph_start(core, core.len() as int);
    if alone > 0 {
        assert(paragraph[lead.len() + alone - 1] == core[alone - 1]);
        assert(paragraph[lead.len() + alone - 2] == core[alone - 2]);
    }
    assert(core.skip(0) =~= core);
    text::lemma_trimmed(Seq::empty(), core, Seq::empty());
    assert(Seq::<char>::empty() + core + Seq::<char>::empty() =~= core);
    // The paragraph after others.
    let head = before + gap + lead;
    let rest = tail + after;
    assert forall|i: int| 0 <= i < rest.len() implies text::is_space(#[trigger] rest[i]) by {
        if i < tail.len() {
            assert(text::is_space(tail[i]));
        } else {
            assert(text::is_space(after[i - tail.len()]));
        }
    }
    text::lemma_trimmed_start(head);
    let skipped = text::blank_start(head);
    let shown = text::trimmed_start(head);
    let blank = head.take(skipped);
    let whole = shown + core;
    assert(message =~= blank + whole + rest);
    assert(whole.last() == core.last());
    if shown.len() == 0 {
        assert(whole[0] == core[0]);
    } else {
        assert(whole[0] == shown[0]);
    }
    text::lemma_trimmed(blank, whole, rest);
    assert(text::trimmed(message) == whole);
    lemma_paragraph_start(whole, whole.len() as int);
    let start = wire::paragraph_start(whole, whole.len() as int);
    if start > shown.len() {
        // The empty line would lie in the paragraph.
        assert(whole[start - 1] == core[start - 1 - shown.len()]);
        if start - 1 == shown.len() {
            assert(core[0] == '\n');
        } else {
            assert(whole[start - 2] == core[start - 2 - shown.len()]);
            let k = lead.len() + start - 1 - shown.len();
            assert(paragraph[k] == '\n' && paragraph[k - 1] == '\n');
        }
    }
    if shown.len() > 0 {
        // The white space between the paragraphs is not taken off at the beginning.
        let kept = before.len() - skipped;
        assert(skipped < before.len()) by {
            if skipped >= before.len() {
                let i = skipped;
                assert(head[i] == shown[0]);
                if i < before.len() + 2 {
                    assert(head[i] == gap[i - before.len()]);
                } else {
                    assert(head[i] == lead[i - before.len() - 2]);
                }
            }
        }
        let end = before.len() as int;
        assert(shown[kept] == head[end] && shown[kept + 1] == head[end + 1]);
        assert(head[end] == gap[0] && head[end + 1] == gap[1]);
        assert(whole[kept + 1] == '\n' && whole[kept] == '\n');
        assert(start >= kept + 2) by {
            if start < kept + 2 {
                assert(whole[kept + 2 - 1] == '\n' && whole[kept + 2 - 2] == '\n');
            }
        }
        let between = shown.skip(start);
        assert forall|i: int| 0 <= i < between.len() implies text::is_space(
            #[trigger] between[i],
        ) by {
            let j = start + i - kept - 2;
            assert(between[i] == shown[start + i]);
            assert(shown[start + i] == head[skipped + start + i]);
            assert(head[skipped + start + i] == lead[j]);
            assert(text::is_space(lead[j]));
        }
        assert(whole.skip(start) =~= between + core + Seq::<char>::empty());
        text::lemma_trimmed(between, core, Seq::empty());
    } else {
        assert(start == 0);
        assert(whole.skip(0) =~= core);
    }
}

/// Only the last paragraph that is not blank decides whether a message asks the user for something.
pub proof fn law_only_last_paragraph_asks(
    before: Seq<char>,
    paragraph: Seq<char>,
    after: Seq<char>,
)
    requires
        is_one_paragraph(paragraph),
        !text::is_blank(paragraph),
        text::is_blank(after),
    ensures
        wire::asks_user(before + seq!['\n', '\n'] + paragraph + after) == wire::asks_user(paragraph),
{
    lemma_last_paragraph(before, paragraph, after);
}

/// The runs of a task that are known to be at work.
pub open spec fn runs_at_work(sessions: Map<Seq<char>, Activity>, session: Seq<char>) -> Set<
    Seq<char>,
> {
    if sessions.contains_key(session) {
        sessions[session].active
    } else {
        Set::empty()
    }
}

/// What the runs of a task wait for.
pub open spec fn runs_waiting(sessions: Map<Seq<char>, Activity>, session: Seq<char>) -> Map<
    Seq<char>,
    StateKind,
> {
    if sessions.contains_key(session) {
        sessions[session].waiting
    } else {
        Map::empty()
    }
}

/// Some run waits in the state `state`.
pub open spec fn one_waits(waiting: Map<Seq<char>, StateKind>, state: StateKind) -> bool {
    exists|run: Seq<char>| waiting.contains_key(run) && #[trigger] waiting[run] == state
}

/// The state shows what the runs wait for: an approval before a request, a request before anything
/// else, then what the first of the runs waits for, and `otherwise` where none waits.
pub open spec fn is_shown(
    waiting: Map<Seq<char>, StateKind>,
    otherwise: StateKind,
    state: StateKind,
) -> bool {
    &&& one_waits(waiting, StateKind::Approval) ==> state == StateKind::Approval
    &&& !one_waits(waiting, StateKind::Approval) && one_waits(waiting, StateKind::Requested)
        ==> state == StateKind::Requested
    &&& !one_waits(waiting, StateKind::Approval) && !one_waits(waiting, StateKind::Requested)
        && waiting.dom() != Set::<Seq<char>>::empty() ==> exists|run: Seq<char>|
        waiting.contains_key(run) && #[trigger] waiting[run] == state && forall|other: Seq<char>|
            waiting.contains_key(other) ==> !text::text_less(other, run)
    &&& waiting.dom() == Set::<Seq<char>>::empty() ==> state == otherwise
}

/// The state of a task shows what its runs wait for.
pub proof fn law_waiting_runs_decide(activity: Activity, otherwise: StateKind)
    requires
        activity.waiting.dom().finite(),
    ensures
        is_shown(activity.waiting, otherwise, activity.state_or(otherwise)),
{
    let waiting = activity.waiting;
    assert(activity.has_waiting(StateKind::Approval) == one_waits(waiting, StateKind::Approval));
    assert(activity.has_waiting(StateKind::Requested) == one_waits(waiting, StateKind::Requested));
    if waiting.dom() =~= Set::<Seq<char>>::empty() {
        assert(waiting =~= Map::<Seq<char>, StateKind>::empty());
        assert(waiting == Map::<Seq<char>, StateKind>::empty());
    } else {
        let some = waiting.dom().choose();
        assert(waiting.contains_key(some));
        assert(waiting != Map::<Seq<char>, StateKind>::empty());
        collections::law_some_key_comes_first(waiting, some);
        let first = choose|run: Seq<char>| #[trigger] collections::is_first_key(waiting, run);
        assert(collections::is_first_key(waiting, first));
        assert(waiting[first] == waiting[first]);
    }
}

/// A tool asks the user for input: its name ends so, in either case.
pub open spec fn asks_for_input(tool: Seq<char>) -> bool {
    message_laws::says_at(tool, "request_user_input"@, tool.len() - "request_user_input"@.len())
}

/// The message is that of the event `event`, with this tool and this outcome.
pub open spec fn is_tool_event(
    message: EventMessage,
    session: Seq<char>,
    run: Seq<char>,
    event: Seq<char>,
    tool: Option<Seq<char>>,
    failed: bool,
) -> bool {
    message matches EventMessage::Hook {
        session_id,
        run_id,
        hook_event_name,
        is_subagent,
        tool_name,
        last_assistant_message,
        tool_failed,
        transcript_path,
    } && session_id@ == session && run_id@ == run && hook_event_name@ == event && wire::chars_in(
        tool_name,
    ) == tool && tool_failed == failed
}

/// After a message the runs of the task are these, and the state shows what they wait for.
pub open spec fn comes_to(
    sessions: Map<Seq<char>, Activity>,
    message: EventMessage,
    config: AppConfig,
    session: Seq<char>,
    active: Set<Seq<char>>,
    waiting: Map<Seq<char>, StateKind>,
    otherwise: StateKind,
) -> bool {
    let after = wire::sessions_after(sessions, message, config);
    &&& after.contains_key(session)
    &&& after[session].active == active
    &&& after[session].waiting == waiting
    &&& waiting.dom().finite() ==> (wire::state_after(sessions, message, config) matches Some(state)
        && is_shown(waiting, otherwise, state))
}

/// A tool that does not ask the user ends the waiting of its run: the run is at work and waits for
/// nothing, and where no other run waits, neither does the task.
pub proof fn law_next_tool_ends_waiting(
    sessions: Map<Seq<char>, Activity>,
    message: EventMessage,
    config: AppConfig,
    session: Seq<char>,
    run: Seq<char>,
    tool: Option<Seq<char>>,
    failed: bool,
)
    requires
        is_tool_event(message, session, run, "PreToolUse"@, tool, failed),
        tool matches Some(name) ==> !asks_for_input(name),
    ensures
        comes_to(
            sessions,
            message,
            config,
            session,
            runs_at_work(sessions, session).insert(run),
            runs_waiting(sessions, session).remove(run),
            config.events.user_prompt_submit,
        ),
        (forall|other: Seq<char>|
            runs_waiting(sessions, session).contains_key(other) ==> other == run)
            ==> wire::state_after(sessions, message, config) == Some(
            config.events.user_prompt_submit,
        ),
{
    wire::lemma_event_names_differ();
    lemma_input_tool(tool);
    let after = wire::sessions_after(sessions, message, config)[session];
    let waiting = runs_waiting(sessions, session).remove(run);
    assert(after.waiting =~= waiting);
    if after.waiting.dom().finite() {
        law_waiting_runs_decide(after, config.events.user_prompt_submit);
    }
    if forall|other: Seq<char>|
        runs_waiting(sessions, session).contains_key(other) ==> other == run {
        assert(waiting =~= Map::<Seq<char>, StateKind>::empty());
        assert(!after.has_waiting(StateKind::Approval));
        assert(!after.has_waiting(StateKind::Requested));
    }
}

/// The names of tools that ask the user for input.
proof fn lemma_input_tool(tool: Option<Seq<char>>)
    ensures
        tool matches Some(name) ==> wire::is_input_tool(name) == asks_for_input(name),
{
    if let Some(name) = tool {
        message_laws::lemma_says(
            name,
            "request_user_input"@,
            name.len() - "request_user_input"@.len(),
        );
        assert(text::lowered(name).len() == name.len());
    }
}

/// A tool that asks the user has its run wait for the answer.
pub proof fn law_asking_tool_waits(
    sessions: Map<Seq<char>, Activity>,
    message: EventMessage,
    config: AppConfig,
    session: Seq<char>,
    run: Seq<char>,
    tool: Seq<char>,
    failed: bool,
)
    requires
        is_tool_event(message, session, run, "PreToolUse"@, Some(tool), failed),
        asks_for_input(tool),
    ensures
        comes_to(
            sessions,
            message,
            config,
            session,
            runs_at_work(sessions, session).insert(run),
            runs_waiting(sessions, session).insert(run, config.events.stop_question),
            config.events.user_prompt_submit,
        ),
{
    wire::lemma_event_names_differ();
    lemma_input_tool(Some(tool));
    let after = wire::sessions_after(sessions, message, config)[session];
    if after.waiting.dom().finite() {
        law_waiting_runs_decide(after, config.events.user_prompt_submit);
    }
}

/// A request for permission has its run wait for it.
pub proof fn law_permission_waits(
    sessions: Map<Seq<char>, Activity>,
    message: EventMessage,
    config: AppConfig,
    session: Seq<char>,
    run: Seq<char>,
    tool: Option<Seq<char>>,
    failed: bool,
)
    requires
        is_tool_event(message, session, run, "PermissionRequest"@, tool, failed),
    ensures
        comes_to(
            sessions,
            message,
            config,
            session,
            runs_at_work(sessions, session).insert(run),
            runs_waiting(sessions, session).insert(run, config.events.permission_request),
            config.events.permission_request,
        ),
{
    wire::lemma_event_names_differ();
    let after = wire::sessions_after(sessions, message, config)[session];
    if after.waiting.dom().finite() {
        law_waiting_runs_decide(after, config.events.permission_request);
    }
}

/// A tool that has been used ends the waiting of its run. Where no other run waits, the task is in
/// the state that is configured for the tool's outcome.
pub proof fn law_used_tool_ends_waiting(
    sessions: Map<Seq<char>, Activity>,
    message: EventMessage,
    config: AppConfig,
    session: Seq<char>,
    run: Seq<char>,
    tool: Option<Seq<char>>,
    failed: bool,
)
    requires
        is_tool_event(message, session, run, "PostToolUse"@, tool, failed),
    ensures
        comes_to(
            sessions,
            message,
            config,
            session,
            runs_at_work(sessions, session).insert(run),
            runs_waiting(sessions, session).remove(run),
            if failed {
                config.events.post_tool_failure
            } else {
                config.events.post_tool_success
            },
        ),
{
    wire::lemma_event_names_differ();
    let after = wire::sessions_after(sessions, message, config)[session];
    if after.waiting.dom().finite() {
        law_waiting_runs_decide(
            after,
            if failed {
                config.events.post_tool_failure
            } else {
                config.events.post_tool_success
            },
        );
    }
}

/// A subagent that begins is one more run at work, and what other runs wait for stays.
pub proof fn law_begun_subagent_is_at_work(
    sessions: Map<Seq<char>, Activity>,
    message: EventMessage,
    config: AppConfig,
    session: Seq<char>,
    run: Seq<char>,
    tool: Option<Seq<char>>,
    failed: bool,
)
    requires
        is_tool_event(message, session, run, "SubagentStart"@, tool, failed),
    ensures
        comes_to(
            sessions,
            message,
            config,
            session,
            runs_at_work(sessions, session).insert(run),
            runs_waiting(sessions, session),
            config.events.user_prompt_submit,
        ),
{
    wire::lemma_event_names_differ();
    let after = wire::sessions_after(sessions, message, config)[session];
    if after.waiting.dom().finite() {
        law_waiting_runs_decide(after, config.events.user_prompt_submit);
    }
}

/// A subagent that ends is neither at work nor waiting. The task shows what the others wait for,
/// and is forgotten where there are none. Of an unknown task it says nothing.
pub proof fn law_ended_subagent_is_gone(
    sessions: Map<Seq<char>, Activity>,
    message: EventMessage,
    config: AppConfig,
    session: Seq<char>,
    run: Seq<char>,
    event: Seq<char>,
)
    requires
        is_event(message, session, run, event, true),
        event == "SubagentStop"@ || event == "Stop"@,
    ensures
        ({
            let after = wire::sessions_after(sessions, message, config);
            let active = runs_at_work(sessions, session).remove(run);
            let waiting = runs_waiting(sessions, session).remove(run);
            &&& runs_at_work(after, session) == active
            &&& runs_waiting(after, session) == waiting
            &&& after.contains_key(session) == (sessions.contains_key(session) && !(active
                == Set::<Seq<char>>::empty() && waiting.dom() == Set::<Seq<char>>::empty()))
            &&& !sessions.contains_key(session) ==> wire::state_after(sessions, message, config)
                is None
            &&& sessions.contains_key(session) && waiting.dom().finite() ==> (wire::state_after(
                sessions,
                message,
                config,
            ) matches Some(state) && is_shown(waiting, config.events.user_prompt_submit, state))
        }),
{
    wire::lemma_event_names_differ();
    if sessions.contains_key(session) {
        let left = sessions[session].without(run);
        if left.waiting.dom().finite() {
            law_waiting_runs_decide(left, config.events.user_prompt_submit);
        }
        if left.waiting.dom() =~= Set::<Seq<char>>::empty() {
            assert(left.waiting =~= Map::<Seq<char>, StateKind>::empty());
        }
        if left.active =~= Set::<Seq<char>>::empty() && left.waiting =~= Map::<
            Seq<char>,
            StateKind,
        >::empty() {
            assert(left =~= Activity::none());
        }
    } else {
        assert(runs_at_work(sessions, session).remove(run) =~= Set::<Seq<char>>::empty());
        assert(runs_waiting(sessions, session).remove(run) =~= Map::<
            Seq<char>,
            StateKind,
        >::empty());
    }
}

/// A prompt to the task leaves its run alone at work, with nothing to wait for.
pub proof fn law_prompt_leaves_one_run(
    sessions: Map<Seq<char>, Activity>,
    message: EventMessage,
    config: AppConfig,
    session: Seq<char>,
    run: Seq<char>,
)
    requires
        is_event(message, session, run, "UserPromptSubmit"@, false),
    ensures
        ({
            let after = wire::sessions_after(sessions, message, config);
            &&& after.contains_key(session)
            &&& after[session].active == set![run]
            &&& forall|other: Seq<char>| !after[session].waiting.contains_key(other)
            &&& wire::state_after(sessions, message, config) == Some(
                config.events.user_prompt_submit,
            )
        }),
{
    law_prompt_starts_afresh(sessions, message, config, session, run);
    wire::lemma_event_names_differ();
    assert(wire::sessions_after(sessions, message, config)[session].active =~= set![run]);
}

/// The end of a task leads to the state that its last message tells of, and its runs are forgotten.
pub proof fn law_ended_task_tells_outcome(
    sessions: Map<Seq<char>, Activity>,
    message: EventMessage,
    config: AppConfig,
    session: Seq<char>,
    run: Seq<char>,
    said: Option<Seq<char>>,
    k: int,
    p: int,
)
    requires
        is_event(message, session, run, "Stop"@, false),
        message matches EventMessage::Hook {
            session_id,
            run_id,
            hook_event_name,
            is_subagent,
            tool_name,
            last_assistant_message,
            tool_failed,
            transcript_path,
        } && wire::chars_in(last_assistant_message) == said,
        said matches Some(shown) ==> text::is_blank(shown) || message_laws::ends_at(shown, k)
            && message_laws::begins_at(shown, k, p),
    ensures
        ({
            let state = wire::state_after(sessions, message, config);
            &&& !wire::sessions_after(sessions, message, config).contains_key(session)
            &&& said is None || text::is_blank(said->0) ==> state == Some(
                config.events.stop_complete,
            )
            &&& said is Some && !text::is_blank(said->0) ==> (state matches Some(state)
                && message_laws::is_outcome(state, said->0, config, k, p))
        }),
{
    wire::lemma_event_names_differ();
    match said {
        Some(shown) => {
            if text::is_blank(shown) {
                message_laws::law_silent_stop_is_done(said, false, config);
            } else {
                message_laws::law_stop_tells_outcome(shown, false, config, k, p);
            }
        },
        None => {},
    }
}

/// Any other event leaves what is known of all tasks as it is, and none but a subagent's prompt
/// leads to a state.
pub proof fn law_other_events_change_nothing(
    sessions: Map<Seq<char>, Activity>,
    message: EventMessage,
    config: AppConfig,
    session: Seq<char>,
    run: Seq<char>,
    event: Seq<char>,
    subagent: bool,
)
    requires
        is_event(message, session, run, event, subagent),
        event == "UserPromptSubmit"@ ==> subagent,
        event == "SubagentStop"@ ==> !subagent,
        event != "PermissionRequest"@,
        event != "PreToolUse"@,
        event != "PostToolUse"@,
        event != "SubagentStart"@,
        event != "Stop"@,
        event != "SessionEnd"@,
    ensures
        wire::sessions_after(sessions, message, config) == sessions,
        wire::state_after(sessions, message, config) == if event == "UserPromptSubmit"@ {
            Some(config.events.user_prompt_submit)
        } else {
            None
        },
{
    wire::lemma_event_names_differ();
}

} // verus!
