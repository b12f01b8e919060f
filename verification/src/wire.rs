//! Events from the hooks of a task, and the state of the task that they add up to.
use vstd::prelude::*;

use crate::collections;
use crate::collections::{StringMap, StringSet};
use crate::config::AppConfig;
use crate::json;
use crate::json::Json;
use crate::state::StateKind;
use crate::text;

verus! {

/// Of a long message only so many bytes of its end are kept.
pub const MAX_MESSAGE_TAIL_BYTES: usize = 2048;

/// A message to the daemon.
#[allow(inconsistent_fields)]
#[derive(Debug)]
pub enum EventMessage {
    Hook {
        session_id: String,
        run_id: String,
        hook_event_name: String,
        is_subagent: bool,
        tool_name: Option<String>,
        last_assistant_message: Option<String>,
        tool_failed: bool,
        transcript_path: Option<String>,
    },
    SetState { session_id: String, state: StateKind },
    Clear { session_id: Option<String> },
    Reload,
    Snapshot,
}

/// What a hook is told.
#[derive(Debug)]
pub struct HookInput {
    pub session_id: String,
    pub hook_event_name: String,
    pub turn_id: Option<String>,
    pub agent_id: Option<String>,
    pub agent_type: Option<String>,
    pub tool_name: Option<String>,
    pub last_assistant_message: Option<String>,
    pub tool_response: Option<Json>,
    pub transcript_path: Option<String>,
}

/// The characters of an optional string.
pub open spec fn chars_in(value: Option<String>) -> Option<Seq<char>> {
    match value {
        Some(s) => Some(s@),
        None => None,
    }
}

/// The trimmed value, where anything is left of it.
pub open spec fn filled_in(value: Option<Seq<char>>) -> Option<Seq<char>> {
    match value {
        Some(s) => if text::trimmed(s).len() > 0 {
            Some(text::trimmed(s))
        } else {
            None
        },
        None => None,
    }
}

/// A hook of a subagent, told by its event or by an agent's name or type.
pub open spec fn is_subagent_hook(input: HookInput) -> bool {
    ||| input.hook_event_name@ == "SubagentStart"@
    ||| input.hook_event_name@ == "SubagentStop"@
    ||| filled_in(chars_in(input.agent_id)) is Some
    ||| filled_in(chars_in(input.agent_type)) is Some
}

/// The run that a hook belongs to: a subagent goes by its own name, a task by its turn.
pub open spec fn run_of(input: HookInput) -> Seq<char> {
    let agent = filled_in(chars_in(input.agent_id));
    let turn = filled_in(chars_in(input.turn_id));
    let (first, second) = if is_subagent_hook(input) {
        (agent, turn)
    } else {
        (turn, agent)
    };
    match first {
        Some(run) => run,
        None => match second {
            Some(run) => run,
            None => input.session_id@,
        },
    }
}

/// The status words of a failure.
pub open spec fn is_failure_status(status: Seq<char>) -> bool {
    let word = text::lowered(status);
    word == "error"@ || word == "failed"@ || word == "failure"@
}

/// The entries of an object say that a tool failed.
pub open spec fn entries_fail(entries: Seq<(String, Json)>) -> bool {
    ||| json::member(entries, "is_error"@) == Some(Json::Bool(true))
    ||| json::member(entries, "success"@) == Some(Json::Bool(false))
    ||| (json::member(entries, "exit_code"@) matches Some(Json::Number { as_i64: Some(code) })
        && code != 0)
    ||| (json::member(entries, "status"@) matches Some(Json::String(status)) && is_failure_status(
        status@,
    ))
}

/// A tool's response says, at any depth, that the tool failed.
pub open spec fn response_fails(value: Json) -> bool
    decreases value,
{
    match value {
        Json::Array(items) => exists|i: int|
            0 <= i < items@.len() && response_fails(#[trigger] items@[i]),
        Json::Object(entries) => entries_fail(entries@) || exists|i: int|
            0 <= i < entries@.len() && response_fails((#[trigger] entries@[i]).1),
        _ => false,
    }
}

/// Whether the entries of an object say that a tool failed.
fn entries_report_failure(entries: &Vec<(String, Json)>) -> (r: bool)
    ensures
        r == entries_fail(entries@),
{
    if let Some(Json::Bool(true)) = json::get(entries, "is_error") {
        return true;
    }
    if let Some(Json::Bool(false)) = json::get(entries, "success") {
        return true;
    }
    if let Some(Json::Number { as_i64: Some(code) }) = json::get(entries, "exit_code") {
        if *code != 0 {
            return true;
        }
    }
    if let Some(Json::String(status)) = json::get(entries, "status") {
        let word: Vec<char> = text::lower_chars(status.as_str());
        return text::chars_are(word.as_slice(), "error") || text::chars_are(
            word.as_slice(),
            "failed",
        ) || text::chars_are(word.as_slice(), "failure");
    }
    false
}

/// Whether an item says, at any depth, that a tool failed.
fn any_item_failed(items: &Vec<Json>) -> (r: bool)
    ensures
        r == exists|i: int| 0 <= i < items@.len() && response_fails(#[trigger] items@[i]),
    decreases *items,
{
    let mut i: usize = 0;
    while i < items.len()
        invariant
            i <= items@.len(),
            forall|j: int| 0 <= j < i ==> !response_fails(#[trigger] items@[j]),
        decreases items@.len() - i,
    {
        if tool_failed(&items[i]) {
            return true;
        }
        i += 1;
    }
    false
}

/// Whether the value of an entry says, at any depth, that a tool failed.
fn any_entry_failed(entries: &Vec<(String, Json)>) -> (r: bool)
    ensures
        r == exists|i: int|
            0 <= i < entries@.len() && response_fails((#[trigger] entries@[i]).1),
    decreases *entries,
{
    let mut i: usize = 0;
    while i < entries.len()
        invariant
            i <= entries@.len(),
            forall|j: int| 0 <= j < i ==> !response_fails((#[trigger] entries@[j]).1),
        decreases entries@.len() - i,
    {
        if tool_failed(&entries[i].1) {
            return true;
        }
        i += 1;
    }
    false
}

/// Whether a tool's response says, at any depth, that the tool failed.
pub fn tool_failed(value: &Json) -> (r: bool)
    ensures
        r == response_fails(*value),
    decreases *value,
{
    match value {
        Json::Array(items) => any_item_failed(items),
        Json::Object(entries) => entries_report_failure(entries) || any_entry_failed(entries),
        _ => false,
    }
}

/// The trimmed value, where anything is left of it.
pub fn non_empty(value: &Option<String>) -> (r: Option<&str>)
    ensures
        (match r {
            Some(s) => Some(s@),
            None => None,
        }) == filled_in(chars_in(*value)),
{
    match value {
        Some(s) => {
            let trimmed: &str = text::trim(s.as_str());
            if trimmed.unicode_len() > 0 {
                Some(trimmed)
            } else {
                None
            }
        },
        None => None,
    }
}

/// The end of a message.
pub fn message_tail(message: &str) -> (r: String)
    ensures
        r@ == text::longest_end(message@, MAX_MESSAGE_TAIL_BYTES as nat),
{
    text::end_within(message, MAX_MESSAGE_TAIL_BYTES)
}

impl HookInput {
    /// What a hook was told, as a message to the daemon.
    pub fn into_event(self) -> (r: EventMessage)
        ensures
            r matches EventMessage::Hook {
                session_id,
                run_id,
                hook_event_name,
                is_subagent,
                tool_name,
                last_assistant_message,
                tool_failed,
                transcript_path,
            } && {
                &&& session_id == self.session_id
                &&& run_id@ == run_of(self)
                &&& hook_event_name == self.hook_event_name
                &&& is_subagent == is_subagent_hook(self)
                &&& tool_name == self.tool_name
                &&& chars_in(last_assistant_message) == match self.last_assistant_message {
                    Some(message) => Some(
                        text::longest_end(message@, MAX_MESSAGE_TAIL_BYTES as nat),
                    ),
                    None => None,
                }
                &&& tool_failed == (self.tool_response matches Some(response) && response_fails(
                    response,
                ))
                &&& transcript_path == self.transcript_path
            },
    {
        let agent: Option<&str> = non_empty(&self.agent_id);
        let turn: Option<&str> = non_empty(&self.turn_id);
        let event: &str = self.hook_event_name.as_str();
        let is_subagent: bool = text::same_text(event, "SubagentStart") || text::same_text(
            event,
            "SubagentStop",
        ) || agent.is_some() || non_empty(&self.agent_type).is_some();
        let (first, second) = if is_subagent {
            (agent, turn)
        } else {
            (turn, agent)
        };
        let run_id: String = match first {
            Some(run) => run.to_owned(),
            None => match second {
                Some(run) => run.to_owned(),
                None => self.session_id.clone(),
            },
        };
        let last_assistant_message: Option<String> = match &self.last_assistant_message {
            Some(message) => Some(message_tail(message.as_str())),
            None => None,
        };
        let tool_failed: bool = match &self.tool_response {
            Some(response) => tool_failed(response),
            None => false,
        };
        EventMessage::Hook {
            session_id: self.session_id,
            run_id,
            hook_event_name: self.hook_event_name,
            is_subagent,
            tool_name: self.tool_name,
            last_assistant_message,
            tool_failed,
            transcript_path: self.transcript_path,
        }
    }
}

/// Where the last paragraph of `s` begins, looking back from position `n`.
pub open spec fn paragraph_start(s: Seq<char>, n: int) -> int
    decreases n,
{
    if n < 2 {
        0
    } else if s[n - 1] == '\n' && s[n - 2] == '\n' {
        n
    } else {
        paragraph_start(s, n - 1)
    }
}

/// The last paragraph of a message: what follows its last empty line.
pub open spec fn last_paragraph(message: Seq<char>) -> Seq<char> {
    let shown = text::trimmed(message);
    text::trimmed(shown.skip(paragraph_start(shown, shown.len() as int)))
}

/// A phrase that asks the user for something.
pub open spec fn has_asking_phrase(s: Seq<char>) -> bool {
    ||| text::occurs(s, "please provide"@)
    ||| text::occurs(s, "please choose"@)
    ||| text::occurs(s, "please confirm"@)
    ||| text::occurs(s, "i need your input"@)
    ||| text::occurs(s, "i need you to"@)
    ||| text::occurs(s, "waiting for your"@)
    ||| text::occurs(s, "let me know which"@)
    ||| text::occurs(s, "tell me which"@)
}

/// A message asks the user for something: its last paragraph ends in a question mark or holds an
/// asking phrase.
pub open spec fn asks_user(message: Seq<char>) -> bool {
    let paragraph = last_paragraph(message);
    ||| paragraph.len() > 0 && paragraph.last() == '?'
    ||| text::trimmed(message).len() > 0 && has_asking_phrase(text::lowered(paragraph))
}

/// A message says that the task could not be completed.
pub open spec fn tells_failure(message: Seq<char>) -> bool {
    let s = text::lowered(text::trimmed(message));
    ||| text::occurs(s, "i couldn't complete"@)
    ||| text::occurs(s, "i could not complete"@)
    ||| text::occurs(s, "i wasn't able to complete"@)
    ||| text::occurs(s, "i was unable to complete"@)
    ||| text::occurs(s, "the task is blocked"@)
    ||| text::occurs(s, "implementation failed"@)
    ||| text::occurs(s, "build failed and"@)
}

/// The state that the end of a task leads to.
pub open spec fn stop_state(message: Option<Seq<char>>, config: AppConfig) -> StateKind {
    if message is Some && tells_failure(message->0) {
        config.events.stop_failure
    } else if config.behavior.detect_questions && message is Some && asks_user(message->0) {
        config.events.stop_question
    } else {
        config.events.stop_complete
    }
}

/// The state that an event leads to when nothing else is known of the task.
pub open spec fn hook_state(
    event: Seq<char>,
    message: Option<Seq<char>>,
    failed: bool,
    config: AppConfig,
) -> Option<StateKind> {
    if event == "UserPromptSubmit"@ {
        Some(config.events.user_prompt_submit)
    } else if event == "PermissionRequest"@ {
        Some(config.events.permission_request)
    } else if event == "PostToolUse"@ {
        Some(
            if failed {
                config.events.post_tool_failure
            } else {
                config.events.post_tool_success
            },
        )
    } else if event == "Stop"@ {
        Some(stop_state(message, config))
    } else {
        None
    }
}

/// Whether a message asks the user for something.
pub fn assistant_message_requests_input(message: &str) -> (r: bool)
    ensures
        r == asks_user(message@),
{
    let shown: &str = text::trim(message);
    let chars: Vec<char> = text::chars_of(shown);
    if chars.len() == 0 {
        proof {
            assert(shown@.skip(0) == shown@);
            assert(text::trimmed(shown@).len() == 0);
        }
        return false;
    }
    let mut start: usize = chars.len();
    while start >= 2 && !(chars[start - 1] == '\n' && chars[start - 2] == '\n')
        invariant
            start <= chars@.len(),
            chars@ == shown@,
            paragraph_start(shown@, shown@.len() as int) == paragraph_start(shown@, start as int),
        decreases start,
    {
        start -= 1;
    }
    if start < 2 {
        start = 0;
    }
    assert(shown@.subrange(start as int, shown@.len() as int) == shown@.skip(start as int));
    let paragraph: &str = text::trim(shown.substring_char(start, chars.len()));
    assert(paragraph@ == last_paragraph(message@));
    let length: usize = paragraph.unicode_len();
    if length > 0 && paragraph.get_char(length - 1) == '?' {
        return true;
    }
    let lowercase: Vec<char> = text::lower_chars(paragraph);
    let hay: &[char] = lowercase.as_slice();
    text::contains_phrase(hay, "please provide") || text::contains_phrase(hay, "please choose")
        || text::contains_phrase(hay, "please confirm") || text::contains_phrase(
        hay,
        "i need your input",
    ) || text::contains_phrase(hay, "i need you to") || text::contains_phrase(
        hay,
        "waiting for your",
    ) || text::contains_phrase(hay, "let me know which") || text::contains_phrase(
        hay,
        "tell me which",
    )
}

/// Whether a message says that the task could not be completed.
pub fn assistant_message_reports_failure(message: &str) -> (r: bool)
    ensures
        r == tells_failure(message@),
{
    let lowercase: Vec<char> = text::lower_chars(text::trim(message));
    let hay: &[char] = lowercase.as_slice();
    text::contains_phrase(hay, "i couldn't complete") || text::contains_phrase(
        hay,
        "i could not complete",
    ) || text::contains_phrase(hay, "i wasn't able to complete") || text::contains_phrase(
        hay,
        "i was unable to complete",
    ) || text::contains_phrase(hay, "the task is blocked") || text::contains_phrase(
        hay,
        "implementation failed",
    ) || text::contains_phrase(hay, "build failed and")
}

/// The state that the end of a task leads to.
fn state_for_stop(last_assistant_message: Option<&str>, config: &AppConfig) -> (r: Option<
    StateKind,
>)
    ensures
        r == Some(
            stop_state(
                match last_assistant_message {
                    Some(message) => Some(message@),
                    None => None,
                },
                *config,
            ),
        ),
{
    match last_assistant_message {
        Some(message) => {
            if assistant_message_reports_failure(message) {
                Some(config.events.stop_failure)
            } else if config.behavior.detect_questions && assistant_message_requests_input(
                message,
            ) {
                Some(config.events.stop_question)
            } else {
                Some(config.events.stop_complete)
            }
        },
        None => Some(config.events.stop_complete),
    }
}

/// The state that an event leads to when nothing else is known of the task.
pub fn state_for_hook(
    event_name: &str,
    last_assistant_message: Option<&str>,
    failed: bool,
    config: &AppConfig,
) -> (r: Option<StateKind>)
    ensures
        r == hook_state(
            event_name@,
            match last_assistant_message {
                Some(message) => Some(message@),
                None => None,
            },
            failed,
            *config,
        ),
{
    if text::same_text(event_name, "UserPromptSubmit") {
        Some(config.events.user_prompt_submit)
    } else if text::same_text(event_name, "PermissionRequest") {
        Some(config.events.permission_request)
    } else if text::same_text(event_name, "PostToolUse") {
        if failed {
            Some(config.events.post_tool_failure)
        } else {
            Some(config.events.post_tool_success)
        }
    } else if text::same_text(event_name, "Stop") {
        state_for_stop(last_assistant_message, config)
    } else {
        None
    }
}

/// Whether a tool asks the user for input.
pub open spec fn is_input_tool(tool: Seq<char>) -> bool {
    text::ends_in(text::lowered(tool), "request_user_input"@)
}

/// Whether a tool asks the user for input.
fn tool_requests_user_input(tool_name: &str) -> (r: bool)
    ensures
        r == is_input_tool(tool_name@),
{
    text::ends_with_text(text::lower_chars(tool_name).as_slice(), "request_user_input")
}

/// What a task is doing: its runs, and those of them that wait for the user.
#[verifier::ext_equal]
pub struct Activity {
    pub active: Set<Seq<char>>,
    pub waiting: Map<Seq<char>, StateKind>,
}

impl Activity {
    /// A task of which nothing is known.
    pub open spec fn none() -> Activity {
        Activity { active: Set::empty(), waiting: Map::empty() }
    }

    /// The run is at work.
    pub open spec fn with_active(self, run: Seq<char>) -> Activity {
        Activity { active: self.active.insert(run), waiting: self.waiting }
    }

    /// The run waits in the state `state`.
    pub open spec fn with_waiting(self, run: Seq<char>, state: StateKind) -> Activity {
        Activity { active: self.active, waiting: self.waiting.insert(run, state) }
    }

    /// The run does not wait.
    pub open spec fn without_waiting(self, run: Seq<char>) -> Activity {
        Activity { active: self.active, waiting: self.waiting.remove(run) }
    }

    /// The run is over.
    pub open spec fn without(self, run: Seq<char>) -> Activity {
        Activity { active: self.active.remove(run), waiting: self.waiting.remove(run) }
    }

    /// Some run waits in the state `state`.
    pub open spec fn has_waiting(self, state: StateKind) -> bool {
        exists|run: Seq<char>|
            self.waiting.contains_key(run) && #[trigger] self.waiting[run] == state
    }

    /// The state that the waiting runs put the task in: an approval goes first, then a request,
    /// then what the first of the runs waits for. Without a waiting run it is `otherwise`.
    pub open spec fn state_or(self, otherwise: StateKind) -> StateKind {
        if self.has_waiting(StateKind::Approval) {
            StateKind::Approval
        } else if self.has_waiting(StateKind::Requested) {
            StateKind::Requested
        } else if self.waiting == Map::<Seq<char>, StateKind>::empty() {
            otherwise
        } else {
            self.waiting[choose|run: Seq<char>| #[trigger]
                collections::is_first_key(self.waiting, run)]
        }
    }
}

/// What is known of a task.
pub open spec fn activity_of(sessions: Map<Seq<char>, Activity>, session: Seq<char>) -> Activity {
    if sessions.contains_key(session) {
        sessions[session]
    } else {
        Activity::none()
    }
}

/// An event that ends a whole task.
pub open spec fn ends_task(event: Seq<char>, is_subagent: bool) -> bool {
    event == "Stop"@ && !is_subagent || event == "SessionEnd"@
}

/// An event that ends a subagent's run.
pub open spec fn ends_run(event: Seq<char>, is_subagent: bool) -> bool {
    is_subagent && (event == "SubagentStop"@ || event == "Stop"@)
}

/// What a task is doing after an event that ends neither the task nor a run.
pub open spec fn activity_after(
    before: Activity,
    event: Seq<char>,
    run: Seq<char>,
    is_subagent: bool,
    tool: Option<Seq<char>>,
    config: AppConfig,
) -> Option<Activity> {
    if event == "UserPromptSubmit"@ && !is_subagent {
        Some(Activity::none().with_active(run))
    } else if event == "PermissionRequest"@ {
        Some(before.with_active(run).with_waiting(run, config.events.permission_request))
    } else if event == "PreToolUse"@ {
        if tool is Some && is_input_tool(tool->0) {
            Some(before.with_active(run).with_waiting(run, config.events.stop_question))
        } else {
            Some(before.with_active(run).without_waiting(run))
        }
    } else if event == "PostToolUse"@ {
        Some(before.with_active(run).without_waiting(run))
    } else if event == "SubagentStart"@ {
        Some(before.with_active(run))
    } else {
        None
    }
}

/// The state of a task whose runs are `after`, where none of them waits.
pub open spec fn resting_state(event: Seq<char>, failed: bool, config: AppConfig) -> StateKind {
    if event == "PermissionRequest"@ {
        config.events.permission_request
    } else if event == "PostToolUse"@ {
        if failed {
            config.events.post_tool_failure
        } else {
            config.events.post_tool_success
        }
    } else {
        config.events.user_prompt_submit
    }
}

/// The events that have a resting state of their own differ from the others.
pub proof fn lemma_event_names_differ()
    ensures
        "UserPromptSubmit"@.len() == 16,
        "PermissionRequest"@.len() == 17,
        "PreToolUse"@.len() == 10,
        "PostToolUse"@.len() == 11,
        "SubagentStart"@.len() == 13,
        "SubagentStop"@.len() == 12,
        "Stop"@.len() == 4,
        "SessionEnd"@.len() == 10,
        "SessionEnd"@ != "PreToolUse"@,
{
    reveal_strlit("UserPromptSubmit");
    reveal_strlit("PermissionRequest");
    reveal_strlit("PreToolUse");
    reveal_strlit("PostToolUse");
    reveal_strlit("SubagentStart");
    reveal_strlit("SubagentStop");
    reveal_strlit("Stop");
    reveal_strlit("SessionEnd");
    assert("SessionEnd"@[0] != "PreToolUse"@[0]);
}

/// The known tasks after an event.
pub open spec fn sessions_after(
    sessions: Map<Seq<char>, Activity>,
    message: EventMessage,
    config: AppConfig,
) -> Map<Seq<char>, Activity> {
    match message {
        EventMessage::Hook {
            session_id,
            run_id,
            hook_event_name,
            is_subagent,
            tool_name,
            last_assistant_message,
            tool_failed,
            transcript_path,
        } => {
            let session = session_id@;
            let event = hook_event_name@;
            if ends_task(event, is_subagent) {
                sessions.remove(session)
            } else {
                match activity_after(
                    activity_of(sessions, session),
                    event,
                    run_id@,
                    is_subagent,
                    chars_in(tool_name),
                    config,
                ) {
                    Some(after) => sessions.insert(session, after),
                    None => if ends_run(event, is_subagent) && sessions.contains_key(session) {
                        let after = sessions[session].without(run_id@);
                        if after == Activity::none() {
                            sessions.remove(session)
                        } else {
                            sessions.insert(session, after)
                        }
                    } else {
                        sessions
                    },
                }
            }
        },
        _ => sessions,
    }
}

/// The state that an event puts its task in.
pub open spec fn state_after(
    sessions: Map<Seq<char>, Activity>,
    message: EventMessage,
    config: AppConfig,
) -> Option<StateKind> {
    match message {
        EventMessage::Hook {
            session_id,
            run_id,
            hook_event_name,
            is_subagent,
            tool_name,
            last_assistant_message,
            tool_failed,
            transcript_path,
        } => {
            let session = session_id@;
            let event = hook_event_name@;
            if event == "Stop"@ && !is_subagent {
                Some(stop_state(chars_in(last_assistant_message), config))
            } else if event == "SessionEnd"@ {
                None
            } else {
                match activity_after(
                    activity_of(sessions, session),
                    event,
                    run_id@,
                    is_subagent,
                    chars_in(tool_name),
                    config,
                ) {
                    Some(after) => Some(after.state_or(resting_state(event, tool_failed, config))),
                    None => if ends_run(event, is_subagent) {
                        if sessions.contains_key(session) {
                            Some(
                                sessions[session].without(run_id@).state_or(
                                    config.events.user_prompt_submit,
                                ),
                            )
                        } else {
                            None
                        }
                    } else {
                        hook_state(event, chars_in(last_assistant_message), tool_failed, config)
                    },
                }
            }
        },
        _ => None,
    }
}

/// What a task is doing.
#[derive(Debug)]
struct SessionActivity {
    active_runs: StringSet,
    waiting_runs: StringMap<StateKind>,
}

impl View for SessionActivity {
    type V = Activity;

    closed spec fn view(&self) -> Activity {
        Activity { active: self.active_runs@, waiting: self.waiting_runs@ }
    }
}

impl SessionActivity {
    fn new() -> (r: Self)
        ensures
            r@ == Activity::none(),
    {
        SessionActivity { active_runs: StringSet::new(), waiting_runs: StringMap::new() }
    }

    /// Whether some run waits in the state `state`.
    fn has_waiting(&self, state: StateKind) -> (r: bool)
        ensures
            r == self@.has_waiting(state),
    {
        let runs: Vec<String> = self.waiting_runs.keys();
        let mut i: usize = 0;
        while i < runs.len()
            invariant
                i <= runs@.len(),
                forall|j: int| 0 <= j < runs@.len() ==> self.waiting_runs@.contains_key(
                    (#[trigger] runs@[j])@,
                ),
                forall|k: Seq<char>| #[trigger] self.waiting_runs@.contains_key(k) ==> exists|j: int|
                    0 <= j < runs@.len() && (#[trigger] runs@[j])@ == k,
                forall|j: int| 0 <= j < i ==> self.waiting_runs@[(#[trigger] runs@[j])@] != state,
            decreases runs@.len() - i,
        {
            if let Some(waiting) = self.waiting_runs.get(runs[i].as_str()) {
                if *waiting == state {
                    assert(self@.waiting[runs@[i as int]@] == state);
                    return true;
                }
            }
            i += 1;
        }
        false
    }

    /// The state that the waiting runs put the task in.
    fn state_or(&self, fallback: StateKind) -> (r: StateKind)
        ensures
            r == self@.state_or(fallback),
    {
        if self.has_waiting(StateKind::Approval) {
            StateKind::Approval
        } else if self.has_waiting(StateKind::Requested) {
            StateKind::Requested
        } else {
            match self.waiting_runs.first_value() {
                Some(state) => {
                    proof {
                        let m = self.waiting_runs@;
                        let k = choose|k: Seq<char>| #[trigger]
                            collections::is_first_key(m, k) && *state == m[k];
                        let first = choose|k: Seq<char>| #[trigger] collections::is_first_key(m, k);
                        assert(collections::is_first_key(m, k));
                        assert(collections::is_first_key(m, first));
                        collections::lemma_first_key_unique(m, k, first);
                        assert(m.contains_key(k));
                        assert(m != Map::<Seq<char>, StateKind>::empty());
                    }
                    *state
                },
                None => fallback,
            }
        }
    }
}

/// The runs of the tasks that hooks have told of.
#[derive(Debug)]
pub struct LifecycleTracker {
    sessions: StringMap<SessionActivity>,
}

impl View for LifecycleTracker {
    type V = Map<Seq<char>, Activity>;

    closed spec fn view(&self) -> Map<Seq<char>, Activity> {
        self.sessions@.map_values(|activity: SessionActivity| activity@)
    }
}

impl Default for LifecycleTracker {
    fn default() -> (r: Self)
        ensures
            r@ == Map::<Seq<char>, Activity>::empty(),
    {
        let r = LifecycleTracker { sessions: StringMap::new() };
        assert(r@ =~= Map::<Seq<char>, Activity>::empty());
        r
    }
}

impl LifecycleTracker {
    /// Takes what is known of a task out of the tracker.
    fn take(&mut self, session_id: &str) -> (r: SessionActivity)
        ensures
            r@ == activity_of(old(self)@, session_id@),
            final(self)@ == old(self)@.remove(session_id@),
    {
        let taken: Option<SessionActivity> = self.sessions.remove(session_id);
        assert(self@ =~= old(self)@.remove(session_id@));
        match taken {
            Some(activity) => activity,
            None => SessionActivity::new(),
        }
    }

    /// Puts what is known of a task back.
    fn put(&mut self, session_id: &str, activity: SessionActivity)
        ensures
            final(self)@ == old(self)@.insert(session_id@, activity@),
    {
        self.sessions.insert(session_id.to_owned(), activity);
        assert(self@ =~= old(self)@.insert(session_id@, activity@));
    }

    /// Forgets a task.
    fn forget(&mut self, session_id: &str)
        ensures
            final(self)@ == old(self)@.remove(session_id@),
    {
        let _ = self.sessions.remove(session_id);
        assert(self@ =~= old(self)@.remove(session_id@));
    }

    /// Whether a task is known.
    fn knows(&self, session_id: &str) -> (r: bool)
        ensures
            r == self@.contains_key(session_id@),
    {
        self.sessions.contains_key(session_id)
    }

    /// The state that an event puts its task in.
    pub fn state_for_event(&mut self, event: &EventMessage, config: &AppConfig) -> (r: Option<
        StateKind,
    >)
        ensures
            final(self)@ == sessions_after(old(self)@, *event, *config),
            r == state_after(old(self)@, *event, *config),
    {
        proof {
            lemma_event_names_differ();
        }
        if let EventMessage::Hook {
            session_id,
            run_id,
            hook_event_name,
            is_subagent,
            tool_name,
            last_assistant_message,
            tool_failed,
            transcript_path: _,
        } = event {
            let session: &str = session_id.as_str();
            let run: &str = run_id.as_str();
            let name: &str = hook_event_name.as_str();
            let message: Option<&str> = match last_assistant_message {
                Some(message) => Some(message.as_str()),
                None => None,
            };
            let stops: bool = text::same_text(name, "Stop");
            if stops && !*is_subagent {
                self.forget(session);
                return state_for_stop(message, config);
            }
            if text::same_text(name, "SessionEnd") {
                self.forget(session);
                return None;
            }
            if text::same_text(name, "UserPromptSubmit") && !*is_subagent {
                let mut activity = SessionActivity::new();
                let _ = activity.active_runs.insert(run.to_owned());
                assert(activity@ =~= Activity::none().with_active(run@));
                self.put(session, activity);
                assert(!activity@.has_waiting(StateKind::Approval));
                assert(!activity@.has_waiting(StateKind::Requested));
                return Some(config.events.user_prompt_submit);
            }
            if text::same_text(name, "PermissionRequest") {
                let mut activity = self.take(session);
                let ghost before = activity@;
                let _ = activity.active_runs.insert(run.to_owned());
                activity.waiting_runs.insert(run.to_owned(), config.events.permission_request);
                assert(activity@ =~= before.with_active(run@).with_waiting(
                    run@,
                    config.events.permission_request,
                ));
                let state: StateKind = activity.state_or(config.events.permission_request);
                self.put(session, activity);
                assert(self@ =~= old(self)@.insert(session@, activity@));
                return Some(state);
            }
            if text::same_text(name, "PreToolUse") {
                let mut activity = self.take(session);
                let ghost before = activity@;
                let _ = activity.active_runs.insert(run.to_owned());
                let asks: bool = match tool_name {
                    Some(tool) => tool_requests_user_input(tool.as_str()),
                    None => false,
                };
                if asks {
                    activity.waiting_runs.insert(run.to_owned(), config.events.stop_question);
                    assert(activity@ =~= before.with_active(run@).with_waiting(
                        run@,
                        config.events.stop_question,
                    ));
                } else {
                    let _ = activity.waiting_runs.remove(run);
                    assert(activity@ =~= before.with_active(run@).without_waiting(run@));
                }
                let state: StateKind = activity.state_or(config.events.user_prompt_submit);
                self.put(session, activity);
                assert(self@ =~= old(self)@.insert(session@, activity@));
                return Some(state);
            }
            if text::same_text(name, "PostToolUse") {
                let mut activity = self.take(session);
                let ghost before = activity@;
                let _ = activity.active_runs.insert(run.to_owned());
                let _ = activity.waiting_runs.remove(run);
                assert(activity@ =~= before.with_active(run@).without_waiting(run@));
                let fallback: StateKind = if *tool_failed {
                    config.events.post_tool_failure
                } else {
                    config.events.post_tool_success
                };
                let state: StateKind = activity.state_or(fallback);
                self.put(session, activity);
                assert(self@ =~= old(self)@.insert(session@, activity@));
                return Some(state);
            }
            if text::same_text(name, "SubagentStart") {
                let mut activity = self.take(session);
                let ghost before = activity@;
                let _ = activity.active_runs.insert(run.to_owned());
                assert(activity@ =~= before.with_active(run@));
                let state: StateKind = activity.state_or(config.events.user_prompt_submit);
                self.put(session, activity);
                assert(self@ =~= old(self)@.insert(session@, activity@));
                return Some(state);
            }
            if *is_subagent && (text::same_text(name, "SubagentStop") || stops) {
                if !self.knows(session) {
                    return None;
                }
                let mut activity = self.take(session);
                let ghost before = activity@;
                let _ = activity.active_runs.remove(run);
                let _ = activity.waiting_runs.remove(run);
                assert(activity@ =~= before.without(run@));
                let state: StateKind = activity.state_or(config.events.user_prompt_submit);
                if activity.active_runs.is_empty() && activity.waiting_runs.is_empty() {
                    assert(activity@ =~= Activity::none());
                } else {
                    assert(activity@ != Activity::none());
                    self.put(session, activity);
                    assert(self@ =~= old(self)@.insert(session@, activity@));
                }
                return Some(state);
            }
            return state_for_hook(name, message, *tool_failed, config);
        }
        None
    }

    /// Forgets a task, or all of them.
    pub fn clear(&mut self, session_id: Option<&str>)
        ensures
            final(self)@ == match session_id {
                Some(session) => old(self)@.remove(session@),
                None => Map::<Seq<char>, Activity>::empty(),
            },
    {
        match session_id {
            Some(session) => {
                self.forget(session);
            },
            None => {
                self.sessions.clear();
                assert(self@ =~= Map::<Seq<char>, Activity>::empty());
            },
        }
    }
}

} // verus!
