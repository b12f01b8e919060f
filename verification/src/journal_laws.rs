//! What holds of reading journals, however they grow.
use vstd::prelude::*;

use crate::bytes;
use crate::config::AppConfig;
use crate::journal;
use crate::journal::{JournalRecord, JournalTransition, ReaderModel, Reading};
use crate::journal_tracker;
use crate::journal_tracker::{
    Observation, Polling, RegistrationStep, TrackerModel, TranscriptError,
    IGNORED_SESSION_CACHE_CAPACITY,
};
use crate::message_laws;
use crate::seqs;
use crate::text;
use crate::wire;

verus! {

/// A look at a journal that has not grown changes nothing and reports nothing.
pub proof fn law_unchanged_journal_reports_nothing(
    reader: ReaderModel,
    content: Seq<u8>,
    records: Seq<JournalRecord>,
    config: AppConfig,
    modified_at: u64,
)
    ensures
        journal::polled(reader, reader.offset, content, records, config, modified_at).reader
            == reader,
        journal::reported(
            journal::polled(reader, reader.offset, content, records, config, modified_at),
        ) == Ok::<Option<JournalTransition>, journal::JournalError>(None),
{
}

/// While a tool call is pending, a look at a journal reports nothing.
pub proof fn law_pending_call_silences_journal(reading: Reading, call: Seq<char>)
    requires
        reading.reader.pending.contains(call),
        !reading.failed,
    ensures
        journal::reported(reading) == Ok::<Option<JournalTransition>, journal::JournalError>(None),
{
}

/// How many bytes some lines take.
pub open spec fn total_length(lines: Seq<Seq<u8>>) -> int
    decreases lines.len(),
{
    if lines.len() == 0 {
        0
    } else {
        lines[0].len() + total_length(lines.drop_first())
    }
}

/// The lines of `content`, and what is left unfinished, take all of its bytes.
proof fn lemma_lines_take_all(content: Seq<u8>)
    ensures
        total_length(bytes::lines(content)) + bytes::unfinished(content).len() == content.len(),
    decreases content.len(),
{
    seqs::lemma_first_index(content, bytes::ends_line());
    if let Some(k) = bytes::newline_in(content) {
        lemma_lines_take_all(content.skip(k + 1));
        let all = bytes::lines(content);
        assert(all[0] == content.take(k + 1));
        assert(all.drop_first() =~= bytes::lines(content.skip(k + 1)));
    }
}

/// Where every line that bears on the state of the task has its record, reading never fails, and
/// it goes to the end of the last line.
proof fn lemma_enough_records(
    reader: ReaderModel,
    latest: Option<JournalTransition>,
    lines: Seq<Seq<u8>>,
    records: Seq<JournalRecord>,
    config: AppConfig,
    modified_at: u64,
)
    requires
        records.len() >= journal::candidates(reader.skip_partial_line, lines).len(),
    ensures
        ({
            let reading = journal::read_lines(reader, latest, lines, records, config, modified_at);
            &&& !reading.failed
            &&& reading.reader.offset == reader.offset + total_length(lines)
        }),
    decreases lines.len(),
{
    if lines.len() > 0 {
        let next = reader.past(lines[0].len() as int);
        let rest = lines.drop_first();
        if reader.skip_partial_line || !journal::is_candidate(lines[0]) {
            lemma_enough_records(next, latest, rest, records, config, modified_at);
        } else {
            let (after, told) = next.observed(records[0], config, modified_at);
            let newest = if told is Some {
                told
            } else {
                latest
            };
            lemma_enough_records(
                after,
                newest,
                rest,
                records.drop_first(),
                config,
                modified_at,
            );
        }
    }
}

/// Where every line that bears on the state of the task has its record, a look at a journal that
/// has grown does not fail, and it leaves exactly the unfinished line for later.
pub proof fn law_unfinished_line_waits(
    reader: ReaderModel,
    length: int,
    content: Seq<u8>,
    records: Seq<JournalRecord>,
    config: AppConfig,
    modified_at: u64,
)
    requires
        reader.opened(length).offset != length,
        records.len() >= journal::candidates(
            reader.opened(length).skip_partial_line,
            bytes::lines(content),
        ).len(),
    ensures
        ({
            let reading = journal::polled(reader, length, content, records, config, modified_at);
            &&& !reading.failed
            &&& reading.reader.offset == reader.opened(length).offset + content.len()
                - bytes::unfinished(content).len()
        }),
{
    lemma_lines_take_all(content);
    lemma_enough_records(
        reader.opened(length),
        None,
        bytes::lines(content),
        records,
        config,
        modified_at,
    );
}

/// A line that bears on the state of the task and has no record makes the reading fail.
pub proof fn law_missing_record_fails(
    reader: ReaderModel,
    latest: Option<JournalTransition>,
    lines: Seq<Seq<u8>>,
    records: Seq<JournalRecord>,
    config: AppConfig,
    modified_at: u64,
)
    requires
        records.len() < journal::candidates(reader.skip_partial_line, lines).len(),
    ensures
        journal::read_lines(reader, latest, lines, records, config, modified_at).failed,
    decreases lines.len(),
{
    if lines.len() > 0 {
        let next = reader.past(lines[0].len() as int);
        let rest = lines.drop_first();
        if reader.skip_partial_line || !journal::is_candidate(lines[0]) {
            law_missing_record_fails(next, latest, rest, records, config, modified_at);
        } else if records.len() > 0 {
            let (after, told) = next.observed(records[0], config, modified_at);
            let newest = if told is Some {
                told
            } else {
                latest
            };
            law_missing_record_fails(
                after,
                newest,
                rest,
                records.drop_first(),
                config,
                modified_at,
            );
        }
    }
}

/// What was told before shows only where the lines tell nothing.
proof fn lemma_latest_wins(
    reader: ReaderModel,
    latest: Option<JournalTransition>,
    lines: Seq<Seq<u8>>,
    records: Seq<JournalRecord>,
    config: AppConfig,
    modified_at: u64,
)
    ensures
        ({
            let fresh = journal::read_lines(reader, None, lines, records, config, modified_at);
            let reading = journal::read_lines(reader, latest, lines, records, config, modified_at);
            &&& reading.reader == fresh.reader
            &&& reading.failed == fresh.failed
            &&& reading.latest == if fresh.latest is Some {
                fresh.latest
            } else {
                latest
            }
        }),
    decreases lines.len(),
{
    if lines.len() > 0 {
        let next = reader.past(lines[0].len() as int);
        let rest = lines.drop_first();
        if reader.skip_partial_line || !journal::is_candidate(lines[0]) {
            lemma_latest_wins(next, latest, rest, records, config, modified_at);
        } else if records.len() > 0 {
            let (after, told) = next.observed(records[0], config, modified_at);
            lemma_latest_wins(after, told, rest, records.drop_first(), config, modified_at);
            lemma_latest_wins(after, latest, rest, records.drop_first(), config, modified_at);
        }
    }
}

/// Reading some lines and then more lines is reading all of them.
proof fn lemma_read_in_two_parts(
    reader: ReaderModel,
    latest: Option<JournalTransition>,
    first: Seq<Seq<u8>>,
    second: Seq<Seq<u8>>,
    records: Seq<JournalRecord>,
    more: Seq<JournalRecord>,
    config: AppConfig,
    modified_at: u64,
)
    requires
        records.len() == journal::candidates(reader.skip_partial_line, first).len(),
    ensures
        ({
            let half = journal::read_lines(reader, latest, first, records, config, modified_at);
            journal::read_lines(
                reader,
                latest,
                first + second,
                records + more,
                config,
                modified_at,
            ) == journal::read_lines(
                half.reader,
                half.latest,
                second,
                more,
                config,
                modified_at,
            )
        }),
    decreases first.len(),
{
    if first.len() == 0 {
        assert(first + second =~= second);
        assert(records + more =~= more);
    } else {
        let next = reader.past(first[0].len() as int);
        let rest = first.drop_first();
        assert((first + second).drop_first() =~= rest + second);
        assert((first + second)[0] == first[0]);
        if reader.skip_partial_line || !journal::is_candidate(first[0]) {
            lemma_read_in_two_parts(next, latest, rest, second, records, more, config, modified_at);
        } else {
            let (after, told) = next.observed(records[0], config, modified_at);
            let newest = if told is Some {
                told
            } else {
                latest
            };
            assert((records + more).drop_first() =~= records.drop_first() + more);
            assert((records + more)[0] == records[0]);
            lemma_read_in_two_parts(
                after,
                newest,
                rest,
                second,
                records.drop_first(),
                more,
                config,
                modified_at,
            );
        }
    }
}

/// It does not matter how the growth of a journal is cut into pieces: looking at it after `first`
/// was written, and again after `second` was, ends where one look at both ends, and the newest
/// transition of the two looks is that of the one.
pub proof fn law_growth_may_be_cut_anywhere(
    reader: ReaderModel,
    first: Seq<u8>,
    second: Seq<u8>,
    records: Seq<JournalRecord>,
    more: Seq<JournalRecord>,
    config: AppConfig,
    modified_at: u64,
)
    requires
        records.len() == journal::candidates(
            reader.skip_partial_line,
            bytes::lines(first),
        ).len(),
    ensures
        ({
            let half = journal::read_lines(
                reader,
                None,
                bytes::lines(first),
                records,
                config,
                modified_at,
            );
            let end = journal::read_lines(
                half.reader,
                None,
                bytes::lines(bytes::unfinished(first) + second),
                more,
                config,
                modified_at,
            );
            let whole = journal::read_lines(
                reader,
                None,
                bytes::lines(first + second),
                records + more,
                config,
                modified_at,
            );
            &&& half.reader.offset == reader.offset + first.len() - bytes::unfinished(first).len()
            &&& whole.reader == end.reader
            &&& whole.failed == end.failed
            &&& whole.latest == if end.latest is Some {
                end.latest
            } else {
                half.latest
            }
        }),
{
    let half = journal::read_lines(
        reader,
        None,
        bytes::lines(first),
        records,
        config,
        modified_at,
    );
    let later = bytes::lines(bytes::unfinished(first) + second);
    bytes::law_lines_of_two_writes(first, second);
    lemma_lines_take_all(first);
    lemma_enough_records(reader, None, bytes::lines(first), records, config, modified_at);
    lemma_read_in_two_parts(
        reader,
        None,
        bytes::lines(first),
        later,
        records,
        more,
        config,
        modified_at,
    );
    lemma_latest_wins(half.reader, half.latest, later, more, config, modified_at);
}

/// A turn that has ended does not begin again, and the end of another turn than the one at work
/// changes nothing.
pub proof fn law_stale_turns_change_nothing(
    reader: ReaderModel,
    record: JournalRecord,
    config: AppConfig,
    modified_at: u64,
    turn: Seq<char>,
)
    requires
        record.record_type@ == "event_msg"@,
        record.payload.turn_id matches Some(id) && id@ == turn,
        record.payload.event_type@ == "task_started"@ && reader.completed_turn == Some(turn)
            || record.payload.event_type@ == "task_complete"@ && reader.active_turn is Some
            && reader.active_turn != Some(turn),
    ensures
        reader.observed(record, config, modified_at) == (reader, None::<JournalTransition>),
{
    lemma_record_names_differ();
}

/// The end of another turn than the one at work does not keep that one from ending later.
pub proof fn law_current_turn_still_ends(
    reader: ReaderModel,
    stale: JournalRecord,
    record: JournalRecord,
    config: AppConfig,
    modified_at: u64,
    turn: Seq<char>,
    completed_at: u64,
)
    requires
        reader.active_turn == Some(turn),
        stale.record_type@ == "event_msg"@,
        stale.payload.event_type@ == "task_complete"@,
        stale.payload.turn_id matches Some(id) && id@ != turn,
        record.record_type@ == "event_msg"@,
        record.payload.event_type@ == "task_complete"@,
        record.payload.turn_id matches Some(id) && id@ == turn,
        record.payload.completed_at == Some(completed_at),
    ensures
        reader.observed(stale, config, modified_at).0.observed(record, config, modified_at) == (
            reader.completed(turn),
            Some(
                JournalTransition {
                    state: journal::completion_state(record.payload, config),
                    occurred_at: completed_at,
                },
            ),
        ),
{
    law_stale_turns_change_nothing(
        reader,
        stale,
        config,
        modified_at,
        stale.payload.turn_id->0@,
    );
    lemma_record_names_differ();
}

/// The record tells at `at` that the turn `turn` has ended, which is the one at work.
pub open spec fn ends_current_turn(
    reader: ReaderModel,
    record: JournalRecord,
    turn: Seq<char>,
    at: u64,
) -> bool {
    &&& record.record_type@ == "event_msg"@
    &&& record.payload.event_type@ == "task_complete"@
    &&& record.payload.turn_id matches Some(id) && id@ == turn
    &&& reader.active_turn matches Some(current) ==> current == turn
    &&& record.payload.completed_at == Some(at)
}

/// The end of the turn at work leads to the state that its last message tells of: failed where
/// what is looked at of it tells of a failure, asking where its last paragraph asks, and otherwise
/// done. `shown` is what is looked at, and `before` what is cut off.
pub proof fn law_finished_turn_tells_outcome(
    reader: ReaderModel,
    record: JournalRecord,
    config: AppConfig,
    modified_at: u64,
    turn: Seq<char>,
    at: u64,
    before: Seq<char>,
    shown: Seq<char>,
    k: int,
    p: int,
)
    requires
        ends_current_turn(reader, record, turn, at),
        record.payload.last_agent_message matches Some(message) && message_laws::is_shown_of(
            before,
            shown,
            message@,
        ),
        message_laws::ends_at(shown, k),
        message_laws::begins_at(shown, k, p),
    ensures
        reader.observed(record, config, modified_at).1 matches Some(told) && told.occurred_at == at
            && message_laws::is_outcome(told.state, shown, config, k, p),
{
    lemma_record_names_differ();
    message_laws::law_end_of_message_is_shown(
        before,
        shown,
        record.payload.last_agent_message->0@,
    );
    message_laws::law_stop_tells_outcome(shown, false, config, k, p);
    wire::lemma_event_names_differ();
}

/// The end of the turn at work leads to the state that a hook of its end would lead to, and leaves
/// that turn as the one that ended last, with no call pending.
pub proof fn law_finished_turn_is_a_stop(
    reader: ReaderModel,
    record: JournalRecord,
    config: AppConfig,
    modified_at: u64,
    turn: Seq<char>,
    at: u64,
    before: Seq<char>,
    shown: Seq<char>,
)
    requires
        ends_current_turn(reader, record, turn, at),
        record.payload.last_agent_message matches Some(message) ==> message_laws::is_shown_of(
            before,
            shown,
            message@,
        ),
    ensures
        ({
            let (after, told) = reader.observed(record, config, modified_at);
            let message = match record.payload.last_agent_message {
                Some(_) => Some(shown),
                None => None,
            };
            &&& told matches Some(told) && told.occurred_at == at && Some(told.state)
                == wire::hook_state("Stop"@, message, false, config)
            &&& record.payload.last_agent_message is None ==> told->0.state
                == config.events.stop_complete
            &&& text::is_blank(shown) ==> told->0.state == config.events.stop_complete
            &&& after.active_turn is None
            &&& after.completed_turn == Some(turn)
            &&& forall|call: Seq<char>| !after.pending.contains(call)
            &&& after.offset == reader.offset
            &&& after.skip_partial_line == reader.skip_partial_line
        }),
{
    lemma_record_names_differ();
    wire::lemma_event_names_differ();
    if record.payload.last_agent_message is Some {
        message_laws::law_end_of_message_is_shown(
            before,
            shown,
            record.payload.last_agent_message->0@,
        );
    }
    if text::is_blank(shown) {
        message_laws::law_silent_stop_is_done(Some(shown), false, config);
    }
}

/// The beginning of a turn, other than the one that ended last, leads to the state of a task at
/// work, and no call of an earlier turn stays pending.
pub proof fn law_begun_turn_is_at_work(
    reader: ReaderModel,
    record: JournalRecord,
    config: AppConfig,
    modified_at: u64,
    turn: Seq<char>,
)
    requires
        record.record_type@ == "event_msg"@,
        record.payload.event_type@ == "task_started"@,
        record.payload.turn_id matches Some(id) && id@ == turn,
        reader.completed_turn matches Some(last) ==> last != turn,
    ensures
        ({
            let (after, told) = reader.observed(record, config, modified_at);
            &&& match record.payload.started_at {
                Some(at) => told matches Some(told) && told.occurred_at == at && told.state
                    == config.events.user_prompt_submit,
                None => told is None,
            }
            &&& after.active_turn == Some(turn)
            &&& after.completed_turn is None
            &&& forall|call: Seq<char>| !after.pending.contains(call)
            &&& after.offset == reader.offset
            &&& after.skip_partial_line == reader.skip_partial_line
        }),
{
    lemma_record_names_differ();
}

/// Any other record changes nothing and tells nothing: one of another kind or event, one of no
/// turn, and one of a tool call without its name or its turn.
pub proof fn law_other_records_tell_nothing(
    reader: ReaderModel,
    record: JournalRecord,
    config: AppConfig,
    modified_at: u64,
)
    requires
        record.record_type@ == "event_msg"@ ==> record.payload.turn_id is None || (
        record.payload.event_type@ != "task_started"@ && record.payload.event_type@
            != "task_complete"@),
        record.record_type@ == "response_item"@ ==> (record.payload.event_type@
            != "custom_tool_call"@ && record.payload.event_type@ != "function_call"@
            && record.payload.event_type@ != "custom_tool_call_output"@
            && record.payload.event_type@ != "function_call_output"@) || (
        record.payload.call_id matches Some(call) ==> text::is_blank(call@)) || (
        record.payload.internal_chat_message_metadata_passthrough.turn_id matches Some(turn)
            ==> text::is_blank(turn@)),
    ensures
        reader.observed(record, config, modified_at) == (reader, None::<JournalTransition>),
{
    if let Some(call) = record.payload.call_id {
        text::law_trimming_takes_off_white_space(call@);
        if text::is_blank(call@) && text::trimmed(call@).len() > 0 {
            let core = text::trimmed(call@);
            let at = choose|at: int| #[trigger] text::stands_alone(call@, core, at);
            assert(core[0] == call@[at]);
        }
    }
    if let Some(turn) = record.payload.internal_chat_message_metadata_passthrough.turn_id {
        text::law_trimming_takes_off_white_space(turn@);
        if text::is_blank(turn@) && text::trimmed(turn@).len() > 0 {
            let core = text::trimmed(turn@);
            let at = choose|at: int| #[trigger] text::stands_alone(turn@, core, at);
            assert(core[0] == turn@[at]);
        }
    }
}

/// The names of records and of their events differ.
proof fn lemma_record_names_differ()
    ensures
        "event_msg"@ != "response_item"@,
        "task_started"@ != "task_complete"@,
        "custom_tool_call"@ != "custom_tool_call_output"@,
        "custom_tool_call"@ != "function_call_output"@,
        "function_call"@ != "custom_tool_call_output"@,
        "function_call"@ != "function_call_output"@,
{
    reveal_strlit("event_msg");
    reveal_strlit("response_item");
    reveal_strlit("task_started");
    reveal_strlit("task_complete");
    reveal_strlit("custom_tool_call");
    reveal_strlit("custom_tool_call_output");
    reveal_strlit("function_call");
    reveal_strlit("function_call_output");
    assert("event_msg"@.len() != "response_item"@.len());
    assert("task_started"@.len() != "task_complete"@.len());
    assert("custom_tool_call"@.len() != "custom_tool_call_output"@.len());
    assert("custom_tool_call"@.len() != "function_call_output"@.len());
    assert("function_call"@.len() != "custom_tool_call_output"@.len());
    assert("function_call"@.len() != "function_call_output"@.len());
}

/// A record tells of the tool call `call`: neither the name of the call nor that of its turn is
/// blank.
pub open spec fn names_call(record: JournalRecord, call: Seq<char>) -> bool {
    let payload = record.payload;
    &&& record.record_type@ == "response_item"@
    &&& wire::filled_in(wire::chars_in(payload.call_id)) == Some(call)
    &&& wire::filled_in(
        wire::chars_in(payload.internal_chat_message_metadata_passthrough.turn_id),
    ) is Some
}

/// A record tells that the tool call `call` has begun.
pub open spec fn opens_call(record: JournalRecord, call: Seq<char>) -> bool {
    let event = record.payload.event_type@;
    names_call(record, call) && (event == "custom_tool_call"@ || event == "function_call"@)
}

/// A record tells that the tool call `call` has ended.
pub open spec fn ends_call(record: JournalRecord, call: Seq<char>) -> bool {
    let event = record.payload.event_type@;
    names_call(record, call) && (event == "custom_tool_call_output"@ || event
        == "function_call_output"@)
}

/// A call that begins is pending, and reports nothing. One that ends reports that the task goes on
/// if and only if no other call is pending: one finished call never hides another.
pub proof fn law_finished_call_hides_no_other(
    reader: ReaderModel,
    record: JournalRecord,
    config: AppConfig,
    modified_at: u64,
    call: Seq<char>,
)
    ensures
        opens_call(record, call) ==> reader.observed(record, config, modified_at) == (
            reader.with_pending(reader.pending.insert(call)),
            None::<JournalTransition>,
        ),
        ends_call(record, call) ==> reader.observed(record, config, modified_at) == (
            reader.with_pending(reader.pending.remove(call)),
            if forall|other: Seq<char>| reader.pending.contains(other) ==> other == call {
                Some(
                    JournalTransition {
                        state: config.events.post_tool_success,
                        occurred_at: modified_at,
                    },
                )
            } else {
                None
            },
        ),
{
    lemma_record_names_differ();
    let left = reader.pending.remove(call);
    if forall|other: Seq<char>| reader.pending.contains(other) ==> other == call {
        assert(left =~= Set::<Seq<char>>::empty());
    } else {
        let other = choose|other: Seq<char>| reader.pending.contains(other) && other != call;
        assert(left.contains(other));
    }
}

/// What is known after some records.
pub open spec fn observed_all(
    reader: ReaderModel,
    records: Seq<JournalRecord>,
    config: AppConfig,
    modified_at: u64,
) -> ReaderModel
    decreases records.len(),
{
    if records.len() == 0 {
        reader
    } else {
        observed_all(reader, records.drop_last(), config, modified_at).observed(
            records.last(),
            config,
            modified_at,
        ).0
    }
}

/// A record begins a turn that has not ended last, or ends the one at work.
pub open spec fn changes_turn(reader: ReaderModel, record: JournalRecord) -> bool {
    let event = record.payload.event_type@;
    record.record_type@ == "event_msg"@ && (record.payload.turn_id matches Some(turn) && (event
        == "task_started"@ && reader.completed_turn != Some(turn@) || event == "task_complete"@ && (
    reader.active_turn is None || reader.active_turn == Some(turn@))))
}

/// The tool call `call` has begun with the record at `i`, and since then neither it has ended nor
/// the turn has changed.
pub open spec fn is_open_since(
    reader: ReaderModel,
    records: Seq<JournalRecord>,
    config: AppConfig,
    modified_at: u64,
    call: Seq<char>,
    i: int,
) -> bool {
    &&& 0 <= i < records.len()
    &&& opens_call(records[i], call)
    &&& forall|j: int|
        i < j < records.len() ==> !ends_call(#[trigger] records[j], call) && !changes_turn(
            observed_all(reader, records.take(j), config, modified_at),
            records[j],
        )
}

/// The calls that are pending after some records are those that have begun since the turn changed
/// last and have not ended.
#[verifier::rlimit(40)]
pub proof fn law_pending_calls_are_the_open_ones(
    reader: ReaderModel,
    records: Seq<JournalRecord>,
    config: AppConfig,
    modified_at: u64,
    call: Seq<char>,
)
    requires
        !reader.pending.contains(call),
    ensures
        observed_all(reader, records, config, modified_at).pending.contains(call) <==> exists|i: int|
            #[trigger] is_open_since(reader, records, config, modified_at, call, i),
    decreases records.len(),
{
    if records.len() > 0 {
        let before = records.drop_last();
        let record = records.last();
        let last = records.len() - 1;
        let known = observed_all(reader, before, config, modified_at);
        law_pending_calls_are_the_open_ones(reader, before, config, modified_at, call);
        lemma_record_names_differ();
        assert(records.take(last) =~= before);
        assert forall|i: int| 0 <= i < last implies is_open_since(
            reader,
            records,
            config,
            modified_at,
            call,
            i,
        ) == (is_open_since(reader, before, config, modified_at, call, i) && !ends_call(record, call)
            && !changes_turn(known, record)) by {
            if is_open_since(reader, records, config, modified_at, call, i) {
                assert(records[last] == record);
                assert forall|j: int| i < j < before.len() implies !ends_call(
                    #[trigger] before[j],
                    call,
                ) && !changes_turn(
                    observed_all(reader, before.take(j), config, modified_at),
                    before[j],
                ) by {
                    assert(records[j] == before[j]);
                    assert(records.take(j) =~= before.take(j));
                }
            }
            if is_open_since(reader, before, config, modified_at, call, i) && !ends_call(
                record,
                call,
            ) && !changes_turn(known, record) {
                assert forall|j: int| i < j < records.len() implies !ends_call(
                    #[trigger] records[j],
                    call,
                ) && !changes_turn(
                    observed_all(reader, records.take(j), config, modified_at),
                    records[j],
                ) by {
                    if j < last {
                        assert(records[j] == before[j]);
                        assert(records.take(j) =~= before.take(j));
                    }
                }
            }
        }
        assert(is_open_since(reader, records, config, modified_at, call, last) == opens_call(
            record,
            call,
        ));
        let after = observed_all(reader, records, config, modified_at);
        assert(after.pending.contains(call) == (opens_call(record, call) || known.pending.contains(
            call,
        ) && !ends_call(record, call) && !changes_turn(known, record)));
        if after.pending.contains(call) {
            if opens_call(record, call) {
                assert(is_open_since(reader, records, config, modified_at, call, last));
            } else {
                let i = choose|i: int|
                    is_open_since(reader, before, config, modified_at, call, i);
                assert(is_open_since(reader, records, config, modified_at, call, i));
            }
        }
        if exists|i: int| is_open_since(reader, records, config, modified_at, call, i) {
            let i = choose|i: int| is_open_since(reader, records, config, modified_at, call, i);
            if i < last {
                assert(is_open_since(reader, before, config, modified_at, call, i));
            }
        }
    }
}

/// The first reading of a journal takes no more than a bounded part of its end.
pub proof fn law_recovery_is_bounded(length: nat)
    ensures
        0 <= journal::recovery_start(length as int) <= length,
        length - journal::recovery_start(length as int) <= journal::RECOVERY_TAIL_BYTES,
        length <= journal::RECOVERY_TAIL_BYTES ==> journal::recovery_start(length as int) == 0,
{
}

/// Of the tasks that are no concern of ours a bounded number is remembered, each once, and the
/// newest is among them.
pub proof fn law_ignored_tasks_are_bounded(ignored: Seq<Seq<char>>, session: Seq<char>)
    requires
        ignored.no_duplicates(),
        ignored.len() <= IGNORED_SESSION_CACHE_CAPACITY,
    ensures
        ({
            let after = journal_tracker::remembered(ignored, session);
            &&& after.len() <= IGNORED_SESSION_CACHE_CAPACITY
            &&& after.no_duplicates()
            &&& after.contains(session)
        }),
{
    let after = journal_tracker::remembered(ignored, session);
    if !ignored.contains(session) {
        let grown = ignored.push(session);
        assert forall|i: int, j: int|
            0 <= i < grown.len() && 0 <= j < grown.len() && i != j implies grown[i] != grown[j] by {
            if i == ignored.len() {
                assert(ignored.contains(ignored[j]));
            } else if j == ignored.len() {
                assert(ignored.contains(ignored[i]));
            }
        }
        assert(after.last() == session);
        assert(after[after.len() - 1] == session);
    }
}

/// Taking a task out of those that are no concern of ours keeps the others, each once.
pub proof fn law_forgotten_task_leaves_the_others(
    ignored: Seq<Seq<char>>,
    session: Seq<char>,
    other: Seq<char>,
)
    requires
        ignored.no_duplicates(),
    ensures
        ({
            let after = journal_tracker::without(ignored, session);
            &&& after.no_duplicates()
            &&& after.len() <= ignored.len()
            &&& after.contains(other) <==> ignored.contains(other) && other != session
        }),
    decreases ignored.len(),
{
    if ignored.len() > 0 {
        let rest = ignored.drop_last();
        let last = ignored.last();
        let before = journal_tracker::without(rest, session);
        let after = journal_tracker::without(ignored, session);
        law_forgotten_task_leaves_the_others(rest, session, other);
        law_forgotten_task_leaves_the_others(rest, session, last);
        assert(!rest.contains(last));
        assert(ignored.contains(other) <==> rest.contains(other) || other == last) by {
            if rest.contains(other) {
                assert(ignored[rest.index_of(other)] == other);
            }
            assert(ignored[ignored.len() - 1] == last);
            if ignored.contains(other) && other != last {
                assert(rest[ignored.index_of(other)] == other);
            }
        }
        if last != session {
            assert(after == before.push(last));
            assert(after.contains(other) <==> before.contains(other) || other == last) by {
                if before.contains(other) {
                    assert(after[before.index_of(other)] == other);
                }
                assert(after[after.len() - 1] == last);
                if after.contains(other) && other != last {
                    assert(before[after.index_of(other)] == other);
                }
            }
            assert forall|i: int, j: int|
                0 <= i < after.len() && 0 <= j < after.len() && i != j implies after[i]
                != after[j] by {
                if i == before.len() {
                    assert(before.contains(before[j]));
                } else if j == before.len() {
                    assert(before.contains(before[i]));
                }
            }
        }
    }
}

/// When the bound is reached, the task that was remembered longest makes room.
pub proof fn law_longest_ignored_task_makes_room(ignored: Seq<Seq<char>>, session: Seq<char>)
    requires
        ignored.len() == IGNORED_SESSION_CACHE_CAPACITY,
        !ignored.contains(session),
    ensures
        journal_tracker::remembered(ignored, session) == ignored.skip(1).push(session),
{
    assert(ignored.push(session).skip(1) =~= ignored.skip(1).push(session));
}

/// A task that was found to be no concern of ours is not looked at again.
pub proof fn law_ignored_task_stays_ignored(
    tracker: TrackerModel,
    session: Seq<char>,
    path: Seq<char>,
    length: int,
    later_path: Seq<char>,
    verdict: Result<(), TranscriptError>,
)
    requires
        tracker.ignored.no_duplicates(),
        tracker.ignored.len() <= IGNORED_SESSION_CACHE_CAPACITY,
    ensures
        tracker.registered(session, path, RegistrationStep::Inspect, false, length).step_for(
            session,
            later_path,
            verdict,
        ) == RegistrationStep::Ignored,
{
    law_ignored_tasks_are_bounded(tracker.ignored, session);
}

/// A path that was rejected leaves the tracker as it is.
pub proof fn law_rejected_journal_changes_nothing(
    tracker: TrackerModel,
    session: Seq<char>,
    path: Seq<char>,
    error: TranscriptError,
    top_level: bool,
    length: int,
)
    ensures
        tracker.registered(session, path, RegistrationStep::Rejected(error), top_level, length)
            == tracker,
{
}

/// A desktop task that was taken up is known from then on.
pub proof fn law_registered_journal_is_known(
    tracker: TrackerModel,
    session: Seq<char>,
    path: Seq<char>,
    length: int,
)
    requires
        tracker.step_for(session, path, Ok(())) == RegistrationStep::Inspect,
    ensures
        tracker.registered(session, path, RegistrationStep::Inspect, true, length).step_for(
            session,
            path,
            Ok(()),
        ) == RegistrationStep::Known,
{
}

/// A look at one journal leaves every other journal as it is.
pub proof fn law_other_journals_are_untouched(
    polling: Polling,
    seen: Observation,
    config: AppConfig,
    other: Seq<char>,
)
    requires
        seen.session_id@ != other,
    ensures
        ({
            let after = polling.with_observation(seen, config).tracker.readers;
            let before = polling.tracker.readers;
            &&& after.contains_key(other) == before.contains_key(other)
            &&& before.contains_key(other) ==> after[other] == before[other]
        }),
{
}

/// A task whose journal is gone is reported, and not followed any more.
pub proof fn law_missing_journal_is_dropped(polling: Polling, seen: Observation, config: AppConfig)
    requires
        polling.tracker.readers.contains_key(seen.session_id@),
        seen.finding is Missing,
    ensures
        ({
            let after = polling.with_observation(seen, config);
            &&& !after.tracker.readers.contains_key(seen.session_id@)
            &&& after.removed == polling.removed.push(seen.session_id@)
        }),
{
}

} // verus!
