//! The journal that a task writes, followed line by line to correct what hooks have missed.
//!
//! A journal is read in three steps. [`JournalReader::candidate_lines`] picks the lines that bear
//! on the state of the task, their JSON is turned into [`JournalRecord`]s elsewhere, and
//! [`JournalReader::poll`] takes the records in.
use vstd::prelude::*;
use vstd::slice::slice_subrange;
use vstd::utf8::encode_utf8;

use crate::bytes;
use crate::collections::StringSet;
use crate::config::AppConfig;
use crate::json::Json;
use crate::state::StateKind;
use crate::text;
use crate::wire;

verus! {

/// How much of the end of a journal is read at first.
pub const RECOVERY_TAIL_BYTES: u64 = 8388608;

/// How long the first line of a journal may be.
pub const SESSION_META_MAX_BYTES: usize = 262144;

/// How far into the payload of a line the type of the event is looked for.
pub const PAYLOAD_PREFIX_BYTES: usize = 256;

/// A state that a task took on.
#[derive(Clone, Copy, Debug, PartialEq, Eq, Structural)]
pub struct JournalTransition {
    pub state: StateKind,
    pub occurred_at: u64,
}

/// A line of a journal.
#[derive(Clone, Debug)]
pub struct JournalRecord {
    pub record_type: String,
    pub payload: JournalPayload,
}

/// What a line of a journal tells.
#[derive(Clone, Debug)]
pub struct JournalPayload {
    pub event_type: String,
    pub turn_id: Option<String>,
    pub call_id: Option<String>,
    pub internal_chat_message_metadata_passthrough: JournalMessageMetadata,
    pub started_at: Option<u64>,
    pub completed_at: Option<u64>,
    pub last_agent_message: Option<String>,
}

/// The turn that a line of a journal belongs to.
#[derive(Clone, Debug)]
pub struct JournalMessageMetadata {
    pub turn_id: Option<String>,
}

/// The first line of a journal.
#[derive(Debug)]
pub struct SessionMetaRecord {
    pub record_type: String,
    pub payload: SessionMetaPayload,
}

/// Where a task comes from.
#[derive(Debug)]
pub struct SessionMetaPayload {
    pub id: String,
    pub source: Json,
    pub originator: String,
}

/// Why a journal could not be read.
#[derive(Clone, Copy, Debug, PartialEq, Eq, Structural)]
pub enum JournalError {
    /// A line that bears on the state of the task is not what it should be.
    InvalidRecord,
    /// The first line is too long.
    SessionMetaTooLong,
}

/// The bytes of a string.
pub open spec fn utf8(s: Seq<char>) -> Seq<u8> {
    encode_utf8(s)
}

/// A payload tells of the beginning or the end of a turn.
pub open spec fn tells_of_turn(payload: Seq<u8>) -> bool {
    ||| text::occurs(payload, utf8("\"type\":\"task_started\""@))
    ||| text::occurs(payload, utf8("\"type\":\"task_complete\""@))
}

/// A payload tells of the beginning or the end of a tool call.
pub open spec fn tells_of_tool(payload: Seq<u8>) -> bool {
    ||| text::occurs(payload, utf8("\"type\":\"custom_tool_call\""@))
    ||| text::occurs(payload, utf8("\"type\":\"custom_tool_call_output\""@))
    ||| text::occurs(payload, utf8("\"type\":\"function_call\""@))
    ||| text::occurs(payload, utf8("\"type\":\"function_call_output\""@))
}

/// A line bears on the state of the task: its header, and the beginning of its payload, say so.
pub open spec fn is_candidate(line: Seq<u8>) -> bool {
    match bytes::found(line, utf8(",\"payload\":"@)) {
        Some(p) => {
            let header = line.take(p);
            let end = if p + PAYLOAD_PREFIX_BYTES <= line.len() {
                p + PAYLOAD_PREFIX_BYTES
            } else {
                line.len() as int
            };
            let payload = line.subrange(p, end);
            ||| text::occurs(header, utf8("\"type\":\"event_msg\""@)) && tells_of_turn(payload)
            ||| text::occurs(header, utf8("\"type\":\"response_item\""@)) && tells_of_tool(payload)
        },
        None => false,
    }
}

/// Whether a line bears on the state of the task.
pub fn is_lifecycle_candidate(line: &[u8]) -> (r: bool)
    ensures
        r == is_candidate(line@),
{
    match bytes::find_bytes(line, ",\"payload\":".as_bytes()) {
        Some(payload_start) => {
            let count: usize = line.len();
            let payload_end: usize = if count - payload_start >= PAYLOAD_PREFIX_BYTES {
                payload_start + PAYLOAD_PREFIX_BYTES
            } else {
                count
            };
            let header: &[u8] = slice_subrange(line, 0, payload_start);
            let payload: &[u8] = slice_subrange(line, payload_start, payload_end);
            assert(header@ == line@.take(payload_start as int));
            let turn: bool = bytes::contains_bytes(header, "\"type\":\"event_msg\"".as_bytes()) && (
            bytes::contains_bytes(payload, "\"type\":\"task_started\"".as_bytes())
                || bytes::contains_bytes(payload, "\"type\":\"task_complete\"".as_bytes()));
            let tool: bool = bytes::contains_bytes(header, "\"type\":\"response_item\"".as_bytes())
                && (bytes::contains_bytes(payload, "\"type\":\"custom_tool_call\"".as_bytes())
                || bytes::contains_bytes(payload, "\"type\":\"custom_tool_call_output\"".as_bytes())
                || bytes::contains_bytes(payload, "\"type\":\"function_call\"".as_bytes())
                || bytes::contains_bytes(payload, "\"type\":\"function_call_output\"".as_bytes()));
            turn || tool
        },
        None => false,
    }
}

/// How far a journal has been read, and what its lines have told.
#[verifier::ext_equal]
pub struct ReaderModel {
    pub offset: int,
    pub skip_partial_line: bool,
    pub active_turn: Option<Seq<char>>,
    pub completed_turn: Option<Seq<char>>,
    pub pending: Set<Seq<char>>,
}

/// A journal of which nothing is known but where to read on.
pub open spec fn reader_at(offset: int, skip_partial_line: bool) -> ReaderModel {
    ReaderModel {
        offset,
        skip_partial_line,
        active_turn: None,
        completed_turn: None,
        pending: Set::empty(),
    }
}

/// The name of a tool call, where both it and its turn are given.
pub open spec fn tool_call_of(payload: JournalPayload) -> Option<Seq<char>> {
    let call = wire::filled_in(wire::chars_in(payload.call_id));
    let turn = wire::filled_in(
        wire::chars_in(payload.internal_chat_message_metadata_passthrough.turn_id),
    );
    if turn is Some {
        call
    } else {
        None
    }
}

/// The state that the end of a turn leads to.
pub open spec fn completion_state(payload: JournalPayload, config: AppConfig) -> StateKind {
    wire::stop_state(
        match payload.last_agent_message {
            Some(message) => Some(
                text::longest_end(message@, wire::MAX_MESSAGE_TAIL_BYTES as nat),
            ),
            None => None,
        },
        config,
    )
}

/// A transition at the time `occurred_at`, where that is given.
pub open spec fn transition_at(state: StateKind, occurred_at: Option<u64>) -> Option<
    JournalTransition,
> {
    match occurred_at {
        Some(occurred_at) => Some(JournalTransition { state, occurred_at }),
        None => None,
    }
}

impl ReaderModel {
    /// The calls that have begun and not ended, changed.
    pub open spec fn with_pending(self, pending: Set<Seq<char>>) -> ReaderModel {
        ReaderModel { pending, ..self }
    }

    /// A turn has begun.
    pub open spec fn started(self, turn: Seq<char>) -> ReaderModel {
        ReaderModel {
            active_turn: Some(turn),
            completed_turn: None,
            pending: Set::empty(),
            ..self
        }
    }

    /// A turn has ended.
    pub open spec fn completed(self, turn: Seq<char>) -> ReaderModel {
        ReaderModel {
            active_turn: None,
            completed_turn: Some(turn),
            pending: Set::empty(),
            ..self
        }
    }

    /// What is known after a record, and the transition that the record tells of.
    pub open spec fn observed(
        self,
        record: JournalRecord,
        config: AppConfig,
        modified_at: u64,
    ) -> (ReaderModel, Option<JournalTransition>) {
        let event = record.payload.event_type@;
        if record.record_type@ == "response_item"@ {
            match tool_call_of(record.payload) {
                Some(call) => if event == "custom_tool_call"@ || event == "function_call"@ {
                    (self.with_pending(self.pending.insert(call)), None)
                } else if event == "custom_tool_call_output"@ || event == "function_call_output"@ {
                    let left = self.pending.remove(call);
                    (
                        self.with_pending(left),
                        if left == Set::<Seq<char>>::empty() {
                            Some(
                                JournalTransition {
                                    state: config.events.post_tool_success,
                                    occurred_at: modified_at,
                                },
                            )
                        } else {
                            None
                        },
                    )
                } else {
                    (self, None)
                },
                None => (self, None),
            }
        } else if record.record_type@ == "event_msg"@ {
            match record.payload.turn_id {
                Some(turn) => if event == "task_started"@ && self.completed_turn != Some(turn@) {
                    (
                        self.started(turn@),
                        transition_at(config.events.user_prompt_submit, record.payload.started_at),
                    )
                } else if event == "task_complete"@ && (self.active_turn is None
                    || self.active_turn == Some(turn@)) {
                    (
                        self.completed(turn@),
                        transition_at(
                            completion_state(record.payload, config),
                            record.payload.completed_at,
                        ),
                    )
                } else {
                    (self, None)
                },
                None => (self, None),
            }
        } else {
            (self, None)
        }
    }

    /// The journal is `length` bytes long now. A journal that has become shorter is read anew.
    pub open spec fn opened(self, length: int) -> ReaderModel {
        if length < self.offset {
            reader_at(0, false)
        } else {
            self
        }
    }

    /// The reader has passed a line of `n` bytes.
    pub open spec fn past(self, n: int) -> ReaderModel {
        ReaderModel { offset: self.offset + n, skip_partial_line: false, ..self }
    }
}

/// The lines that bear on the state of the task, without the first where it is to be skipped.
pub open spec fn candidates(skip: bool, lines: Seq<Seq<u8>>) -> Seq<Seq<u8>>
    decreases lines.len(),
{
    if lines.len() == 0 {
        Seq::empty()
    } else if !skip && is_candidate(lines[0]) {
        seq![lines[0]] + candidates(false, lines.drop_first())
    } else {
        candidates(false, lines.drop_first())
    }
}

/// What came of reading some lines.
#[verifier::ext_equal]
pub struct Reading {
    pub reader: ReaderModel,
    pub latest: Option<JournalTransition>,
    /// A line that bears on the state of the task had no record; the reader stands behind it.
    pub failed: bool,
}

/// Some lines are read, one after the other. `records` are the records of those that bear on the
/// state of the task, as far as they could be made out.
pub open spec fn read_lines(
    reader: ReaderModel,
    latest: Option<JournalTransition>,
    lines: Seq<Seq<u8>>,
    records: Seq<JournalRecord>,
    config: AppConfig,
    modified_at: u64,
) -> Reading
    decreases lines.len(),
{
    if lines.len() == 0 {
        Reading { reader, latest, failed: false }
    } else {
        let next = reader.past(lines[0].len() as int);
        let rest = lines.drop_first();
        if reader.skip_partial_line || !is_candidate(lines[0]) {
            read_lines(next, latest, rest, records, config, modified_at)
        } else if records.len() == 0 {
            Reading { reader: next, latest, failed: true }
        } else {
            let (after, told) = next.observed(records[0], config, modified_at);
            let newest = if told is Some {
                told
            } else {
                latest
            };
            read_lines(after, newest, rest, records.drop_first(), config, modified_at)
        }
    }
}

/// What comes of a look at a journal of `length` bytes, whose bytes from the reader's place on are
/// `content`.
pub open spec fn polled(
    reader: ReaderModel,
    length: int,
    content: Seq<u8>,
    records: Seq<JournalRecord>,
    config: AppConfig,
    modified_at: u64,
) -> Reading {
    let opened = reader.opened(length);
    if length == opened.offset {
        Reading { reader: opened, latest: None, failed: false }
    } else {
        read_lines(opened, None, bytes::lines(content), records, config, modified_at)
    }
}

/// What a look at a journal reports. While a tool call is pending nothing is reported.
pub open spec fn reported(reading: Reading) -> Result<Option<JournalTransition>, JournalError> {
    if reading.failed {
        Err(JournalError::InvalidRecord)
    } else if reading.reader.pending == Set::<Seq<char>>::empty() {
        Ok(reading.latest)
    } else {
        Ok(None)
    }
}

/// Where the first reading of a journal begins.
pub open spec fn recovery_start(length: int) -> int {
    if length > RECOVERY_TAIL_BYTES {
        length - RECOVERY_TAIL_BYTES
    } else {
        0
    }
}

/// A reader for the end of a journal of `length` bytes. `previous` is the byte before that end.
pub open spec fn tail_reader(length: int, previous: u8) -> ReaderModel {
    let start = recovery_start(length);
    reader_at(start, start > 0 && previous != bytes::NEWLINE)
}

/// Follows a journal.
#[derive(Debug)]
pub struct JournalReader {
    path: String,
    offset: u64,
    skip_partial_line: bool,
    active_turn: Option<String>,
    completed_turn: Option<String>,
    pending_tool_calls: StringSet,
}

impl View for JournalReader {
    type V = ReaderModel;

    closed spec fn view(&self) -> ReaderModel {
        ReaderModel {
            offset: self.offset as int,
            skip_partial_line: self.skip_partial_line,
            active_turn: wire::chars_in(self.active_turn),
            completed_turn: wire::chars_in(self.completed_turn),
            pending: self.pending_tool_calls@,
        }
    }
}

/// Whether an optional string is given and equal to `text`.
fn is_turn(turn: &Option<String>, text: &str) -> (r: bool)
    ensures
        r == (wire::chars_in(*turn) == Some(text@)),
{
    match turn {
        Some(turn) => text::same_text(turn.as_str(), text),
        None => false,
    }
}

/// The name of a tool call, where both it and its turn are given.
fn correlated_tool_call_id(payload: &JournalPayload) -> (r: Option<String>)
    ensures
        wire::chars_in(r) == tool_call_of(*payload),
{
    let call: Option<&str> = wire::non_empty(&payload.call_id);
    let turn: Option<&str> = wire::non_empty(
        &payload.internal_chat_message_metadata_passthrough.turn_id,
    );
    if turn.is_none() {
        return None;
    }
    match call {
        Some(call) => Some(call.to_owned()),
        None => None,
    }
}

/// Where the first reading of a journal of `length` bytes begins.
pub fn recovery_offset(length: u64) -> (r: u64)
    ensures
        r == recovery_start(length as int),
{
    if length > RECOVERY_TAIL_BYTES {
        length - RECOVERY_TAIL_BYTES
    } else {
        0
    }
}

impl JournalReader {
    /// The path of the journal.
    pub closed spec fn spec_path(&self) -> Seq<char> {
        self.path@
    }

    /// The path of the journal.
    pub fn path(&self) -> (r: &str)
        ensures
            r@ == self.spec_path(),
    {
        self.path.as_str()
    }

    /// A reader for what is written to a journal from now on, `length` bytes being there.
    pub fn follow(path: &str, length: u64) -> (r: Self)
        ensures
            r@ == reader_at(length as int, false),
            r.spec_path() == path@,
    {
        JournalReader {
            path: path.to_owned(),
            offset: length,
            skip_partial_line: false,
            active_turn: None,
            completed_turn: None,
            pending_tool_calls: StringSet::new(),
        }
    }

    /// A reader for the end of a journal of `length` bytes. `previous` is the byte before that end.
    pub fn at_tail(path: &str, length: u64, previous: u8) -> (r: Self)
        ensures
            r@ == tail_reader(length as int, previous),
            r.spec_path() == path@,
    {
        let offset: u64 = recovery_offset(length);
        JournalReader {
            path: path.to_owned(),
            offset,
            skip_partial_line: offset > 0 && previous != bytes::NEWLINE,
            active_turn: None,
            completed_turn: None,
            pending_tool_calls: StringSet::new(),
        }
    }

    /// Reads the end of a journal of `length` bytes. `previous` is the byte before that end and
    /// `content` the end itself; `records` are the records of its
    /// [`candidate_lines`](Self::candidate_lines), as far as they could be made out.
    pub fn recover(
        path: &str,
        length: u64,
        previous: u8,
        modified_at: u64,
        content: &[u8],
        records: &[JournalRecord],
        config: &AppConfig,
    ) -> (r: Result<(Self, Option<JournalTransition>), JournalError>)
        requires
            recovery_start(length as int) + content@.len() <= u64::MAX,
        ensures
            ({
                let reading = polled(
                    tail_reader(length as int, previous),
                    length as int,
                    content@,
                    records@,
                    *config,
                    modified_at,
                );
                match r {
                    Ok((reader, latest)) => {
                        &&& reader@ == reading.reader
                        &&& reader.spec_path() == path@
                        &&& Ok::<Option<JournalTransition>, JournalError>(latest) == reported(
                            reading,
                        )
                    },
                    Err(error) => Err::<Option<JournalTransition>, JournalError>(error) == reported(
                        reading,
                    ),
                }
            }),
    {
        let mut reader: JournalReader = JournalReader::at_tail(path, length, previous);
        match reader.poll(length, modified_at, content, records, config) {
            Ok(latest) => Ok((reader, latest)),
            Err(error) => Err(error),
        }
    }

    /// Where to read on in a journal of `length` bytes, where there is anything to read.
    pub fn read_start(&self, length: u64) -> (r: Option<u64>)
        ensures
            match r {
                Some(start) => start == self@.opened(length as int).offset && start != length,
                None => self@.opened(length as int).offset == length,
            },
    {
        let start: u64 = if length < self.offset {
            0
        } else {
            self.offset
        };
        if start == length {
            None
        } else {
            Some(start)
        }
    }

    /// Takes note of the present length of the journal. A journal that has become shorter is read
    /// anew. The result says whether there is anything to read.
    fn open(&mut self, length: u64) -> (r: bool)
        ensures
            final(self)@ == old(self)@.opened(length as int),
            final(self).spec_path() == old(self).spec_path(),
            r == (length != final(self)@.offset),
    {
        if length < self.offset {
            self.offset = 0;
            self.skip_partial_line = false;
            self.active_turn = None;
            self.completed_turn = None;
            self.pending_tool_calls.clear();
        }
        length != self.offset
    }

    /// The lines that bear on the state of the task, of a journal of `length` bytes that holds
    /// `content` from the reader's place on.
    pub fn candidate_lines(&self, length: u64, content: &[u8]) -> (r: Vec<Vec<u8>>)
        ensures
            r@.map_values(|line: Vec<u8>| line@) == candidates(
                self@.opened(length as int).skip_partial_line,
                bytes::lines(content@),
            ),
    {
        let total: usize = content.len();
        let mut found: Vec<Vec<u8>> = Vec::new();
        let mut start: usize = 0;
        let mut skip: bool = length >= self.offset && self.skip_partial_line;
        let ghost all = candidates(skip, bytes::lines(content@));
        assert(content@.skip(0) == content@);
        assert(found@.map_values(|line: Vec<u8>| line@) + all == all);
        loop
            invariant
                total == content@.len(),
                start <= total,
                found@.map_values(|line: Vec<u8>| line@) + candidates(
                    skip,
                    bytes::lines(content@.skip(start as int)),
                ) == all,
            ensures
                found@.map_values(|line: Vec<u8>| line@) == all,
            decreases content@.len() - start,
        {
            let ghost rest = content@.skip(start as int);
            match bytes::line_length(content, start) {
                Some(length) => {
                    let line: &[u8] = slice_subrange(content, start, start + length);
                    let ghost lines = bytes::lines(rest);
                    let ghost before = found@;
                    proof {
                        assert(line@ == rest.take(length as int));
                        assert(rest.skip(length as int) == content@.skip(start + length));
                        assert(lines[0] == line@);
                        assert(lines.drop_first() == bytes::lines(content@.skip(start + length)));
                    }
                    if !skip && is_lifecycle_candidate(line) {
                        found.push(bytes::copied(line));
                        proof {
                            let views = |line: Vec<u8>| line@;
                            let later = candidates(false, lines.drop_first());
                            assert(found@.last()@ == line@);
                            assert(found@.map_values(views) == before.map_values(views).push(line@));
                            assert(before.map_values(views).push(line@) + later
                                == before.map_values(views) + (seq![line@] + later));
                        }
                    }
                    skip = false;
                    start += length;
                },
                None => {
                    proof {
                        assert(bytes::lines(rest) == Seq::<Seq<u8>>::empty());
                        let views = |line: Vec<u8>| line@;
                        assert(found@.map_values(views) + Seq::<Seq<u8>>::empty()
                            == found@.map_values(views));
                    }
                    break;
                },
            }
        }
        found
    }

    /// Takes in what a journal of `length` bytes holds from the reader's place on. `records` are
    /// the records of its [`candidate_lines`](Self::candidate_lines), as far as they could be made
    /// out. An unfinished line is left for later. A line without its record ends the reading; the
    /// next one goes on behind it.
    pub fn poll(
        &mut self,
        length: u64,
        modified_at: u64,
        content: &[u8],
        records: &[JournalRecord],
        config: &AppConfig,
    ) -> (r: Result<Option<JournalTransition>, JournalError>)
        requires
            old(self)@.opened(length as int).offset + content@.len() <= u64::MAX,
        ensures
            ({
                let reading = polled(
                    old(self)@,
                    length as int,
                    content@,
                    records@,
                    *config,
                    modified_at,
                );
                &&& final(self)@ == reading.reader
                &&& r == reported(reading)
            }),
            final(self).spec_path() == old(self).spec_path(),
    {
        if !self.open(length) {
            return Ok(None);
        }
        let ghost path = self.spec_path();
        let ghost reading = polled(
            old(self)@,
            length as int,
            content@,
            records@,
            *config,
            modified_at,
        );
        let total: usize = content.len();
        let mut latest: Option<JournalTransition> = None;
        let mut start: usize = 0;
        let mut next: usize = 0;
        assert(content@.skip(0) == content@);
        assert(records@.skip(0) == records@);
        loop
            invariant
                total == content@.len(),
                start <= total,
                next <= records@.len(),
                path == old(self).spec_path(),
                reading == polled(
                    old(self)@,
                    length as int,
                    content@,
                    records@,
                    *config,
                    modified_at,
                ),
                self@.offset + content@.len() - start <= u64::MAX,
                self.spec_path() == path,
                reading == read_lines(
                    self@,
                    latest,
                    bytes::lines(content@.skip(start as int)),
                    records@.skip(next as int),
                    *config,
                    modified_at,
                ),
            ensures
                reading == (Reading { reader: self@, latest, failed: false }),
                self.spec_path() == path,
            decreases content@.len() - start,
        {
            let ghost rest = content@.skip(start as int);
            let ghost before = self@;
            let ghost left = records@.skip(next as int);
            match bytes::line_length(content, start) {
                Some(count) => {
                    let line: &[u8] = slice_subrange(content, start, start + count);
                    let ghost lines = bytes::lines(rest);
                    proof {
                        assert(line@ == rest.take(count as int));
                        assert(rest.skip(count as int) == content@.skip(start + count));
                        assert(lines[0] == line@);
                        assert(lines.drop_first() == bytes::lines(content@.skip(start + count)));
                    }
                    let skip: bool = self.skip_partial_line;
                    self.offset += count as u64;
                    self.skip_partial_line = false;
                    start += count;
                    assert(self@ == before.past(count as int));
                    if !skip && is_lifecycle_candidate(line) {
                        if next >= records.len() {
                            return Err(JournalError::InvalidRecord);
                        }
                        assert(left.drop_first() == records@.skip(next + 1));
                        let told: Option<JournalTransition> = self.observe(
                            &records[next],
                            config,
                            modified_at,
                        );
                        if told.is_some() {
                            latest = told;
                        }
                        next += 1;
                    }
                },
                None => {
                    assert(bytes::lines(rest) == Seq::<Seq<u8>>::empty());
                    break;
                },
            }
        }
        if self.pending_tool_calls.is_empty() {
            assert(self@.pending =~= Set::<Seq<char>>::empty());
            Ok(latest)
        } else {
            Ok(None)
        }
    }

    /// Takes a record in. The result is the transition that the record tells of.
    pub fn observe(&mut self, record: &JournalRecord, config: &AppConfig, modified_at: u64) -> (r: Option<
        JournalTransition,
    >)
        ensures
            (final(self)@, r) == old(self)@.observed(*record, *config, modified_at),
            final(self).spec_path() == old(self).spec_path(),
            final(self)@.offset == old(self)@.offset,
    {
        let event: &str = record.payload.event_type.as_str();
        if text::same_text(record.record_type.as_str(), "response_item") {
            match correlated_tool_call_id(&record.payload) {
                Some(call_id) => {
                    if text::same_text(event, "custom_tool_call") || text::same_text(
                        event,
                        "function_call",
                    ) {
                        let _ = self.pending_tool_calls.insert(call_id);
                        return None;
                    }
                    if text::same_text(event, "custom_tool_call_output") || text::same_text(
                        event,
                        "function_call_output",
                    ) {
                        let _ = self.pending_tool_calls.remove(call_id.as_str());
                        if self.pending_tool_calls.is_empty() {
                            assert(self@.pending =~= Set::<Seq<char>>::empty());
                            return Some(
                                JournalTransition {
                                    state: config.events.post_tool_success,
                                    occurred_at: modified_at,
                                },
                            );
                        }
                        return None;
                    }
                    return None;
                },
                None => {
                    return None;
                },
            }
        }
        if !text::same_text(record.record_type.as_str(), "event_msg") {
            return None;
        }
        match &record.payload.turn_id {
            Some(turn_id) => {
                if text::same_text(event, "task_started") {
                    if is_turn(&self.completed_turn, turn_id.as_str()) {
                        proof {
                            reveal_strlit("task_started");
                            reveal_strlit("task_complete");
                            assert("task_started"@.len() != "task_complete"@.len());
                        }
                        return None;
                    }
                    self.active_turn = Some(turn_id.clone());
                    self.completed_turn = None;
                    self.pending_tool_calls.clear();
                    return match record.payload.started_at {
                        Some(occurred_at) => Some(
                            JournalTransition {
                                state: config.events.user_prompt_submit,
                                occurred_at,
                            },
                        ),
                        None => None,
                    };
                }
                if text::same_text(event, "task_complete") && (self.active_turn.is_none()
                    || is_turn(&self.active_turn, turn_id.as_str())) {
                    let last_message: Option<String> = match &record.payload.last_agent_message {
                        Some(message) => Some(wire::message_tail(message.as_str())),
                        None => None,
                    };
                    let shown: Option<&str> = match &last_message {
                        Some(message) => Some(message.as_str()),
                        None => None,
                    };
                    proof {
                        wire::lemma_event_names_differ();
                    }
                    let state: StateKind = match wire::state_for_hook(
                        "Stop",
                        shown,
                        false,
                        config,
                    ) {
                        Some(state) => state,
                        None => config.events.stop_complete,
                    };
                    self.active_turn = None;
                    self.completed_turn = Some(turn_id.clone());
                    self.pending_tool_calls.clear();
                    return match record.payload.completed_at {
                        Some(occurred_at) => Some(JournalTransition { state, occurred_at }),
                        None => None,
                    };
                }
                None
            },
            None => None,
        }
    }
}

/// What the first bytes of a journal give as its first line.
pub open spec fn first_line(prefix: Seq<u8>) -> Result<Option<int>, JournalError> {
    let seen = if prefix.len() > SESSION_META_MAX_BYTES {
        prefix.take(SESSION_META_MAX_BYTES as int)
    } else {
        prefix
    };
    if seen.len() == 0 {
        Ok(None)
    } else {
        match bytes::newline_in(seen) {
            Some(k) => Ok(Some(k + 1)),
            None => Err(JournalError::SessionMetaTooLong),
        }
    }
}

/// The first bytes of a journal up to the end of its first line: how many they are, or `None` for
/// an empty journal.
pub fn session_meta_line(prefix: &[u8]) -> (r: Result<Option<usize>, JournalError>)
    ensures
        match r {
            Ok(Some(n)) => first_line(prefix@) == Ok::<Option<int>, JournalError>(Some(n as int))
                && n <= prefix@.len(),
            Ok(None) => first_line(prefix@) == Ok::<Option<int>, JournalError>(None),
            Err(error) => first_line(prefix@) == Err::<Option<int>, JournalError>(error),
        },
{
    let seen: &[u8] = if prefix.len() > SESSION_META_MAX_BYTES {
        slice_subrange(prefix, 0, SESSION_META_MAX_BYTES)
    } else {
        prefix
    };
    proof {
        if prefix@.len() > SESSION_META_MAX_BYTES {
            assert(seen@ == prefix@.take(SESSION_META_MAX_BYTES as int));
        }
        assert(seen@.skip(0) == seen@);
    }
    if seen.len() == 0 {
        return Ok(None);
    }
    match bytes::line_length(seen, 0) {
        Some(n) => Ok(Some(n)),
        None => Err(JournalError::SessionMetaTooLong),
    }
}

/// The first line of a journal is that of the desktop task `session`, and not of a subagent or of
/// another program.
pub open spec fn is_desktop_task(record: SessionMetaRecord, session: Seq<char>) -> bool {
    &&& record.record_type@ == "session_meta"@
    &&& record.payload.id@ == session
    &&& record.payload.source matches Json::String(source) && source@ == "vscode"@
    &&& record.payload.originator@ == "Codex Desktop"@
}

/// The first line of a journal, where there is one, is that of the desktop task `session`.
pub open spec fn begins_desktop_task(first: Option<SessionMetaRecord>, session: Seq<char>) -> bool {
    first is Some && is_desktop_task(first->0, session)
}

/// Whether the first line of a journal, where there is one, is that of the desktop task
/// `session_id`.
pub fn is_desktop_journal(first: &Option<SessionMetaRecord>, session_id: &str) -> (r: bool)
    ensures
        r == begins_desktop_task(*first, session_id@),
{
    match first {
        Some(record) => is_top_level_codex_desktop_journal(record, session_id),
        None => false,
    }
}

/// Whether the first line of a journal is that of the desktop task `expected_session_id`.
pub fn is_top_level_codex_desktop_journal(
    record: &SessionMetaRecord,
    expected_session_id: &str,
) -> (r: bool)
    ensures
        r == is_desktop_task(*record, expected_session_id@),
{
    let from_app: bool = match &record.payload.source {
        Json::String(source) => text::same_text(source.as_str(), "vscode"),
        _ => false,
    };
    from_app && text::same_text(record.record_type.as_str(), "session_meta") && text::same_text(
        record.payload.id.as_str(),
        expected_session_id,
    ) && text::same_text(record.payload.originator.as_str(), "Codex Desktop")
}

} // verus!
