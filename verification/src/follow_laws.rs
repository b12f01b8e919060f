//! What holds of following journals: which lines count, which files, and what is remembered.
use vstd::prelude::*;

use crate::bytes;
use crate::config::AppConfig;
use crate::journal;
use crate::journal::{
    JournalError, JournalRecord, JournalTransition, ReaderModel, Reading, SessionMetaRecord,
};
use crate::journal_tracker;
use crate::journal_tracker::{
    Finding, Observation, Polling, RegistrationStep, RestoreOutcome, RestoreTarget, Restoring,
    SessionJournalTransition, SessionTransition, TrackedJournal, TrackerModel, TranscriptError,
    TranscriptFile,
};
use crate::paths;
use crate::seqs;
use crate::text;

verus! {

/// A search finds the first place where something stands, and finds nothing only where it stands
/// nowhere.
pub proof fn law_first_place_is_found(hay: Seq<u8>, needle: Seq<u8>, i: int)
    ensures
        text::occurs_at(hay, needle, i) ==> bytes::found(hay, needle) is Some && 0 <= bytes::found(
            hay,
            needle,
        )->0 <= i,
        bytes::found(hay, needle) matches Some(k) ==> text::occurs_at(hay, needle, k),
{
    bytes::lemma_found_from(hay, needle, 0);
}

/// The needle stands in the bytes from `from` to `to`.
pub open spec fn stands_between(line: Seq<u8>, needle: Seq<u8>, from: int, to: int) -> bool {
    exists|i: int| from <= i && i + needle.len() <= to && #[trigger] text::occurs_at(line, needle, i)
}

proof fn lemma_stands_between(line: Seq<u8>, needle: Seq<u8>, from: int, to: int)
    requires
        0 <= from <= to <= line.len(),
    ensures
        text::occurs(line.subrange(from, to), needle) <==> stands_between(line, needle, from, to),
{
    let part = line.subrange(from, to);
    if text::occurs(part, needle) {
        let i = choose|i: int| text::occurs_at(part, needle, i);
        assert(line.subrange(from + i, from + i + needle.len()) =~= part.subrange(
            i,
            i + needle.len(),
        ));
        assert(text::occurs_at(line, needle, from + i));
    }
    if stands_between(line, needle, from, to) {
        let i = choose|i: int|
            from <= i && i + needle.len() <= to && #[trigger] text::occurs_at(line, needle, i);
        assert(line.subrange(i, i + needle.len()) =~= part.subrange(
            i - from,
            i - from + needle.len(),
        ));
        assert(text::occurs_at(part, needle, i - from));
    }
}

/// The UTF-8 bytes of a text.
pub open spec fn encoded(s: Seq<char>) -> Seq<u8> {
    journal::utf8(s)
}

/// A line bears on the state of a task exactly where its payload begins at some place, and what
/// stands before it tells of an event and the first bytes of the payload of a turn, or of an item
/// and of a tool call. `p` is where the payload begins, and `end` where it is looked at no more.
pub proof fn law_lines_that_count(line: Seq<u8>, p: int, end: int)
    requires
        text::occurs_at(line, encoded(",\"payload\":"@), p),
        forall|i: int|
            0 <= i < p ==> !#[trigger] text::occurs_at(line, encoded(",\"payload\":"@), i),
        end == p + 256 && end <= line.len() || end == line.len() && line.len() < p + 256,
    ensures
        journal::is_candidate(line) <==> (stands_between(
            line,
            encoded("\"type\":\"event_msg\""@),
            0,
            p,
        ) && (stands_between(line, encoded("\"type\":\"task_started\""@), p, end) || stands_between(
            line,
            encoded("\"type\":\"task_complete\""@),
            p,
            end,
        )) || stands_between(line, encoded("\"type\":\"response_item\""@), 0, p) && (stands_between(
            line,
            encoded("\"type\":\"custom_tool_call\""@),
            p,
            end,
        ) || stands_between(line, encoded("\"type\":\"custom_tool_call_output\""@), p, end)
            || stands_between(line, encoded("\"type\":\"function_call\""@), p, end)
            || stands_between(line, encoded("\"type\":\"function_call_output\""@), p, end))),
{
    bytes::lemma_found_from(line, encoded(",\"payload\":"@), 0);
    assert(bytes::found(line, encoded(",\"payload\":"@)) == Some(p));
    assert(line.take(p) =~= line.subrange(0, p));
    lemma_stands_between(line, encoded("\"type\":\"event_msg\""@), 0, p);
    lemma_stands_between(line, encoded("\"type\":\"response_item\""@), 0, p);
    lemma_stands_between(line, encoded("\"type\":\"task_started\""@), p, end);
    lemma_stands_between(line, encoded("\"type\":\"task_complete\""@), p, end);
    lemma_stands_between(line, encoded("\"type\":\"custom_tool_call\""@), p, end);
    lemma_stands_between(line, encoded("\"type\":\"custom_tool_call_output\""@), p, end);
    lemma_stands_between(line, encoded("\"type\":\"function_call\""@), p, end);
    lemma_stands_between(line, encoded("\"type\":\"function_call_output\""@), p, end);
}

/// A line without a payload does not count.
pub proof fn law_lines_without_payload_do_not_count(line: Seq<u8>)
    requires
        forall|i: int| !#[trigger] text::occurs_at(line, encoded(",\"payload\":"@), i),
    ensures
        !journal::is_candidate(line),
{
    bytes::lemma_found_from(line, encoded(",\"payload\":"@), 0);
}

/// The lines of a text, one after the other, and the unfinished line are the text. Every line ends
/// in its only newline, and the unfinished one has none.
pub proof fn law_lines_make_up_the_text(content: Seq<u8>)
    ensures
        all_bytes(bytes::lines(content)) + bytes::unfinished(content) == content,
        forall|i: int|
            0 <= i < bytes::lines(content).len() ==> is_line(#[trigger] bytes::lines(content)[i]),
        forall|j: int|
            0 <= j < bytes::unfinished(content).len() ==> #[trigger] bytes::unfinished(content)[j]
                != 10,
    decreases content.len(),
{
    seqs::lemma_first_index(content, bytes::ends_line());
    match bytes::newline_in(content) {
        Some(k) => {
            let rest = content.skip(k + 1);
            law_lines_make_up_the_text(rest);
            let all = bytes::lines(content);
            assert(all[0] == content.take(k + 1));
            assert(all.drop_first() =~= bytes::lines(rest));
            assert(all_bytes(all) + bytes::unfinished(content) =~= content.take(k + 1) + (all_bytes(
                bytes::lines(rest),
            ) + bytes::unfinished(rest)));
            assert(content.take(k + 1) + rest =~= content);
            assert forall|i: int| 0 <= i < all.len() implies is_line(#[trigger] all[i]) by {
                if i == 0 {
                    assert forall|j: int| 0 <= j < k implies all[0][j] != 10 by {
                        assert(!bytes::ends_line()(content[j]));
                    }
                    assert(bytes::ends_line()(content[k]));
                } else {
                    assert(all[i] == bytes::lines(rest)[i - 1]);
                }
            }
        },
        None => {
            assert forall|j: int| 0 <= j < content.len() implies #[trigger] content[j] != 10 by {
                assert(!bytes::ends_line()(content[j]));
            }
        },
    }
}

/// Some lines, one after the other.
pub open spec fn all_bytes(lines: Seq<Seq<u8>>) -> Seq<u8>
    decreases lines.len(),
{
    if lines.len() == 0 {
        Seq::empty()
    } else {
        lines[0] + all_bytes(lines.drop_first())
    }
}

/// The bytes end in a newline, the only one in them.
pub open spec fn is_line(line: Seq<u8>) -> bool {
    &&& line.len() > 0
    &&& line.last() == 10
    &&& forall|j: int| 0 <= j < line.len() - 1 ==> #[trigger] line[j] != 10
}

/// A reader that has just begun knows of no turn and of no call.
pub proof fn law_new_reader_knows_nothing(offset: int, skip: bool)
    ensures
        ({
            let reader = journal::reader_at(offset, skip);
            &&& reader.offset == offset
            &&& reader.skip_partial_line == skip
            &&& reader.active_turn is None
            &&& reader.completed_turn is None
            &&& forall|call: Seq<char>| !reader.pending.contains(call)
        }),
{
}

/// A journal that has become shorter is read from its beginning, and what was known of it is
/// forgotten. Any other is read on.
pub proof fn law_shorter_journal_is_read_anew(reader: ReaderModel, length: int)
    ensures
        length < reader.offset ==> reader.opened(length).offset == 0 && !reader.opened(
            length,
        ).skip_partial_line && reader.opened(length).active_turn is None && reader.opened(
            length,
        ).completed_turn is None && forall|call: Seq<char>|
            !reader.opened(length).pending.contains(call),
        length >= reader.offset ==> reader.opened(length) == reader,
{
}

/// A line that was passed is behind the reader, which begins a whole line after it. What is known
/// stays.
pub proof fn law_passed_line_is_behind(reader: ReaderModel, n: int, pending: Set<Seq<char>>)
    ensures
        reader.past(n).offset == reader.offset + n,
        !reader.past(n).skip_partial_line,
        reader.past(n).active_turn == reader.active_turn,
        reader.past(n).completed_turn == reader.completed_turn,
        reader.past(n).pending == reader.pending,
        reader.with_pending(pending).pending == pending,
        reader.with_pending(pending).offset == reader.offset,
        reader.with_pending(pending).skip_partial_line == reader.skip_partial_line,
        reader.with_pending(pending).active_turn == reader.active_turn,
        reader.with_pending(pending).completed_turn == reader.completed_turn,
{
}

/// The first reading begins eight mebibytes before the end, or at the beginning of a shorter
/// journal. Where it begins within a line, that line is skipped.
pub proof fn law_first_reading_begins_near_the_end(length: int, previous: u8)
    requires
        0 <= length,
    ensures
        ({
            let reader = journal::tail_reader(length, previous);
            &&& length >= 8_388_608 ==> reader.offset == length - 8_388_608
            &&& length <= 8_388_608 ==> reader.offset == 0
            &&& reader.skip_partial_line <==> length > 8_388_608 && previous != 10
            &&& reader.active_turn is None
            &&& reader.completed_turn is None
            &&& forall|call: Seq<char>| !reader.pending.contains(call)
        }),
{
}

/// A line is passed, and what it tells is taken in where it counts and is not the rest of one that
/// was begun before. Of several transitions the last counts. A line that counts and has no record
/// makes the reading fail.
pub proof fn law_one_line_is_read(
    reader: ReaderModel,
    latest: Option<JournalTransition>,
    line: Seq<u8>,
    records: Seq<JournalRecord>,
    config: AppConfig,
    modified_at: u64,
)
    ensures
        ({
            let reading = journal::read_lines(
                reader,
                latest,
                seq![line],
                records,
                config,
                modified_at,
            );
            let next = reader.past(line.len() as int);
            let counts = !reader.skip_partial_line && journal::is_candidate(line);
            &&& !counts ==> reading.reader == next && reading.latest == latest && !reading.failed
            &&& counts && records.len() == 0 ==> reading.failed && reading.reader == next
            &&& counts && records.len() > 0 ==> {
                let (after, told) = next.observed(records[0], config, modified_at);
                &&& !reading.failed
                &&& reading.reader == after
                &&& told is Some ==> reading.latest == told
                &&& told is None ==> reading.latest == latest
            }
        }),
{
    let rest = seq![line].drop_first();
    assert(rest =~= Seq::<Seq<u8>>::empty());
    reveal_with_fuel(journal::read_lines, 2);
}

/// What a reading reports: its problem, nothing while a call is pending, and else the last
/// transition.
pub proof fn law_reading_reports(reading: Reading, call: Seq<char>)
    ensures
        reading.failed ==> journal::reported(reading) == Err::<
            Option<JournalTransition>,
            JournalError,
        >(JournalError::InvalidRecord),
        !reading.failed && reading.pending_call(call) ==> journal::reported(reading) == Ok::<
            Option<JournalTransition>,
            JournalError,
        >(None),
        !reading.failed && (forall|other: Seq<char>| !reading.pending_call(other))
            ==> journal::reported(reading) == Ok::<Option<JournalTransition>, JournalError>(
            reading.latest,
        ),
{
    if forall|other: Seq<char>| !reading.pending_call(other) {
        assert forall|other: Seq<char>| !reading.reader.pending.contains(other) by {
            assert(!reading.pending_call(other));
        }
        assert(reading.reader.pending =~= Set::<Seq<char>>::empty());
    }
}

impl Reading {
    /// The call is pending after the reading.
    pub open spec fn pending_call(self, call: Seq<char>) -> bool {
        self.reader.pending.contains(call)
    }
}

/// The first line of a journal is what ends in its first newline, within 256 kibibytes.
pub proof fn law_first_line_is_bounded(prefix: Seq<u8>, k: int)
    ensures
        prefix.len() == 0 ==> journal::first_line(prefix) == Ok::<Option<int>, JournalError>(None),
        0 <= k < prefix.len() && k < 262_144 && prefix[k] == 10 && (forall|j: int|
            0 <= j < k ==> #[trigger] prefix[j] != 10) ==> journal::first_line(prefix) == Ok::<
            Option<int>,
            JournalError,
        >(Some(k + 1)),
        prefix.len() > 0 && (forall|j: int|
            0 <= j < prefix.len() && j < 262_144 ==> #[trigger] prefix[j] != 10)
            ==> journal::first_line(prefix) == Err::<Option<int>, JournalError>(
            JournalError::SessionMetaTooLong,
        ),
{
    let seen = if prefix.len() > 262_144 {
        prefix.take(262_144)
    } else {
        prefix
    };
    if 0 <= k < prefix.len() && k < 262_144 && prefix[k] == 10 && (forall|j: int|
        0 <= j < k ==> #[trigger] prefix[j] != 10) {
        assert forall|j: int| 0 <= j < k implies !bytes::ends_line()(#[trigger] seen[j]) by {
            assert(prefix[j] != 10);
        }
        assert(bytes::ends_line()(seen[k]));
        seqs::lemma_first(seen, bytes::ends_line(), k);
    }
    if prefix.len() > 0 && (forall|j: int|
        0 <= j < prefix.len() && j < 262_144 ==> #[trigger] prefix[j] != 10) {
        assert forall|j: int| 0 <= j < seen.len() implies !bytes::ends_line()(
            #[trigger] seen[j],
        ) by {
            assert(prefix[j] != 10);
        }
        seqs::lemma_no_first(seen, bytes::ends_line());
    }
}

/// A journal is that of a desktop task exactly where its first line says so: by its kind, the task,
/// the source and the program. An empty journal is none.
pub proof fn law_desktop_tasks_are_recognised(
    first: Option<SessionMetaRecord>,
    session: Seq<char>,
)
    ensures
        journal::begins_desktop_task(first, session) <==> first is Some
            && first->0.record_type@ == "session_meta"@ && first->0.payload.id@ == session
            && first->0.payload.originator@ == "Codex Desktop"@ && first->0.payload.source is String
            && first->0.payload.source->String_0@ == "vscode"@,
{
}

/// The name of a journal ends in a hyphen, the task, and the ending of its kind.
pub proof fn law_journals_are_named_after_tasks(start: Seq<char>, name: Seq<char>, session: Seq<char>)
    ensures
        journal_tracker::is_transcript_name(start + "-"@ + session + ".jsonl"@, session),
        journal_tracker::is_transcript_name(name, session) ==> exists|before: Seq<char>| name
            == #[trigger] (before + "-"@ + session + ".jsonl"@),
{
    let tail = "-"@ + session + ".jsonl"@;
    let whole = start + "-"@ + session + ".jsonl"@;
    assert(whole =~= start + tail);
    assert(whole.subrange(whole.len() - tail.len(), whole.len() as int) =~= tail);
    if journal_tracker::is_transcript_name(name, session) {
        let before = name.take(name.len() - tail.len());
        assert(name =~= before + tail);
        assert(name =~= before + "-"@ + session + ".jsonl"@);
    }
}

/// A path is taken for a journal where it lies inside the directory and bears the task's name. One
/// that lies outside is refused for that.
pub proof fn law_paths_are_judged(inside: bool, name: Option<Seq<char>>, session: Seq<char>)
    ensures
        ({
            let verdict = journal_tracker::transcript_verdict(inside, name, session);
            let named = name is Some && journal_tracker::is_transcript_name(name->0, session);
            &&& verdict is Ok <==> inside && named
            &&& verdict == Err::<(), TranscriptError>(TranscriptError::OutsideSessions) <==> !inside
            &&& verdict == Err::<(), TranscriptError>(TranscriptError::OtherSession) <==> inside
                && !named
        }),
{
}

/// What is in a directory lies under it, and goes by its name.
pub proof fn law_what_is_inside_lies_under(base: Seq<char>, name: Seq<char>)
    requires
        name.len() > 0,
        name != "."@,
        name != ".."@,
        !name.contains('/'),
    ensures
        paths::lies_under(paths::joined(base, name), base),
        paths::file_name_of(paths::joined(base, name)) == Some(name),
        !paths::lies_under(base, paths::joined(base, name)),
        !paths::same_path(base, paths::joined(base, name)),
{
    paths::law_joining_adds_a_component(base, name);
    let all = paths::components(base);
    assert(all.push(name).last() == name);
    reveal_strlit("/");
    if name == "/"@ {
        assert(name[0] == '/');
        assert(name.contains('/'));
    }
    assert(all.is_prefix_of(all.push(name)));
}

/// A file belongs to the first of the tasks whose journal it may be.
pub proof fn law_file_belongs_to_the_first_task(targets: Seq<String>, name: Seq<char>, i: int)
    ensures
        0 <= i < targets.len() && journal_tracker::is_transcript_name(name, targets[i]@) && (
        forall|j: int|
            0 <= j < i ==> !journal_tracker::is_transcript_name(name, (#[trigger] targets[j])@))
            ==> journal_tracker::target_of(targets, name) == Some(targets[i]@),
        (forall|j: int|
            0 <= j < targets.len() ==> !journal_tracker::is_transcript_name(
                name,
                (#[trigger] targets[j])@,
            )) ==> journal_tracker::target_of(targets, name) is None,
    decreases targets.len(),
{
    if targets.len() > 0 {
        let rest = targets.drop_first();
        law_file_belongs_to_the_first_task(rest, name, i - 1);
        assert forall|j: int| 0 <= j < rest.len() implies #[trigger] rest[j] == targets[j + 1] by {}
        if 0 < i < targets.len() {
            assert(rest[i - 1] == targets[i]);
            if forall|j: int|
                0 <= j < i ==> !journal_tracker::is_transcript_name(name, (#[trigger] targets[j])@) {
                assert(!journal_tracker::is_transcript_name(name, targets[0]@));
            }
        }
        if forall|j: int|
            0 <= j < targets.len() ==> !journal_tracker::is_transcript_name(
                name,
                (#[trigger] targets[j])@,
            ) {
            assert(!journal_tracker::is_transcript_name(name, targets[0]@));
        }
    }
}

/// The journal that is chosen for a task is one of its files, none of its files is newer, and none
/// before it is as new. There is one as soon as a file belongs to the task.
pub proof fn law_newest_file_is_chosen(
    targets: Seq<String>,
    files: Seq<TranscriptFile>,
    session: Seq<char>,
    i: int,
)
    ensures
        ({
            let chosen = journal_tracker::newest_transcript(targets, files, session);
            let belongs = 0 <= i < files.len() && journal_tracker::target_of(
                targets,
                files[i].name@,
            ) == Some(session);
            &&& chosen is Some ==> exists|k: int|
                is_newest(targets, files, session, k) && chosen->0 == #[trigger] files[k]
            &&& belongs ==> chosen is Some && files[i].modified <= chosen->0.modified
        }),
    decreases files.len(),
{
    if files.len() > 0 {
        let rest = files.drop_last();
        let last = files.len() - 1;
        law_newest_file_is_chosen(targets, rest, session, i);
        let before = journal_tracker::newest_transcript(targets, rest, session);
        let chosen = journal_tracker::newest_transcript(targets, files, session);
        assert(files.last() == files[last]);
        if 0 <= i < last {
            assert(rest[i] == files[i]);
        }
        let takes = journal_tracker::target_of(targets, files.last().name@) == Some(session) && (
        before is None || files.last().modified > before->0.modified);
        if takes {
            assert forall|j: int|
                0 <= j < last && journal_tracker::target_of(targets, (#[trigger] files[j]).name@)
                    == Some(session) implies files[j].modified < files[last].modified by {
                law_newest_file_is_chosen(targets, rest, session, j);
                assert(rest[j] == files[j]);
            }
            assert(is_newest(targets, files, session, last));
            assert(chosen->0 == files[last]);
        } else if before is Some {
            let k = choose|k: int|
                is_newest(targets, rest, session, k) && before->0 == #[trigger] rest[k];
            assert(rest[k] == files[k]);
            assert forall|j: int|
                0 <= j < files.len() && journal_tracker::target_of(
                    targets,
                    (#[trigger] files[j]).name@,
                ) == Some(session) implies files[j].modified <= files[k].modified && (j < k
                ==> files[j].modified < files[k].modified) by {
                if j < last {
                    assert(rest[j] == files[j]);
                }
            }
            assert(is_newest(targets, files, session, k));
        }
    }
}

/// The file at `k` belongs to the task, is as new as any other of its files, and newer than those
/// before it.
pub open spec fn is_newest(
    targets: Seq<String>,
    files: Seq<TranscriptFile>,
    session: Seq<char>,
    k: int,
) -> bool {
    &&& 0 <= k < files.len()
    &&& journal_tracker::target_of(targets, files[k].name@) == Some(session)
    &&& forall|j: int|
        0 <= j < files.len() && journal_tracker::target_of(targets, (#[trigger] files[j]).name@)
            == Some(session) ==> files[j].modified <= files[k].modified && (j < k
            ==> files[j].modified < files[k].modified)
}

/// A journal is chosen for just those tasks that have one, by its path.
pub proof fn law_chosen_journals(
    targets: Seq<String>,
    files: Seq<TranscriptFile>,
    session: Seq<char>,
)
    ensures
        ({
            let chosen = journal_tracker::chosen_transcripts(targets, files);
            let file = journal_tracker::newest_transcript(targets, files, session);
            &&& chosen.contains_key(session) <==> file is Some
            &&& file is Some ==> chosen[session] == file->0.path@
        }),
{
}

/// Of the tasks that are no concern of ours the newest 256 are remembered, in the order in which
/// they came.
pub proof fn law_newest_tasks_are_remembered(ignored: Seq<Seq<char>>, session: Seq<char>)
    ensures
        ignored.contains(session) ==> journal_tracker::remembered(ignored, session) == ignored,
        !ignored.contains(session) && ignored.len() < 256 ==> journal_tracker::remembered(
            ignored,
            session,
        ) == ignored.push(session),
        !ignored.contains(session) && ignored.len() == 256 ==> journal_tracker::remembered(
            ignored,
            session,
        ) == ignored.skip(1).push(session),
        journal_tracker::remembered(ignored, session).len() <= 256 || ignored.contains(session),
{
    assert(ignored.push(session).skip(1) =~= ignored.skip(1).push(session) || ignored.len() == 0);
}

/// Several problems are told as one, with a semicolon between two of them, and only where they are
/// not what was told last.
pub proof fn law_problems_are_told_together(
    tracker: TrackerModel,
    errors: Seq<Seq<char>>,
    error: Seq<char>,
)
    ensures
        journal_tracker::joined_errors(seq![error]) == error,
        errors.len() > 0 ==> journal_tracker::joined_errors(errors.push(error))
            == journal_tracker::joined_errors(errors) + "; "@ + error,
        tracker.finished(Seq::empty()).last_error is None,
        tracker.warning(Seq::empty()) is None,
        errors.len() > 0 ==> tracker.finished(errors).last_error == Some(
            journal_tracker::joined_errors(errors),
        ),
        errors.len() > 0 && tracker.last_error != Some(journal_tracker::joined_errors(errors))
            ==> tracker.warning(errors) == Some(journal_tracker::joined_errors(errors)),
        tracker.finished(errors).warning(errors) is None,
        tracker.finished(errors).readers == tracker.readers,
        tracker.finished(errors).ignored == tracker.ignored,
        tracker.finished(errors).next_poll == tracker.next_poll,
        tracker.finished(errors).sessions_root == tracker.sessions_root,
{
    assert(errors.push(error).drop_last() =~= errors);
}

/// What is to be done about a journal that a hook names: nothing for a task that is no concern of
/// ours, a refusal for a wrong path, nothing new for the path that is followed, and else a look.
pub proof fn law_named_journals_are_judged(
    tracker: TrackerModel,
    session: Seq<char>,
    path: Seq<char>,
    verdict: Result<(), TranscriptError>,
)
    ensures
        ({
            let step = tracker.step_for(session, path, verdict);
            let ignored = tracker.ignored.contains(session);
            let known = tracker.readers.contains_key(session) && paths::same_path(
                tracker.readers[session].path,
                path,
            );
            &&& step is Ignored <==> ignored
            &&& !ignored && verdict is Err ==> step == RegistrationStep::Rejected(verdict->Err_0)
            &&& step is Known <==> !ignored && verdict is Ok && known
            &&& step is Inspect <==> !ignored && verdict is Ok && !known
            &&& journal_tracker::registration_result(step, true) is Err <==> !ignored
                && verdict is Err
            &&& journal_tracker::registration_result(step, true) == Ok::<bool, TranscriptError>(
                true,
            ) <==> !ignored && verdict is Ok
            &&& journal_tracker::registration_result(step, false) == Ok::<bool, TranscriptError>(
                true,
            ) <==> step is Known
            &&& ignored ==> journal_tracker::registration_result(step, true) == Ok::<
                bool,
                TranscriptError,
            >(false)
            &&& !ignored && verdict is Err ==> journal_tracker::registration_result(step, true)
                == Err::<bool, TranscriptError>(verdict->Err_0)
        }),
{
}

/// Nothing but the journals and the tasks that are no concern of ours differs.
pub open spec fn same_but_for_journals(a: TrackerModel, b: TrackerModel) -> bool {
    &&& a.sessions_root == b.sessions_root
    &&& a.next_poll == b.next_poll
    &&& a.last_error == b.last_error
}

/// A journal that was looked at is followed from its end where it is that of a desktop task, and
/// its task is no concern of ours otherwise. Without a look nothing changes.
pub proof fn law_inspected_journal_is_followed(
    tracker: TrackerModel,
    session: Seq<char>,
    path: Seq<char>,
    step: RegistrationStep,
    length: int,
    other: Seq<char>,
)
    ensures
        ({
            let ours = tracker.registered(session, path, step, true, length);
            let foreign = tracker.registered(session, path, step, false, length);
            &&& !(step is Inspect) ==> ours == tracker && foreign == tracker
            &&& step is Inspect ==> {
                &&& ours.readers.contains_key(session)
                &&& ours.readers[session].path == path
                &&& ours.readers[session].reader.offset == length
                &&& !ours.readers[session].reader.skip_partial_line
                &&& ours.readers[session].reader.active_turn is None
                &&& ours.readers[session].reader.completed_turn is None
                &&& forall|call: Seq<char>|
                    !ours.readers[session].reader.pending.contains(call)
                &&& other != session ==> ours.readers.contains_key(other)
                    == tracker.readers.contains_key(other)
                &&& other != session && tracker.readers.contains_key(other) ==> ours.readers[other]
                    == tracker.readers[other]
                &&& ours.ignored == tracker.ignored
                &&& same_but_for_journals(tracker, ours)
                &&& foreign.readers == tracker.readers
                &&& foreign.ignored == journal_tracker::remembered(tracker.ignored, session)
                &&& same_but_for_journals(tracker, foreign)
            }
        }),
{
}

/// What comes of a task that is restored: a desktop task is admitted and followed, with what its
/// journal tells; one that could not be read is admitted with a problem; one that is no concern of
/// ours is remembered as that; of a journal that could not be looked at only the problem is kept.
pub proof fn law_restored_task_is_sorted(before: Restoring, target: RestoreTarget)
    ensures
        ({
            let after = before.with_target(target);
            let session = target.session_id@;
            match target.outcome {
                RestoreOutcome::Missing => after == before,
                RestoreOutcome::Unreadable { error } => {
                    &&& after.errors == before.errors.push(error@)
                    &&& after.admitted == before.admitted
                    &&& after.transitions == before.transitions
                    &&& after.tracker == before.tracker
                },
                RestoreOutcome::Foreign => {
                    &&& after.errors == before.errors
                    &&& after.admitted == before.admitted
                    &&& after.transitions == before.transitions
                    &&& after.tracker.ignored == journal_tracker::remembered(
                        before.tracker.ignored,
                        session,
                    )
                    &&& after.tracker.readers == before.tracker.readers
                    &&& same_but_for_journals(before.tracker, after.tracker)
                },
                RestoreOutcome::Unrecoverable { error } => {
                    &&& after.errors == before.errors.push(error@)
                    &&& after.admitted == before.admitted.insert(session)
                    &&& after.transitions == before.transitions
                    &&& after.tracker == before.tracker
                },
                RestoreOutcome::Recovered { reader, latest } => {
                    &&& after.errors == before.errors
                    &&& after.admitted == before.admitted.insert(session)
                    &&& latest is None ==> after.transitions == before.transitions
                    &&& latest is Some ==> after.transitions.len() == before.transitions.len() + 1
                        && after.transitions.drop_last() == before.transitions && is_told(
                        after.transitions.last(),
                        session,
                        latest->0,
                    )
                    &&& after.tracker.readers == before.tracker.readers.insert(
                        session,
                        TrackedJournal { path: reader.spec_path(), reader: reader@ },
                    )
                    &&& after.tracker.ignored == before.tracker.ignored
                    &&& same_but_for_journals(before.tracker, after.tracker)
                },
            }
        }),
{
    let after = before.with_target(target);
    assert(after.transitions.len() > before.transitions.len() ==> after.transitions.drop_last()
        =~= before.transitions);
}

/// The transition of the task is told as it is.
pub open spec fn is_told(
    told: SessionTransition,
    session: Seq<char>,
    transition: JournalTransition,
) -> bool {
    &&& told.session == session
    &&& told.state == transition.state
    &&& told.occurred_at == transition.occurred_at
}

/// Tasks are restored one after the other, and at first nothing is.
pub proof fn law_tasks_are_restored_in_turn(
    before: Restoring,
    targets: Seq<RestoreTarget>,
    next: RestoreTarget,
    tracker: TrackerModel,
    session: Seq<char>,
)
    ensures
        before.with_targets(Seq::empty()) == before,
        before.with_targets(targets.push(next)) == before.with_targets(targets).with_target(next),
        journal_tracker::nothing_restored(tracker).tracker == tracker,
        !journal_tracker::nothing_restored(tracker).admitted.contains(session),
        journal_tracker::nothing_restored(tracker).transitions.len() == 0,
        journal_tracker::nothing_restored(tracker).errors.len() == 0,
{
    assert(targets.push(next).drop_last() =~= targets);
    assert(targets.push(next).last() == next);
}

/// What comes of a look at a journal that is followed: one that is gone is dropped and its task
/// removed; a problem is kept, with the journal; and what was read is told, with the reader behind
/// it. A journal that is not followed is not looked at.
pub proof fn law_followed_journal_is_sorted(before: Polling, seen: Observation, config: AppConfig)
    ensures
        ({
            let after = before.with_observation(seen, config);
            let session = seen.session_id@;
            let known = before.tracker.readers.contains_key(session);
            let journal = before.tracker.readers[session];
            &&& !known ==> after == before
            &&& known ==> same_but_for_journals(before.tracker, after.tracker)
                && after.tracker.ignored == before.tracker.ignored
            &&& known ==> match seen.finding {
                Finding::Missing => {
                    &&& after.tracker.readers == before.tracker.readers.remove(session)
                    &&& after.removed == before.removed.push(session)
                    &&& after.transitions == before.transitions
                    &&& after.errors == before.errors
                },
                Finding::Unreadable { error } => {
                    &&& after.tracker.readers == before.tracker.readers
                    &&& after.removed == before.removed
                    &&& after.transitions == before.transitions
                    &&& after.errors == before.errors.push(
                        "failed to inspect Codex lifecycle journal "@ + journal.path + ": "@
                            + error@,
                    )
                },
                Finding::Failed { error } => {
                    &&& after.tracker.readers == before.tracker.readers
                    &&& after.removed == before.removed
                    &&& after.transitions == before.transitions
                    &&& after.errors == before.errors.push(
                        "failed to reconcile Codex lifecycle journal "@ + journal.path + ": "@
                            + error@,
                    )
                },
                Finding::Read { length, modified_at, content, records, problem } => {
                    let reading = journal::polled(
                        journal.reader,
                        length as int,
                        content@,
                        records@,
                        config,
                        modified_at,
                    );
                    let silent = reading.failed || reading.latest is None || exists|call: Seq<char>|
                        reading.reader.pending.contains(call);
                    &&& after.removed == before.removed
                    &&& after.tracker.readers == before.tracker.readers.insert(
                        session,
                        TrackedJournal { path: journal.path, reader: reading.reader },
                    )
                    &&& silent ==> after.transitions == before.transitions
                    &&& !silent ==> after.transitions.len() == before.transitions.len() + 1
                        && after.transitions.drop_last() == before.transitions && is_told(
                        after.transitions.last(),
                        session,
                        reading.latest->0,
                    )
                    &&& !reading.failed ==> after.errors == before.errors
                    &&& reading.failed ==> after.errors == before.errors.push(
                        "failed to reconcile Codex lifecycle journal "@ + journal.path + ": "@ + (
                        "invalid Codex lifecycle journal record: "@ + problem@),
                    )
                },
            }
        }),
{
    let after = before.with_observation(seen, config);
    assert(after.transitions.len() > before.transitions.len() ==> after.transitions.drop_last()
        =~= before.transitions);
    let session = seen.session_id@;
    if before.tracker.readers.contains_key(session) {
        if let Finding::Read { length, modified_at, content, records, problem } = seen.finding {
            let reading = journal::polled(
                before.tracker.readers[session].reader,
                length as int,
                content@,
                records@,
                config,
                modified_at,
            );
            let pending = reading.reader.pending;
            if exists|call: Seq<char>| pending.contains(call) {
                let call = choose|call: Seq<char>| pending.contains(call);
                assert(pending != Set::<Seq<char>>::empty());
            } else {
                assert(pending =~= Set::<Seq<char>>::empty());
            }
        }
    }
}

/// Journals are looked at one after the other, and at first nothing has come of that.
pub proof fn law_journals_are_looked_at_in_turn(
    before: Polling,
    seen: Seq<Observation>,
    next: Observation,
    config: AppConfig,
    tracker: TrackerModel,
)
    ensures
        before.with_observations(Seq::empty(), config) == before,
        before.with_observations(seen.push(next), config) == before.with_observations(
            seen,
            config,
        ).with_observation(next, config),
        journal_tracker::nothing_polled(tracker).tracker == tracker,
        journal_tracker::nothing_polled(tracker).transitions.len() == 0,
        journal_tracker::nothing_polled(tracker).removed.len() == 0,
        journal_tracker::nothing_polled(tracker).errors.len() == 0,
{
    assert(seen.push(next).drop_last() =~= seen);
    assert(seen.push(next).last() == next);
}

/// A journal that has not grown tells nothing; one that has tells what its new lines tell.
pub proof fn law_grown_journal_is_read(
    reader: ReaderModel,
    length: int,
    content: Seq<u8>,
    records: Seq<JournalRecord>,
    config: AppConfig,
    modified_at: u64,
)
    ensures
        ({
            let reading = journal::polled(reader, length, content, records, config, modified_at);
            let opened = reader.opened(length);
            &&& length == opened.offset ==> reading.reader == opened && reading.latest is None
                && !reading.failed
            &&& length != opened.offset ==> reading == journal::read_lines(
                opened,
                None,
                bytes::lines(content),
                records,
                config,
                modified_at,
            )
        }),
{
}

/// The lines that count are those of all lines that do, in their order, without the first where it
/// is to be skipped.
pub proof fn law_counting_lines_are_found(lines: Seq<Seq<u8>>, line: Seq<u8>)
    ensures
        ({
            let all = seq![line] + lines;
            &&& journal::candidates(true, all) == journal::candidates(false, lines)
            &&& journal::is_candidate(line) ==> journal::candidates(false, all) == seq![line]
                + journal::candidates(false, lines)
            &&& !journal::is_candidate(line) ==> journal::candidates(false, all)
                == journal::candidates(false, lines)
            &&& journal::candidates(false, Seq::empty()).len() == 0
            &&& journal::candidates(true, Seq::empty()).len() == 0
        }),
{
    assert((seq![line] + lines).drop_first() =~= lines);
}

/// What a journal tells of a task names the task, its state and the moment.
pub proof fn law_told_transition_is_read(told: SessionJournalTransition)
    ensures
        told@.session == told.session_id@,
        told@.state == told.state,
        told@.occurred_at == told.occurred_at,
{
}

} // verus!
