//! The journals of all tasks: finding them, admitting them, and looking at them in turn.
use std::collections::VecDeque;

use vstd::prelude::*;

use crate::collections::{StringMap, StringSet};
use crate::config::AppConfig;
use crate::journal;
use crate::journal::{
    JournalError, JournalReader, JournalRecord, JournalTransition, ReaderModel, SessionMetaRecord,
};
use crate::paths;
use crate::state::StateKind;
use crate::text;
use crate::time;
use crate::time::{Duration, Instant};
use crate::wire;

verus! {

/// How long to wait between two looks at the journals, in milliseconds.
pub const JOURNAL_POLL_INTERVAL_MS: u64 = 250;

/// How many tasks that are no concern of ours are remembered.
pub const IGNORED_SESSION_CACHE_CAPACITY: usize = 256;

/// A state that a task took on.
#[derive(Clone, Debug)]
pub struct SessionJournalTransition {
    pub session_id: String,
    pub state: StateKind,
    pub occurred_at: u64,
}

/// A state that the task `session` took on.
pub struct SessionTransition {
    pub session: Seq<char>,
    pub state: StateKind,
    pub occurred_at: u64,
}

impl View for SessionJournalTransition {
    type V = SessionTransition;

    open spec fn view(&self) -> SessionTransition {
        SessionTransition {
            session: self.session_id@,
            state: self.state,
            occurred_at: self.occurred_at,
        }
    }
}

/// The transition `transition` of the task `session`.
pub open spec fn transition_of(
    session: Seq<char>,
    transition: JournalTransition,
) -> SessionTransition {
    SessionTransition { session, state: transition.state, occurred_at: transition.occurred_at }
}

/// What came of restoring tasks.
#[derive(Debug)]
pub struct JournalRestore {
    pub admitted_sessions: StringSet,
    pub transitions: Vec<SessionJournalTransition>,
    /// A problem that has not been reported yet.
    pub warning: Option<String>,
}

/// What came of a look at the journals.
#[derive(Debug)]
pub struct JournalPoll {
    pub transitions: Vec<SessionJournalTransition>,
    pub removed_sessions: Vec<String>,
    /// A problem that has not been reported yet.
    pub warning: Option<String>,
}

/// Why a path is not the journal of a task.
#[derive(Clone, Copy, Debug, PartialEq, Eq, Structural)]
pub enum TranscriptError {
    /// It lies outside the directory of all sessions.
    OutsideSessions,
    /// Its name is not that of the task's journal.
    OtherSession,
}

/// What to do about the journal of a task that a hook has named.
#[derive(Clone, Copy, Debug, PartialEq, Eq, Structural)]
pub enum RegistrationStep {
    /// The task is no concern of ours.
    Ignored,
    /// The journal is followed already.
    Known,
    /// The first line of the journal has to be looked at.
    Inspect,
    /// The path is not that of the task's journal.
    Rejected(TranscriptError),
}

/// A file in the directory of all sessions.
#[derive(Clone, Debug)]
pub struct TranscriptFile {
    pub name: String,
    pub path: String,
    /// When it was last written, in nanoseconds.
    pub modified: i128,
}

/// What was found of a task that is to be restored.
#[derive(Debug)]
pub enum RestoreOutcome {
    /// There is no journal.
    Missing,
    /// The first line of the journal could not be looked at.
    Unreadable { error: String },
    /// The task is no concern of ours.
    Foreign,
    /// The journal is that of a desktop task, and could not be read.
    Unrecoverable { error: String },
    /// The journal is that of a desktop task, and was read.
    Recovered { reader: JournalReader, latest: Option<JournalTransition> },
}

/// What a look at the beginning of the journal of a task gave.
#[derive(Debug)]
pub enum Inspection {
    /// It could not be looked at.
    Unreadable { error: String },
    /// Its first line, where it is not empty.
    Seen { first: Option<SessionMetaRecord> },
}

/// What to do about a task that is to be restored, after its journal was looked at.
#[derive(Debug)]
pub enum RestoreStep {
    /// The journal has to be read.
    Recover,
    /// It is settled what was found of the task.
    Settled(RestoreOutcome),
}

/// What to do about the task `session_id`, after its journal was looked at: only the journal of a
/// desktop task is read.
pub fn restore_step(inspection: Inspection, session_id: &str) -> (r: RestoreStep)
    ensures
        match inspection {
            Inspection::Unreadable { error } => r matches RestoreStep::Settled(
                RestoreOutcome::Unreadable { error: told },
            ) && told@ == error@,
            Inspection::Seen { first } => if journal::begins_desktop_task(first, session_id@) {
                r is Recover
            } else {
                r matches RestoreStep::Settled(RestoreOutcome::Foreign)
            },
        },
{
    match inspection {
        Inspection::Unreadable { error } => RestoreStep::Settled(
            RestoreOutcome::Unreadable { error },
        ),
        Inspection::Seen { first } => if journal::is_desktop_journal(&first, session_id) {
            RestoreStep::Recover
        } else {
            RestoreStep::Settled(RestoreOutcome::Foreign)
        },
    }
}

/// A task that is to be restored.
#[derive(Debug)]
pub struct RestoreTarget {
    pub session_id: String,
    pub outcome: RestoreOutcome,
}

/// What was found of a journal.
#[derive(Debug)]
pub enum Finding {
    /// The journal is gone.
    Missing,
    /// The journal could not be looked at.
    Unreadable { error: String },
    /// The journal could not be read.
    Failed { error: String },
    /// The journal is `length` bytes long and holds `content` from the reader's place on.
    /// `records` are the records of its candidate lines up to the first that could not be made
    /// out, and `problem` says what was wrong with that one.
    Read {
        length: u64,
        modified_at: u64,
        content: Vec<u8>,
        records: Vec<JournalRecord>,
        problem: String,
    },
}

/// What was found of the journal of a task.
#[derive(Debug)]
pub struct Observation {
    pub session_id: String,
    pub finding: Finding,
}

/// The end of the name of a task's journal.
pub open spec fn transcript_suffix(session: Seq<char>) -> Seq<char> {
    "-"@ + session + ".jsonl"@
}

/// The name is that of the journal of the task `session`.
pub open spec fn is_transcript_name(name: Seq<char>, session: Seq<char>) -> bool {
    text::ends_in(name, transcript_suffix(session))
}

/// Whether a path is the journal of a task, told by where it lies and by its name.
pub open spec fn transcript_verdict(
    inside: bool,
    name: Option<Seq<char>>,
    session: Seq<char>,
) -> Result<(), TranscriptError> {
    if !inside {
        Err(TranscriptError::OutsideSessions)
    } else if name is Some && is_transcript_name(name->0, session) {
        Ok(())
    } else {
        Err(TranscriptError::OtherSession)
    }
}

/// Whether the name is that of the journal of the task `session_id`.
pub fn names_transcript(name: &str, session_id: &str) -> (r: bool)
    ensures
        r == is_transcript_name(name@, session_id@),
{
    let mut suffix: String = "-".to_owned();
    suffix.append(session_id);
    suffix.append(".jsonl");
    assert(suffix@ == transcript_suffix(session_id@));
    text::ends_with_text(text::chars_of(name).as_slice(), suffix.as_str())
}

/// Whether a path is the journal of a task, told by where it lies and by its name.
pub fn check_transcript(inside: bool, name: Option<&str>, session_id: &str) -> (r: Result<
    (),
    TranscriptError,
>)
    ensures
        r == transcript_verdict(
            inside,
            match name {
                Some(name) => Some(name@),
                None => None,
            },
            session_id@,
        ),
{
    if !inside {
        return Err(TranscriptError::OutsideSessions);
    }
    match name {
        Some(name) => if names_transcript(name, session_id) {
            Ok(())
        } else {
            Err(TranscriptError::OtherSession)
        },
        None => Err(TranscriptError::OtherSession),
    }
}

/// Whether `path` is the journal of the task `session_id` in the directory `sessions_root`: its
/// components begin with those of the directory, and the last of them is the journal's name. Both
/// paths are absolute and without links.
pub fn validate_transcript_path(sessions_root: &str, session_id: &str, path: &str) -> (r: Result<
    (),
    TranscriptError,
>)
    ensures
        r == transcript_verdict(
            paths::lies_under(path@, sessions_root@),
            paths::file_name_of(path@),
            session_id@,
        ),
{
    let name: Option<String> = paths::file_name(path);
    proof {
        reveal_strlit(".");
        reveal_strlit(".jsonl");
        assert(!is_transcript_name("."@, session_id@));
    }
    let shown: Option<&str> = match &name {
        Some(name) => Some(name.as_str()),
        None => None,
    };
    check_transcript(paths::starts_with(path, sessions_root), shown, session_id)
}

/// The journal of which task the file `name` is: the first of `targets` whose journal it may be.
pub open spec fn target_of(targets: Seq<String>, name: Seq<char>) -> Option<Seq<char>>
    decreases targets.len(),
{
    if targets.len() == 0 {
        None
    } else if is_transcript_name(name, targets[0]@) {
        Some(targets[0]@)
    } else {
        target_of(targets.drop_first(), name)
    }
}

/// The newest of the files that may be the journal of the task `session`; of several, the first.
pub open spec fn newest_transcript(
    targets: Seq<String>,
    files: Seq<TranscriptFile>,
    session: Seq<char>,
) -> Option<TranscriptFile>
    decreases files.len(),
{
    if files.len() == 0 {
        None
    } else {
        let before = newest_transcript(targets, files.drop_last(), session);
        let file = files.last();
        if target_of(targets, file.name@) == Some(session) && (before is None || file.modified
            > before->0.modified) {
            Some(file)
        } else {
            before
        }
    }
}

/// The journals of the tasks `targets` among `files`.
pub open spec fn chosen_transcripts(targets: Seq<String>, files: Seq<TranscriptFile>) -> Map<
    Seq<char>,
    Seq<char>,
> {
    Map::new(
        |session: Seq<char>| newest_transcript(targets, files, session) is Some,
        |session: Seq<char>| newest_transcript(targets, files, session)->0.path@,
    )
}

/// What was found for the task `session` is the newest of its files.
spec fn holds_newest(
    found: Map<Seq<char>, TranscriptFile>,
    targets: Seq<String>,
    files: Seq<TranscriptFile>,
    session: Seq<char>,
) -> bool {
    match newest_transcript(targets, files, session) {
        Some(file) => found.contains_key(session) && found[session].path@ == file.path@
            && found[session].modified == file.modified,
        None => !found.contains_key(session),
    }
}

/// The first of `targets` whose journal the file `name` may be.
fn find_target(targets: &Vec<String>, name: &str) -> (r: Option<usize>)
    ensures
        match r {
            Some(i) => i < targets@.len() && target_of(targets@, name@) == Some(
                targets@[i as int]@,
            ),
            None => target_of(targets@, name@) is None,
        },
{
    let mut i: usize = 0;
    assert(targets@.skip(0) == targets@);
    while i < targets.len()
        invariant
            i <= targets@.len(),
            target_of(targets@, name@) == target_of(targets@.skip(i as int), name@),
        decreases targets@.len() - i,
    {
        if names_transcript(name, targets[i].as_str()) {
            return Some(i);
        }
        assert(targets@.skip(i as int).drop_first() == targets@.skip(i + 1));
        i += 1;
    }
    None
}

/// The journals of the tasks `targets` among `files`: for each task the newest of its files.
pub fn discover_transcripts(targets: &Vec<String>, files: &Vec<TranscriptFile>) -> (r: StringMap<
    String,
>)
    ensures
        r@.map_values(|path: String| path@) == chosen_transcripts(targets@, files@),
{
    let mut found: StringMap<TranscriptFile> = StringMap::new();
    let mut i: usize = 0;
    while i < files.len()
        invariant
            i <= files@.len(),
            forall|session: Seq<char>| #[trigger]
                holds_newest(found@, targets@, files@.take(i as int), session),
        decreases files@.len() - i,
    {
        let file: &TranscriptFile = &files[i];
        let ghost before = found@;
        let ghost seen = files@.take(i as int);
        let ghost next = files@.take(i + 1);
        proof {
            assert(next.drop_last() == seen);
            assert(next.last() == *file);
        }
        match find_target(targets, file.name.as_str()) {
            Some(k) => {
                let session: &str = targets[k].as_str();
                let replace: bool = match found.get(session) {
                    Some(current) => file.modified > current.modified,
                    None => true,
                };
                assert(holds_newest(before, targets@, seen, session@));
                if replace {
                    found.insert(
                        session.to_owned(),
                        TranscriptFile {
                            name: file.name.clone(),
                            path: file.path.clone(),
                            modified: file.modified,
                        },
                    );
                }
                assert forall|other: Seq<char>| #[trigger]
                    holds_newest(found@, targets@, next, other) by {
                    assert(holds_newest(before, targets@, seen, other));
                }
            },
            None => {
                assert forall|other: Seq<char>| #[trigger]
                    holds_newest(found@, targets@, next, other) by {
                    assert(holds_newest(before, targets@, seen, other));
                }
            },
        }
        i += 1;
    }
    assert(files@.take(i as int) == files@);
    let sessions: Vec<String> = found.keys();
    let mut r: StringMap<String> = StringMap::new();
    let mut k: usize = 0;
    while k < sessions.len()
        invariant
            k <= sessions@.len(),
            forall|j: int| 0 <= j < sessions@.len() ==> found@.contains_key(
                (#[trigger] sessions@[j])@,
            ),
            forall|session: Seq<char>| #[trigger]
                r@.contains_key(session) <==> exists|j: int|
                    0 <= j < k && (#[trigger] sessions@[j])@ == session,
            forall|session: Seq<char>| #[trigger]
                r@.contains_key(session) ==> r@[session]@ == found@[session].path@,
        decreases sessions@.len() - k,
    {
        if let Some(file) = found.get(sessions[k].as_str()) {
            let ghost before = r@;
            r.insert(sessions[k].clone(), file.path.clone());
            assert forall|session: Seq<char>| #[trigger]
                r@.contains_key(session) <==> exists|j: int|
                    0 <= j < k + 1 && (#[trigger] sessions@[j])@ == session by {
                if session == sessions@[k as int]@ {
                    assert(r@.contains_key(session));
                } else {
                    assert(r@.contains_key(session) == before.contains_key(session));
                    if before.contains_key(session) {
                        let j = choose|j: int|
                            0 <= j < k && (#[trigger] sessions@[j])@ == session;
                        assert(sessions@[j]@ == session);
                    }
                }
            }
        }
        k += 1;
    }
    proof {
        let result = r@.map_values(|path: String| path@);
        assert forall|session: Seq<char>| #[trigger]
            result.contains_key(session) <==> chosen_transcripts(targets@, files@).contains_key(
                session,
            ) by {
            assert(holds_newest(found@, targets@, files@, session));
            assert(r@.contains_key(session) <==> found@.contains_key(session));
        }
        assert forall|session: Seq<char>| #[trigger] result.contains_key(session) implies result[session]
            == chosen_transcripts(targets@, files@)[session] by {
            assert(r@.contains_key(session));
            assert(holds_newest(found@, targets@, files@, session));
        }
        assert(result =~= chosen_transcripts(targets@, files@));
    }
    r
}

/// A journal that is followed.
pub struct TrackedJournal {
    pub path: Seq<char>,
    pub reader: ReaderModel,
}

/// All journals that are followed, and what is remembered beside them.
#[verifier::ext_equal]
pub struct TrackerModel {
    pub sessions_root: Seq<char>,
    pub readers: Map<Seq<char>, TrackedJournal>,
    /// The tasks that are no concern of ours, the longest remembered first.
    pub ignored: Seq<Seq<char>>,
    pub next_poll: Instant,
    pub last_error: Option<Seq<char>>,
}

/// The newest entries, as many as are remembered.
pub open spec fn newest(ignored: Seq<Seq<char>>) -> Seq<Seq<char>> {
    if ignored.len() > IGNORED_SESSION_CACHE_CAPACITY {
        ignored.skip(ignored.len() - IGNORED_SESSION_CACHE_CAPACITY)
    } else {
        ignored
    }
}

/// A task is remembered as no concern of ours.
pub open spec fn remembered(ignored: Seq<Seq<char>>, session: Seq<char>) -> Seq<Seq<char>> {
    if ignored.contains(session) {
        ignored
    } else {
        newest(ignored.push(session))
    }
}

/// `names` without `name`.
pub open spec fn without(names: Seq<Seq<char>>, name: Seq<char>) -> Seq<Seq<char>>
    decreases names.len(),
{
    if names.len() == 0 {
        names
    } else if names.last() == name {
        without(names.drop_last(), name)
    } else {
        without(names.drop_last(), name).push(names.last())
    }
}

/// Several problems as one.
pub open spec fn joined_errors(errors: Seq<Seq<char>>) -> Seq<char>
    decreases errors.len(),
{
    if errors.len() == 0 {
        Seq::empty()
    } else if errors.len() == 1 {
        errors[0]
    } else {
        joined_errors(errors.drop_last()) + "; "@ + errors.last()
    }
}

/// Whether a task is one of ours, after its journal was dealt with.
pub open spec fn registration_result(step: RegistrationStep, top_level: bool) -> Result<
    bool,
    TranscriptError,
> {
    match step {
        RegistrationStep::Ignored => Ok(false),
        RegistrationStep::Known => Ok(true),
        RegistrationStep::Inspect => Ok(top_level),
        RegistrationStep::Rejected(error) => Err(error),
    }
}

impl TrackerModel {
    /// The same with other journals.
    pub open spec fn with_readers(self, readers: Map<Seq<char>, TrackedJournal>) -> TrackerModel {
        TrackerModel { readers, ..self }
    }

    /// The same with another list of tasks that are no concern of ours.
    pub open spec fn with_ignored(self, ignored: Seq<Seq<char>>) -> TrackerModel {
        TrackerModel { ignored, ..self }
    }

    /// An operation has ended with some problems.
    pub open spec fn finished(self, errors: Seq<Seq<char>>) -> TrackerModel {
        TrackerModel {
            last_error: if errors.len() == 0 {
                None
            } else {
                Some(joined_errors(errors))
            },
            ..self
        }
    }

    /// The problem that has to be reported after an operation: one that is not the last one again.
    pub open spec fn warning(self, errors: Seq<Seq<char>>) -> Option<Seq<char>> {
        if errors.len() == 0 || self.last_error == Some(joined_errors(errors)) {
            None
        } else {
            Some(joined_errors(errors))
        }
    }

    /// What to do about the journal `path` of the task `session`.
    pub open spec fn step_for(
        self,
        session: Seq<char>,
        path: Seq<char>,
        verdict: Result<(), TranscriptError>,
    ) -> RegistrationStep {
        if self.ignored.contains(session) {
            RegistrationStep::Ignored
        } else {
            match verdict {
                Err(error) => RegistrationStep::Rejected(error),
                Ok(_) => if self.readers.contains_key(session) && paths::same_path(
                    self.readers[session].path,
                    path,
                ) {
                    RegistrationStep::Known
                } else {
                    RegistrationStep::Inspect
                },
            }
        }
    }

    /// The journal `path` of the task `session` has been looked at.
    pub open spec fn registered(
        self,
        session: Seq<char>,
        path: Seq<char>,
        step: RegistrationStep,
        top_level: bool,
        length: int,
    ) -> TrackerModel {
        if step != RegistrationStep::Inspect {
            self
        } else if top_level {
            self.with_readers(
                self.readers.insert(
                    session,
                    TrackedJournal { path, reader: journal::reader_at(length, false) },
                ),
            )
        } else {
            self.with_ignored(remembered(self.ignored, session))
        }
    }
}

/// What has come of restoring some tasks so far.
#[verifier::ext_equal]
pub struct Restoring {
    pub tracker: TrackerModel,
    pub admitted: Set<Seq<char>>,
    pub transitions: Seq<SessionTransition>,
    pub errors: Seq<Seq<char>>,
}

impl Restoring {
    /// One more task is restored.
    pub open spec fn with_target(self, target: RestoreTarget) -> Restoring {
        let session = target.session_id@;
        match target.outcome {
            RestoreOutcome::Missing => self,
            RestoreOutcome::Unreadable { error } => Restoring {
                errors: self.errors.push(error@),
                ..self
            },
            RestoreOutcome::Foreign => Restoring {
                tracker: self.tracker.with_ignored(remembered(self.tracker.ignored, session)),
                ..self
            },
            RestoreOutcome::Unrecoverable { error } => Restoring {
                admitted: self.admitted.insert(session),
                errors: self.errors.push(error@),
                ..self
            },
            RestoreOutcome::Recovered { reader, latest } => Restoring {
                tracker: self.tracker.with_readers(
                    self.tracker.readers.insert(
                        session,
                        TrackedJournal { path: reader.spec_path(), reader: reader@ },
                    ),
                ),
                admitted: self.admitted.insert(session),
                transitions: match latest {
                    Some(transition) => self.transitions.push(transition_of(session, transition)),
                    None => self.transitions,
                },
                ..self
            },
        }
    }

    /// Some more tasks are restored.
    pub open spec fn with_targets(self, targets: Seq<RestoreTarget>) -> Restoring
        decreases targets.len(),
    {
        if targets.len() == 0 {
            self
        } else {
            self.with_targets(targets.drop_last()).with_target(targets.last())
        }
    }
}

/// Nothing is restored yet.
pub open spec fn nothing_restored(tracker: TrackerModel) -> Restoring {
    Restoring {
        tracker,
        admitted: Set::empty(),
        transitions: Seq::empty(),
        errors: Seq::empty(),
    }
}

/// What has come of looking at some journals so far.
#[verifier::ext_equal]
pub struct Polling {
    pub tracker: TrackerModel,
    pub transitions: Seq<SessionTransition>,
    pub removed: Seq<Seq<char>>,
    pub errors: Seq<Seq<char>>,
}

/// A journal could not be looked at.
pub open spec fn inspect_error(path: Seq<char>, error: Seq<char>) -> Seq<char> {
    "failed to inspect Codex lifecycle journal "@ + path + ": "@ + error
}

/// A journal could not be read.
pub open spec fn reconcile_error(path: Seq<char>, error: Seq<char>) -> Seq<char> {
    "failed to reconcile Codex lifecycle journal "@ + path + ": "@ + error
}

/// A line of a journal could not be made out.
pub open spec fn record_error_text(problem: Seq<char>) -> Seq<char> {
    "invalid Codex lifecycle journal record: "@ + problem
}

impl Polling {
    /// One more journal is looked at.
    pub open spec fn with_observation(self, seen: Observation, config: AppConfig) -> Polling {
        let session = seen.session_id@;
        if !self.tracker.readers.contains_key(session) {
            self
        } else {
            let followed = self.tracker.readers[session];
            match seen.finding {
                Finding::Missing => Polling {
                    tracker: self.tracker.with_readers(self.tracker.readers.remove(session)),
                    removed: self.removed.push(session),
                    ..self
                },
                Finding::Unreadable { error } => Polling {
                    errors: self.errors.push(inspect_error(followed.path, error@)),
                    ..self
                },
                Finding::Failed { error } => Polling {
                    errors: self.errors.push(reconcile_error(followed.path, error@)),
                    ..self
                },
                Finding::Read { length, modified_at, content, records, problem } => {
                    let reading = journal::polled(
                        followed.reader,
                        length as int,
                        content@,
                        records@,
                        config,
                        modified_at,
                    );
                    let tracker = self.tracker.with_readers(
                        self.tracker.readers.insert(
                            session,
                            TrackedJournal { path: followed.path, reader: reading.reader },
                        ),
                    );
                    match journal::reported(reading) {
                        Ok(Some(transition)) => Polling {
                            tracker,
                            transitions: self.transitions.push(transition_of(session, transition)),
                            ..self
                        },
                        Ok(None) => Polling { tracker, ..self },
                        Err(_) => Polling {
                            tracker,
                            errors: self.errors.push(
                                reconcile_error(followed.path, record_error_text(problem@)),
                            ),
                            ..self
                        },
                    }
                },
            }
        }
    }

    /// Some more journals are looked at.
    pub open spec fn with_observations(
        self,
        seen: Seq<Observation>,
        config: AppConfig,
    ) -> Polling
        decreases seen.len(),
    {
        if seen.len() == 0 {
            self
        } else {
            self.with_observations(seen.drop_last(), config).with_observation(seen.last(), config)
        }
    }
}

/// No journal has been looked at yet.
pub open spec fn nothing_polled(tracker: TrackerModel) -> Polling {
    Polling {
        tracker,
        transitions: Seq::empty(),
        removed: Seq::empty(),
        errors: Seq::empty(),
    }
}

/// The observations are of different tasks.
pub open spec fn of_different_tasks(seen: Seq<Observation>) -> bool {
    forall|i: int, j: int|
        0 <= i < j < seen.len() ==> (#[trigger] seen[i]).session_id@ != (
        #[trigger] seen[j]).session_id@
}

/// The places in the journals can be counted.
pub open spec fn countable(tracker: TrackerModel, seen: Seq<Observation>) -> bool {
    forall|i: int|
        0 <= i < seen.len() && tracker.readers.contains_key((#[trigger] seen[i]).session_id@)
            ==> (seen[i].finding matches Finding::Read {
            length,
            modified_at,
            content,
            records,
            problem,
        } ==> tracker.readers[seen[i].session_id@].reader.opened(length as int).offset
            + content@.len() <= u64::MAX)
}

/// Follows the journals of all tasks.
#[derive(Debug)]
pub struct JournalTracker {
    sessions_root: String,
    readers: StringMap<JournalReader>,
    ignored_order: VecDeque<String>,
    next_poll: Instant,
    last_error: Option<String>,
}

spec fn followed(reader: JournalReader) -> TrackedJournal {
    TrackedJournal { path: reader.spec_path(), reader: reader@ }
}

impl View for JournalTracker {
    type V = TrackerModel;

    closed spec fn view(&self) -> TrackerModel {
        TrackerModel {
            sessions_root: self.sessions_root@,
            readers: self.readers@.map_values(|reader: JournalReader| followed(reader)),
            ignored: self.ignored_order@.map_values(|session: String| session@),
            next_poll: self.next_poll,
            last_error: wire::chars_in(self.last_error),
        }
    }
}

/// Several problems as one.
fn join_errors(errors: &Vec<String>) -> (r: String)
    ensures
        r@ == joined_errors(errors@.map_values(|error: String| error@)),
{
    let ghost views = |error: String| error@;
    let ghost texts = errors@.map_values(views);
    let mut r: String = "".to_owned();
    let mut i: usize = 0;
    proof {
        reveal_strlit("");
        assert(r@ =~= Seq::empty());
        assert(texts.take(0) =~= Seq::empty());
    }
    while i < errors.len()
        invariant
            i <= errors@.len(),
            texts == errors@.map_values(|error: String| error@),
            r@ == joined_errors(texts.take(i as int)),
        decreases errors@.len() - i,
    {
        proof {
            assert(texts.take(i + 1).drop_last() =~= texts.take(i as int));
            assert(texts.take(i + 1).last() == errors@[i as int]@);
        }
        if i > 0 {
            r.append("; ");
        }
        r.append(errors[i].as_str());
        proof {
            if i == 0 {
                assert(r@ =~= texts.take(1)[0]);
            }
        }
        i += 1;
    }
    assert(texts.take(i as int) =~= texts);
    r
}

/// `start`, `path`, a colon and `error`.
fn problem_text(start: &str, path: &str, error: &str) -> (r: String)
    ensures
        r@ == start@ + path@ + ": "@ + error@,
{
    let mut r: String = start.to_owned();
    r.append(path);
    r.append(": ");
    r.append(error);
    r
}

impl JournalTracker {
    /// A tracker that follows no journal yet.
    pub fn new(sessions_root: String, now: Instant) -> (r: Self)
        requires
            now.nanos + time::millis(JOURNAL_POLL_INTERVAL_MS as int) <= u128::MAX,
        ensures
            r@ == (TrackerModel {
                sessions_root: sessions_root@,
                readers: Map::empty(),
                ignored: Seq::empty(),
                next_poll: r@.next_poll,
                last_error: None,
            }),
            r@.next_poll.nanos == now.nanos + time::millis(JOURNAL_POLL_INTERVAL_MS as int),
    {
        let r = JournalTracker {
            sessions_root,
            readers: StringMap::new(),
            ignored_order: VecDeque::new(),
            next_poll: now.after(Duration::from_millis(JOURNAL_POLL_INTERVAL_MS)),
            last_error: None,
        };
        assert(r@.readers =~= Map::empty());
        assert(r@.ignored =~= Seq::empty());
        r
    }

    /// The directory of all sessions.
    pub fn sessions_root(&self) -> (r: &str)
        ensures
            r@ == self@.sessions_root,
    {
        self.sessions_root.as_str()
    }

    /// The tasks whose journals are followed, each once.
    pub fn sessions(&self) -> (r: Vec<String>)
        ensures
            r@.map_values(|session: String| session@).no_duplicates(),
            r@.map_values(|session: String| session@).to_set() == self@.readers.dom(),
    {
        let r: Vec<String> = self.readers.keys();
        assert(self@.readers.dom() =~= self.readers@.dom());
        r
    }

    /// The reader of a task's journal.
    pub fn reader(&self, session_id: &str) -> (r: Option<&JournalReader>)
        ensures
            match r {
                Some(reader) => self@.readers.contains_key(session_id@)
                    && self@.readers[session_id@] == (TrackedJournal {
                    path: reader.spec_path(),
                    reader: reader@,
                }),
                None => !self@.readers.contains_key(session_id@),
            },
    {
        self.readers.get(session_id)
    }

    /// Whether a task is no concern of ours.
    pub fn is_ignored(&self, session_id: &str) -> (r: bool)
        ensures
            r == self@.ignored.contains(session_id@),
    {
        let mut i: usize = 0;
        while i < self.ignored_order.len()
            invariant
                i <= self.ignored_order@.len(),
                forall|j: int| 0 <= j < i ==> (#[trigger] self.ignored_order@[j])@ != session_id@,
            decreases self.ignored_order@.len() - i,
        {
            if text::same_text(self.ignored_order[i].as_str(), session_id) {
                assert(self@.ignored[i as int] == session_id@);
                return true;
            }
            i += 1;
        }
        assert forall|j: int| 0 <= j < self@.ignored.len() implies #[trigger] self@.ignored[j]
            != session_id@ by {
            assert(self@.ignored[j] == self.ignored_order@[j]@);
        }
        false
    }

    /// Remembers a task as no concern of ours.
    #[verifier::rlimit(30)]
    fn remember_ignored(&mut self, session_id: &str)
        ensures
            final(self)@ == old(self)@.with_ignored(remembered(old(self)@.ignored, session_id@)),
    {
        if self.is_ignored(session_id) {
            return;
        }
        self.ignored_order.push_back(session_id.to_owned());
        let ghost grown = self@.ignored;
        assert(grown =~= old(self)@.ignored.push(session_id@));
        assert(grown.skip(0) =~= grown);
        let ghost mut dropped: int = 0;
        while self.ignored_order.len() > IGNORED_SESSION_CACHE_CAPACITY
            invariant
                0 <= dropped <= grown.len(),
                self@.ignored == grown.skip(dropped),
                dropped > 0 ==> grown.len() - dropped >= IGNORED_SESSION_CACHE_CAPACITY,
                self@ == old(self)@.with_ignored(self@.ignored),
            decreases self.ignored_order@.len(),
        {
            let ghost before = self@.ignored;
            let _ = self.ignored_order.pop_front();
            proof {
                assert(before.len() == self.ignored_order@.len() + 1);
                assert(self@.ignored =~= before.skip(1));
                dropped = dropped + 1;
                assert(self@.ignored =~= grown.skip(dropped));
            }
        }
        assert(self@.ignored.len() == self.ignored_order@.len());
        assert(self@.ignored =~= newest(grown));
    }

    /// What to do about the journal `path` of a task that a hook has named. Both paths are absolute
    /// and without links.
    pub fn registration_step(&self, session_id: &str, sessions_root: &str, path: &str) -> (r:
        RegistrationStep)
        ensures
            r == self@.step_for(
                session_id@,
                path@,
                transcript_verdict(
                    paths::lies_under(path@, sessions_root@),
                    paths::file_name_of(path@),
                    session_id@,
                ),
            ),
    {
        if self.is_ignored(session_id) {
            return RegistrationStep::Ignored;
        }
        let verdict: Result<(), TranscriptError> = validate_transcript_path(
            sessions_root,
            session_id,
            path,
        );
        self.step_after(session_id, path, verdict)
    }

    /// What to do about the journal `path` of a task, its path having been judged.
    pub fn step_after(&self, session_id: &str, path: &str, verdict: Result<(), TranscriptError>) -> (r:
        RegistrationStep)
        ensures
            r == self@.step_for(session_id@, path@, verdict),
    {
        if self.is_ignored(session_id) {
            return RegistrationStep::Ignored;
        }
        match verdict {
            Err(error) => RegistrationStep::Rejected(error),
            Ok(_) => {
                let known: bool = match self.readers.get(session_id) {
                    Some(reader) => paths::is_same(reader.path(), path),
                    None => false,
                };
                if known {
                    RegistrationStep::Known
                } else {
                    RegistrationStep::Inspect
                }
            },
        }
    }

    /// Takes up the journal `path` of a task that a hook has named. Both paths are absolute and
    /// without links. Where [`registration_step`](Self::registration_step) asks for the first line
    /// to be looked at, `top_level` says whether it is that of a desktop task, and `length` how
    /// long the journal is. The result says whether the task is one of ours.
    pub fn register_live(
        &mut self,
        session_id: &str,
        sessions_root: &str,
        path: &str,
        top_level: bool,
        length: u64,
    ) -> (r: Result<bool, TranscriptError>)
        ensures
            ({
                let step = old(self)@.step_for(
                    session_id@,
                    path@,
                    transcript_verdict(
                        paths::lies_under(path@, sessions_root@),
                        paths::file_name_of(path@),
                        session_id@,
                    ),
                );
                &&& final(self)@ == old(self)@.registered(
                    session_id@,
                    path@,
                    step,
                    top_level,
                    length as int,
                )
                &&& r == registration_result(step, top_level)
            }),
    {
        let step: RegistrationStep = self.registration_step(session_id, sessions_root, path);
        self.register_after(session_id, path, step, top_level, length)
    }

    /// Takes up the journal `path` of a task, where `step` asks for that.
    pub fn register_after(
        &mut self,
        session_id: &str,
        path: &str,
        step: RegistrationStep,
        top_level: bool,
        length: u64,
    ) -> (r: Result<bool, TranscriptError>)
        ensures
            final(self)@ == old(self)@.registered(
                session_id@,
                path@,
                step,
                top_level,
                length as int,
            ),
            r == registration_result(step, top_level),
    {
        match step {
            RegistrationStep::Ignored => Ok(false),
            RegistrationStep::Known => Ok(true),
            RegistrationStep::Rejected(error) => Err(error),
            RegistrationStep::Inspect => {
                if !top_level {
                    self.remember_ignored(session_id);
                    return Ok(false);
                }
                let reader: JournalReader = JournalReader::follow(path, length);
                self.readers.insert(session_id.to_owned(), reader);
                assert(self@.readers =~= old(self)@.readers.insert(session_id@, followed(reader)));
                Ok(true)
            },
        }
    }

    /// Takes note of a problem. The result says whether it has to be reported.
    pub fn record_error(&mut self, error: String) -> (r: bool)
        ensures
            final(self)@ == (TrackerModel { last_error: Some(error@), ..old(self)@ }),
            r == (old(self)@.last_error != Some(error@)),
    {
        let known: bool = match &self.last_error {
            Some(last) => text::same_text(last.as_str(), error.as_str()),
            None => false,
        };
        self.last_error = Some(error);
        !known
    }

    /// Takes note of the problems of an operation. The result is what has to be reported.
    fn finish_operation(&mut self, errors: &Vec<String>) -> (r: Option<String>)
        ensures
            final(self)@ == old(self)@.finished(errors@.map_values(|error: String| error@)),
            wire::chars_in(r) == old(self)@.warning(errors@.map_values(|error: String| error@)),
    {
        if errors.len() == 0 {
            self.last_error = None;
            return None;
        }
        let text: String = join_errors(errors);
        if self.record_error(text.clone()) {
            Some(text)
        } else {
            None
        }
    }

    /// Takes up the journals of tasks that were shown before.
    pub fn restore(&mut self, targets: Vec<RestoreTarget>) -> (r: JournalRestore)
        ensures
            ({
                let end = nothing_restored(old(self)@).with_targets(targets@);
                &&& final(self)@ == if targets@.len() == 0 {
                    old(self)@
                } else {
                    end.tracker.finished(end.errors)
                }
                &&& r.admitted_sessions@ == end.admitted
                &&& r.transitions@.map_values(|t: SessionJournalTransition| t@) == end.transitions
                &&& wire::chars_in(r.warning) == if targets@.len() == 0 {
                    None
                } else {
                    end.tracker.warning(end.errors)
                }
            }),
    {
        let mut admitted: StringSet = StringSet::new();
        let mut transitions: Vec<SessionJournalTransition> = Vec::new();
        let mut errors: Vec<String> = Vec::new();
        let ghost all = targets@;
        let ghost start = nothing_restored(self@);
        let ghost texts = |error: String| error@;
        let ghost views = |t: SessionJournalTransition| t@;
        assert(transitions@.map_values(views) =~= Seq::empty());
        assert(errors@.map_values(texts) =~= Seq::empty());
        if targets.len() == 0 {
            return JournalRestore { admitted_sessions: admitted, transitions, warning: None };
        }
        let mut left: VecDeque<RestoreTarget> = VecDeque::new();
        let count: usize = targets.len();
        for target in it: targets
            invariant
                left@ == it.seq().take(it.index()),
                it.seq() == all,
        {
            left.push_back(target);
        }
        assert(all.take(all.len() as int) == all);
        assert(all.take(0) =~= Seq::empty());
        assert(all.skip(0) =~= all);
        let mut i: usize = 0;
        while i < count
            invariant
                count == all.len(),
                i <= count,
                left@ == all.skip(i as int),
                texts == (|error: String| error@),
                views == (|t: SessionJournalTransition| t@),
                ({
                    let now = start.with_targets(all.take(i as int));
                    &&& self@ == now.tracker
                    &&& admitted@ == now.admitted
                    &&& transitions@.map_values(views) == now.transitions
                    &&& errors@.map_values(texts) == now.errors
                }),
            decreases count - i,
        {
            let ghost before = start.with_targets(all.take(i as int));
            let ghost shown = transitions@;
            let ghost failed = errors@;
            let ghost readers = self@.readers;
            proof {
                assert(all.take(i + 1).drop_last() =~= all.take(i as int));
                assert(all.take(i + 1).last() == all[i as int]);
                assert(left@[0] == all[i as int]);
                assert(all.skip(i as int).drop_first() =~= all.skip(i + 1));
            }
            if let Some(target) = left.pop_front() {
                assert(target == all[i as int]);
                let RestoreTarget { session_id, outcome } = target;
                match outcome {
                    RestoreOutcome::Missing => {},
                    RestoreOutcome::Unreadable { error } => {
                        errors.push(error);
                        assert(errors@.map_values(texts) =~= failed.map_values(texts).push(error@));
                    },
                    RestoreOutcome::Foreign => {
                        self.remember_ignored(session_id.as_str());
                    },
                    RestoreOutcome::Unrecoverable { error } => {
                        let _ = admitted.insert(session_id);
                        errors.push(error);
                        assert(errors@.map_values(texts) =~= failed.map_values(texts).push(error@));
                    },
                    RestoreOutcome::Recovered { reader, latest } => {
                        self.readers.insert(session_id.clone(), reader);
                        assert(self@.readers =~= readers.insert(session_id@, followed(reader)));
                        let _ = admitted.insert(session_id.clone());
                        if let Some(transition) = latest {
                            let told = SessionJournalTransition {
                                session_id,
                                state: transition.state,
                                occurred_at: transition.occurred_at,
                            };
                            transitions.push(told);
                            assert(transitions@.map_values(views) =~= shown.map_values(views).push(
                                told@,
                            ));
                        }
                    },
                }
            }
            i += 1;
        }
        assert(all.take(count as int) =~= all);
        let warning: Option<String> = self.finish_operation(&errors);
        JournalRestore { admitted_sessions: admitted, transitions, warning }
    }

    /// How long to wait until the next look at the journals.
    pub fn poll_interval(&self, now: Instant) -> (r: Duration)
        ensures
            r.nanos == time::clamped(
                time::elapsed(now, self@.next_poll),
                time::millis(1),
                time::millis(JOURNAL_POLL_INTERVAL_MS as int),
            ),
    {
        self.next_poll.saturating_duration_since(now).clamped(
            Duration::from_millis(1),
            Duration::from_millis(JOURNAL_POLL_INTERVAL_MS),
        )
    }

    /// Whether it is time for a look at the journals.
    pub fn is_due(&self, now: Instant) -> (r: bool)
        ensures
            r == (now.nanos >= self@.next_poll.nanos),
    {
        now.nanos >= self.next_poll.nanos
    }

    /// Takes in what was found of the journals, if it is time for that.
    pub fn poll_if_due(&mut self, now: Instant, seen: &Vec<Observation>, config: &AppConfig) -> (r:
        JournalPoll)
        requires
            now.nanos >= old(self)@.next_poll.nanos ==> now.nanos + time::millis(
                JOURNAL_POLL_INTERVAL_MS as int,
            ) <= u128::MAX,
            of_different_tasks(seen@),
            countable(old(self)@, seen@),
        ensures
            ({
                let end = nothing_polled(old(self)@).with_observations(seen@, *config);
                if now.nanos < old(self)@.next_poll.nanos {
                    &&& final(self)@ == old(self)@
                    &&& r.transitions@.len() == 0
                    &&& r.removed_sessions@.len() == 0
                    &&& r.warning is None
                } else {
                    &&& final(self)@ == (TrackerModel {
                        next_poll: final(self)@.next_poll,
                        ..end.tracker.finished(end.errors)
                    })
                    &&& final(self)@.next_poll.nanos == now.nanos + time::millis(
                        JOURNAL_POLL_INTERVAL_MS as int,
                    )
                    &&& r.transitions@.map_values(|t: SessionJournalTransition| t@)
                        == end.transitions
                    &&& r.removed_sessions@.map_values(|session: String| session@) == end.removed
                    &&& wire::chars_in(r.warning) == end.tracker.warning(end.errors)
                }
            }),
    {
        let mut transitions: Vec<SessionJournalTransition> = Vec::new();
        let mut removed_sessions: Vec<String> = Vec::new();
        let mut errors: Vec<String> = Vec::new();
        if now.nanos < self.next_poll.nanos {
            return JournalPoll { transitions, removed_sessions, warning: None };
        }
        let ghost start = nothing_polled(self@);
        let ghost texts = |text: String| text@;
        let ghost views = |t: SessionJournalTransition| t@;
        proof {
            assert(transitions@.map_values(views) =~= Seq::empty());
            assert(errors@.map_values(texts) =~= Seq::empty());
            assert(removed_sessions@.map_values(texts) =~= Seq::empty());
            assert(seen@.take(0) =~= Seq::empty());
        }
        let mut i: usize = 0;
        while i < seen.len()
            invariant
                i <= seen@.len(),
                of_different_tasks(seen@),
                countable(start.tracker, seen@),
                forall|j: int|
                    i <= j < seen@.len() && self@.readers.contains_key(
                        (#[trigger] seen@[j]).session_id@,
                    ) ==> start.tracker.readers.contains_key(seen@[j].session_id@)
                        && self@.readers[seen@[j].session_id@]
                        == start.tracker.readers[seen@[j].session_id@],
                texts == (|text: String| text@),
                views == (|t: SessionJournalTransition| t@),
                ({
                    let now = start.with_observations(seen@.take(i as int), *config);
                    &&& self@ == now.tracker
                    &&& transitions@.map_values(views) == now.transitions
                    &&& removed_sessions@.map_values(texts) == now.removed
                    &&& errors@.map_values(texts) == now.errors
                }),
            decreases seen@.len() - i,
        {
            let ghost shown = transitions@;
            let ghost failed = errors@;
            let ghost gone = removed_sessions@;
            let ghost before = self@;
            proof {
                assert(seen@.take(i + 1).drop_last() =~= seen@.take(i as int));
                assert(seen@.take(i + 1).last() == seen@[i as int]);
            }
            let session: &str = seen[i].session_id.as_str();
            if let Some(reader) = self.readers.remove(session) {
                assert(followed(reader) == before.readers[session@]);
                let mut reader: JournalReader = reader;
                match &seen[i].finding {
                    Finding::Missing => {
                        removed_sessions.push(session.to_owned());
                        proof {
                            assert(self@.readers =~= before.readers.remove(session@));
                            assert(removed_sessions@.map_values(texts) =~= gone.map_values(
                                texts,
                            ).push(session@));
                        }
                    },
                    Finding::Unreadable { error } => {
                        let text: String = problem_text(
                            "failed to inspect Codex lifecycle journal ",
                            reader.path(),
                            error.as_str(),
                        );
                        errors.push(text);
                        self.readers.insert(session.to_owned(), reader);
                        proof {
                            assert(self@.readers =~= before.readers);
                            assert(errors@.map_values(texts) =~= failed.map_values(texts).push(
                                text@,
                            ));
                        }
                    },
                    Finding::Failed { error } => {
                        let text: String = problem_text(
                            "failed to reconcile Codex lifecycle journal ",
                            reader.path(),
                            error.as_str(),
                        );
                        errors.push(text);
                        self.readers.insert(session.to_owned(), reader);
                        proof {
                            assert(self@.readers =~= before.readers);
                            assert(errors@.map_values(texts) =~= failed.map_values(texts).push(
                                text@,
                            ));
                        }
                    },
                    Finding::Read { length, modified_at, content, records, problem } => {
                        let outcome: Result<Option<JournalTransition>, JournalError> = reader.poll(
                            *length,
                            *modified_at,
                            content.as_slice(),
                            records.as_slice(),
                            config,
                        );
                        match outcome {
                            Ok(Some(transition)) => {
                                let told = SessionJournalTransition {
                                    session_id: session.to_owned(),
                                    state: transition.state,
                                    occurred_at: transition.occurred_at,
                                };
                                transitions.push(told);
                                assert(transitions@.map_values(views) =~= shown.map_values(
                                    views,
                                ).push(told@));
                            },
                            Ok(None) => {},
                            Err(_) => {
                                let mut detail: String =
                                    "invalid Codex lifecycle journal record: ".to_owned();
                                detail.append(problem.as_str());
                                let text: String = problem_text(
                                    "failed to reconcile Codex lifecycle journal ",
                                    reader.path(),
                                    detail.as_str(),
                                );
                                errors.push(text);
                                assert(errors@.map_values(texts) =~= failed.map_values(
                                    texts,
                                ).push(text@));
                            },
                        }
                        self.readers.insert(session.to_owned(), reader);
                        assert(self@.readers =~= before.readers.insert(session@, followed(reader)));
                    },
                }
            } else {
                assert(self@.readers =~= before.readers);
            }
            i += 1;
        }
        assert(seen@.take(i as int) =~= seen@);
        self.next_poll = now.after(Duration::from_millis(JOURNAL_POLL_INTERVAL_MS));
        let warning: Option<String> = self.finish_operation(&errors);
        JournalPoll { transitions, removed_sessions, warning }
    }

    /// Follows no other journals than those of the tasks `session_ids`.
    pub fn retain_sessions(&mut self, session_ids: &Vec<String>)
        ensures
            final(self)@ == old(self)@.with_readers(
                old(self)@.readers.restrict(
                    session_ids@.map_values(|session: String| session@).to_set(),
                ),
            ),
    {
        let ghost keep = session_ids@.map_values(|session: String| session@);
        let known: Vec<String> = self.readers.keys();
        let ghost before = self@.readers;
        let mut i: usize = 0;
        while i < known.len()
            invariant
                i <= known@.len(),
                keep == session_ids@.map_values(|session: String| session@),
                self@ == old(self)@.with_readers(self@.readers),
                forall|session: Seq<char>| #[trigger]
                    self@.readers.contains_key(session) <==> before.contains_key(session) && (
                    keep.contains(session) || !exists|j: int|
                        0 <= j < i && (#[trigger] known@[j])@ == session),
                forall|session: Seq<char>| #[trigger]
                    self@.readers.contains_key(session) ==> self@.readers[session]
                        == before[session],
            decreases known@.len() - i,
        {
            let ghost now = self@.readers;
            let ghost name = known@[i as int]@;
            if !contains_text(session_ids, known[i].as_str()) {
                let _ = self.readers.remove(known[i].as_str());
                assert(self@.readers =~= now.remove(name));
            }
            assert forall|session: Seq<char>| #[trigger]
                self@.readers.contains_key(session) <==> before.contains_key(session) && (
                keep.contains(session) || !exists|j: int|
                    0 <= j < i + 1 && (#[trigger] known@[j])@ == session) by {
                assert(now.contains_key(session) <==> before.contains_key(session) && (
                keep.contains(session) || !exists|j: int|
                    0 <= j < i && (#[trigger] known@[j])@ == session));
                if session == name {
                    assert(known@[i as int]@ == session);
                } else if exists|j: int| 0 <= j < i && (#[trigger] known@[j])@ == session {
                    let j = choose|j: int| 0 <= j < i && (#[trigger] known@[j])@ == session;
                    assert(known@[j]@ == session && 0 <= j < i + 1);
                }
            }
            i += 1;
        }
        proof {
            let wanted = before.restrict(keep.to_set());
            assert forall|session: Seq<char>| #[trigger]
                self@.readers.contains_key(session) <==> wanted.contains_key(session) by {
                if before.contains_key(session) {
                    assert(self.readers@.contains_key(session) || !self.readers@.contains_key(
                        session,
                    ));
                    assert(exists|j: int| 0 <= j < known@.len() && (#[trigger] known@[j])@ == session);
                }
            }
            assert(self@.readers =~= wanted);
        }
    }

    /// Forgets a task, or all of them.
    pub fn clear(&mut self, session_id: Option<&str>)
        ensures
            final(self)@ == match session_id {
                Some(session) => old(self)@.with_readers(
                    old(self)@.readers.remove(session@),
                ).with_ignored(without(old(self)@.ignored, session@)),
                None => old(self)@.with_readers(Map::empty()).with_ignored(Seq::empty()),
            },
    {
        match session_id {
            Some(session) => {
                let _ = self.readers.remove(session);
                assert(self@.readers =~= old(self)@.readers.remove(session@));
                let mut kept: VecDeque<String> = VecDeque::new();
                let ghost names = |name: String| name@;
                let ghost ignored = self@.ignored;
                let mut i: usize = 0;
                assert(ignored.take(0) =~= Seq::empty());
                assert(kept@.map_values(names) =~= Seq::empty());
                while i < self.ignored_order.len()
                    invariant
                        i <= self.ignored_order@.len(),
                        names == (|name: String| name@),
                        ignored == self.ignored_order@.map_values(names),
                        kept@.map_values(names) == without(ignored.take(i as int), session@),
                    decreases self.ignored_order@.len() - i,
                {
                    let ghost before = kept@;
                    proof {
                        assert(ignored.take(i + 1).drop_last() =~= ignored.take(i as int));
                        assert(ignored.take(i + 1).last() == self.ignored_order@[i as int]@);
                    }
                    if !text::same_text(self.ignored_order[i].as_str(), session) {
                        kept.push_back(self.ignored_order[i].clone());
                        assert(kept@.map_values(names) =~= before.map_values(names).push(
                            self.ignored_order@[i as int]@,
                        ));
                    }
                    i += 1;
                }
                assert(ignored.take(i as int) =~= ignored);
                self.ignored_order = kept;
            },
            None => {
                self.readers.clear();
                self.ignored_order.clear();
                assert(self@.readers =~= Map::empty());
                assert(self@.ignored =~= Seq::empty());
            },
        }
    }

    /// How many journals are followed.
    pub fn source_count(&self) -> (r: usize)
        ensures
            self@.readers.dom().finite(),
            r == self@.readers.dom().len(),
    {
        assert(self@.readers.dom() =~= self.readers@.dom());
        self.readers.len()
    }

    /// The last problem.
    pub fn last_error(&self) -> (r: &Option<String>)
        ensures
            wire::chars_in(*r) == self@.last_error,
    {
        &self.last_error
    }
}

/// Whether `texts` holds `text`.
fn contains_text(texts: &Vec<String>, text: &str) -> (r: bool)
    ensures
        r == texts@.map_values(|text: String| text@).contains(text@),
{
    let ghost all = texts@.map_values(|text: String| text@);
    let mut i: usize = 0;
    while i < texts.len()
        invariant
            i <= texts@.len(),
            all == texts@.map_values(|text: String| text@),
            forall|j: int| 0 <= j < i ==> #[trigger] all[j] != text@,
        decreases texts@.len() - i,
    {
        assert(all[i as int] == texts@[i as int]@);
        if text::same_text(texts[i].as_str(), text) {
            return true;
        }
        i += 1;
    }
    false
}

} // verus!
