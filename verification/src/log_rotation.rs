//! Keeping the log short.
//!
//! A log that has grown too long is copied to an archive and emptied in place, so that whoever has
//! it open for appending goes on writing to it.
use vstd::prelude::*;

use crate::text;
use crate::time;
use crate::time::{Duration, Instant};

verus! {

/// How long to wait between two looks at the log, in seconds.
pub const LOG_ROTATION_CHECK_INTERVAL_SECS: u64 = 60;

/// How long the log may get.
pub const LOG_ROTATION_MAX_BYTES: u64 = 5242880;

/// How many archives are kept.
pub const LOG_ROTATION_RETAINED_FILES: usize = 2;

/// Looks at the log from time to time.
#[derive(Clone, Copy, Debug, PartialEq, Eq, Structural)]
pub struct LogRotator {
    pub last_checked: Instant,
    pub max_bytes: u64,
    pub retained_files: usize,
}

/// Something that is done to a file.
#[derive(Clone, Debug)]
pub enum RotationStep {
    /// The file is removed, where it exists.
    RemoveIfPresent { path: String },
    /// The file is renamed, where it exists.
    MoveIfPresent { from: String, to: String },
    /// The file is copied.
    CopyFile { from: String, to: String },
    /// The file is emptied and stays where it is.
    Truncate { path: String },
}

/// Something that is done to a file.
pub enum Step {
    RemoveIfPresent(Seq<char>),
    MoveIfPresent(Seq<char>, Seq<char>),
    CopyFile(Seq<char>, Seq<char>),
    Truncate(Seq<char>),
}

impl View for RotationStep {
    type V = Step;

    open spec fn view(&self) -> Step {
        match *self {
            RotationStep::RemoveIfPresent { path } => Step::RemoveIfPresent(path@),
            RotationStep::MoveIfPresent { from, to } => Step::MoveIfPresent(from@, to@),
            RotationStep::CopyFile { from, to } => Step::CopyFile(from@, to@),
            RotationStep::Truncate { path } => Step::Truncate(path@),
        }
    }
}

/// The archive `n` of the log `path`, the newest being the first.
pub open spec fn archive(path: Seq<char>, n: nat) -> Seq<char> {
    path + "."@ + text::decimal(n)
}

/// A file that exists only while the log is copied.
pub open spec fn temporary(path: Seq<char>) -> Seq<char> {
    path + ".rotate.tmp"@
}

/// The archives up to `n` move up by one, the oldest first.
pub open spec fn shifts(path: Seq<char>, n: nat) -> Seq<Step>
    decreases n,
{
    if n == 0 {
        Seq::empty()
    } else {
        seq![Step::MoveIfPresent(archive(path, n), archive(path, n + 1))] + shifts(
            path,
            (n - 1) as nat,
        )
    }
}

/// The log becomes the first archive.
pub open spec fn archiving(path: Seq<char>) -> Seq<Step> {
    seq![
        Step::RemoveIfPresent(temporary(path)),
        Step::CopyFile(path, temporary(path)),
        Step::MoveIfPresent(temporary(path), archive(path, 1)),
    ]
}

/// All that is done to rotate the log `path` where `retained` archives are kept.
pub open spec fn rotation(path: Seq<char>, retained: nat) -> Seq<Step> {
    if retained == 0 {
        seq![Step::Truncate(path)]
    } else {
        seq![Step::RemoveIfPresent(archive(path, retained))] + shifts(path, (retained - 1) as nat)
            + archiving(path) + seq![Step::Truncate(path)]
    }
}

/// The log is too long. `length` is its length, where there is a log.
pub open spec fn needs_rotation(length: Option<u64>, max_bytes: u64) -> bool {
    length is Some && length->0 >= max_bytes
}

/// `path` followed by `suffix`.
pub fn log_path_with_suffix(path: &str, suffix: &str) -> (r: String)
    ensures
        r@ == path@ + suffix@,
{
    let mut r: String = path.to_owned();
    r.append(suffix);
    r
}

/// The archive `n` of the log `path`.
fn archive_path(path: &str, n: usize) -> (r: String)
    ensures
        r@ == archive(path@, n as nat),
{
    let mut r: String = log_path_with_suffix(path, ".");
    let number: String = text::decimal_text(n as u64);
    r.append(number.as_str());
    r
}

/// The steps that rotate the log `path`, or `None` where it is short enough. `length` is its
/// length, where there is a log.
pub fn rotate_log_file(
    path: &str,
    length: Option<u64>,
    max_bytes: u64,
    retained_files: usize,
) -> (r: Option<Vec<RotationStep>>)
    ensures
        match r {
            Some(steps) => needs_rotation(length, max_bytes) && steps@.map_values(
                |step: RotationStep| step@,
            ) == rotation(path@, retained_files as nat),
            None => !needs_rotation(length, max_bytes),
        },
{
    match length {
        Some(length) => {
            if length < max_bytes {
                return None;
            }
        },
        None => {
            return None;
        },
    }
    let ghost views = |step: RotationStep| step@;
    let mut steps: Vec<RotationStep> = Vec::new();
    if retained_files > 0 {
        steps.push(RotationStep::RemoveIfPresent { path: archive_path(path, retained_files) });
        let ghost first = seq![Step::RemoveIfPresent(archive(path@, retained_files as nat))];
        let ghost all = shifts(path@, (retained_files - 1) as nat);
        let mut index: usize = retained_files - 1;
        assert(steps@.map_values(views) + shifts(path@, index as nat) =~= first + all);
        while index > 0
            invariant
                index < retained_files,
                views == (|step: RotationStep| step@),
                steps@.map_values(views) + shifts(path@, index as nat) == first + all,
            decreases index,
        {
            let ghost before = steps@;
            let step = RotationStep::MoveIfPresent {
                from: archive_path(path, index),
                to: archive_path(path, index + 1),
            };
            steps.push(step);
            proof {
                let rest = shifts(path@, (index - 1) as nat);
                assert(steps@.map_values(views) =~= before.map_values(views).push(step@));
                assert(before.map_values(views).push(step@) + rest =~= before.map_values(views) + (
                seq![step@] + rest));
            }
            index -= 1;
        }
        assert(steps@.map_values(views) =~= first + all);
        let ghost shifted = steps@;
        let temporary_path: String = log_path_with_suffix(path, ".rotate.tmp");
        steps.push(RotationStep::RemoveIfPresent { path: temporary_path.clone() });
        steps.push(
            RotationStep::CopyFile { from: path.to_owned(), to: temporary_path.clone() },
        );
        steps.push(
            RotationStep::MoveIfPresent { from: temporary_path, to: archive_path(path, 1) },
        );
        assert(steps@.map_values(views) =~= first + all + archiving(path@));
    }
    let ghost before = steps@;
    steps.push(RotationStep::Truncate { path: path.to_owned() });
    assert(steps@.map_values(views) =~= before.map_values(views) + seq![Step::Truncate(path@)]);
    assert(steps@.map_values(views) =~= rotation(path@, retained_files as nat));
    Some(steps)
}

impl LogRotator {
    /// The log was looked at now.
    pub fn new_at(now: Instant, max_bytes: u64, retained_files: usize) -> (r: Self)
        ensures
            r == (LogRotator { last_checked: now, max_bytes, retained_files }),
    {
        LogRotator { last_checked: now, max_bytes, retained_files }
    }

    /// The log was looked at now, with the usual limits.
    pub fn new(now: Instant) -> (r: Self)
        ensures
            r == (LogRotator {
                last_checked: now,
                max_bytes: LOG_ROTATION_MAX_BYTES,
                retained_files: LOG_ROTATION_RETAINED_FILES,
            }),
    {
        LogRotator::new_at(now, LOG_ROTATION_MAX_BYTES, LOG_ROTATION_RETAINED_FILES)
    }

    /// Whether it is time to look at the log. The time is counted from then on.
    pub fn take_if_due(&mut self, now: Instant) -> (r: bool)
        ensures
            r == (time::elapsed(old(self).last_checked, now) >= time::seconds(
                LOG_ROTATION_CHECK_INTERVAL_SECS as int,
            )),
            *final(self) == if r {
                LogRotator { last_checked: now, ..*old(self) }
            } else {
                *old(self)
            },
    {
        if now.saturating_duration_since(self.last_checked).nanos < Duration::from_secs(
            LOG_ROTATION_CHECK_INTERVAL_SECS,
        ).nanos {
            return false;
        }
        self.last_checked = now;
        true
    }

    /// The steps that rotate the log `path`, where it is time to look at it and it is too long.
    /// `length` is its length, where there is a log. The outer `None` says that it is not time.
    pub fn rotate_if_due(&mut self, now: Instant, path: &str, length: Option<u64>) -> (r: Option<
        Option<Vec<RotationStep>>,
    >)
        ensures
            ({
                let due = time::elapsed(old(self).last_checked, now) >= time::seconds(
                    LOG_ROTATION_CHECK_INTERVAL_SECS as int,
                );
                &&& *final(self) == if due {
                    LogRotator { last_checked: now, ..*old(self) }
                } else {
                    *old(self)
                }
                &&& match r {
                    Some(Some(steps)) => due && needs_rotation(length, old(self).max_bytes)
                        && steps@.map_values(|step: RotationStep| step@) == rotation(
                        path@,
                        old(self).retained_files as nat,
                    ),
                    Some(None) => due && !needs_rotation(length, old(self).max_bytes),
                    None => !due,
                }
            }),
    {
        if !self.take_if_due(now) {
            return None;
        }
        Some(rotate_log_file(path, length, self.max_bytes, self.retained_files))
    }
}

/// The files after a step.
pub open spec fn after_step(files: Map<Seq<char>, Seq<u8>>, step: Step) -> Map<
    Seq<char>,
    Seq<u8>,
> {
    match step {
        Step::RemoveIfPresent(path) => files.remove(path),
        Step::MoveIfPresent(from, to) => if files.contains_key(from) {
            files.remove(from).insert(to, files[from])
        } else {
            files
        },
        Step::CopyFile(from, to) => files.insert(to, files[from]),
        Step::Truncate(path) => files.insert(path, Seq::empty()),
    }
}

/// The files after some steps, one after the other.
pub open spec fn after_steps(files: Map<Seq<char>, Seq<u8>>, steps: Seq<Step>) -> Map<
    Seq<char>,
    Seq<u8>,
>
    decreases steps.len(),
{
    if steps.len() == 0 {
        files
    } else {
        after_steps(after_step(files, steps[0]), steps.drop_first())
    }
}

proof fn lemma_after_steps_append(files: Map<Seq<char>, Seq<u8>>, a: Seq<Step>, b: Seq<Step>)
    ensures
        after_steps(files, a + b) == after_steps(after_steps(files, a), b),
    decreases a.len(),
{
    if a.len() == 0 {
        assert(a + b =~= b);
    } else {
        assert((a + b)[0] == a[0]);
        assert((a + b).drop_first() =~= a.drop_first() + b);
        lemma_after_steps_append(after_step(files, a[0]), a.drop_first(), b);
    }
}

/// Different archives have different names, and none of them is the log or the temporary file.
proof fn lemma_archive_names(path: Seq<char>, a: nat, b: nat)
    ensures
        archive(path, a) == archive(path, b) ==> a == b,
        archive(path, a) != path,
        archive(path, a) != temporary(path),
        temporary(path) != path,
{
    reveal_strlit(".");
    reveal_strlit(".rotate.tmp");
    let prefix = path + "."@;
    text::lemma_decimal(a);
    text::lemma_decimal(b);
    if archive(path, a) == archive(path, b) {
        assert(archive(path, a).skip(prefix.len() as int) =~= text::decimal(a));
        assert(archive(path, b).skip(prefix.len() as int) =~= text::decimal(b));
        text::lemma_decimal_tells_apart(a, b);
    }
    assert(archive(path, a).len() > path.len());
    assert(temporary(path).len() > path.len());
    if archive(path, a) == temporary(path) {
        assert(archive(path, a)[path.len() as int + 1] == text::decimal(a)[0]);
        assert(temporary(path)[path.len() as int + 1] == 'r');
    }
}

/// The archives up to `n` have moved up by one, and nothing else has changed.
spec fn shifted(
    before: Map<Seq<char>, Seq<u8>>,
    after: Map<Seq<char>, Seq<u8>>,
    path: Seq<char>,
    n: nat,
) -> bool {
    &&& forall|k: nat|
        1 <= k <= n ==> #[trigger] after.contains_key(archive(path, k + 1)) == before.contains_key(
            archive(path, k),
        ) && (before.contains_key(archive(path, k)) ==> after[archive(path, k + 1)]
            == before[archive(path, k)])
    &&& n >= 1 ==> !after.contains_key(archive(path, 1))
    &&& forall|name: Seq<char>|
        (forall|k: nat| 1 <= k <= n + 1 ==> name != #[trigger] archive(path, k))
            ==> #[trigger] after.contains_key(name) == before.contains_key(name) && (
        before.contains_key(name) ==> after[name] == before[name])
}

#[verifier::spinoff_prover]
#[verifier::rlimit(40)]
proof fn lemma_shifts(files: Map<Seq<char>, Seq<u8>>, path: Seq<char>, n: nat)
    requires
        !files.contains_key(archive(path, n + 1)),
    ensures
        shifted(files, after_steps(files, shifts(path, n)), path, n),
    decreases n,
{
    if n > 0 {
        let from = archive(path, n);
        let to = archive(path, n + 1);
        let step = Step::MoveIfPresent(from, to);
        let next = after_step(files, step);
        let rest = shifts(path, (n - 1) as nat);
        assert(shifts(path, n)[0] == step);
        assert(shifts(path, n).drop_first() =~= rest);
        lemma_archive_names(path, n, n + 1);
        assert(!next.contains_key(from));
        lemma_shifts(next, path, (n - 1) as nat);
        let after = after_steps(next, rest);
        assert forall|k: nat| 1 <= k <= n implies #[trigger] after.contains_key(
            archive(path, k + 1),
        ) == files.contains_key(archive(path, k)) && (files.contains_key(archive(path, k))
            ==> after[archive(path, k + 1)] == files[archive(path, k)]) by {
            lemma_archive_names(path, k, n);
            lemma_archive_names(path, k, n + 1);
            lemma_archive_names(path, k + 1, n);
            lemma_archive_names(path, k + 1, n + 1);
            if k == n {
                assert forall|j: nat| 1 <= j <= (n - 1) + 1 implies to != #[trigger] archive(
                    path,
                    j,
                ) by {
                    lemma_archive_names(path, j, n + 1);
                }
                assert(after.contains_key(to) == next.contains_key(to));
            } else {
                assert(after.contains_key(archive(path, k + 1)) == next.contains_key(
                    archive(path, k),
                ));
            }
        }
        assert(!after.contains_key(archive(path, 1))) by {
            if n == 1 {
                assert(rest =~= Seq::empty());
            }
        }
        assert forall|name: Seq<char>|
            (forall|k: nat| 1 <= k <= n + 1 ==> name != #[trigger] archive(path, k)) implies
            #[trigger] after.contains_key(name) == files.contains_key(name) && (
        files.contains_key(name) ==> after[name] == files[name]) by {
            assert(name != from && name != to);
            assert forall|j: nat| 1 <= j <= (n - 1) + 1 implies name != #[trigger] archive(
                path,
                j,
            ) by {}
            assert(after.contains_key(name) == next.contains_key(name));
        }
        assert(shifted(files, after, path, n));
        assert(after_steps(files, shifts(path, n)) == after);
    } else {
        assert(shifts(path, n).len() == 0);
        assert(after_steps(files, shifts(path, n)) == files);
    }
}

/// A rotation keeps the log as the newest archive, moves the other archives up by one, drops the
/// oldest, empties the log where it is, and touches no other file but its temporary one.
pub proof fn law_rotation_keeps_the_newest(
    files: Map<Seq<char>, Seq<u8>>,
    path: Seq<char>,
    retained: nat,
)
    requires
        retained >= 1,
        files.contains_key(path),
    ensures
        ({
            let after = after_steps(files, rotation(path, retained));
            &&& after.contains_key(path) && after[path] == Seq::<u8>::empty()
            &&& after.contains_key(archive(path, 1)) && after[archive(path, 1)] == files[path]
            &&& forall|k: nat|
                1 <= k < retained ==> #[trigger] after.contains_key(archive(path, k + 1))
                    == files.contains_key(archive(path, k)) && (files.contains_key(archive(path, k))
                    ==> after[archive(path, k + 1)] == files[archive(path, k)])
            &&& !after.contains_key(temporary(path))
            &&& forall|name: Seq<char>|
                name != path && name != temporary(path) && (forall|k: nat|
                    1 <= k <= retained ==> name != #[trigger] archive(path, k))
                    ==> #[trigger] after.contains_key(name) == files.contains_key(name) && (
                files.contains_key(name) ==> after[name] == files[name])
        }),
{
    let n = (retained - 1) as nat;
    let oldest = archive(path, retained);
    let temp = temporary(path);
    let first = archive(path, 1);
    let drop_oldest = seq![Step::RemoveIfPresent(oldest)];
    let truncate = seq![Step::Truncate(path)];
    let cleared = files.remove(oldest);
    let moved = after_steps(cleared, shifts(path, n));
    lemma_archive_names(path, retained, 1);
    lemma_archive_names(path, 1, 1);
    lemma_after_steps_append(files, drop_oldest, shifts(path, n));
    lemma_after_steps_append(files, drop_oldest + shifts(path, n), archiving(path));
    lemma_after_steps_append(
        files,
        drop_oldest + shifts(path, n) + archiving(path),
        truncate,
    );
    assert(after_steps(files, drop_oldest) == cleared) by {
        assert(drop_oldest.drop_first() =~= Seq::empty());
        reveal_with_fuel(after_steps, 2);
    }
    lemma_shifts(cleared, path, n);
    assert forall|k: nat| 1 <= k <= n + 1 implies path != #[trigger] archive(path, k) by {
        lemma_archive_names(path, k, k);
    }
    assert(cleared.contains_key(path));
    assert(moved.contains_key(path) == cleared.contains_key(path));
    assert(moved[path] == files[path]);
    let copied = moved.remove(temp).insert(temp, moved.remove(temp)[path]);
    let archived = copied.remove(temp).insert(first, copied[temp]);
    assert(after_steps(moved, archiving(path)) == archived) by {
        let steps = archiving(path);
        assert(steps.drop_first().drop_first().drop_first() =~= Seq::empty());
        reveal_with_fuel(after_steps, 4);
    }
    let after = archived.insert(path, Seq::<u8>::empty());
    assert(after_steps(archived, truncate) == after) by {
        assert(truncate.drop_first() =~= Seq::empty());
        reveal_with_fuel(after_steps, 2);
    }
    assert(after == after_steps(files, rotation(path, retained)));
    assert forall|k: nat| 1 <= k < retained implies #[trigger] after.contains_key(
        archive(path, k + 1),
    ) == files.contains_key(archive(path, k)) && (files.contains_key(archive(path, k))
        ==> after[archive(path, k + 1)] == files[archive(path, k)]) by {
        lemma_archive_names(path, k, retained);
        lemma_archive_names(path, k + 1, 1);
        assert(moved.contains_key(archive(path, k + 1)) == cleared.contains_key(archive(path, k)));
    }
    assert forall|name: Seq<char>|
        name != path && name != temp && (forall|k: nat|
            1 <= k <= retained ==> name != #[trigger] archive(path, k)) implies #[trigger] after.contains_key(
        name,
    ) == files.contains_key(name) && (files.contains_key(name) ==> after[name] == files[name]) by {
        assert(name != oldest && name != first);
        assert forall|j: nat| 1 <= j <= n + 1 implies name != #[trigger] archive(path, j) by {}
        assert(moved.contains_key(name) == cleared.contains_key(name));
    }
}

} // verus!
