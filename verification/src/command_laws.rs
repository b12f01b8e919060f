//! What holds of the words on the command line, of links, of the program's place and of the log.
use vstd::prelude::*;

use crate::cli;
use crate::log_rotation;
use crate::log_rotation::{RotationStep, Step};
use crate::navigation;
use crate::paths;
use crate::text;
use crate::update;
use crate::update::UpdateError;

verus! {

/// Every command has its words, and no other word stands for it.
pub proof fn law_commands_have_their_words(word: Seq<char>)
    ensures
        cli::command_of(word) is Daemon <==> word == "daemon"@,
        cli::command_of(word) is Hook <==> word == "hook"@,
        cli::command_of(word) is InitConfig <==> word == "init-config"@,
        cli::command_of(word) is SetState <==> word == "set"@,
        cli::command_of(word) is Clear <==> word == "clear"@,
        cli::command_of(word) is Reload <==> word == "reload"@,
        cli::command_of(word) is Status <==> word == "status"@,
        cli::command_of(word) is Doctor <==> word == "doctor"@,
        cli::command_of(word) is Update <==> word == "update"@,
        cli::command_of(word) is Help <==> word == "help"@ || word == "--help"@ || word == "-h"@,
        cli::command_of(word) is Version <==> word == "--version"@ || word == "-V"@ || word
            == "version"@,
{
    reveal_strlit("daemon");
    reveal_strlit("hook");
    reveal_strlit("init-config");
    reveal_strlit("set");
    reveal_strlit("clear");
    reveal_strlit("reload");
    reveal_strlit("status");
    reveal_strlit("doctor");
    reveal_strlit("update");
    reveal_strlit("help");
    reveal_strlit("--help");
    reveal_strlit("-h");
    reveal_strlit("--version");
    reveal_strlit("-V");
    reveal_strlit("version");
    assert(word == "daemon"@ ==> word[0] == 'd' && word[1] == 'a');
    assert(word == "hook"@ ==> word[0] == 'h' && word[1] == 'o');
    assert(word == "init-config"@ ==> word[0] == 'i');
    assert(word == "set"@ ==> word[0] == 's' && word[1] == 'e');
    assert(word == "clear"@ ==> word[0] == 'c');
    assert(word == "reload"@ ==> word[0] == 'r');
    assert(word == "status"@ ==> word[0] == 's' && word[1] == 't');
    assert(word == "doctor"@ ==> word[0] == 'd' && word[1] == 'o');
    assert(word == "update"@ ==> word[0] == 'u');
    assert(word == "help"@ ==> word[0] == 'h' && word[1] == 'e');
    assert(word == "--help"@ ==> word[0] == '-' && word[1] == '-' && word[2] == 'h');
    assert(word == "-h"@ ==> word[0] == '-' && word[1] == 'h');
    assert(word == "--version"@ ==> word[0] == '-' && word[1] == '-' && word[2] == 'v');
    assert(word == "-V"@ ==> word[0] == '-' && word[1] == 'V');
    assert(word == "version"@ ==> word[0] == 'v');
}

/// The word behind the program's name is the command, whatever follows, and without one help is
/// given.
pub proof fn law_second_word_is_the_command(words: Seq<String>, more: Seq<String>)
    ensures
        words.len() < 2 ==> cli::requested(words) is Help,
        words.len() >= 2 ==> cli::requested(words + more) == cli::command_of(words[1]@),
{
}

/// A name stands in a link as it is exactly where it is made up of letters, digits, hyphens and
/// underscores. The link ends in it.
pub proof fn law_links_hold_plain_names(session: Seq<char>, i: int)
    ensures
        navigation::is_plain_id(session) && 0 <= i < session.len() ==> {
            let code = session[i] as int;
            48 <= code <= 57 || 65 <= code <= 90 || 97 <= code <= 122 || code == 45 || code == 95
        },
        session.len() == 0 ==> !navigation::is_plain_id(session),
        session.len() > 0 && (forall|j: int|
            0 <= j < session.len() ==> {
                let code = #[trigger] session[j] as int;
                48 <= code <= 57 || 65 <= code <= 90 || 97 <= code <= 122 || code == 45 || code
                    == 95
            }) ==> navigation::is_plain_id(session),
        navigation::thread_url(session) == "codex://threads/"@ + session,
{
    if navigation::is_plain_id(session) && 0 <= i < session.len() {
        assert(navigation::is_plain_char(session[i]));
    }
}

/// The program was installed in the directory of its directory, where it goes by its own name and
/// lies among programs. What is missing first is what is told.
pub proof fn law_program_is_found_in_its_place(
    name: Option<Seq<char>>,
    directory: Option<Seq<char>>,
    directory_name: Option<Seq<char>>,
    root: Option<Seq<char>>,
)
    ensures
        ({
            let found = update::install_root_of(name, directory, directory_name, root);
            let named = name is Some && name->0 == "codex-agent-indicator"@;
            let in_bin = directory_name is Some && directory_name->0 == "bin"@;
            &&& found is Ok <==> named && directory is Some && in_bin && root is Some
            &&& found is Ok ==> found->Ok_0 == root->0
            &&& !named ==> found == Err::<Seq<char>, UpdateError>(UpdateError::Renamed)
            &&& named && directory is None ==> found == Err::<Seq<char>, UpdateError>(
                UpdateError::NoDirectory,
            )
            &&& named && directory is Some && !in_bin ==> found == Err::<Seq<char>, UpdateError>(
                UpdateError::OutsideBin,
            )
            &&& named && directory is Some && in_bin && root is None ==> found == Err::<
                Seq<char>,
                UpdateError,
            >(UpdateError::NoInstallRoot)
        }),
{
}

/// A program in a directory of programs is recognised by its path, in whatever directory that is.
pub proof fn law_installed_program_is_recognised(root: Seq<char>, name: Seq<char>)
    requires
        name.len() > 0,
        name != "."@,
        !name.contains('/'),
    ensures
        ({
            let bin = paths::joined(root, "bin"@);
            let program = paths::joined(bin, "codex-agent-indicator"@);
            &&& update::names_program(program)
            &&& update::lies_in_bin(program)
            &&& update::names_program(paths::joined(root, name)) <==> name
                == "codex-agent-indicator"@
            &&& update::lies_in_bin(
                paths::joined(paths::joined(root, name), "codex-agent-indicator"@),
            ) <==> name == "bin"@
        }),
{
    reveal_strlit("bin");
    reveal_strlit(".");
    reveal_strlit("codex-agent-indicator");
    assert("bin"@.len() == 3);
    assert("codex-agent-indicator"@.len() == 21);
    assert(!"bin"@.contains('/'));
    assert(!"codex-agent-indicator"@.contains('/'));
    let bin = paths::joined(root, "bin"@);
    let other = paths::joined(root, name);
    paths::law_joining_adds_a_component(root, "bin"@);
    paths::law_joining_adds_a_component(bin, "codex-agent-indicator"@);
    paths::law_joining_adds_a_component(root, name);
    paths::law_joining_adds_a_component(other, "codex-agent-indicator"@);
}

/// A log is rotated exactly where there is one and it has reached its limit, which is five
/// mebibytes, with two archives kept.
pub proof fn law_long_logs_are_rotated(length: u64, max_bytes: u64)
    ensures
        log_rotation::needs_rotation(Some(length), max_bytes) <==> max_bytes <= length,
        !log_rotation::needs_rotation(None, max_bytes),
        log_rotation::LOG_ROTATION_MAX_BYTES == 5 * 1024 * 1024,
        log_rotation::LOG_ROTATION_RETAINED_FILES == 2,
{
}

/// Archives are numbered behind the name of the log. Without archives the log is only emptied.
pub proof fn law_archives_are_numbered(path: Seq<char>, n: nat)
    ensures
        log_rotation::archive(path, n).take(path.len() as int) == path,
        log_rotation::archive(path, n)[path.len() as int] == '.',
        log_rotation::archive(path, n).skip((path.len() + 1) as int) == text::decimal(n),
        log_rotation::temporary(path) == path + ".rotate.tmp"@,
        log_rotation::rotation(path, 0).len() == 1,
        log_rotation::rotation(path, 0)[0] == Step::Truncate(path),
{
    reveal_strlit(".");
    let name = log_rotation::archive(path, n);
    assert(name.take(path.len() as int) =~= path);
    assert(name.skip((path.len() + 1) as int) =~= text::decimal(n));
}

/// A number in decimal is made up of digits, the first of which is not zero but for zero itself,
/// and stands for the number.
pub proof fn law_decimal_stands_for_the_number(n: nat)
    ensures
        text::decimal(n).len() > 0,
        forall|i: int|
            0 <= i < text::decimal(n).len() ==> 48 <= #[trigger] text::decimal(n)[i] as int <= 57,
        n > 0 ==> text::decimal(n)[0] as int != 48,
        number_of(text::decimal(n)) == n,
    decreases n,
{
    if n >= 10 {
        law_decimal_stands_for_the_number(n / 10);
        let before = text::decimal(n / 10);
        let last = text::digit_char((n % 10) as int);
        assert(text::decimal(n) == before.push(last));
        assert(before.push(last).drop_last() =~= before);
        assert(before.push(last)[0] == before[0]);
    } else {
        let only = text::decimal(n);
        assert(only.drop_last() =~= Seq::empty());
        assert(number_of(only.drop_last()) == 0);
    }
}

/// The number that some digits stand for.
pub open spec fn number_of(digits: Seq<char>) -> int
    decreases digits.len(),
{
    if digits.len() == 0 {
        0
    } else {
        10 * number_of(digits.drop_last()) + (digits.last() as int - 48)
    }
}

/// What is done to files says which file is meant.
pub proof fn law_steps_name_their_files(step: RotationStep)
    ensures
        match step {
            RotationStep::RemoveIfPresent { path } => step@ == Step::RemoveIfPresent(path@),
            RotationStep::MoveIfPresent { from, to } => step@ == Step::MoveIfPresent(from@, to@),
            RotationStep::CopyFile { from, to } => step@ == Step::CopyFile(from@, to@),
            RotationStep::Truncate { path } => step@ == Step::Truncate(path@),
        },
{
}

} // verus!
