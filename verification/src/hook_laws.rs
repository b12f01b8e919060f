//! What holds of what hooks are told.
use vstd::prelude::*;

use crate::json;
use crate::json::Json;
use crate::message_laws;
use crate::seqs;
use crate::text;
use crate::wire;
use crate::wire::HookInput;

verus! {

/// Entry `i` is the first that has this key.
pub open spec fn is_entry(entries: Seq<(String, Json)>, key: Seq<char>, i: int) -> bool {
    &&& 0 <= i < entries.len()
    &&& entries[i].0@ == key
    &&& forall|j: int| 0 <= j < i ==> (#[trigger] entries[j]).0@ != key
}

/// Of several entries with one key the first counts, and a key that no entry has stands for
/// nothing.
pub proof fn law_first_entry_counts(entries: Seq<(String, Json)>, key: Seq<char>, i: int)
    ensures
        is_entry(entries, key, i) ==> json::member(entries, key) == Some(entries[i].1),
        (forall|j: int| 0 <= j < entries.len() ==> (#[trigger] entries[j]).0@ != key)
            ==> json::member(entries, key) is None,
        json::member(entries, key) is Some ==> exists|j: int| #[trigger]
            is_entry(entries, key, j) && json::member(entries, key) == Some(entries[j].1),
{
    if is_entry(entries, key, i) {
        assert forall|j: int| 0 <= j < i implies !json::has_key(key)(#[trigger] entries[j]) by {
            assert(entries[j].0@ != key);
        }
        seqs::lemma_first(entries, json::has_key(key), i);
    }
    if forall|j: int| 0 <= j < entries.len() ==> (#[trigger] entries[j]).0@ != key {
        assert forall|j: int| 0 <= j < entries.len() implies !json::has_key(key)(
            #[trigger] entries[j],
        ) by {
            assert(entries[j].0@ != key);
        }
        seqs::lemma_no_first(entries, json::has_key(key));
    }
    if json::member(entries, key) is Some {
        seqs::lemma_first_index(entries, json::has_key(key));
        let k = seqs::first_index(entries, json::has_key(key))->0;
        assert forall|j: int| 0 <= j < k implies (#[trigger] entries[j]).0@ != key by {
            assert(!json::has_key(key)(entries[j]));
        }
        assert(json::has_key(key)(entries[k]));
        assert(is_entry(entries, key, k));
    }
}

/// The word is this one, in either case.
pub open spec fn is_word(s: Seq<char>, word: Seq<char>) -> bool {
    s.len() == word.len() && message_laws::says_at(s, word, 0)
}

/// A status tells of a failure exactly where it is one of three words, in either case.
pub proof fn law_failure_words(status: Seq<char>)
    ensures
        wire::is_failure_status(status) <==> is_word(status, "error"@) || is_word(status, "failed"@)
            || is_word(status, "failure"@),
{
    lemma_word(status, "error"@);
    lemma_word(status, "failed"@);
    lemma_word(status, "failure"@);
}

proof fn lemma_word(s: Seq<char>, word: Seq<char>)
    ensures
        is_word(s, word) <==> text::lowered(s) == word,
{
    message_laws::lemma_says(s, word, 0);
    let small = text::lowered(s);
    if s.len() == word.len() {
        assert(small.subrange(0, word.len() as int) =~= small);
    }
}

/// The entries of an object tell of a failure themselves.
pub open spec fn tells_failure(entries: Seq<(String, Json)>, i: int) -> bool {
    ||| is_entry(entries, "is_error"@, i) && entries[i].1 == Json::Bool(true)
    ||| is_entry(entries, "success"@, i) && entries[i].1 == Json::Bool(false)
    ||| is_entry(entries, "exit_code"@, i) && (entries[i].1 matches Json::Number {
        as_i64: Some(code),
    } && code != 0)
    ||| is_entry(entries, "status"@, i) && (entries[i].1 matches Json::String(status) && (is_word(
        status@,
        "error"@,
    ) || is_word(status@, "failed"@) || is_word(status@, "failure"@)))
}

/// An object tells of a failure by an error flag, by no success, by an exit code that is not zero,
/// or by a status.
pub proof fn law_entries_tell_of_failure(entries: Seq<(String, Json)>)
    ensures
        wire::entries_fail(entries) <==> exists|i: int| #[trigger] tells_failure(entries, i),
{
    law_first_entry_counts(entries, "is_error"@, 0);
    law_first_entry_counts(entries, "success"@, 0);
    law_first_entry_counts(entries, "exit_code"@, 0);
    law_first_entry_counts(entries, "status"@, 0);
    if exists|i: int| #[trigger] tells_failure(entries, i) {
        let i = choose|i: int| #[trigger] tells_failure(entries, i);
        law_first_entry_counts(entries, "is_error"@, i);
        law_first_entry_counts(entries, "success"@, i);
        law_first_entry_counts(entries, "exit_code"@, i);
        law_first_entry_counts(entries, "status"@, i);
        if entries[i].1 is String {
            law_failure_words(entries[i].1->String_0@);
        }
    }
    if wire::entries_fail(entries) {
        let key = if json::member(entries, "is_error"@) == Some(Json::Bool(true)) {
            "is_error"@
        } else if json::member(entries, "success"@) == Some(Json::Bool(false)) {
            "success"@
        } else if json::member(entries, "exit_code"@) matches Some(
            Json::Number { as_i64: Some(code) },
        ) && code != 0 {
            "exit_code"@
        } else {
            "status"@
        };
        let i = choose|i: int| #[trigger]
            is_entry(entries, key, i) && json::member(entries, key) == Some(entries[i].1);
        assert(is_entry(entries, key, i));
        if entries[i].1 is String {
            law_failure_words(entries[i].1->String_0@);
        }
        assert(tells_failure(entries, i));
    }
}

/// A response tells of a failure where one of its parts does, at any depth. What has no parts tells
/// of none.
pub proof fn law_failure_is_found_at_any_depth(value: Json, i: int)
    ensures
        value matches Json::Array(items) ==> 0 <= i < items@.len() && wire::response_fails(items@[i])
            ==> wire::response_fails(value),
        value matches Json::Object(entries) ==> 0 <= i < entries@.len() && (wire::response_fails(
            entries@[i].1,
        ) || tells_failure(entries@, i)) ==> wire::response_fails(value),
        value matches Json::Array(items) ==> (forall|j: int|
            0 <= j < items@.len() ==> !wire::response_fails(#[trigger] items@[j]))
            ==> !wire::response_fails(value),
        value matches Json::Object(entries) ==> (forall|j: int|
            0 <= j < entries@.len() ==> !wire::response_fails((#[trigger] entries@[j]).1)
                && !tells_failure(entries@, j)) ==> !wire::response_fails(value),
        value is Null || value is Bool || value is Number || value is String
            ==> !wire::response_fails(value),
{
    if let Json::Object(entries) = value {
        law_entries_tell_of_failure(entries@);
        if forall|j: int|
            0 <= j < entries@.len() ==> !wire::response_fails((#[trigger] entries@[j]).1)
                && !tells_failure(entries@, j) {
            if wire::entries_fail(entries@) {
                let j = choose|j: int| #[trigger] tells_failure(entries@, j);
                assert(entries@[j].1 == entries@[j].1);
            }
        }
    }
}

/// A field counts where it is more than white space, and without the white space around it.
pub proof fn law_blank_fields_do_not_count(before: Seq<char>, core: Seq<char>, after: Seq<char>)
    requires
        text::is_blank(before),
        text::is_blank(after),
    ensures
        core.len() > 0 && !text::is_space(core[0]) && !text::is_space(core.last())
            ==> wire::filled_in(Some(before + core + after)) == Some(core),
        wire::filled_in(Some(before)) is None,
        wire::filled_in(None) is None,
{
    if core.len() > 0 && !text::is_space(core[0]) && !text::is_space(core.last()) {
        text::lemma_trimmed(before, core, after);
    }
    lemma_blank_is_trimmed_away(before);
}

proof fn lemma_blank_is_trimmed_away(s: Seq<char>)
    requires
        text::is_blank(s),
    ensures
        text::trimmed(s).len() == 0,
{
    text::lemma_trimmed_start(s);
    let rest = text::trimmed_start(s);
    if rest.len() > 0 {
        assert(rest[0] == s[text::blank_start(s)]);
    }
    text::lemma_trimmed_end(rest);
}

proof fn lemma_filled_in(s: Seq<char>)
    ensures
        wire::filled_in(Some(s)) is Some <==> !text::is_blank(s),
{
    if text::is_blank(s) {
        lemma_blank_is_trimmed_away(s);
    } else if text::trimmed(s).len() == 0 {
        text::lemma_trimmed_start(s);
        let rest = text::trimmed_start(s);
        text::lemma_trimmed_end(rest);
        assert forall|i: int| 0 <= i < s.len() implies text::is_space(#[trigger] s[i]) by {
            let n = text::blank_start(s);
            if i < n {
                assert(s.take(n)[i] == s[i]);
            } else {
                assert(rest.skip(0)[i - n] == s[i]);
            }
        }
    }
}

/// The field is there and more than white space.
pub open spec fn is_filled(field: Option<String>) -> bool {
    field is Some && !text::is_blank(field->0@)
}

/// A hook is that of a subagent exactly where its event is one of a subagent, or it names an agent
/// or the type of one.
pub proof fn law_subagents_are_recognised(input: HookInput)
    ensures
        wire::is_subagent_hook(input) <==> input.hook_event_name@ == "SubagentStart"@
            || input.hook_event_name@ == "SubagentStop"@ || is_filled(input.agent_id) || is_filled(
            input.agent_type,
        ),
{
    if input.agent_id is Some {
        lemma_filled_in(input.agent_id->0@);
    }
    if input.agent_type is Some {
        lemma_filled_in(input.agent_type->0@);
    }
}

/// A subagent's run goes by the agent, and else by the turn; a task's run by the turn, and else by
/// the agent. Where neither is told, it goes by the task.
pub proof fn law_runs_are_named(input: HookInput)
    ensures
        ({
            let agent = wire::filled_in(wire::chars_in(input.agent_id));
            let turn = wire::filled_in(wire::chars_in(input.turn_id));
            let run = wire::run_of(input);
            &&& is_filled(input.agent_id) <==> agent is Some
            &&& is_filled(input.turn_id) <==> turn is Some
            &&& is_filled(input.agent_id) ==> run == agent->0
            &&& is_filled(input.turn_id) && !wire::is_subagent_hook(input) ==> run == turn->0
            &&& is_filled(input.turn_id) && !is_filled(input.agent_id) ==> run == turn->0
            &&& !is_filled(input.turn_id) && !is_filled(input.agent_id) ==> run
                == input.session_id@
        }),
{
    if input.agent_id is Some {
        lemma_filled_in(input.agent_id->0@);
    }
    if input.turn_id is Some {
        lemma_filled_in(input.turn_id->0@);
    }
}

} // verus!
