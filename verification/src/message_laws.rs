//! What the messages of a task say: over their characters, whatever they are.
use vstd::prelude::*;
use vstd::utf8::encode_utf8;

use crate::config::AppConfig;
use crate::state::StateKind;
use crate::text;
use crate::wire;
use crate::wire_laws;

verus! {

/// `c` is the letter or sign `small`, in either case.
pub open spec fn is_letter(c: char, small: char) -> bool {
    if 'A' <= c <= 'Z' {
        c as int + 32 == small as int
    } else {
        c == small
    }
}

/// `phrase` stands in `s` from `i` on, in either case.
pub open spec fn says_at(s: Seq<char>, phrase: Seq<char>, i: int) -> bool {
    &&& 0 <= i
    &&& i + phrase.len() <= s.len()
    &&& forall|j: int| 0 <= j < phrase.len() ==> is_letter(s[i + j], #[trigger] phrase[j])
}

/// One of the phrases stands in `s` between `from` and `to`, in either case.
pub open spec fn says_any(s: Seq<char>, phrases: Seq<Seq<char>>, from: int, to: int) -> bool {
    exists|k: int, i: int|
        0 <= k < phrases.len() && from <= i && i + phrases[k].len() <= to && #[trigger] says_at(
            s,
            phrases[k],
            i,
        )
}

/// What a message says that asks the user for something.
pub open spec fn asking_phrases() -> Seq<Seq<char>> {
    seq![
        "please provide"@,
        "please choose"@,
        "please confirm"@,
        "i need your input"@,
        "i need you to"@,
        "waiting for your"@,
        "let me know which"@,
        "tell me which"@,
    ]
}

/// What a message says of a task that could not be completed.
pub open spec fn failure_phrases() -> Seq<Seq<char>> {
    seq![
        "i couldn't complete"@,
        "i could not complete"@,
        "i wasn't able to complete"@,
        "i was unable to complete"@,
        "the task is blocked"@,
        "implementation failed"@,
        "build failed and"@,
    ]
}

/// The last character that is not white space is at `k`.
pub open spec fn ends_at(s: Seq<char>, k: int) -> bool {
    &&& 0 <= k < s.len()
    &&& !text::is_space(s[k])
    &&& forall|i: int| k < i < s.len() ==> text::is_space(#[trigger] s[i])
}

/// An empty line ends at `p`.
pub open spec fn after_empty_line(s: Seq<char>, p: int) -> bool {
    p >= 2 && s[p - 1] == '\n' && s[p - 2] == '\n'
}

/// What ends at `k` begins at `p`: at the beginning or behind an empty line, with no other empty
/// line up to `k`.
pub open spec fn begins_at(s: Seq<char>, k: int, p: int) -> bool {
    &&& 0 <= p <= k
    &&& p == 0 || after_empty_line(s, p)
    &&& forall|q: int| p < q <= k ==> !#[trigger] after_empty_line(s, q)
}

/// What stands from `p` to `k` asks: it ends in a question mark, or holds an asking phrase.
pub open spec fn asks_between(s: Seq<char>, p: int, k: int) -> bool {
    s[k] == '?' || says_any(s, asking_phrases(), p, k + 1)
}

/// The phrases begin and end visibly.
proof fn lemma_phrases_are_visible(k: int)
    ensures
        0 <= k < asking_phrases().len() ==> asking_phrases()[k].len() > 0 && !text::is_space(
            asking_phrases()[k][0],
        ) && !text::is_space(asking_phrases()[k].last()),
        0 <= k < failure_phrases().len() ==> failure_phrases()[k].len() > 0 && !text::is_space(
            failure_phrases()[k][0],
        ) && !text::is_space(failure_phrases()[k].last()),
{
    reveal_strlit("please provide");
    reveal_strlit("please choose");
    reveal_strlit("please confirm");
    reveal_strlit("i need your input");
    reveal_strlit("i need you to");
    reveal_strlit("waiting for your");
    reveal_strlit("let me know which");
    reveal_strlit("tell me which");
    reveal_strlit("i couldn't complete");
    reveal_strlit("i could not complete");
    reveal_strlit("i wasn't able to complete");
    reveal_strlit("i was unable to complete");
    reveal_strlit("the task is blocked");
    reveal_strlit("implementation failed");
    reveal_strlit("build failed and");
    if 0 <= k < asking_phrases().len() {
        assert(k == 0 || k == 1 || k == 2 || k == 3 || k == 4 || k == 5 || k == 6 || k == 7);
    }
    if 0 <= k < failure_phrases().len() {
        assert(k == 0 || k == 1 || k == 2 || k == 3 || k == 4 || k == 5 || k == 6);
    }
}

/// A phrase stands in the small letters of a text where the text says it.
pub proof fn lemma_says(s: Seq<char>, phrase: Seq<char>, i: int)
    ensures
        text::occurs_at(text::lowered(s), phrase, i) == says_at(s, phrase, i),
{
    let low = text::lowered(s);
    if text::occurs_at(low, phrase, i) {
        assert forall|j: int| 0 <= j < phrase.len() implies is_letter(
            s[i + j],
            #[trigger] phrase[j],
        ) by {
            assert(low.subrange(i, i + phrase.len())[j] == phrase[j]);
            assert(low[i + j] == text::lowered_char(s[i + j]));
        }
    }
    if says_at(s, phrase, i) {
        assert forall|j: int| 0 <= j < phrase.len() implies low.subrange(i, i + phrase.len())[j]
            == #[trigger] phrase[j] by {
            assert(is_letter(s[i + j], phrase[j]));
            assert(low[i + j] == text::lowered_char(s[i + j]));
        }
        assert(low.subrange(i, i + phrase.len()) =~= phrase);
    }
}

/// A phrase stands somewhere in the small letters of a text where the text says it somewhere.
proof fn lemma_says_somewhere(s: Seq<char>, phrases: Seq<Seq<char>>, k: int)
    requires
        0 <= k < phrases.len(),
    ensures
        text::occurs(text::lowered(s), phrases[k]) ==> says_any(s, phrases, 0, s.len() as int),
        (exists|i: int| #[trigger] says_at(s, phrases[k], i)) ==> text::occurs(
            text::lowered(s),
            phrases[k],
        ),
{
    if text::occurs(text::lowered(s), phrases[k]) {
        let i = choose|i: int| text::occurs_at(text::lowered(s), phrases[k], i);
        lemma_says(s, phrases[k], i);
        assert(says_at(s, phrases[k], i));
    }
    if exists|i: int| #[trigger] says_at(s, phrases[k], i) {
        let i = choose|i: int| #[trigger] says_at(s, phrases[k], i);
        lemma_says(s, phrases[k], i);
        assert(text::occurs_at(text::lowered(s), phrases[k], i));
    }
}

/// An asking phrase is one of the asking phrases.
proof fn lemma_asking_phrase(s: Seq<char>)
    ensures
        wire::has_asking_phrase(text::lowered(s)) == says_any(
            s,
            asking_phrases(),
            0,
            s.len() as int,
        ),
{
    let phrases = asking_phrases();
    assert forall|k: int| 0 <= k < phrases.len() implies #[trigger] text::occurs(
        text::lowered(s),
        phrases[k],
    ) == (exists|i: int| says_at(s, phrases[k], i)) by {
        lemma_says_somewhere(s, phrases, k);
        if text::occurs(text::lowered(s), phrases[k]) {
            let i = choose|i: int| text::occurs_at(text::lowered(s), phrases[k], i);
            lemma_says(s, phrases[k], i);
            assert(says_at(s, phrases[k], i));
        }
    }
    lemma_says_somewhere(s, phrases, 0);
    lemma_says_somewhere(s, phrases, 1);
    lemma_says_somewhere(s, phrases, 2);
    lemma_says_somewhere(s, phrases, 3);
    lemma_says_somewhere(s, phrases, 4);
    lemma_says_somewhere(s, phrases, 5);
    lemma_says_somewhere(s, phrases, 6);
    lemma_says_somewhere(s, phrases, 7);
    assert(phrases[0] == "please provide"@);
    assert(phrases[7] == "tell me which"@);
    if says_any(s, phrases, 0, s.len() as int) {
        let (k, i) = choose|k: int, i: int|
            0 <= k < phrases.len() && 0 <= i && i + phrases[k].len() <= s.len()
                && #[trigger] says_at(s, phrases[k], i);
        assert(text::occurs(text::lowered(s), phrases[k]));
        assert(k == 0 || k == 1 || k == 2 || k == 3 || k == 4 || k == 5 || k == 6 || k == 7);
    }
}

/// What is said in a part of a text is said in the text, at its place there.
proof fn lemma_says_in_part(s: Seq<char>, from: int, to: int, phrase: Seq<char>, i: int)
    requires
        0 <= from <= to <= s.len(),
    ensures
        says_at(s.subrange(from, to), phrase, i) == (from <= from + i && from + i + phrase.len()
            <= to && says_at(s, phrase, from + i)),
{
    let part = s.subrange(from, to);
    if says_at(part, phrase, i) {
        assert forall|j: int| 0 <= j < phrase.len() implies is_letter(
            s[from + i + j],
            #[trigger] phrase[j],
        ) by {
            assert(is_letter(part[i + j], phrase[j]));
        }
    }
    if 0 <= i && from + i + phrase.len() <= to && says_at(s, phrase, from + i) {
        assert forall|j: int| 0 <= j < phrase.len() implies is_letter(
            part[i + j],
            #[trigger] phrase[j],
        ) by {
            assert(is_letter(s[from + i + j], phrase[j]));
        }
    }
}

/// Where the last paragraph of a message stands: from `from` to its last visible character.
proof fn lemma_last_paragraph_stands(message: Seq<char>, k: int, p: int) -> (from: int)
    requires
        ends_at(message, k),
        begins_at(message, k, p),
    ensures
        0 <= from <= k,
        p <= from,
        wire::last_paragraph(message) == message.subrange(from, k + 1),
        text::trimmed(message).len() > 0,
        forall|i: int| p <= i < from ==> text::is_space(#[trigger] message[i]),
{
    let a = text::blank_start(message);
    text::lemma_trimmed_start(message);
    let lead = message.take(a);
    let after = message.skip(k + 1);
    if k < a {
        assert(text::is_space(lead[k]));
    }
    let shown = message.subrange(a, k + 1);
    assert(text::trimmed_start(message)[0] == shown[0]);
    assert(shown.last() == message[k]);
    assert(message =~= lead + shown + after);
    text::lemma_trimmed(lead, shown, after);
    let n = shown.len() as int;
    wire_laws::lemma_paragraph_start(shown, n);
    let start = wire::paragraph_start(shown, n);
    let paragraph = shown.skip(start);
    if start == n {
        assert(shown[n - 1] == message[k]);
    }
    let b = text::blank_start(paragraph);
    text::lemma_trimmed_start(paragraph);
    assert(paragraph.last() == message[k]);
    if b == paragraph.len() {
        assert(text::is_space(paragraph.take(b)[b - 1]));
    }
    let core = paragraph.skip(b);
    assert(core[0] == text::trimmed_start(paragraph)[0]);
    assert(core.last() == message[k]);
    assert(paragraph =~= paragraph.take(b) + core + Seq::<char>::empty());
    text::lemma_trimmed(paragraph.take(b), core, Seq::empty());
    let from = a + start + b;
    assert(core =~= message.subrange(from, k + 1));
    assert(message[from] == core[0]);
    // The paragraph does not begin before the one that was looked for.
    if p > from {
        assert(after_empty_line(message, p));
        if p - 1 == from || p - 2 == from {
            assert(text::is_space(message[from]));
        }
        let m = p - a;
        assert(shown[m - 1] == '\n' && shown[m - 2] == '\n');
    }
    assert forall|i: int| p <= i < from implies text::is_space(#[trigger] message[i]) by {
        if i < a {
            assert(text::is_space(lead[i]));
        } else if i >= a + start {
            assert(text::is_space(paragraph.take(b)[i - a - start]));
        } else {
            assert(shown[start - 1] == message[a + start - 1]);
            assert(shown[start - 2] == message[a + start - 2]);
            assert(after_empty_line(message, a + start));
        }
    }
    from
}

/// A message asks where its last paragraph ends in a question mark or holds an asking phrase, and
/// nowhere else.
pub proof fn law_message_asks(message: Seq<char>, k: int, p: int)
    requires
        ends_at(message, k),
        begins_at(message, k, p),
    ensures
        wire::asks_user(message) == asks_between(message, p, k),
{
    let from = lemma_last_paragraph_stands(message, k, p);
    let paragraph = wire::last_paragraph(message);
    let phrases = asking_phrases();
    assert(paragraph.last() == message[k]);
    lemma_asking_phrase(paragraph);
    if says_any(paragraph, phrases, 0, paragraph.len() as int) {
        let (n, i) = choose|n: int, i: int|
            0 <= n < phrases.len() && 0 <= i && i + phrases[n].len() <= paragraph.len()
                && #[trigger] says_at(paragraph, phrases[n], i);
        lemma_says_in_part(message, from, k + 1, phrases[n], i);
        assert(says_at(message, phrases[n], from + i));
    }
    if says_any(message, phrases, p, k + 1) {
        let (n, i) = choose|n: int, i: int|
            0 <= n < phrases.len() && p <= i && i + phrases[n].len() <= k + 1
                && #[trigger] says_at(message, phrases[n], i);
        lemma_phrases_are_visible(n);
        assert(is_letter(message[i + 0], phrases[n][0]));
        assert(!text::is_space(message[i]));
        lemma_says_in_part(message, from, k + 1, phrases[n], i - from);
        assert(says_at(paragraph, phrases[n], i - from));
    }
}

/// A message without an empty line asks if its last visible character is a question mark. If that
/// is another one, it asks exactly where it holds an asking phrase.
pub proof fn law_short_message_asks(message: Seq<char>, k: int)
    requires
        ends_at(message, k),
        forall|q: int| 0 < q <= k ==> !#[trigger] after_empty_line(message, q),
    ensures
        message[k] == '?' ==> wire::asks_user(message),
        message[k] != '?' ==> wire::asks_user(message) == says_any(
            message,
            asking_phrases(),
            0,
            k + 1,
        ),
{
    law_message_asks(message, k, 0);
}

/// A message of white space alone says nothing.
pub proof fn law_blank_message_says_nothing(message: Seq<char>)
    requires
        text::is_blank(message),
    ensures
        !wire::asks_user(message),
        !wire::tells_failure(message),
{
    text::lemma_trimmed_start(message);
    text::lemma_trimmed_end(text::trimmed_start(message));
    let rest = text::trimmed_start(message);
    if rest.len() > 0 {
        assert(rest[0] == message[text::blank_start(message)]);
    }
    let shown = text::trimmed(message);
    assert(shown.len() == 0);
    assert(shown.skip(0) =~= shown);
    assert(text::trimmed(shown).len() == 0);
    lemma_asking_phrase(shown);
    law_failure_is_told(message);
    if says_any(message, failure_phrases(), 0, message.len() as int) {
        let phrases = failure_phrases();
        let (n, i) = choose|n: int, i: int|
            0 <= n < phrases.len() && 0 <= i && i + phrases[n].len() <= message.len()
                && #[trigger] says_at(message, phrases[n], i);
        lemma_phrases_are_visible(n);
        assert(is_letter(message[i + 0], phrases[n][0]));
        assert(text::is_space(message[i]));
    }
}

/// A message tells of a failure where it holds one of the phrases for it, in either case, and
/// nowhere else.
pub proof fn law_failure_is_told(message: Seq<char>)
    ensures
        wire::tells_failure(message) == says_any(
            message,
            failure_phrases(),
            0,
            message.len() as int,
        ),
{
    let phrases = failure_phrases();
    let shown = text::trimmed(message);
    text::law_trimming_takes_off_white_space(message);
    let at = choose|at: int| #[trigger] text::stands_alone(message, shown, at);
    let low = text::lowered(shown);
    assert forall|n: int| 0 <= n < phrases.len() implies #[trigger] text::occurs(low, phrases[n])
        == (exists|i: int| says_at(message, phrases[n], i)) by {
        lemma_phrases_are_visible(n);
        if text::occurs(low, phrases[n]) {
            let i = choose|i: int| text::occurs_at(low, phrases[n], i);
            lemma_says(shown, phrases[n], i);
            lemma_says_in_part(message, at, at + shown.len(), phrases[n], i);
            assert(says_at(message, phrases[n], at + i));
        }
        if exists|i: int| says_at(message, phrases[n], i) {
            let i = choose|i: int| says_at(message, phrases[n], i);
            let last = phrases[n].len() - 1;
            assert(is_letter(message[i + 0], phrases[n][0]));
            assert(is_letter(message[i + last], phrases[n][last]));
            assert(!text::is_space(message[i]));
            assert(!text::is_space(message[i + last]));
            lemma_says_in_part(message, at, at + shown.len(), phrases[n], i - at);
            lemma_says(shown, phrases[n], i - at);
            assert(text::occurs_at(low, phrases[n], i - at));
        }
    }
    assert(text::occurs(low, phrases[0]) || !text::occurs(low, phrases[0]));
    assert(text::occurs(low, phrases[1]) || !text::occurs(low, phrases[1]));
    assert(text::occurs(low, phrases[2]) || !text::occurs(low, phrases[2]));
    assert(text::occurs(low, phrases[3]) || !text::occurs(low, phrases[3]));
    assert(text::occurs(low, phrases[4]) || !text::occurs(low, phrases[4]));
    assert(text::occurs(low, phrases[5]) || !text::occurs(low, phrases[5]));
    assert(text::occurs(low, phrases[6]) || !text::occurs(low, phrases[6]));
    if says_any(message, phrases, 0, message.len() as int) {
        let (n, i) = choose|n: int, i: int|
            0 <= n < phrases.len() && 0 <= i && i + phrases[n].len() <= message.len()
                && #[trigger] says_at(message, phrases[n], i);
        assert(text::occurs(low, phrases[n]));
        assert(n == 0 || n == 1 || n == 2 || n == 3 || n == 4 || n == 5 || n == 6);
    }
    if wire::tells_failure(message) {
        let n = choose|n: int| 0 <= n < phrases.len() && #[trigger] text::occurs(low, phrases[n]);
        let i = choose|i: int| says_at(message, phrases[n], i);
        assert(says_at(message, phrases[n], i));
    }
}

/// The state is the one that a stopped turn with the last message `message` is in: failed where the
/// message tells of a failure; otherwise, where questions are told from results, asking where its
/// last paragraph, from `p` to `k`, asks; and otherwise done.
pub open spec fn is_outcome(
    state: StateKind,
    message: Seq<char>,
    config: AppConfig,
    k: int,
    p: int,
) -> bool {
    if says_any(message, failure_phrases(), 0, message.len() as int) {
        state == config.events.stop_failure
    } else if config.behavior.detect_questions && asks_between(message, p, k) {
        state == config.events.stop_question
    } else {
        state == config.events.stop_complete
    }
}

/// The end of a turn leads to the state that its last message tells of.
pub proof fn law_stop_tells_outcome(
    message: Seq<char>,
    failed: bool,
    config: AppConfig,
    k: int,
    p: int,
)
    requires
        ends_at(message, k),
        begins_at(message, k, p),
    ensures
        wire::hook_state("Stop"@, Some(message), failed, config) matches Some(state) && is_outcome(
            state,
            message,
            config,
            k,
            p,
        ),
{
    wire::lemma_event_names_differ();
    law_message_asks(message, k, p);
    law_failure_is_told(message);
}

/// The end of a turn without a message, or with a blank one, is the end of a completed turn.
pub proof fn law_silent_stop_is_done(
    message: Option<Seq<char>>,
    failed: bool,
    config: AppConfig,
)
    requires
        message matches Some(said) ==> text::is_blank(said),
    ensures
        wire::hook_state("Stop"@, message, failed, config) == Some(config.events.stop_complete),
{
    wire::lemma_event_names_differ();
    if let Some(said) = message {
        law_blank_message_says_nothing(said);
    }
}

/// Each event leads to the state that is configured for it, and an unknown one to none.
pub proof fn law_events_lead_to_their_states(
    event: Seq<char>,
    message: Option<Seq<char>>,
    failed: bool,
    config: AppConfig,
)
    ensures
        ({
            let state = wire::hook_state(event, message, failed, config);
            &&& event == "UserPromptSubmit"@ ==> state == Some(config.events.user_prompt_submit)
            &&& event == "PermissionRequest"@ ==> state == Some(config.events.permission_request)
            &&& event == "PostToolUse"@ && failed ==> state == Some(
                config.events.post_tool_failure,
            )
            &&& event == "PostToolUse"@ && !failed ==> state == Some(
                config.events.post_tool_success,
            )
            &&& event != "UserPromptSubmit"@ && event != "PermissionRequest"@ && event
                != "PostToolUse"@ && event != "Stop"@ ==> state is None
        }),
{
    wire::lemma_event_names_differ();
}

/// `shown` is the longest end of `message` within the limit for messages: `before` is what is cut
/// off, and one character more would be too much.
pub open spec fn is_shown_of(before: Seq<char>, shown: Seq<char>, message: Seq<char>) -> bool {
    &&& message == before + shown
    &&& encode_utf8(shown).len() <= 2048
    &&& before.len() > 0 ==> encode_utf8(seq![before.last()] + shown).len() > 2048
}

/// A longer end of a message takes more bytes.
proof fn lemma_longer_takes_more(s: Seq<char>, j: int)
    requires
        0 <= j <= s.len(),
    ensures
        encode_utf8(s.skip(j)).len() <= encode_utf8(s).len(),
    decreases j,
{
    if j > 0 {
        assert(s.skip(j) =~= s.drop_first().skip(j - 1));
        lemma_longer_takes_more(s.drop_first(), j - 1);
        assert(encode_utf8(s).len() >= encode_utf8(s.drop_first()).len()) by {
            reveal_with_fuel(encode_utf8, 1);
        }
    } else {
        assert(s.skip(0) =~= s);
    }
}

/// Of a long message its end is looked at, as much as fits in the limit, and of a short one all.
pub proof fn law_end_of_message_is_shown(before: Seq<char>, shown: Seq<char>, message: Seq<char>)
    requires
        is_shown_of(before, shown, message),
    ensures
        text::longest_end(message, wire::MAX_MESSAGE_TAIL_BYTES as nat) == shown,
{
    let max = wire::MAX_MESSAGE_TAIL_BYTES as nat;
    let kept = text::longest_end(message, max);
    let cut = message.len() - kept.len();
    let n = before.len() as int;
    text::law_longest_end_is_kept(message, max);
    assert(message.skip(n) =~= shown);
    if cut > n {
        assert(encode_utf8(message.skip(n)).len() > max);
    }
    if cut < n {
        let more = seq![before.last()] + shown;
        assert(message.skip(n - 1) =~= more);
        assert(message.skip(cut).skip(n - 1 - cut) =~= more);
        lemma_longer_takes_more(message.skip(cut), n - 1 - cut);
    }
    assert(cut == n);
}

} // verus!
