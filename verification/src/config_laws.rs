//! What holds of configurations and of the colours in them.
use vstd::prelude::*;

use crate::config;
use crate::config::{AppConfig, Color, ConfigError, DeviceConfig};
use crate::state;
use crate::state::StateKind;
use crate::text;

verus! {

/// The keys of a configuration are between one and five.
pub open spec fn keys_are_right(config: AppConfig) -> bool {
    1 <= config.device.slot_keys@.len() <= 5
}

/// There is a task at least, and a key for each.
pub open spec fn tasks_are_right(config: AppConfig) -> bool {
    1 <= config.behavior.max_sessions <= config.device.slot_keys@.len()
}

/// Both software numbers fit in four bits.
pub open spec fn numbers_are_right(config: AppConfig) -> bool {
    config.device.lighting_software_id <= 15 && config.device.init_software_id <= 15
}

/// The keyboard has a second to answer at most.
pub open spec fn timeout_is_right(config: AppConfig) -> bool {
    config.device.response_timeout_ms <= 1000
}

/// The keys flash every fifth of a second at most, and every five seconds at least.
pub open spec fn flashing_is_right(config: AppConfig) -> bool {
    200 <= config.lighting.flash_interval_ms <= 5000
}

/// The dim phase is no brighter than the bright one.
pub open spec fn dimming_is_right(config: AppConfig) -> bool {
    config.lighting.flash_dim_percent <= 100
}

/// A configuration is refused exactly where one of its limits is broken, and the reason is the
/// first of them.
pub proof fn law_every_limit_is_checked(config: AppConfig)
    ensures
        config::first_problem(config) is None <==> keys_are_right(config) && tasks_are_right(config)
            && numbers_are_right(config) && timeout_is_right(config) && flashing_is_right(config)
            && dimming_is_right(config),
        !keys_are_right(config) ==> config::first_problem(config) == Some(
            ConfigError::SlotKeyCount,
        ),
        keys_are_right(config) && !tasks_are_right(config) ==> config::first_problem(config)
            == Some(ConfigError::SessionCount),
        keys_are_right(config) && tasks_are_right(config) && !numbers_are_right(config)
            ==> config::first_problem(config) == Some(ConfigError::SoftwareId),
        keys_are_right(config) && tasks_are_right(config) && numbers_are_right(config)
            && !timeout_is_right(config) ==> config::first_problem(config) == Some(
            ConfigError::ResponseTimeout,
        ),
        keys_are_right(config) && tasks_are_right(config) && numbers_are_right(config)
            && timeout_is_right(config) && !flashing_is_right(config) ==> config::first_problem(
            config,
        ) == Some(ConfigError::FlashInterval),
        keys_are_right(config) && tasks_are_right(config) && numbers_are_right(config)
            && timeout_is_right(config) && flashing_is_right(config) && !dimming_is_right(config)
            ==> config::first_problem(config) == Some(ConfigError::FlashDimPercent),
{
}

/// Two hexadecimal digits, high and low, make up this byte.
pub open spec fn is_byte(high: char, low: char, byte: u8) -> bool {
    is_digit(high, (byte / 16) as int) && is_digit(low, (byte % 16) as int)
}

/// The character is the hexadecimal digit of this value, in either case.
pub open spec fn is_digit(c: char, value: int) -> bool {
    ||| 0 <= value <= 9 && c as int == 48 + value
    ||| 10 <= value <= 15 && (c as int == 55 + value || c as int == 87 + value)
}

/// The character is a hexadecimal digit, in either case.
pub open spec fn is_some_digit(c: char) -> bool {
    exists|value: int| #[trigger] is_digit(c, value)
}

/// A text is read as a colour exactly where it is six hexadecimal digits, with or without one `#`
/// before them and with any white space around: two digits for red, two for green, two for blue.
pub proof fn law_six_digits_make_a_color(
    before: Seq<char>,
    hash: bool,
    digits: Seq<char>,
    after: Seq<char>,
    color: Color,
)
    requires
        text::is_blank(before),
        text::is_blank(after),
        digits.len() == 6,
        is_byte(digits[0], digits[1], color.red),
        is_byte(digits[2], digits[3], color.green),
        is_byte(digits[4], digits[5], color.blue),
    ensures
        config::color_value(
            before + (if hash {
                seq!['#'] + digits
            } else {
                digits
            }) + after,
        ) == Some(color),
{
    let core = if hash {
        seq!['#'] + digits
    } else {
        digits
    };
    text::law_visible_characters_are_no_white_space(core[0]);
    text::law_visible_characters_are_no_white_space(core.last());
    assert(core.last() == digits[5]);
    text::lemma_trimmed(before, core, after);
    let d = config::color_digits(before + core + after);
    if hash {
        assert(core[0] == '#');
        assert(core.skip(1) =~= digits);
    }
    assert(d == digits);
    assert forall|i: int| 0 <= i < 6 implies text::is_hex_digit(#[trigger] d[i]) by {
        if i == 0 {
        } else if i == 1 {
        } else if i == 2 {
        } else if i == 3 {
        } else if i == 4 {
        }
    }
}

/// What is read as a colour is six hexadecimal digits between white space, with one `#` before them
/// at most.
pub proof fn law_a_color_is_six_digits(value: Seq<char>)
    requires
        config::color_value(value) is Some,
    ensures
        exists|before: Seq<char>, core: Seq<char>, after: Seq<char>| #[trigger]
            (before + core + after) == value && text::is_blank(before) && text::is_blank(after) && (
            core.len() == 6 || core.len() == 7 && core[0] == '#') && forall|i: int|
                core.len() - 6 <= i < core.len() ==> #[trigger] is_some_digit(core[i]),
{
    let core = text::trimmed(value);
    let start = text::trimmed_start(value);
    text::lemma_trimmed_start(value);
    text::lemma_trimmed_end(start);
    let before = value.take(text::blank_start(value));
    let after = start.skip(core.len() as int);
    assert(before + core + after =~= value);
    let d = config::color_digits(value);
    assert forall|i: int| core.len() - 6 <= i < core.len() implies #[trigger] is_some_digit(
        core[i],
    ) by {
        let j = i - (core.len() - 6);
        assert(d[j] == core[i]);
        assert(text::is_hex_digit(d[j]));
        assert(is_digit(core[i], text::hex_value(core[i])));
    }
}

/// The documented colours: blue at work, amber for an approval, purple for a request, green when
/// done, red for an error, over a dim background.
pub proof fn law_default_colors_are_documented()
    ensures
        config::color_text(config::default_colors().working) == "#007aff"@,
        config::color_text(config::default_colors().approval) == "#ff9500"@,
        config::color_text(config::default_colors().requested) == "#af52de"@,
        config::color_text(config::default_colors().done) == "#34c759"@,
        config::color_text(config::default_colors().error) == "#ff3b30"@,
        config::color_text(config::default_lighting().background) == "#101820"@,
        config::default_colors().idle == config::default_lighting().background,
{
    reveal_strlit("#007aff");
    reveal_strlit("#ff9500");
    reveal_strlit("#af52de");
    reveal_strlit("#34c759");
    reveal_strlit("#ff3b30");
    reveal_strlit("#101820");
    assert(config::color_text(config::default_colors().working) =~= "#007aff"@);
    assert(config::color_text(config::default_colors().approval) =~= "#ff9500"@);
    assert(config::color_text(config::default_colors().requested) =~= "#af52de"@);
    assert(config::color_text(config::default_colors().done) =~= "#34c759"@);
    assert(config::color_text(config::default_colors().error) =~= "#ff3b30"@);
    assert(config::color_text(config::default_lighting().background) =~= "#101820"@);
}

/// By default only the end of a turn is an error, and a tool that fails leaves its task at work.
pub proof fn law_default_events_are_documented()
    ensures
        ({
            let events = config::default_events();
            &&& events.user_prompt_submit is Working
            &&& events.post_tool_success is Working
            &&& events.post_tool_failure is Working
            &&& events.permission_request is Approval
            &&& events.stop_question is Requested
            &&& events.stop_complete is Done
            &&& events.stop_failure is Error
        }),
{
}

/// A state is read from its name and from nothing but the words that stand for it, in either case
/// and with any white space around.
pub proof fn law_words_stand_for_states(before: Seq<char>, word: Seq<char>, after: Seq<char>)
    requires
        text::is_blank(before),
        text::is_blank(after),
        word.len() > 0,
        !text::is_space(word[0]),
        !text::is_space(word.last()),
    ensures
        ({
            let small = text::lowered(word);
            let read = state::state_value(before + word + after);
            &&& read == Some(StateKind::Idle) <==> small == "idle"@ || small == "clear"@ || small
                == "off"@
            &&& read == Some(StateKind::Working) <==> small == "working"@ || small == "running"@
                || small == "busy"@
            &&& read == Some(StateKind::Approval) <==> small == "approval"@ || small == "approve"@
                || small == "permission"@
            &&& read == Some(StateKind::Requested) <==> small == "requested"@ || small
                == "request"@ || small == "input"@ || small == "waiting"@
            &&& read == Some(StateKind::Done) <==> small == "done"@ || small == "complete"@
                || small == "completed"@
            &&& read == Some(StateKind::Error) <==> small == "error"@ || small == "failed"@
                || small == "failure"@
        }),
{
    text::lemma_trimmed(before, word, after);
    reveal_strlit("idle");
    reveal_strlit("clear");
    reveal_strlit("off");
    reveal_strlit("working");
    reveal_strlit("running");
    reveal_strlit("busy");
    reveal_strlit("approval");
    reveal_strlit("approve");
    reveal_strlit("permission");
    reveal_strlit("requested");
    reveal_strlit("request");
    reveal_strlit("input");
    reveal_strlit("waiting");
    reveal_strlit("done");
    reveal_strlit("complete");
    reveal_strlit("completed");
    reveal_strlit("error");
    reveal_strlit("failed");
    reveal_strlit("failure");
    let small = text::lowered(word);
    assert(small.len() == word.len());
    assert(small == "idle"@ ==> small[0] == 'i' && small.len() == 4);
    assert(small == "clear"@ ==> small[0] == 'c' && small.len() == 5);
    assert(small == "off"@ ==> small[0] == 'o');
    assert(small == "working"@ ==> small[0] == 'w' && small[1] == 'o');
    assert(small == "running"@ ==> small[0] == 'r' && small[1] == 'u');
    assert(small == "busy"@ ==> small[0] == 'b');
    assert(small == "approval"@ ==> small[0] == 'a');
    assert(small == "approve"@ ==> small[0] == 'a');
    assert(small == "permission"@ ==> small[0] == 'p');
    assert(small == "requested"@ ==> small[0] == 'r' && small[1] == 'e');
    assert(small == "request"@ ==> small[0] == 'r' && small[1] == 'e');
    assert(small == "input"@ ==> small[0] == 'i' && small.len() == 5);
    assert(small == "waiting"@ ==> small[0] == 'w' && small[1] == 'a');
    assert(small == "done"@ ==> small[0] == 'd');
    assert(small == "complete"@ ==> small[0] == 'c' && small.len() == 8);
    assert(small == "completed"@ ==> small[0] == 'c' && small.len() == 9);
    assert(small == "error"@ ==> small[0] == 'e');
    assert(small == "failed"@ ==> small[0] == 'f');
    assert(small == "failure"@ ==> small[0] == 'f');
}

/// By default five tasks are shown, questions are told from results, G-keys open tasks, and the keys
/// flash every half second by day, at a twentieth of their brightness, but not between 17:00 and
/// 7:00. The lights are written anew every five seconds.
pub proof fn law_default_settings_are_documented()
    ensures
        config::default_behavior().max_sessions == 5,
        config::default_behavior().detect_questions,
        config::default_navigation().enabled,
        config::default_lighting().flash_enabled,
        config::default_lighting().flash_interval_ms == 500,
        config::default_lighting().flash_dim_percent == 5,
        config::default_lighting().reassert_interval_ms == 5 * 1000,
        config::default_lighting().night_start_minute == 17 * 60,
        config::default_lighting().night_end_minute == 7 * 60,
{
}

/// By default the keyboard is the wired one with its five G-keys, one after the other.
pub proof fn law_default_keyboard(device: DeviceConfig, i: int)
    requires
        config::is_default_device(device),
    ensures
        device.vendor_id == 1133,
        device.product_id == 49982,
        device.usage_page == 65280,
        device.usage == 2,
        device.device_index == 255,
        device.lighting_software_id == 15,
        device.init_software_id == 14,
        device.per_key_feature_index == 10,
        device.rgb_effects_feature_index == 9,
        device.mode_feature_index == 14,
        device.response_timeout_ms == 60,
        device.slot_keys@.len() == 5,
        0 <= i < 5 ==> device.slot_keys@[i] == 180 + i,
{
}

} // verus!
