//! What holds of the reports from the keyboard and of the packets to it.
use vstd::prelude::*;

use crate::config::{Color, DeviceConfig};
use crate::device;
use crate::device::{find_interface, Interface, KeyboardModel};
use crate::protocol;

verus! {

/// The bit `bit` of a byte, counted from the lowest.
pub open spec fn has_bit(byte: u8, bit: u8) -> bool {
    (byte >> bit) & 1u8 == 1u8
}

/// A report tells of G-keys exactly where it is a long one of eight bytes at least, from this
/// keyboard and this feature, to no question of ours.
pub proof fn law_reports_of_g_keys_are_recognised(
    report: Seq<u8>,
    config: DeviceConfig,
    feature: u8,
)
    ensures
        device::is_g_key_report(report, config, feature) <==> report.len() >= 8 && report[0] == 0x11
            && report[1] == config.device_index && report[2] == feature && report[3] == 0x00,
{
}

/// The fifth byte of a report tells of the first eight keys, the lowest bit of the first.
pub proof fn law_report_holds_a_bit_for_each_key(report: Seq<u8>, key: u32)
    requires
        report.len() >= 8,
        key < 32,
    ensures
        device::is_down(device::reported_keys(report), key) <==> has_bit(
            report[4 + key as int / 8],
            (key % 8) as u8,
        ),
{
    let a = report[4];
    let b = report[5];
    let c = report[6];
    let d = report[7];
    let down = device::reported_keys(report);
    assert(down == a + 256 * b + 65536 * c + 16777216 * d);
    if key < 8 {
        assert((down >> key) & 1u32 == 1u32 <==> (a >> ((key % 8) as u8)) & 1u8 == 1u8)
            by (bit_vector)
            requires
                down == a + 256 * b + 65536 * c + 16777216 * d,
                key < 8,
        ;
    } else if key < 16 {
        assert((down >> key) & 1u32 == 1u32 <==> (b >> ((key % 8) as u8)) & 1u8 == 1u8)
            by (bit_vector)
            requires
                down == a + 256 * b + 65536 * c + 16777216 * d,
                8 <= key < 16,
        ;
    } else if key < 24 {
        assert((down >> key) & 1u32 == 1u32 <==> (c >> ((key % 8) as u8)) & 1u8 == 1u8)
            by (bit_vector)
            requires
                down == a + 256 * b + 65536 * c + 16777216 * d,
                16 <= key < 24,
        ;
    } else {
        assert((down >> key) & 1u32 == 1u32 <==> (d >> ((key % 8) as u8)) & 1u8 == 1u8)
            by (bit_vector)
            requires
                down == a + 256 * b + 65536 * c + 16777216 * d,
                24 <= key < 32,
        ;
    }
}

/// Of the five G-keys, those are pressed that are down and were not, in their order.
pub proof fn law_five_keys_are_watched(before: u32, now: u32, key: usize, i: int, j: int)
    ensures
        ({
            let pressed = device::newly_pressed(before, now);
            &&& pressed.contains(key) <==> 1 <= key <= 5 && ((now >> ((key - 1) as u32)) & 1u32
                == 1u32) && ((before >> ((key - 1) as u32)) & 1u32 == 0u32)
            &&& 0 <= i < j < pressed.len() ==> pressed[i] < pressed[j]
        }),
{
    let pressed = device::newly_pressed(before, now);
    let bit = (key - 1) as u32;
    assert((before >> bit) & 1u32 == 0u32 || (before >> bit) & 1u32 == 1u32) by (bit_vector);
    if pressed.contains(key) {
        let k = pressed.index_of(key);
        device::law_pressed_keys_are_rising_edges(before, now, 5, k);
    }
    if 1 <= key <= 5 && device::is_down(now, bit) && !device::is_down(before, bit) {
        device::law_every_rising_edge_is_pressed(before, now, 5, key);
    }
    if 0 <= i < j < pressed.len() {
        device::law_pressed_keys_ascend(before, now, 5, i, j);
    }
}

/// A report of G-keys tells which are down from then on, and changes nothing else. Any other report
/// changes nothing.
pub proof fn law_report_tells_what_is_down(keyboard: KeyboardModel, report: Seq<u8>, feature: u8)
    ensures
        ({
            let (after, pressed) = keyboard.after_report(report, feature);
            let told = report.len() >= 8 && report[0] == 0x11 && report[1]
                == keyboard.config.device_index && report[2] == feature && report[3] == 0x00;
            &&& told ==> after.down == device::reported_keys(report) && pressed
                == device::newly_pressed(keyboard.down, after.down)
            &&& !told ==> after.down == keyboard.down && pressed.len() == 0
            &&& after.config == keyboard.config
            &&& after.indices == keyboard.indices
            &&& after.zones == keyboard.zones
            &&& after.pending == keyboard.pending
            &&& after.diverted == keyboard.diverted
        }),
{
}

/// Reports are taken in one after the other, and the pressed keys come in that order.
pub proof fn law_reports_are_taken_in_turn(
    keyboard: KeyboardModel,
    reports: Seq<Vec<u8>>,
    next: Vec<u8>,
    feature: u8,
)
    ensures
        ({
            let (before, pressed) = keyboard.after_reports(reports, feature);
            let (after, more) = before.after_report(next@, feature);
            &&& keyboard.after_reports(reports.push(next), feature).0 == after
            &&& keyboard.after_reports(reports.push(next), feature).1 == pressed + more
            &&& keyboard.after_reports(Seq::empty(), feature).0 == keyboard
            &&& keyboard.after_reports(Seq::empty(), feature).1.len() == 0
        }),
{
    assert(reports.push(next).drop_last() =~= reports);
    assert(reports.push(next).last() == next);
}

/// The lower half of a byte, as a number.
proof fn lemma_low_nibble(id: u8)
    ensures
        id & 0x0f == id % 16,
        0x20u8 | (id & 0x0f) == 0x20 + id % 16,
{
    assert(id & 0x0f == id % 16) by (bit_vector);
    assert(0x20u8 | (id & 0x0f) == 0x20 + id % 16) by (bit_vector);
}

/// A report says where a feature is exactly where it is an answer from this keyboard to the
/// question of this software: at the place it names, or nowhere where it names none.
pub proof fn law_feature_answers_are_recognised(report: Seq<u8>, config: DeviceConfig)
    ensures
        ({
            let is_answer = report.len() >= 7 && (report[0] == 0x10 || report[0] == 0x11)
                && report[1] == config.device_index && report[2] == 0 && report[3]
                == config.lighting_software_id % 16;
            &&& !is_answer ==> device::feature_reply(report, config) is None
            &&& is_answer && report[4] != 0 ==> device::feature_reply(report, config) == Some(
                Some(report[4]),
            )
            &&& is_answer && report[4] == 0 ==> device::feature_reply(report, config) == Some(
                None::<u8>,
            )
        }),
{
    lemma_low_nibble(config.lighting_software_id);
}

/// A report tells of a page of lights exactly where it is a long answer from this keyboard and this
/// feature to the question of this software: in fourteen bytes, from the seventh on.
pub proof fn law_zone_answers_are_recognised(
    report: Seq<u8>,
    config: DeviceConfig,
    feature: u8,
    i: int,
)
    ensures
        ({
            let is_answer = report.len() >= 20 && report[0] == 0x11 && report[1]
                == config.device_index && report[2] == feature && report[3]
                == config.lighting_software_id % 16;
            &&& device::zone_reply(report, config, feature) is Some <==> is_answer
            &&& is_answer ==> device::zone_reply(report, config, feature)->0.len() == 14
            &&& is_answer && 0 <= i < 14 ==> device::zone_reply(report, config, feature)->0[i]
                == report[6 + i]
        }),
{
    lemma_low_nibble(config.lighting_software_id);
}

/// A report confirms what was asked of the G-keys exactly where it is an answer from this keyboard
/// and this feature to that question of this software.
pub proof fn law_confirmations_are_recognised(report: Seq<u8>, config: DeviceConfig, feature: u8)
    ensures
        device::confirms_diversion(report, config, feature) <==> report.len() >= 4 && (report[0]
            == 0x10 || report[0] == 0x11) && report[1] == config.device_index && report[2]
            == feature && report[3] == 0x20 + config.lighting_software_id % 16,
{
    lemma_low_nibble(config.lighting_software_id);
}

/// A light is listed exactly where its bit is set: one bit for each light, fourteen bytes to a
/// page, from the first light to the last but one number.
pub proof fn law_every_light_is_found(pages: Seq<Seq<u8>>, zone: u8)
    ensures
        device::zones_up_to(pages, 254).contains(zone) <==> 1 <= zone <= 254 && has_bit(
            pages[zone as int / 112][(zone as int % 112) / 8],
            (zone % 8) as u8,
        ),
{
    lemma_zone_is_found(pages, 254, zone);
    if 1 <= zone <= 254 {
        let byte = pages[zone as int / 112][(zone as int % 112) / 8];
        let bit = (zone % 8) as u32;
        let small = (zone % 8) as u8;
        assert((byte as u32 >> bit) & 1u32 == 1u32 <==> (byte >> small) & 1u8 == 1u8)
            by (bit_vector)
            requires
                bit < 8,
                small == bit,
        ;
    }
}

proof fn lemma_zone_is_found(pages: Seq<Seq<u8>>, last: nat, zone: u8)
    requires
        last <= 254,
    ensures
        device::zones_up_to(pages, last).contains(zone) <==> 1 <= zone <= last && device::has_zone(
            pages,
            zone as int,
        ),
    decreases last,
{
    if last > 0 {
        lemma_zone_is_found(pages, (last - 1) as nat, zone);
        let before = device::zones_up_to(pages, (last - 1) as nat);
        let now = device::zones_up_to(pages, last);
        if before.contains(zone) {
            assert(now[before.index_of(zone)] == zone);
        }
        if zone == last && device::has_zone(pages, last as int) {
            assert(now[before.len() as int] == zone);
        }
        if now.contains(zone) && !before.contains(zone) {
            let i = now.index_of(zone);
            if i < before.len() {
                assert(before[i] == zone);
            }
        }
    }
}

/// The lights of a keyboard that does not tell: the first 111, five special ones, the five G-keys
/// and the logo.
pub proof fn law_known_lights(zone: u8)
    ensures
        device::known_zones().contains(zone) <==> 1 <= zone <= 111 || zone == 153 || 155 <= zone
            <= 158 || 180 <= zone <= 184 || zone == 210,
        device::known_zones().len() == 122,
        forall|i: int, j: int|
            0 <= i < j < 122 ==> #[trigger] device::known_zones()[i]
                < #[trigger] device::known_zones()[j],
{
    let known = device::known_zones();
    assert(known[111] == 153);
    assert(known[112] == 155);
    assert(known[113] == 156);
    assert(known[114] == 157);
    assert(known[115] == 158);
    assert(known[116] == 180);
    assert(known[117] == 181);
    assert(known[118] == 182);
    assert(known[119] == 183);
    assert(known[120] == 184);
    assert(known[121] == 210);
    assert forall|i: int| 0 <= i < 111 implies #[trigger] known[i] == i + 1 by {}
    if 1 <= zone <= 111 {
        assert(known[zone - 1] == zone);
    }
    if known.contains(zone) {
        let i = known.index_of(zone);
        assert(known[i] == zone);
        assert(0 <= i < 122);
    }
}

/// Keys with colours go out four to a packet, in their order, until all have gone.
pub proof fn law_keys_go_out_four_at_a_time(
    config: DeviceConfig,
    feature: u8,
    keys: Seq<(u8, Color)>,
    n: int,
)
    ensures
        ({
            let packets = device::key_reports(config, feature, keys);
            &&& packets.len() == (keys.len() + 3) / 4
            &&& 0 <= n && 4 * n + 4 <= keys.len() ==> packets[n] == protocol::keys_report(
                config,
                feature,
                keys.subrange(4 * n, 4 * n + 4),
            )
            &&& 0 <= n && 4 * n < keys.len() < 4 * n + 4 ==> packets[n] == protocol::keys_report(
                config,
                feature,
                keys.subrange(4 * n, keys.len() as int),
            )
        }),
    decreases keys.len(),
{
    if keys.len() > 4 {
        let rest = keys.skip(4);
        law_keys_go_out_four_at_a_time(config, feature, rest, n - 1);
        if n == 0 {
            assert(keys.take(4) =~= keys.subrange(0, 4));
        } else if n > 0 && 4 * n + 4 <= keys.len() {
            assert(rest.subrange(4 * (n - 1), 4 * (n - 1) + 4) =~= keys.subrange(
                4 * n,
                4 * n + 4,
            ));
        } else if n > 0 && 4 * n < keys.len() {
            assert(rest.subrange(4 * (n - 1), rest.len() as int) =~= keys.subrange(
                4 * n,
                keys.len() as int,
            ));
        }
    } else {
        if n == 0 && keys.len() > 0 {
            assert(keys.subrange(0, keys.len() as int) =~= keys);
        }
    }
}

/// Keys in one colour go out thirteen to a packet, in their order, until all have gone.
pub proof fn law_one_color_goes_out_thirteen_at_a_time(
    config: DeviceConfig,
    feature: u8,
    keys: Seq<u8>,
    color: Color,
    n: int,
)
    ensures
        ({
            let packets = device::one_color_reports(config, feature, keys, color);
            &&& packets.len() == (keys.len() + 12) / 13
            &&& 0 <= n && 13 * n + 13 <= keys.len() ==> packets[n] == protocol::one_color_report(
                config,
                feature,
                keys.subrange(13 * n, 13 * n + 13),
                color,
            )
            &&& 0 <= n && 13 * n < keys.len() < 13 * n + 13 ==> packets[n]
                == protocol::one_color_report(
                config,
                feature,
                keys.subrange(13 * n, keys.len() as int),
                color,
            )
        }),
    decreases keys.len(),
{
    if keys.len() > 13 {
        let rest = keys.skip(13);
        law_one_color_goes_out_thirteen_at_a_time(config, feature, rest, color, n - 1);
        if n == 0 {
            assert(keys.take(13) =~= keys.subrange(0, 13));
        } else if n > 0 && 13 * n + 13 <= keys.len() {
            assert(rest.subrange(13 * (n - 1), 13 * (n - 1) + 13) =~= keys.subrange(
                13 * n,
                13 * n + 13,
            ));
        } else if n > 0 && 13 * n < keys.len() {
            assert(rest.subrange(13 * (n - 1), rest.len() as int) =~= keys.subrange(
                13 * n,
                keys.len() as int,
            ));
        }
    } else {
        if n == 0 && keys.len() > 0 {
            assert(keys.subrange(0, keys.len() as int) =~= keys);
        }
    }
}

/// What is lit takes effect: the last packet is the one that says so, and it comes only after
/// others.
pub proof fn law_lights_take_effect_last(
    config: DeviceConfig,
    feature: u8,
    packets: Seq<Seq<u8>>,
    n: int,
)
    ensures
        ({
            let sent = device::committed(config, feature, packets);
            &&& packets.len() == 0 ==> sent.len() == 0
            &&& packets.len() > 0 ==> sent.len() == packets.len() + 1 && sent.last()
                == protocol::commit_report(config, feature)
            &&& 0 <= n < packets.len() ==> sent[n] == packets[n]
        }),
{
}

/// G-keys are reported where the keyboard can do that and was told to.
pub proof fn law_navigation_takes_both(keyboard: KeyboardModel)
    ensures
        keyboard.navigates() <==> !(keyboard.indices.g_keys is None) && keyboard.diverted,
{
}

/// An interface is that of the keyboard exactly where all four of its numbers are the configured
/// ones.
pub proof fn law_keyboard_goes_by_four_numbers(interface: Interface, config: DeviceConfig)
    ensures
        !device::is_keyboard(interface, config) <==> interface.vendor_id != config.vendor_id
            || interface.product_id != config.product_id || interface.usage_page
            != config.usage_page || interface.usage != config.usage,
{
}

/// The interface that is found is the first with the configured numbers.
pub proof fn law_found_interface(
    interfaces: &Vec<Interface>,
    config: &DeviceConfig,
    r: Option<usize>,
    j: int,
)
    requires
        call_ensures(find_interface, (interfaces, config), r),
    ensures
        r matches Some(i) ==> i < interfaces@.len() && interfaces@[i as int].vendor_id
            == config.vendor_id && interfaces@[i as int].product_id == config.product_id
            && interfaces@[i as int].usage_page == config.usage_page && interfaces@[i as int].usage
            == config.usage,
        r is Some && 0 <= j < r->0 ==> interfaces@[j].vendor_id != config.vendor_id
            || interfaces@[j].product_id != config.product_id || interfaces@[j].usage_page
            != config.usage_page || interfaces@[j].usage != config.usage,
{
    if r is Some && 0 <= j < r->0 {
        assert(!device::is_keyboard(interfaces@[j], *config));
    }
}

} // verus!
