//! The HID++ packets that the keyboard is sent.
use vstd::prelude::*;

use crate::config::{Color, DeviceConfig};

verus! {

/// The report of seven bytes.
pub const SHORT_REPORT_ID: u8 = 0x10;

/// The report of twenty bytes.
pub const LONG_REPORT_ID: u8 = 0x11;

/// How many bytes a long report has.
pub const LONG_REPORT_BYTES: usize = 20;

/// How many keys with a colour each fit in one packet.
pub const KEYS_PER_PACKET: usize = 4;

/// How many keys of one colour fit in one packet.
pub const ONE_COLOR_KEYS_PER_PACKET: usize = 13;

/// The byte that ends a list of keys.
pub const KEY_LIST_END: u8 = 0xff;

/// The low half of a software id.
pub open spec fn low_nibble(id: u8) -> u8 {
    id & 0x0f
}

/// `bytes`, followed by zeros up to the length of a long report.
pub open spec fn padded(bytes: Seq<u8>) -> Seq<u8> {
    Seq::new(
        LONG_REPORT_BYTES as nat,
        |i: int|
            if i < bytes.len() {
                bytes[i]
            } else {
                0u8
            },
    )
}

/// A long report to the feature `feature`.
pub open spec fn long_report(config: DeviceConfig, feature: u8, function: u8, payload: Seq<u8>) -> Seq<
    u8,
> {
    padded(seq![LONG_REPORT_ID, config.device_index, feature, function] + payload)
}

/// A function of a feature, called by the software that lights the keys.
pub open spec fn lighting_function(config: DeviceConfig, function: u8) -> u8 {
    function | low_nibble(config.lighting_software_id)
}

/// A function of a feature, called by the software that sets the keyboard up.
pub open spec fn init_function(config: DeviceConfig, function: u8) -> u8 {
    function | low_nibble(config.init_software_id)
}

/// The keys, each with its colour.
pub open spec fn key_bytes(keys: Seq<(u8, Color)>) -> Seq<u8>
    decreases keys.len(),
{
    if keys.len() == 0 {
        Seq::empty()
    } else {
        let (key, color) = keys.last();
        key_bytes(keys.drop_last()) + seq![key, color.red, color.green, color.blue]
    }
}

/// The first keys, as many as fit in one packet of `max`.
pub open spec fn first_keys<T>(keys: Seq<T>, max: usize) -> Seq<T> {
    if keys.len() > max {
        keys.take(max as int)
    } else {
        keys
    }
}

/// The end of a list of keys, where a packet of `max` is not full.
pub open spec fn list_end<T>(keys: Seq<T>, max: usize) -> Seq<u8> {
    if keys.len() < max {
        seq![KEY_LIST_END]
    } else {
        Seq::empty()
    }
}

/// The packet that lights keys in their colours.
pub open spec fn keys_report(config: DeviceConfig, feature: u8, keys: Seq<(u8, Color)>) -> Seq<u8> {
    long_report(
        config,
        feature,
        lighting_function(config, 0x10),
        key_bytes(first_keys(keys, KEYS_PER_PACKET)) + list_end(keys, KEYS_PER_PACKET),
    )
}

/// The packet that lights keys in one colour.
pub open spec fn one_color_report(
    config: DeviceConfig,
    feature: u8,
    keys: Seq<u8>,
    color: Color,
) -> Seq<u8> {
    long_report(
        config,
        feature,
        lighting_function(config, 0x60),
        seq![color.red, color.green, color.blue] + first_keys(keys, ONE_COLOR_KEYS_PER_PACKET)
            + list_end(keys, ONE_COLOR_KEYS_PER_PACKET),
    )
}

/// The packet that makes the lights take effect.
pub open spec fn commit_report(config: DeviceConfig, feature: u8) -> Seq<u8> {
    long_report(config, feature, lighting_function(config, 0x70), Seq::empty())
}

/// The packet that has G-keys reported, or not any more.
pub open spec fn diversion_report(config: DeviceConfig, feature: u8, enabled: bool) -> Seq<u8> {
    long_report(
        config,
        feature,
        lighting_function(config, 0x20),
        seq![
            if enabled {
                1u8
            } else {
                0u8
            },
        ],
    )
}

/// The packets that let software light the keys.
pub open spec fn init_reports(config: DeviceConfig, mode: u8, rgb_effects: u8) -> Seq<Seq<u8>> {
    seq![
        long_report(config, mode, init_function(config, 0x30), Seq::empty()),
        long_report(config, mode, init_function(config, 0x10), Seq::empty()),
        long_report(config, rgb_effects, init_function(config, 0x10), init_effects_payload(0)),
        long_report(config, rgb_effects, init_function(config, 0x10), init_effects_payload(1)),
    ]
}

/// The payload that hands the zone `zone` of the lights to software.
pub open spec fn init_effects_payload(zone: u8) -> Seq<u8> {
    seq![zone, 0u8, 0u8, 0u8, 0u8, 0u8, 0u8, 0u8, 0u8, 0u8, 0u8, 0u8, 1u8]
}

/// The packet that asks where the feature `feature_id` is.
pub fn feature_query(config: &DeviceConfig, feature_id: u16) -> (r: [u8; 7])
    ensures
        r@ == seq![
            SHORT_REPORT_ID,
            config.device_index,
            0u8,
            low_nibble(config.lighting_software_id),
            (feature_id / 256) as u8,
            (feature_id % 256) as u8,
            0u8,
        ],
{
    let r: [u8; 7] = [
        SHORT_REPORT_ID,
        config.device_index,
        0,
        config.lighting_software_id & 0x0f,
        (feature_id / 256) as u8,
        (feature_id % 256) as u8,
        0,
    ];
    r
}

/// The packet that asks which lights there are.
pub fn zone_presence_query(config: &DeviceConfig, feature_index: u8, page: u8) -> (r: [u8; 7])
    ensures
        r@ == seq![
            SHORT_REPORT_ID,
            config.device_index,
            feature_index,
            low_nibble(config.lighting_software_id),
            0u8,
            page,
            0u8,
        ],
{
    let r: [u8; 7] = [
        SHORT_REPORT_ID,
        config.device_index,
        feature_index,
        config.lighting_software_id & 0x0f,
        0,
        page,
        0,
    ];
    r
}

/// `bytes` as a long report.
fn to_long_report(bytes: &Vec<u8>) -> (r: [u8; 20])
    requires
        bytes@.len() <= LONG_REPORT_BYTES,
    ensures
        r@ == padded(bytes@),
{
    let mut packet: [u8; 20] = [0u8; 20];
    let mut i: usize = 0;
    while i < bytes.len()
        invariant
            i <= bytes@.len() <= LONG_REPORT_BYTES,
            packet@.len() == LONG_REPORT_BYTES,
            forall|j: int| 0 <= j < i ==> packet@[j] == bytes@[j],
            forall|j: int| i <= j < LONG_REPORT_BYTES ==> packet@[j] == 0,
        decreases bytes@.len() - i,
    {
        packet[i] = bytes[i];
        i += 1;
    }
    assert(packet@ =~= padded(bytes@));
    packet
}

/// A long report to a feature.
fn build_long_report(config: &DeviceConfig, feature: u8, function: u8, payload: &Vec<u8>) -> (r: [u8;
    20])
    requires
        payload@.len() + 4 <= LONG_REPORT_BYTES,
    ensures
        r@ == long_report(*config, feature, function, payload@),
{
    let mut bytes: Vec<u8> = vec![LONG_REPORT_ID, config.device_index, feature, function];
    let ghost header = bytes@;
    let mut i: usize = 0;
    while i < payload.len()
        invariant
            i <= payload@.len(),
            bytes@ == header + payload@.take(i as int),
        decreases payload@.len() - i,
    {
        bytes.push(payload[i]);
        i += 1;
        assert(bytes@ =~= header + payload@.take(i as int));
    }
    assert(payload@.take(i as int) =~= payload@);
    assert(header =~= seq![LONG_REPORT_ID, config.device_index, feature, function]);
    to_long_report(&bytes)
}

/// The packet that has G-keys reported, or not any more.
pub fn g_key_diversion_packet(config: &DeviceConfig, feature_index: u8, enabled: bool) -> (r: [u8;
    20])
    ensures
        r@ == diversion_report(*config, feature_index, enabled),
{
    let flag: u8 = if enabled {
        1
    } else {
        0
    };
    let payload: Vec<u8> = vec![flag];
    assert(payload@ =~= seq![flag]);
    build_long_report(
        config,
        feature_index,
        0x20 | (config.lighting_software_id & 0x0f),
        &payload,
    )
}

/// The payload that hands the zone `zone` of the lights to software.
fn effects_payload(zone: u8) -> (r: Vec<u8>)
    ensures
        r@ == init_effects_payload(zone),
{
    let r: Vec<u8> = vec![zone, 0, 0, 0, 0, 0, 0, 0, 0, 0, 0, 0, 1];
    assert(r@ =~= init_effects_payload(zone));
    r
}

/// The packets that let software light the keys.
pub fn init_direct_packets(config: &DeviceConfig, mode_feature: u8, rgb_effects_feature: u8) -> (r: [[
u8; 20]; 4])
    ensures
        r@.map_values(|packet: [u8; 20]| packet@) == init_reports(
            *config,
            mode_feature,
            rgb_effects_feature,
        ),
{
    let software_id: u8 = config.init_software_id & 0x0f;
    let nothing: Vec<u8> = Vec::new();
    let packets: [[u8; 20]; 4] = [
        build_long_report(config, mode_feature, 0x30 | software_id, &nothing),
        build_long_report(config, mode_feature, 0x10 | software_id, &nothing),
        build_long_report(
            config,
            rgb_effects_feature,
            0x10 | software_id,
            &effects_payload(0),
        ),
        build_long_report(
            config,
            rgb_effects_feature,
            0x10 | software_id,
            &effects_payload(1),
        ),
    ];
    assert(packets@.map_values(|packet: [u8; 20]| packet@) =~= init_reports(
        *config,
        mode_feature,
        rgb_effects_feature,
    ));
    packets
}

/// Keys with their colours take four bytes each.
proof fn lemma_key_bytes_length(keys: Seq<(u8, Color)>)
    ensures
        key_bytes(keys).len() == 4 * keys.len(),
    decreases keys.len(),
{
    if keys.len() > 0 {
        lemma_key_bytes_length(keys.drop_last());
    }
}

/// The packet that lights keys in their colours. Of more than fit, the first are taken.
pub fn set_keys_packet(config: &DeviceConfig, feature_index: u8, keys: &[(u8, Color)]) -> (r: [u8; 20])
    ensures
        r@ == keys_report(*config, feature_index, keys@),
{
    let count: usize = if keys.len() < KEYS_PER_PACKET {
        keys.len()
    } else {
        KEYS_PER_PACKET
    };
    let mut payload: Vec<u8> = Vec::new();
    let mut i: usize = 0;
    assert(keys@.take(0) =~= Seq::empty());
    while i < count
        invariant
            i <= count <= keys@.len(),
            payload@ == key_bytes(keys@.take(i as int)),
        decreases count - i,
    {
        let (key, color) = keys[i];
        let ghost before = payload@;
        payload.push(key);
        payload.push(color.red);
        payload.push(color.green);
        payload.push(color.blue);
        proof {
            assert(keys@.take(i + 1).drop_last() =~= keys@.take(i as int));
            assert(keys@.take(i + 1).last() == keys@[i as int]);
            assert(payload@ =~= before + seq![key, color.red, color.green, color.blue]);
        }
        i += 1;
    }
    assert(keys@.take(count as int) =~= first_keys(keys@, KEYS_PER_PACKET));
    if count < KEYS_PER_PACKET {
        payload.push(KEY_LIST_END);
    }
    proof {
        lemma_key_bytes_length(keys@.take(count as int));
        assert(payload@ =~= key_bytes(first_keys(keys@, KEYS_PER_PACKET)) + list_end(
            keys@,
            KEYS_PER_PACKET,
        ));
    }
    build_long_report(
        config,
        feature_index,
        0x10 | (config.lighting_software_id & 0x0f),
        &payload,
    )
}

/// The packet that lights keys in one colour. Of more than fit, the first are taken.
pub fn set_keys_one_color_packet(
    config: &DeviceConfig,
    feature_index: u8,
    keys: &[u8],
    color: Color,
) -> (r: [u8; 20])
    ensures
        r@ == one_color_report(*config, feature_index, keys@, color),
{
    let count: usize = if keys.len() < ONE_COLOR_KEYS_PER_PACKET {
        keys.len()
    } else {
        ONE_COLOR_KEYS_PER_PACKET
    };
    let mut payload: Vec<u8> = vec![color.red, color.green, color.blue];
    let ghost rgb = seq![color.red, color.green, color.blue];
    let mut i: usize = 0;
    assert(payload@ =~= rgb + keys@.take(0));
    while i < count
        invariant
            i <= count <= keys@.len(),
            rgb.len() == 3,
            payload@ == rgb + keys@.take(i as int),
        decreases count - i,
    {
        payload.push(keys[i]);
        i += 1;
        assert(payload@ =~= rgb + keys@.take(i as int));
    }
    assert(keys@.take(count as int) =~= first_keys(keys@, ONE_COLOR_KEYS_PER_PACKET));
    if count < ONE_COLOR_KEYS_PER_PACKET {
        payload.push(KEY_LIST_END);
    }
    assert(payload@ =~= rgb + first_keys(keys@, ONE_COLOR_KEYS_PER_PACKET) + list_end(
        keys@,
        ONE_COLOR_KEYS_PER_PACKET,
    ));
    build_long_report(
        config,
        feature_index,
        0x60 | (config.lighting_software_id & 0x0f),
        &payload,
    )
}

/// The packet that makes the lights take effect.
pub fn commit_packet(config: &DeviceConfig, feature_index: u8) -> (r: [u8; 20])
    ensures
        r@ == commit_report(*config, feature_index),
{
    let nothing: Vec<u8> = Vec::new();
    build_long_report(
        config,
        feature_index,
        0x70 | (config.lighting_software_id & 0x0f),
        &nothing,
    )
}

/// A key and its colour stand in the packet at their place in the list.
pub proof fn law_key_stands_at_its_place(
    config: DeviceConfig,
    feature: u8,
    keys: Seq<(u8, Color)>,
    i: int,
)
    requires
        0 <= i < keys.len(),
        i < 4,
    ensures
        ({
            let packet = keys_report(config, feature, keys);
            let (key, color) = keys[i];
            &&& packet[4 + 4 * i] == key
            &&& packet[5 + 4 * i] == color.red
            &&& packet[6 + 4 * i] == color.green
            &&& packet[7 + 4 * i] == color.blue
        }),
{
    let shown = first_keys(keys, KEYS_PER_PACKET);
    lemma_key_bytes_length(shown);
    lemma_key_bytes_at(shown, i);
    assert(shown[i] == keys[i]);
}

proof fn lemma_key_bytes_at(keys: Seq<(u8, Color)>, i: int)
    requires
        0 <= i < keys.len(),
    ensures
        ({
            let bytes = key_bytes(keys);
            let (key, color) = keys[i];
            &&& bytes.len() == 4 * keys.len()
            &&& bytes[4 * i] == key
            &&& bytes[4 * i + 1] == color.red
            &&& bytes[4 * i + 2] == color.green
            &&& bytes[4 * i + 3] == color.blue
        }),
    decreases keys.len(),
{
    lemma_key_bytes_length(keys);
    lemma_key_bytes_length(keys.drop_last());
    if i < keys.len() - 1 {
        lemma_key_bytes_at(keys.drop_last(), i);
    }
}

/// A packet that lights keys in their colours is addressed to the feature, and a list that does not
/// fill it is ended.
pub proof fn law_keys_packet_is_addressed(
    config: DeviceConfig,
    feature: u8,
    keys: Seq<(u8, Color)>,
    i: int,
)
    ensures
        ({
            let packet = keys_report(config, feature, keys);
            let end = 4 + 4 * keys.len();
            &&& packet.len() == 20
            &&& packet[0] == 0x11
            &&& packet[1] == config.device_index
            &&& packet[2] == feature
            &&& packet[3] == 0x10u8 | (config.lighting_software_id & 0x0f)
            &&& keys.len() < 4 ==> packet[end as int] == 0xff
            &&& keys.len() < 4 && end < i < 20 ==> packet[i] == 0
        }),
{
    lemma_key_bytes_length(keys);
    lemma_key_bytes_length(first_keys(keys, KEYS_PER_PACKET));
}

/// In a packet that lights keys in one colour, the colour stands first, red before green before
/// blue, and then the keys, each at its place in the list. A list that does not fill the packet is
/// ended.
pub proof fn law_one_color_packet_holds_color_and_keys(
    config: DeviceConfig,
    feature: u8,
    keys: Seq<u8>,
    color: Color,
    i: int,
)
    ensures
        ({
            let packet = one_color_report(config, feature, keys, color);
            let end = 7 + keys.len();
            &&& packet.len() == 20
            &&& packet[0] == 0x11
            &&& packet[1] == config.device_index
            &&& packet[2] == feature
            &&& packet[3] == 0x60u8 | (config.lighting_software_id & 0x0f)
            &&& packet[4] == color.red
            &&& packet[5] == color.green
            &&& packet[6] == color.blue
            &&& 0 <= i < keys.len() && i < 13 ==> packet[7 + i] == keys[i]
            &&& keys.len() < 13 ==> packet[end as int] == 0xff
            &&& keys.len() < 13 && end < i < 20 ==> packet[i] == 0
        }),
{
}

/// The packet that makes the lights take effect is addressed to the feature and holds nothing else.
pub proof fn law_commit_packet_is_bare(config: DeviceConfig, feature: u8, i: int)
    ensures
        ({
            let packet = commit_report(config, feature);
            &&& packet.len() == 20
            &&& packet[0] == 0x11
            &&& packet[1] == config.device_index
            &&& packet[2] == feature
            &&& packet[3] == 0x70u8 | (config.lighting_software_id & 0x0f)
            &&& 4 <= i < 20 ==> packet[i] == 0
        }),
{
}

/// The packet about the reports of G-keys says in one byte whether they are wanted.
pub proof fn law_diversion_packet_says_whether(
    config: DeviceConfig,
    feature: u8,
    enabled: bool,
    i: int,
)
    ensures
        ({
            let packet = diversion_report(config, feature, enabled);
            &&& packet.len() == 20
            &&& packet[0] == 0x11
            &&& packet[1] == config.device_index
            &&& packet[2] == feature
            &&& packet[3] == 0x20u8 | (config.lighting_software_id & 0x0f)
            &&& enabled ==> packet[4] == 1
            &&& !enabled ==> packet[4] == 0
            &&& 5 <= i < 20 ==> packet[i] == 0
        }),
{
}

/// Four packets let software light the keys: two to the feature that says who lights them, and one
/// for each of the two zones to the feature of the effects.
pub proof fn law_init_packets_hand_over_lights(
    config: DeviceConfig,
    mode: u8,
    rgb_effects: u8,
    n: int,
    i: int,
)
    requires
        0 <= n < 4,
    ensures
        ({
            let packets = init_reports(config, mode, rgb_effects);
            let packet = packets[n];
            let id = config.init_software_id & 0x0f;
            &&& packets.len() == 4
            &&& packet.len() == 20
            &&& packet[0] == 0x11
            &&& packet[1] == config.device_index
            &&& n < 2 ==> packet[2] == mode
            &&& n >= 2 ==> packet[2] == rgb_effects
            &&& n == 0 ==> packet[3] == 0x30u8 | id
            &&& n > 0 ==> packet[3] == 0x10u8 | id
            &&& n < 2 && 4 <= i < 20 ==> packet[i] == 0
            &&& n >= 2 ==> packet[4] == n - 2 && packet[16] == 1
            &&& n >= 2 && 4 < i < 20 && i != 16 ==> packet[i] == 0
        }),
{
}

/// Every long packet has the length of a long report, and begins with its number.
pub proof fn law_long_packets_are_well_formed(
    config: DeviceConfig,
    feature: u8,
    function: u8,
    payload: Seq<u8>,
)
    ensures
        ({
            let packet = long_report(config, feature, function, payload);
            &&& packet.len() == LONG_REPORT_BYTES
            &&& packet[0] == LONG_REPORT_ID
            &&& packet[1] == config.device_index
            &&& packet[2] == feature
            &&& packet[3] == function
        }),
{
}

} // verus!
