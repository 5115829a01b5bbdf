use smf_to_ym2151log::apply_tone_to_channel;
use smf_to_ym2151log::default_tone_events;
use smf_to_ym2151log::initialize_channel_events;
use smf_to_ym2151log::parse_hex_byte;
use smf_to_ym2151log::resolve_register_for_channel;
use smf_to_ym2151log::to_hex_byte;
use smf_to_ym2151log::ToneDefinition;
use smf_to_ym2151log::Ym2151Event;

#[test]
fn test_initialize_channel_events_count() {
    let events = initialize_channel_events(0, 0);
    // 2 channel registers + 4 operators * 6 registers = 26 events
    assert_eq!(events.len(), 26);
}

#[test]
fn test_initialize_channel_events_time() {
    let time = 12345;
    let events = initialize_channel_events(0, time);
    for event in events {
        assert_eq!(event.time, time);
    }
}

#[test]
fn test_initialize_channel_events_different_channels() {
    let events_ch0 = initialize_channel_events(0, 0);
    let events_ch1 = initialize_channel_events(1, 0);

    // First event is the stereo/feedback/connection register.
    assert_eq!(events_ch0[0].addr, "0x20");
    assert_eq!(events_ch1[0].addr, "0x21");
}

#[test]
fn test_initialize_channel_events_operator_tl() {
    let events = initialize_channel_events(0, 0);
    // TL addresses for operators 0-3 on voice 0: 0x60, 0x68, 0x70, 0x78.
    let tl_addresses = vec!["0x60", "0x68", "0x70", "0x78"];
    let mut tl_events: Vec<&Ym2151Event> =
        events.iter().filter(|e| tl_addresses.contains(&e.addr.as_str())).collect();

    tl_events.sort_by(|a, b| a.addr.cmp(&b.addr));

    assert_eq!(tl_events.len(), 4);

    // The carrier is loud, the modulators silent.
    assert_eq!(tl_events[0].data, "0x00");
    assert_eq!(tl_events[1].data, "0x7F");
    assert_eq!(tl_events[2].data, "0x7F");
    assert_eq!(tl_events[3].data, "0x7F");
}

#[test]
fn test_default_tone_events() {
    let events = default_tone_events(0, 0);
    assert_eq!(events.len(), 26);
}

#[test]
fn test_apply_tone_to_channel() {
    let tone = ToneDefinition {
        events: vec![
            Ym2151Event { time: 0, addr: "0x20".to_string(), data: "0xC7".to_string() },
            Ym2151Event { time: 0, addr: "0x40".to_string(), data: "0x01".to_string() },
        ],
    };

    // Apply to voice 1 at sample time 55930.
    let events = apply_tone_to_channel(&tone, 1, 55930);

    assert_eq!(events.len(), 2);
    assert_eq!(events[0].addr, "0x21");
    assert_eq!(events[0].time, 55930);
    assert_eq!(events[1].addr, "0x41");
    assert_eq!(events[1].time, 55930);
}

#[test]
fn test_apply_tone_to_different_channels() {
    let tone = ToneDefinition {
        events: vec![Ym2151Event { time: 0, addr: "0x60".to_string(), data: "0x00".to_string() }],
    };

    let events_ch0 = apply_tone_to_channel(&tone, 0, 0);
    assert_eq!(events_ch0[0].addr, "0x60");

    let events_ch3 = apply_tone_to_channel(&tone, 3, 0);
    assert_eq!(events_ch3[0].addr, "0x63");

    let events_ch7 = apply_tone_to_channel(&tone, 7, 0);
    assert_eq!(events_ch7[0].addr, "0x67");
}

#[test]
fn test_apply_tone_multiple_operators() {
    let tone = ToneDefinition {
        events: vec![
            Ym2151Event { time: 0, addr: "0x60".to_string(), data: "0x00".to_string() },
            Ym2151Event { time: 0, addr: "0x68".to_string(), data: "0x7F".to_string() },
            Ym2151Event { time: 0, addr: "0x70".to_string(), data: "0x7F".to_string() },
            Ym2151Event { time: 0, addr: "0x78".to_string(), data: "0x7F".to_string() },
        ],
    };

    let events = apply_tone_to_channel(&tone, 2, 0);

    assert_eq!(events.len(), 4);
    assert_eq!(events[0].addr, "0x62");
    assert_eq!(events[1].addr, "0x6A");
    assert_eq!(events[2].addr, "0x72");
    assert_eq!(events[3].addr, "0x7A");
}

#[test]
fn test_retarget_recovers_operator_index() {
    // For operator-block registers, the low five bits of the retargeted
    // address divided by 8 recover the operator index, whatever the voice.
    for base in 0x40u16..=0xFF {
        let base = base as u8;
        let operator = (base & 0x1F) / 8;
        for voice in 0u8..8 {
            let resolved = resolve_register_for_channel(base, voice);
            assert_eq!((resolved & 0x1F) / 8, operator);
            assert_eq!(resolved & 0x07, voice);
            assert_eq!(resolved & 0xE0, base & 0xE0);
        }
    }
}

#[test]
fn test_hex_round_trip() {
    for b in 0u16..=255 {
        let b = b as u8;
        let s = to_hex_byte(b);
        assert_eq!(s.len(), 4);
        assert!(s.starts_with("0x"));
        assert_eq!(parse_hex_byte(&s), Some(b));
    }
}

#[test]
fn test_parse_hex_byte_forms() {
    assert_eq!(parse_hex_byte("0x60"), Some(0x60));
    assert_eq!(parse_hex_byte("0X0a"), Some(0x0A));
    assert_eq!(parse_hex_byte(" 96 "), Some(96));
    assert_eq!(parse_hex_byte("255"), Some(255));
    assert_eq!(parse_hex_byte("256"), None);
    assert_eq!(parse_hex_byte("0x100"), None);
    assert_eq!(parse_hex_byte(""), None);
    assert_eq!(parse_hex_byte("0x"), None);
    assert_eq!(parse_hex_byte("zz"), None);
}
