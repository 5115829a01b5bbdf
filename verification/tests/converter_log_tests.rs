use smf_to_ym2151log::convert_to_ym2151_log;
use smf_to_ym2151log::convert_to_ym2151_log_with_options;
use smf_to_ym2151log::midi_to_kc_kf;
use smf_to_ym2151log::ConversionOptions;
use smf_to_ym2151log::LfoWaveform;
use smf_to_ym2151log::MidiData;
use smf_to_ym2151log::MidiEvent;
use smf_to_ym2151log::RegisterLfoDefinition;
use smf_to_ym2151log::ToneDefinition;
use smf_to_ym2151log::Ym2151Event;

fn single_note_data(note: u8, off_tick: u32) -> MidiData {
    MidiData {
        ticks_per_beat: 480,
        tempo_bpm_milli: 120_000,
        events: vec![
            MidiEvent::NoteOn { ticks: 0, channel: 0, note, velocity: 100 },
            MidiEvent::NoteOff { ticks: off_tick, channel: 0, note },
        ],
    }
}

#[test]
fn test_convert_empty_midi() {
    let midi_data = MidiData { ticks_per_beat: 480, tempo_bpm_milli: 120_000, events: vec![] };

    let result = convert_to_ym2151_log(&midi_data).unwrap();

    // Only the 8 silencing key-offs: no voice is used, so no tone blocks.
    assert_eq!(result.event_count, 8);
    assert_eq!(result.events.len(), 8);
}

#[test]
fn test_convert_single_note() {
    let midi_data = single_note_data(60, 480);

    let result = convert_to_ym2151_log(&midi_data).unwrap();

    // 8 key-offs + 26 tone block + note on (3) + note off (1) = 38.
    assert_eq!(result.event_count, 38);

    // Exactly one key-code write for Middle C on voice 0.
    let kc_events: Vec<&Ym2151Event> =
        result.events.iter().filter(|e| e.addr == "0x28" && e.data == "0x3E").collect();
    assert_eq!(kc_events.len(), 1, "Should have exactly one KC register write for Middle C");

    // The note-off lands half a second in: 27965 samples at 55930 Hz.
    let key_off = result
        .events
        .iter()
        .find(|e| e.addr == "0x08" && e.data == "0x00" && e.time > 0)
        .expect("Should have KEY OFF event");
    assert_eq!(key_off.time, 27965);
}

#[test]
fn test_convert_tempo_change() {
    let midi_data = MidiData {
        ticks_per_beat: 480,
        tempo_bpm_milli: 120_000,
        events: vec![
            MidiEvent::NoteOn { ticks: 0, channel: 0, note: 60, velocity: 100 },
            MidiEvent::Tempo { ticks: 240, tempo_bpm_milli: 60_000 },
            MidiEvent::NoteOff { ticks: 480, channel: 0, note: 60 },
        ],
    };

    let result = convert_to_ym2151_log(&midi_data).unwrap();

    assert!(result.event_count > 34);

    // The note-on key event sits at time 0.
    let note_on_event = result
        .events
        .iter()
        .find(|e| e.addr == "0x08" && e.data == "0x78" && e.time == 0)
        .expect("Should have Note On KEY event at time 0");
    assert_eq!(note_on_event.time, 0);

    // The note-off reflects the tempo change: 0.25 s at 120 BPM plus
    // 0.5 s at 60 BPM = 0.75 s = 41947 samples.
    let key_off = result
        .events
        .iter()
        .find(|e| e.addr == "0x08" && e.data == "0x00" && e.time > 0)
        .expect("Should have KEY OFF event");
    assert_eq!(key_off.time, 41947);
}

#[test]
fn test_convert_multiple_notes() {
    let midi_data = MidiData {
        ticks_per_beat: 480,
        tempo_bpm_milli: 120_000,
        events: vec![
            MidiEvent::NoteOn { ticks: 0, channel: 0, note: 60, velocity: 100 },
            MidiEvent::NoteOn { ticks: 240, channel: 0, note: 64, velocity: 100 },
            MidiEvent::NoteOff { ticks: 480, channel: 0, note: 60 },
            MidiEvent::NoteOff { ticks: 720, channel: 0, note: 64 },
        ],
    };

    let result = convert_to_ym2151_log(&midi_data).unwrap();

    // Overlapping notes demand 2 voices:
    // 8 key-offs + 26 * 2 + 2 note-ons (6) + 2 note-offs (2) = 68.
    assert_eq!(result.event_count, 68);
}

#[test]
fn test_overlapping_notes_use_distinct_voices() {
    // Two overlapping note-ons on one input channel: polyphony 2, and the
    // key-ons land on two different voices.
    let midi_data = MidiData {
        ticks_per_beat: 480,
        tempo_bpm_milli: 120_000,
        events: vec![
            MidiEvent::NoteOn { ticks: 0, channel: 0, note: 60, velocity: 100 },
            MidiEvent::NoteOn { ticks: 240, channel: 0, note: 64, velocity: 100 },
            MidiEvent::NoteOff { ticks: 480, channel: 0, note: 60 },
            MidiEvent::NoteOff { ticks: 720, channel: 0, note: 64 },
        ],
    };

    let result = convert_to_ym2151_log(&midi_data).unwrap();

    let key_ons: Vec<&Ym2151Event> = result
        .events
        .iter()
        .filter(|e| e.addr == "0x08" && e.data.starts_with("0x7"))
        .collect();
    assert_eq!(key_ons.len(), 2);
    assert_ne!(key_ons[0].data, key_ons[1].data, "key-ons should land on different voices");
}

#[test]
fn test_key_on_register_format() {
    let midi_data = MidiData {
        ticks_per_beat: 480,
        tempo_bpm_milli: 120_000,
        events: vec![MidiEvent::NoteOn { ticks: 0, channel: 0, note: 60, velocity: 100 }],
    };

    let result = convert_to_ym2151_log(&midi_data).unwrap();

    let key_on = result
        .events
        .iter()
        .find(|e| e.addr == "0x08" && e.data == "0x78")
        .expect("Should have KEY ON event");

    assert_eq!(key_on.data, "0x78");
}

#[test]
fn test_key_off_register_format() {
    let midi_data = single_note_data(60, 480);

    let result = convert_to_ym2151_log(&midi_data).unwrap();

    let key_off = result
        .events
        .iter()
        .filter(|e| e.addr == "0x08" && e.time > 0)
        .find(|e| e.data == "0x00")
        .expect("Should have KEY OFF event");

    assert_eq!(key_off.data, "0x00");
}

#[test]
fn test_delay_vibrato_generates_additional_pitch_events() {
    // A 2-second A440: vibrato begins 0.2 s in (11186 samples).
    let midi_data = single_note_data(69, 1920);

    let options = ConversionOptions { delay_vibrato: true, ..ConversionOptions::default() };

    let result = convert_to_ym2151_log_with_options(&midi_data, &options).unwrap();

    let kc_events_after_delay: Vec<&Ym2151Event> =
        result.events.iter().filter(|e| e.addr == "0x28" && e.time > 11186).collect();
    assert!(
        !kc_events_after_delay.is_empty(),
        "KC events should include vibrato modulation after delay"
    );

    let non_zero_kf_after_delay: Vec<&Ym2151Event> = result
        .events
        .iter()
        .filter(|e| e.addr == "0x30" && e.time > 11186 && e.data != "0x00")
        .collect();
    assert!(
        !non_zero_kf_after_delay.is_empty(),
        "KF events should include fractional pitch changes from vibrato"
    );
}

#[test]
fn test_portamento_generates_pitch_glide_events() {
    let midi_data = MidiData {
        ticks_per_beat: 480,
        tempo_bpm_milli: 120_000,
        events: vec![
            MidiEvent::NoteOn { ticks: 0, channel: 0, note: 60, velocity: 100 },
            MidiEvent::NoteOff { ticks: 480, channel: 0, note: 60 },
            MidiEvent::NoteOn { ticks: 480, channel: 0, note: 67, velocity: 100 },
            MidiEvent::NoteOff { ticks: 960, channel: 0, note: 67 },
        ],
    };

    let options = ConversionOptions { portamento: true, ..ConversionOptions::default() };

    let result = convert_to_ym2151_log_with_options(&midi_data, &options).unwrap();

    // The first note still sets its key code at time 0.
    let (kc_first, _) = midi_to_kc_kf(60);
    let first = format!("0x{:02X}", kc_first);
    let found_first = result
        .events
        .iter()
        .any(|e| e.addr == "0x28" && e.time == 0 && e.data == first);
    assert!(found_first, "First note should set KC at time 0");

    // The glide emits several key-code steps from the second onset on
    // (0.5 s = 27965 samples).
    let kc_after_second: Vec<&Ym2151Event> =
        result.events.iter().filter(|e| e.addr == "0x28" && e.time >= 27965).collect();
    assert!(kc_after_second.len() >= 2, "Portamento should emit multiple KC steps during the glide");

    assert!(
        kc_after_second.iter().any(|e| e.data == first),
        "Glide should include the starting KC from the previous note"
    );

    let (kc_second, _) = midi_to_kc_kf(67);
    let second = format!("0x{:02X}", kc_second);
    assert!(
        kc_after_second.iter().any(|e| e.data == second),
        "Glide should arrive at the target KC"
    );
}

#[test]
fn test_register_lfo_modulates_tone_register() {
    let midi_data = MidiData {
        ticks_per_beat: 480,
        tempo_bpm_milli: 120_000,
        events: vec![
            MidiEvent::NoteOn { ticks: 0, channel: 0, note: 60, velocity: 100 },
            MidiEvent::NoteOff { ticks: 240, channel: 0, note: 60 },
            MidiEvent::NoteOn { ticks: 0, channel: 1, note: 64, velocity: 100 },
            MidiEvent::NoteOff { ticks: 480, channel: 1, note: 64 },
        ],
    };

    let options = ConversionOptions {
        software_lfo: vec![RegisterLfoDefinition {
            base_register: "0x60".to_string(),
            depth_milli: 4000,
            rate_millihz: 2000,
            delay_ns: 0,
            attack_ns: 0,
            waveform: LfoWaveform::Triangle,
        }],
        ..ConversionOptions::default()
    };

    let result = convert_to_ym2151_log_with_options(&midi_data, &options).unwrap();

    // Input channel 1 gets voice 1, so the total-level base 0x60 resolves
    // to 0x61 there.
    let lfo_events: Vec<&Ym2151Event> =
        result.events.iter().filter(|e| e.addr == "0x61" && e.time > 0).collect();

    assert!(!lfo_events.is_empty(), "Software LFO should emit TL updates for channel 1");
    assert!(
        lfo_events.iter().any(|e| e.data != "0x00"),
        "LFO should modulate TL away from the base value"
    );
}

#[test]
fn test_convert_multi_channel() {
    let midi_data = MidiData {
        ticks_per_beat: 480,
        tempo_bpm_milli: 120_000,
        events: vec![
            MidiEvent::NoteOn { ticks: 0, channel: 0, note: 60, velocity: 100 },
            MidiEvent::NoteOn { ticks: 0, channel: 1, note: 64, velocity: 100 },
            MidiEvent::NoteOn { ticks: 0, channel: 2, note: 67, velocity: 100 },
            MidiEvent::NoteOff { ticks: 480, channel: 0, note: 60 },
            MidiEvent::NoteOff { ticks: 480, channel: 1, note: 64 },
            MidiEvent::NoteOff { ticks: 480, channel: 2, note: 67 },
        ],
    };

    let result = convert_to_ym2151_log(&midi_data).unwrap();

    // 8 key-offs + 26 * 3 + 3 note-ons (9) + 3 note-offs (3) = 98.
    assert_eq!(result.event_count, 98);

    // Key codes: 60 -> 0x3E, 64 -> 0x44, 67 -> 0x48, on voices 0-2.
    let kc_addrs = ["0x28", "0x29", "0x2A"];
    for (data, _note) in [("0x3E", 60), ("0x44", 64), ("0x48", 67)] {
        let found = result
            .events
            .iter()
            .any(|e| kc_addrs.contains(&e.addr.as_str()) && e.time == 0 && e.data == data);
        assert!(found, "Should have KC write {}", data);
    }

    let key_on_events: Vec<&Ym2151Event> = result
        .events
        .iter()
        .filter(|e| e.addr == "0x08" && e.time == 0 && e.data.starts_with("0x7"))
        .collect();
    assert_eq!(key_on_events.len(), 3, "Should have 3 KEY ON events");
}

#[test]
fn test_convert_multi_channel_sequential() {
    let midi_data = MidiData {
        ticks_per_beat: 480,
        tempo_bpm_milli: 120_000,
        events: vec![
            MidiEvent::NoteOn { ticks: 0, channel: 0, note: 60, velocity: 100 },
            MidiEvent::NoteOff { ticks: 480, channel: 0, note: 60 },
            MidiEvent::NoteOn { ticks: 480, channel: 1, note: 64, velocity: 100 },
            MidiEvent::NoteOff { ticks: 960, channel: 1, note: 64 },
        ],
    };

    let result = convert_to_ym2151_log(&midi_data).unwrap();

    // Both channels sound, so at least 2 voices are initialized.
    let init_channels: Vec<&Ym2151Event> = result
        .events
        .iter()
        .filter(|e| e.addr.starts_with("0x2") && e.time == 0)
        .collect();
    assert!(init_channels.len() >= 2, "At least 2 voices should be initialized");
}

#[test]
fn test_convert_program_change() {
    let midi_data = MidiData {
        ticks_per_beat: 480,
        tempo_bpm_milli: 120_000,
        events: vec![
            MidiEvent::ProgramChange { ticks: 0, channel: 0, program: 42 },
            MidiEvent::NoteOn { ticks: 0, channel: 0, note: 60, velocity: 100 },
            MidiEvent::NoteOff { ticks: 480, channel: 0, note: 60 },
        ],
    };

    let result = convert_to_ym2151_log(&midi_data).unwrap();

    // 8 key-offs + 26 init + 26 program-change tone + 3 + 1 = 64.
    assert_eq!(result.event_count, 64);

    // Two writes of the stereo/feedback register at time 0: init and change.
    let tone_events: Vec<&Ym2151Event> =
        result.events.iter().filter(|e| e.addr == "0x20" && e.time == 0).collect();
    assert!(tone_events.len() >= 2, "Should have tone settings from both init and program change");
}

#[test]
fn test_convert_program_change_unused_channel() {
    let midi_data = MidiData {
        ticks_per_beat: 480,
        tempo_bpm_milli: 120_000,
        events: vec![
            MidiEvent::ProgramChange { ticks: 0, channel: 5, program: 10 },
            MidiEvent::NoteOn { ticks: 0, channel: 0, note: 60, velocity: 100 },
            MidiEvent::NoteOff { ticks: 480, channel: 0, note: 60 },
        ],
    };

    let result = convert_to_ym2151_log(&midi_data).unwrap();

    // The change on the silent channel emits nothing: 38 events as for a
    // plain single note.
    assert_eq!(result.event_count, 38);
}

#[test]
fn test_convert_program_change_with_attachment_tone() {
    let midi_data = MidiData {
        ticks_per_beat: 480,
        tempo_bpm_milli: 120_000,
        events: vec![
            MidiEvent::ProgramChange { ticks: 0, channel: 0, program: 99 },
            MidiEvent::NoteOn { ticks: 0, channel: 0, note: 60, velocity: 100 },
            MidiEvent::NoteOff { ticks: 480, channel: 0, note: 60 },
        ],
    };

    let mut options = ConversionOptions::default();
    options.tones.insert(
        99,
        ToneDefinition {
            events: vec![Ym2151Event { time: 0, addr: "0x20".to_string(), data: "0xAB".to_string() }],
        },
    );

    let result = convert_to_ym2151_log_with_options(&midi_data, &options).unwrap();

    // 8 key-offs + 26 init + 1 attachment tone write + 3 + 1 = 39.
    assert_eq!(result.event_count, 39);

    let has_custom_tone = result.events.iter().any(|e| e.data == "0xAB");
    assert!(has_custom_tone, "Attachment tone definition should be applied for program 99");
}

#[test]
fn test_convert_malformed_attachment_tone_falls_back() {
    let midi_data = MidiData {
        ticks_per_beat: 480,
        tempo_bpm_milli: 120_000,
        events: vec![
            MidiEvent::ProgramChange { ticks: 0, channel: 0, program: 99 },
            MidiEvent::NoteOn { ticks: 0, channel: 0, note: 60, velocity: 100 },
            MidiEvent::NoteOff { ticks: 480, channel: 0, note: 60 },
        ],
    };

    let mut options = ConversionOptions::default();
    options.tones.insert(
        99,
        ToneDefinition {
            events: vec![Ym2151Event { time: 0, addr: "0x20".to_string(), data: "pq".to_string() }],
        },
    );

    let result = convert_to_ym2151_log_with_options(&midi_data, &options).unwrap();

    // The malformed tone falls back to the 26-write default block:
    // 8 + 26 + 26 + 3 + 1 = 64, and no malformed byte appears.
    assert_eq!(result.event_count, 64);
    assert!(result.events.iter().all(|e| e.data != "pq"));
}

#[test]
fn test_convert_multiple_program_changes() {
    let midi_data = MidiData {
        ticks_per_beat: 480,
        tempo_bpm_milli: 120_000,
        events: vec![
            MidiEvent::ProgramChange { ticks: 0, channel: 0, program: 10 },
            MidiEvent::NoteOn { ticks: 0, channel: 0, note: 60, velocity: 100 },
            MidiEvent::NoteOff { ticks: 240, channel: 0, note: 60 },
            MidiEvent::ProgramChange { ticks: 240, channel: 0, program: 20 },
            MidiEvent::NoteOn { ticks: 480, channel: 0, note: 64, velocity: 100 },
            MidiEvent::NoteOff { ticks: 720, channel: 0, note: 64 },
        ],
    };

    let result = convert_to_ym2151_log(&midi_data).unwrap();

    // 8 + 26 init + 26 + 3 + 1 + 26 + 3 + 1 = 94.
    assert_eq!(result.event_count, 94);

    let tone_events_time_0: Vec<&Ym2151Event> =
        result.events.iter().filter(|e| e.addr == "0x20" && e.time == 0).collect();
    assert!(tone_events_time_0.len() >= 2, "Should have init + first program change");

    let tone_events_later: Vec<&Ym2151Event> =
        result.events.iter().filter(|e| e.addr == "0x20" && e.time > 0).collect();
    assert!(!tone_events_later.is_empty(), "Should have tone change at later time");
}

#[test]
fn test_convert_drum_channel_note_on_channel_0() {
    let midi_data = MidiData {
        ticks_per_beat: 480,
        tempo_bpm_milli: 120_000,
        events: vec![
            MidiEvent::NoteOn { ticks: 0, channel: 9, note: 60, velocity: 100 },
            MidiEvent::NoteOff { ticks: 480, channel: 9, note: 60 },
        ],
    };

    let result = convert_to_ym2151_log(&midi_data).unwrap();

    // The percussion channel takes voice 0: its key code register is 0x28.
    let kc_events: Vec<&Ym2151Event> =
        result.events.iter().filter(|e| e.addr == "0x28" && e.time == 0).collect();
    assert_eq!(kc_events.len(), 1, "Drum channel should use voice 0 (KC register 0x28)");

    let key_on = result
        .events
        .iter()
        .find(|e| e.addr == "0x08" && e.data == "0x78" && e.time == 0)
        .expect("Should have KEY ON for voice 0");
    assert_eq!(key_on.data, "0x78");
}

#[test]
fn test_convert_drum_and_regular_channels_together() {
    let midi_data = MidiData {
        ticks_per_beat: 480,
        tempo_bpm_milli: 120_000,
        events: vec![
            MidiEvent::NoteOn { ticks: 0, channel: 9, note: 36, velocity: 100 },
            MidiEvent::NoteOn { ticks: 0, channel: 0, note: 60, velocity: 100 },
            MidiEvent::NoteOn { ticks: 0, channel: 1, note: 64, velocity: 100 },
            MidiEvent::NoteOff { ticks: 480, channel: 9, note: 36 },
            MidiEvent::NoteOff { ticks: 480, channel: 0, note: 60 },
            MidiEvent::NoteOff { ticks: 480, channel: 1, note: 64 },
        ],
    };

    let result = convert_to_ym2151_log(&midi_data).unwrap();

    // Percussion on voice 0, the others on voices 1 and 2.
    for addr in ["0x28", "0x29", "0x2A"] {
        let found = result.events.iter().any(|e| e.addr == addr && e.time == 0);
        assert!(found, "Should have KC write on {}", addr);
    }

    let key_on_events: Vec<&Ym2151Event> = result
        .events
        .iter()
        .filter(|e| e.addr == "0x08" && e.time == 0 && e.data.starts_with("0x7"))
        .collect();
    assert_eq!(key_on_events.len(), 3);

    // The percussion channel's key-on comes first and is voice 0.
    assert_eq!(key_on_events[0].data, "0x78");
}

#[test]
fn test_output_sorted_by_time() {
    let midi_data = MidiData {
        ticks_per_beat: 480,
        tempo_bpm_milli: 120_000,
        events: vec![
            MidiEvent::NoteOn { ticks: 0, channel: 0, note: 60, velocity: 100 },
            MidiEvent::NoteOff { ticks: 480, channel: 0, note: 60 },
            MidiEvent::NoteOn { ticks: 960, channel: 0, note: 62, velocity: 100 },
            MidiEvent::NoteOff { ticks: 1440, channel: 0, note: 62 },
        ],
    };

    let options = ConversionOptions { delay_vibrato: true, ..ConversionOptions::default() };
    let result = convert_to_ym2151_log_with_options(&midi_data, &options).unwrap();

    let mut prev = 0u32;
    for e in &result.events {
        assert!(e.time >= prev, "times must be non-decreasing, got {} after {}", e.time, prev);
        prev = e.time;
    }
    assert_eq!(result.event_count, result.events.len());
}

#[test]
fn test_tempo_change_timing_accuracy() {
    // A note before and a note after a tempo change to half speed.
    let midi_data = MidiData {
        ticks_per_beat: 480,
        tempo_bpm_milli: 120_000,
        events: vec![
            MidiEvent::NoteOn { ticks: 0, channel: 0, note: 60, velocity: 100 },
            MidiEvent::NoteOff { ticks: 480, channel: 0, note: 60 },
            MidiEvent::Tempo { ticks: 480, tempo_bpm_milli: 60_000 },
            MidiEvent::NoteOn { ticks: 480, channel: 0, note: 62, velocity: 100 },
            MidiEvent::NoteOff { ticks: 960, channel: 0, note: 62 },
        ],
    };

    let result = convert_to_ym2151_log(&midi_data).unwrap();

    // First note off after one beat at 120 BPM: 0.5 s = 27965 samples.
    let first_off = result
        .events
        .iter()
        .find(|e| e.addr == "0x08" && e.data == "0x00" && e.time > 0)
        .expect("Should have first note off");
    assert_eq!(first_off.time, 27965);

    // Second note on lands at the tempo change.
    let second_on = result
        .events
        .iter()
        .find(|e| e.addr == "0x08" && e.data == "0x78" && e.time > 0)
        .expect("Should have second note on at tempo change");
    assert_eq!(second_on.time, 27965);

    // Second note off after one more beat at 60 BPM: 1.5 s = 83895 samples.
    let second_off = result
        .events
        .iter()
        .find(|e| e.addr == "0x08" && e.data == "0x00" && e.time > 27965)
        .expect("Should have second note off");
    assert_eq!(second_off.time, 83895);
}
