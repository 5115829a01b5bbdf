use smf_to_ym2151log::convert_to_ym2151_log_with_options;
use smf_to_ym2151log::process_program_change;
use smf_to_ym2151log::allocate_channels;
use smf_to_ym2151log::AttackContinuationFix;
use smf_to_ym2151log::ConversionOptions;
use smf_to_ym2151log::EventProcessorContext;
use smf_to_ym2151log::MidiData;
use smf_to_ym2151log::MidiEvent;
use smf_to_ym2151log::PopNoiseEnvelope;
use smf_to_ym2151log::ProgramEffectOverrides;
use smf_to_ym2151log::RegisterOverride;
use smf_to_ym2151log::TempoChange;
use smf_to_ym2151log::ToneTable;
use smf_to_ym2151log::Ym2151Event;

fn late_note_data() -> MidiData {
    // One note starting half a second in (tick 480 at 120 BPM).
    MidiData {
        ticks_per_beat: 480,
        tempo_bpm_milli: 120_000,
        events: vec![
            MidiEvent::NoteOn { ticks: 480, channel: 0, note: 60, velocity: 100 },
            MidiEvent::NoteOff { ticks: 960, channel: 0, note: 60 },
        ],
    }
}

#[test]
fn test_pop_noise_envelope_overrides_and_restores() {
    let midi_data = late_note_data();

    let options = ConversionOptions {
        pop_noise_envelope: Some(PopNoiseEnvelope {
            enabled: true,
            offset_ns: 10_000_000, // 10 ms before the note
            registers: vec![RegisterOverride {
                base_register: "0x60".to_string(),
                value: "0x7F".to_string(),
            }],
        }),
        ..ConversionOptions::default()
    };

    let result = convert_to_ym2151_log_with_options(&midi_data, &options).unwrap();

    // The override lands 10 ms before the note start (0.49 s = 27405
    // samples); the initialization wrote 0x00 there, so it is restored just
    // before the note (27964 samples).
    let override_write = result
        .events
        .iter()
        .find(|e| e.addr == "0x60" && e.data == "0x7F")
        .expect("Should force the override value before the note");
    assert_eq!(override_write.time, 27405);

    let restore_write = result
        .events
        .iter()
        .find(|e| e.addr == "0x60" && e.data == "0x00" && e.time > 27405)
        .expect("Should restore the pre-effect value");
    assert_eq!(restore_write.time, 27964);
}

#[test]
fn test_pop_noise_skips_matching_value() {
    let midi_data = late_note_data();

    // The initialization already leaves 0x00 in the register: no writes.
    let options = ConversionOptions {
        pop_noise_envelope: Some(PopNoiseEnvelope {
            enabled: true,
            offset_ns: 10_000_000,
            registers: vec![RegisterOverride {
                base_register: "0x60".to_string(),
                value: "0x00".to_string(),
            }],
        }),
        ..ConversionOptions::default()
    };

    let result = convert_to_ym2151_log_with_options(&midi_data, &options).unwrap();

    // 8 key-offs + 26 init + 3 + 1 and nothing more.
    assert_eq!(result.event_count, 38);
}

#[test]
fn test_attack_continuation_fix_forces_release() {
    let midi_data = late_note_data();

    let options = ConversionOptions {
        attack_continuation_fix: Some(AttackContinuationFix {
            enabled: true,
            offset_ns: 10_000_000,
            release_rate: 0xFF,
        }),
        ..ConversionOptions::default()
    };

    let result = convert_to_ym2151_log_with_options(&midi_data, &options).unwrap();

    // The four release-rate registers of voice 0 hold 0xF7 from the
    // initialization, so all four are forced to 0xFF at 27405 samples...
    let forced: Vec<&Ym2151Event> =
        result.events.iter().filter(|e| e.time == 27405 && e.data == "0xFF").collect();
    assert_eq!(forced.len(), 4);
    for (i, addr) in ["0xE0", "0xE8", "0xF0", "0xF8"].iter().enumerate() {
        assert_eq!(&forced[i].addr, addr);
    }

    // ... a key-off for the voice lands at the same time ...
    assert!(
        result.events.iter().any(|e| e.time == 27405 && e.addr == "0x08" && e.data == "0x00"),
        "Should key the voice off with the forced release"
    );

    // ... and the original rates come back just before the note.
    let restored: Vec<&Ym2151Event> =
        result.events.iter().filter(|e| e.time == 27964 && e.data == "0xF7").collect();
    assert_eq!(restored.len(), 4);
}

#[test]
fn test_attack_fix_skips_when_release_matches() {
    let midi_data = late_note_data();

    // The initialization leaves 0xF7 in the release registers: forcing 0xF7
    // changes nothing, so the whole fix is skipped.
    let options = ConversionOptions {
        attack_continuation_fix: Some(AttackContinuationFix {
            enabled: true,
            offset_ns: 10_000_000,
            release_rate: 0xF7,
        }),
        ..ConversionOptions::default()
    };

    let result = convert_to_ym2151_log_with_options(&midi_data, &options).unwrap();

    assert_eq!(result.event_count, 38);
}

#[test]
fn test_program_override_disables_vibrato() {
    // Vibrato is on globally but switched off for program 0, which every
    // voice starts on: a long note gains no extra pitch writes.
    let midi_data = MidiData {
        ticks_per_beat: 480,
        tempo_bpm_milli: 120_000,
        events: vec![
            MidiEvent::NoteOn { ticks: 0, channel: 0, note: 69, velocity: 100 },
            MidiEvent::NoteOff { ticks: 1920, channel: 0, note: 69 },
        ],
    };

    let mut options = ConversionOptions { delay_vibrato: true, ..ConversionOptions::default() };
    options.program_overrides.insert(
        0,
        ProgramEffectOverrides {
            delay_vibrato: Some(false),
            portamento: None,
            pop_noise_envelope: None,
            attack_continuation_fix: None,
            software_lfo: None,
        },
    );

    let result = convert_to_ym2151_log_with_options(&midi_data, &options).unwrap();

    // 8 key-offs + 26 init + 3 + 1 and no vibrato samples.
    assert_eq!(result.event_count, 38);
}

#[test]
fn test_program_change_emits_default_block_at_converted_time() {
    // A program change with no attached tone emits exactly the 26-register
    // default block at the change's converted time and updates the voice's
    // program record.
    let mut poly = vec![0usize; 16];
    poly[0] = 1;
    let mut ctx = EventProcessorContext {
        ticks_per_beat: 480,
        tempo_map: vec![TempoChange { tick: 0, tempo_bpm_milli: 120_000 }],
        allocation: allocate_channels(&poly),
        active_notes: vec![false; 1024],
        channel_programs: vec![0; 8],
        note_start: vec![None; 1024],
        completed_notes: Vec::new(),
        tones: ToneTable::new(),
    };

    let events = process_program_change(480, 0, 42, &mut ctx);

    assert_eq!(events.len(), 26);
    for w in &events {
        assert_eq!(w.time, 500_000_000); // tick 480 at 120 BPM, in nanoseconds
    }
    // The block starts with the stereo/feedback register of voice 0.
    assert_eq!(events[0].addr, 0x20);
    assert_eq!(events[0].data, 0xC7);
    assert_eq!(ctx.channel_programs[0], 42);
}
