use smf_to_ym2151log::allocate_channels;
use smf_to_ym2151log::analyze_polyphony;
use smf_to_ym2151log::MidiData;
use smf_to_ym2151log::MidiEvent;

fn polyphony_of(pairs: &[(usize, usize)]) -> Vec<usize> {
    let mut poly = vec![0usize; 16];
    for &(ch, p) in pairs {
        poly[ch] = p;
    }
    poly
}

#[test]
fn test_analyze_polyphony_single_note() {
    let midi_data = MidiData {
        ticks_per_beat: 480,
        tempo_bpm_milli: 120_000,
        events: vec![
            MidiEvent::NoteOn { ticks: 0, channel: 0, note: 60, velocity: 100 },
            MidiEvent::NoteOff { ticks: 480, channel: 0, note: 60 },
        ],
    };

    let polyphony = analyze_polyphony(&midi_data);
    assert_eq!(polyphony[0], 1);
}

#[test]
fn test_analyze_polyphony_chord() {
    let midi_data = MidiData {
        ticks_per_beat: 480,
        tempo_bpm_milli: 120_000,
        events: vec![
            MidiEvent::NoteOn { ticks: 0, channel: 0, note: 60, velocity: 100 },
            MidiEvent::NoteOn { ticks: 0, channel: 0, note: 64, velocity: 100 },
            MidiEvent::NoteOn { ticks: 0, channel: 0, note: 67, velocity: 100 },
            MidiEvent::NoteOff { ticks: 480, channel: 0, note: 60 },
            MidiEvent::NoteOff { ticks: 480, channel: 0, note: 64 },
            MidiEvent::NoteOff { ticks: 480, channel: 0, note: 67 },
        ],
    };

    let polyphony = analyze_polyphony(&midi_data);
    assert_eq!(polyphony[0], 3);
}

#[test]
fn test_analyze_polyphony_repeated_note_counts_once() {
    // The same note turned on twice is one active note.
    let midi_data = MidiData {
        ticks_per_beat: 480,
        tempo_bpm_milli: 120_000,
        events: vec![
            MidiEvent::NoteOn { ticks: 0, channel: 2, note: 60, velocity: 100 },
            MidiEvent::NoteOn { ticks: 10, channel: 2, note: 60, velocity: 90 },
            MidiEvent::NoteOff { ticks: 480, channel: 2, note: 60 },
        ],
    };

    let polyphony = analyze_polyphony(&midi_data);
    assert_eq!(polyphony[2], 1);
}

#[test]
fn test_allocate_channels_simple() {
    let polyphony = polyphony_of(&[(0, 1), (1, 1)]);

    let allocation = allocate_channels(&polyphony);

    // Each channel should get one voice.
    assert_eq!(allocation.midi_to_ym2151[0].len(), 1);
    assert_eq!(allocation.midi_to_ym2151[1].len(), 1);
}

#[test]
fn test_allocate_channels_with_drums() {
    let polyphony = polyphony_of(&[(0, 1), (9, 1)]);

    let allocation = allocate_channels(&polyphony);

    // The percussion channel (9) should get voice 0.
    assert_eq!(allocation.midi_to_ym2151[9][0], 0);
}

#[test]
fn test_allocate_channels_polyphonic() {
    let polyphony = polyphony_of(&[(0, 3)]);

    let allocation = allocate_channels(&polyphony);

    // Should allocate 3 voices.
    assert_eq!(allocation.midi_to_ym2151[0].len(), 3);
}

#[test]
fn test_allocate_full_map_lengths_and_ranges() {
    // Every channel's list has exactly its polyphony and every voice id is
    // in 0..8.
    let polyphony = polyphony_of(&[(0, 2), (3, 1), (9, 2), (12, 3)]);

    let allocation = allocate_channels(&polyphony);

    for ch in 0..16 {
        assert_eq!(allocation.midi_to_ym2151[ch].len(), polyphony[ch]);
        for &v in &allocation.midi_to_ym2151[ch] {
            assert!(v < 8);
        }
        assert_eq!(allocation.current_voice[ch], 0);
    }
    // Percussion holds voice 0.
    assert_eq!(allocation.midi_to_ym2151[9][0], 0);
}

#[test]
fn test_allocate_overflow_aliases_voice_seven() {
    // Demand beyond 8 voices aliases onto voice 7, entry for entry, so every
    // list keeps its channel's measured polyphony.
    let polyphony = polyphony_of(&[(0, 8), (1, 2)]);

    let allocation = allocate_channels(&polyphony);

    assert_eq!(allocation.midi_to_ym2151[0].len(), 8);
    // The later-ranked channel gets no fresh voices: both entries alias 7.
    assert_eq!(allocation.midi_to_ym2151[1], vec![7, 7]);
}

#[test]
fn test_allocate_overflow_within_one_channel() {
    // A single channel demanding more than the chip has gets the 8 real
    // voices and then voice 7 for each further required voice.
    let polyphony = polyphony_of(&[(0, 10)]);

    let allocation = allocate_channels(&polyphony);

    assert_eq!(allocation.midi_to_ym2151[0], vec![0, 1, 2, 3, 4, 5, 6, 7, 7, 7]);
}

#[test]
fn test_allocate_sorts_by_polyphony_descending() {
    // Channel 5 needs 3 voices, channel 2 needs 1: channel 5 is served first
    // and takes voices 0-2.
    let polyphony = polyphony_of(&[(2, 1), (5, 3)]);

    let allocation = allocate_channels(&polyphony);

    assert_eq!(allocation.midi_to_ym2151[5], vec![0, 1, 2]);
    assert_eq!(allocation.midi_to_ym2151[2], vec![3]);
}
