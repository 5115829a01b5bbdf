use smf_to_ym2151log::midi_to_kc_kf;
use smf_to_ym2151log::midi_note_with_offset_to_kc_kf;
use smf_to_ym2151log::note_period_ns;

#[test]
fn test_midi_to_kc_kf_middle_c() {
    // MIDI note 60 = C4 (Middle C)
    let (kc, kf) = midi_to_kc_kf(60);
    assert_eq!(kc, 0x3E); // Octave 3, Note C
    assert_eq!(kf, 0);
}

#[test]
fn test_midi_to_kc_kf_a440() {
    // MIDI note 69 = A4 (A440)
    let (kc, kf) = midi_to_kc_kf(69);
    assert_eq!(kc, 0x4A); // Octave 4, Note A
    assert_eq!(kf, 0);
}

#[test]
fn test_midi_to_kc_kf_octaves() {
    // C notes from different octaves
    let (kc, _) = midi_to_kc_kf(24); // C1
    assert_eq!(kc, 0x0E);

    let (kc, _) = midi_to_kc_kf(36); // C2
    assert_eq!(kc, 0x1E);

    let (kc, _) = midi_to_kc_kf(48); // C3
    assert_eq!(kc, 0x2E);

    let (kc, _) = midi_to_kc_kf(60); // C4
    assert_eq!(kc, 0x3E);

    let (kc, _) = midi_to_kc_kf(72); // C5
    assert_eq!(kc, 0x4E);

    let (kc, _) = midi_to_kc_kf(84); // C6
    assert_eq!(kc, 0x5E);

    let (kc, _) = midi_to_kc_kf(96); // C7
    assert_eq!(kc, 0x6E);
}

#[test]
fn test_midi_to_kc_kf_all_notes_in_octave() {
    // MIDI notes 60-71 map to: C, C#, D, D#, E, F, F#, G, G#, A, A#, B
    let base_midi = 60;
    let expected_ym_notes = [14, 0, 1, 2, 4, 5, 6, 8, 9, 10, 12, 13];

    for (i, &expected_note) in expected_ym_notes.iter().enumerate() {
        let (kc, kf) = midi_to_kc_kf(base_midi + i as u8);
        let note = kc & 0x0F;
        assert_eq!(note, expected_note, "Failed for note {}", i);
        assert_eq!(kf, 0);
    }
}

#[test]
fn test_midi_to_kc_kf_boundary_minimum() {
    let (kc, kf) = midi_to_kc_kf(0);
    assert_eq!(kf, 0);
    let octave = (kc >> 4) & 0x07;
    assert_eq!(octave, 0);
}

#[test]
fn test_midi_to_kc_kf_boundary_maximum() {
    let (kc, kf) = midi_to_kc_kf(127);
    assert_eq!(kf, 0);
    let octave = (kc >> 4) & 0x07;
    assert_eq!(octave, 7);
}

#[test]
fn test_midi_to_kc_kf_octave_clamping_high() {
    for midi_note in 108..=127 {
        let (kc, _) = midi_to_kc_kf(midi_note);
        let octave = (kc >> 4) & 0x07;
        assert_eq!(octave, 7, "Failed to clamp octave for MIDI note {}", midi_note);
    }
}

#[test]
fn test_offset_zero_matches_plain_conversion() {
    for note in [0u8, 36, 60, 69, 127] {
        assert_eq!(midi_note_with_offset_to_kc_kf(note, 0), midi_to_kc_kf(note));
    }
}

#[test]
fn test_offset_full_semitone_moves_key_code() {
    // 100 cents up from C4 is C#4.
    let up = midi_note_with_offset_to_kc_kf(60, 100_000);
    assert_eq!(up, midi_to_kc_kf(61));
}

#[test]
fn test_offset_half_semitone_sets_key_fraction() {
    // 50 cents is half of the 64-step fraction range, in the register's
    // top six bits.
    let (kc, kf) = midi_note_with_offset_to_kc_kf(60, 50_000);
    assert_eq!(kc, midi_to_kc_kf(60).0);
    assert_eq!(kf, 32 << 2);
}

#[test]
fn test_note_period_a440() {
    // A4 at 440 Hz has a period of about 2.2727 ms.
    let p = note_period_ns(69);
    assert!((2_272_000..2_273_000).contains(&p), "period was {}", p);
}
