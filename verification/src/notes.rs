//! Pitch encoding: MIDI note numbers to the chip's key-code / key-fraction pair.
//!
//! The key code packs an octave (0-7) into the high nibble and a chip note
//! number into the low nibble; the chip note numbers within an octave skip
//! one value after every third step, which `NOTE_TABLE` records.

use vstd::prelude::*;

verus! {

/// Chip note numbers for the twelve semitones of an octave, from C# up to C.
pub const NOTE_TABLE: [u8; 12] = [0, 1, 2, 4, 5, 6, 8, 9, 10, 12, 13, 14];

/// Chip note number for a semitone position within an octave: the values
/// 0..14 with every fourth value (3, 7, 11) skipped.
pub open spec fn spec_ym_note(i: int) -> u8
    recommends
        0 <= i < 12,
{
    if i < 3 {
        i as u8
    } else if i < 6 {
        (i + 1) as u8
    } else if i < 9 {
        (i + 2) as u8
    } else {
        (i + 3) as u8
    }
}

/// The note number shifted down one semitone to align MIDI and chip octaves;
/// note 0 stays at 0.
pub open spec fn spec_adjusted_note(note: u8) -> u8 {
    if note > 0 {
        (note - 1) as u8
    } else {
        0
    }
}

/// Chip octave for a MIDI note: one less than the MIDI octave of the
/// adjusted note, clamped to 0..=7.
pub open spec fn spec_octave(note: u8) -> u8 {
    let adjusted = spec_adjusted_note(note);
    let oct = if adjusted / 12 >= 1 {
        (adjusted / 12 - 1) as u8
    } else {
        0
    };
    if oct > 7 {
        7
    } else {
        oct
    }
}

/// The full key-code byte: octave in the high nibble, chip note in the low.
pub open spec fn spec_kc(note: u8) -> u8 {
    (spec_octave(note) * 16 + spec_ym_note(spec_adjusted_note(note) as int % 12)) as u8
}

/// Convert a MIDI note to the chip's key code and key fraction.
///
/// The key fraction is 0: an unmodulated note sits exactly on its semitone.
pub fn midi_to_kc_kf(midi_note: u8) -> (r: (u8, u8))
    ensures
        r.0 == spec_kc(midi_note),
        r.1 == 0,
{
    let adjusted: u8 = if midi_note > 0 {
        midi_note - 1
    } else {
        0
    };
    let mut midi_octave: u8 = adjusted / 12;
    if midi_octave >= 1 {
        midi_octave = midi_octave - 1;
    } else {
        midi_octave = 0;
    }
    if midi_octave > 7 {
        midi_octave = 7;
    }
    let note_in_octave: usize = (adjusted % 12) as usize;
    let ym_note: u8 = NOTE_TABLE[note_in_octave];
    assert(ym_note == spec_ym_note(note_in_octave as int));
    let kc: u8 = midi_octave * 16 + ym_note;
    (kc, 0)
}


/// Oscillation periods in nanoseconds for MIDI notes 0-11 (the lowest
/// octave, from 8.1758 Hz up); each octave above halves the period.
pub const BASE_PERIODS_NS: [u64; 12] = [
    122312205,
    115447349,
    108967787,
    102851895,
    97079262,
    91630621,
    86487790,
    81633603,
    77051861,
    72727272,
    68645404,
    64792634,
];

/// The period of a note in nanoseconds: the lowest octave's period halved
/// once per octave. Serves as the sampling step of the pitch effects.
pub open spec fn spec_period_ns(note: u8) -> u64 {
    BASE_PERIODS_NS[note as int % 12] >> (note as u64 / 12)
}

/// The period of a note in nanoseconds, always at least 1.
pub fn note_period_ns(note: u8) -> (r: u64)
    ensures
        r == spec_period_ns(note),
        r >= 1,
{
    let base = BASE_PERIODS_NS[(note % 12) as usize];
    let shift = (note / 12) as u64;
    assert(base >= 64792634 && shift <= 21);
    let r = base >> shift;
    proof {
        assert(base >> shift >= 1) by (bit_vector)
            requires
                base >= 64792634,
                shift <= 21u64,
        ;
    }
    r
}

/// The pitch a note with a modulation offset lands on, in milli-cents from
/// MIDI note 0, clamped to the representable note range.
pub open spec fn spec_mod_pitch_mc(note: u8, offset_mc: int) -> int {
    let p = note * 100_000 + offset_mc;
    if p < 0 {
        0
    } else if p > 12_799_999 {
        12_799_999
    } else {
        p
    }
}

/// The key code of a pitch in milli-cents: the key code of its semitone.
pub open spec fn spec_kc_of_mc(p: int) -> u8
    recommends
        0 <= p <= 12_799_999,
{
    spec_kc((p / 100_000) as u8)
}

/// The key fraction of a pitch in milli-cents: the fractional semitone in
/// 64ths, placed in the register's top six bits.
pub open spec fn spec_kf_of_mc(p: int) -> u8
    recommends
        0 <= p <= 12_799_999,
{
    ((p % 100_000) * 64 / 100_000 * 4) as u8
}

/// Key code and key fraction for a note shifted by a modulation offset in
/// milli-cents; 100_000 milli-cents make one semitone.
pub fn midi_note_with_offset_to_kc_kf(midi_note: u8, offset_mc: i64) -> (r: (u8, u8))
    ensures
        r.0 == spec_kc_of_mc(spec_mod_pitch_mc(midi_note, offset_mc as int)),
        r.1 == spec_kf_of_mc(spec_mod_pitch_mc(midi_note, offset_mc as int)),
{
    let total: i128 = (midi_note as i128) * 100_000 + (offset_mc as i128);
    let p: i128 = if total < 0 {
        0
    } else if total > 12_799_999 {
        12_799_999
    } else {
        total
    };
    let semi: u8 = (p / 100_000) as u8;
    let frac: u64 = (p % 100_000) as u64;
    let kf: u8 = (frac * 64 / 100_000 * 4) as u8;
    let (kc, _) = midi_to_kc_kf(semi);
    (kc, kf)
}

} // verus!

