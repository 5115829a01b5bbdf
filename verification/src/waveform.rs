//! Waveform sampling for the modulation effects, in integer units: a phase
//! is billionths of one cycle, a value is millionths of full scale.

use vstd::prelude::*;
use crate::options::LfoWaveform;

verus! {

/// One cycle of phase, in billionths.
pub const PHASE_CYCLE_E9: u64 = 1_000_000_000;

/// Full scale of a waveform value, in millionths.
pub const WAVE_UNIT_MICRO: i64 = 1_000_000;

/// A triangle wave over one cycle: up from 0 to full scale in the first
/// quarter, down through 0 to negative full scale by the third quarter, and
/// back to 0.
pub open spec fn spec_triangle(phase_e9: u64) -> int
    recommends
        phase_e9 < PHASE_CYCLE_E9,
{
    if phase_e9 < 250_000_000 {
        phase_e9 * 4 / 1000
    } else if phase_e9 < 500_000_000 {
        1_000_000 - (phase_e9 - 250_000_000) * 4 / 1000
    } else if phase_e9 < 750_000_000 {
        -((phase_e9 - 500_000_000) * 4 / 1000)
    } else {
        -1_000_000 + (phase_e9 - 750_000_000) * 4 / 1000
    }
}

/// The value a waveform takes at a phase.
pub open spec fn spec_waveform(waveform: LfoWaveform, phase_e9: u64) -> int {
    match waveform {
        LfoWaveform::Triangle => spec_triangle(phase_e9),
    }
}

/// Sample the triangle wave at a phase in billionths of a cycle; the value
/// is in millionths of full scale.
pub fn triangle_wave(phase_e9: u64) -> (r: i64)
    requires
        phase_e9 < PHASE_CYCLE_E9,
    ensures
        r == spec_triangle(phase_e9),
        -1_000_000 <= r <= 1_000_000,
{
    if phase_e9 < 250_000_000 {
        (phase_e9 * 4 / 1000) as i64
    } else if phase_e9 < 500_000_000 {
        1_000_000 - ((phase_e9 - 250_000_000) * 4 / 1000) as i64
    } else if phase_e9 < 750_000_000 {
        -(((phase_e9 - 500_000_000) * 4 / 1000) as i64)
    } else {
        -1_000_000 + ((phase_e9 - 750_000_000) * 4 / 1000) as i64
    }
}

/// Sample a waveform at a phase in billionths of a cycle.
pub fn lfo_waveform_value(waveform: LfoWaveform, phase_e9: u64) -> (r: i64)
    requires
        phase_e9 < PHASE_CYCLE_E9,
    ensures
        r == spec_waveform(waveform, phase_e9),
        -1_000_000 <= r <= 1_000_000,
{
    match waveform {
        LfoWaveform::Triangle => triangle_wave(phase_e9),
    }
}

} // verus!
