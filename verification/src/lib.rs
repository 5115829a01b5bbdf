//! Conversion of timestamped MIDI-style note, tempo and program events into an
//! ordered log of YM2151 register writes.
//!
//! The pipeline: polyphony analysis over the event list, allocation of the
//! chip's 8 voices to input channels, a single forward pass turning events
//! into base register writes plus note segments, and a family of
//! post-processing effects (delayed vibrato, portamento, software LFO,
//! pop-noise envelope, attack-continuation fix) that append further writes.
//! The final log is stably sorted by time.
//!
//! Time is measured in integer nanoseconds throughout the core; the output
//! log carries sample counts at the chip's 55930 Hz rate.

pub mod cache;
pub mod channel_allocation;
pub mod converter;
pub mod event_processor;
pub mod events;
pub mod hex;
pub mod notes;
pub mod options;
pub mod pitch_effects;
pub mod register_effects;
pub mod tempo_map;
pub mod tone;
pub mod waveform;

pub use cache::{build_register_state_cache, RegisterStateCache};
pub use channel_allocation::{allocate_channels, analyze_polyphony, ChannelAllocation};
pub use converter::{convert_to_ym2151_log, convert_to_ym2151_log_with_options, render_writes, sort_writes};
pub use event_processor::{process_event, process_note_off, process_note_on, process_program_change, EventProcessorContext};
pub use events::{Error, MidiData, MidiEvent, NoteOnInfo, NoteSegment, RegisterWrite, TempoChange, Ym2151Event, Ym2151Log};
pub use hex::{parse_hex_byte, to_hex_byte};
pub use notes::{midi_note_with_offset_to_kc_kf, midi_to_kc_kf, note_period_ns, NOTE_TABLE};
pub use options::{AttackContinuationFix, ConversionOptions, LfoWaveform, OverrideTable, PopNoiseEnvelope, ProgramEffectOverrides, RegisterLfoDefinition, RegisterOverride, ToneTable};
pub use pitch_effects::{append_delay_vibrato_events, append_portamento_events, sort_segments};
pub use register_effects::{append_attack_continuation_fix_events, append_pop_noise_envelope_events, append_register_lfo_events};
pub use tempo_map::{build_tempo_map, nanoseconds_to_samples, tempo_to_bpm_milli, ticks_to_nanoseconds, ticks_to_nanoseconds_with_tempo_map, ticks_to_samples, ticks_to_samples_with_tempo_map, YM2151_SAMPLE_RATE};
pub use tone::{apply_tone_to_channel, default_tone_events, initialize_channel_events, resolve_register_for_channel, ToneDefinition};
pub use waveform::{lfo_waveform_value, triangle_wave};
