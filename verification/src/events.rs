//! Data model: input events, tempo changes, register writes, note segments
//! and the output log.
//!
//! Time units: input events carry ticks (`u32`); the conversion core works in
//! integer nanoseconds (`u64`); the output log carries sample counts at the
//! chip's 55930 Hz rate. Tempo is carried in milli-beats-per-minute, so a
//! tempo of 120 BPM is stored as 120_000.

use vstd::prelude::*;

verus! {

/// A parsed input event. Ticks are assumed non-decreasing across the stream.
#[derive(Debug, Clone, PartialEq, Eq, Structural)]
pub enum MidiEvent {
    /// A note starts sounding on an input channel.
    NoteOn { ticks: u32, channel: u8, note: u8, velocity: u8 },
    /// A note stops sounding on an input channel.
    NoteOff { ticks: u32, channel: u8, note: u8 },
    /// The tempo changes, in milli-beats-per-minute.
    Tempo { ticks: u32, tempo_bpm_milli: u32 },
    /// The timbre of an input channel changes.
    ProgramChange { ticks: u32, channel: u8, program: u8 },
}

/// A parsed input stream: timing resolution, initial tempo and events.
#[derive(Debug, Clone)]
pub struct MidiData {
    /// Ticks per quarter note.
    pub ticks_per_beat: u16,
    /// Initial tempo in milli-beats-per-minute.
    pub tempo_bpm_milli: u32,
    /// The events, with non-decreasing ticks.
    pub events: Vec<MidiEvent>,
}

/// One entry of a tempo map: from `tick` on, the tempo is `tempo_bpm_milli`.
#[derive(Debug, Clone, Copy, PartialEq, Eq, Structural)]
pub struct TempoChange {
    pub tick: u32,
    pub tempo_bpm_milli: u32,
}

/// A register write in the core's working form: time in nanoseconds, address
/// and data as plain bytes.
#[derive(Debug, Clone, Copy, PartialEq, Eq, Structural)]
pub struct RegisterWrite {
    /// Time of the write in nanoseconds.
    pub time: u64,
    /// Register address.
    pub addr: u8,
    /// Data byte written.
    pub data: u8,
}

/// A register write in the output log's form: time as a sample count at
/// 55930 Hz, address and data as hexadecimal strings such as `0x2E`.
#[derive(Debug, Clone, PartialEq)]
pub struct Ym2151Event {
    /// Sample time at 55930 Hz.
    pub time: u32,
    /// Register address in `0xXX` form.
    pub addr: String,
    /// Data byte in `0xXX` form.
    pub data: String,
}

/// The output log: the register writes in time order.
#[derive(Debug, Clone)]
pub struct Ym2151Log {
    /// Number of events in `events`.
    pub event_count: usize,
    /// The register writes, ascending by time, ties kept in emission order.
    pub events: Vec<Ym2151Event>,
}

/// The recorded lifespan of one note on one chip voice, with times in
/// nanoseconds. Consumed by the effect passes.
#[derive(Debug, Clone, Copy, PartialEq, Eq, Structural)]
pub struct NoteSegment {
    /// The chip voice the note sounded on.
    pub ym2151_channel: u8,
    /// The MIDI note number.
    pub note: u8,
    pub start_tick: u32,
    pub end_tick: u32,
    /// Start of the note in nanoseconds.
    pub start_time: u64,
    /// End of the note in nanoseconds.
    pub end_time: u64,
    /// The voice's program when the note started.
    pub program: u8,
}

/// Start-of-note bookkeeping held while a note is sounding, used to build a
/// `NoteSegment` when the note ends.
#[derive(Debug, Clone, Copy, PartialEq, Eq, Structural)]
pub struct NoteOnInfo {
    pub start_tick: u32,
    /// Start of the note in nanoseconds.
    pub start_time: u64,
    /// The voice's program when the note started.
    pub program: u8,
}

/// The library's error type. Conversion itself never fails; loaders that
/// precede it report malformed option or attachment data through this type.
#[derive(Debug, Clone, PartialEq)]
pub enum Error {
    /// The input stream could not be understood.
    MidiParse(String),
    /// An option or attachment value is malformed.
    InvalidParameter(String),
    /// Any other failure.
    Other(String),
}

impl Error {
    /// A human-readable description of the error.
    pub fn message(&self) -> (r: String)
        ensures
            r@ == match self {
                Error::MidiParse(m) => m@,
                Error::InvalidParameter(m) => m@,
                Error::Other(m) => m@,
            },
    {
        match self {
            Error::MidiParse(m) => m.clone(),
            Error::InvalidParameter(m) => m.clone(),
            Error::Other(m) => m.clone(),
        }
    }
}

} // verus!
