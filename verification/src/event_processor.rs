//! The event-driven register-write state machine: one forward pass over the
//! event list, tracking which note sounds on which voice, emitting base
//! register writes and recording note segments.

use vstd::prelude::*;
use crate::channel_allocation::ChannelAllocation;
use crate::channel_allocation::wf_allocation;
use crate::events::MidiEvent;
use crate::events::NoteOnInfo;
use crate::events::NoteSegment;
use crate::events::RegisterWrite;
use crate::events::TempoChange;
use crate::events::Ym2151Event;
use crate::notes::spec_kc;
use crate::notes::midi_to_kc_kf;
use crate::options::ToneTable;
use crate::options::spec_tones_model;
use crate::options::spec_lookup;
use crate::options::lemma_lookup_model;
use crate::tempo_map::spec_time_ns;
use crate::tempo_map::ticks_to_nanoseconds_with_tempo_map;
use crate::tone::spec_tone_bytes;
use crate::tone::spec_tone_writes;
use crate::tone::spec_default_tone;
use crate::tone::default_tone_writes;
use crate::tone::tone_writes;

verus! {

/// The processor's working state and read-only surroundings: timing, the
/// voice allocation, the per-(voice, note) sounding flags, each voice's
/// current program, start bookkeeping for sounding notes, the segments
/// recorded so far, and the attached tones.
#[derive(Debug)]
pub struct EventProcessorContext {
    /// Ticks per quarter note.
    pub ticks_per_beat: u16,
    /// The tempo map used for tick-to-time conversion.
    pub tempo_map: Vec<TempoChange>,
    /// Which voices serve which input channel.
    pub allocation: ChannelAllocation,
    /// Sounding flags, one per (voice, note) pair, at index `voice * 128 + note`.
    pub active_notes: Vec<bool>,
    /// Each voice's current program.
    pub channel_programs: Vec<u8>,
    /// Start bookkeeping per (voice, note) pair, at index `voice * 128 + note`.
    pub note_start: Vec<Option<NoteOnInfo>>,
    /// The note segments recorded so far.
    pub completed_notes: Vec<NoteSegment>,
    /// Tones attached per program.
    pub tones: ToneTable,
}

/// A well-formed context: a well-formed allocation, one flag and one start
/// slot per (voice, note) pair, one program per voice, and every recorded
/// segment on a real voice.
pub open spec fn wf_context(ctx: EventProcessorContext) -> bool {
    &&& wf_allocation(ctx.allocation)
    &&& ctx.active_notes@.len() == 1024
    &&& ctx.note_start@.len() == 1024
    &&& ctx.channel_programs@.len() == 8
    &&& forall|i: int|
        0 <= i < ctx.completed_notes@.len() ==> (#[trigger] ctx.completed_notes@[i]).ym2151_channel
            < 8
}

/// The processor's mutable state, as mathematical sequences.
#[verifier::ext_equal]
pub struct ProcState {
    /// Voice list per input channel.
    pub rows: Seq<Seq<u8>>,
    /// Round-robin cursor per input channel.
    pub cursors: Seq<nat>,
    /// Sounding flag per (voice, note) pair, at `voice * 128 + note`.
    pub active: Seq<bool>,
    /// Current program per voice.
    pub programs: Seq<u8>,
    /// Start bookkeeping per (voice, note) pair.
    pub starts: Seq<Option<NoteOnInfo>>,
    /// The segments recorded so far.
    pub segments: Seq<NoteSegment>,
}

/// The state a context holds.
pub open spec fn ctx_state(ctx: EventProcessorContext) -> ProcState {
    ProcState {
        rows: Seq::new(16, |ch: int| ctx.allocation.midi_to_ym2151@[ch]@),
        cursors: Seq::new(16, |ch: int| ctx.allocation.current_voice@[ch] as nat),
        active: ctx.active_notes@,
        programs: ctx.channel_programs@,
        starts: ctx.note_start@,
        segments: ctx.completed_notes@,
    }
}

/// The parts of a context the processor never changes: timing, tones, and
/// the voice lists themselves.
pub open spec fn spec_config_unchanged(
    pre: EventProcessorContext,
    post: EventProcessorContext,
) -> bool {
    &&& post.ticks_per_beat == pre.ticks_per_beat
    &&& post.tempo_map@ == pre.tempo_map@
    &&& spec_tones_model(post.tones) == spec_tones_model(pre.tones)
}

/// The three writes a note-on emits: key code, key fraction 0, and key-on
/// with all four operators enabled.
pub open spec fn spec_note_on_writes(voice: u8, note: u8, t: u64) -> Seq<RegisterWrite>
    recommends
        voice < 8,
{
    seq![
        RegisterWrite { time: t, addr: (0x28 + voice) as u8, data: spec_kc(note) },
        RegisterWrite { time: t, addr: (0x30 + voice) as u8, data: 0 },
        RegisterWrite { time: t, addr: 0x08, data: (0x78 + voice) as u8 },
    ]
}

/// What a note-on does: nothing for velocity 0, an out-of-range channel or
/// note, or a channel with no voices; otherwise the round-robin voice is
/// picked, the cursor advances, the three writes are emitted at the
/// converted time, and the (voice, note) pair starts sounding.
pub open spec fn spec_note_on(
    map: Seq<TempoChange>,
    ticks_per_beat: u16,
    st: ProcState,
    ticks: u32,
    channel: u8,
    note: u8,
    velocity: u8,
) -> (ProcState, Seq<RegisterWrite>) {
    if velocity == 0 || channel >= 16 || note >= 128 {
        (st, Seq::<RegisterWrite>::empty())
    } else {
        let voices = st.rows[channel as int];
        if voices.len() == 0 {
            (st, Seq::<RegisterWrite>::empty())
        } else {
            let cur = st.cursors[channel as int] % voices.len();
            let voice = voices[cur as int];
            let t = spec_time_ns(map, ticks_per_beat, ticks);
            let idx = voice * 128 + note;
            let info = NoteOnInfo {
                start_tick: ticks,
                start_time: t,
                program: st.programs[voice as int],
            };
            (
                ProcState {
                    cursors: st.cursors.update(channel as int, (cur + 1) % voices.len()),
                    active: st.active.update(idx as int, true),
                    starts: st.starts.update(idx as int, Some(info)),
                    ..st
                },
                spec_note_on_writes(voice, note, t),
            )
        }
    }
}

/// The position in a voice list of the first voice sounding `note`, from
/// position `k` on.
pub open spec fn spec_first_active(active: Seq<bool>, voices: Seq<u8>, note: u8, k: int) -> Option<
    int,
>
    decreases voices.len() - k,
{
    if k < 0 || k >= voices.len() {
        None
    } else if active[voices[k] * 128 + note] {
        Some(k)
    } else {
        spec_first_active(active, voices, note, k + 1)
    }
}

/// What a note-off does: the channel's voice list is scanned in order for
/// the first voice sounding the note; that voice gets a key-off write at the
/// converted time, stops sounding, and its recorded start becomes a segment.
/// With no sounding voice (or an out-of-range channel or note), nothing
/// happens.
pub open spec fn spec_note_off(
    map: Seq<TempoChange>,
    ticks_per_beat: u16,
    st: ProcState,
    ticks: u32,
    channel: u8,
    note: u8,
) -> (ProcState, Seq<RegisterWrite>) {
    if channel >= 16 || note >= 128 {
        (st, Seq::<RegisterWrite>::empty())
    } else {
        let voices = st.rows[channel as int];
        match spec_first_active(st.active, voices, note, 0) {
            None => (st, Seq::<RegisterWrite>::empty()),
            Some(k) => {
                let voice = voices[k];
                let t = spec_time_ns(map, ticks_per_beat, ticks);
                let idx = voice * 128 + note;
                let segments = match st.starts[idx as int] {
                    Some(info) => st.segments.push(
                        NoteSegment {
                            ym2151_channel: voice,
                            note,
                            start_tick: info.start_tick,
                            end_tick: ticks,
                            start_time: info.start_time,
                            end_time: t,
                            program: info.program,
                        },
                    ),
                    None => st.segments,
                };
                (
                    ProcState {
                        active: st.active.update(idx as int, false),
                        starts: st.starts.update(idx as int, None),
                        segments,
                        ..st
                    },
                    seq![RegisterWrite { time: t, addr: 0x08, data: voice }],
                )
            },
        }
    }
}

/// The writes a program change emits for one voice: the attached tone
/// retargeted onto the voice when one is attached and every event of it
/// parses; the default tone block otherwise.
pub open spec fn spec_voice_tone_writes(
    tone: Option<Seq<Ym2151Event>>,
    voice: u8,
    t: u64,
) -> Seq<RegisterWrite> {
    match tone {
        Some(evs) => match spec_tone_bytes(evs) {
            Some(pairs) => spec_tone_writes(pairs, voice, t),
            None => spec_default_tone(voice, t),
        },
        None => spec_default_tone(voice, t),
    }
}

/// The writes a program change emits for the voices from position `k` on.
pub open spec fn spec_program_writes(
    tone: Option<Seq<Ym2151Event>>,
    voices: Seq<u8>,
    t: u64,
    k: int,
) -> Seq<RegisterWrite>
    decreases voices.len() - k,
{
    if k < 0 || k >= voices.len() {
        Seq::<RegisterWrite>::empty()
    } else {
        spec_voice_tone_writes(tone, voices[k], t) + spec_program_writes(tone, voices, t, k + 1)
    }
}

/// The programs after a change: every voice in the list takes the program.
pub open spec fn spec_programs_after(programs: Seq<u8>, voices: Seq<u8>, program: u8) -> Seq<u8> {
    Seq::new(
        programs.len(),
        |v: int| if voices.contains(v as u8) {
            program
        } else {
            programs[v]
        },
    )
}

/// What a program change does: every voice of the channel, sounding or not,
/// gets the resolved tone's writes at the converted time and has its current
/// program updated. An out-of-range channel does nothing.
pub open spec fn spec_program_change(
    map: Seq<TempoChange>,
    ticks_per_beat: u16,
    tones: Seq<(u8, Seq<Ym2151Event>)>,
    st: ProcState,
    ticks: u32,
    channel: u8,
    program: u8,
) -> (ProcState, Seq<RegisterWrite>) {
    if channel >= 16 {
        (st, Seq::<RegisterWrite>::empty())
    } else {
        let voices = st.rows[channel as int];
        let t = spec_time_ns(map, ticks_per_beat, ticks);
        let tone = spec_lookup(tones, program);
        (
            ProcState { programs: spec_programs_after(st.programs, voices, program), ..st },
            spec_program_writes(tone, voices, t, 0),
        )
    }
}

/// What one event does to the state and which writes it emits. Tempo events
/// emit nothing here: they were folded into the tempo map.
pub open spec fn spec_step(
    map: Seq<TempoChange>,
    ticks_per_beat: u16,
    tones: Seq<(u8, Seq<Ym2151Event>)>,
    st: ProcState,
    event: MidiEvent,
) -> (ProcState, Seq<RegisterWrite>) {
    match event {
        MidiEvent::NoteOn { ticks, channel, note, velocity } => spec_note_on(
            map,
            ticks_per_beat,
            st,
            ticks,
            channel,
            note,
            velocity,
        ),
        MidiEvent::NoteOff { ticks, channel, note } => spec_note_off(
            map,
            ticks_per_beat,
            st,
            ticks,
            channel,
            note,
        ),
        MidiEvent::ProgramChange { ticks, channel, program } => spec_program_change(
            map,
            ticks_per_beat,
            tones,
            st,
            ticks,
            channel,
            program,
        ),
        MidiEvent::Tempo { .. } => (st, Seq::<RegisterWrite>::empty()),
    }
}

/// Append a copy of every write in `src` to `out`.
pub fn extend_writes(out: &mut Vec<RegisterWrite>, src: &Vec<RegisterWrite>)
    ensures
        final(out)@ == old(out)@ + src@,
{
    let n = src.len();
    let mut i: usize = 0;
    while i < n
        invariant
            n == src@.len(),
            0 <= i <= n,
            out@ == old(out)@ + src@.subrange(0, i as int),
        decreases n - i,
    {
        out.push(src[i]);
        proof {
            assert(old(out)@ + src@.subrange(0, i + 1 as int) =~= (old(out)@ + src@.subrange(
                0,
                i as int,
            )).push(src@[i as int]));
        }
        i = i + 1;
    }
    proof {
        assert(src@.subrange(0, n as int) =~= src@);
    }
}

/// Process a note-on: pick the channel's round-robin voice, emit key code,
/// key fraction and key-on at the converted time, and mark the note
/// sounding. Velocity 0 and unallocated or out-of-range channels emit
/// nothing.
pub fn process_note_on(
    ticks: u32,
    channel: u8,
    note: u8,
    velocity: u8,
    ctx: &mut EventProcessorContext,
) -> (events: Vec<RegisterWrite>)
    requires
        wf_context(*old(ctx)),
    ensures
        wf_context(*final(ctx)),
        spec_config_unchanged(*old(ctx), *final(ctx)),
        ctx_state(*final(ctx)) == spec_note_on(
            old(ctx).tempo_map@,
            old(ctx).ticks_per_beat,
            ctx_state(*old(ctx)),
            ticks,
            channel,
            note,
            velocity,
        ).0,
        events@ == spec_note_on(
            old(ctx).tempo_map@,
            old(ctx).ticks_per_beat,
            ctx_state(*old(ctx)),
            ticks,
            channel,
            note,
            velocity,
        ).1,
{
    let mut events: Vec<RegisterWrite> = Vec::new();
    if velocity == 0 || channel >= 16 || note >= 128 {
        return events;
    }
    let ch = channel as usize;
    let len = ctx.allocation.midi_to_ym2151[ch].len();
    if len == 0 {
        proof {
            assert(ctx_state(*ctx).rows[channel as int].len() == 0);
        }
        return events;
    }
    let cur = ctx.allocation.current_voice[ch] % len;
    let voice = ctx.allocation.midi_to_ym2151[ch][cur];
    proof {
        assert(ctx.allocation.midi_to_ym2151@[ch as int]@[cur as int] < 8);
    }
    let t = ticks_to_nanoseconds_with_tempo_map(ticks, ctx.ticks_per_beat, &ctx.tempo_map);
    let (kc, kf) = midi_to_kc_kf(note);
    events.push(RegisterWrite { time: t, addr: 0x28 + voice, data: kc });
    events.push(RegisterWrite { time: t, addr: 0x30 + voice, data: kf });
    events.push(RegisterWrite { time: t, addr: 0x08, data: 0x78 + voice });
    ctx.allocation.current_voice.set(ch, (cur + 1) % len);
    let idx = (voice as usize) * 128 + (note as usize);
    ctx.active_notes.set(idx, true);
    let program = ctx.channel_programs[voice as usize];
    ctx.note_start.set(idx, Some(NoteOnInfo { start_tick: ticks, start_time: t, program }));
    proof {
        let pre = ctx_state(*old(ctx));
        let target = spec_note_on(
            old(ctx).tempo_map@,
            old(ctx).ticks_per_beat,
            pre,
            ticks,
            channel,
            note,
            velocity,
        );
        assert(ctx_state(*ctx).rows =~= target.0.rows);
        assert(ctx_state(*ctx).cursors =~= target.0.cursors);
        assert(ctx_state(*ctx).active =~= target.0.active);
        assert(ctx_state(*ctx).programs =~= target.0.programs);
        assert(ctx_state(*ctx).starts =~= target.0.starts);
        assert(ctx_state(*ctx).segments =~= target.0.segments);
        assert(ctx_state(*ctx) =~= target.0);
        assert(events@ =~= target.1);
    }
    events
}

/// Process a note-off: scan the channel's voices in order, key off the first
/// voice sounding the note, and record its segment. With nothing sounding,
/// nothing is emitted.
pub fn process_note_off(
    ticks: u32,
    channel: u8,
    note: u8,
    ctx: &mut EventProcessorContext,
) -> (events: Vec<RegisterWrite>)
    requires
        wf_context(*old(ctx)),
    ensures
        wf_context(*final(ctx)),
        spec_config_unchanged(*old(ctx), *final(ctx)),
        ctx_state(*final(ctx)) == spec_note_off(
            old(ctx).tempo_map@,
            old(ctx).ticks_per_beat,
            ctx_state(*old(ctx)),
            ticks,
            channel,
            note,
        ).0,
        events@ == spec_note_off(
            old(ctx).tempo_map@,
            old(ctx).ticks_per_beat,
            ctx_state(*old(ctx)),
            ticks,
            channel,
            note,
        ).1,
{
    let mut events: Vec<RegisterWrite> = Vec::new();
    if channel >= 16 || note >= 128 {
        return events;
    }
    let ch = channel as usize;
    let len = ctx.allocation.midi_to_ym2151[ch].len();
    let ghost voices = ctx_state(*ctx).rows[channel as int];
    let mut k: usize = 0;
    while k < len
        invariant
            wf_context(*ctx),
            ctx == old(ctx),
            channel < 16,
            note < 128,
            ch == channel as usize,
            len == ctx.allocation.midi_to_ym2151@[ch as int]@.len(),
            voices == ctx_state(*ctx).rows[channel as int],
            0 <= k <= len,
            events@ =~= Seq::<RegisterWrite>::empty(),
            spec_first_active(ctx_state(*ctx).active, voices, note, 0) == spec_first_active(
                ctx_state(*ctx).active,
                voices,
                note,
                k as int,
            ),
        decreases len - k,
    {
        let voice = ctx.allocation.midi_to_ym2151[ch][k];
        proof {
            assert(ctx.allocation.midi_to_ym2151@[ch as int]@[k as int] < 8);
        }
        let idx = (voice as usize) * 128 + (note as usize);
        if ctx.active_notes[idx] {
            let t = ticks_to_nanoseconds_with_tempo_map(ticks, ctx.ticks_per_beat, &ctx.tempo_map);
            events.push(RegisterWrite { time: t, addr: 0x08, data: voice });
            ctx.active_notes.set(idx, false);
            match ctx.note_start[idx] {
                Some(info) => {
                    ctx.completed_notes.push(
                        NoteSegment {
                            ym2151_channel: voice,
                            note,
                            start_tick: info.start_tick,
                            end_tick: ticks,
                            start_time: info.start_time,
                            end_time: t,
                            program: info.program,
                        },
                    );
                },
                None => {},
            }
            ctx.note_start.set(idx, None);
            proof {
                let pre = ctx_state(*old(ctx));
                let target = spec_note_off(
                    old(ctx).tempo_map@,
                    old(ctx).ticks_per_beat,
                    pre,
                    ticks,
                    channel,
                    note,
                );
                assert(spec_first_active(pre.active, voices, note, k as int) == Some(k as int));
                assert(ctx_state(*ctx).rows =~= target.0.rows);
                assert(ctx_state(*ctx).cursors =~= target.0.cursors);
                assert(ctx_state(*ctx).active =~= target.0.active);
                assert(ctx_state(*ctx).programs =~= target.0.programs);
                assert(ctx_state(*ctx).starts =~= target.0.starts);
                assert(ctx_state(*ctx).segments =~= target.0.segments);
                assert(ctx_state(*ctx) =~= target.0);
                assert(events@ =~= target.1);
            }
            return events;
        }
        k = k + 1;
    }
    proof {
        assert(spec_first_active(ctx_state(*ctx).active, voices, note, len as int) is None);
    }
    events
}

/// Process a program change: every voice of the channel gets the program's
/// tone (attached and well-formed, else the default block) at the converted
/// time, and its current-program record updates.
pub fn process_program_change(
    ticks: u32,
    channel: u8,
    program: u8,
    ctx: &mut EventProcessorContext,
) -> (events: Vec<RegisterWrite>)
    requires
        wf_context(*old(ctx)),
    ensures
        wf_context(*final(ctx)),
        spec_config_unchanged(*old(ctx), *final(ctx)),
        ctx_state(*final(ctx)) == spec_program_change(
            old(ctx).tempo_map@,
            old(ctx).ticks_per_beat,
            spec_tones_model(old(ctx).tones),
            ctx_state(*old(ctx)),
            ticks,
            channel,
            program,
        ).0,
        events@ == spec_program_change(
            old(ctx).tempo_map@,
            old(ctx).ticks_per_beat,
            spec_tones_model(old(ctx).tones),
            ctx_state(*old(ctx)),
            ticks,
            channel,
            program,
        ).1,
{
    let mut events: Vec<RegisterWrite> = Vec::new();
    if channel >= 16 {
        return events;
    }
    let ch = channel as usize;
    let ghost voices = ctx_state(*ctx).rows[channel as int];
    let ghost tones = spec_tones_model(ctx.tones);
    let ghost tone = spec_lookup(tones, program);
    proof {
        lemma_lookup_model(ctx.tones@, program);
    }
    let t = ticks_to_nanoseconds_with_tempo_map(ticks, ctx.ticks_per_beat, &ctx.tempo_map);
    let len = ctx.allocation.midi_to_ym2151[ch].len();
    let mut k: usize = 0;
    while k < len
        invariant
            wf_context(*ctx),
            channel < 16,
            ch == channel as usize,
            len == ctx.allocation.midi_to_ym2151@[ch as int]@.len(),
            voices == ctx_state(*old(ctx)).rows[channel as int],
            voices == ctx_state(*ctx).rows[channel as int],
            tones == spec_tones_model(ctx.tones),
            tone == spec_lookup(tones, program),
            match spec_lookup(ctx.tones@, program) {
                Some(td) => tone == Some(td.events@),
                None => tone is None,
            },
            t == spec_time_ns(old(ctx).tempo_map@, old(ctx).ticks_per_beat, ticks),
            0 <= k <= len,
            ctx.ticks_per_beat == old(ctx).ticks_per_beat,
            ctx.tempo_map@ == old(ctx).tempo_map@,
            ctx.tones == old(ctx).tones,
            ctx.allocation.midi_to_ym2151@ == old(ctx).allocation.midi_to_ym2151@,
            ctx.allocation.current_voice@ == old(ctx).allocation.current_voice@,
            ctx.active_notes@ == old(ctx).active_notes@,
            ctx.note_start@ == old(ctx).note_start@,
            ctx.completed_notes@ == old(ctx).completed_notes@,
            ctx.channel_programs@ =~= Seq::new(
                8,
                |v: int| if voices.subrange(0, k as int).contains(v as u8) {
                    program
                } else {
                    ctx_state(*old(ctx)).programs[v]
                },
            ),
            events@ + spec_program_writes(tone, voices, t, k as int) =~= spec_program_writes(
                tone,
                voices,
                t,
                0,
            ),
        decreases len - k,
    {
        let voice = ctx.allocation.midi_to_ym2151[ch][k];
        proof {
            assert(ctx.allocation.midi_to_ym2151@[ch as int]@[k as int] < 8);
        }
        let tone_events = match ctx.tones.get(program) {
            Some(tone_def) => {
                match tone_writes(tone_def, voice, t) {
                    Some(w) => w,
                    None => default_tone_writes(voice, t),
                }
            },
            None => default_tone_writes(voice, t),
        };
        proof {
            assert(tone_events@ == spec_voice_tone_writes(tone, voice, t));
        }
        extend_writes(&mut events, &tone_events);
        ctx.channel_programs.set(voice as usize, program);
        proof {
            lemma_subrange_contains_step(voices, k as int, voice);
            assert(ctx.channel_programs@ =~= Seq::new(
                8,
                |v: int| if voices.subrange(0, k + 1 as int).contains(v as u8) {
                    program
                } else {
                    ctx_state(*old(ctx)).programs[v]
                },
            ));
        }
        k = k + 1;
    }
    proof {
        assert(voices.subrange(0, len as int) =~= voices);
        assert(spec_program_writes(tone, voices, t, len as int) =~= Seq::<RegisterWrite>::empty());
        assert(events@ =~= events@ + spec_program_writes(tone, voices, t, len as int));
        let target = spec_program_change(
            old(ctx).tempo_map@,
            old(ctx).ticks_per_beat,
            spec_tones_model(old(ctx).tones),
            ctx_state(*old(ctx)),
            ticks,
            channel,
            program,
        );
        assert(ctx_state(*ctx).rows =~= target.0.rows);
        assert(ctx_state(*ctx).cursors =~= target.0.cursors);
        assert(ctx_state(*ctx).active =~= target.0.active);
        assert(ctx_state(*ctx).programs =~= target.0.programs);
        assert(ctx_state(*ctx).starts =~= target.0.starts);
        assert(ctx_state(*ctx).segments =~= target.0.segments);
        assert(ctx_state(*ctx) =~= target.0);
    }
    events
}

/// A one-longer prefix contains exactly the old prefix's elements and the
/// element at its end.
proof fn lemma_subrange_contains_step(voices: Seq<u8>, k: int, voice: u8)
    requires
        0 <= k < voices.len(),
        voice == voices[k],
    ensures
        forall|v: u8|
            #[trigger] voices.subrange(0, k + 1).contains(v) <==> voices.subrange(0, k).contains(v)
                || v == voice,
{
    assert forall|v: u8| #[trigger] voices.subrange(0, k + 1).contains(v) implies voices.subrange(
        0,
        k,
    ).contains(v) || v == voice by {
        let i = choose|i: int| 0 <= i < k + 1 && #[trigger] voices.subrange(0, k + 1)[i] == v;
        if i < k {
            assert(voices.subrange(0, k)[i] == v);
        }
    }
    assert forall|v: u8|
        voices.subrange(0, k).contains(v) || v == voice implies #[trigger] voices.subrange(
        0,
        k + 1,
    ).contains(v) by {
        if voices.subrange(0, k).contains(v) {
            let i = choose|i: int| 0 <= i < k && #[trigger] voices.subrange(0, k)[i] == v;
            assert(voices.subrange(0, k + 1)[i] == v);
        } else {
            assert(voices.subrange(0, k + 1)[k] == v);
        }
    }
}

/// Process one event: dispatch on its kind. Tempo events emit nothing.
pub fn process_event(event: &MidiEvent, ctx: &mut EventProcessorContext) -> (events: Vec<
    RegisterWrite,
>)
    requires
        wf_context(*old(ctx)),
    ensures
        wf_context(*final(ctx)),
        spec_config_unchanged(*old(ctx), *final(ctx)),
        ctx_state(*final(ctx)) == spec_step(
            old(ctx).tempo_map@,
            old(ctx).ticks_per_beat,
            spec_tones_model(old(ctx).tones),
            ctx_state(*old(ctx)),
            *event,
        ).0,
        events@ == spec_step(
            old(ctx).tempo_map@,
            old(ctx).ticks_per_beat,
            spec_tones_model(old(ctx).tones),
            ctx_state(*old(ctx)),
            *event,
        ).1,
{
    match event {
        MidiEvent::Tempo { .. } => Vec::new(),
        MidiEvent::NoteOn { ticks, channel, note, velocity } => process_note_on(
            *ticks,
            *channel,
            *note,
            *velocity,
            ctx,
        ),
        MidiEvent::NoteOff { ticks, channel, note } => process_note_off(
            *ticks,
            *channel,
            *note,
            ctx,
        ),
        MidiEvent::ProgramChange { ticks, channel, program } => process_program_change(
            *ticks,
            *channel,
            *program,
            ctx,
        ),
    }
}

} // verus!
