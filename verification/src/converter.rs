//! The conversion pipeline: polyphony analysis, voice allocation, the fixed
//! prologue, the forward pass over the events, note segments (with tails for
//! notes still sounding at the end of the stream), the five effect passes,
//! the stable sort by time, and the output formatting.

use vstd::prelude::*;
use crate::channel_allocation::allocate_channels;
use crate::channel_allocation::analyze_polyphony;
use crate::channel_allocation::spec_allocated_voices;
use crate::channel_allocation::spec_max_polyphony;
use crate::events::Error;
use crate::events::MidiData;
use crate::events::MidiEvent;
use crate::events::NoteOnInfo;
use crate::events::NoteSegment;
use crate::events::RegisterWrite;
use crate::events::Ym2151Event;
use crate::events::Ym2151Log;
use crate::event_processor::EventProcessorContext;
use crate::event_processor::ProcState;
use crate::event_processor::ctx_state;
use crate::event_processor::extend_writes;
use crate::event_processor::process_event;
use crate::event_processor::spec_step;
use crate::event_processor::wf_context;
use crate::hex::spec_hex_str;
use crate::hex::to_hex_byte;
use crate::options::AttackContinuationFix;
use crate::options::ConversionOptions;
use crate::options::PopNoiseEnvelope;
use crate::options::ProgramEffectOverrides;
use crate::options::RegisterLfoDefinition;
use crate::options::spec_tones_model;
use crate::pitch_effects::append_delay_vibrato_events;
use crate::pitch_effects::append_portamento_events;
use crate::pitch_effects::spec_delay_vibrato_from;
use crate::pitch_effects::spec_portamento_from;
use crate::register_effects::append_attack_continuation_fix_events;
use crate::register_effects::append_pop_noise_envelope_events;
use crate::register_effects::append_register_lfo_events;
use crate::register_effects::spec_attack_fix;
use crate::register_effects::spec_pop_noise;
use crate::register_effects::spec_software_lfo;
use crate::tempo_map::build_tempo_map;
use crate::tempo_map::nanoseconds_to_samples;
use crate::tempo_map::spec_build_tempo_map;
use crate::tempo_map::spec_ns_to_samples;
use crate::tempo_map::spec_time_ns;
use crate::tempo_map::ticks_to_nanoseconds_with_tempo_map;
use crate::tone::default_tone_writes;
use crate::tone::spec_default_tone;

verus! {

/// The measured polyphony of each channel, as machine integers.
pub open spec fn spec_poly_usize(events: Seq<MidiEvent>) -> Seq<usize> {
    Seq::new(16, |ch: int| spec_max_polyphony(events)[ch] as usize)
}

/// The eight silencing key-off writes at time 0, from voice `v` up.
pub open spec fn spec_keyoffs(v: int) -> Seq<RegisterWrite>
    decreases 8 - v,
{
    if v < 0 || v >= 8 {
        Seq::<RegisterWrite>::empty()
    } else {
        seq![RegisterWrite { time: 0, addr: 0x08, data: v as u8 }] + spec_keyoffs(v + 1)
    }
}

/// Mark the voices of one list as used, from position `k` on.
pub open spec fn spec_mark_row(used: Seq<bool>, row: Seq<u8>, k: int) -> Seq<bool>
    decreases row.len() - k,
{
    if k < 0 || k >= row.len() {
        used
    } else {
        let next = if row[k] < 8 {
            used.update(row[k] as int, true)
        } else {
            used
        };
        spec_mark_row(next, row, k + 1)
    }
}

/// Which voices the first `c` channels' lists use.
pub open spec fn spec_used_voices(rows: Seq<Seq<u8>>, c: int) -> Seq<bool>
    decreases c,
{
    if c <= 0 {
        Seq::new(8, |v: int| false)
    } else {
        spec_mark_row(spec_used_voices(rows, c - 1), rows[c - 1], 0)
    }
}

/// The default tone blocks at time 0 for every used voice from `v` up,
/// ascending.
pub open spec fn spec_init_writes(used: Seq<bool>, v: int) -> Seq<RegisterWrite>
    decreases 8 - v,
{
    if v < 0 || v >= 8 {
        Seq::<RegisterWrite>::empty()
    } else {
        let own: Seq<RegisterWrite> = if used[v] {
            spec_default_tone(v as u8, 0)
        } else {
            Seq::<RegisterWrite>::empty()
        };
        own + spec_init_writes(used, v + 1)
    }
}

/// The state after the whole event list, and the writes it emitted.
pub open spec fn spec_process_events(
    map: Seq<crate::events::TempoChange>,
    ticks_per_beat: u16,
    tones: Seq<(u8, Seq<Ym2151Event>)>,
    st: ProcState,
    events: Seq<MidiEvent>,
) -> (ProcState, Seq<RegisterWrite>)
    decreases events.len(),
{
    if events.len() == 0 {
        (st, Seq::<RegisterWrite>::empty())
    } else {
        let prev = spec_process_events(map, ticks_per_beat, tones, st, events.drop_last());
        let last = spec_step(map, ticks_per_beat, tones, prev.0, events.last());
        (last.0, prev.1 + last.1)
    }
}

/// The processor's starting state for an allocation: cursors at 0, nothing
/// sounding, every voice on program 0, no segments.
pub open spec fn spec_initial_state(rows: Seq<Seq<u8>>) -> ProcState {
    ProcState {
        rows,
        cursors: Seq::new(16, |ch: int| 0nat),
        active: Seq::new(1024, |i: int| false),
        programs: Seq::new(8, |v: int| 0u8),
        starts: Seq::new(1024, |i: int| Option::<NoteOnInfo>::None),
        segments: Seq::<NoteSegment>::empty(),
    }
}

/// The tick of an event.
pub open spec fn spec_event_tick(e: MidiEvent) -> u32 {
    match e {
        MidiEvent::NoteOn { ticks, .. } => ticks,
        MidiEvent::NoteOff { ticks, .. } => ticks,
        MidiEvent::Tempo { ticks, .. } => ticks,
        MidiEvent::ProgramChange { ticks, .. } => ticks,
    }
}

/// Segments synthesized at end of stream for notes still sounding, walking
/// the (voice, note) pairs in index order from `idx` up.
pub open spec fn spec_tail_segments(
    active: Seq<bool>,
    starts: Seq<Option<NoteOnInfo>>,
    end_tick: u32,
    end_time: u64,
    idx: int,
) -> Seq<NoteSegment>
    decreases 1024 - idx,
{
    if idx < 0 || idx >= 1024 {
        Seq::<NoteSegment>::empty()
    } else {
        let own: Seq<NoteSegment> = if active[idx] {
            match starts[idx] {
                Some(info) => seq![
                    NoteSegment {
                        ym2151_channel: (idx / 128) as u8,
                        note: (idx % 128) as u8,
                        start_tick: info.start_tick,
                        end_tick,
                        start_time: info.start_time,
                        end_time,
                        program: info.program,
                    },
                ],
                None => Seq::<NoteSegment>::empty(),
            }
        } else {
            Seq::<NoteSegment>::empty()
        };
        own + spec_tail_segments(active, starts, end_tick, end_time, idx + 1)
    }
}

/// Insert a write into a log sorted by time, after every write at or before
/// its time, so emission order breaks ties.
pub open spec fn spec_insert_write(log: Seq<RegisterWrite>, w: RegisterWrite) -> Seq<RegisterWrite>
    decreases log.len(),
{
    if log.len() == 0 {
        seq![w]
    } else if log.last().time <= w.time {
        log.push(w)
    } else {
        spec_insert_write(log.drop_last(), w).push(log.last())
    }
}

/// A log stably sorted by time: ascending times, writes at equal times kept
/// in emission order.
pub open spec fn spec_sort_writes(log: Seq<RegisterWrite>) -> Seq<RegisterWrite>
    decreases log.len(),
{
    if log.len() == 0 {
        Seq::<RegisterWrite>::empty()
    } else {
        spec_insert_write(spec_sort_writes(log.drop_last()), log.last())
    }
}

/// Non-decreasing write times.
pub open spec fn spec_sorted_by_time(log: Seq<RegisterWrite>) -> bool {
    forall|i: int, j: int| 0 <= i < j < log.len() ==> log[i].time <= log[j].time
}

/// The latest time in a log after inserting a write.
spec fn spec_max_time(log: Seq<RegisterWrite>, w: RegisterWrite) -> int {
    if log.len() == 0 {
        w.time as int
    } else if log.last().time >= w.time {
        log.last().time as int
    } else {
        w.time as int
    }
}

proof fn lemma_insert_write_max(log: Seq<RegisterWrite>, w: RegisterWrite)
    requires
        spec_sorted_by_time(log),
    ensures
        forall|i: int|
            0 <= i < spec_insert_write(log, w).len() ==> (#[trigger] spec_insert_write(log, w)[i])
                .time <= spec_max_time(log, w),
    decreases log.len(),
{
    let out = spec_insert_write(log, w);
    if log.len() == 0 {
    } else if log.last().time <= w.time {
        assert forall|i: int| 0 <= i < out.len() implies (#[trigger] out[i]).time <= spec_max_time(
            log,
            w,
        ) by {
            if i < log.len() {
                assert(log[i].time <= log[log.len() - 1].time);
            }
        }
    } else {
        let d = log.drop_last();
        assert(spec_sorted_by_time(d));
        lemma_insert_write_max(d, w);
        let r = spec_insert_write(d, w);
        assert(spec_max_time(d, w) <= spec_max_time(log, w)) by {
            if d.len() > 0 {
                assert(d[d.len() - 1].time <= log[log.len() - 1].time);
            }
        }
        assert forall|i: int| 0 <= i < out.len() implies (#[trigger] out[i]).time <= spec_max_time(
            log,
            w,
        ) by {
            if i < r.len() {
                assert(r[i].time <= spec_max_time(d, w));
            }
        }
    }
}

/// Inserting a write keeps the log sorted and adds exactly that write.
proof fn lemma_insert_write_sorted(log: Seq<RegisterWrite>, w: RegisterWrite)
    requires
        spec_sorted_by_time(log),
    ensures
        spec_sorted_by_time(spec_insert_write(log, w)),
        spec_insert_write(log, w).to_multiset() =~= log.to_multiset().insert(w),
        spec_insert_write(log, w).len() == log.len() + 1,
    decreases log.len(),
{
    broadcast use vstd::seq_lib::group_to_multiset_ensures;

    let out = spec_insert_write(log, w);
    if log.len() == 0 {
        assert(Seq::<RegisterWrite>::empty().push(w) =~= seq![w]);
        assert(out.to_multiset() =~= log.to_multiset().insert(w));
    } else if log.last().time <= w.time {
        assert forall|i: int, j: int| 0 <= i < j < out.len() implies out[i].time
            <= out[j].time by {
            if j < log.len() {
            } else {
                if i < log.len() - 1 {
                    assert(log[i].time <= log[log.len() - 1].time);
                }
            }
        }
    } else {
        let d = log.drop_last();
        assert(spec_sorted_by_time(d));
        lemma_insert_write_sorted(d, w);
        lemma_insert_write_max(d, w);
        let r = spec_insert_write(d, w);
        assert(out == r.push(log.last()));
        assert forall|i: int, j: int| 0 <= i < j < out.len() implies out[i].time
            <= out[j].time by {
            if j < r.len() {
            } else {
                assert(r[i].time <= spec_max_time(d, w));
                assert(spec_max_time(d, w) <= log.last().time) by {
                    if d.len() > 0 {
                        assert(d[d.len() - 1].time <= log[log.len() - 1].time);
                    }
                }
            }
        }
        assert(d.push(log.last()) =~= log);
        assert(log.to_multiset() =~= d.to_multiset().insert(log.last()));
        assert(out.to_multiset() =~= r.to_multiset().insert(log.last()));
        assert(out.to_multiset() =~= log.to_multiset().insert(w));
    }
}

/// The sorted log is ascending by time and holds exactly the given writes:
/// the output order is the emission order rearranged by time alone.
pub proof fn lemma_sort_writes_ordered(log: Seq<RegisterWrite>)
    ensures
        spec_sorted_by_time(spec_sort_writes(log)),
        spec_sort_writes(log).to_multiset() =~= log.to_multiset(),
        spec_sort_writes(log).len() == log.len(),
    decreases log.len(),
{
    broadcast use vstd::seq_lib::group_to_multiset_ensures;

    if log.len() > 0 {
        let d = log.drop_last();
        lemma_sort_writes_ordered(d);
        lemma_insert_write_sorted(spec_sort_writes(d), log.last());
        assert(d.push(log.last()) =~= log);
        assert(log.to_multiset() =~= d.to_multiset().insert(log.last()));
        assert(spec_sort_writes(log).to_multiset() =~= spec_sort_writes(d).to_multiset().insert(
            log.last(),
        ));
    }
}

/// A rendering of an ascending log is itself ascending: the output events'
/// sample counts never decrease.
pub proof fn lemma_rendered_times_ordered(events: Seq<Ym2151Event>, writes: Seq<RegisterWrite>)
    requires
        spec_log_rendered(events, writes),
        spec_sorted_by_time(writes),
    ensures
        forall|i: int, j: int| 0 <= i < j < events.len() ==> events[i].time <= events[j].time,
{
    assert forall|i: int, j: int| 0 <= i < j < events.len() implies events[i].time
        <= events[j].time by {
        crate::tempo_map::lemma_ns_to_samples_monotone(writes[i].time, writes[j].time);
    }
}

/// The whole unsorted write log of a conversion: the eight silencing
/// key-offs, the default tone for every allocated voice, the forward pass's
/// writes, then the five effect passes in order, each effect reading the log
/// accumulated before it.
pub open spec fn spec_full_log(
    midi: MidiData,
    delay_vibrato: bool,
    portamento: bool,
    pop: Option<PopNoiseEnvelope>,
    attack: Option<AttackContinuationFix>,
    lfo: Seq<RegisterLfoDefinition>,
    tones: Seq<(u8, Seq<Ym2151Event>)>,
    overrides: Seq<(u8, ProgramEffectOverrides)>,
) -> Seq<RegisterWrite> {
    let map = spec_build_tempo_map(midi.tempo_bpm_milli, midi.events@);
    let poly = spec_poly_usize(midi.events@);
    let rows = Seq::new(16, |ch: int| spec_allocated_voices(poly, ch));
    let base0 = spec_keyoffs(0) + spec_init_writes(spec_used_voices(rows, 16), 0);
    let run = spec_process_events(
        map,
        midi.ticks_per_beat,
        tones,
        spec_initial_state(rows),
        midi.events@,
    );
    let base = base0 + run.1;
    let end_tick: u32 = if midi.events@.len() > 0 {
        spec_event_tick(midi.events@.last())
    } else {
        0
    };
    let end_time = spec_time_ns(map, midi.ticks_per_beat, end_tick);
    let segs = run.0.segments + spec_tail_segments(run.0.active, run.0.starts, end_tick, end_time, 0);
    let l1 = base + spec_delay_vibrato_from(segs, delay_vibrato, overrides, 0);
    let l2 = l1 + spec_portamento_from(segs, portamento, overrides, 0);
    let l3 = l2 + spec_software_lfo(segs, lfo, overrides, l2);
    let l4 = l3 + spec_pop_noise(segs, pop, overrides, l3);
    l4 + spec_attack_fix(segs, attack, overrides, l4)
}

/// Whether an output event sequence renders a write log: same length, each
/// write's time as a sample count and its address and data as `0xXX` strings.
pub open spec fn spec_log_rendered(events: Seq<Ym2151Event>, writes: Seq<RegisterWrite>) -> bool {
    &&& events.len() == writes.len()
    &&& forall|i: int|
        0 <= i < events.len() ==> {
            &&& (#[trigger] events[i]).time == spec_ns_to_samples(writes[i].time)
            &&& events[i].addr@ == spec_hex_str(writes[i].addr)
            &&& events[i].data@ == spec_hex_str(writes[i].data)
        }
}

fn insert_write(log: &mut Vec<RegisterWrite>, w: RegisterWrite)
    ensures
        final(log)@ == spec_insert_write(old(log)@, w),
    decreases old(log)@.len(),
{
    let n = log.len();
    if n == 0 {
        log.push(w);
        assert(log@ =~= spec_insert_write(old(log)@, w));
    } else if log[n - 1].time <= w.time {
        log.push(w);
        assert(log@ =~= spec_insert_write(old(log)@, w));
    } else {
        let last = log[n - 1];
        let _ = log.pop();
        assert(log@ =~= old(log)@.drop_last());
        insert_write(log, w);
        log.push(last);
        assert(log@ =~= spec_insert_write(old(log)@, w));
    }
}

/// The log stably sorted by time: ascending times, emission order breaking
/// ties.
pub fn sort_writes(log: &Vec<RegisterWrite>) -> (r: Vec<RegisterWrite>)
    ensures
        r@ == spec_sort_writes(log@),
{
    let n = log.len();
    let mut out: Vec<RegisterWrite> = Vec::new();
    let mut i: usize = 0;
    while i < n
        invariant
            n == log@.len(),
            0 <= i <= n,
            out@ == spec_sort_writes(log@.subrange(0, i as int)),
        decreases n - i,
    {
        proof {
            assert(log@.subrange(0, i + 1 as int).drop_last() =~= log@.subrange(0, i as int));
            assert(log@.subrange(0, i + 1 as int).last() == log@[i as int]);
        }
        insert_write(&mut out, log[i]);
        i = i + 1;
    }
    proof {
        assert(log@.subrange(0, n as int) =~= log@);
    }
    out
}

/// Render a write log as output events: sample-count times and `0xXX`
/// strings.
pub fn render_writes(writes: &Vec<RegisterWrite>) -> (r: Vec<Ym2151Event>)
    ensures
        spec_log_rendered(r@, writes@),
{
    let n = writes.len();
    let mut out: Vec<Ym2151Event> = Vec::new();
    let mut i: usize = 0;
    while i < n
        invariant
            n == writes@.len(),
            0 <= i <= n,
            out@.len() == i,
            forall|j: int|
                0 <= j < i ==> {
                    &&& (#[trigger] out@[j]).time == spec_ns_to_samples(writes@[j].time)
                    &&& out@[j].addr@ == spec_hex_str(writes@[j].addr)
                    &&& out@[j].data@ == spec_hex_str(writes@[j].data)
                },
        decreases n - i,
    {
        let w = writes[i];
        out.push(
            Ym2151Event {
                time: nanoseconds_to_samples(w.time),
                addr: to_hex_byte(w.addr),
                data: to_hex_byte(w.data),
            },
        );
        i = i + 1;
    }
    out
}

/// Convert an event stream to the chip's register-write log under the given
/// options. Never fails: out-of-range values in the events are ignored and
/// malformed attached tones fall back to the default tone.
pub fn convert_to_ym2151_log_with_options(midi_data: &MidiData, options: &ConversionOptions) -> (r:
    Result<Ym2151Log, Error>)
    ensures
        r matches Ok(log) && log.event_count == log.events@.len() && spec_log_rendered(
            log.events@,
            spec_sort_writes(
                spec_full_log(
                    *midi_data,
                    options.delay_vibrato,
                    options.portamento,
                    options.pop_noise_envelope,
                    options.attack_continuation_fix,
                    options.software_lfo@,
                    spec_tones_model(options.tones),
                    options.program_overrides@,
                ),
            ),
        ),
{
    let ghost full = spec_full_log(
        *midi_data,
        options.delay_vibrato,
        options.portamento,
        options.pop_noise_envelope,
        options.attack_continuation_fix,
        options.software_lfo@,
        spec_tones_model(options.tones),
        options.program_overrides@,
    );
    let tempo_map = build_tempo_map(midi_data);
    let polyphony = analyze_polyphony(midi_data);
    proof {
        assert(polyphony@ =~= spec_poly_usize(midi_data.events@));
    }
    let allocation = allocate_channels(&polyphony);
    let ghost rows = Seq::new(
        16,
        |ch: int| spec_allocated_voices(spec_poly_usize(midi_data.events@), ch),
    );
    let mut ym2151_events: Vec<RegisterWrite> = Vec::new();
    let mut ch: u8 = 0;
    while ch < 8
        invariant
            0 <= ch <= 8,
            ym2151_events@ + spec_keyoffs(ch as int) =~= spec_keyoffs(0),
        decreases 8 - ch,
    {
        ym2151_events.push(RegisterWrite { time: 0, addr: 0x08, data: ch });
        ch = ch + 1;
    }
    proof {
        assert(spec_keyoffs(8) =~= Seq::<RegisterWrite>::empty());
        assert(ym2151_events@ =~= spec_keyoffs(0));
    }
    // Which voices end up allocated.
    let mut used: Vec<bool> = Vec::new();
    let mut v: usize = 0;
    while v < 8
        invariant
            used@.len() == v,
            0 <= v <= 8,
            forall|j: int| 0 <= j < v ==> !(#[trigger] used@[j]),
        decreases 8 - v,
    {
        used.push(false);
        v = v + 1;
    }
    proof {
        assert(used@ =~= spec_used_voices(rows, 0));
    }
    let mut c: usize = 0;
    while c < 16
        invariant
            0 <= c <= 16,
            used@.len() == 8,
            allocation.midi_to_ym2151@.len() == 16,
            forall|x: int, k: int|
                0 <= x < 16 && 0 <= k < allocation.midi_to_ym2151@[x]@.len()
                    ==> allocation.midi_to_ym2151@[x]@[k] < 8,
            forall|x: int|
                0 <= x < 16 ==> #[trigger] allocation.midi_to_ym2151@[x]@ == rows[x],
            used@ == spec_used_voices(rows, c as int),
        decreases 16 - c,
    {
        let row_len = allocation.midi_to_ym2151[c].len();
        let mut k: usize = 0;
        while k < row_len
            invariant
                0 <= c < 16,
                used@.len() == 8,
                allocation.midi_to_ym2151@.len() == 16,
                row_len == allocation.midi_to_ym2151@[c as int]@.len(),
                forall|x: int, kk: int|
                    0 <= x < 16 && 0 <= kk < allocation.midi_to_ym2151@[x]@.len()
                        ==> allocation.midi_to_ym2151@[x]@[kk] < 8,
                forall|x: int|
                    0 <= x < 16 ==> #[trigger] allocation.midi_to_ym2151@[x]@ == rows[x],
                0 <= k <= row_len,
                spec_mark_row(used@, rows[c as int], k as int) == spec_mark_row(
                    spec_used_voices(rows, c as int),
                    rows[c as int],
                    0,
                ),
            decreases row_len - k,
        {
            let voice = allocation.midi_to_ym2151[c][k];
            used.set(voice as usize, true);
            k = k + 1;
        }
        proof {
            assert(spec_mark_row(used@, rows[c as int], row_len as int) == used@);
        }
        c = c + 1;
    }
    let mut v2: u8 = 0;
    while v2 < 8
        invariant
            0 <= v2 <= 8,
            used@.len() == 8,
            used@ == spec_used_voices(rows, 16),
            ym2151_events@ + spec_init_writes(used@, v2 as int) =~= spec_keyoffs(0)
                + spec_init_writes(used@, 0),
        decreases 8 - v2,
    {
        if used[v2 as usize] {
            let block = default_tone_writes(v2, 0);
            extend_writes(&mut ym2151_events, &block);
        }
        v2 = v2 + 1;
    }
    proof {
        assert(spec_init_writes(used@, 8) =~= Seq::<RegisterWrite>::empty());
        assert(ym2151_events@ =~= spec_keyoffs(0) + spec_init_writes(used@, 0));
    }
    let ghost base0 = ym2151_events@;
    // The forward pass.
    let mut active_notes: Vec<bool> = Vec::new();
    let mut note_start: Vec<Option<NoteOnInfo>> = Vec::new();
    let mut fill: usize = 0;
    while fill < 1024
        invariant
            active_notes@.len() == fill,
            note_start@.len() == fill,
            0 <= fill <= 1024,
            forall|j: int| 0 <= j < fill ==> !(#[trigger] active_notes@[j]),
            forall|j: int| 0 <= j < fill ==> (#[trigger] note_start@[j]) is None,
        decreases 1024 - fill,
    {
        active_notes.push(false);
        note_start.push(None);
        fill = fill + 1;
    }
    let mut channel_programs: Vec<u8> = Vec::new();
    let mut fill2: usize = 0;
    while fill2 < 8
        invariant
            channel_programs@.len() == fill2,
            0 <= fill2 <= 8,
            forall|j: int| 0 <= j < fill2 ==> (#[trigger] channel_programs@[j]) == 0,
        decreases 8 - fill2,
    {
        channel_programs.push(0);
        fill2 = fill2 + 1;
    }
    let tones = options.tones.duplicate();
    let mut ctx = EventProcessorContext {
        ticks_per_beat: midi_data.ticks_per_beat,
        tempo_map,
        allocation,
        active_notes,
        channel_programs,
        note_start,
        completed_notes: Vec::new(),
        tones,
    };
    let ghost map = spec_build_tempo_map(midi_data.tempo_bpm_milli, midi_data.events@);
    let ghost tonesm = spec_tones_model(options.tones);
    let ghost st0 = spec_initial_state(rows);
    proof {
        assert(ctx_state(ctx).rows =~= st0.rows);
        assert(ctx_state(ctx).cursors =~= st0.cursors);
        assert(ctx_state(ctx).active =~= st0.active);
        assert(ctx_state(ctx).programs =~= st0.programs);
        assert(ctx_state(ctx).starts =~= st0.starts);
        assert(ctx_state(ctx).segments =~= st0.segments);
        assert(ctx_state(ctx) =~= st0);
        assert(wf_context(ctx));
    }
    let n = midi_data.events.len();
    let mut i: usize = 0;
    while i < n
        invariant
            n == midi_data.events@.len(),
            0 <= i <= n,
            wf_context(ctx),
            ctx.ticks_per_beat == midi_data.ticks_per_beat,
            ctx.tempo_map@ == map,
            spec_tones_model(ctx.tones) == tonesm,
            ({
                let run = spec_process_events(
                    map,
                    midi_data.ticks_per_beat,
                    tonesm,
                    st0,
                    midi_data.events@.subrange(0, i as int),
                );
                ctx_state(ctx) == run.0 && ym2151_events@ == base0 + run.1
            }),
        decreases n - i,
    {
        let ghost pre = midi_data.events@.subrange(0, i as int);
        let ghost post = midi_data.events@.subrange(0, i + 1 as int);
        proof {
            assert(post.drop_last() =~= pre);
            assert(post.last() == midi_data.events@[i as int]);
        }
        let step_events = process_event(&midi_data.events[i], &mut ctx);
        extend_writes(&mut ym2151_events, &step_events);
        i = i + 1;
    }
    proof {
        assert(midi_data.events@.subrange(0, n as int) =~= midi_data.events@);
    }
    let ghost run = spec_process_events(map, midi_data.ticks_per_beat, tonesm, st0, midi_data.events@);
    // Segments, with tails for notes still sounding at the end of the stream.
    let end_tick: u32 = if n > 0 {
        match &midi_data.events[n - 1] {
            MidiEvent::NoteOn { ticks, .. } => *ticks,
            MidiEvent::NoteOff { ticks, .. } => *ticks,
            MidiEvent::Tempo { ticks, .. } => *ticks,
            MidiEvent::ProgramChange { ticks, .. } => *ticks,
        }
    } else {
        0
    };
    let end_time = ticks_to_nanoseconds_with_tempo_map(end_tick, ctx.ticks_per_beat, &ctx.tempo_map);
    let mut segments: Vec<NoteSegment> = Vec::new();
    let cn = ctx.completed_notes.len();
    let mut s: usize = 0;
    while s < cn
        invariant
            cn == ctx.completed_notes@.len(),
            0 <= s <= cn,
            segments@ =~= ctx.completed_notes@.subrange(0, s as int),
        decreases cn - s,
    {
        segments.push(ctx.completed_notes[s]);
        proof {
            assert(segments@ =~= ctx.completed_notes@.subrange(0, s + 1 as int));
        }
        s = s + 1;
    }
    proof {
        assert(ctx.completed_notes@.subrange(0, cn as int) =~= ctx.completed_notes@);
        assert(segments@ =~= run.0.segments);
    }
    let mut idx: usize = 0;
    while idx < 1024
        invariant
            0 <= idx <= 1024,
            ctx.active_notes@.len() == 1024,
            ctx.note_start@.len() == 1024,
            ctx.active_notes@ == run.0.active,
            ctx.note_start@ == run.0.starts,
            segments@ + spec_tail_segments(run.0.active, run.0.starts, end_tick, end_time, idx as int)
                =~= run.0.segments + spec_tail_segments(run.0.active, run.0.starts, end_tick, end_time, 0),
        decreases 1024 - idx,
    {
        if ctx.active_notes[idx] {
            match ctx.note_start[idx] {
                Some(info) => {
                    segments.push(
                        NoteSegment {
                            ym2151_channel: (idx / 128) as u8,
                            note: (idx % 128) as u8,
                            start_tick: info.start_tick,
                            end_tick,
                            start_time: info.start_time,
                            end_time,
                            program: info.program,
                        },
                    );
                },
                None => {},
            }
        }
        idx = idx + 1;
    }
    proof {
        assert(spec_tail_segments(run.0.active, run.0.starts, end_tick, end_time, 1024)
            =~= Seq::<NoteSegment>::empty());
        assert(segments@ =~= run.0.segments + spec_tail_segments(
            run.0.active,
            run.0.starts,
            end_tick,
            end_time,
            0,
        ));
        lemma_tail_segment_channels(run.0.active, run.0.starts, end_tick, end_time, 0);
    }
    // The effect passes, each reading the log accumulated before it.
    append_delay_vibrato_events(
        &segments,
        options.delay_vibrato,
        &options.program_overrides,
        &mut ym2151_events,
    );
    append_portamento_events(
        &segments,
        options.portamento,
        &options.program_overrides,
        &mut ym2151_events,
    );
    append_register_lfo_events(
        &options.software_lfo,
        &options.program_overrides,
        &segments,
        &mut ym2151_events,
    );
    append_pop_noise_envelope_events(
        &options.pop_noise_envelope,
        &options.program_overrides,
        &segments,
        &mut ym2151_events,
    );
    append_attack_continuation_fix_events(
        &options.attack_continuation_fix,
        &options.program_overrides,
        &segments,
        &mut ym2151_events,
    );
    proof {
        assert(ym2151_events@ =~= full);
    }
    // Sort stably by time and render.
    let sorted = sort_writes(&ym2151_events);
    let rendered = render_writes(&sorted);
    let count = rendered.len();
    Ok(Ym2151Log { event_count: count, events: rendered })
}

/// Every synthesized tail segment sits on a real voice.
proof fn lemma_tail_segment_channels(
    active: Seq<bool>,
    starts: Seq<Option<NoteOnInfo>>,
    end_tick: u32,
    end_time: u64,
    idx: int,
)
    requires
        idx >= 0,
    ensures
        forall|i: int|
            0 <= i < spec_tail_segments(active, starts, end_tick, end_time, idx).len()
                ==> (#[trigger] spec_tail_segments(active, starts, end_tick, end_time, idx)[i])
                .ym2151_channel < 8,
    decreases 1024 - idx,
{
    if idx < 1024 {
        lemma_tail_segment_channels(active, starts, end_tick, end_time, idx + 1);
        assert forall|i: int|
            0 <= i < spec_tail_segments(active, starts, end_tick, end_time, idx).len()
            implies (#[trigger] spec_tail_segments(active, starts, end_tick, end_time, idx)[i])
            .ym2151_channel < 8 by {
            let own = spec_tail_segments(active, starts, end_tick, end_time, idx);
            let rest = spec_tail_segments(active, starts, end_tick, end_time, idx + 1);
            if i >= own.len() - rest.len() {
                assert(own[i] == rest[i - (own.len() - rest.len())]);
            }
        }
    }
}

/// Convert an event stream to the chip's register-write log with every
/// effect off and nothing attached.
pub fn convert_to_ym2151_log(midi_data: &MidiData) -> (r: Result<Ym2151Log, Error>)
    ensures
        r matches Ok(log) && log.event_count == log.events@.len() && spec_log_rendered(
            log.events@,
            spec_sort_writes(
                spec_full_log(
                    *midi_data,
                    false,
                    false,
                    None,
                    None,
                    Seq::<RegisterLfoDefinition>::empty(),
                    Seq::<(u8, Seq<Ym2151Event>)>::empty(),
                    Seq::<(u8, ProgramEffectOverrides)>::empty(),
                ),
            ),
        ),
{
    let options = ConversionOptions::default();
    let r = convert_to_ym2151_log_with_options(midi_data, &options);
    proof {
        assert(options.software_lfo@ =~= Seq::<RegisterLfoDefinition>::empty());
        assert(spec_tones_model(options.tones) =~= Seq::<(u8, Seq<Ym2151Event>)>::empty());
        assert(options.program_overrides@ =~= Seq::<(u8, ProgramEffectOverrides)>::empty());
    }
    r
}

} // verus!
