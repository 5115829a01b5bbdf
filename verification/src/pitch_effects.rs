//! Pitch post-passes: delayed vibrato and portamento. Both walk each voice's
//! note segments in start order, sample a modulated pitch at the note's own
//! period, and emit a key-code/key-fraction pair whenever it changes.

use vstd::prelude::*;
use crate::events::NoteSegment;
use crate::events::RegisterWrite;
use crate::notes::midi_note_with_offset_to_kc_kf;
use crate::notes::note_period_ns;
use crate::notes::spec_kc_of_mc;
use crate::notes::spec_kf_of_mc;
use crate::notes::spec_mod_pitch_mc;
use crate::notes::spec_period_ns;
use crate::notes::BASE_PERIODS_NS;
use crate::options::OverrideTable;
use crate::options::ProgramEffectOverrides;
use crate::options::spec_lookup;
use crate::tempo_map::spec_sat_add;
use crate::waveform::spec_triangle;
use crate::waveform::triangle_wave;

verus! {

/// Vibrato starts this long after the note starts, in nanoseconds.
pub const DELAY_VIBRATO_DELAY_NS: u64 = 200_000_000;

/// Vibrato depth ramps from zero to full over this long, in nanoseconds.
pub const DELAY_VIBRATO_ATTACK_NS: u64 = 300_000_000;

/// Full vibrato depth, in milli-cents.
pub const DELAY_VIBRATO_DEPTH_MILLICENTS: i64 = 100_000;

/// Vibrato oscillation rate, in hertz.
pub const DELAY_VIBRATO_RATE_HZ: u64 = 6;

/// Vibrato keeps running this long past the note's end, in nanoseconds.
pub const VIBRATO_RELEASE_TAIL_NS: u64 = 500_000_000;

/// A portamento glide lasts this long, in nanoseconds.
pub const PORTAMENTO_TIME_NS: u64 = 100_000_000;

// ---------------------------------------------------------------------------
// Segment grouping
// ---------------------------------------------------------------------------

/// The segments of one voice, in recorded order.
pub open spec fn spec_segments_for_channel(segs: Seq<NoteSegment>, ch: u8) -> Seq<NoteSegment>
    decreases segs.len(),
{
    if segs.len() == 0 {
        Seq::<NoteSegment>::empty()
    } else {
        let prev = spec_segments_for_channel(segs.drop_last(), ch);
        if segs.last().ym2151_channel == ch {
            prev.push(segs.last())
        } else {
            prev
        }
    }
}

/// Insert a segment into a list sorted by start time, after every segment
/// starting at or before it, so recorded order breaks ties.
pub open spec fn spec_insert_segment(list: Seq<NoteSegment>, seg: NoteSegment) -> Seq<NoteSegment>
    decreases list.len(),
{
    if list.len() == 0 {
        seq![seg]
    } else if list.last().start_time <= seg.start_time {
        list.push(seg)
    } else {
        spec_insert_segment(list.drop_last(), seg).push(list.last())
    }
}

/// A list of segments ordered by start time, ties kept in the given order.
pub open spec fn spec_sort_segments(list: Seq<NoteSegment>) -> Seq<NoteSegment>
    decreases list.len(),
{
    if list.len() == 0 {
        Seq::<NoteSegment>::empty()
    } else {
        spec_insert_segment(spec_sort_segments(list.drop_last()), list.last())
    }
}

fn segments_for_channel(segments: &Vec<NoteSegment>, ch: u8) -> (r: Vec<NoteSegment>)
    ensures
        r@ == spec_segments_for_channel(segments@, ch),
{
    let n = segments.len();
    let mut out: Vec<NoteSegment> = Vec::new();
    let mut i: usize = 0;
    while i < n
        invariant
            n == segments@.len(),
            0 <= i <= n,
            out@ == spec_segments_for_channel(segments@.subrange(0, i as int), ch),
        decreases n - i,
    {
        proof {
            assert(segments@.subrange(0, i + 1 as int).drop_last() =~= segments@.subrange(
                0,
                i as int,
            ));
            assert(segments@.subrange(0, i + 1 as int).last() == segments@[i as int]);
        }
        if segments[i].ym2151_channel == ch {
            out.push(segments[i]);
        }
        i = i + 1;
    }
    proof {
        assert(segments@.subrange(0, n as int) =~= segments@);
    }
    out
}

fn insert_segment(list: &mut Vec<NoteSegment>, seg: NoteSegment)
    ensures
        final(list)@ == spec_insert_segment(old(list)@, seg),
    decreases old(list)@.len(),
{
    let n = list.len();
    if n == 0 {
        list.push(seg);
        assert(list@ =~= spec_insert_segment(old(list)@, seg));
    } else if list[n - 1].start_time <= seg.start_time {
        list.push(seg);
        assert(list@ =~= spec_insert_segment(old(list)@, seg));
    } else {
        let last = list[n - 1];
        let _ = list.pop();
        assert(list@ =~= old(list)@.drop_last());
        insert_segment(list, seg);
        list.push(last);
        assert(list@ =~= spec_insert_segment(old(list)@, seg));
    }
}

/// The given segments ordered by start time, ties kept in the given order.
pub fn sort_segments(list: &Vec<NoteSegment>) -> (r: Vec<NoteSegment>)
    ensures
        r@ == spec_sort_segments(list@),
{
    let n = list.len();
    let mut out: Vec<NoteSegment> = Vec::new();
    let mut i: usize = 0;
    while i < n
        invariant
            n == list@.len(),
            0 <= i <= n,
            out@ == spec_sort_segments(list@.subrange(0, i as int)),
        decreases n - i,
    {
        proof {
            assert(list@.subrange(0, i + 1 as int).drop_last() =~= list@.subrange(0, i as int));
            assert(list@.subrange(0, i + 1 as int).last() == list@[i as int]);
        }
        insert_segment(&mut out, list[i]);
        i = i + 1;
    }
    proof {
        assert(list@.subrange(0, n as int) =~= list@);
    }
    out
}

// ---------------------------------------------------------------------------
// Delayed vibrato
// ---------------------------------------------------------------------------

/// The vibrato pitch offset after `elapsed` nanoseconds of vibrato: the depth
/// ramped linearly over the attack, scaled by a 6 Hz triangle wave; in
/// milli-cents.
pub open spec fn spec_vibrato_offset_mc(elapsed: u64) -> int {
    let ratio_micro: int = if elapsed / 300 > 1_000_000 {
        1_000_000
    } else {
        elapsed as int / 300
    };
    let phase_e9 = ((elapsed * DELAY_VIBRATO_RATE_HZ) % 1_000_000_000) as u64;
    let wave = spec_triangle(phase_e9);
    let mag = if wave < 0 {
        100_000 * ratio_micro * (0 - wave) / 1_000_000_000_000
    } else {
        100_000 * ratio_micro * wave / 1_000_000_000_000
    };
    if wave < 0 {
        0 - mag
    } else {
        mag
    }
}

fn vibrato_offset_mc(elapsed: u64) -> (r: i64)
    ensures
        r == spec_vibrato_offset_mc(elapsed),
        -100_000 <= r <= 100_000,
{
    let ratio_micro: u64 = if elapsed / 300 > 1_000_000 {
        1_000_000
    } else {
        elapsed / 300
    };
    let phase_e9: u64 = (((elapsed as u128) * (DELAY_VIBRATO_RATE_HZ as u128)) % 1_000_000_000)
        as u64;
    let wave = triangle_wave(phase_e9);
    let wave_mag: u128 = if wave < 0 {
        (-(wave as i128)) as u128
    } else {
        wave as u128
    };
    let p1: u128 = 100_000u128 * (ratio_micro as u128);
    proof {
        assert(p1 * wave_mag <= 100_000_000_000_000_000) by (nonlinear_arith)
            requires
                0 <= p1 <= 100_000_000_000,
                0 <= wave_mag <= 1_000_000,
        ;
    }
    let mag: u128 = p1 * wave_mag / 1_000_000_000_000;
    if wave < 0 {
        -((mag as i128) as i64)
    } else {
        (mag as i128) as i64
    }
}

/// The key code and key fraction a note takes under a pitch offset.
pub open spec fn spec_kc_kf(note: u8, offset_mc: int) -> (u8, u8) {
    let p = spec_mod_pitch_mc(note, offset_mc);
    (spec_kc_of_mc(p), spec_kf_of_mc(p))
}

/// The sampling step for a note: its period, floored at one nanosecond.
pub open spec fn spec_step_ns(note: u8) -> u64 {
    if spec_period_ns(note) == 0 {
        1
    } else {
        spec_period_ns(note)
    }
}

/// The vibrato writes for one segment from sample time `t` on: at each step
/// the modulated pitch is re-encoded and emitted when it differs from the
/// previous sample.
pub open spec fn spec_vibrato_samples(
    channel: u8,
    note: u8,
    vstart: u64,
    stop: u64,
    t: u64,
    last: Option<(u8, u8)>,
) -> Seq<RegisterWrite>
    recommends
        vstart <= t <= stop,
        channel < 8,
    decreases stop - t,
{
    if t > stop {
        Seq::<RegisterWrite>::empty()
    } else {
        let kckf = spec_kc_kf(note, spec_vibrato_offset_mc((t - vstart) as u64));
        let emitted: Seq<RegisterWrite> = if last == Some(kckf) {
            Seq::<RegisterWrite>::empty()
        } else {
            seq![
                RegisterWrite { time: t, addr: (0x28 + channel) as u8, data: kckf.0 },
                RegisterWrite { time: t, addr: (0x30 + channel) as u8, data: kckf.1 },
            ]
        };
        let step = spec_step_ns(note);
        if stop - t < step {
            emitted
        } else {
            emitted + spec_vibrato_samples(channel, note, vstart, stop, (t + step) as u64, Some(kckf))
        }
    }
}

/// The vibrato writes for one segment: sampling starts a fixed delay after
/// the note start and runs to the stop time; nothing is emitted when the
/// stop lies before the vibrato would begin.
pub open spec fn spec_vibrato_for_segment(seg: NoteSegment, stop: u64) -> Seq<RegisterWrite>
    recommends
        seg.ym2151_channel < 8,
{
    let vstart = spec_sat_add(seg.start_time, DELAY_VIBRATO_DELAY_NS);
    if stop <= vstart {
        Seq::<RegisterWrite>::empty()
    } else {
        spec_vibrato_samples(seg.ym2151_channel, seg.note, vstart, stop, vstart, None)
    }
}

/// Whether vibrato runs for a program: its override when present, else the
/// global toggle.
pub open spec fn spec_vibrato_enabled(
    global: bool,
    overrides: Seq<(u8, ProgramEffectOverrides)>,
    program: u8,
) -> bool {
    match spec_lookup(overrides, program) {
        Some(o) => match o.delay_vibrato {
            Some(b) => b,
            None => global,
        },
        None => global,
    }
}

/// Where a segment's vibrato stops: half a second past the note's end, cut
/// short by the next note on the same voice.
pub open spec fn spec_vibrato_stop(list: Seq<NoteSegment>, k: int) -> u64
    recommends
        0 <= k < list.len(),
{
    let tail = spec_sat_add(list[k].end_time, VIBRATO_RELEASE_TAIL_NS);
    if k + 1 < list.len() && list[k + 1].start_time < tail {
        list[k + 1].start_time
    } else {
        tail
    }
}

/// The vibrato writes of one voice's ordered segment list from position `k`
/// on, for the segments whose program has vibrato enabled.
pub open spec fn spec_vibrato_list(
    list: Seq<NoteSegment>,
    global: bool,
    overrides: Seq<(u8, ProgramEffectOverrides)>,
    k: int,
) -> Seq<RegisterWrite>
    decreases list.len() - k,
{
    if k < 0 || k >= list.len() {
        Seq::<RegisterWrite>::empty()
    } else {
        let writes = if spec_vibrato_enabled(global, overrides, list[k].program) {
            spec_vibrato_for_segment(list[k], spec_vibrato_stop(list, k))
        } else {
            Seq::<RegisterWrite>::empty()
        };
        writes + spec_vibrato_list(list, global, overrides, k + 1)
    }
}

/// All vibrato writes: voices ascending, each voice's segments in start
/// order.
pub open spec fn spec_delay_vibrato_from(
    segs: Seq<NoteSegment>,
    global: bool,
    overrides: Seq<(u8, ProgramEffectOverrides)>,
    ch: int,
) -> Seq<RegisterWrite>
    decreases 8 - ch,
{
    if ch < 0 || ch >= 8 {
        Seq::<RegisterWrite>::empty()
    } else {
        spec_vibrato_list(
            spec_sort_segments(spec_segments_for_channel(segs, ch as u8)),
            global,
            overrides,
            0,
        ) + spec_delay_vibrato_from(segs, global, overrides, ch + 1)
    }
}

fn vibrato_enabled_for(global: bool, overrides: &OverrideTable, program: u8) -> (r: bool)
    ensures
        r == spec_vibrato_enabled(global, overrides@, program),
{
    match overrides.get(program) {
        Some(o) => match &o.delay_vibrato {
            Some(b) => *b,
            None => global,
        },
        None => global,
    }
}

fn portamento_enabled_for(global: bool, overrides: &OverrideTable, program: u8) -> (r: bool)
    ensures
        r == spec_portamento_enabled(global, overrides@, program),
{
    match overrides.get(program) {
        Some(o) => match &o.portamento {
            Some(b) => *b,
            None => global,
        },
        None => global,
    }
}

/// Append the vibrato writes for one segment.
fn append_vibrato_for_segment(seg: &NoteSegment, stop_time: u64, events: &mut Vec<RegisterWrite>)
    requires
        seg.ym2151_channel < 8,
    ensures
        final(events)@ == old(events)@ + spec_vibrato_for_segment(*seg, stop_time),
{
    let vibrato_start = seg.start_time.saturating_add(DELAY_VIBRATO_DELAY_NS);
    if stop_time <= vibrato_start {
        proof {
            assert(events@ =~= old(events)@ + spec_vibrato_for_segment(*seg, stop_time));
        }
        return;
    }
    let ghost target = old(events)@ + spec_vibrato_for_segment(*seg, stop_time);
    let step = note_period_ns(seg.note);
    let channel = seg.ym2151_channel;
    let note = seg.note;
    let mut t = vibrato_start;
    let mut last: Option<(u8, u8)> = None;
    loop
        invariant_except_break
            channel < 8,
            channel == seg.ym2151_channel,
            note == seg.note,
            step == spec_step_ns(note),
            step >= 1,
            vibrato_start <= t <= stop_time,
            events@ + spec_vibrato_samples(channel, note, vibrato_start, stop_time, t, last)
                =~= target,
        ensures
            events@ =~= target,
        decreases stop_time - t,
    {
        let off = vibrato_offset_mc(t - vibrato_start);
        let (kc, kf) = midi_note_with_offset_to_kc_kf(note, off);
        let same = match last {
            Some(pair) => pair.0 == kc && pair.1 == kf,
            None => false,
        };
        if !same {
            events.push(RegisterWrite { time: t, addr: 0x28 + channel, data: kc });
            events.push(RegisterWrite { time: t, addr: 0x30 + channel, data: kf });
        }
        last = Some((kc, kf));
        if stop_time - t < step {
            break;
        }
        t = t + step;
    }
}

/// Append the delayed-vibrato writes: per voice in ascending order, segments
/// in start order, vibrato beginning a fixed delay into each note, ramping
/// up, oscillating at 6 Hz, and stopping half a second past the note's end
/// or at the voice's next note.
pub fn append_delay_vibrato_events(
    segments: &Vec<NoteSegment>,
    enabled: bool,
    overrides: &OverrideTable,
    events: &mut Vec<RegisterWrite>,
)
    requires
        forall|i: int|
            0 <= i < segments@.len() ==> (#[trigger] segments@[i]).ym2151_channel < 8,
    ensures
        final(events)@ == old(events)@ + spec_delay_vibrato_from(segments@, enabled, overrides@, 0),
{
    let mut ch: u8 = 0;
    while ch < 8
        invariant
            forall|i: int|
                0 <= i < segments@.len() ==> (#[trigger] segments@[i]).ym2151_channel < 8,
            0 <= ch <= 8,
            events@ + spec_delay_vibrato_from(segments@, enabled, overrides@, ch as int)
                =~= old(events)@ + spec_delay_vibrato_from(segments@, enabled, overrides@, 0),
        decreases 8 - ch,
    {
        let raw = segments_for_channel(segments, ch);
        let list = sort_segments(&raw);
        let ghost listv = list@;
        proof {
            lemma_filter_channel(segments@, ch);
            lemma_sort_channel(spec_segments_for_channel(segments@, ch));
        }
        let n = list.len();
        let mut k: usize = 0;
        while k < n
            invariant
                n == listv.len(),
                listv == list@,
                listv == spec_sort_segments(spec_segments_for_channel(segments@, ch)),
                forall|i: int| 0 <= i < listv.len() ==> (#[trigger] listv[i]).ym2151_channel < 8,
                0 <= ch < 8,
                0 <= k <= n,
                events@ + spec_vibrato_list(listv, enabled, overrides@, k as int)
                    + spec_delay_vibrato_from(segments@, enabled, overrides@, ch + 1)
                    =~= old(events)@ + spec_delay_vibrato_from(segments@, enabled, overrides@, 0),
            decreases n - k,
        {
            let seg = list[k];
            let stop = if k + 1 < n {
                let tail = seg.end_time.saturating_add(VIBRATO_RELEASE_TAIL_NS);
                if list[k + 1].start_time < tail {
                    list[k + 1].start_time
                } else {
                    tail
                }
            } else {
                seg.end_time.saturating_add(VIBRATO_RELEASE_TAIL_NS)
            };
            proof {
                assert(stop == spec_vibrato_stop(listv, k as int));
            }
            if vibrato_enabled_for(enabled, overrides, seg.program) {
                append_vibrato_for_segment(&seg, stop, events);
            }
            k = k + 1;
        }
        ch = ch + 1;
    }
}

/// A voice's filtered segments all carry that voice.
proof fn lemma_filter_channel(segs: Seq<NoteSegment>, ch: u8)
    ensures
        forall|i: int|
            0 <= i < spec_segments_for_channel(segs, ch).len()
                ==> (#[trigger] spec_segments_for_channel(segs, ch)[i]).ym2151_channel == ch,
    decreases segs.len(),
{
    if segs.len() > 0 {
        lemma_filter_channel(segs.drop_last(), ch);
        let prev = spec_segments_for_channel(segs.drop_last(), ch);
        let cur = spec_segments_for_channel(segs, ch);
        assert forall|i: int| 0 <= i < cur.len() implies (#[trigger] cur[i]).ym2151_channel
            == ch by {
            if i < prev.len() {
                assert(cur[i] == prev[i]);
            }
        }
    }
}

/// Sorting keeps every element's properties: the sorted list holds exactly
/// the same segments, so a bound on the voice carries over.
proof fn lemma_sort_channel(list: Seq<NoteSegment>)
    ensures
        forall|i: int|
            0 <= i < spec_sort_segments(list).len() ==> exists|j: int|
                0 <= j < list.len() && (#[trigger] spec_sort_segments(list)[i]) == list[j],
        spec_sort_segments(list).len() == list.len(),
    decreases list.len(),
{
    if list.len() > 0 {
        lemma_sort_channel(list.drop_last());
        lemma_insert_membership(spec_sort_segments(list.drop_last()), list.last());
        assert forall|i: int| 0 <= i < spec_sort_segments(list).len() implies exists|j: int|
            0 <= j < list.len() && (#[trigger] spec_sort_segments(list)[i]) == list[j] by {
            let s = spec_sort_segments(list.drop_last());
            let cur = spec_sort_segments(list);
            assert(cur == spec_insert_segment(s, list.last()));
            let x = cur[i];
            assert(exists|j: int| 0 <= j < s.len() && s[j] == x || x == list.last());
            if x == list.last() {
                assert(cur[i] == list[list.len() - 1]);
            } else {
                let j = choose|j: int| 0 <= j < s.len() && s[j] == x;
                let j2 = choose|j2: int| 0 <= j2 < list.drop_last().len() && s[j] == list.drop_last()[j2];
                assert(cur[i] == list[j2]);
            }
        }
    }
}

/// Inserting keeps membership: every element of the result is the inserted
/// one or one of the old ones.
proof fn lemma_insert_membership(list: Seq<NoteSegment>, seg: NoteSegment)
    ensures
        spec_insert_segment(list, seg).len() == list.len() + 1,
        forall|i: int|
            0 <= i < spec_insert_segment(list, seg).len() ==> (exists|j: int|
                0 <= j < list.len() && list[j] == #[trigger] spec_insert_segment(list, seg)[i])
                || spec_insert_segment(list, seg)[i] == seg,
    decreases list.len(),
{
    if list.len() == 0 {
    } else if list.last().start_time <= seg.start_time {
        assert forall|i: int| 0 <= i < spec_insert_segment(list, seg).len() implies (exists|j: int|
            0 <= j < list.len() && list[j] == #[trigger] spec_insert_segment(list, seg)[i])
            || spec_insert_segment(list, seg)[i] == seg by {
            if i < list.len() {
                assert(list[i] == spec_insert_segment(list, seg)[i]);
            }
        }
    } else {
        lemma_insert_membership(list.drop_last(), seg);
        assert forall|i: int| 0 <= i < spec_insert_segment(list, seg).len() implies (exists|j: int|
            0 <= j < list.len() && list[j] == #[trigger] spec_insert_segment(list, seg)[i])
            || spec_insert_segment(list, seg)[i] == seg by {
            let inner = spec_insert_segment(list.drop_last(), seg);
            if i < inner.len() {
                assert(spec_insert_segment(list, seg)[i] == inner[i]);
                if inner[i] != seg {
                    let j = choose|j: int| 0 <= j < list.drop_last().len() && list.drop_last()[j]
                        == inner[i];
                    assert(list[j] == inner[i]);
                }
            } else {
                assert(spec_insert_segment(list, seg)[i] == list[list.len() - 1]);
            }
        }
    }
}

/// Sorting all segments keeps every voice bound: when every given segment's
/// voice is below 8, so is every sorted segment's.
pub proof fn lemma_sorted_channels(list: Seq<NoteSegment>)
    requires
        forall|i: int| 0 <= i < list.len() ==> (#[trigger] list[i]).ym2151_channel < 8,
    ensures
        spec_sort_segments(list).len() == list.len(),
        forall|i: int|
            0 <= i < spec_sort_segments(list).len()
                ==> (#[trigger] spec_sort_segments(list)[i]).ym2151_channel < 8,
{
    lemma_sort_channel(list);
    assert forall|i: int| 0 <= i < spec_sort_segments(list).len()
        implies (#[trigger] spec_sort_segments(list)[i]).ym2151_channel < 8 by {
        let x = spec_sort_segments(list)[i];
        let j = choose|j: int| 0 <= j < list.len() && x == list[j];
        assert(list[j].ym2151_channel < 8);
    }
}


/// A note at 440 Hz (MIDI note 69) sounding two seconds, with vibrato on,
/// gets at least one key-fraction write with nonzero data after the fixed
/// delay: at the eighth sample the ramped triangle has lifted the pitch by
/// over 20 cents, which rounds to key fraction 4.
pub proof fn lemma_vibrato_produces_nonzero_key_fraction(seg: NoteSegment)
    requires
        seg.ym2151_channel < 8,
        seg.note == 69,
        seg.end_time == seg.start_time + 2_000_000_000,
        seg.start_time <= 1_000_000_000_000,
    ensures
        ({
            let w = spec_vibrato_for_segment(
                seg,
                spec_sat_add(seg.end_time, VIBRATO_RELEASE_TAIL_NS),
            );
            exists|i: int|
                0 <= i < w.len() && (#[trigger] w[i]).addr == 0x30 + seg.ym2151_channel
                    && w[i].data != 0 && w[i].time > spec_sat_add(
                    seg.start_time,
                    DELAY_VIBRATO_DELAY_NS,
                )
        }),
{
    let ch = seg.ym2151_channel;
    let vs = spec_sat_add(seg.start_time, DELAY_VIBRATO_DELAY_NS);
    let stop = spec_sat_add(seg.end_time, VIBRATO_RELEASE_TAIL_NS);
    assert(vs == seg.start_time + 200_000_000);
    assert(stop == seg.start_time + 2_500_000_000);
    // The sampling step is the 440 Hz period.
    assert(BASE_PERIODS_NS[9] == 72727272);
    assert(72727272u64 >> 5u64 == 2272727u64) by (bit_vector);
    assert(spec_period_ns(69) == 2272727);
    let step = spec_step_ns(69);
    assert(step == 2272727);
    // The pitch offsets of the first eight samples, in milli-cents: the
    // attack ramp times the rising triangle, all within the first quarter
    // cycle.
    assert(spec_vibrato_offset_mc(0) == 0) by {
        let wave = spec_triangle(0);
        assert(wave == 0);
        assert(0int / 300 == 0);
        assert(100_000 * (0int / 300) * wave == 0) by (nonlinear_arith)
            requires
                wave == 0,
                0int / 300 == 0,
        ;
        assert(0int / 1_000_000_000_000 == 0);
    }
    assert(spec_vibrato_offset_mc(2272727) == 41) by {
        let wave = spec_triangle(13636362);
        assert(wave == 54545);
        assert(2272727int / 300 == 7575);
        assert(100_000 * (2272727int / 300) * wave == 41317837500000) by (nonlinear_arith)
            requires
                wave == 54545,
                2272727int / 300 == 7575,
        ;
        assert(41317837500000int / 1_000_000_000_000 == 41);
    }
    assert(spec_vibrato_offset_mc(4545454) == 165) by {
        let wave = spec_triangle(27272724);
        assert(wave == 109090);
        assert(4545454int / 300 == 15151);
        assert(100_000 * (4545454int / 300) * wave == 165282259000000) by (nonlinear_arith)
            requires
                wave == 109090,
                4545454int / 300 == 15151,
        ;
        assert(165282259000000int / 1_000_000_000_000 == 165);
    }
    assert(spec_vibrato_offset_mc(6818181) == 371) by {
        let wave = spec_triangle(40909086);
        assert(wave == 163636);
        assert(6818181int / 300 == 22727);
        assert(100_000 * (6818181int / 300) * wave == 371895537200000) by (nonlinear_arith)
            requires
                wave == 163636,
                6818181int / 300 == 22727,
        ;
        assert(371895537200000int / 1_000_000_000_000 == 371);
    }
    assert(spec_vibrato_offset_mc(9090908) == 661) by {
        let wave = spec_triangle(54545448);
        assert(wave == 218181);
        assert(9090908int / 300 == 30303);
        assert(100_000 * (9090908int / 300) * wave == 661153884300000) by (nonlinear_arith)
            requires
                wave == 218181,
                9090908int / 300 == 30303,
        ;
        assert(661153884300000int / 1_000_000_000_000 == 661);
    }
    assert(spec_vibrato_offset_mc(11363635) == 1033) by {
        let wave = spec_triangle(68181810);
        assert(wave == 272727);
        assert(11363635int / 300 == 37878);
        assert(100_000 * (11363635int / 300) * wave == 1033035330600000) by (nonlinear_arith)
            requires
                wave == 272727,
                11363635int / 300 == 37878,
        ;
        assert(1033035330600000int / 1_000_000_000_000 == 1033);
    }
    assert(spec_vibrato_offset_mc(13636362) == 1487) by {
        let wave = spec_triangle(81818172);
        assert(wave == 327272);
        assert(13636362int / 300 == 45454);
        assert(100_000 * (13636362int / 300) * wave == 1487582148800000) by (nonlinear_arith)
            requires
                wave == 327272,
                13636362int / 300 == 45454,
        ;
        assert(1487582148800000int / 1_000_000_000_000 == 1487);
    }
    assert(spec_vibrato_offset_mc(15909089) == 2024) by {
        let wave = spec_triangle(95454534);
        assert(wave == 381818);
        assert(15909089int / 300 == 53030);
        assert(100_000 * (15909089int / 300) * wave == 2024780854000000) by (nonlinear_arith)
            requires
                wave == 381818,
                15909089int / 300 == 53030,
        ;
        assert(2024780854000000int / 1_000_000_000_000 == 2024);
    }
    // Their key encodings: the key code stays on the note's semitone, and
    // the key fraction first becomes nonzero at the eighth sample.
    assert(spec_kc_kf(69, 0) == (0x4Au8, 0u8));
    assert(spec_kc_kf(69, 41) == (0x4Au8, 0u8));
    assert(spec_kc_kf(69, 165) == (0x4Au8, 0u8));
    assert(spec_kc_kf(69, 371) == (0x4Au8, 0u8));
    assert(spec_kc_kf(69, 661) == (0x4Au8, 0u8));
    assert(spec_kc_kf(69, 1033) == (0x4Au8, 0u8));
    assert(spec_kc_kf(69, 1487) == (0x4Au8, 0u8));
    assert(spec_kc_kf(69, 2024) == (0x4Au8, 4u8));
    // Walk the samples: the first emits the unmodulated pair, the next six
    // repeat it and are suppressed, the eighth emits the modulated pair.
    let t0 = vs;
    let last0: Option<(u8, u8)> = Some((0x4Au8, 0u8));
    let head = seq![
        RegisterWrite { time: t0, addr: (0x28 + ch) as u8, data: 0x4A },
        RegisterWrite { time: t0, addr: (0x30 + ch) as u8, data: 0 },
    ];
    assert(spec_vibrato_samples(ch, 69, vs, stop, t0, None) =~= head + spec_vibrato_samples(
        ch,
        69,
        vs,
        stop,
        (t0 + 2272727) as u64,
        last0,
    ));
    assert(spec_vibrato_samples(ch, 69, vs, stop, (vs + 2272727) as u64, last0)
        =~= spec_vibrato_samples(ch, 69, vs, stop, (vs + 4545454) as u64, last0));
    assert(spec_vibrato_samples(ch, 69, vs, stop, (vs + 4545454) as u64, last0)
        =~= spec_vibrato_samples(ch, 69, vs, stop, (vs + 6818181) as u64, last0));
    assert(spec_vibrato_samples(ch, 69, vs, stop, (vs + 6818181) as u64, last0)
        =~= spec_vibrato_samples(ch, 69, vs, stop, (vs + 9090908) as u64, last0));
    assert(spec_vibrato_samples(ch, 69, vs, stop, (vs + 9090908) as u64, last0)
        =~= spec_vibrato_samples(ch, 69, vs, stop, (vs + 11363635) as u64, last0));
    assert(spec_vibrato_samples(ch, 69, vs, stop, (vs + 11363635) as u64, last0)
        =~= spec_vibrato_samples(ch, 69, vs, stop, (vs + 13636362) as u64, last0));
    assert(spec_vibrato_samples(ch, 69, vs, stop, (vs + 13636362) as u64, last0)
        =~= spec_vibrato_samples(ch, 69, vs, stop, (vs + 15909089) as u64, last0));
    let t7 = (vs + 15909089) as u64;
    assert(t7 == vs + 15909089);
    let pair7 = seq![
        RegisterWrite { time: t7, addr: (0x28 + ch) as u8, data: 0x4A },
        RegisterWrite { time: t7, addr: (0x30 + ch) as u8, data: 4 },
    ];
    assert(spec_vibrato_samples(ch, 69, vs, stop, t7, last0) =~= pair7 + spec_vibrato_samples(
        ch,
        69,
        vs,
        stop,
        (t7 + 2272727) as u64,
        Some((0x4Au8, 4u8)),
    ));
    let w = spec_vibrato_for_segment(seg, stop);
    assert(w == spec_vibrato_samples(ch, 69, vs, stop, t0, None));
    let tail = spec_vibrato_samples(ch, 69, vs, stop, (t7 + 2272727) as u64, Some((0x4Au8, 4u8)));
    assert(w =~= head + pair7 + tail) by {
        assert((t0 + 2272727) as u64 == (vs + 2272727) as u64);
    }
    assert(w[3] == RegisterWrite { time: t7, addr: (0x30 + ch) as u8, data: 4 });
    assert(w[3].addr == 0x30 + ch);
    assert(w[3].data != 0);
    assert(w[3].time > spec_sat_add(seg.start_time, DELAY_VIBRATO_DELAY_NS));
    assert(0 <= 3 < w.len());
}

// ---------------------------------------------------------------------------
// Portamento
// ---------------------------------------------------------------------------

/// Whether portamento runs for a program: its override when present, else
/// the global toggle.
pub open spec fn spec_portamento_enabled(
    global: bool,
    overrides: Seq<(u8, ProgramEffectOverrides)>,
    program: u8,
) -> bool {
    match spec_lookup(overrides, program) {
        Some(o) => match o.portamento {
            Some(b) => b,
            None => global,
        },
        None => global,
    }
}

/// The glide's pitch offset at time `t` of a glide from `start` to `stop`:
/// the note delta scaled by the elapsed fraction of the window; in
/// milli-cents relative to the earlier note.
pub open spec fn spec_glide_offset_mc(delta_mc: int, start: u64, stop: u64, t: u64) -> int
    recommends
        start < stop,
        start <= t <= stop,
{
    let progress_micro = (t - start) * 1_000_000 / (stop - start);
    let mag = if delta_mc < 0 {
        (0 - delta_mc) * progress_micro / 1_000_000
    } else {
        delta_mc * progress_micro / 1_000_000
    };
    if delta_mc < 0 {
        0 - mag
    } else {
        mag
    }
}

/// The glide writes from sample time `t` on: at each step the interpolated
/// pitch is re-encoded and emitted when it differs from the previous sample.
pub open spec fn spec_glide_samples(
    channel: u8,
    prev_note: u8,
    delta_mc: int,
    start: u64,
    stop: u64,
    t: u64,
    last: Option<(u8, u8)>,
    step: u64,
) -> Seq<RegisterWrite>
    recommends
        channel < 8,
        start < stop,
        start <= t <= stop,
        step >= 1,
    decreases stop - t,
{
    if t > stop {
        Seq::<RegisterWrite>::empty()
    } else {
        let kckf = spec_kc_kf(prev_note, spec_glide_offset_mc(delta_mc, start, stop, t));
        let emitted: Seq<RegisterWrite> = if last == Some(kckf) {
            Seq::<RegisterWrite>::empty()
        } else {
            seq![
                RegisterWrite { time: t, addr: (0x28 + channel) as u8, data: kckf.0 },
                RegisterWrite { time: t, addr: (0x30 + channel) as u8, data: kckf.1 },
            ]
        };
        let step1: u64 = if step == 0 {
            1
        } else {
            step
        };
        if stop - t < step1 {
            let landing = spec_kc_kf(prev_note, spec_glide_offset_mc(delta_mc, start, stop, stop));
            let arrival: Seq<RegisterWrite> = if t < stop && landing != kckf {
                seq![
                    RegisterWrite { time: stop, addr: (0x28 + channel) as u8, data: landing.0 },
                    RegisterWrite { time: stop, addr: (0x30 + channel) as u8, data: landing.1 },
                ]
            } else {
                Seq::<RegisterWrite>::empty()
            };
            emitted + arrival
        } else {
            emitted + spec_glide_samples(
                channel,
                prev_note,
                delta_mc,
                start,
                stop,
                (t + step1) as u64,
                Some(kckf),
                step,
            )
        }
    }
}

/// The writes of one glide: nothing when the notes are equal or the window
/// is empty; otherwise samples at the later note's period from the window's
/// start, with a final sample at the window's end so the glide lands on the
/// later note's pitch.
pub open spec fn spec_glide(
    prev_note: u8,
    next_note: u8,
    channel: u8,
    start: u64,
    stop: u64,
) -> Seq<RegisterWrite>
    recommends
        channel < 8,
{
    if prev_note == next_note || stop <= start {
        Seq::<RegisterWrite>::empty()
    } else {
        spec_glide_samples(
            channel,
            prev_note,
            (next_note - prev_note) * 100_000,
            start,
            stop,
            start,
            None,
            spec_step_ns(next_note),
        )
    }
}

/// The portamento writes of one voice's ordered segment list from position
/// `k` on: every consecutive pair whose later note's program has portamento
/// enabled glides over a fixed window from the later note's start, clamped
/// to its end.
pub open spec fn spec_portamento_list(
    list: Seq<NoteSegment>,
    global: bool,
    overrides: Seq<(u8, ProgramEffectOverrides)>,
    k: int,
) -> Seq<RegisterWrite>
    decreases list.len() - k,
{
    if k < 0 || k + 1 >= list.len() {
        Seq::<RegisterWrite>::empty()
    } else {
        let prev = list[k];
        let next = list[k + 1];
        let writes: Seq<RegisterWrite> = if spec_portamento_enabled(
            global,
            overrides,
            next.program,
        ) {
            let cap = spec_sat_add(next.start_time, PORTAMENTO_TIME_NS);
            let stop = if next.end_time < cap {
                next.end_time
            } else {
                cap
            };
            if stop <= next.start_time {
                Seq::<RegisterWrite>::empty()
            } else {
                spec_glide(prev.note, next.note, next.ym2151_channel, next.start_time, stop)
            }
        } else {
            Seq::<RegisterWrite>::empty()
        };
        writes + spec_portamento_list(list, global, overrides, k + 1)
    }
}

/// All portamento writes: voices ascending, each voice's segments in start
/// order.
pub open spec fn spec_portamento_from(
    segs: Seq<NoteSegment>,
    global: bool,
    overrides: Seq<(u8, ProgramEffectOverrides)>,
    ch: int,
) -> Seq<RegisterWrite>
    decreases 8 - ch,
{
    if ch < 0 || ch >= 8 {
        Seq::<RegisterWrite>::empty()
    } else {
        spec_portamento_list(
            spec_sort_segments(spec_segments_for_channel(segs, ch as u8)),
            global,
            overrides,
            0,
        ) + spec_portamento_from(segs, global, overrides, ch + 1)
    }
}

fn glide_offset_mc(delta_mc: i64, start: u64, stop: u64, t: u64) -> (r: i64)
    requires
        start < stop,
        start <= t <= stop,
        -25_500_000 <= delta_mc <= 25_500_000,
    ensures
        r == spec_glide_offset_mc(delta_mc as int, start, stop, t),
        -25_500_000 <= r <= 25_500_000,
{
    let progress_micro: u128 = ((t - start) as u128) * 1_000_000 / ((stop - start) as u128);
    proof {
        assert((t - start) * 1_000_000 / (stop - start) <= 1_000_000) by (nonlinear_arith)
            requires
                0 <= t - start <= stop - start,
                stop - start >= 1,
        ;
        assert((t - start) * 1_000_000 / (stop - start) >= 0) by (nonlinear_arith)
            requires
                0 <= t - start,
                stop - start >= 1,
        ;
    }
    let delta_mag: u128 = if delta_mc < 0 {
        (-(delta_mc as i128)) as u128
    } else {
        delta_mc as u128
    };
    proof {
        assert(delta_mag * progress_micro <= 25_500_000_000_000) by (nonlinear_arith)
            requires
                0 <= delta_mag <= 25_500_000,
                0 <= progress_micro <= 1_000_000,
        ;
    }
    let mag: u128 = delta_mag * progress_micro / 1_000_000;
    if delta_mc < 0 {
        -((mag as i128) as i64)
    } else {
        (mag as i128) as i64
    }
}

/// Append the writes of one glide.
fn append_portamento_glide(
    prev_note: u8,
    next_note: u8,
    ym2151_channel: u8,
    start_time: u64,
    stop_time: u64,
    events: &mut Vec<RegisterWrite>,
)
    requires
        ym2151_channel < 8,
        start_time < stop_time,
    ensures
        final(events)@ == old(events)@ + spec_glide(
            prev_note,
            next_note,
            ym2151_channel,
            start_time,
            stop_time,
        ),
{
    if prev_note == next_note {
        proof {
            assert(events@ =~= old(events)@ + spec_glide(
                prev_note,
                next_note,
                ym2151_channel,
                start_time,
                stop_time,
            ));
        }
        return;
    }
    let ghost target = old(events)@ + spec_glide(
        prev_note,
        next_note,
        ym2151_channel,
        start_time,
        stop_time,
    );
    let delta_mc: i64 = (next_note as i64 - prev_note as i64) * 100_000;
    let step = note_period_ns(next_note);
    let mut t = start_time;
    let mut last: Option<(u8, u8)> = None;
    loop
        invariant_except_break
            ym2151_channel < 8,
            prev_note != next_note,
            start_time < stop_time,
            delta_mc == (next_note - prev_note) * 100_000,
            -25_500_000 <= delta_mc <= 25_500_000,
            step == spec_step_ns(next_note),
            step >= 1,
            start_time <= t <= stop_time,
            events@ + spec_glide_samples(
                ym2151_channel,
                prev_note,
                delta_mc as int,
                start_time,
                stop_time,
                t,
                last,
                step,
            ) =~= target,
        ensures
            events@ =~= target,
        decreases stop_time - t,
    {
        let off = glide_offset_mc(delta_mc, start_time, stop_time, t);
        let (kc, kf) = midi_note_with_offset_to_kc_kf(prev_note, off);
        let same = match last {
            Some(pair) => pair.0 == kc && pair.1 == kf,
            None => false,
        };
        if !same {
            events.push(RegisterWrite { time: t, addr: 0x28 + ym2151_channel, data: kc });
            events.push(RegisterWrite { time: t, addr: 0x30 + ym2151_channel, data: kf });
        }
        last = Some((kc, kf));
        if stop_time - t < step {
            let off_end = glide_offset_mc(delta_mc, start_time, stop_time, stop_time);
            let (kc2, kf2) = midi_note_with_offset_to_kc_kf(prev_note, off_end);
            if t < stop_time && !(kc2 == kc && kf2 == kf) {
                events.push(
                    RegisterWrite { time: stop_time, addr: 0x28 + ym2151_channel, data: kc2 },
                );
                events.push(
                    RegisterWrite { time: stop_time, addr: 0x30 + ym2151_channel, data: kf2 },
                );
            }
            break;
        }
        t = t + step;
    }
}

/// Append the portamento writes: per voice in ascending order, every
/// consecutive pair of segments whose later note's program has portamento
/// enabled glides from the earlier pitch to the later one over a fixed
/// window at the later note's onset.
pub fn append_portamento_events(
    segments: &Vec<NoteSegment>,
    enabled: bool,
    overrides: &OverrideTable,
    events: &mut Vec<RegisterWrite>,
)
    requires
        forall|i: int|
            0 <= i < segments@.len() ==> (#[trigger] segments@[i]).ym2151_channel < 8,
    ensures
        final(events)@ == old(events)@ + spec_portamento_from(segments@, enabled, overrides@, 0),
{
    let mut ch: u8 = 0;
    while ch < 8
        invariant
            forall|i: int|
                0 <= i < segments@.len() ==> (#[trigger] segments@[i]).ym2151_channel < 8,
            0 <= ch <= 8,
            events@ + spec_portamento_from(segments@, enabled, overrides@, ch as int)
                =~= old(events)@ + spec_portamento_from(segments@, enabled, overrides@, 0),
        decreases 8 - ch,
    {
        let raw = segments_for_channel(segments, ch);
        let list = sort_segments(&raw);
        let ghost listv = list@;
        proof {
            lemma_filter_channel(segments@, ch);
            lemma_sort_channel(spec_segments_for_channel(segments@, ch));
        }
        let n = list.len();
        proof {
            if n == 0 {
                assert(spec_portamento_list(listv, enabled, overrides@, 0)
                    =~= Seq::<RegisterWrite>::empty());
            }
        }
        if n > 0 {
            let mut k: usize = 0;
            while k < n - 1
                invariant
                    1 <= n,
                    n == listv.len(),
                    listv == list@,
                    forall|i: int|
                        0 <= i < listv.len() ==> (#[trigger] listv[i]).ym2151_channel < 8,
                    listv == spec_sort_segments(spec_segments_for_channel(segments@, ch)),
                    0 <= ch < 8,
                    0 <= k <= n,
                    events@ + spec_portamento_list(listv, enabled, overrides@, k as int)
                        + spec_portamento_from(segments@, enabled, overrides@, ch + 1)
                        =~= old(events)@ + spec_portamento_from(segments@, enabled, overrides@, 0),
                decreases n - k,
            {
                let prev = list[k];
                let next = list[k + 1];
                if portamento_enabled_for(enabled, overrides, next.program) {
                    let cap = next.start_time.saturating_add(PORTAMENTO_TIME_NS);
                    let stop = if next.end_time < cap {
                        next.end_time
                    } else {
                        cap
                    };
                    if stop > next.start_time {
                        append_portamento_glide(
                            prev.note,
                            next.note,
                            next.ym2151_channel,
                            next.start_time,
                            stop,
                            events,
                        );
                    }
                }
                k = k + 1;
            }
        }
        ch = ch + 1;
    }
}

} // verus!
