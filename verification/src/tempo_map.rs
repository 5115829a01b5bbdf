//! The tempo timeline: building a piecewise-constant tempo map from the
//! event stream, and converting ticks to elapsed nanoseconds and to sample
//! counts at the chip's 55930 Hz rate.

use vstd::prelude::*;
use vstd::arithmetic::div_mod::lemma_div_is_ordered;
use vstd::arithmetic::mul::lemma_mul_inequality;
use vstd::arithmetic::mul::lemma_mul_upper_bound;
use crate::events::MidiData;
use crate::events::MidiEvent;
use crate::events::TempoChange;

verus! {

/// The chip's sample rate in Hz.
pub const YM2151_SAMPLE_RATE: u32 = 55930;

/// The tempo assumed when a tempo map is empty, in milli-BPM.
pub const DEFAULT_TEMPO_BPM_MILLI: u32 = 120_000;

/// Nanoseconds in one minute times 1000, the factor that turns
/// ticks / (milli-BPM * ticks-per-beat) into nanoseconds.
pub const NANOS_PER_MINUTE_MILLI: u64 = 60_000_000_000_000;

/// Saturating addition on `u64`.
pub open spec fn spec_sat_add(a: u64, b: u64) -> u64 {
    if a + b > u64::MAX {
        u64::MAX
    } else {
        (a + b) as u64
    }
}

/// Nanoseconds taken by `ticks` ticks at a constant tempo, rounded down;
/// a non-positive span is 0, and a zero tempo or zero resolution saturates.
pub open spec fn spec_ticks_to_ns(ticks: int, ticks_per_beat: u16, tempo_bpm_milli: u32) -> u64 {
    if ticks <= 0 {
        0
    } else if ticks_per_beat == 0 || tempo_bpm_milli == 0 {
        u64::MAX
    } else {
        let v = ticks * NANOS_PER_MINUTE_MILLI / ((tempo_bpm_milli as int) * (ticks_per_beat as int));
        if v > u64::MAX {
            u64::MAX
        } else {
            v as u64
        }
    }
}

/// Samples at 55930 Hz elapsed after `ns` nanoseconds, rounded down and
/// saturating at the largest `u32`.
pub open spec fn spec_ns_to_samples(ns: u64) -> u32 {
    let v = ns * (YM2151_SAMPLE_RATE as int) / 1_000_000_000;
    if v > u32::MAX {
        u32::MAX
    } else {
        v as u32
    }
}

/// Elapsed nanoseconds at `target` under the changes from index `i` on,
/// counted from `map[i].tick`: full segments between consecutive changes at
/// the earlier change's tempo, then the partial remainder at the tempo of the
/// segment holding `target`.
pub open spec fn spec_time_ns_from(
    map: Seq<TempoChange>,
    ticks_per_beat: u16,
    target: u32,
    i: int,
) -> u64
    recommends
        0 <= i < map.len(),
    decreases map.len() - i,
{
    if i + 1 >= map.len() || target <= map[i + 1].tick {
        spec_ticks_to_ns(target - map[i].tick, ticks_per_beat, map[i].tempo_bpm_milli)
    } else {
        spec_sat_add(
            spec_ticks_to_ns(
                map[i + 1].tick - map[i].tick,
                ticks_per_beat,
                map[i].tempo_bpm_milli,
            ),
            spec_time_ns_from(map, ticks_per_beat, target, i + 1),
        )
    }
}

/// Elapsed nanoseconds at tick `target` under a tempo map: the default tempo
/// when the map is empty; the first change's tempo for any span before the
/// first change; otherwise the segment walk from the first change on.
pub open spec fn spec_time_ns(map: Seq<TempoChange>, ticks_per_beat: u16, target: u32) -> u64 {
    if map.len() == 0 {
        spec_ticks_to_ns(target as int, ticks_per_beat, DEFAULT_TEMPO_BPM_MILLI)
    } else if target <= map[0].tick {
        spec_ticks_to_ns(target as int, ticks_per_beat, map[0].tempo_bpm_milli)
    } else {
        spec_time_ns_from(map, ticks_per_beat, target, 0)
    }
}

/// A well-formed tempo map: at least one entry, the first at tick 0, ticks
/// strictly ascending.
pub open spec fn wf_tempo_map(map: Seq<TempoChange>) -> bool {
    &&& map.len() >= 1
    &&& map[0].tick == 0
    &&& forall|i: int, j: int| 0 <= i < j < map.len() ==> map[i].tick < map[j].tick
}

/// The tempo in milli-BPM a MIDI tempo meta value denotes: a quarter note
/// every `microseconds_per_beat` microseconds. A zero value saturates.
pub fn tempo_to_bpm_milli(microseconds_per_beat: u32) -> (r: u32)
    ensures
        microseconds_per_beat > 0 ==> r == if 60_000_000_000u64 / microseconds_per_beat as u64
            > u32::MAX {
            u32::MAX as int
        } else {
            60_000_000_000int / microseconds_per_beat as int
        },
        microseconds_per_beat == 0 ==> r == u32::MAX,
{
    if microseconds_per_beat == 0 {
        u32::MAX
    } else {
        let v: u64 = 60_000_000_000u64 / (microseconds_per_beat as u64);
        if v > u32::MAX as u64 {
            u32::MAX
        } else {
            v as u32
        }
    }
}

/// Nanoseconds taken by `ticks` ticks at a constant tempo.
pub fn ticks_to_nanoseconds(ticks: u32, ticks_per_beat: u16, tempo_bpm_milli: u32) -> (r: u64)
    ensures
        r == spec_ticks_to_ns(ticks as int, ticks_per_beat, tempo_bpm_milli),
{
    if ticks == 0 {
        0
    } else if ticks_per_beat == 0 || tempo_bpm_milli == 0 {
        u64::MAX
    } else {
        proof {
            lemma_mul_upper_bound(
                ticks as int,
                u32::MAX as int,
                NANOS_PER_MINUTE_MILLI as int,
                NANOS_PER_MINUTE_MILLI as int,
            );
        }
        let num: u128 = (ticks as u128) * (NANOS_PER_MINUTE_MILLI as u128);
        proof {
            lemma_mul_upper_bound(
                tempo_bpm_milli as int,
                u32::MAX as int,
                ticks_per_beat as int,
                u16::MAX as int,
            );
        }
        let den: u128 = (tempo_bpm_milli as u128) * (ticks_per_beat as u128);
        proof {
            assert((tempo_bpm_milli as int) * (ticks_per_beat as int) >= 1) by (nonlinear_arith)
                requires
                    tempo_bpm_milli >= 1,
                    ticks_per_beat >= 1,
            ;
        }
        let v: u128 = num / den;
        if v > u64::MAX as u128 {
            u64::MAX
        } else {
            v as u64
        }
    }
}

/// Samples at 55930 Hz elapsed after `ns` nanoseconds.
pub fn nanoseconds_to_samples(ns: u64) -> (r: u32)
    ensures
        r == spec_ns_to_samples(ns),
{
    let v: u128 = (ns as u128) * (YM2151_SAMPLE_RATE as u128) / 1_000_000_000;
    if v > u32::MAX as u128 {
        u32::MAX
    } else {
        v as u32
    }
}

/// Samples at 55930 Hz elapsed at tick `ticks` at a constant tempo.
pub fn ticks_to_samples(ticks: u32, ticks_per_beat: u16, tempo_bpm_milli: u32) -> (r: u32)
    ensures
        r == spec_ns_to_samples(spec_ticks_to_ns(ticks as int, ticks_per_beat, tempo_bpm_milli)),
{
    nanoseconds_to_samples(ticks_to_nanoseconds(ticks, ticks_per_beat, tempo_bpm_milli))
}

/// Elapsed nanoseconds at tick `target_tick` under a tempo map.
pub fn ticks_to_nanoseconds_with_tempo_map(
    target_tick: u32,
    ticks_per_beat: u16,
    tempo_map: &Vec<TempoChange>,
) -> (r: u64)
    ensures
        r == spec_time_ns(tempo_map@, ticks_per_beat, target_tick),
{
    let n = tempo_map.len();
    if n == 0 {
        return ticks_to_nanoseconds(target_tick, ticks_per_beat, DEFAULT_TEMPO_BPM_MILLI);
    }
    if target_tick <= tempo_map[0].tick {
        return ticks_to_nanoseconds(target_tick, ticks_per_beat, tempo_map[0].tempo_bpm_milli);
    }
    let mut acc: u64 = 0;
    let mut i: usize = 0;
    while i + 1 < n && target_tick > tempo_map[i + 1].tick
        invariant
            n == tempo_map@.len(),
            0 <= i < n,
            target_tick > tempo_map@[0].tick,
            target_tick > tempo_map@[i as int].tick,
            spec_time_ns(tempo_map@, ticks_per_beat, target_tick) == spec_sat_add(
                acc,
                spec_time_ns_from(tempo_map@, ticks_per_beat, target_tick, i as int),
            ),
        decreases n - i,
    {
        let seg = if tempo_map[i + 1].tick >= tempo_map[i].tick {
            ticks_to_nanoseconds(
                tempo_map[i + 1].tick - tempo_map[i].tick,
                ticks_per_beat,
                tempo_map[i].tempo_bpm_milli,
            )
        } else {
            0
        };
        proof {
            lemma_sat_add_assoc(
                acc,
                seg,
                spec_time_ns_from(tempo_map@, ticks_per_beat, target_tick, i + 1),
            );
        }
        acc = acc.saturating_add(seg);
        i = i + 1;
    }
    let last = if target_tick >= tempo_map[i].tick {
        ticks_to_nanoseconds(
            target_tick - tempo_map[i].tick,
            ticks_per_beat,
            tempo_map[i].tempo_bpm_milli,
        )
    } else {
        0
    };
    acc.saturating_add(last)
}

/// Saturating addition reassociates.
proof fn lemma_sat_add_assoc(a: u64, b: u64, c: u64)
    ensures
        spec_sat_add(a, spec_sat_add(b, c)) == spec_sat_add(spec_sat_add(a, b), c),
{
}

/// Samples at 55930 Hz elapsed at tick `target_tick` under a tempo map.
pub fn ticks_to_samples_with_tempo_map(
    target_tick: u32,
    ticks_per_beat: u16,
    tempo_map: &Vec<TempoChange>,
) -> (r: u32)
    ensures
        r == spec_ns_to_samples(spec_time_ns(tempo_map@, ticks_per_beat, target_tick)),
{
    nanoseconds_to_samples(
        ticks_to_nanoseconds_with_tempo_map(target_tick, ticks_per_beat, tempo_map),
    )
}

/// Inserting a tempo change into a map sorted by tick: entries with greater
/// ticks shift right; an entry with the same tick is replaced, so the latest
/// change at a tick wins.
pub open spec fn spec_insert_tempo(m: Seq<TempoChange>, c: TempoChange) -> Seq<TempoChange>
    decreases m.len(),
{
    if m.len() == 0 {
        seq![c]
    } else if m.last().tick < c.tick {
        m.push(c)
    } else if m.last().tick == c.tick {
        m.update(m.len() - 1, c)
    } else {
        spec_insert_tempo(m.drop_last(), c).push(m.last())
    }
}

/// The tempo map a stream builds: the initial tempo at tick 0, then every
/// explicit tempo event inserted in turn, the latest at each tick winning.
pub open spec fn spec_build_tempo_map(
    initial_bpm_milli: u32,
    events: Seq<MidiEvent>,
) -> Seq<TempoChange>
    decreases events.len(),
{
    if events.len() == 0 {
        seq![TempoChange { tick: 0, tempo_bpm_milli: initial_bpm_milli }]
    } else {
        let m = spec_build_tempo_map(initial_bpm_milli, events.drop_last());
        match events.last() {
            MidiEvent::Tempo { ticks, tempo_bpm_milli } => spec_insert_tempo(
                m,
                TempoChange { tick: ticks, tempo_bpm_milli },
            ),
            _ => m,
        }
    }
}

/// Sortedness, the tick-0 entry and length survive an insertion.
proof fn lemma_insert_tempo_wf(m: Seq<TempoChange>, c: TempoChange)
    requires
        wf_tempo_map(m),
    ensures
        wf_tempo_map(spec_insert_tempo(m, c)),
    decreases m.len(),
{
    if m.len() == 0 {
    } else if m.last().tick < c.tick {
    } else if m.last().tick == c.tick {
    } else {
        if m.len() == 1 {
            assert(m.last().tick == 0);
        } else {
            let d = m.drop_last();
            assert(wf_tempo_map(d));
            lemma_insert_tempo_wf(d, c);
            lemma_insert_tempo_max(d, c);
            let r = spec_insert_tempo(d, c);
            assert(max_tick(d, c) < m.last().tick);
            let out = spec_insert_tempo(m, c);
            assert(out == r.push(m.last()));
            assert(forall|i: int, j: int|
                0 <= i < j < out.len() ==> out[i].tick < out[j].tick) by {
                assert(forall|i: int| 0 <= i < r.len() ==> #[trigger] r[i].tick <= max_tick(d, c));
            }
        }
    }
}

/// Every tick in an inserted map is bounded by the inserted tick or a tick
/// already present.
spec fn max_tick(m: Seq<TempoChange>, c: TempoChange) -> int {
    if m.len() == 0 {
        c.tick as int
    } else if m.last().tick >= c.tick {
        m.last().tick as int
    } else {
        c.tick as int
    }
}

proof fn lemma_insert_tempo_max(m: Seq<TempoChange>, c: TempoChange)
    requires
        forall|i: int, j: int| 0 <= i < j < m.len() ==> m[i].tick < m[j].tick,
    ensures
        forall|i: int|
            0 <= i < spec_insert_tempo(m, c).len() ==> #[trigger] spec_insert_tempo(m, c)[i].tick
                <= max_tick(m, c),
    decreases m.len(),
{
    let out = spec_insert_tempo(m, c);
    if m.len() == 0 {
    } else if m.last().tick < c.tick {
        assert forall|i: int| 0 <= i < out.len() implies #[trigger] out[i].tick <= max_tick(m, c) by {
            if i < m.len() - 1 {
                assert(m[i].tick < m[m.len() - 1].tick);
            }
        }
    } else if m.last().tick == c.tick {
        assert forall|i: int| 0 <= i < out.len() implies #[trigger] out[i].tick <= max_tick(m, c) by {
            if i < m.len() - 1 {
                assert(m[i].tick < m[m.len() - 1].tick);
            }
        }
    } else {
        let d = m.drop_last();
        lemma_insert_tempo_max(d, c);
        let r = spec_insert_tempo(d, c);
        assert(max_tick(d, c) <= max_tick(m, c)) by {
            if d.len() > 0 {
                assert(d[d.len() - 1].tick < m[m.len() - 1].tick);
            }
        }
        assert forall|i: int| 0 <= i < out.len() implies #[trigger] out[i].tick <= max_tick(m, c) by {
            if i < r.len() {
                assert(r[i].tick <= max_tick(d, c));
            }
        }
    }
}

/// Insert a tempo change into a map sorted by tick; the latest change at a
/// tick wins.
fn insert_tempo(m: &mut Vec<TempoChange>, c: TempoChange)
    ensures
        final(m)@ == spec_insert_tempo(old(m)@, c),
    decreases old(m)@.len(),
{
    let n = m.len();
    if n == 0 {
        m.push(c);
    } else if m[n - 1].tick < c.tick {
        m.push(c);
        assert(m@ =~= spec_insert_tempo(old(m)@, c));
    } else if m[n - 1].tick == c.tick {
        m.set(n - 1, c);
        assert(m@ =~= spec_insert_tempo(old(m)@, c));
    } else {
        let last = m[n - 1];
        let _ = m.pop();
        assert(m@ =~= old(m)@.drop_last());
        insert_tempo(m, c);
        m.push(last);
        assert(m@ =~= spec_insert_tempo(old(m)@, c));
    }
}

/// Build the tempo map for a stream: the initial tempo at tick 0, then every
/// explicit tempo event, sorted ascending by tick, the latest at each tick
/// winning. The result is well-formed.
pub fn build_tempo_map(midi_data: &MidiData) -> (r: Vec<TempoChange>)
    ensures
        r@ == spec_build_tempo_map(midi_data.tempo_bpm_milli, midi_data.events@),
        wf_tempo_map(r@),
{
    let mut tempo_map: Vec<TempoChange> = Vec::new();
    tempo_map.push(TempoChange { tick: 0, tempo_bpm_milli: midi_data.tempo_bpm_milli });
    assert(wf_tempo_map(tempo_map@));
    let n = midi_data.events.len();
    let mut i: usize = 0;
    while i < n
        invariant
            n == midi_data.events@.len(),
            0 <= i <= n,
            tempo_map@ == spec_build_tempo_map(
                midi_data.tempo_bpm_milli,
                midi_data.events@.subrange(0, i as int),
            ),
            wf_tempo_map(tempo_map@),
        decreases n - i,
    {
        let ghost pre = midi_data.events@.subrange(0, i as int);
        let ghost post = midi_data.events@.subrange(0, i + 1 as int);
        proof {
            assert(post.drop_last() =~= pre);
        }
        match &midi_data.events[i] {
            MidiEvent::Tempo { ticks, tempo_bpm_milli } => {
                let c = TempoChange { tick: *ticks, tempo_bpm_milli: *tempo_bpm_milli };
                proof {
                    lemma_insert_tempo_wf(tempo_map@, c);
                }
                insert_tempo(&mut tempo_map, c);
            },
            _ => {},
        }
        i = i + 1;
    }
    proof {
        assert(midi_data.events@.subrange(0, n as int) =~= midi_data.events@);
    }
    tempo_map
}

/// A longer span at the same tempo takes at least as long.
proof fn lemma_ticks_to_ns_monotone(t1: int, t2: int, ticks_per_beat: u16, tempo_bpm_milli: u32)
    requires
        t1 <= t2,
    ensures
        spec_ticks_to_ns(t1, ticks_per_beat, tempo_bpm_milli) <= spec_ticks_to_ns(
            t2,
            ticks_per_beat,
            tempo_bpm_milli,
        ),
{
    if t1 > 0 && ticks_per_beat != 0 && tempo_bpm_milli != 0 {
        let den = (tempo_bpm_milli as int) * (ticks_per_beat as int);
        assert((tempo_bpm_milli as int) * (ticks_per_beat as int) > 0) by (nonlinear_arith)
            requires
                tempo_bpm_milli >= 1,
                ticks_per_beat >= 1,
        ;
        lemma_mul_inequality(t1, t2, NANOS_PER_MINUTE_MILLI as int);
        lemma_div_is_ordered(
            t1 * NANOS_PER_MINUTE_MILLI,
            t2 * NANOS_PER_MINUTE_MILLI,
            den,
        );
    }
}

/// From any change on, a later target tick takes at least as long.
proof fn lemma_time_ns_from_monotone(
    map: Seq<TempoChange>,
    ticks_per_beat: u16,
    t1: u32,
    t2: u32,
    i: int,
)
    requires
        0 <= i < map.len(),
        forall|p: int, q: int| 0 <= p < q < map.len() ==> map[p].tick < map[q].tick,
        t1 <= t2,
    ensures
        spec_time_ns_from(map, ticks_per_beat, t1, i) <= spec_time_ns_from(
            map,
            ticks_per_beat,
            t2,
            i,
        ),
    decreases map.len() - i,
{
    let bpm = map[i].tempo_bpm_milli;
    if i + 1 >= map.len() || t2 <= map[i + 1].tick {
        lemma_ticks_to_ns_monotone(
            t1 - map[i].tick,
            t2 - map[i].tick,
            ticks_per_beat,
            bpm,
        );
    } else if t1 <= map[i + 1].tick {
        lemma_ticks_to_ns_monotone(
            t1 - map[i].tick,
            map[i + 1].tick - map[i].tick,
            ticks_per_beat,
            bpm,
        );
    } else {
        lemma_time_ns_from_monotone(map, ticks_per_beat, t1, t2, i + 1);
    }
}

/// Conversion from ticks to elapsed time is non-decreasing in the tick for
/// any well-formed tempo map, and tick 0 maps to time 0.
pub proof fn lemma_time_ns_monotone(map: Seq<TempoChange>, ticks_per_beat: u16, t1: u32, t2: u32)
    requires
        wf_tempo_map(map),
        t1 <= t2,
    ensures
        spec_time_ns(map, ticks_per_beat, t1) <= spec_time_ns(map, ticks_per_beat, t2),
        spec_time_ns(map, ticks_per_beat, 0) == 0,
{
    if t1 == t2 {
    } else if t2 <= map[0].tick {
        lemma_ticks_to_ns_monotone(t1 as int, t2 as int, ticks_per_beat, map[0].tempo_bpm_milli);
    } else if t1 <= map[0].tick {
        assert(t1 == 0 && map[0].tick == 0 && t2 > 0) by {
            assert(map[0].tick == 0);
        }
        lemma_time_ns_from_monotone(map, ticks_per_beat, 0, t2, 0);
    } else {
        lemma_time_ns_from_monotone(map, ticks_per_beat, t1, t2, 0);
    }
}

/// A later nanosecond time never renders as an earlier sample count.
pub proof fn lemma_ns_to_samples_monotone(n1: u64, n2: u64)
    requires
        n1 <= n2,
    ensures
        spec_ns_to_samples(n1) <= spec_ns_to_samples(n2),
{
    lemma_mul_inequality(n1 as int, n2 as int, YM2151_SAMPLE_RATE as int);
    lemma_div_is_ordered(
        n1 * (YM2151_SAMPLE_RATE as int),
        n2 * (YM2151_SAMPLE_RATE as int),
        1_000_000_000,
    );
}

/// Elapsed time in samples is non-decreasing in the tick for any well-formed
/// tempo map, and tick 0 maps to 0 samples.
pub proof fn lemma_tick_to_seconds_monotone(
    map: Seq<TempoChange>,
    ticks_per_beat: u16,
    t1: u32,
    t2: u32,
)
    requires
        wf_tempo_map(map),
        t1 <= t2,
    ensures
        spec_ns_to_samples(spec_time_ns(map, ticks_per_beat, t1)) <= spec_ns_to_samples(
            spec_time_ns(map, ticks_per_beat, t2),
        ),
        spec_ns_to_samples(spec_time_ns(map, ticks_per_beat, 0)) == 0,
{
    lemma_time_ns_monotone(map, ticks_per_beat, t1, t2);
    lemma_ns_to_samples_monotone(
        spec_time_ns(map, ticks_per_beat, t1),
        spec_time_ns(map, ticks_per_beat, t2),
    );
}

} // verus!
