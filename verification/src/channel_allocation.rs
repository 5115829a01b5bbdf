//! Polyphony analysis and voice allocation: how many notes each input
//! channel sounds at once, and which of the chip's 8 voices serve it.
//!
//! Channels are ranked by polyphony descending, ties by ascending channel
//! number, and voices 0..8 are dealt out in that order; once the 8 voices are
//! exhausted, every further required voice aliases voice 7, so each channel's
//! list keeps its measured polyphony. A priority pass then forces
//! the percussion channel (input channel 9), when it sounds at all, to hold
//! voice 0 in its first slot, swapping voice 0's previous holder onto the
//! voice the percussion channel held.

use vstd::prelude::*;
use crate::events::MidiData;
use crate::events::MidiEvent;

verus! {

/// How many input channels the allocator serves.
pub const NUM_INPUT_CHANNELS: usize = 16;

/// How many voices the chip has.
pub const NUM_VOICES: usize = 8;

/// The percussion channel, which takes voice 0 when it sounds.
pub const DRUM_CHANNEL: usize = 9;

/// Maps each input channel (0-15) to the voices that serve it, with a
/// round-robin cursor per channel.
#[derive(Debug, Clone)]
pub struct ChannelAllocation {
    /// Voice list per input channel, indexed by channel number.
    pub midi_to_ym2151: Vec<Vec<u8>>,
    /// Round-robin cursor per input channel, indexed by channel number.
    pub current_voice: Vec<usize>,
}

/// A well-formed allocation: 16 rows, 16 cursors, every voice id below 8.
pub open spec fn wf_allocation(a: ChannelAllocation) -> bool {
    &&& a.midi_to_ym2151@.len() == NUM_INPUT_CHANNELS
    &&& a.current_voice@.len() == NUM_INPUT_CHANNELS
    &&& forall|ch: int, k: int|
        0 <= ch < NUM_INPUT_CHANNELS && 0 <= k < a.midi_to_ym2151@[ch]@.len()
            ==> a.midi_to_ym2151@[ch]@[k] < NUM_VOICES
}

// ---------------------------------------------------------------------------
// Polyphony analysis
// ---------------------------------------------------------------------------

/// The notes sounding on each channel after a stream of events: a note-on
/// with positive velocity adds the note, a note-off removes it.
pub open spec fn spec_active_notes(events: Seq<MidiEvent>) -> Seq<Set<u8>>
    decreases events.len(),
{
    if events.len() == 0 {
        Seq::new(16, |ch: int| Set::<u8>::empty())
    } else {
        let prev = spec_active_notes(events.drop_last());
        match events.last() {
            MidiEvent::NoteOn { channel, note, velocity, .. } => {
                if velocity > 0 && channel < 16 {
                    prev.update(channel as int, prev[channel as int].insert(note))
                } else {
                    prev
                }
            },
            MidiEvent::NoteOff { channel, note, .. } => {
                if channel < 16 {
                    prev.update(channel as int, prev[channel as int].remove(note))
                } else {
                    prev
                }
            },
            _ => prev,
        }
    }
}

/// The most notes each channel ever sounds at once: after each note-on the
/// channel's active-note count is folded into its running maximum.
pub open spec fn spec_max_polyphony(events: Seq<MidiEvent>) -> Seq<nat>
    decreases events.len(),
{
    if events.len() == 0 {
        Seq::new(16, |ch: int| 0nat)
    } else {
        let prev = spec_max_polyphony(events.drop_last());
        match events.last() {
            MidiEvent::NoteOn { channel, note, velocity, .. } => {
                if velocity > 0 && channel < 16 {
                    let count = spec_active_notes(events)[channel as int].len();
                    if count > prev[channel as int] {
                        prev.update(channel as int, count)
                    } else {
                        prev
                    }
                } else {
                    prev
                }
            },
            _ => prev,
        }
    }
}

/// Both state sequences always have one slot per input channel.
proof fn lemma_poly_state_len(events: Seq<MidiEvent>)
    ensures
        spec_active_notes(events).len() == 16,
        spec_max_polyphony(events).len() == 16,
    decreases events.len(),
{
    if events.len() > 0 {
        lemma_poly_state_len(events.drop_last());
    }
}

fn row_find(row: &Vec<u8>, x: u8) -> (r: Option<usize>)
    ensures
        r matches Some(j) ==> 0 <= j < row@.len() && row@[j as int] == x,
        r is None ==> !row@.contains(x),
{
    let n = row.len();
    let mut i: usize = 0;
    while i < n
        invariant
            0 <= i <= n,
            n == row@.len(),
            forall|j: int| 0 <= j < i ==> row@[j] != x,
        decreases n - i,
    {
        if row[i] == x {
            return Some(i);
        }
        i = i + 1;
    }
    None
}

/// Appending a fresh element grows the element set by that element and keeps
/// the row duplicate-free.
proof fn lemma_push_fresh(s: Seq<u8>, x: u8)
    requires
        s.no_duplicates(),
        !s.contains(x),
    ensures
        s.push(x).to_set() =~= s.to_set().insert(x),
        s.push(x).no_duplicates(),
{
    let p = s.push(x);
    assert forall|y: u8| p.to_set().contains(y) implies s.to_set().insert(x).contains(y) by {
        let i = choose|i: int| 0 <= i < p.len() && p[i] == y;
        if i < s.len() {
            assert(s[i] == y);
        }
    }
    assert forall|y: u8| s.to_set().insert(x).contains(y) implies p.to_set().contains(y) by {
        if y == x {
            assert(p[s.len() as int] == x);
        } else {
            let i = choose|i: int| 0 <= i < s.len() && s[i] == y;
            assert(p[i] == y);
        }
    }
}

/// Removing one occurrence from a duplicate-free row removes that element
/// from its element set and keeps the row duplicate-free.
proof fn lemma_remove_at(s: Seq<u8>, j: int)
    requires
        s.no_duplicates(),
        0 <= j < s.len(),
    ensures
        s.remove(j).to_set() =~= s.to_set().remove(s[j]),
        s.remove(j).no_duplicates(),
{
    let r = s.remove(j);
    assert forall|y: u8| r.to_set().contains(y) implies s.to_set().remove(s[j]).contains(y) by {
        let i = choose|i: int| 0 <= i < r.len() && r[i] == y;
        if i < j {
            assert(s[i] == y);
        } else {
            assert(s[i + 1] == y);
        }
    }
    assert forall|y: u8| s.to_set().remove(s[j]).contains(y) implies r.to_set().contains(y) by {
        let i = choose|i: int| 0 <= i < s.len() && s[i] == y;
        if i < j {
            assert(r[i] == y);
        } else {
            assert(i != j);
            assert(r[i - 1] == y);
        }
    }
    assert forall|p: int, q: int| 0 <= p < q < r.len() implies r[p] != r[q] by {
        if q < j {
        } else if p < j {
            assert(r[p] == s[p] && r[q] == s[q + 1]);
        } else {
            assert(r[p] == s[p + 1] && r[q] == s[q + 1]);
        }
    }
}

/// The most notes each input channel ever sounds at once. Channels outside
/// 0-15 are ignored; a channel that never sounds reports 0.
pub fn analyze_polyphony(midi_data: &MidiData) -> (r: Vec<usize>)
    ensures
        r@.len() == 16,
        forall|ch: int| 0 <= ch < 16 ==> r@[ch] == spec_max_polyphony(midi_data.events@)[ch],
{
    let mut active: Vec<Vec<u8>> = Vec::new();
    let mut maxp: Vec<usize> = Vec::new();
    let mut setup: usize = 0;
    while setup < 16
        invariant
            active@.len() == setup,
            maxp@.len() == setup,
            0 <= setup <= 16,
            forall|ch: int| 0 <= ch < setup ==> active@[ch]@ =~= Seq::<u8>::empty(),
            forall|ch: int| 0 <= ch < setup ==> maxp@[ch] == 0,
        decreases 16 - setup,
    {
        active.push(Vec::new());
        maxp.push(0);
        setup = setup + 1;
    }
    let n = midi_data.events.len();
    let mut i: usize = 0;
    while i < n
        invariant
            n == midi_data.events@.len(),
            0 <= i <= n,
            active@.len() == 16,
            maxp@.len() == 16,
            forall|ch: int|
                0 <= ch < 16 ==> #[trigger] active@[ch]@.to_set() =~= spec_active_notes(
                    midi_data.events@.subrange(0, i as int),
                )[ch],
            forall|ch: int| 0 <= ch < 16 ==> #[trigger] active@[ch]@.no_duplicates(),
            forall|ch: int|
                0 <= ch < 16 ==> #[trigger] maxp@[ch] == spec_max_polyphony(
                    midi_data.events@.subrange(0, i as int),
                )[ch],
        decreases n - i,
    {
        let ghost pre = midi_data.events@.subrange(0, i as int);
        let ghost post = midi_data.events@.subrange(0, i + 1 as int);
        proof {
            assert(post.drop_last() =~= pre);
            assert(post.last() == midi_data.events@[i as int]);
            lemma_poly_state_len(pre);
            lemma_poly_state_len(post);
        }
        match &midi_data.events[i] {
            MidiEvent::NoteOn { channel, note, velocity, .. } => {
                if *velocity > 0 && *channel < 16 {
                    let ch = *channel as usize;
                    let ghost rows0 = active@;
                    proof {
                        assert(spec_active_notes(post) == spec_active_notes(pre).update(
                            ch as int,
                            spec_active_notes(pre)[ch as int].insert(*note),
                        ));
                    }
                    let mut row = active.remove(ch);
                    let ghost oldrow = row@;
                    proof {
                        assert(oldrow.to_set() =~= spec_active_notes(pre)[ch as int]);
                    }
                    match row_find(&row, *note) {
                        Some(_) => {
                            proof {
                                assert(oldrow.contains(*note));
                                assert(oldrow.to_set().insert(*note) =~= oldrow.to_set());
                            }
                        },
                        None => {
                            proof {
                                lemma_push_fresh(oldrow, *note);
                            }
                            row.push(*note);
                        },
                    }
                    let count = row.len();
                    proof {
                        row@.unique_seq_to_set();
                        assert(row@.to_set() =~= spec_active_notes(post)[ch as int]);
                    }
                    let ghost newrow = row@;
                    active.insert(ch, row);
                    proof {
                        assert(active@ =~= rows0.update(ch as int, active@[ch as int]));
                        assert(active@[ch as int]@ == newrow);
                    }
                    if count > maxp[ch] {
                        maxp.set(ch, count);
                    }
                    proof {
                        assert(spec_max_polyphony(post) == if spec_active_notes(post)[ch as int].len()
                            > spec_max_polyphony(pre)[ch as int] {
                            spec_max_polyphony(pre).update(
                                ch as int,
                                spec_active_notes(post)[ch as int].len(),
                            )
                        } else {
                            spec_max_polyphony(pre)
                        });
                    }
                }
            },
            MidiEvent::NoteOff { channel, note, .. } => {
                if *channel < 16 {
                    let ch = *channel as usize;
                    let ghost rows0 = active@;
                    proof {
                        assert(spec_active_notes(post) == spec_active_notes(pre).update(
                            ch as int,
                            spec_active_notes(pre)[ch as int].remove(*note),
                        ));
                        assert(spec_max_polyphony(post) == spec_max_polyphony(pre));
                    }
                    let mut row = active.remove(ch);
                    let ghost oldrow = row@;
                    proof {
                        assert(oldrow.to_set() =~= spec_active_notes(pre)[ch as int]);
                    }
                    match row_find(&row, *note) {
                        Some(j) => {
                            proof {
                                lemma_remove_at(oldrow, j as int);
                            }
                            let _ = row.remove(j);
                        },
                        None => {
                            proof {
                                assert(!oldrow.to_set().contains(*note));
                                assert(oldrow.to_set().remove(*note) =~= oldrow.to_set());
                            }
                        },
                    }
                    proof {
                        assert(row@.to_set() =~= spec_active_notes(post)[ch as int]);
                    }
                    let ghost newrow = row@;
                    active.insert(ch, row);
                    proof {
                        assert(active@ =~= rows0.update(ch as int, active@[ch as int]));
                        assert(active@[ch as int]@ == newrow);
                    }
                }
            },
            _ => {},
        }
        i = i + 1;
    }
    proof {
        assert(midi_data.events@.subrange(0, n as int) =~= midi_data.events@);
    }
    maxp
}

// ---------------------------------------------------------------------------
// Voice allocation
// ---------------------------------------------------------------------------

/// Whether channel `a` is served before channel `b`: higher polyphony first,
/// ties to the lower channel number.
pub open spec fn spec_alloc_before(poly: Seq<usize>, a: int, b: int) -> bool {
    poly[a] > poly[b] || (poly[a] == poly[b] && a < b)
}

/// Total polyphony of the channels below `k` that are served before `ch`.
pub open spec fn spec_sum_before(poly: Seq<usize>, ch: int, k: int) -> int
    decreases k,
{
    if k <= 0 {
        0
    } else {
        spec_sum_before(poly, ch, k - 1) + if spec_alloc_before(poly, k - 1, ch) {
            poly[k - 1] as int
        } else {
            0
        }
    }
}

/// The first voice id channel `ch` would take: the polyphony of everything
/// served before it, capped at 8.
pub open spec fn spec_alloc_start(poly: Seq<usize>, ch: int) -> int {
    let s = spec_sum_before(poly, ch, 16);
    if s > 8 {
        8
    } else {
        s
    }
}

/// The voice list dealt to channel `ch` before the percussion pass:
/// sequential ids from its start while fresh voices remain, then one entry
/// aliasing voice 7 for every further required voice, so the list's length
/// always equals the channel's measured polyphony.
pub open spec fn spec_base_voices(poly: Seq<usize>, ch: int) -> Seq<u8> {
    let s = spec_alloc_start(poly, ch);
    let p = poly[ch] as int;
    let fresh: int = if p <= 8 - s {
        p
    } else {
        8 - s
    };
    Seq::new(fresh as nat, |k: int| (s + k) as u8) + Seq::new((p - fresh) as nat, |k: int| 7u8)
}

/// The voice list of channel `ch` after the percussion pass: when the
/// percussion channel sounds and its first voice is not 0, every occurrence
/// of voice 0 elsewhere moves onto that voice, and the percussion channel's
/// first slot becomes 0.
pub open spec fn spec_allocated_voices(poly: Seq<usize>, ch: int) -> Seq<u8> {
    let base = spec_base_voices(poly, ch);
    if poly[DRUM_CHANNEL as int] > 0 && spec_base_voices(poly, DRUM_CHANNEL as int)[0] != 0 {
        let df = spec_base_voices(poly, DRUM_CHANNEL as int)[0];
        if ch == DRUM_CHANNEL {
            base.update(0, 0u8)
        } else {
            base.map_values(|v: u8| if v == 0 { df } else { v })
        }
    } else {
        base
    }
}

fn alloc_start(polyphony: &Vec<usize>, ch: usize) -> (r: usize)
    requires
        polyphony@.len() == 16,
        ch < 16,
    ensures
        r == spec_alloc_start(polyphony@, ch as int),
        r <= 8,
{
    let mut s: usize = 0;
    let mut k: usize = 0;
    while k < 16
        invariant
            polyphony@.len() == 16,
            ch < 16,
            0 <= k <= 16,
            s <= 8,
            s == if spec_sum_before(polyphony@, ch as int, k as int) > 8 {
                8int
            } else {
                spec_sum_before(polyphony@, ch as int, k as int)
            },
        decreases 16 - k,
    {
        let pk = polyphony[k];
        let pch = polyphony[ch];
        let before = pk > pch || (pk == pch && k < ch);
        if before {
            if pk >= 8 || s + pk > 8 {
                s = 8;
            } else {
                s = s + pk;
            }
        }
        k = k + 1;
    }
    s
}

fn base_voices(polyphony: &Vec<usize>, ch: usize) -> (r: Vec<u8>)
    requires
        polyphony@.len() == 16,
        ch < 16,
    ensures
        r@ == spec_base_voices(polyphony@, ch as int),
{
    let s = alloc_start(polyphony, ch);
    let p = polyphony[ch];
    let fresh = if p <= 8 - s {
        p
    } else {
        8 - s
    };
    let mut out: Vec<u8> = Vec::new();
    let mut k: usize = 0;
    while k < fresh
        invariant
            s <= 8,
            fresh <= 8 - s,
            0 <= k <= fresh,
            out@.len() == k,
            forall|j: int| 0 <= j < k ==> out@[j] == (s + j) as u8,
        decreases fresh - k,
    {
        out.push((s + k) as u8);
        k = k + 1;
    }
    let aliased = p - fresh;
    let mut j: usize = 0;
    while j < aliased
        invariant
            0 <= j <= aliased,
            out@.len() == fresh + j,
            forall|i: int| 0 <= i < fresh ==> out@[i] == (s + i) as u8,
            forall|i: int| fresh <= i < fresh + j ==> out@[i] == 7u8,
        decreases aliased - j,
    {
        out.push(7);
        j = j + 1;
    }
    proof {
        assert(out@ =~= spec_base_voices(polyphony@, ch as int));
    }
    out
}

fn swapped_row(row: &Vec<u8>, is_drum: bool, df: u8) -> (r: Vec<u8>)
    ensures
        is_drum ==> r@ == row@.update(0, 0u8) || (row@.len() == 0 && r@ == row@),
        !is_drum ==> r@ == row@.map_values(|v: u8| if v == 0 { df } else { v }),
        is_drum && row@.len() > 0 ==> r@ == row@.update(0, 0u8),
{
    let n = row.len();
    let mut out: Vec<u8> = Vec::new();
    let mut k: usize = 0;
    while k < n
        invariant
            n == row@.len(),
            0 <= k <= n,
            out@.len() == k,
            forall|j: int|
                0 <= j < k ==> out@[j] == if is_drum {
                    if j == 0 {
                        0u8
                    } else {
                        row@[j]
                    }
                } else {
                    if row@[j] == 0 {
                        df
                    } else {
                        row@[j]
                    }
                },
        decreases n - k,
    {
        let v = row[k];
        if is_drum {
            if k == 0 {
                out.push(0);
            } else {
                out.push(v);
            }
        } else {
            if v == 0 {
                out.push(df);
            } else {
                out.push(v);
            }
        }
        k = k + 1;
    }
    proof {
        if is_drum {
            if row@.len() > 0 {
                assert(out@ =~= row@.update(0, 0u8));
            } else {
                assert(out@ =~= row@);
            }
        } else {
            assert(out@ =~= row@.map_values(|v: u8| if v == 0 { df } else { v }));
        }
    }
    out
}

/// Allocate the chip's 8 voices to the input channels from their measured
/// polyphony: channels ranked by polyphony descending (ties to the lower
/// channel), sequential voice ids dealt in that order, overflow aliasing
/// voice 7, and the percussion channel's first slot forced to voice 0.
/// Round-robin cursors start at 0.
pub fn allocate_channels(polyphony: &Vec<usize>) -> (r: ChannelAllocation)
    requires
        polyphony@.len() == 16,
    ensures
        wf_allocation(r),
        forall|ch: int|
            0 <= ch < 16 ==> #[trigger] r.midi_to_ym2151@[ch]@ == spec_allocated_voices(
                polyphony@,
                ch,
            ),
        forall|ch: int| 0 <= ch < 16 ==> #[trigger] r.current_voice@[ch] == 0,
{
    let mut lists: Vec<Vec<u8>> = Vec::new();
    let mut ch: usize = 0;
    while ch < 16
        invariant
            polyphony@.len() == 16,
            0 <= ch <= 16,
            lists@.len() == ch,
            forall|c: int| 0 <= c < ch ==> #[trigger] lists@[c]@ == spec_base_voices(polyphony@, c),
        decreases 16 - ch,
    {
        lists.push(base_voices(polyphony, ch));
        ch = ch + 1;
    }
    proof {
        lemma_base_voices_in_range(polyphony@);
    }
    let drum_poly = polyphony[DRUM_CHANNEL];
    let mut swapped: Vec<Vec<u8>> = Vec::new();
    if drum_poly > 0 && lists[DRUM_CHANNEL].len() > 0 && lists[DRUM_CHANNEL][0] != 0 {
        let df = lists[DRUM_CHANNEL][0];
        let mut c: usize = 0;
        while c < 16
            invariant
                polyphony@.len() == 16,
                lists@.len() == 16,
                forall|x: int|
                    0 <= x < 16 ==> #[trigger] lists@[x]@ == spec_base_voices(polyphony@, x),
                polyphony@[9] > 0,
                spec_base_voices(polyphony@, 9).len() > 0,
                df == spec_base_voices(polyphony@, 9)[0],
                df != 0,
                0 <= c <= 16,
                swapped@.len() == c,
                forall|x: int|
                    0 <= x < c ==> #[trigger] swapped@[x]@ == spec_allocated_voices(polyphony@, x),
            decreases 16 - c,
        {
            swapped.push(swapped_row(&lists[c], c == DRUM_CHANNEL, df));
            c = c + 1;
        }
    } else {
        proof {
            if polyphony@[9] > 0 {
                lemma_base_len_positive(polyphony@, 9);
            }
        }
        let mut c: usize = 0;
        while c < 16
            invariant
                polyphony@.len() == 16,
                lists@.len() == 16,
                forall|x: int|
                    0 <= x < 16 ==> #[trigger] lists@[x]@ == spec_base_voices(polyphony@, x),
                !(polyphony@[9] > 0 && spec_base_voices(polyphony@, 9)[0] != 0),
                0 <= c <= 16,
                swapped@.len() == c,
                forall|x: int|
                    0 <= x < c ==> #[trigger] swapped@[x]@ == spec_allocated_voices(polyphony@, x),
            decreases 16 - c,
        {
            let row = &lists[c];
            let copy = swapped_row(row, false, 0);
            proof {
                assert(copy@ =~= row@.map_values(|v: u8| if v == 0 { 0u8 } else { v }));
                assert(copy@ =~= row@);
            }
            swapped.push(copy);
            c = c + 1;
        }
    }
    let mut cursors: Vec<usize> = Vec::new();
    let mut k: usize = 0;
    while k < 16
        invariant
            0 <= k <= 16,
            cursors@.len() == k,
            forall|j: int| 0 <= j < k ==> #[trigger] cursors@[j] == 0,
        decreases 16 - k,
    {
        cursors.push(0);
        k = k + 1;
    }
    let r = ChannelAllocation { midi_to_ym2151: swapped, current_voice: cursors };
    proof {
        lemma_allocated_voices_in_range(polyphony@);
    }
    r
}

/// A channel that sounds gets at least one voice before the percussion pass.
proof fn lemma_base_len_positive(poly: Seq<usize>, ch: int)
    requires
        poly.len() == 16,
        0 <= ch < 16,
        poly[ch] > 0,
    ensures
        spec_base_voices(poly, ch).len() > 0,
        spec_base_voices(poly, ch)[0] == spec_alloc_start(poly, ch) || spec_base_voices(
            poly,
            ch,
        )[0] == 7,
{
    lemma_sum_before_nonneg(poly, ch, 16);
}

/// Every voice dealt before the percussion pass is below 8.
proof fn lemma_base_voices_in_range(poly: Seq<usize>)
    requires
        poly.len() == 16,
    ensures
        forall|ch: int, k: int|
            0 <= ch < 16 && 0 <= k < spec_base_voices(poly, ch).len()
                ==> #[trigger] spec_base_voices(poly, ch)[k] < 8,
{
    assert forall|ch: int, k: int|
        0 <= ch < 16 && 0 <= k < spec_base_voices(poly, ch).len() implies #[trigger] spec_base_voices(
        poly,
        ch,
    )[k] < 8 by {
        lemma_sum_before_nonneg(poly, ch, 16);
    }
}

/// Every voice in the final allocation is below 8, whatever the polyphony.
pub proof fn lemma_allocated_voices_in_range(poly: Seq<usize>)
    requires
        poly.len() == 16,
    ensures
        forall|ch: int, k: int|
            0 <= ch < 16 && 0 <= k < spec_allocated_voices(poly, ch).len()
                ==> #[trigger] spec_allocated_voices(poly, ch)[k] < 8,
{
    lemma_base_voices_in_range(poly);
    assert forall|ch: int, k: int|
        0 <= ch < 16 && 0 <= k < spec_allocated_voices(poly, ch).len()
        implies #[trigger] spec_allocated_voices(poly, ch)[k] < 8 by {
        let base = spec_base_voices(poly, ch);
        if poly[9] > 0 && spec_base_voices(poly, 9)[0] != 0 {
            assert(spec_base_voices(poly, 9)[0] < 8);
            if ch == 9 {
                assert(base[k] < 8);
            } else {
                assert(base[k] < 8);
            }
        } else {
            assert(base[k] < 8);
        }
    }
}

proof fn lemma_sum_before_nonneg(poly: Seq<usize>, ch: int, k: int)
    ensures
        spec_sum_before(poly, ch, k) >= 0,
    decreases k,
{
    if k > 0 {
        lemma_sum_before_nonneg(poly, ch, k - 1);
    }
}

/// Every channel's voice list has exactly its measured polyphony, and every
/// listed voice is below 8, whatever the polyphony map: overflow demand
/// aliases voice 7 entry for entry.
pub proof fn lemma_allocation_list_lengths(poly: Seq<usize>, ch: int)
    requires
        poly.len() == 16,
        0 <= ch < 16,
    ensures
        spec_allocated_voices(poly, ch).len() == poly[ch],
        forall|k: int|
            0 <= k < spec_allocated_voices(poly, ch).len() ==> #[trigger] spec_allocated_voices(
                poly,
                ch,
            )[k] < 8,
{
    lemma_allocated_voices_in_range(poly);
    lemma_sum_before_nonneg(poly, ch, 16);
    lemma_sum_before_nonneg(poly, 9, 16);
    assert(spec_base_voices(poly, ch).len() == poly[ch]);
    if poly[9] > 0 && spec_base_voices(poly, 9)[0] != 0 {
        assert(spec_base_voices(poly, 9).len() == poly[9]);
    }
}

/// When the percussion channel sounds at all, its first allocated voice is
/// voice 0.
pub proof fn lemma_drum_first_voice(poly: Seq<usize>)
    requires
        poly.len() == 16,
        poly[9] > 0,
    ensures
        spec_allocated_voices(poly, 9).len() > 0,
        spec_allocated_voices(poly, 9)[0] == 0,
{
    lemma_base_len_positive(poly, 9);
}

} // verus!
