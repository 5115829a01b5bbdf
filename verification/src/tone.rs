//! Timbres: retargeting a tone authored for voice 0 onto any voice, the
//! fixed default tone block, and applying an attached tone definition.
//!
//! Register layout: addresses 0x20-0x3F select the voice directly through
//! their low 3 bits; addresses from 0x40 up form 32-register operator blocks
//! (0x40, 0x60, 0x80, ...) whose low 5 bits encode `operator * 8 + voice`.

use vstd::prelude::*;
use crate::events::RegisterWrite;
use crate::events::Ym2151Event;
use crate::hex::spec_hex_str;
use crate::hex::spec_parse_byte;
use crate::hex::parse_hex_byte;
use crate::hex::to_hex_byte;

verus! {

/// A tone: register writes authored for voice 0, with times ignored.
#[derive(Debug, Clone)]
pub struct ToneDefinition {
    /// The register writes that set up the timbre.
    pub events: Vec<Ym2151Event>,
}

/// The register that plays the role of `base_register` for the given voice:
/// voice registers 0x20-0x3F keep their group and take the voice in the low
/// bits; operator registers from 0x40 up keep their block and operator and
/// take the voice; anything below 0x20 is voice-independent and kept.
pub open spec fn spec_resolve_register(base_register: u8, channel: u8) -> u8
    recommends
        channel < 8,
{
    if 0x20 <= base_register < 0x28 {
        (0x20 + channel) as u8
    } else if 0x28 <= base_register < 0x30 {
        (0x28 + channel) as u8
    } else if 0x30 <= base_register < 0x38 {
        (0x30 + channel) as u8
    } else if 0x38 <= base_register < 0x40 {
        (0x38 + channel) as u8
    } else if base_register >= 0x40 {
        ((base_register / 32) * 32 + channel + ((base_register % 32) / 8) * 8) as u8
    } else {
        base_register
    }
}

/// Resolve a base register onto a voice. See `spec_resolve_register`.
pub fn resolve_register_for_channel(base_register: u8, channel: u8) -> (r: u8)
    requires
        channel < 8,
    ensures
        r == spec_resolve_register(base_register, channel),
{
    if 0x20 <= base_register && base_register < 0x28 {
        0x20 + channel
    } else if 0x28 <= base_register && base_register < 0x30 {
        0x28 + channel
    } else if 0x30 <= base_register && base_register < 0x38 {
        0x30 + channel
    } else if 0x38 <= base_register && base_register < 0x40 {
        0x38 + channel
    } else if base_register >= 0x40 {
        let block = (base_register / 32) * 32;
        let operator = (base_register % 32) / 8;
        block + channel + operator * 8
    } else {
        base_register
    }
}

/// Retargeting an operator register onto a voice is reversible: the block and
/// the operator index (the low five bits divided by 8) survive, and the low
/// three bits recover the voice. So for a fixed operator block, retargeting
/// is a bijection between voices and resolved addresses.
pub proof fn lemma_retarget_recovers_operator(base_register: u8, voice: u8)
    requires
        0x40 <= base_register,
        voice < 8,
    ensures
        (spec_resolve_register(base_register, voice) % 32) / 8 == (base_register % 32) / 8,
        spec_resolve_register(base_register, voice) % 8 == voice,
        spec_resolve_register(base_register, voice) / 32 == base_register / 32,
{
    let b = base_register as int;
    let v = voice as int;
    let block = (b / 32) * 32;
    let op = (b % 32) / 8;
    let r = block + v + op * 8;
    assert(0 <= op <= 3) by (nonlinear_arith)
        requires
            0 <= b % 32 < 32,
            op == (b % 32) / 8,
    ;
    assert(b % 32 == b - (b / 32) * 32) by (nonlinear_arith);
    assert(2 <= b / 32 <= 7) by (nonlinear_arith)
        requires
            0x40 <= b <= 0xFF,
    ;
    assert(r == (b / 32) * 32 + (v + op * 8));
    assert(0 <= v + op * 8 < 32);
    assert(r % 32 == v + op * 8 && r / 32 == b / 32) by (nonlinear_arith)
        requires
            r == (b / 32) * 32 + (v + op * 8),
            0 <= v + op * 8 < 32,
            2 <= b / 32 <= 7,
    ;
    assert((v + op * 8) / 8 == op && (v + op * 8) % 8 == v) by (nonlinear_arith)
        requires
            0 <= v < 8,
            0 <= op <= 3,
    ;
    assert(r % 8 == v) by (nonlinear_arith)
        requires
            r % 32 == v + op * 8,
            r == (r / 32) * 32 + r % 32,
            (v + op * 8) % 8 == v,
            0 <= v < 8,
    ;
}

/// The six operator writes of the default tone for one operator slot:
/// detune/multiplier 0x01, total level (carrier loud, modulators silent),
/// attack rate 0x1F, both decay rates 0x05, sustain/release 0xF7.
pub open spec fn spec_default_op_writes(channel: u8, time: u64, op: int) -> Seq<RegisterWrite>
    recommends
        channel < 8,
        0 <= op < 4,
{
    let slot = (channel + op * 8) as u8;
    let tl: u8 = if op == 0 {
        0x00
    } else {
        0x7F
    };
    seq![
        RegisterWrite { time, addr: (0x40 + slot) as u8, data: 0x01 },
        RegisterWrite { time, addr: (0x60 + slot) as u8, data: tl },
        RegisterWrite { time, addr: (0x80 + slot) as u8, data: 0x1F },
        RegisterWrite { time, addr: (0xA0 + slot) as u8, data: 0x05 },
        RegisterWrite { time, addr: (0xC0 + slot) as u8, data: 0x05 },
        RegisterWrite { time, addr: (0xE0 + slot) as u8, data: 0xF7 },
    ]
}

/// The operator writes of the first `k` operators, in order.
pub open spec fn spec_default_ops_prefix(channel: u8, time: u64, k: int) -> Seq<RegisterWrite>
    decreases k,
{
    if k <= 0 {
        Seq::<RegisterWrite>::empty()
    } else {
        spec_default_ops_prefix(channel, time, k - 1) + spec_default_op_writes(
            channel,
            time,
            k - 1,
        )
    }
}

/// The default tone block for a voice: stereo/feedback/connection 0xC7, no
/// modulation sensitivity, then the six registers of each of the four
/// operators — 26 writes.
pub open spec fn spec_default_tone(channel: u8, time: u64) -> Seq<RegisterWrite>
    recommends
        channel < 8,
{
    seq![
        RegisterWrite { time, addr: (0x20 + channel) as u8, data: 0xC7 },
        RegisterWrite { time, addr: (0x38 + channel) as u8, data: 0x00 },
    ] + spec_default_ops_prefix(channel, time, 4)
}

/// The default tone block as plain register writes.
pub fn default_tone_writes(channel: u8, time: u64) -> (r: Vec<RegisterWrite>)
    requires
        channel < 8,
    ensures
        r@ == spec_default_tone(channel, time),
        r@.len() == 26,
{
    let mut out: Vec<RegisterWrite> = Vec::new();
    out.push(RegisterWrite { time, addr: 0x20 + channel, data: 0xC7 });
    out.push(RegisterWrite { time, addr: 0x38 + channel, data: 0x00 });
    let mut op: usize = 0;
    while op < 4
        invariant
            channel < 8,
            0 <= op <= 4,
            out@ =~= seq![
                RegisterWrite { time, addr: (0x20 + channel) as u8, data: 0xC7 },
                RegisterWrite { time, addr: (0x38 + channel) as u8, data: 0x00 },
            ] + spec_default_ops_prefix(channel, time, op as int),
        decreases 4 - op,
    {
        let slot = channel + (op as u8) * 8;
        let tl: u8 = if op == 0 {
            0x00
        } else {
            0x7F
        };
        out.push(RegisterWrite { time, addr: 0x40 + slot, data: 0x01 });
        out.push(RegisterWrite { time, addr: 0x60 + slot, data: tl });
        out.push(RegisterWrite { time, addr: 0x80 + slot, data: 0x1F });
        out.push(RegisterWrite { time, addr: 0xA0 + slot, data: 0x05 });
        out.push(RegisterWrite { time, addr: 0xC0 + slot, data: 0x05 });
        out.push(RegisterWrite { time, addr: 0xE0 + slot, data: 0xF7 });
        proof {
            assert(spec_default_ops_prefix(channel, time, op + 1) == spec_default_ops_prefix(
                channel,
                time,
                op as int,
            ) + spec_default_op_writes(channel, time, op as int));
        }
        op = op + 1;
    }
    proof {
        lemma_default_ops_prefix_len(channel, time, 4);
    }
    out
}

/// Every write of the default tone block carries the block's time.
proof fn lemma_default_ops_prefix_times(channel: u8, time: u64, k: int)
    requires
        k >= 0,
    ensures
        forall|i: int|
            0 <= i < spec_default_ops_prefix(channel, time, k).len()
                ==> (#[trigger] spec_default_ops_prefix(channel, time, k)[i]).time == time,
    decreases k,
{
    if k > 0 {
        lemma_default_ops_prefix_times(channel, time, k - 1);
        assert forall|i: int| 0 <= i < spec_default_ops_prefix(channel, time, k).len()
            implies (#[trigger] spec_default_ops_prefix(channel, time, k)[i]).time == time by {
            let p = spec_default_ops_prefix(channel, time, k - 1);
            if i >= p.len() {
                assert(spec_default_ops_prefix(channel, time, k)[i] == spec_default_op_writes(
                    channel,
                    time,
                    k - 1,
                )[i - p.len()]);
            }
        }
    }
}

proof fn lemma_default_ops_prefix_len(channel: u8, time: u64, k: int)
    requires
        k >= 0,
    ensures
        spec_default_ops_prefix(channel, time, k).len() == 6 * k,
    decreases k,
{
    if k > 0 {
        lemma_default_ops_prefix_len(channel, time, k - 1);
    }
}

/// The initialization events for a voice: the default tone block, with the
/// given time carried through unchanged and addresses and data as `0xXX`
/// strings — 26 events.
pub fn initialize_channel_events(channel: u8, time: u32) -> (r: Vec<Ym2151Event>)
    requires
        channel < 8,
    ensures
        r@.len() == 26,
        forall|i: int|
            0 <= i < 26 ==> {
                &&& (#[trigger] r@[i]).time == time
                &&& r@[i].addr@ == spec_hex_str(spec_default_tone(channel, time as u64)[i].addr)
                &&& r@[i].data@ == spec_hex_str(spec_default_tone(channel, time as u64)[i].data)
            },
{
    let writes = default_tone_writes(channel, time as u64);
    proof {
        lemma_default_ops_prefix_times(channel, time as u64, 4);
        lemma_default_ops_prefix_len(channel, time as u64, 4);
    }
    let n = writes.len();
    let mut out: Vec<Ym2151Event> = Vec::new();
    let mut i: usize = 0;
    while i < n
        invariant
            n == writes@.len(),
            n == 26,
            writes@ == spec_default_tone(channel, time as u64),
            forall|j: int| 0 <= j < n ==> #[trigger] writes@[j].time == time as u64,
            0 <= i <= n,
            out@.len() == i,
            forall|j: int|
                0 <= j < i ==> {
                    &&& (#[trigger] out@[j]).time == time
                    &&& out@[j].addr@ == spec_hex_str(writes@[j].addr)
                    &&& out@[j].data@ == spec_hex_str(writes@[j].data)
                },
        decreases n - i,
    {
        let w = writes[i];
        out.push(
            Ym2151Event { time: (w.time as u32), addr: to_hex_byte(w.addr), data: to_hex_byte(w.data) },
        );
        i = i + 1;
    }
    out
}

/// The default tone as events, used when no tone is attached for a program.
pub fn default_tone_events(channel: u8, time: u32) -> (r: Vec<Ym2151Event>)
    requires
        channel < 8,
    ensures
        r@.len() == 26,
        forall|i: int|
            0 <= i < 26 ==> {
                &&& (#[trigger] r@[i]).time == time
                &&& r@[i].addr@ == spec_hex_str(spec_default_tone(channel, time as u64)[i].addr)
                &&& r@[i].data@ == spec_hex_str(spec_default_tone(channel, time as u64)[i].data)
            },
{
    initialize_channel_events(channel, time)
}

/// The address string an applied tone event carries: the parsed address
/// (an unparsable one counts as 0) resolved onto the voice and reformatted;
/// an address below 0x20 keeps its original string.
pub open spec fn spec_retargeted_addr(addr: Seq<char>, channel: u8) -> Seq<char> {
    let b = match spec_parse_byte(addr) {
        Some(v) => v,
        None => 0u8,
    };
    if b < 0x20 {
        addr
    } else {
        spec_hex_str(spec_resolve_register(b, channel))
    }
}

/// Apply a tone definition to a voice at a time: every event's address is
/// retargeted onto the voice, its data is kept, and its time is replaced.
pub fn apply_tone_to_channel(tone: &ToneDefinition, channel: u8, time: u32) -> (r: Vec<
    Ym2151Event,
>)
    requires
        channel < 8,
    ensures
        r@.len() == tone.events@.len(),
        forall|i: int|
            0 <= i < r@.len() ==> {
                &&& (#[trigger] r@[i]).time == time
                &&& r@[i].addr@ == spec_retargeted_addr(tone.events@[i].addr@, channel)
                &&& r@[i].data@ == tone.events@[i].data@
            },
{
    let n = tone.events.len();
    let mut out: Vec<Ym2151Event> = Vec::new();
    let mut i: usize = 0;
    while i < n
        invariant
            n == tone.events@.len(),
            0 <= i <= n,
            channel < 8,
            out@.len() == i,
            forall|j: int|
                0 <= j < i ==> {
                    &&& (#[trigger] out@[j]).time == time
                    &&& out@[j].addr@ == spec_retargeted_addr(tone.events@[j].addr@, channel)
                    &&& out@[j].data@ == tone.events@[j].data@
                },
        decreases n - i,
    {
        let ev = &tone.events[i];
        let addr_value = match parse_hex_byte(ev.addr.as_str()) {
            Some(v) => v,
            None => 0,
        };
        let new_addr = if addr_value < 0x20 {
            ev.addr.clone()
        } else {
            to_hex_byte(resolve_register_for_channel(addr_value, channel))
        };
        out.push(Ym2151Event { time, addr: new_addr, data: ev.data.clone() });
        i = i + 1;
    }
    out
}

/// The byte pairs of a tone definition, or nothing when any event's address
/// or data does not parse as a byte.
pub open spec fn spec_tone_bytes(events: Seq<Ym2151Event>) -> Option<Seq<(u8, u8)>>
    decreases events.len(),
{
    if events.len() == 0 {
        Some(Seq::<(u8, u8)>::empty())
    } else {
        match (
            spec_tone_bytes(events.drop_last()),
            spec_parse_byte(events.last().addr@),
            spec_parse_byte(events.last().data@),
        ) {
            (Some(rest), Some(a), Some(d)) => Some(rest.push((a, d))),
            _ => None,
        }
    }
}

/// The register writes of a parsed tone on a voice at a time: each address
/// resolved onto the voice, data kept.
pub open spec fn spec_tone_writes(pairs: Seq<(u8, u8)>, channel: u8, time: u64) -> Seq<
    RegisterWrite,
> {
    pairs.map_values(
        |p: (u8, u8)| RegisterWrite { time, addr: spec_resolve_register(p.0, channel), data: p.1 },
    )
}

/// The tone definition as register writes for a voice, or nothing when any
/// of its events is malformed (the caller then falls back to the default
/// tone).
pub fn tone_writes(tone: &ToneDefinition, channel: u8, time: u64) -> (r: Option<Vec<RegisterWrite>>)
    requires
        channel < 8,
    ensures
        match spec_tone_bytes(tone.events@) {
            Some(pairs) => r matches Some(v) && v@ == spec_tone_writes(pairs, channel, time),
            None => r is None,
        },
{
    let n = tone.events.len();
    let mut out: Vec<RegisterWrite> = Vec::new();
    let mut i: usize = 0;
    while i < n
        invariant
            n == tone.events@.len(),
            0 <= i <= n,
            channel < 8,
            match spec_tone_bytes(tone.events@.subrange(0, i as int)) {
                Some(pairs) => out@ == spec_tone_writes(pairs, channel, time),
                None => false,
            },
        decreases n - i,
    {
        let ghost pre = tone.events@.subrange(0, i as int);
        let ghost post = tone.events@.subrange(0, i + 1 as int);
        proof {
            assert(post.drop_last() =~= pre);
            assert(post.last() == tone.events@[i as int]);
        }
        let ev = &tone.events[i];
        let a = match parse_hex_byte(ev.addr.as_str()) {
            Some(a) => a,
            None => {
                proof {
                    lemma_tone_bytes_none(tone.events@, i + 1 as int);
                }
                return None;
            },
        };
        let d = match parse_hex_byte(ev.data.as_str()) {
            Some(d) => d,
            None => {
                proof {
                    lemma_tone_bytes_none(tone.events@, i + 1 as int);
                }
                return None;
            },
        };
        out.push(RegisterWrite { time, addr: resolve_register_for_channel(a, channel), data: d });
        proof {
            let pairs_pre = spec_tone_bytes(pre)->0;
            assert(spec_tone_bytes(post) == Some(pairs_pre.push((a, d))));
            assert(spec_tone_writes(pairs_pre.push((a, d)), channel, time) =~= spec_tone_writes(
                pairs_pre,
                channel,
                time,
            ).push(
                RegisterWrite { time, addr: spec_resolve_register(a, channel), data: d },
            ));
        }
        i = i + 1;
    }
    proof {
        assert(tone.events@.subrange(0, n as int) =~= tone.events@);
    }
    Some(out)
}

/// Once a prefix fails to parse, the whole tone fails to parse.
proof fn lemma_tone_bytes_none(events: Seq<Ym2151Event>, i: int)
    requires
        0 <= i <= events.len(),
        spec_tone_bytes(events.subrange(0, i)) is None,
    ensures
        spec_tone_bytes(events) is None,
    decreases events.len() - i,
{
    if i == events.len() {
        assert(events.subrange(0, i) =~= events);
    } else {
        assert(events.subrange(0, i + 1).drop_last() =~= events.subrange(0, i));
        lemma_tone_bytes_none(events, i + 1);
    }
}

} // verus!
