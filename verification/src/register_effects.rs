//! Register post-passes: software LFO, pop-noise envelope and
//! attack-continuation fix. Each walks the note segments in start order and
//! reads pre-effect register values from a cache of the log so far.

use vstd::prelude::*;
use crate::cache::RegisterStateCache;
use crate::cache::build_register_state_cache;
use crate::cache::spec_cache_row;
use crate::cache::spec_latest;
use crate::events::NoteSegment;
use crate::events::RegisterWrite;
use crate::hex::spec_parse_byte;
use crate::hex::parse_hex_byte;
use crate::options::AttackContinuationFix;
use crate::options::OverrideTable;
use crate::options::PopNoiseEnvelope;
use crate::options::ProgramEffectOverrides;
use crate::options::RegisterLfoDefinition;
use crate::options::RegisterOverride;
use crate::options::spec_lookup;
use crate::pitch_effects::spec_sort_segments;
use crate::pitch_effects::sort_segments;
use crate::tempo_map::spec_sat_add;
use crate::tone::spec_resolve_register;
use crate::tone::resolve_register_for_channel;
use crate::waveform::spec_waveform;
use crate::waveform::lfo_waveform_value;

verus! {

/// Restores land this long before the note start, in nanoseconds.
pub const RESTORE_BEFORE_NOTE_EPSILON_NS: u64 = 1000;

// ---------------------------------------------------------------------------
// Software LFO
// ---------------------------------------------------------------------------

/// The LFO definitions that apply to a program: its override list when
/// present, else the global list.
pub open spec fn spec_effective_lfo_defs(
    global: Seq<RegisterLfoDefinition>,
    overrides: Seq<(u8, ProgramEffectOverrides)>,
    program: u8,
) -> Seq<RegisterLfoDefinition> {
    match spec_lookup(overrides, program) {
        Some(o) => match o.software_lfo {
            Some(v) => v@,
            None => global,
        },
        None => global,
    }
}

/// The LFO's sampling step: an eighth of its cycle, floored at one
/// nanosecond.
pub open spec fn spec_lfo_step(rate_millihz: u64) -> u64 {
    if rate_millihz == 0 {
        1
    } else {
        let s = 125_000_000_000int / rate_millihz as int;
        if s < 1 {
            1
        } else {
            s as u64
        }
    }
}

/// The register value an LFO produces after `elapsed` nanoseconds: the base
/// value plus the depth scaled by the attack ramp and the waveform, clamped
/// to a byte and rounded to the nearest unit.
pub open spec fn spec_lfo_value(def: RegisterLfoDefinition, base: u8, elapsed: u64) -> u8 {
    let attack_micro: int = if def.attack_ns == 0 {
        1_000_000
    } else if elapsed * 1_000_000 / (def.attack_ns as int) > 1_000_000 {
        1_000_000
    } else {
        elapsed * 1_000_000 / (def.attack_ns as int)
    };
    let phase_e9 = ((elapsed * def.rate_millihz / 1000) % 1_000_000_000) as u64;
    let wave = spec_waveform(def.waveform, phase_e9);
    let negative = (def.depth_milli < 0) != (wave < 0);
    let dmag: int = if def.depth_milli < 0 {
        0 - def.depth_milli
    } else {
        def.depth_milli as int
    };
    let wmag: int = if wave < 0 {
        0 - wave
    } else {
        wave
    };
    let mag = dmag * attack_micro * wmag / 1_000_000_000_000;
    let value_milli = if negative {
        base * 1000 - mag
    } else {
        base * 1000 + mag
    };
    let clamped: int = if value_milli < 0 {
        0
    } else if value_milli > 255_000 {
        255_000
    } else {
        value_milli
    };
    ((clamped + 500) / 1000) as u8
}

/// The LFO writes from sample time `t` on: at each step the value is
/// recomputed and emitted when it differs from the previous sample.
pub open spec fn spec_lfo_samples(
    def: RegisterLfoDefinition,
    addr: u8,
    base: u8,
    start: u64,
    stop: u64,
    t: u64,
    last: Option<u8>,
) -> Seq<RegisterWrite>
    recommends
        start <= t <= stop,
    decreases stop - t,
{
    if t > stop {
        Seq::<RegisterWrite>::empty()
    } else {
        let value = spec_lfo_value(def, base, (t - start) as u64);
        let emitted: Seq<RegisterWrite> = if last == Some(value) {
            Seq::<RegisterWrite>::empty()
        } else {
            seq![RegisterWrite { time: t, addr, data: value }]
        };
        let step = spec_lfo_step(def.rate_millihz);
        if stop - t < step {
            emitted
        } else {
            emitted + spec_lfo_samples(def, addr, base, start, stop, (t + step) as u64, Some(value))
        }
    }
}

/// The writes one LFO adds over one segment: nothing when its register does
/// not parse, the register has no value in the log at the segment's start,
/// the rate or depth is zero, or the delayed window is empty.
pub open spec fn spec_lfo_for_segment(
    def: RegisterLfoDefinition,
    seg: NoteSegment,
    log: Seq<RegisterWrite>,
) -> Seq<RegisterWrite> {
    match spec_parse_byte(def.base_register@) {
        None => Seq::<RegisterWrite>::empty(),
        Some(b) => {
            let addr = spec_resolve_register(b, seg.ym2151_channel);
            match spec_latest(spec_cache_row(log, addr), seg.start_time) {
                None => Seq::<RegisterWrite>::empty(),
                Some(base) => {
                    if def.rate_millihz == 0 || def.depth_milli == 0 {
                        Seq::<RegisterWrite>::empty()
                    } else {
                        let start = spec_sat_add(seg.start_time, def.delay_ns);
                        let stop = seg.end_time;
                        if stop <= start {
                            Seq::<RegisterWrite>::empty()
                        } else {
                            spec_lfo_samples(def, addr, base, start, stop, start, None)
                        }
                    }
                },
            }
        },
    }
}

/// The writes of the LFO definitions from position `j` on, over one segment.
pub open spec fn spec_lfo_defs_writes(
    defs: Seq<RegisterLfoDefinition>,
    seg: NoteSegment,
    log: Seq<RegisterWrite>,
    j: int,
) -> Seq<RegisterWrite>
    decreases defs.len() - j,
{
    if j < 0 || j >= defs.len() {
        Seq::<RegisterWrite>::empty()
    } else {
        spec_lfo_for_segment(defs[j], seg, log) + spec_lfo_defs_writes(defs, seg, log, j + 1)
    }
}

/// The LFO writes of the ordered segments from position `k` on.
pub open spec fn spec_lfo_pass(
    sorted: Seq<NoteSegment>,
    global: Seq<RegisterLfoDefinition>,
    overrides: Seq<(u8, ProgramEffectOverrides)>,
    log: Seq<RegisterWrite>,
    k: int,
) -> Seq<RegisterWrite>
    decreases sorted.len() - k,
{
    if k < 0 || k >= sorted.len() {
        Seq::<RegisterWrite>::empty()
    } else {
        spec_lfo_defs_writes(
            spec_effective_lfo_defs(global, overrides, sorted[k].program),
            sorted[k],
            log,
            0,
        ) + spec_lfo_pass(sorted, global, overrides, log, k + 1)
    }
}

/// All software-LFO writes: the segments in start order, each under its
/// program's LFO definitions, each LFO reading its base value from the log.
pub open spec fn spec_software_lfo(
    segs: Seq<NoteSegment>,
    global: Seq<RegisterLfoDefinition>,
    overrides: Seq<(u8, ProgramEffectOverrides)>,
    log: Seq<RegisterWrite>,
) -> Seq<RegisterWrite> {
    spec_lfo_pass(spec_sort_segments(segs), global, overrides, log, 0)
}

fn lfo_value(def: &RegisterLfoDefinition, base: u8, elapsed: u64) -> (r: u8)
    ensures
        r == spec_lfo_value(*def, base, elapsed),
{
    let attack_micro: u64 = if def.attack_ns == 0 {
        1_000_000
    } else {
        let a: u128 = (elapsed as u128) * 1_000_000 / (def.attack_ns as u128);
        if a > 1_000_000 {
            1_000_000
        } else {
            a as u64
        }
    };
    proof {
        assert((elapsed as u128) * (def.rate_millihz as u128) < 0x100000000000000000000000000000000)
            by (nonlinear_arith)
            requires
                0 <= elapsed as u128 <= 0xFFFFFFFFFFFFFFFFu128,
                0 <= def.rate_millihz as u128 <= 0xFFFFFFFFFFFFFFFFu128,
        ;
    }
    let phase_e9: u64 = (((elapsed as u128) * (def.rate_millihz as u128) / 1000) % 1_000_000_000)
        as u64;
    let wave = lfo_waveform_value(def.waveform, phase_e9);
    let negative = (def.depth_milli < 0) != (wave < 0);
    let dmag: u128 = if def.depth_milli < 0 {
        (-(def.depth_milli as i128)) as u128
    } else {
        def.depth_milli as u128
    };
    let wmag: u128 = if wave < 0 {
        (-(wave as i128)) as u128
    } else {
        wave as u128
    };
    proof {
        assert(dmag * (attack_micro as u128) <= 0x8000000000000000u128 * 1_000_000)
            by (nonlinear_arith)
            requires
                0 <= dmag <= 0x8000000000000000u128,
                0 <= attack_micro <= 1_000_000,
        ;
        assert((dmag * (attack_micro as u128)) * wmag <= 0x8000000000000000u128 * 1_000_000
            * 1_000_000) by (nonlinear_arith)
            requires
                0 <= dmag * (attack_micro as u128) <= 0x8000000000000000u128 * 1_000_000,
                0 <= wmag <= 1_000_000,
        ;
    }
    let mag: u128 = dmag * (attack_micro as u128) * wmag / 1_000_000_000_000;
    let base_milli: i128 = (base as i128) * 1000;
    let value_milli: i128 = if negative {
        base_milli - (mag as i128)
    } else {
        base_milli + (mag as i128)
    };
    let clamped: u128 = if value_milli < 0 {
        0
    } else if value_milli > 255_000 {
        255_000
    } else {
        value_milli as u128
    };
    ((clamped + 500) / 1000) as u8
}

fn lfo_step(rate_millihz: u64) -> (r: u64)
    ensures
        r == spec_lfo_step(rate_millihz),
        r >= 1,
{
    if rate_millihz == 0 {
        1
    } else {
        let s = 125_000_000_000u64 / rate_millihz;
        if s < 1 {
            1
        } else {
            s
        }
    }
}

/// Append one LFO's writes over one segment.
fn append_register_lfo_for_segment(
    def: &RegisterLfoDefinition,
    seg: &NoteSegment,
    resolved_addr: u8,
    base_value: u8,
    events: &mut Vec<RegisterWrite>,
)
    requires
        def.rate_millihz != 0,
        def.depth_milli != 0,
    ensures
        final(events)@ == old(events)@ + if seg.end_time <= spec_sat_add(
            seg.start_time,
            def.delay_ns,
        ) {
            Seq::<RegisterWrite>::empty()
        } else {
            spec_lfo_samples(
                *def,
                resolved_addr,
                base_value,
                spec_sat_add(seg.start_time, def.delay_ns),
                seg.end_time,
                spec_sat_add(seg.start_time, def.delay_ns),
                None,
            )
        },
{
    let start_time = seg.start_time.saturating_add(def.delay_ns);
    let stop_time = seg.end_time;
    if stop_time <= start_time {
        proof {
            assert(events@ =~= old(events)@ + Seq::<RegisterWrite>::empty());
        }
        return;
    }
    let ghost target = old(events)@ + spec_lfo_samples(
        *def,
        resolved_addr,
        base_value,
        start_time,
        stop_time,
        start_time,
        None,
    );
    let step = lfo_step(def.rate_millihz);
    let mut t = start_time;
    let mut last: Option<u8> = None;
    loop
        invariant_except_break
            step == spec_lfo_step(def.rate_millihz),
            step >= 1,
            start_time <= t <= stop_time,
            events@ + spec_lfo_samples(*def, resolved_addr, base_value, start_time, stop_time, t, last)
                =~= target,
        ensures
            events@ =~= target,
        decreases stop_time - t,
    {
        let value = lfo_value(def, base_value, t - start_time);
        let same = match last {
            Some(v) => v == value,
            None => false,
        };
        if !same {
            events.push(RegisterWrite { time: t, addr: resolved_addr, data: value });
        }
        last = Some(value);
        if stop_time - t < step {
            break;
        }
        t = t + step;
    }
}

/// Append the software-LFO writes: segments in start order, each under its
/// program's LFO definitions (the override list when present, else the
/// global list), each LFO reading the modulated register's pre-effect value
/// from the log so far at the segment's start.
pub fn append_register_lfo_events(
    lfo_defs: &Vec<RegisterLfoDefinition>,
    overrides: &OverrideTable,
    segments: &Vec<NoteSegment>,
    events: &mut Vec<RegisterWrite>,
)
    requires
        forall|i: int|
            0 <= i < segments@.len() ==> (#[trigger] segments@[i]).ym2151_channel < 8,
    ensures
        final(events)@ == old(events)@ + spec_software_lfo(
            segments@,
            lfo_defs@,
            overrides@,
            old(events)@,
        ),
{
    let cache = build_register_state_cache(&*events);
    let ghost log = events@;
    let ordered = sort_segments(segments);
    let ghost sorted = ordered@;
    proof {
        crate::pitch_effects::lemma_sorted_channels(segments@);
    }
    let n = ordered.len();
    let mut k: usize = 0;
    while k < n
        invariant
            n == sorted.len(),
            sorted == ordered@,
            sorted == spec_sort_segments(segments@),
            log == old(events)@,
            forall|i: int| 0 <= i < sorted.len() ==> (#[trigger] sorted[i]).ym2151_channel < 8,
            cache.wf(),
            forall|a: int| 0 <= a < 256 ==> cache@[a] == spec_cache_row(log, a as u8),
            0 <= k <= n,
            events@ + spec_lfo_pass(sorted, lfo_defs@, overrides@, log, k as int) =~= old(events)@
                + spec_software_lfo(segments@, lfo_defs@, overrides@, log),
        decreases n - k,
    {
        let seg = ordered[k];
        let ghost effdefs = spec_effective_lfo_defs(lfo_defs@, overrides@, seg.program);
        let use_override = match overrides.get(seg.program) {
            Some(o) => o.software_lfo.is_some(),
            None => false,
        };
        let defs: &Vec<RegisterLfoDefinition> = if use_override {
            match overrides.get(seg.program) {
                Some(o) => match &o.software_lfo {
                    Some(v) => v,
                    None => lfo_defs,
                },
                None => lfo_defs,
            }
        } else {
            lfo_defs
        };
        proof {
            assert(defs@ == effdefs);
        }
        let m = defs.len();
        let mut j: usize = 0;
        while j < m
            invariant
                m == defs@.len(),
                defs@ == effdefs,
                seg == sorted[k as int],
                seg.ym2151_channel < 8,
                cache.wf(),
                forall|a: int| 0 <= a < 256 ==> cache@[a] == spec_cache_row(log, a as u8),
                0 <= j <= m,
                0 <= k < sorted.len(),
                events@ + spec_lfo_defs_writes(effdefs, seg, log, j as int) + spec_lfo_pass(
                    sorted,
                    lfo_defs@,
                    overrides@,
                    log,
                    k + 1,
                ) =~= old(events)@ + spec_software_lfo(segments@, lfo_defs@, overrides@, log),
            decreases m - j,
        {
            let def = &defs[j];
            match parse_hex_byte(def.base_register.as_str()) {
                Some(base_reg) => {
                    let resolved_addr = resolve_register_for_channel(base_reg, seg.ym2151_channel);
                    match cache.latest_value(resolved_addr, seg.start_time) {
                        Some(base_value) => {
                            if def.rate_millihz != 0 && def.depth_milli != 0 {
                                append_register_lfo_for_segment(
                                    def,
                                    &seg,
                                    resolved_addr,
                                    base_value,
                                    events,
                                );
                            }
                        },
                        None => {},
                    }
                },
                None => {},
            }
            j = j + 1;
        }
        k = k + 1;
    }
}

// ---------------------------------------------------------------------------
// Pop-noise envelope
// ---------------------------------------------------------------------------

/// The pop-noise configuration that applies to a program: its override when
/// present, else the global one.
pub open spec fn spec_effective_pop(
    global: Option<PopNoiseEnvelope>,
    overrides: Seq<(u8, ProgramEffectOverrides)>,
    program: u8,
) -> Option<PopNoiseEnvelope> {
    match spec_lookup(overrides, program) {
        Some(o) => match o.pop_noise_envelope {
            Some(c) => Some(c),
            None => global,
        },
        None => global,
    }
}

/// The two writes one overridden register gets before one segment: the
/// override shortly before the note, and the pre-effect value restored just
/// before it. A register that does not parse, has no value in the log, or
/// already holds the override gets nothing.
pub open spec fn spec_pop_reg_writes(
    reg: RegisterOverride,
    channel: u8,
    apply: u64,
    restore: u64,
    log: Seq<RegisterWrite>,
) -> Seq<RegisterWrite> {
    match (spec_parse_byte(reg.base_register@), spec_parse_byte(reg.value@)) {
        (Some(b), Some(v)) => {
            let addr = spec_resolve_register(b, channel);
            match spec_latest(spec_cache_row(log, addr), restore) {
                Some(base) => if base == v {
                    Seq::<RegisterWrite>::empty()
                } else {
                    seq![
                        RegisterWrite { time: apply, addr, data: v },
                        RegisterWrite { time: restore, addr, data: base },
                    ]
                },
                None => Seq::<RegisterWrite>::empty(),
            }
        },
        _ => Seq::<RegisterWrite>::empty(),
    }
}

/// The writes of the overridden registers from position `j` on.
pub open spec fn spec_pop_regs_writes(
    regs: Seq<RegisterOverride>,
    channel: u8,
    apply: u64,
    restore: u64,
    log: Seq<RegisterWrite>,
    j: int,
) -> Seq<RegisterWrite>
    decreases regs.len() - j,
{
    if j < 0 || j >= regs.len() {
        Seq::<RegisterWrite>::empty()
    } else {
        spec_pop_reg_writes(regs[j], channel, apply, restore, log) + spec_pop_regs_writes(
            regs,
            channel,
            apply,
            restore,
            log,
            j + 1,
        )
    }
}

/// The pop-noise writes for one segment: nothing when the effect is off, has
/// no registers, the note starts too early for the offset, or the offset is
/// within the restore epsilon.
pub open spec fn spec_pop_segment(
    cfg: PopNoiseEnvelope,
    seg: NoteSegment,
    log: Seq<RegisterWrite>,
) -> Seq<RegisterWrite> {
    if !cfg.enabled || cfg.registers@.len() == 0 || seg.start_time <= cfg.offset_ns
        || cfg.offset_ns <= RESTORE_BEFORE_NOTE_EPSILON_NS {
        Seq::<RegisterWrite>::empty()
    } else {
        spec_pop_regs_writes(
            cfg.registers@,
            seg.ym2151_channel,
            (seg.start_time - cfg.offset_ns) as u64,
            (seg.start_time - RESTORE_BEFORE_NOTE_EPSILON_NS) as u64,
            log,
            0,
        )
    }
}

/// The pop-noise writes of the ordered segments from position `k` on.
pub open spec fn spec_pop_pass(
    sorted: Seq<NoteSegment>,
    global: Option<PopNoiseEnvelope>,
    overrides: Seq<(u8, ProgramEffectOverrides)>,
    log: Seq<RegisterWrite>,
    k: int,
) -> Seq<RegisterWrite>
    decreases sorted.len() - k,
{
    if k < 0 || k >= sorted.len() {
        Seq::<RegisterWrite>::empty()
    } else {
        let w: Seq<RegisterWrite> = match spec_effective_pop(global, overrides, sorted[k].program) {
            Some(cfg) => spec_pop_segment(cfg, sorted[k], log),
            None => Seq::<RegisterWrite>::empty(),
        };
        w + spec_pop_pass(sorted, global, overrides, log, k + 1)
    }
}

/// All pop-noise writes: segments in start order, each under its program's
/// configuration, each register's pre-effect value read from the log so far.
pub open spec fn spec_pop_noise(
    segs: Seq<NoteSegment>,
    global: Option<PopNoiseEnvelope>,
    overrides: Seq<(u8, ProgramEffectOverrides)>,
    log: Seq<RegisterWrite>,
) -> Seq<RegisterWrite> {
    spec_pop_pass(spec_sort_segments(segs), global, overrides, log, 0)
}

/// Append the pop-noise writes: shortly before each note start, force the
/// configured registers to their override values and restore the pre-effect
/// values just before the note.
pub fn append_pop_noise_envelope_events(
    config: &Option<PopNoiseEnvelope>,
    overrides: &OverrideTable,
    segments: &Vec<NoteSegment>,
    events: &mut Vec<RegisterWrite>,
)
    requires
        forall|i: int|
            0 <= i < segments@.len() ==> (#[trigger] segments@[i]).ym2151_channel < 8,
    ensures
        final(events)@ == old(events)@ + spec_pop_noise(
            segments@,
            *config,
            overrides@,
            old(events)@,
        ),
{
    let cache = build_register_state_cache(&*events);
    let ghost log = events@;
    let ordered = sort_segments(segments);
    let ghost sorted = ordered@;
    proof {
        crate::pitch_effects::lemma_sorted_channels(segments@);
    }
    let n = ordered.len();
    let mut k: usize = 0;
    while k < n
        invariant
            n == sorted.len(),
            sorted == ordered@,
            sorted == spec_sort_segments(segments@),
            log == old(events)@,
            forall|i: int| 0 <= i < sorted.len() ==> (#[trigger] sorted[i]).ym2151_channel < 8,
            cache.wf(),
            forall|a: int| 0 <= a < 256 ==> cache@[a] == spec_cache_row(log, a as u8),
            0 <= k <= n,
            events@ + spec_pop_pass(sorted, *config, overrides@, log, k as int) =~= old(events)@
                + spec_pop_noise(segments@, *config, overrides@, log),
        decreases n - k,
    {
        let seg = ordered[k];
        let ghost effcfg = spec_effective_pop(*config, overrides@, seg.program);
        let use_override = match overrides.get(seg.program) {
            Some(o) => o.pop_noise_envelope.is_some(),
            None => false,
        };
        let cfg: &Option<PopNoiseEnvelope> = if use_override {
            match overrides.get(seg.program) {
                Some(o) => &o.pop_noise_envelope,
                None => config,
            }
        } else {
            config
        };
        proof {
            assert(*cfg == effcfg);
        }
        match cfg {
            Some(c) => {
                proof {
                    assert(effcfg == Some(*c));
                }
                if c.enabled && c.registers.len() > 0 && seg.start_time > c.offset_ns
                    && c.offset_ns > RESTORE_BEFORE_NOTE_EPSILON_NS {
                    let apply_time = seg.start_time - c.offset_ns;
                    let restore_time = seg.start_time - RESTORE_BEFORE_NOTE_EPSILON_NS;
                    let m = c.registers.len();
                    let mut j: usize = 0;
                    while j < m
                        invariant
                            m == c.registers@.len(),
                            seg == sorted[k as int],
                            seg.ym2151_channel < 8,
                            cache.wf(),
                            forall|a: int|
                                0 <= a < 256 ==> cache@[a] == spec_cache_row(log, a as u8),
                            0 <= j <= m,
                            0 <= k < sorted.len(),
                            events@ + spec_pop_regs_writes(
                                c.registers@,
                                seg.ym2151_channel,
                                apply_time,
                                restore_time,
                                log,
                                j as int,
                            ) + spec_pop_pass(sorted, *config, overrides@, log, k + 1)
                                =~= old(events)@ + spec_pop_noise(
                                segments@,
                                *config,
                                overrides@,
                                log,
                            ),
                        decreases m - j,
                    {
                        let reg = &c.registers[j];
                        match parse_hex_byte(reg.base_register.as_str()) {
                            Some(base_reg) => {
                                match parse_hex_byte(reg.value.as_str()) {
                                    Some(override_value) => {
                                        let resolved = resolve_register_for_channel(
                                            base_reg,
                                            seg.ym2151_channel,
                                        );
                                        match cache.latest_value(resolved, restore_time) {
                                            Some(base_value) => {
                                                if base_value != override_value {
                                                    events.push(
                                                        RegisterWrite {
                                                            time: apply_time,
                                                            addr: resolved,
                                                            data: override_value,
                                                        },
                                                    );
                                                    events.push(
                                                        RegisterWrite {
                                                            time: restore_time,
                                                            addr: resolved,
                                                            data: base_value,
                                                        },
                                                    );
                                                }
                                            },
                                            None => {},
                                        }
                                    },
                                    None => {},
                                }
                            },
                            None => {},
                        }
                        j = j + 1;
                    }
                }
            },
            None => {},
        }
        k = k + 1;
    }
}

// ---------------------------------------------------------------------------
// Attack-continuation fix
// ---------------------------------------------------------------------------

/// The attack-fix configuration that applies to a program: its override when
/// present, else the global one.
pub open spec fn spec_effective_attack(
    global: Option<AttackContinuationFix>,
    overrides: Seq<(u8, ProgramEffectOverrides)>,
    program: u8,
) -> Option<AttackContinuationFix> {
    match spec_lookup(overrides, program) {
        Some(o) => match o.attack_continuation_fix {
            Some(c) => Some(c),
            None => global,
        },
        None => global,
    }
}

/// The release-rate registers of a voice whose pre-effect value, read from
/// the log at time `at`, differs from the override, with those values, for
/// operators from `op` on.
pub open spec fn spec_release_regs(
    channel: u8,
    at: u64,
    release_rate: u8,
    log: Seq<RegisterWrite>,
    op: int,
) -> Seq<(u8, u8)>
    decreases 4 - op,
{
    if op < 0 || op >= 4 {
        Seq::<(u8, u8)>::empty()
    } else {
        let addr = spec_resolve_register((0xE0 + op * 8) as u8, channel);
        let rest = spec_release_regs(channel, at, release_rate, log, op + 1);
        match spec_latest(spec_cache_row(log, addr), at) {
            Some(base) => if base != release_rate {
                seq![(addr, base)] + rest
            } else {
                rest
            },
            None => rest,
        }
    }
}

/// The attack-fix writes for one segment: the release-rate registers whose
/// pre-effect value (read just before the note start) differs from the
/// override are forced to it shortly before the note, a key-off for the
/// voice lands at the same time, and the pre-effect values are restored just
/// before the note. Nothing when the effect is off, the note starts too
/// early, the offset is within the restore epsilon, or no register differs.
pub open spec fn spec_attack_segment(
    cfg: AttackContinuationFix,
    seg: NoteSegment,
    log: Seq<RegisterWrite>,
) -> Seq<RegisterWrite> {
    if !cfg.enabled || seg.start_time <= cfg.offset_ns || cfg.offset_ns
        <= RESTORE_BEFORE_NOTE_EPSILON_NS {
        Seq::<RegisterWrite>::empty()
    } else {
        let pre = (seg.start_time - cfg.offset_ns) as u64;
        let restore = (seg.start_time - RESTORE_BEFORE_NOTE_EPSILON_NS) as u64;
        let regs = spec_release_regs(seg.ym2151_channel, restore, cfg.release_rate, log, 0);
        if regs.len() == 0 {
            Seq::<RegisterWrite>::empty()
        } else {
            regs.map_values(
                |p: (u8, u8)| RegisterWrite { time: pre, addr: p.0, data: cfg.release_rate },
            ) + seq![RegisterWrite { time: pre, addr: 0x08, data: seg.ym2151_channel }]
                + regs.map_values(
                |p: (u8, u8)| RegisterWrite { time: restore, addr: p.0, data: p.1 },
            )
        }
    }
}

/// The attack-fix writes of the ordered segments from position `k` on.
pub open spec fn spec_attack_pass(
    sorted: Seq<NoteSegment>,
    global: Option<AttackContinuationFix>,
    overrides: Seq<(u8, ProgramEffectOverrides)>,
    log: Seq<RegisterWrite>,
    k: int,
) -> Seq<RegisterWrite>
    decreases sorted.len() - k,
{
    if k < 0 || k >= sorted.len() {
        Seq::<RegisterWrite>::empty()
    } else {
        let w: Seq<RegisterWrite> = match spec_effective_attack(
            global,
            overrides,
            sorted[k].program,
        ) {
            Some(cfg) => spec_attack_segment(cfg, sorted[k], log),
            None => Seq::<RegisterWrite>::empty(),
        };
        w + spec_attack_pass(sorted, global, overrides, log, k + 1)
    }
}

/// All attack-fix writes: segments in start order, each under its program's
/// configuration, pre-effect values read from the log so far.
pub open spec fn spec_attack_fix(
    segs: Seq<NoteSegment>,
    global: Option<AttackContinuationFix>,
    overrides: Seq<(u8, ProgramEffectOverrides)>,
    log: Seq<RegisterWrite>,
) -> Seq<RegisterWrite> {
    spec_attack_pass(spec_sort_segments(segs), global, overrides, log, 0)
}

/// Append the attack-continuation-fix writes: shortly before each note
/// start, force the voice's four release-rate registers to a fast release
/// and key the voice off, then restore the original rates just before the
/// note; skipped entirely when no register differs from the override.
pub fn append_attack_continuation_fix_events(
    config: &Option<AttackContinuationFix>,
    overrides: &OverrideTable,
    segments: &Vec<NoteSegment>,
    events: &mut Vec<RegisterWrite>,
)
    requires
        forall|i: int|
            0 <= i < segments@.len() ==> (#[trigger] segments@[i]).ym2151_channel < 8,
    ensures
        final(events)@ == old(events)@ + spec_attack_fix(
            segments@,
            *config,
            overrides@,
            old(events)@,
        ),
{
    let cache = build_register_state_cache(&*events);
    let ghost log = events@;
    let ordered = sort_segments(segments);
    let ghost sorted = ordered@;
    proof {
        crate::pitch_effects::lemma_sorted_channels(segments@);
    }
    let n = ordered.len();
    let mut k: usize = 0;
    while k < n
        invariant
            n == sorted.len(),
            sorted == ordered@,
            sorted == spec_sort_segments(segments@),
            log == old(events)@,
            forall|i: int| 0 <= i < sorted.len() ==> (#[trigger] sorted[i]).ym2151_channel < 8,
            cache.wf(),
            forall|a: int| 0 <= a < 256 ==> cache@[a] == spec_cache_row(log, a as u8),
            0 <= k <= n,
            events@ + spec_attack_pass(sorted, *config, overrides@, log, k as int)
                =~= old(events)@ + spec_attack_fix(segments@, *config, overrides@, log),
        decreases n - k,
    {
        let seg = ordered[k];
        let ghost effcfg = spec_effective_attack(*config, overrides@, seg.program);
        let use_override = match overrides.get(seg.program) {
            Some(o) => o.attack_continuation_fix.is_some(),
            None => false,
        };
        let cfg: &Option<AttackContinuationFix> = if use_override {
            match overrides.get(seg.program) {
                Some(o) => &o.attack_continuation_fix,
                None => config,
            }
        } else {
            config
        };
        proof {
            assert(*cfg == effcfg);
        }
        match cfg {
            Some(c) => {
                proof {
                    assert(effcfg == Some(*c));
                }
                append_attack_for_segment(c, &seg, &cache, Ghost(log), events);
            },
            None => {},
        }
        k = k + 1;
    }
}

/// Append the attack-fix writes of one segment under one configuration.
fn append_attack_for_segment(
    c: &AttackContinuationFix,
    seg: &NoteSegment,
    cache: &RegisterStateCache,
    Ghost(log): Ghost<Seq<RegisterWrite>>,
    events: &mut Vec<RegisterWrite>,
)
    requires
        seg.ym2151_channel < 8,
        cache.wf(),
        forall|a: int| 0 <= a < 256 ==> cache@[a] == spec_cache_row(log, a as u8),
    ensures
        final(events)@ == old(events)@ + spec_attack_segment(*c, *seg, log),
{
    if !(c.enabled && seg.start_time > c.offset_ns && c.offset_ns
        > RESTORE_BEFORE_NOTE_EPSILON_NS) {
        proof {
            assert(events@ =~= old(events)@ + spec_attack_segment(*c, *seg, log));
        }
        return;
    }
    let pre_time = seg.start_time - c.offset_ns;
    let restore_time = seg.start_time - RESTORE_BEFORE_NOTE_EPSILON_NS;
    let mut release_registers: Vec<(u8, u8)> = Vec::new();
    let mut op: u8 = 0;
    while op < 4
        invariant
            seg.ym2151_channel < 8,
            cache.wf(),
            forall|a: int| 0 <= a < 256 ==> cache@[a] == spec_cache_row(log, a as u8),
            0 <= op <= 4,
            release_registers@ + spec_release_regs(
                seg.ym2151_channel,
                restore_time,
                c.release_rate,
                log,
                op as int,
            ) =~= spec_release_regs(seg.ym2151_channel, restore_time, c.release_rate, log, 0),
        decreases 4 - op,
    {
        let base_reg = 0xE0u8 + op * 8;
        let resolved = resolve_register_for_channel(base_reg, seg.ym2151_channel);
        match cache.latest_value(resolved, restore_time) {
            Some(base_value) => {
                if base_value != c.release_rate {
                    release_registers.push((resolved, base_value));
                }
            },
            None => {},
        }
        op = op + 1;
    }
    let ghost regs = spec_release_regs(seg.ym2151_channel, restore_time, c.release_rate, log, 0);
    proof {
        assert(spec_release_regs(seg.ym2151_channel, restore_time, c.release_rate, log, 4)
            =~= Seq::<(u8, u8)>::empty());
        assert(release_registers@ =~= regs);
    }
    let ghost forced = regs.map_values(
        |p: (u8, u8)| RegisterWrite { time: pre_time, addr: p.0, data: c.release_rate },
    );
    let ghost restored = regs.map_values(
        |p: (u8, u8)| RegisterWrite { time: restore_time, addr: p.0, data: p.1 },
    );
    if release_registers.len() > 0 {
        let m = release_registers.len();
        let mut j: usize = 0;
        while j < m
            invariant
                m == regs.len(),
                release_registers@ == regs,
                forced == regs.map_values(
                    |p: (u8, u8)| RegisterWrite { time: pre_time, addr: p.0, data: c.release_rate },
                ),
                0 <= j <= m,
                events@ =~= old(events)@ + forced.subrange(0, j as int),
            decreases m - j,
        {
            let entry = release_registers[j];
            events.push(RegisterWrite { time: pre_time, addr: entry.0, data: c.release_rate });
            proof {
                assert(events@ =~= old(events)@ + forced.subrange(0, j + 1 as int));
            }
            j = j + 1;
        }
        proof {
            assert(forced.subrange(0, m as int) =~= forced);
        }
        events.push(RegisterWrite { time: pre_time, addr: 0x08, data: seg.ym2151_channel });
        let ghost mid = old(events)@ + forced + seq![
            RegisterWrite { time: pre_time, addr: 0x08, data: seg.ym2151_channel },
        ];
        proof {
            assert(events@ =~= mid);
        }
        let mut j2: usize = 0;
        while j2 < m
            invariant
                m == regs.len(),
                release_registers@ == regs,
                restored == regs.map_values(
                    |p: (u8, u8)| RegisterWrite { time: restore_time, addr: p.0, data: p.1 },
                ),
                0 <= j2 <= m,
                events@ =~= mid + restored.subrange(0, j2 as int),
            decreases m - j2,
        {
            let entry = release_registers[j2];
            events.push(RegisterWrite { time: restore_time, addr: entry.0, data: entry.1 });
            proof {
                assert(events@ =~= mid + restored.subrange(0, j2 + 1 as int));
            }
            j2 = j2 + 1;
        }
        proof {
            assert(restored.subrange(0, m as int) =~= restored);
            assert(events@ =~= old(events)@ + spec_attack_segment(*c, *seg, log));
        }
    } else {
        proof {
            assert(events@ =~= old(events)@ + spec_attack_segment(*c, *seg, log));
        }
    }
}

} // verus!
