//! Conversion options: effect toggles and parameters, attached tones per
//! program, and per-program overrides of the effect settings.
//!
//! Times are nanoseconds, rates milli-hertz, depths milli-units: an LFO depth
//! of 4.0 registers is stored as 4000.

use vstd::prelude::*;
use crate::events::Ym2151Event;
use crate::tone::ToneDefinition;

verus! {

/// Waveforms the software LFO can use.
#[derive(Debug, Clone, Copy, PartialEq, Eq, Structural)]
pub enum LfoWaveform {
    /// A triangle wave rising from 0 to 1, falling through 0 to -1, and back.
    Triangle,
}

/// One software LFO: which register it modulates and how.
#[derive(Debug, Clone)]
pub struct RegisterLfoDefinition {
    /// The modulated register, authored for voice 0, as a byte string.
    pub base_register: String,
    /// Peak offset added to the register, in milli-units.
    pub depth_milli: i64,
    /// Oscillation rate in milli-hertz; 0 disables the LFO.
    pub rate_millihz: u64,
    /// Delay from note start to the first sample, in nanoseconds.
    pub delay_ns: u64,
    /// Ramp from zero to full depth over this many nanoseconds.
    pub attack_ns: u64,
    /// The waveform sampled.
    pub waveform: LfoWaveform,
}

/// A register and the value the pop-noise envelope forces onto it.
#[derive(Debug, Clone)]
pub struct RegisterOverride {
    /// The register, authored for voice 0, as a byte string.
    pub base_register: String,
    /// The forced value, as a byte string.
    pub value: String,
}

/// Pop-noise mitigation: shortly before each note start, force the listed
/// registers to quiet values, restoring them just before the note.
#[derive(Debug, Clone)]
pub struct PopNoiseEnvelope {
    pub enabled: bool,
    /// How long before the note start the override lands, in nanoseconds.
    pub offset_ns: u64,
    /// The registers forced and their override values.
    pub registers: Vec<RegisterOverride>,
}

/// Attack-continuation fix: shortly before each note start, force the four
/// release-rate registers to a fast release and key the voice off, restoring
/// the original rates just before the note.
#[derive(Debug, Clone)]
pub struct AttackContinuationFix {
    pub enabled: bool,
    /// How long before the note start the forced release lands, in
    /// nanoseconds.
    pub offset_ns: u64,
    /// The release rate forced onto all four operators.
    pub release_rate: u8,
}

/// Per-program overrides: any field present replaces the global setting for
/// segments playing that program.
#[derive(Debug, Clone)]
pub struct ProgramEffectOverrides {
    pub delay_vibrato: Option<bool>,
    pub portamento: Option<bool>,
    pub pop_noise_envelope: Option<PopNoiseEnvelope>,
    pub attack_continuation_fix: Option<AttackContinuationFix>,
    pub software_lfo: Option<Vec<RegisterLfoDefinition>>,
}

/// The first entry for a program, searched from the front.
pub open spec fn spec_lookup<T>(entries: Seq<(u8, T)>, program: u8) -> Option<T>
    decreases entries.len(),
{
    if entries.len() == 0 {
        None
    } else if entries.first().0 == program {
        Some(entries.first().1)
    } else {
        spec_lookup(entries.drop_first(), program)
    }
}

/// Tones attached per program number.
#[derive(Debug)]
pub struct ToneTable {
    entries: Vec<(u8, ToneDefinition)>,
}

impl ToneTable {
    /// The attached tone for each program, newest attachment first.
    pub closed spec fn view(&self) -> Seq<(u8, ToneDefinition)> {
        self.entries@
    }

    /// An empty table: no program has a tone attached.
    pub fn new() -> (r: ToneTable)
        ensures
            r@ =~= Seq::<(u8, ToneDefinition)>::empty(),
    {
        ToneTable { entries: Vec::new() }
    }

    /// Attach a tone to a program, shadowing any earlier attachment.
    pub fn insert(&mut self, program: u8, tone: ToneDefinition)
        ensures
            final(self)@ == old(self)@.insert(0, (program, tone)),
            spec_lookup(final(self)@, program) == Some::<ToneDefinition>(tone),
            forall|q: u8|
                q != program ==> spec_lookup(final(self)@, q) == spec_lookup(old(self)@, q),
    {
        self.entries.insert(0, (program, tone));
        proof {
            assert(self.entries@.drop_first() =~= old(self)@);
        }
    }

    /// The tone attached to a program, if any.
    pub fn get(&self, program: u8) -> (r: Option<&ToneDefinition>)
        ensures
            match r {
                Some(t) => spec_lookup(self@, program) == Some(*t),
                None => spec_lookup(self@, program) is None,
            },
    {
        let n = self.entries.len();
        proof {
            assert(self.entries@.subrange(0, n as int) =~= self.entries@);
        }
        let mut i: usize = 0;
        while i < n
            invariant
                n == self.entries@.len(),
                0 <= i <= n,
                spec_lookup(self@, program) == spec_lookup(
                    self.entries@.subrange(i as int, n as int),
                    program,
                ),
            decreases n - i,
        {
            proof {
                assert(self.entries@.subrange(i as int, n as int).drop_first()
                    =~= self.entries@.subrange(i + 1 as int, n as int));
            }
            if self.entries[i].0 == program {
                return Some(&self.entries[i].1);
            }
            i = i + 1;
        }
        None
    }

    /// A copy holding the same attachments.
    pub fn duplicate(&self) -> (r: ToneTable)
        ensures
            spec_tones_model(r) == spec_tones_model(*self),
    {
        let n = self.entries.len();
        let mut entries: Vec<(u8, ToneDefinition)> = Vec::new();
        let mut i: usize = 0;
        while i < n
            invariant
                n == self.entries@.len(),
                0 <= i <= n,
                entries@.len() == i,
                forall|j: int|
                    0 <= j < i ==> (#[trigger] entries@[j]).0 == self.entries@[j].0
                        && entries@[j].1.events@ == self.entries@[j].1.events@,
            decreases n - i,
        {
            let p = self.entries[i].0;
            let tone = duplicate_tone(&self.entries[i].1);
            entries.push((p, tone));
            i = i + 1;
            proof {
                assert(entries@[i - 1].0 == self.entries@[i - 1].0);
                assert(entries@[i - 1].1.events@ == self.entries@[i - 1].1.events@);
            }
        }
        let r = ToneTable { entries };
        proof {
            assert(spec_tones_model(r) =~= spec_tones_model(*self));
        }
        r
    }
}

/// The attachments of a tone table as program numbers and event sequences,
/// the form the conversion pipeline's contracts speak of.
pub open spec fn spec_tones_model(t: ToneTable) -> Seq<(u8, Seq<Ym2151Event>)> {
    Seq::new(t@.len(), |i: int| (t@[i].0, t@[i].1.events@))
}

/// Looking a program up in the table and in its model agree.
pub proof fn lemma_lookup_model(entries: Seq<(u8, ToneDefinition)>, program: u8)
    ensures
        match spec_lookup(entries, program) {
            Some(td) => spec_lookup(spec_entries_model(entries), program) == Some(td.events@),
            None => spec_lookup(spec_entries_model(entries), program) is None,
        },
    decreases entries.len(),
{
    let m = spec_entries_model(entries);
    if entries.len() == 0 {
    } else {
        assert(m.first() == (entries.first().0, entries.first().1.events@));
        if entries.first().0 != program {
            lemma_lookup_model(entries.drop_first(), program);
            assert(m.drop_first() =~= spec_entries_model(entries.drop_first()));
        }
    }
}

/// The model of a plain entry sequence.
pub open spec fn spec_entries_model(entries: Seq<(u8, ToneDefinition)>) -> Seq<
    (u8, Seq<Ym2151Event>),
> {
    Seq::new(entries.len(), |i: int| (entries[i].0, entries[i].1.events@))
}

/// A copy of a tone definition holding the same events.
pub fn duplicate_tone(tone: &ToneDefinition) -> (r: ToneDefinition)
    ensures
        r.events@ == tone.events@,
{
    let n = tone.events.len();
    let mut events: Vec<Ym2151Event> = Vec::new();
    let mut i: usize = 0;
    while i < n
        invariant
            n == tone.events@.len(),
            0 <= i <= n,
            events@.len() == i,
            forall|j: int| 0 <= j < i ==> events@[j] == tone.events@[j],
        decreases n - i,
    {
        let ev = &tone.events[i];
        let copy = Ym2151Event { time: ev.time, addr: duplicate_string(&ev.addr), data: duplicate_string(&ev.data) };
        proof {
            assert(copy == tone.events@[i as int]);
        }
        events.push(copy);
        i = i + 1;
    }
    let r = ToneDefinition { events };
    proof {
        assert(r.events@ =~= tone.events@);
    }
    r
}

fn duplicate_string(s: &String) -> (r: String)
    ensures
        r == *s,
{
    s.clone()
}

/// Effect-setting overrides attached per program number.
#[derive(Debug)]
pub struct OverrideTable {
    entries: Vec<(u8, ProgramEffectOverrides)>,
}

impl OverrideTable {
    /// The overrides for each program, newest attachment first.
    pub closed spec fn view(&self) -> Seq<(u8, ProgramEffectOverrides)> {
        self.entries@
    }

    /// An empty table: every program follows the global settings.
    pub fn new() -> (r: OverrideTable)
        ensures
            r@ =~= Seq::<(u8, ProgramEffectOverrides)>::empty(),
    {
        OverrideTable { entries: Vec::new() }
    }

    /// Attach overrides to a program, shadowing any earlier attachment.
    pub fn insert(&mut self, program: u8, overrides: ProgramEffectOverrides)
        ensures
            final(self)@ == old(self)@.insert(0, (program, overrides)),
            spec_lookup(final(self)@, program) == Some::<ProgramEffectOverrides>(overrides),
            forall|q: u8|
                q != program ==> spec_lookup(final(self)@, q) == spec_lookup(old(self)@, q),
    {
        self.entries.insert(0, (program, overrides));
        proof {
            assert(self.entries@.drop_first() =~= old(self)@);
        }
    }

    /// The overrides attached to a program, if any.
    pub fn get(&self, program: u8) -> (r: Option<&ProgramEffectOverrides>)
        ensures
            match r {
                Some(t) => spec_lookup(self@, program) == Some(*t),
                None => spec_lookup(self@, program) is None,
            },
    {
        let n = self.entries.len();
        proof {
            assert(self.entries@.subrange(0, n as int) =~= self.entries@);
        }
        let mut i: usize = 0;
        while i < n
            invariant
                n == self.entries@.len(),
                0 <= i <= n,
                spec_lookup(self@, program) == spec_lookup(
                    self.entries@.subrange(i as int, n as int),
                    program,
                ),
            decreases n - i,
        {
            proof {
                assert(self.entries@.subrange(i as int, n as int).drop_first()
                    =~= self.entries@.subrange(i + 1 as int, n as int));
            }
            if self.entries[i].0 == program {
                return Some(&self.entries[i].1);
            }
            i = i + 1;
        }
        None
    }
}

/// Global effect toggles and parameters, attached tones and per-program
/// overrides. Conversion itself never rejects options; loaders validate
/// before building this value.
#[derive(Debug)]
pub struct ConversionOptions {
    /// Delayed vibrato on every segment.
    pub delay_vibrato: bool,
    /// Portamento between consecutive segments on a voice.
    pub portamento: bool,
    /// Pop-noise mitigation, when present.
    pub pop_noise_envelope: Option<PopNoiseEnvelope>,
    /// Attack-continuation fix, when present.
    pub attack_continuation_fix: Option<AttackContinuationFix>,
    /// Software LFOs, applied independently.
    pub software_lfo: Vec<RegisterLfoDefinition>,
    /// Tones attached per program.
    pub tones: ToneTable,
    /// Per-program overrides of the effect settings.
    pub program_overrides: OverrideTable,
}

impl Default for ConversionOptions {
    /// Options with every effect off and nothing attached.
    fn default() -> (r: ConversionOptions)
        ensures
            !r.delay_vibrato,
            !r.portamento,
            r.pop_noise_envelope is None,
            r.attack_continuation_fix is None,
            r.software_lfo@.len() == 0,
            r.tones@.len() == 0,
            r.program_overrides@.len() == 0,
    {
        ConversionOptions {
            delay_vibrato: false,
            portamento: false,
            pop_noise_envelope: None,
            attack_continuation_fix: None,
            software_lfo: Vec::new(),
            tones: ToneTable::new(),
            program_overrides: OverrideTable::new(),
        }
    }
}

} // verus!
