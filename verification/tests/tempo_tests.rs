use smf_to_ym2151log::build_tempo_map;
use smf_to_ym2151log::nanoseconds_to_samples;
use smf_to_ym2151log::tempo_to_bpm_milli;
use smf_to_ym2151log::ticks_to_nanoseconds;
use smf_to_ym2151log::ticks_to_samples;
use smf_to_ym2151log::ticks_to_samples_with_tempo_map;
use smf_to_ym2151log::MidiData;
use smf_to_ym2151log::MidiEvent;
use smf_to_ym2151log::TempoChange;

#[test]
fn test_default_tempo_conversion() {
    // 120 BPM = 500,000 microseconds per quarter note
    assert_eq!(tempo_to_bpm_milli(500_000), 120_000);
}

#[test]
fn test_ticks_to_seconds_one_beat() {
    // 1 beat at 120 BPM = 0.5 seconds
    assert_eq!(ticks_to_nanoseconds(480, 480, 120_000), 500_000_000);
}

#[test]
fn test_ticks_to_seconds_half_beat() {
    // 0.5 beat at 120 BPM = 0.25 seconds
    assert_eq!(ticks_to_nanoseconds(240, 480, 120_000), 250_000_000);
}

#[test]
fn test_ticks_to_seconds_different_tempo() {
    // 1 beat at 60 BPM = 1.0 second
    assert_eq!(ticks_to_nanoseconds(480, 480, 60_000), 1_000_000_000);
}

#[test]
fn test_ticks_to_seconds_different_ticks_per_beat() {
    // 1 beat at 120 BPM = 0.5 seconds (with different ticks_per_beat)
    assert_eq!(ticks_to_nanoseconds(960, 960, 120_000), 500_000_000);
}

#[test]
fn test_seconds_to_samples_one_second() {
    assert_eq!(nanoseconds_to_samples(1_000_000_000), 55930);
}

#[test]
fn test_seconds_to_samples_half_second() {
    assert_eq!(nanoseconds_to_samples(500_000_000), 27965);
}

#[test]
fn test_seconds_to_samples_zero() {
    assert_eq!(nanoseconds_to_samples(0), 0);
}

#[test]
fn test_ticks_to_samples_one_beat() {
    // 1 beat at 120 BPM = 0.5 seconds = 27965 samples
    assert_eq!(ticks_to_samples(480, 480, 120_000), 27965);
}

#[test]
fn test_ticks_to_samples_zero() {
    assert_eq!(ticks_to_samples(0, 480, 120_000), 0);
}

#[test]
fn test_ticks_to_samples_precision() {
    let samples1 = ticks_to_samples(1, 480, 120_000);
    let samples2 = ticks_to_samples(2, 480, 120_000);
    assert_eq!(samples2, samples1 * 2);
}

#[test]
fn test_ticks_to_samples_with_tempo_map_no_changes() {
    let tempo_map = vec![TempoChange { tick: 0, tempo_bpm_milli: 120_000 }];
    assert_eq!(ticks_to_samples_with_tempo_map(480, 480, &tempo_map), 27965);
}

#[test]
fn test_ticks_to_samples_with_tempo_map_single_change() {
    let tempo_map = vec![
        TempoChange { tick: 0, tempo_bpm_milli: 120_000 },
        TempoChange { tick: 480, tempo_bpm_milli: 60_000 },
    ];

    // At tick 480 (right at the tempo change): 0.5 seconds.
    assert_eq!(ticks_to_samples_with_tempo_map(480, 480, &tempo_map), 27965);

    // At tick 960: 0.5 s at 120 BPM + 1.0 s at 60 BPM = 1.5 seconds.
    assert_eq!(ticks_to_samples_with_tempo_map(960, 480, &tempo_map), 83895);
}

#[test]
fn test_ticks_to_samples_with_tempo_map_multiple_changes() {
    let tempo_map = vec![
        TempoChange { tick: 0, tempo_bpm_milli: 120_000 },
        TempoChange { tick: 240, tempo_bpm_milli: 60_000 },
        TempoChange { tick: 480, tempo_bpm_milli: 180_000 },
    ];

    assert_eq!(ticks_to_samples_with_tempo_map(0, 480, &tempo_map), 0);
    // 0.25 seconds.
    assert_eq!(ticks_to_samples_with_tempo_map(240, 480, &tempo_map), 13982);
    // 0.25 + 0.5 = 0.75 seconds.
    assert_eq!(ticks_to_samples_with_tempo_map(480, 480, &tempo_map), 41947);
    // 0.25 + 0.5 + 1/6 of a second.
    assert_eq!(ticks_to_samples_with_tempo_map(720, 480, &tempo_map), 51269);
}

#[test]
fn test_ticks_to_samples_with_tempo_map_empty() {
    let tempo_map: Vec<TempoChange> = vec![];
    assert_eq!(ticks_to_samples_with_tempo_map(480, 480, &tempo_map), 27965);
}

#[test]
fn test_ticks_to_samples_with_tempo_map_before_first_change() {
    let tempo_map = vec![TempoChange { tick: 480, tempo_bpm_milli: 60_000 }];
    // Before the first change, the first entry's tempo rules: 0.5 seconds.
    assert_eq!(ticks_to_samples_with_tempo_map(240, 480, &tempo_map), 27965);
}

#[test]
fn test_tick_to_seconds_non_decreasing() {
    let tempo_map = vec![
        TempoChange { tick: 0, tempo_bpm_milli: 120_000 },
        TempoChange { tick: 100, tempo_bpm_milli: 30_000 },
        TempoChange { tick: 300, tempo_bpm_milli: 240_000 },
    ];
    assert_eq!(ticks_to_samples_with_tempo_map(0, 480, &tempo_map), 0);
    let mut prev = 0;
    for tick in 0..1000u32 {
        let t = ticks_to_samples_with_tempo_map(tick, 480, &tempo_map);
        assert!(t >= prev, "time went backwards at tick {}", tick);
        prev = t;
    }
}

#[test]
fn test_build_tempo_map_empty_events() {
    let midi_data = MidiData { ticks_per_beat: 480, tempo_bpm_milli: 120_000, events: vec![] };

    let tempo_map = build_tempo_map(&midi_data);

    assert_eq!(tempo_map.len(), 1);
    assert_eq!(tempo_map[0].tick, 0);
    assert_eq!(tempo_map[0].tempo_bpm_milli, 120_000);
}

#[test]
fn test_build_tempo_map_single_change() {
    let midi_data = MidiData {
        ticks_per_beat: 480,
        tempo_bpm_milli: 120_000,
        events: vec![MidiEvent::Tempo { ticks: 480, tempo_bpm_milli: 140_000 }],
    };

    let tempo_map = build_tempo_map(&midi_data);

    assert_eq!(tempo_map.len(), 2);
    assert_eq!(tempo_map[0].tick, 0);
    assert_eq!(tempo_map[0].tempo_bpm_milli, 120_000);
    assert_eq!(tempo_map[1].tick, 480);
    assert_eq!(tempo_map[1].tempo_bpm_milli, 140_000);
}

#[test]
fn test_build_tempo_map_multiple_changes() {
    let midi_data = MidiData {
        ticks_per_beat: 480,
        tempo_bpm_milli: 100_000,
        events: vec![
            MidiEvent::Tempo { ticks: 240, tempo_bpm_milli: 120_000 },
            MidiEvent::Tempo { ticks: 480, tempo_bpm_milli: 140_000 },
        ],
    };

    let tempo_map = build_tempo_map(&midi_data);

    assert_eq!(tempo_map.len(), 3);
    assert_eq!(tempo_map[0].tick, 0);
    assert_eq!(tempo_map[0].tempo_bpm_milli, 100_000);
    assert_eq!(tempo_map[1].tick, 240);
    assert_eq!(tempo_map[1].tempo_bpm_milli, 120_000);
    assert_eq!(tempo_map[2].tick, 480);
    assert_eq!(tempo_map[2].tempo_bpm_milli, 140_000);
}

#[test]
fn test_build_tempo_map_ignores_non_tempo_events() {
    let midi_data = MidiData {
        ticks_per_beat: 480,
        tempo_bpm_milli: 120_000,
        events: vec![
            MidiEvent::NoteOn { ticks: 0, channel: 0, note: 60, velocity: 100 },
            MidiEvent::Tempo { ticks: 480, tempo_bpm_milli: 140_000 },
            MidiEvent::NoteOff { ticks: 960, channel: 0, note: 60 },
        ],
    };

    let tempo_map = build_tempo_map(&midi_data);

    assert_eq!(tempo_map.len(), 2);
    assert_eq!(tempo_map[0].tempo_bpm_milli, 120_000);
    assert_eq!(tempo_map[1].tempo_bpm_milli, 140_000);
}

#[test]
fn test_build_tempo_map_deduplicates_same_tick() {
    let midi_data = MidiData {
        ticks_per_beat: 480,
        tempo_bpm_milli: 120_000,
        events: vec![
            MidiEvent::Tempo { ticks: 480, tempo_bpm_milli: 130_000 },
            MidiEvent::Tempo { ticks: 480, tempo_bpm_milli: 140_000 },
        ],
    };

    let tempo_map = build_tempo_map(&midi_data);

    // Only 2 entries: the initial one and one for tick 480.
    assert_eq!(tempo_map.len(), 2);
    assert_eq!(tempo_map[0].tick, 0);
    assert_eq!(tempo_map[1].tick, 480);
    // The last change at the tick wins.
    assert_eq!(tempo_map[1].tempo_bpm_milli, 140_000);
}

#[test]
fn test_build_tempo_map_override_initial_tempo() {
    let midi_data = MidiData {
        ticks_per_beat: 480,
        tempo_bpm_milli: 120_000,
        events: vec![MidiEvent::Tempo { ticks: 0, tempo_bpm_milli: 140_000 }],
    };

    let tempo_map = build_tempo_map(&midi_data);

    assert_eq!(tempo_map.len(), 1);
    assert_eq!(tempo_map[0].tick, 0);
    assert_eq!(tempo_map[0].tempo_bpm_milli, 140_000);
}
