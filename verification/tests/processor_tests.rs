use smf_to_ym2151log::allocate_channels;
use smf_to_ym2151log::process_event;
use smf_to_ym2151log::process_note_off;
use smf_to_ym2151log::process_note_on;
use smf_to_ym2151log::process_program_change;
use smf_to_ym2151log::EventProcessorContext;
use smf_to_ym2151log::MidiEvent;
use smf_to_ym2151log::TempoChange;
use smf_to_ym2151log::ToneTable;

fn create_test_context(polyphony_pairs: &[(usize, usize)]) -> EventProcessorContext {
    let mut poly = vec![0usize; 16];
    for &(ch, p) in polyphony_pairs {
        poly[ch] = p;
    }
    EventProcessorContext {
        ticks_per_beat: 480,
        tempo_map: vec![TempoChange { tick: 0, tempo_bpm_milli: 120_000 }],
        allocation: allocate_channels(&poly),
        active_notes: vec![false; 1024],
        channel_programs: vec![0; 8],
        note_start: vec![None; 1024],
        completed_notes: Vec::new(),
        tones: ToneTable::new(),
    }
}

#[test]
fn test_process_note_on_basic() {
    let mut ctx = create_test_context(&[(0, 1)]);

    let events = process_note_on(0, 0, 60, 100, &mut ctx);

    // Key code, key fraction, key-on.
    assert_eq!(events.len(), 3);

    assert!((0x28..0x30).contains(&events[0].addr));
    assert_eq!(events[0].data, 0x3E); // Middle C

    assert!((0x30..0x38).contains(&events[1].addr));
    assert_eq!(events[1].data, 0x00);

    assert_eq!(events[2].addr, 0x08);
    assert_eq!(events[2].data & 0x78, 0x78); // All operators on.
}

#[test]
fn test_process_note_on_zero_velocity() {
    let mut ctx = create_test_context(&[(0, 1)]);

    let events = process_note_on(0, 0, 60, 0, &mut ctx);

    assert!(events.is_empty());
}

#[test]
fn test_process_note_on_no_allocation() {
    let mut ctx = create_test_context(&[]);

    let events = process_note_on(0, 0, 60, 100, &mut ctx);

    assert!(events.is_empty());
}

#[test]
fn test_process_note_off_basic() {
    let mut ctx = create_test_context(&[(0, 1)]);

    process_note_on(0, 0, 60, 100, &mut ctx);
    let events = process_note_off(480, 0, 60, &mut ctx);

    // One key-off.
    assert_eq!(events.len(), 1);
    assert_eq!(events[0].addr, 0x08);
    // All operators cleared: the data byte is just the voice.
    assert!(events[0].data < 8);
}

#[test]
fn test_process_note_off_no_active_note() {
    let mut ctx = create_test_context(&[(0, 1)]);

    let events = process_note_off(480, 0, 60, &mut ctx);

    assert!(events.is_empty());
}

#[test]
fn test_process_note_off_records_segment() {
    let mut ctx = create_test_context(&[(0, 1)]);

    process_note_on(0, 0, 60, 100, &mut ctx);
    process_note_off(480, 0, 60, &mut ctx);

    assert_eq!(ctx.completed_notes.len(), 1);
    let seg = &ctx.completed_notes[0];
    assert_eq!(seg.note, 60);
    assert_eq!(seg.start_tick, 0);
    assert_eq!(seg.end_tick, 480);
    assert_eq!(seg.start_time, 0);
    assert_eq!(seg.end_time, 500_000_000);
    assert_eq!(seg.program, 0);
}

#[test]
fn test_process_program_change_basic() {
    let mut ctx = create_test_context(&[(0, 1)]);

    let events = process_program_change(0, 0, 42, &mut ctx);

    // The default tone block: 26 writes for the one allocated voice.
    assert_eq!(events.len(), 26);

    // The voice's current program updated.
    let voice = ctx.allocation.midi_to_ym2151[0][0] as usize;
    assert_eq!(ctx.channel_programs[voice], 42);
}

#[test]
fn test_process_program_change_no_allocation() {
    let mut ctx = create_test_context(&[]);

    let events = process_program_change(0, 0, 42, &mut ctx);

    assert!(events.is_empty());
}

#[test]
fn test_process_event_tempo() {
    let mut ctx = create_test_context(&[]);

    let event = MidiEvent::Tempo { ticks: 0, tempo_bpm_milli: 140_000 };

    let events = process_event(&event, &mut ctx);

    assert!(events.is_empty());
}

#[test]
fn test_process_event_note_on() {
    let mut ctx = create_test_context(&[(0, 1)]);

    let event = MidiEvent::NoteOn { ticks: 0, channel: 0, note: 60, velocity: 100 };

    let events = process_event(&event, &mut ctx);

    assert_eq!(events.len(), 3);
}

#[test]
fn test_round_robin_voices() {
    // Two overlapping notes on one channel land on two distinct voices.
    let mut ctx = create_test_context(&[(0, 2)]);

    let first = process_note_on(0, 0, 60, 100, &mut ctx);
    let second = process_note_on(240, 0, 64, 100, &mut ctx);

    let voice_a = first[2].data & 0x07;
    let voice_b = second[2].data & 0x07;
    assert_ne!(voice_a, voice_b);
}
