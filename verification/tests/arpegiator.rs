use midi_plugins::arpegiator::device::{Device, DeviceChange, Expression};
use midi_plugins::arpegiator::device_out::DeviceOut;
use midi_plugins::arpegiator::change::SourceChange;
use std::cmp::Ordering;
use midi_plugins::arpegiator::engine::{Arpegiator, PitchBendMode};
use midi_plugins::arpegiator::note::{Note, NoteIndex};
use midi_plugins::arpegiator::pattern::Pattern;
use midi_plugins::arpegiator::pattern_device::{PatternDevice, PatternDeviceChange};
use midi_plugins::arpegiator::timed_event::TimedEvent;
use midi_plugins::arpegiator::timed_sort::sort_by_time;
use midi_plugins::midi_message_with_delta::MidiMessageWithDelta;
use midi_plugins::raw_message::RawMessage;
use midi_plugins::arpegiator::transmission::{shift_pattern_events, sort_events_by_key, split_patterns};
use midi_plugins::arpegiator::worker_router::{RouterAction, RouterEvent, WorkerRouter};
use midi_plugins::midi_event::{make_midi_message, Event, MidiEvent};

fn msg(data: [u8; 3], delta_frames: u16) -> MidiMessageWithDelta {
    MidiMessageWithDelta { delta_frames, data: RawMessage(data) }
}

fn note(id: usize, channel: u8, pitch: u8, pressed_at: usize) -> Note {
    Note {
        id,
        pressed_at,
        released_at: 0,
        channel,
        pitch,
        velocity: 100,
        velocity_off: 0,
        pressure: 0,
        timbre: 0,
        pitchbend: 0,
    }
}

#[test]
fn pattern_from_note_splits_rank_and_octave() {
    let p = Pattern::from(note(7, 1, 73, 5));
    assert_eq!((p.id, p.channel, p.index, p.octave), (7, 1, 1, 1));
    assert_eq!((p.pressed_at, p.released_at, p.timbre, p.pressure, p.pitchbend), (5, 0, 64, 0, 0));
    assert_eq!(p.transpose(64), Some(76));
    // the pattern's own note comes back from C3 + rank
    assert_eq!(p.transpose(60 + p.index), Some(73));
    let low = Pattern::from(note(8, 0, 50, 0));
    assert_eq!((low.index, low.octave), (2, -1));
    assert_eq!(low.transpose(5), None);
    assert_eq!(low.transpose(62), Some(50));
}

#[test]
fn pattern_timestamp_is_release_once_released() {
    let mut p = Pattern::from(note(1, 0, 60, 10));
    assert_eq!(p.timestamp(), 10);
    p.released_at = 30;
    assert_eq!(p.timestamp(), 30);
    assert_eq!(p.id(), 1);
}

#[test]
fn notes_compare_by_pitch_then_id() {
    assert!(note(1, 0, 60, 0) < note(0, 0, 61, 0));
    assert!(note(0, 0, 60, 0) < note(1, 0, 60, 0));
    assert!(note(3, 0, 60, 0) == note(3, 5, 70, 9));
    assert!(NoteIndex { channel: 5, pitch: 60 } < NoteIndex { channel: 0, pitch: 61 });
    assert!(NoteIndex { channel: 0, pitch: 60 } < NoteIndex { channel: 1, pitch: 60 });
}

#[test]
fn device_holds_and_releases_notes() {
    let mut d = Device::new("in".to_string());
    match d.update(msg([0x92, 60, 100], 5), 100, None) {
        DeviceChange::AddNote { time, note } => {
            assert_eq!((time, note.id, note.channel, note.pitch, note.velocity, note.pressed_at), (105, 0, 2, 60, 100, 105));
        }
        _ => panic!("expected an added note"),
    }
    assert_eq!(d.note_index, 1);
    assert_eq!(d.notes.len(), 1);
    match d.update(msg([0x82, 60, 33], 7), 100, None) {
        DeviceChange::RemoveNote { time, note } => {
            assert_eq!((time, note.id, note.released_at, note.velocity_off), (107, 0, 107, 33));
        }
        _ => panic!("expected a removed note"),
    }
    assert_eq!(d.notes.len(), 0);
    assert!(matches!(d.update(msg([0x82, 60, 33], 0), 0, None), DeviceChange::Unchanged { time: 0 }));
}

#[test]
fn device_replaces_a_note_played_again() {
    let mut d = Device::new("in".to_string());
    d.update(msg([0x90, 60, 100], 0), 0, Some(40));
    match d.update(msg([0x90, 60, 90], 1), 0, Some(41)) {
        DeviceChange::ReplaceNote { old_note, new_note, .. } => {
            assert_eq!((old_note.id, new_note.id, new_note.velocity), (40, 41, 90));
        }
        _ => panic!("expected a replacement"),
    }
    assert_eq!(d.notes.len(), 1);
    assert_eq!(d.note_index, 0);
}

#[test]
fn device_expression_goes_to_channel_and_first_note() {
    let mut d = Device::new("in".to_string());
    d.update(msg([0xD0, 70, 0], 0), 0, None);
    assert_eq!(d.channels[0].pressure, 70);
    assert!(matches!(d.update(msg([0xD1, 20, 0], 0), 0, None), DeviceChange::Unchanged { .. }));
    d.update(msg([0x90, 60, 100], 0), 0, None);
    assert_eq!(d.notes[0].1.pressure, 70);
    match d.update(msg([0xD0, 90, 0], 0), 0, None) {
        DeviceChange::NoteExpressionChange { expression, note, .. } => {
            assert_eq!(expression, Expression::Pressure);
            assert_eq!(note.pressure, 90);
        }
        _ => panic!("expected an expression change"),
    }
    match d.update(msg([0xB0, 0x4A, 12], 0), 0, None) {
        DeviceChange::NoteExpressionChange { expression, note, .. } => {
            assert_eq!(expression, Expression::Timbre);
            assert_eq!(note.timbre, 12);
        }
        _ => panic!("expected a timbre change"),
    }
    match d.update(msg([0xE0, 0x00, 0x40], 0), 0, None) {
        DeviceChange::NoteExpressionChange { expression, note, .. } => {
            assert_eq!(expression, Expression::PitchBend);
            assert_eq!(note.pitchbend, 0);
        }
        _ => panic!("expected a bend change"),
    }
    match d.update(msg([0xB0, 7, 12], 0), 0, None) {
        DeviceChange::CCChange { cc, .. } => assert_eq!((cc.channel, cc.cc, cc.value), (0, 7, 12)),
        _ => panic!("expected a controller change"),
    }
    assert_eq!(d.cc.len(), 2);
    assert_eq!(d.channels[0].timbre, 12);
}

#[test]
fn device_ranks_notes() {
    let mut d = Device::new("in".to_string());
    d.update(msg([0x90, 64, 100], 0), 0, None);
    d.update(msg([0x91, 60, 100], 0), 0, None);
    d.update(msg([0x90, 67, 100], 0), 0, None);
    assert_eq!(d.nth(0).unwrap().pitch, 60);
    assert_eq!(d.nth(1).unwrap().pitch, 64);
    assert_eq!(d.nth(2).unwrap().pitch, 67);
    assert!(d.nth(3).is_none());
    assert_eq!(d.ranked_note(0, true).unwrap().channel, 1);
}

#[test]
fn device_refuses_what_would_overflow() {
    let mut d = Device::new("in".to_string());
    assert!(!d.can_update(msg([0x90, 60, 1], 10), usize::MAX, None));
    assert!(!d.can_update(msg([0xE0, 0x7F, 0xFF], 0), 0, None));
    assert!(d.can_update(msg([0xE0, 0x7F, 0x7F], 0), 0, None));
    d.note_index = usize::MAX;
    assert!(!d.can_update(msg([0x90, 60, 1], 0), 0, None));
    assert!(d.can_update(msg([0x90, 60, 1], 0), 0, Some(3)));
    assert!(d.process_buffer(&vec![msg([0x90, 60, 1], 0)], 0).is_none());
}

#[test]
fn device_process_buffer_collects_changes_in_order() {
    let mut d = Device::new("in".to_string());
    let changes = d
        .process_buffer(&vec![msg([0x90, 60, 1], 3), msg([0x80, 60, 0], 4), msg([0xB0, 1, 1], 5)], 10)
        .unwrap();
    assert_eq!(changes.len(), 3);
    assert!(matches!(changes[0], DeviceChange::AddNote { time: 13, .. }));
    assert!(matches!(changes[1], DeviceChange::RemoveNote { time: 14, .. }));
    assert!(matches!(changes[2], DeviceChange::CCChange { time: 15, .. }));
}

#[test]
fn pattern_device_follows_device_changes() {
    let mut pd = PatternDevice::new();
    let n = note(3, 0, 61, 4);
    match pd.update(DeviceChange::AddNote { time: 4, note: n }) {
        PatternDeviceChange::AddPattern { time, pattern } => assert_eq!((time, pattern.id, pattern.index), (4, 3, 1)),
        _ => panic!("expected an added pattern"),
    }
    assert_eq!(pd.at(1).len(), 1);
    assert_eq!(pd.at(0).len(), 0);
    let mut e = n;
    e.pressure = 99;
    match pd.update(DeviceChange::NoteExpressionChange { time: 5, expression: Expression::Pressure, note: e }) {
        PatternDeviceChange::PatternExpressionChange { pattern, .. } => assert_eq!(pattern.pressure, 99),
        _ => panic!("expected an expression change"),
    }
    let mut r = n;
    r.released_at = 9;
    r.velocity_off = 12;
    match pd.update(DeviceChange::RemoveNote { time: 9, note: r }) {
        PatternDeviceChange::RemovePattern { pattern, .. } => {
            assert_eq!((pattern.released_at, pattern.velocity_off, pattern.pressure), (9, 12, 99));
        }
        _ => panic!("expected a removed pattern"),
    }
    assert!(matches!(pd.update(DeviceChange::RemoveNote { time: 9, note: r }), PatternDeviceChange::Unchanged { time: 9 }));
    assert!(matches!(
        pd.update(DeviceChange::ReplaceNote { time: 2, old_note: n, new_note: n }),
        PatternDeviceChange::Unchanged { time: 2 }
    ));
    assert_eq!(pd.at(1).len(), 1);
}

#[test]
fn changes_sort_by_time_then_id_keeping_ties() {
    let changes = vec![
        PatternDeviceChange::Unchanged { time: 5 },
        PatternDeviceChange::Unchanged { time: 3 },
        PatternDeviceChange::AddPattern { time: 3, pattern: Pattern::from(note(9, 0, 60, 3)) },
        PatternDeviceChange::AddPattern { time: 3, pattern: Pattern::from(note(2, 0, 60, 3)) },
    ];
    let sorted = sort_by_time(changes);
    let keys: Vec<(usize, usize)> = sorted.iter().map(|c| (c.timestamp(), c.id())).collect();
    assert_eq!(keys, vec![(3, 0), (3, 2), (3, 9), (5, 0)]);
}

#[test]
fn device_out_starts_and_stops_a_pattern_note() {
    let mut out = DeviceOut::new("out".to_string());
    let mut p = Pattern::from(note(5, 2, 60, 12));
    p.pressure = 33;
    p.timbre = 44;
    out.push_note_on(&p, &note(0, 0, 64, 0), 10);
    let sent: Vec<([u8; 3], u16)> = out.output_queue.iter().map(|m| (m.data.0, m.delta_frames)).collect();
    assert_eq!(
        sent,
        vec![([0xE2, 0x00, 0x40], 2), ([0xB2, 0x4A, 44], 2), ([0xA2, 64, 33], 2), ([0x92, 64, 100], 2)]
    );
    assert_eq!(out.note_by_id(5).unwrap().pitch, 64);
    out.push_note_off(5, 7, 3, 10);
    assert_eq!(out.output_queue.last().unwrap().data.0, [0x82, 64, 7]);
    assert!(out.note_by_id(5).is_none());
    out.push_note_off(5, 7, 3, 10);
    assert_eq!(out.output_queue.len(), 5);
}

#[test]
fn device_out_bends_to_a_higher_pitch() {
    let mut out = DeviceOut::new("out".to_string());
    let p = Pattern::from(note(5, 0, 60, 0));
    out.push_note_on(&p, &note(0, 0, 64, 0), 0);
    out.update_pitch(5, 65, 1, 0);
    let last = out.output_queue.last().unwrap();
    // one semitone up: code (49000 * 16384) / 96000 = 8362
    assert_eq!(last.data.0, [0xE0, 42, 65]);
    out.update_pitch(99, 65, 1, 0);
    assert_eq!(out.output_queue.len(), 5);
}

#[test]
fn device_out_skips_a_transposition_out_of_range() {
    let mut out = DeviceOut::new("out".to_string());
    let p = Pattern::from(note(5, 0, 120, 0));
    out.push_note_on(&p, &note(0, 0, 125, 0), 0);
    assert_eq!(out.output_queue.len(), 0);
}

fn sent(a: &Arpegiator) -> Vec<([u8; 3], u16)> {
    a.device_out.output_queue.iter().map(|m| (m.data.0, m.delta_frames)).collect()
}

#[test]
fn arpegiator_plays_a_pattern_on_the_held_note() {
    let mut a = Arpegiator::new();
    assert!(a.process(vec![msg([0x90, 60, 100], 0)], vec![msg([0x90, 64, 90], 0)], PitchBendMode::Off, 64));
    assert_eq!(
        sent(&a),
        vec![([0xE0, 0x00, 0x40], 0), ([0xB0, 0x4A, 64], 0), ([0xA0, 64, 0], 0), ([0x90, 64, 100], 0)]
    );
    assert_eq!(a.current_time_in_samples, 64);
    assert!(a.process(vec![msg([0x80, 60, 0], 5)], vec![], PitchBendMode::Off, 64));
    assert_eq!(a.device_out.output_queue.last().unwrap().data.0, [0x80, 64, 0]);
    assert_eq!(a.device_out.output_queue.last().unwrap().delta_frames, 5);
    assert_eq!(a.current_time_in_samples, 128);
}

#[test]
fn arpegiator_plays_the_note_of_the_pattern_rank() {
    let mut a = Arpegiator::new();
    // pattern note D3 (rank 2) an octave up (D4): third held note, one octave up
    assert!(a.process(
        vec![msg([0x91, 74, 100], 1)],
        vec![msg([0x90, 60, 90], 0), msg([0x90, 67, 90], 0), msg([0x90, 64, 90], 0)],
        PitchBendMode::Off,
        64
    ));
    assert_eq!(a.device_out.output_queue.last().unwrap().data.0, [0x91, 79, 100]);
    assert_eq!(a.device_out.output_queue.last().unwrap().delta_frames, 1);
}

#[test]
fn arpegiator_without_held_note_plays_nothing() {
    let mut a = Arpegiator::new();
    assert!(a.process(vec![msg([0x90, 60, 100], 0)], vec![], PitchBendMode::Off, 64));
    assert_eq!(a.device_out.output_queue.len(), 0);
}

#[test]
fn arpegiator_forwards_pattern_expression() {
    let mut a = Arpegiator::new();
    assert!(a.process(vec![msg([0x90, 60, 100], 0)], vec![msg([0x90, 64, 90], 0)], PitchBendMode::Off, 64));
    assert!(a.process(vec![msg([0xB0, 0x4A, 20], 3)], vec![], PitchBendMode::Off, 64));
    assert_eq!(a.device_out.output_queue.last().unwrap().data.0, [0xB0, 0x4A, 20]);
    assert!(a.process(vec![msg([0xD0, 55, 0], 4)], vec![], PitchBendMode::Off, 64));
    assert_eq!(a.device_out.output_queue.last().unwrap().data.0, [0xA0, 64, 55]);
}

#[test]
fn arpegiator_bends_immediately_to_an_equal_target() {
    let mut a = Arpegiator::new();
    assert!(a.process(
        vec![msg([0x90, 60, 100], 0)],
        vec![msg([0x90, 64, 90], 0)],
        PitchBendMode::Immediate,
        64
    ));
    let before = a.device_out.output_queue.len();
    // a higher note leaves rank 0 on the same note: the bend is zero
    assert!(a.process(vec![], vec![msg([0x90, 70, 90], 2)], PitchBendMode::Immediate, 64));
    assert_eq!(a.device_out.output_queue.len(), before + 1);
    assert_eq!(a.device_out.output_queue.last().unwrap().data.0, [0xE0, 0x00, 0x40]);
    assert_eq!(a.device_out.output_queue.last().unwrap().delta_frames, 2);
}

#[test]
fn arpegiator_refuses_a_bend_down() {
    let mut a = Arpegiator::new();
    assert!(a.process(
        vec![msg([0x90, 60, 100], 0)],
        vec![msg([0x90, 64, 90], 0)],
        PitchBendMode::Immediate,
        64
    ));
    // a lower note takes rank 0: the bend would go below the playing note
    assert!(!a.process(vec![], vec![msg([0x90, 62, 90], 0)], PitchBendMode::Immediate, 64));
}

fn ev(data: [u8; 3], delta_frames: i32) -> MidiEvent {
    make_midi_message(data, delta_frames)
}

#[test]
fn midi_transmission_splits_patterns_from_notes_sorted() {
    let events = vec![
        ev([0x90, 62, 100], 5),
        ev([0x10, 48, 90], 3),
        ev([0x90, 60, 100], 5),
        ev([0x00, 48, 0], 1),
        ev([0x80, 60, 0], 2),
    ];
    let (patterns, notes) = split_patterns(&events);
    let p: Vec<([u8; 3], u16)> = patterns.iter().map(|m| (m.data.0, m.delta_frames)).collect();
    assert_eq!(p, vec![([0x80, 48, 0], 1), ([0x90, 48, 90], 3)]);
    let n: Vec<([u8; 3], i32)> = notes.iter().map(|e| (e.data, e.delta_frames)).collect();
    assert_eq!(n, vec![([0x80, 60, 0], 2), ([0x90, 60, 100], 5), ([0x90, 62, 100], 5)]);
}

#[test]
fn midi_transmission_sort_keeps_ties_in_order() {
    let sorted = sort_events_by_key(vec![ev([0x90, 60, 1], 0), ev([0x90, 60, 2], 0), ev([0x80, 60, 3], 0)]);
    let v: Vec<u8> = sorted.iter().map(|e| e.data[2]).collect();
    assert_eq!(v, vec![3, 1, 2]);
}

#[test]
fn midi_transmission_round_trip() {
    let played = vec![Event::Midi(ev([0x91, 64, 80], 7)), Event::SysEx, Event::Midi(ev([0x81, 64, 0], 9))];
    let shifted = shift_pattern_events(&played);
    assert_eq!(shifted.len(), 2);
    assert_eq!(shifted[0].data, [0x11, 64, 80]);
    let (patterns, notes) = split_patterns(&shifted);
    assert!(notes.is_empty());
    let p: Vec<([u8; 3], u16)> = patterns.iter().map(|m| (m.data.0, m.delta_frames)).collect();
    assert_eq!(p, vec![([0x91, 64, 80], 7), ([0x81, 64, 0], 9)]);
}

#[test]
fn worker_router_restarts_helpers_on_a_new_port() {
    let mut r = WorkerRouter::new();
    assert_eq!(r.step(RouterEvent::SendToOutput), RouterAction::Nothing);
    assert_eq!(
        r.step(RouterEvent::SetPort(6001)),
        RouterAction::Restart { stop_pattern_worker: false, stop_output_worker: false, port: 6001 }
    );
    assert_eq!(r.step(RouterEvent::PatternWorkerStarted(6001)), RouterAction::StartOutputWorker(6001));
    assert_eq!(r.step(RouterEvent::OutputWorkerStarted), RouterAction::Nothing);
    assert_eq!(r.step(RouterEvent::SendToOutput), RouterAction::ForwardToOutput);
    assert_eq!(r.step(RouterEvent::SetBlockSize), RouterAction::Nothing);
    assert_eq!(
        r.step(RouterEvent::SetPort(6002)),
        RouterAction::Restart { stop_pattern_worker: true, stop_output_worker: true, port: 6002 }
    );
    assert_eq!(r.step(RouterEvent::SetSampleRate), RouterAction::Nothing);
}

#[test]
fn worker_router_stops_what_runs() {
    let mut r = WorkerRouter::new();
    r.step(RouterEvent::SetPort(6000));
    r.step(RouterEvent::PatternWorkerStarted(6000));
    assert_eq!(
        r.step(RouterEvent::OutputWorkerFailed),
        RouterAction::StopWorkers { stop_pattern_worker: true, stop_output_worker: false }
    );
    assert_eq!(r.step(RouterEvent::PatternWorkerFailed), RouterAction::Nothing);
    assert_eq!(
        r.step(RouterEvent::Stop),
        RouterAction::StopWorkers { stop_pattern_worker: false, stop_output_worker: false }
    );
}

#[test]
fn new_devices_carry_their_names_and_hold_nothing() {
    let out = DeviceOut::new("Out".to_string());
    assert_eq!(out.device._name, "Out");
    assert!(out.output_queue.is_empty() && out.device.notes.is_empty());
    let a = Arpegiator::new();
    assert_eq!(a.pattern_device_in._name, "Pattern");
    assert_eq!(a.notes_device_in._name, "Notes");
    assert_eq!(a.device_out.device._name, "Out");
    assert_eq!(a.current_time_in_samples, 0);
}

#[test]
fn source_changes_order_by_time_then_note_first() {
    let note_at = |time| SourceChange::NoteChange(DeviceChange::Unchanged { time });
    let pattern_at = |time| SourceChange::PatternChange(PatternDeviceChange::Unchanged { time });
    assert_eq!(note_at(9).partial_cmp(&pattern_at(4)), Some(Ordering::Greater));
    assert_eq!(pattern_at(4).partial_cmp(&note_at(9)), Some(Ordering::Less));
    assert_eq!(note_at(4).partial_cmp(&pattern_at(4)), Some(Ordering::Less));
    assert_eq!(pattern_at(4).partial_cmp(&note_at(4)), Some(Ordering::Greater));
    assert_eq!(note_at(3).partial_cmp(&pattern_at(4)), Some(Ordering::Less));
}
