use midi_plugins::delayed_message_consumer::MaxNotesParameter;
use midi_plugins::midi_event::MidiEvent;
use midi_plugins::plugins::note_off_delay::NoteOffDelay;

fn make_event(message: [u8; 3], delta_frames: i32) -> MidiEvent {
    MidiEvent {
        data: message,
        delta_frames,
        live: false,
        note_length: None,
        note_offset: None,
        detune: 0,
        note_off_velocity: 0,
    }
}

fn compare(events: Vec<MidiEvent>, expected: Vec<([u8; 3], i32)>) {
    assert_eq!(events.len(), expected.len());
    for ((test_data, test_delta_frame), (expected_data, expected_delta_frame)) in events
        .iter()
        .map(|event| (event.data, event.delta_frames))
        .zip(expected.iter())
    {
        assert_eq!(test_data, *expected_data);
        assert_eq!(test_delta_frame, *expected_delta_frame);
    }
}

/// Receives the events, schedules each delayed note off `delay_samples`
/// after the end of its note, then plays a block of 1024 samples.
fn assert_process_scheduled_events(
    received: Vec<([u8; 3], i32)>,
    expected: Vec<([u8; 3], i32)>,
    delay_samples: usize,
) {
    let mut plugin = NoteOffDelay::new();
    let delay_is_active = delay_samples > 0;
    for (raw_message, delta_frame) in received.iter() {
        let event = make_event(*raw_message, *delta_frame);
        if let Some((note_on_time, duration)) = plugin.receive(&event, delay_is_active) {
            plugin.schedule_delayed_note_off(event.data, note_on_time + duration + delay_samples);
        }
    }
    let events = plugin
        .process(1024, delay_is_active, MaxNotesParameter::Infinite, false)
        .unwrap();
    compare(events, expected);
}

#[test]
fn test_process_scheduled_events() {
    let received = vec![([0x90, 0x60, 0x60], 10), ([0x80, 0x60, 0x60], 20)];
    let expected = vec![([0x90, 0x60, 0x60], 10), ([0x80, 0x60, 0x60], 120)];

    assert_process_scheduled_events(received, expected, 100)
}

#[test]
fn test_process_scheduled_events_feature_off() {
    let received = vec![([0x90, 0x60, 0x60], 10), ([0x80, 0x60, 0x60], 20)];
    let expected = vec![([0x90, 0x60, 0x60], 10), ([0x80, 0x60, 0x60], 20)];

    assert_process_scheduled_events(received, expected, 0)
}

#[test]
fn test_process_scheduled_events_next() {
    let received = vec![([0x90, 0x60, 0x60], 10), ([0x80, 0x60, 0x60], 20)];
    let expected = vec![([0x90, 0x60, 0x60], 10)];

    assert_process_scheduled_events(received, expected, 1004)
}

#[test]
fn receive_reports_note_on_time_and_duration() {
    let mut plugin = NoteOffDelay::new();
    assert_eq!(plugin.receive(&make_event([0x91, 0x40, 0x50], 5), true), None);
    assert_eq!(plugin.receive(&make_event([0x81, 0x40, 0x00], 30), true), Some((5, 25)));
    assert_eq!(plugin.message_queue.messages.len(), 2);
    // the note off takes the identifier of its note on
    assert_eq!(plugin.message_queue.messages[0].id, plugin.message_queue.messages[1].id);
}

#[test]
fn receive_without_delay_reports_nothing() {
    let mut plugin = NoteOffDelay::new();
    assert_eq!(plugin.receive(&make_event([0x90, 0x40, 0x50], 5), false), None);
    assert_eq!(plugin.receive(&make_event([0x80, 0x40, 0x00], 30), false), None);
    assert_eq!(plugin.message_queue.messages.len(), 2);
}

#[test]
fn data_bytes_without_status_are_dropped() {
    let mut plugin = NoteOffDelay::new();
    assert_eq!(plugin.receive(&make_event([0x40, 0x40, 0x50], 5), true), None);
    assert_eq!(plugin.message_queue.messages.len(), 0);
}

#[test]
fn process_moves_time_on() {
    let mut plugin = NoteOffDelay::new();
    plugin.receive(&make_event([0xB0, 0x07, 0x64], 3), false);
    let events = plugin.process(64, false, MaxNotesParameter::Infinite, false).unwrap();
    compare(events, vec![([0xB0, 0x07, 0x64], 3)]);
    assert_eq!(plugin.current_time_in_samples, 64);
    let events = plugin.process(64, false, MaxNotesParameter::Infinite, false).unwrap();
    assert!(events.is_empty());
    assert_eq!(plugin.current_time_in_samples, 128);
}
