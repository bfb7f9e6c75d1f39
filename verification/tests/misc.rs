use midi_plugins::arpegiator::expressive_note::ExpressiveNote;
use midi_plugins::delay_queue::{AbsoluteTimeMidiMessage, AbsoluteTimeMidiMessageVector, DelayedMessageConsumer};
use midi_plugins::delayed_message_consumer::{process_scheduled_events, MaxNotesParameter, MessageReason};
use midi_plugins::midi_event::{make_midi_message, Event, MidiEvent};
use midi_plugins::midi_message_with_delta::MidiMessageWithDelta;
use midi_plugins::parameters;
use midi_plugins::parameters::note_off_delay::Parameter;
use midi_plugins::raw_message::RawMessage;
use midi_plugins::sync_duration::SyncDuration;
use midi_plugins::system::Uuid;
use midi_plugins::timed_messages::{AbsoluteTimeMidiMessageMethods, AbsoluteTimeMidiMessageType};
use midi_plugins::absolute_time_midi_message_vector::AbsoluteTimeMidiMessageVector as Queue;
use midi_plugins::current_playing_notes::CurrentPlayingNotes;
use midi_plugins::absolute_time_events::{AbsoluteTimeEvent, AbsoluteTimeEventVector, AbsoluteTimeEventVectorMethods};

#[test]
fn parameters_keep_their_host_index() {
    assert_eq!(Parameter::from_index(2), Parameter::MaxNotesAppliesToDelayedNotesOnly);
    assert_eq!(i32::from(Parameter::MultiplyLength), 3);
    assert_eq!(parameters::note_off_delay::PARAMETER_COUNT, 4);
    assert_eq!(
        parameters::note_generator::Parameter::from_index(8),
        parameters::note_generator::Parameter::TriggeredChannel
    );
    assert_eq!(i32::from(parameters::arpegiator::Parameter::PortIndex), 3);
    assert_eq!(parameters::midi_delay::Parameter::from_index(1), parameters::midi_delay::Parameter::SyncDelay);
    assert_eq!(i32::from(parameters::note_fan_out::Parameter::Steps), 0);
    assert_eq!(i32::from(parameters::max_note_duration::Parameter::MaxDuration), 0);
    assert_eq!(i32::from(parameters::pattern_receiver::Parameter::PortIndex), 0);
    assert_eq!(parameters::arpegiator::port_for_index(3), 6003);
}

#[test]
fn sync_steps_map_to_bar_fractions() {
    assert_eq!(SyncDuration::from_step(0), SyncDuration::Off);
    assert_eq!(SyncDuration::from_step(1), SyncDuration::Subdivision(1, 128));
    assert_eq!(SyncDuration::from_step(6), SyncDuration::Subdivision(3, 16));
    assert_eq!(SyncDuration::from_step(9), SyncDuration::Subdivision(3, 4));
    assert_eq!(SyncDuration::from_step(10), SyncDuration::Subdivision(1, 1));
    assert_eq!(SyncDuration::from_step(200), SyncDuration::Subdivision(1, 1));
    assert!(SyncDuration::from_step(10).is_whole());
    assert!(!SyncDuration::from_step(9).is_whole());
    assert!(!SyncDuration::Off.is_whole());
}

#[test]
fn uuids_are_version_4_and_default_is_nil() {
    let a = Uuid::new_v4();
    let b = Uuid::new_v4();
    assert_eq!((a.0 >> 52) & 0xF, 4);
    assert_eq!((a.0 >> 70) & 3, 2);
    assert_ne!(a.0, b.0);
    assert_eq!(Uuid::default().0, 0);
}

#[test]
fn max_notes_parameter_from_byte_and_limit() {
    assert_eq!(MaxNotesParameter::from_byte(3), MaxNotesParameter::Infinite);
    assert_eq!(MaxNotesParameter::from_byte(8), MaxNotesParameter::Limited(2));
    assert!(MaxNotesParameter::Limited(2).should_limit(2));
    assert!(!MaxNotesParameter::Limited(2).should_limit(1));
    assert!(!MaxNotesParameter::Infinite.should_limit(1000));
}

#[test]
fn expressive_note_messages_in_order() {
    let n = ExpressiveNote { channel: 1, pitch: 62, velocity: 90, pressure: 10, timbre: 20, pitchbend: 0 };
    let raws: Vec<[u8; 3]> = n.into_rawmessages().iter().map(|m| m.0).collect();
    assert_eq!(raws, vec![[0xE1, 0x00, 0x40], [0xB1, 0x4A, 20], [0xA1, 62, 10], [0x91, 62, 90]]);
}

#[test]
fn message_with_delta_makes_host_events() {
    let m = MidiMessageWithDelta { delta_frames: 7, data: RawMessage([0xD0, 3, 9]) };
    let live = m.new_midi_event();
    assert_eq!((live.data, live.delta_frames, live.live), ([0xD0, 3, 0], 7, true));
    let out = m.outgoing_event();
    assert!(!out.live);
    let e = make_midi_message([0x90, 1, 2], 4);
    assert_eq!((e.data, e.delta_frames, e.live, e.detune), ([0x90, 1, 2], 4, true, 0));
}

fn midi(data: [u8; 3], delta_frames: i32) -> Event {
    Event::Midi(MidiEvent {
        data,
        delta_frames,
        live: false,
        note_length: None,
        note_offset: None,
        detune: 0,
        note_off_velocity: 0,
    })
}

#[test]
fn timed_messages_classify_and_read() {
    match AbsoluteTimeMidiMessage::from(&midi([0xB2, 7, 99], 3), 100) {
        AbsoluteTimeMidiMessageType::CCMessage(cc) => {
            assert_eq!((cc.cc(), cc.value(), cc.channel()), (7, 99, 2));
            assert_eq!(cc.get_absolute_time_midi_message().play_time_in_samples, 103);
            match cc.into_event(100) {
                Event::Midi(e) => assert_eq!((e.data, e.delta_frames), ([0xB2, 7, 99], 3)),
                _ => panic!("expected a MIDI event"),
            }
        }
        _ => panic!("expected a controller"),
    }
    match AbsoluteTimeMidiMessage::from(&midi([0xD0, 44, 0], 0), 0) {
        AbsoluteTimeMidiMessageType::PressureMessage(p) => assert_eq!(p.value(), 44),
        _ => panic!("expected pressure"),
    }
    assert!(matches!(AbsoluteTimeMidiMessage::from(&Event::SysEx, 0), AbsoluteTimeMidiMessageType::Unsupported));
    assert!(matches!(AbsoluteTimeMidiMessage::from(&midi([0x10, 0, 0], 0), 0), AbsoluteTimeMidiMessageType::Unsupported));
}

#[test]
fn delay_queue_inserts_after_equal_times() {
    let mut q = AbsoluteTimeMidiMessageVector::new();
    q.insert_message(AbsoluteTimeMidiMessage::new([0x90, 1, 1], 10));
    q.insert_message(AbsoluteTimeMidiMessage::new([0x90, 2, 1], 5));
    q.insert_message(AbsoluteTimeMidiMessage::new([0x90, 3, 1], 10));
    let pitches: Vec<u8> = q.0.iter().map(|m| m.data[1]).collect();
    assert_eq!(pitches, vec![2, 1, 3]);
}

#[test]
fn merged_note_off_does_not_cut_a_new_note() {
    let mut q = AbsoluteTimeMidiMessageVector::new();
    q.insert_message(AbsoluteTimeMidiMessage::new([0x90, 60, 1], 0));
    q.insert_message(AbsoluteTimeMidiMessage::new([0x90, 60, 1], 50));
    let mut offs = AbsoluteTimeMidiMessageVector::new();
    offs.insert_message(AbsoluteTimeMidiMessage::new([0x80, 60, 0], 10));
    offs.insert_message(AbsoluteTimeMidiMessage::new([0x80, 61, 0], 10));
    q.merge_notes_off(&mut offs, 100);
    let items: Vec<([u8; 3], usize)> = q.0.iter().map(|m| (m.data, m.play_time_in_samples)).collect();
    assert_eq!(items, vec![([0x90, 60, 1], 0), ([0x90, 60, 1], 50), ([0x80, 61, 0], 110)]);
}

#[test]
fn consumer_takes_messages_of_the_buffer() {
    let mut q = AbsoluteTimeMidiMessageVector::new();
    q.insert_message(AbsoluteTimeMidiMessage::new([0x90, 60, 1], 5));
    q.insert_message(AbsoluteTimeMidiMessage::new([0x90, 61, 1], 100));
    let mut c = DelayedMessageConsumer {
        samples_in_buffer: 64,
        messages: q,
        current_time_in_samples: 10,
        drop_late_events: false,
    };
    let late = c.next().unwrap();
    assert_eq!((late.data[1], late.play_time_in_samples), (60, 10));
    assert!(c.next().is_none());
    assert_eq!(c.messages.0.len(), 1);
}

#[test]
fn scheduler_sends_a_block_and_keeps_the_rest() {
    let mut q = Queue::default();
    q.insert_message([0x90, 60, 100], 10, MessageReason::Live);
    q.insert_message([0x80, 60, 0], 20, MessageReason::Live);
    q.insert_message([0x90, 62, 100], 2000, MessageReason::Live);
    let (queued, events) =
        process_scheduled_events(1024, false, MaxNotesParameter::Infinite, false, 0, &q).unwrap();
    let sent: Vec<([u8; 3], i32)> = events.iter().map(|e| (e.data, e.delta_frames)).collect();
    assert_eq!(sent, vec![([0x90, 60, 100], 10), ([0x80, 60, 0], 20)]);
    assert_eq!(queued.messages.len(), 1);
    assert_eq!(queued.messages[0].play_time_in_samples, 2000);
}

#[test]
fn scheduler_limits_polyphony() {
    let mut q = Queue::default();
    q.insert_message([0x90, 60, 100], 10, MessageReason::Live);
    q.insert_message([0x90, 62, 100], 20, MessageReason::Live);
    let (queued, events) =
        process_scheduled_events(1024, false, MaxNotesParameter::Limited(1), false, 0, &q).unwrap();
    let sent: Vec<([u8; 3], i32)> = events.iter().map(|e| (e.data, e.delta_frames)).collect();
    assert_eq!(sent, vec![([0x90, 60, 100], 10), ([0x80, 60, 0], 20), ([0x90, 62, 100], 20)]);
    // the note still playing is queued again for the next block
    assert_eq!(queued.messages.len(), 1);
    assert_eq!(queued.messages[0].data.0[1], 62);
}

#[test]
fn queue_pairs_note_offs_with_their_note_on() {
    let mut q = Queue::default();
    q.insert_message([0x90, 60, 100], 10, MessageReason::Live);
    q.insert_message([0xB0, 1, 1], 12, MessageReason::Live);
    q.insert_message([0x80, 60, 0], 20, MessageReason::Live);
    assert_eq!(q.messages[0].id, 0);
    assert_eq!(q.messages[1].id, 1);
    assert_eq!(q.messages[2].id, 0);
    assert_eq!(q.next_id, 2);
    assert_eq!(q.get_matching_note_on(0, 60).unwrap().play_time_in_samples, 10);
    assert!(q.get_matching_note_on(1, 60).is_none());
    q.raw_insert([0x90, 60, 1], 0);
    assert_eq!(q.messages[0].id, 2);
    assert_eq!(q.messages[0].reason, MessageReason::PlayUnprocessed);
}

fn timed(data: [u8; 3], play_time_in_samples: usize) -> AbsoluteTimeEvent {
    AbsoluteTimeEvent { event: make_midi_message(data, 0), play_time_in_samples }
}

#[test]
fn event_queue_inserts_after_equal_times() {
    let mut q: AbsoluteTimeEventVector = vec![timed([0x90, 60, 1], 10), timed([0x90, 61, 1], 20)];
    q.insert_event(timed([0x90, 62, 1], 10));
    q.insert_event(timed([0x90, 63, 1], 5));
    let times: Vec<(usize, u8)> = q.iter().map(|e| (e.play_time_in_samples, e.event.data[1])).collect();
    assert_eq!(times, vec![(5, 63), (10, 60), (10, 62), (20, 61)]);
}

#[test]
fn event_note_offs_are_delayed_unless_the_note_plays_again() {
    // the note off of pitch 60 would cut the note on at 30: it is dropped;
    // the one of pitch 64 lands after the events up to its delayed time.
    let mut q: AbsoluteTimeEventVector = vec![timed([0x90, 60, 100], 30), timed([0x90, 62, 100], 50)];
    let mut offs: AbsoluteTimeEventVector = vec![timed([0x80, 60, 0], 20), timed([0x81, 64, 0], 20)];
    q.merge_notes_off(&mut offs, 40);
    let got: Vec<(usize, [u8; 3])> = q.iter().map(|e| (e.play_time_in_samples, e.event.data)).collect();
    assert_eq!(got, vec![(30, [0x90, 60, 100]), (50, [0x90, 62, 100]), (60, [0x81, 64, 0])]);
    assert_eq!(offs[0].play_time_in_samples, 60);
    assert_eq!(offs[1].play_time_in_samples, 60);
}

#[test]
fn event_note_off_skips_only_for_a_note_of_its_channel_and_pitch() {
    // a controller 60 on the same channel does not stop the delayed note off.
    let mut q: AbsoluteTimeEventVector = vec![timed([0xB0, 60, 1], 15)];
    let mut offs: AbsoluteTimeEventVector = vec![timed([0x80, 60, 0], 10)];
    q.merge_notes_off(&mut offs, 10);
    assert_eq!(q.len(), 2);
    assert_eq!(q[1].play_time_in_samples, 20);
    // a note on 60 on the same channel does.
    let mut q2: AbsoluteTimeEventVector = vec![timed([0x90, 60, 1], 15)];
    let mut offs2: AbsoluteTimeEventVector = vec![timed([0x80, 60, 0], 10)];
    q2.merge_notes_off(&mut offs2, 10);
    assert_eq!(q2.len(), 1);
    // a note on 60 on another channel does not.
    let mut q3: AbsoluteTimeEventVector = vec![timed([0x91, 60, 1], 15)];
    let mut offs3: AbsoluteTimeEventVector = vec![timed([0x80, 60, 0], 10)];
    q3.merge_notes_off(&mut offs3, 10);
    assert_eq!(q3.len(), 2);
}

fn at(data: [u8; 3], play_time_in_samples: usize) -> AbsoluteTimeMidiMessage {
    AbsoluteTimeMidiMessage::new(data, play_time_in_samples)
}

#[test]
fn playing_notes_push_out_the_oldest_note() {
    let mut notes = CurrentPlayingNotes::new();
    let offs = notes.update(&[at([0x91, 60, 90], 5), at([0x91, 62, 90], 7), at([0x92, 64, 90], 9)], 2);
    let got: Vec<([u8; 3], usize)> = offs.iter().map(|m| (m.data, m.play_time_in_samples)).collect();
    assert_eq!(got, vec![([0x81, 60, 0], 9)]);
    assert_eq!(notes.0.len(), 2);
    let mut unlimited = CurrentPlayingNotes::new();
    let none = unlimited.update(&[at([0x91, 60, 90], 5), at([0x91, 62, 90], 7), at([0x92, 64, 90], 9)], 0);
    assert!(none.is_empty());
    assert_eq!(unlimited.0.len(), 3);
}

#[test]
fn playing_notes_forget_a_note_that_ends() {
    let mut notes = CurrentPlayingNotes::new();
    let offs = notes.update(&[at([0x91, 60, 90], 5), at([0x81, 60, 0], 6), at([0x91, 62, 90], 7), at([0x91, 64, 90], 9)], 2);
    assert!(offs.is_empty());
    let keys: Vec<[u8; 2]> = notes.0.iter().map(|e| e.0 .0).collect();
    assert_eq!(keys, vec![[1, 62], [1, 64]]);
}
