use midi_plugins::midi_event::{Event, MidiEvent};
use midi_plugins::plugins::filter_out_non_note::FilterOutNonNote;
use midi_plugins::plugins::max_note_duration::MaxNoteDuration;
use midi_plugins::plugins::midi_delay::MidiDelay;
use midi_plugins::plugins::note_fan_out::{ChannelDistribution, NoteFanOut};
use midi_plugins::plugins::pattern_link::{LinkAction, LinkEvent, PatternLink};

fn ev(data: [u8; 3], delta_frames: i32) -> Event {
    Event::Midi(MidiEvent {
        data,
        delta_frames,
        live: false,
        note_length: None,
        note_offset: None,
        detune: 0,
        note_off_velocity: 0,
    })
}

fn bytes(events: &[MidiEvent]) -> Vec<([u8; 3], i32)> {
    events.iter().map(|e| (e.data, e.delta_frames)).collect()
}

#[test]
fn filter_keeps_only_note_messages() {
    let mut f = FilterOutNonNote::new();
    f.process_events(&vec![
        ev([0x90, 60, 1], 0),
        ev([0xB0, 1, 1], 1),
        Event::SysEx,
        ev([0x8F, 60, 0], 2),
        ev([0xA0, 60, 0], 3),
        ev([0x7F, 60, 0], 4),
    ]);
    assert_eq!(bytes(&f.events), vec![([0x90, 60, 1], 0), ([0x8F, 60, 0], 2)]);
    let taken = f.take_events();
    assert_eq!(taken.len(), 2);
    assert!(f.events.is_empty());
}

#[test]
fn fan_out_passes_notes_through_when_off() {
    let mut f = NoteFanOut::new();
    f.process_events(&vec![ev([0x92, 60, 100], 3), ev([0x82, 60, 5], 4), ev([0xB2, 7, 1], 5)], 0, 0, ChannelDistribution::Off);
    assert_eq!(bytes(&f.events), vec![([0x92, 60, 100], 3), ([0x82, 60, 5], 4), ([0xB2, 7, 1], 5)]);
    assert!(f.current_playing_notes.is_empty());
}

#[test]
fn fan_out_spreads_notes_and_follows_with_note_offs() {
    let mut f = NoteFanOut::new();
    f.process_events(
        &vec![ev([0x90, 60, 100], 0), ev([0x90, 62, 100], 1), ev([0x80, 60, 0], 2), ev([0x80, 62, 0], 3)],
        0,
        0,
        ChannelDistribution::Channels(4),
    );
    assert_eq!(
        bytes(&f.events),
        vec![([0x91, 60, 100], 0), ([0x92, 62, 100], 1), ([0x81, 60, 0], 2), ([0x82, 62, 0], 3)]
    );
    assert_eq!(f.notes_counter, 2);
    assert!(f.current_playing_notes.is_empty());
}

#[test]
fn fan_out_round_robin_wraps() {
    let mut f = NoteFanOut::new();
    let mut events = vec![];
    for pitch in 60..63 {
        events.push(ev([0x90, pitch, 100], 0));
    }
    f.process_events(&events, 0, 0, ChannelDistribution::Channels(2));
    assert_eq!(bytes(&f.events), vec![([0x91, 60, 100], 0), ([0x92, 61, 100], 0), ([0x91, 62, 100], 0)]);
}

#[test]
fn fan_out_plays_only_the_selected_step() {
    let mut f = NoteFanOut::new();
    f.process_events(
        &vec![ev([0x90, 60, 100], 0), ev([0x90, 62, 100], 1), ev([0x80, 60, 0], 2), ev([0x80, 62, 0], 3)],
        2,
        1,
        ChannelDistribution::Off,
    );
    // the first note falls on step 0 and is dropped; its note off passes unchanged
    assert_eq!(bytes(&f.events), vec![([0x90, 62, 100], 1), ([0x80, 60, 0], 2), ([0x80, 62, 0], 3)]);
    assert_eq!(f.current_step, 0);
    let taken = f.take_events();
    assert_eq!(taken.len(), 3);
    assert!(f.events.is_empty());
}

#[test]
fn max_duration_ends_long_notes() {
    let mut p = MaxNoteDuration::new();
    p.block_size = 64;
    p.process_events(&vec![ev([0x91, 60, 100], 0), ev([0x40, 0, 0], 1), Event::Deprecated], 100);
    assert_eq!(p.current_playing_notes.len(), 1);
    assert_eq!(p.current_playing_notes[0].deadline, 100);
    let first = p.process(64).unwrap();
    assert_eq!(bytes(&first), vec![([0x91, 60, 100], 0)]);
    assert_eq!(p.current_time_in_samples, 64);
    let second = p.process(64).unwrap();
    assert_eq!(bytes(&second), vec![([0x81, 60, 0], 36)]);
    assert!(!second[0].live);
    assert!(p.current_playing_notes.is_empty());
    assert_eq!(p.current_time_in_samples, 128);
}

#[test]
fn max_duration_forgets_released_notes_and_keeps_first_deadline() {
    let mut p = MaxNoteDuration::new();
    p.process_events(&vec![ev([0x90, 60, 100], 0), ev([0x90, 60, 90], 1)], 100);
    assert_eq!(p.current_playing_notes.len(), 1);
    p.current_time_in_samples = 10;
    p.process_events(&vec![ev([0x90, 61, 100], 0)], 100);
    assert_eq!(p.current_playing_notes[1].deadline, 110);
    p.process_events(&vec![ev([0x80, 60, 0], 2)], 100);
    assert_eq!(p.current_playing_notes.len(), 1);
    assert_eq!(p.current_playing_notes[0].pitch, 61);
    assert_eq!(p.events.len(), 4);
}

#[test]
fn max_duration_refuses_a_deadline_already_past() {
    let mut p = MaxNoteDuration::new();
    p.process_events(&vec![ev([0x90, 60, 100], 0)], 100);
    assert!(p.process(200).is_some());
    p.block_size = 64;
    assert!(p.process(64).is_none());
    assert_eq!(p.current_time_in_samples, 200);
    assert_eq!(p.current_playing_notes.len(), 1);
}

#[test]
fn midi_delay_plays_messages_later() {
    let mut d = MidiDelay::new();
    d.process_events(&vec![ev([0x90, 60, 100], 5), Event::SysEx, ev([0x80, 60, 0], 10)], 100);
    assert_eq!(d.message_queue.messages.len(), 2);
    assert!(d.process(64).is_empty());
    let events = d.process(64);
    assert_eq!(bytes(&events), vec![([0x90, 60, 100], 41), ([0x80, 60, 0], 46)]);
    assert!(events[0].live);
    assert_eq!(d.current_time_in_samples, 128);
    assert!(d.message_queue.messages.is_empty());
}

#[test]
fn pattern_link_connects_to_the_port_it_is_given() {
    let mut link = PatternLink::new();
    assert_eq!(link.step(LinkEvent::Send), LinkAction::Discard);
    assert_eq!(link.step(LinkEvent::TryConnect), LinkAction::Nothing);
    assert_eq!(link.step(LinkEvent::SetPort(6002)), LinkAction::ScheduleConnect);
    assert_eq!(link.step(LinkEvent::SetPort(6003)), LinkAction::Nothing);
    assert_eq!(link.step(LinkEvent::TryConnect), LinkAction::Connect(6003));
    assert_eq!(link.step(LinkEvent::Connected), LinkAction::Nothing);
    assert_eq!(link.step(LinkEvent::Send), LinkAction::Deliver);
    assert_eq!(link.step(LinkEvent::TryConnect), LinkAction::Nothing);
    assert_eq!(link.step(LinkEvent::Stop), LinkAction::Exit);
}

#[test]
fn pattern_link_retries_after_failures() {
    let mut link = PatternLink::new();
    link.step(LinkEvent::SetPort(6000));
    assert_eq!(link.step(LinkEvent::TryConnect), LinkAction::Connect(6000));
    assert_eq!(link.step(LinkEvent::ConnectFailed), LinkAction::RetryLater);
    assert_eq!(link.step(LinkEvent::SendFailed), LinkAction::Nothing);
    assert_eq!(link.step(LinkEvent::TryConnect), LinkAction::Connect(6000));
    link.step(LinkEvent::Connected);
    assert_eq!(link.step(LinkEvent::SendFailed), LinkAction::ScheduleConnect);
    assert!(!link.connected);
    assert_eq!(link.step(LinkEvent::Send), LinkAction::Discard);
}
