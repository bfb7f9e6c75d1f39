use vstd::prelude::*;
use crate::raw_message::{RawMessage, wire_array};
use crate::midi_event::{MidiEvent, live_event};

verus! {

/// A message with its offset in frames from the start of the current buffer.
#[derive(Clone, Copy, Debug)]
pub struct MidiMessageWithDelta {
    pub delta_frames: u16,
    pub data: RawMessage,
}

/// The event handed to the host for a message, with the given liveness.
pub open spec fn event_of(m: MidiMessageWithDelta, live: bool) -> MidiEvent {
    MidiEvent { live, ..live_event(wire_array(m.data.0), m.delta_frames as i32) }
}

impl MidiMessageWithDelta {
    /// A live host event carrying the message at its offset.
    pub fn new_midi_event(&self) -> (r: MidiEvent)
        ensures
            r == event_of(*self, true),
    {
        MidiEvent {
            data: self.data.into_bytes(),
            delta_frames: self.delta_frames as i32,
            live: true,
            note_length: None,
            note_offset: None,
            detune: 0,
            note_off_velocity: 0,
        }
    }

    /// The event written into an outgoing host buffer: the same, not live.
    pub fn outgoing_event(&self) -> (r: MidiEvent)
        ensures
            r == event_of(*self, false),
    {
        MidiEvent {
            data: self.data.into_bytes(),
            delta_frames: self.delta_frames as i32,
            live: false,
            note_length: None,
            note_offset: None,
            detune: 0,
            note_off_velocity: 0,
        }
    }
}

} // verus!
