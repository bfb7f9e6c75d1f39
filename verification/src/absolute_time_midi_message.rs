use vstd::prelude::*;
use crate::raw_message::{RawMessage, wire_array};
use crate::delayed_message_consumer::MessageReason;
use crate::midi_event::{MidiEvent, live_event};

verus! {

/// A message scheduled at an absolute time, counted in samples since the
/// plugin started; `id` pairs a note off with the note on it ends.
#[derive(Clone, Copy)]
pub struct AbsoluteTimeMidiMessage {
    pub data: RawMessage,
    pub id: usize,
    pub reason: MessageReason,
    pub play_time_in_samples: usize,
}

/// Status bytes of note off and note on messages.
pub open spec fn is_note_status(b: u8) -> bool {
    0x80 <= b <= 0x9F
}

impl AbsoluteTimeMidiMessage {
    pub open spec fn bytes(self) -> Seq<u8> {
        self.data.0@
    }

    /// The event to send in the buffer that starts at `current_time_in_samples`:
    /// the message bytes as sent on the wire, at its offset in that buffer.
    pub fn new_midi_event(&self, current_time_in_samples: usize) -> (r: MidiEvent)
        requires
            current_time_in_samples <= self.play_time_in_samples,
        ensures
            r == live_event(
                wire_array(self.data.0),
                (self.play_time_in_samples - current_time_in_samples) as i32,
            ),
    {
        let delta: usize = self.play_time_in_samples - current_time_in_samples;
        MidiEvent {
            data: self.data.into_bytes(),
            delta_frames: delta as i32,
            live: true,
            note_length: None,
            note_offset: None,
            detune: 0,
            note_off_velocity: 0,
        }
    }

    /// Channel of a note on or note off message.
    pub fn get_channel(&self) -> (r: u8)
        requires
            is_note_status(self.data.0@[0]),
        ensures
            r == self.data.0@[0] & 0x0F,
    {
        self.data.0[0] & 0x0F
    }

    /// Pitch of a note on or note off message.
    pub fn get_pitch(&self) -> (r: u8)
        requires
            is_note_status(self.data.0@[0]),
        ensures
            r == self.data.0@[1],
    {
        self.data.0[1]
    }
}

} // verus!
