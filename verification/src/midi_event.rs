use vstd::prelude::*;

verus! {

/// A MIDI event as handed to the host: the message bytes, their offset in
/// frames from the start of the current buffer, and the host's extra fields.
#[derive(Clone, Copy, Debug)]
pub struct MidiEvent {
    pub data: [u8; 3],
    pub delta_frames: i32,
    pub live: bool,
    pub note_length: Option<i32>,
    pub note_offset: Option<i32>,
    pub detune: i8,
    pub note_off_velocity: u8,
}

/// An event received from the host; only MIDI events carry a message.
#[derive(Clone, Copy, Debug)]
pub enum Event {
    Midi(MidiEvent),
    SysEx,
    Deprecated,
}

/// A live event carrying `bytes` at `delta_frames`, all other fields neutral.
pub open spec fn live_event(bytes: [u8; 3], delta_frames: i32) -> MidiEvent {
    MidiEvent {
        data: bytes,
        delta_frames,
        live: true,
        note_length: None,
        note_offset: None,
        detune: 0,
        note_off_velocity: 0,
    }
}

/// Builds a live event for the host from message bytes and a frame offset.
pub fn make_midi_message(bytes: [u8; 3], delta_frames: i32) -> (r: MidiEvent)
    ensures
        r == live_event(bytes, delta_frames),
{
    MidiEvent {
        data: bytes,
        delta_frames,
        live: true,
        note_length: None,
        note_offset: None,
        detune: 0,
        note_off_velocity: 0,
    }
}

} // verus!
