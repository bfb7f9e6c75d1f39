use vstd::prelude::*;
use crate::midi_event::{MidiEvent, Event, live_event};
use crate::delay_queue::AbsoluteTimeMidiMessage;
use crate::midi_message_type::{status_kind, channel_of};

verus! {

/// A message played at an absolute time, as seen through its kind.
pub trait AbsoluteTimeMidiMessageMethods {
    spec fn message(&self) -> AbsoluteTimeMidiMessage;

    fn get_absolute_time_midi_message(&self) -> (r: &AbsoluteTimeMidiMessage)
        ensures
            *r == self.message(),
    ;

    /// The channel, the low nibble of the status byte.
    fn channel(&self) -> (r: u8)
        ensures
            r == channel_of(self.message().data@),
    {
        self.get_absolute_time_midi_message().data[0] & 0x0F
    }

    /// The live event for the buffer starting at `current_time_in_samples`.
    fn into_event(&self, current_time_in_samples: usize) -> (r: Event)
        requires
            current_time_in_samples <= self.message().play_time_in_samples,
        ensures
            r == Event::Midi(
                live_event(
                    self.message().data,
                    (self.message().play_time_in_samples - current_time_in_samples) as i32,
                ),
            ),
    {
        let m = self.get_absolute_time_midi_message();
        let delta: usize = m.play_time_in_samples - current_time_in_samples;
        Event::Midi(
            MidiEvent {
                data: m.data,
                delta_frames: delta as i32,
                live: true,
                note_length: None,
                note_offset: None,
                detune: 0,
                note_off_velocity: 0,
            },
        )
    }
}

pub struct NoteOn {
    pub absolute_time_midi_message: AbsoluteTimeMidiMessage,
}

pub struct NoteOff {
    pub absolute_time_midi_message: AbsoluteTimeMidiMessage,
}

pub struct Pressure {
    pub absolute_time_midi_message: AbsoluteTimeMidiMessage,
}

pub struct PitchBend {
    pub absolute_time_midi_message: AbsoluteTimeMidiMessage,
}

pub struct CC {
    pub absolute_time_midi_message: AbsoluteTimeMidiMessage,
}

pub struct GenericChannelMessage {
    pub absolute_time_midi_message: AbsoluteTimeMidiMessage,
}

/// A timed message classified by the high nibble of its status byte.
pub enum AbsoluteTimeMidiMessageType {
    NoteOnMessage(NoteOn),
    NoteOffMessage(NoteOff),
    CCMessage(CC),
    PressureMessage(Pressure),
    PitchBendMessage(PitchBend),
    UnsupportedChannelMessage(GenericChannelMessage),
    Unsupported,
}

impl AbsoluteTimeMidiMessageMethods for NoteOn {
    open spec fn message(&self) -> AbsoluteTimeMidiMessage {
        self.absolute_time_midi_message
    }

    fn get_absolute_time_midi_message(&self) -> (r: &AbsoluteTimeMidiMessage) {
        &self.absolute_time_midi_message
    }
}

impl AbsoluteTimeMidiMessageMethods for NoteOff {
    open spec fn message(&self) -> AbsoluteTimeMidiMessage {
        self.absolute_time_midi_message
    }

    fn get_absolute_time_midi_message(&self) -> (r: &AbsoluteTimeMidiMessage) {
        &self.absolute_time_midi_message
    }
}

impl AbsoluteTimeMidiMessageMethods for Pressure {
    open spec fn message(&self) -> AbsoluteTimeMidiMessage {
        self.absolute_time_midi_message
    }

    fn get_absolute_time_midi_message(&self) -> (r: &AbsoluteTimeMidiMessage) {
        &self.absolute_time_midi_message
    }
}

impl AbsoluteTimeMidiMessageMethods for PitchBend {
    open spec fn message(&self) -> AbsoluteTimeMidiMessage {
        self.absolute_time_midi_message
    }

    fn get_absolute_time_midi_message(&self) -> (r: &AbsoluteTimeMidiMessage) {
        &self.absolute_time_midi_message
    }
}

impl AbsoluteTimeMidiMessageMethods for CC {
    open spec fn message(&self) -> AbsoluteTimeMidiMessage {
        self.absolute_time_midi_message
    }

    fn get_absolute_time_midi_message(&self) -> (r: &AbsoluteTimeMidiMessage) {
        &self.absolute_time_midi_message
    }
}

impl AbsoluteTimeMidiMessageMethods for GenericChannelMessage {
    open spec fn message(&self) -> AbsoluteTimeMidiMessage {
        self.absolute_time_midi_message
    }

    fn get_absolute_time_midi_message(&self) -> (r: &AbsoluteTimeMidiMessage) {
        &self.absolute_time_midi_message
    }
}

impl CC {
    /// The controller number.
    pub fn cc(&self) -> (r: u8)
        ensures
            r == self.absolute_time_midi_message.data@[1],
    {
        self.absolute_time_midi_message.data[1]
    }

    /// The controller value.
    pub fn value(&self) -> (r: u8)
        ensures
            r == self.absolute_time_midi_message.data@[2],
    {
        self.absolute_time_midi_message.data[2]
    }
}

impl Pressure {
    /// The pressure value, the first data byte.
    pub fn value(&self) -> (r: u8)
        ensures
            r == self.absolute_time_midi_message.data@[1],
    {
        self.absolute_time_midi_message.data[1]
    }
}

/// `r` is the classification of `m` by its status nibble.
pub open spec fn classifies_timed(r: AbsoluteTimeMidiMessageType, m: AbsoluteTimeMidiMessage) -> bool {
    let k = status_kind(m.data@);
    match r {
        AbsoluteTimeMidiMessageType::NoteOffMessage(x) => k == 0x80u8 && x.absolute_time_midi_message == m,
        AbsoluteTimeMidiMessageType::NoteOnMessage(x) => k == 0x90u8 && x.absolute_time_midi_message == m,
        AbsoluteTimeMidiMessageType::CCMessage(x) => k == 0xB0u8 && x.absolute_time_midi_message == m,
        AbsoluteTimeMidiMessageType::PressureMessage(x) => k == 0xD0u8 && x.absolute_time_midi_message == m,
        AbsoluteTimeMidiMessageType::PitchBendMessage(x) => k == 0xE0u8 && x.absolute_time_midi_message == m,
        AbsoluteTimeMidiMessageType::UnsupportedChannelMessage(x) => (k == 0xA0u8 || k == 0xC0u8 || k == 0xF0u8)
            && x.absolute_time_midi_message == m,
        AbsoluteTimeMidiMessageType::Unsupported => k != 0x80u8 && k != 0x90u8 && k != 0xB0u8 && k != 0xD0u8 && k
            != 0xE0u8 && k != 0xA0u8 && k != 0xC0u8 && k != 0xF0u8,
    }
}

impl AbsoluteTimeMidiMessage {
    /// Classifies an event received `current_time_in_samples` samples after
    /// start, timed at its absolute play time; events that are not MIDI are
    /// unsupported.
    pub fn from(event: &Event, current_time_in_samples: usize) -> (r: AbsoluteTimeMidiMessageType)
        requires
            event matches Event::Midi(e) ==> current_time_in_samples + (e.delta_frames as usize) <= usize::MAX,
        ensures
            match event {
                Event::Midi(e) => classifies_timed(
                    r,
                    AbsoluteTimeMidiMessage {
                        data: e.data,
                        play_time_in_samples: (current_time_in_samples + (e.delta_frames as usize)) as usize,
                    },
                ),
                _ => r is Unsupported,
            },
    {
        match event {
            Event::Midi(e) => {
                let delta: usize = e.delta_frames as usize;
                let absolute_time_midi_message = AbsoluteTimeMidiMessage {
                    data: e.data,
                    play_time_in_samples: current_time_in_samples + delta,
                };
                let kind: u8 = e.data[0] & 0xF0;
                if kind == 0x80 {
                    AbsoluteTimeMidiMessageType::NoteOffMessage(NoteOff { absolute_time_midi_message })
                } else if kind == 0x90 {
                    AbsoluteTimeMidiMessageType::NoteOnMessage(NoteOn { absolute_time_midi_message })
                } else if kind == 0xB0 {
                    AbsoluteTimeMidiMessageType::CCMessage(CC { absolute_time_midi_message })
                } else if kind == 0xD0 {
                    AbsoluteTimeMidiMessageType::PressureMessage(Pressure { absolute_time_midi_message })
                } else if kind == 0xE0 {
                    AbsoluteTimeMidiMessageType::PitchBendMessage(PitchBend { absolute_time_midi_message })
                } else if kind == 0xA0 || kind == 0xC0 || kind == 0xF0 {
                    AbsoluteTimeMidiMessageType::UnsupportedChannelMessage(
                        GenericChannelMessage { absolute_time_midi_message },
                    )
                } else {
                    AbsoluteTimeMidiMessageType::Unsupported
                }
            },
            _ => AbsoluteTimeMidiMessageType::Unsupported,
        }
    }
}

} // verus!
