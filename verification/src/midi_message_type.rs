use vstd::prelude::*;
use crate::raw_message::RawMessage;
use crate::messages::{NoteOn, NoteOff, CC, Pressure, PitchBend, GenericChannelMessage, decodable, pitch_bend_code, code_to_millisemitones};

verus! {

/// A message classified by the high nibble of its status byte.
pub enum MidiMessageType {
    NoteOnMessage(NoteOn),
    NoteOffMessage(NoteOff),
    CCMessage(CC),
    PressureMessage(Pressure),
    PitchBendMessage(PitchBend),
    UnsupportedChannelMessage(GenericChannelMessage),
    Unsupported,
}

/// High nibble of the status byte.
pub open spec fn status_kind(b: Seq<u8>) -> u8 {
    b[0] & 0xF0u8
}

pub open spec fn is_note_on_bytes(b: Seq<u8>) -> bool {
    status_kind(b) == 0x90u8
}

pub open spec fn is_note_off_bytes(b: Seq<u8>) -> bool {
    status_kind(b) == 0x80u8
}

/// Note on or note off.
pub open spec fn is_note_bytes(b: Seq<u8>) -> bool {
    is_note_on_bytes(b) || is_note_off_bytes(b)
}

pub open spec fn channel_of(b: Seq<u8>) -> u8 {
    b[0] & 0x0Fu8
}

/// Two messages are about the same note: both are note on or note off, on
/// the same channel and with the same pitch.
pub open spec fn same_note_bytes(a: Seq<u8>, b: Seq<u8>) -> bool {
    &&& is_note_bytes(a)
    &&& is_note_bytes(b)
    &&& channel_of(a) == channel_of(b)
    &&& a[1] == b[1]
}

/// `r` is the classification of the message `data`.
pub open spec fn classifies(r: MidiMessageType, data: RawMessage) -> bool {
    let b = data.0@;
    let k = status_kind(b);
    match r {
        MidiMessageType::NoteOffMessage(m) => k == 0x80u8 && m.channel == channel_of(b) && m.pitch
            == b[1] && m.velocity == b[2],
        MidiMessageType::NoteOnMessage(m) => k == 0x90u8 && m.channel == channel_of(b) && m.pitch
            == b[1] && m.velocity == b[2],
        MidiMessageType::CCMessage(m) => k == 0xB0u8 && m.channel == channel_of(b) && m.cc == b[1]
            && m.value == b[2],
        MidiMessageType::PressureMessage(m) => k == 0xD0u8 && m.channel == channel_of(b) && m.value
            == b[1],
        MidiMessageType::PitchBendMessage(m) => k == 0xE0u8 && m.channel == channel_of(b)
            && m.millisemitones == code_to_millisemitones(pitch_bend_code(b)),
        MidiMessageType::UnsupportedChannelMessage(g) => (k == 0xA0u8 || k == 0xC0u8 || k == 0xF0u8)
            && g.0 == data,
        MidiMessageType::Unsupported => k != 0x80u8 && k != 0x90u8 && k != 0xB0u8 && k != 0xD0u8
            && k != 0xE0u8 && k != 0xA0u8 && k != 0xC0u8 && k != 0xF0u8,
    }
}

/// Channel and pitch of a classified note on or note off.
pub open spec fn note_identity(m: MidiMessageType) -> Option<(u8, u8)> {
    match m {
        MidiMessageType::NoteOnMessage(n) => Some((n.channel, n.pitch)),
        MidiMessageType::NoteOffMessage(n) => Some((n.channel, n.pitch)),
        _ => None,
    }
}

impl MidiMessageType {
    /// True when both messages are notes (on or off) with the same channel and pitch.
    pub fn is_same_note(&self, other: &MidiMessageType) -> (r: bool)
        ensures
            r == (note_identity(*self) is Some && note_identity(*self) == note_identity(*other)),
    {
        let (channel, pitch) = match self {
            MidiMessageType::NoteOnMessage(m) => (m.channel, m.pitch),
            MidiMessageType::NoteOffMessage(m) => (m.channel, m.pitch),
            _ => return false,
        };
        let (channel2, pitch2) = match other {
            MidiMessageType::NoteOnMessage(m) => (m.channel, m.pitch),
            MidiMessageType::NoteOffMessage(m) => (m.channel, m.pitch),
            _ => return false,
        };
        channel == channel2 && pitch == pitch2
    }

    /// Classifies a message by its status nibble and decodes its fields.
    pub fn from_raw(data: RawMessage) -> (r: MidiMessageType)
        requires
            decodable(data.0@),
        ensures
            classifies(r, data),
    {
        let kind: u8 = data.0[0] & 0xF0;
        if kind == 0x80 {
            MidiMessageType::NoteOffMessage(NoteOff::from_raw(data))
        } else if kind == 0x90 {
            MidiMessageType::NoteOnMessage(NoteOn::from_raw(data))
        } else if kind == 0xB0 {
            MidiMessageType::CCMessage(CC::from_raw(data))
        } else if kind == 0xD0 {
            MidiMessageType::PressureMessage(Pressure::from_raw(data))
        } else if kind == 0xE0 {
            MidiMessageType::PitchBendMessage(PitchBend::from_raw(data))
        } else if kind == 0xA0 || kind == 0xC0 || kind == 0xF0 {
            MidiMessageType::UnsupportedChannelMessage(GenericChannelMessage::from_raw(data))
        } else {
            MidiMessageType::Unsupported
        }
    }

    /// Classifies the message made of these bytes.
    pub fn from_bytes(data: &[u8; 3]) -> (r: MidiMessageType)
        requires
            decodable(data@),
        ensures
            classifies(r, RawMessage(*data)),
    {
        Self::from_raw(RawMessage(*data))
    }
}

/// Classification agrees with the byte-level notion of "same note".
pub proof fn lemma_classified_same_note(a: RawMessage, ma: MidiMessageType, b: RawMessage, mb: MidiMessageType)
    requires
        classifies(ma, a),
        classifies(mb, b),
    ensures
        (note_identity(ma) is Some && note_identity(ma) == note_identity(mb)) == same_note_bytes(a.0@, b.0@),
{
}

} // verus!
