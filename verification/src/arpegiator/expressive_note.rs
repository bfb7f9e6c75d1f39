use vstd::prelude::*;
use crate::constants::{TIMBRECC, PITCHBEND};
use crate::raw_message::RawMessage;
use crate::messages::{
    NoteOn, Timbre, PitchBend, AfterTouch, note_on_raw, cc_raw, aftertouch_raw, bend_raw,
    encodable_millisemitones,
};

verus! {

/// A note to start together with its expression values.
pub struct ExpressiveNote {
    pub channel: u8,
    pub pitch: u8,
    pub velocity: u8,
    pub pressure: u8,
    pub timbre: u8,
    /// In millisemitones.
    pub pitchbend: i32,
}

/// The messages that start an expressive note, in sending order: its pitch
/// bend, its timbre, its pressure (as per-note aftertouch), then the note on.
pub open spec fn expressive_messages(n: ExpressiveNote) -> Seq<RawMessage> {
    seq![
        bend_raw(n.channel, n.pitchbend as int),
        cc_raw(n.channel, TIMBRECC, n.timbre),
        aftertouch_raw(n.channel, n.pitch, n.pressure),
        note_on_raw(n.channel, n.pitch, n.velocity),
    ]
}

/// Notes whose messages can be encoded: the channel fits every status byte
/// and the bend fits the encoding.
pub open spec fn expressive_ok(n: ExpressiveNote) -> bool {
    &&& n.channel + PITCHBEND <= 0xFF
    &&& encodable_millisemitones(n.pitchbend as int)
}

impl ExpressiveNote {
    /// The note's pressure, sent as per-note aftertouch.
    fn get_pressure_note(&self) -> (r: RawMessage)
        requires
            self.channel + PITCHBEND <= 0xFF,
        ensures
            r == aftertouch_raw(self.channel, self.pitch, self.pressure),
    {
        AfterTouch { channel: self.channel, pitch: self.pitch, value: self.pressure }.into_raw()
    }

    /// The messages that start the note.
    pub fn into_rawmessages(self) -> (r: Vec<RawMessage>)
        requires
            expressive_ok(self),
        ensures
            r@ == expressive_messages(self),
    {
        let mut r: Vec<RawMessage> = Vec::new();
        r.push(PitchBend { channel: self.channel, millisemitones: self.pitchbend }.into_raw());
        r.push(Timbre { channel: self.channel, value: self.timbre }.into_raw());
        r.push(self.get_pressure_note());
        r.push(NoteOn { channel: self.channel, pitch: self.pitch, velocity: self.velocity }.into_raw());
        r
    }
}

} // verus!
