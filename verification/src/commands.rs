use vstd::prelude::*;
use crate::constants::PRESSURE;
use crate::raw_message::{RawMessage, wire_bytes};
use crate::midi_message_with_delta::MidiMessageWithDelta;

verus! {

/// A message stamped with the time of the block it belongs to, as sent
/// between the pattern receiver and the arpeggiator.
pub struct PatternPayload {
    pub time: usize,
    pub messages: Vec<MidiMessageWithDelta>,
}

/// Commands to the MIDI controller worker.
pub enum ControllerCommand {
    RawMessage(RawMessage),
    Stop,
}

/// Commands to the socket that receives patterns.
pub enum SocketCommand {
    Stop,
    SetPort(u16),
}

/// Commands to the socket that sends patterns.
pub enum SenderSocketCommand {
    Stop,
    SetPort(u16),
    Send(PatternPayload),
}

/// The bytes sent to a MIDI port for a message: channel pressure is a
/// two-byte message, every other message takes three.
pub open spec fn port_bytes(m: RawMessage) -> Seq<u8> {
    let b = wire_bytes(m.0@);
    if b[0] & 0xF0 == PRESSURE {
        b.take(2)
    } else {
        b
    }
}

/// The bytes to send to a MIDI port for a message.
pub fn controller_bytes(m: RawMessage) -> (r: Vec<u8>)
    ensures
        r@ == port_bytes(m),
{
    let b = m.into_bytes();
    let mut r: Vec<u8> = Vec::new();
    r.push(b[0]);
    r.push(b[1]);
    if b[0] & 0xF0 != PRESSURE {
        r.push(b[2]);
    }
    r
}

} // verus!
