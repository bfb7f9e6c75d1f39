use vstd::prelude::*;

verus! {

/// Status nibble of a channel pressure message.
pub const PRESSURE: u8 = 0xD0;
/// Status nibble of a pitch wheel message.
pub const PITCHWHEEL: u8 = 0xE0;
/// Status nibble of a pitch bend message (same as the pitch wheel).
pub const PITCHBEND: u8 = 0xE0;
/// Centre value of a 7-bit controller.
pub const ZEROVALUE: u8 = 0x40;
/// Status nibble of a control change message.
pub const CC: u8 = 0xB0;
/// Controller number carrying the MPE timbre dimension.
pub const TIMBRECC: u8 = 0x4A;
/// Status nibble of a note off message.
pub const NOTE_OFF: u8 = 0x80;
/// Status nibble of a note on message.
pub const NOTE_ON: u8 = 0x90;
/// Status nibble of a polyphonic (per-note) aftertouch message.
pub const AFTERTOUCH: u8 = 0xA0;
/// Pitch of the note named C0.
pub const C0: i8 = 0x18;

} // verus!
