use vstd::prelude::*;
use crate::constants::{NOTE_ON, NOTE_OFF, PRESSURE, PITCHBEND, TIMBRECC, AFTERTOUCH, CC as CC_STATUS};
use crate::raw_message::RawMessage;

verus! {

/// A message that belongs to a MIDI channel.
pub trait ChannelMessage {
    fn get_channel(&self) -> u8;
}

/// A message about one note: it has a pitch and a velocity.
pub trait NoteMessage: ChannelMessage {
    fn get_pitch(&self) -> u8;

    fn get_velocity(&self) -> u8;
}

/// Largest 14-bit pitch bend code whose conversion to millisemitones fits in an `i32`.
pub open spec fn max_decodable_pitch_bend_code() -> int {
    22369
}

/// The 14-bit code carried by the two data bytes of a pitch bend message.
pub open spec fn pitch_bend_code(b: Seq<u8>) -> int {
    b[1] + 128 * b[2]
}

/// Millisemitones (over a range of -48..+48 semitones) of a pitch bend code.
pub open spec fn code_to_millisemitones(code: int) -> int {
    code * 96000 / 16384 - 48000
}

/// Division that rounds towards zero, as Rust's integer division does.
pub open spec fn trunc_div(a: int, b: int) -> int
    recommends
        b > 0,
{
    if a >= 0 {
        a / b
    } else {
        -((-a) / b)
    }
}

/// Pitch bend code of an amount in millisemitones, before splitting into bytes.
pub open spec fn millisemitones_to_code(millisemitones: int) -> int {
    trunc_div((millisemitones + 48000) * 16384, 96000)
}

/// Amounts in millisemitones whose encoding does not overflow an `i32`.
pub open spec fn encodable_millisemitones(millisemitones: int) -> bool {
    -131072 <= millisemitones + 48000 <= 131071
}

/// Bytes of a message that decode without overflow: the pitch bend code of a
/// pitch bend message must not exceed `max_decodable_pitch_bend_code`.
pub open spec fn decodable(b: Seq<u8>) -> bool {
    (b[0] & 0xF0u8) == 0xE0u8 ==> pitch_bend_code(b) <= max_decodable_pitch_bend_code()
}

/// The encoding of a note on.
pub open spec fn note_on_raw(channel: u8, pitch: u8, velocity: u8) -> RawMessage {
    RawMessage([(NOTE_ON + channel) as u8, pitch, velocity])
}

/// The encoding of a note off.
pub open spec fn note_off_raw(channel: u8, pitch: u8, velocity: u8) -> RawMessage {
    RawMessage([(NOTE_OFF + channel) as u8, pitch, velocity])
}

/// The encoding of per-note aftertouch.
pub open spec fn aftertouch_raw(channel: u8, pitch: u8, value: u8) -> RawMessage {
    RawMessage([(AFTERTOUCH + channel) as u8, pitch, value])
}

/// The encoding of a control change.
pub open spec fn cc_raw(channel: u8, cc: u8, value: u8) -> RawMessage {
    RawMessage([(CC_STATUS + channel) as u8, cc, value])
}

/// The encoding of a pitch bend of `millisemitones`.
pub open spec fn bend_raw(channel: u8, millisemitones: int) -> RawMessage {
    let code = millisemitones_to_code(millisemitones);
    RawMessage([(PITCHBEND + channel) as u8, (code % 128) as u8, ((code / 128) % 256) as u8])
}

/// A pitch bend whose encoding decodes again without overflow.
pub open spec fn bend_round_trips(millisemitones: int) -> bool {
    let code = millisemitones_to_code(millisemitones);
    &&& encodable_millisemitones(millisemitones)
    &&& code % 128 + 128 * ((code / 128) % 256) <= max_decodable_pitch_bend_code()
}

/// Whether a message decodes without overflow (see `decodable`).
pub fn is_decodable(data: &[u8; 3]) -> (r: bool)
    ensures
        r == decodable(data@),
{
    !((data[0] & 0xF0) == 0xE0 && (data[1] as u32) + 128 * (data[2] as u32) > 22369)
}

pub struct NoteOn {
    pub channel: u8,
    pub pitch: u8,
    pub velocity: u8,
}

pub struct NoteOff {
    pub channel: u8,
    pub pitch: u8,
    pub velocity: u8,
}

pub struct Pressure {
    pub channel: u8,
    pub value: u8,
}

pub struct PitchBend {
    pub channel: u8,
    pub millisemitones: i32,
}

pub struct AfterTouch {
    pub channel: u8,
    pub pitch: u8,
    pub value: u8,
}

pub struct CC {
    pub channel: u8,
    pub cc: u8,
    pub value: u8,
}

pub struct GenericChannelMessage(pub RawMessage);

pub struct Timbre {
    pub channel: u8,
    pub value: u8,
}

impl NoteOn {
    /// Encodes the note on: status `0x90 + channel`, pitch, velocity.
    pub fn into_raw(self) -> (r: RawMessage)
        requires
            NOTE_ON + self.channel <= 0xFF,
        ensures
            r.0@ == seq![(NOTE_ON + self.channel) as u8, self.pitch, self.velocity],
            r == note_on_raw(self.channel, self.pitch, self.velocity),
    {
        RawMessage([NOTE_ON + self.channel, self.pitch, self.velocity])
    }

    /// Decodes a message as a note on, whatever its status.
    pub fn from_raw(data: RawMessage) -> (r: NoteOn)
        ensures
            r.channel == data.0@[0] & 0x0F,
            r.pitch == data.0@[1],
            r.velocity == data.0@[2],
    {
        NoteOn { channel: data.0[0] & 0x0F, pitch: data.0[1], velocity: data.0[2] }
    }
}

impl ChannelMessage for NoteOn {
    fn get_channel(&self) -> (r: u8)
        ensures
            r == self.channel,
    {
        self.channel
    }
}

impl NoteMessage for NoteOn {
    fn get_pitch(&self) -> (r: u8)
        ensures
            r == self.pitch,
    {
        self.pitch
    }

    fn get_velocity(&self) -> (r: u8)
        ensures
            r == self.velocity,
    {
        self.velocity
    }
}

impl NoteOff {
    /// Encodes the note off: status `0x80 + channel`, pitch, velocity.
    pub fn into_raw(self) -> (r: RawMessage)
        requires
            NOTE_OFF + self.channel <= 0xFF,
        ensures
            r.0@ == seq![(NOTE_OFF + self.channel) as u8, self.pitch, self.velocity],
            r == note_off_raw(self.channel, self.pitch, self.velocity),
    {
        RawMessage([NOTE_OFF + self.channel, self.pitch, self.velocity])
    }

    /// Decodes a message as a note off, whatever its status.
    pub fn from_raw(data: RawMessage) -> (r: NoteOff)
        ensures
            r.channel == data.0@[0] & 0x0F,
            r.pitch == data.0@[1],
            r.velocity == data.0@[2],
    {
        NoteOff { channel: data.0[0] & 0x0F, pitch: data.0[1], velocity: data.0[2] }
    }

    /// The note off that ends a note on: same channel and pitch, velocity 0.
    pub fn from_note_on(m: NoteOn) -> (r: NoteOff)
        ensures
            r.channel == m.channel,
            r.pitch == m.pitch,
            r.velocity == 0,
    {
        NoteOff { channel: m.channel, pitch: m.pitch, velocity: 0 }
    }
}

impl ChannelMessage for NoteOff {
    fn get_channel(&self) -> (r: u8)
        ensures
            r == self.channel,
    {
        self.channel
    }
}

impl NoteMessage for NoteOff {
    fn get_pitch(&self) -> (r: u8)
        ensures
            r == self.pitch,
    {
        self.pitch
    }

    fn get_velocity(&self) -> (r: u8)
        ensures
            r == self.velocity,
    {
        self.velocity
    }
}

impl Pressure {
    /// Encodes channel pressure: status `0xD0 + channel`, value, 0.
    pub fn into_raw(self) -> (r: RawMessage)
        requires
            PRESSURE + self.channel <= 0xFF,
        ensures
            r.0@ == seq![(PRESSURE + self.channel) as u8, self.value, 0u8],
    {
        RawMessage([PRESSURE + self.channel, self.value, 0])
    }

    /// Decodes a message as channel pressure: the value is the first data byte.
    pub fn from_raw(data: RawMessage) -> (r: Pressure)
        ensures
            r.channel == data.0@[0] & 0x0F,
            r.value == data.0@[1],
    {
        Pressure { channel: data.0[0] & 0x0F, value: data.0[1] }
    }
}

impl ChannelMessage for Pressure {
    fn get_channel(&self) -> (r: u8)
        ensures
            r == self.channel,
    {
        self.channel
    }
}

impl PitchBend {
    /// Encodes the bend: 96000 millisemitones are spread over the 14-bit range,
    /// the low seven bits go first, the high bits second (each truncated to a byte).
    pub fn into_raw(self) -> (r: RawMessage)
        requires
            self.channel + PITCHBEND <= 0xFF,
            encodable_millisemitones(self.millisemitones as int),
        ensures
            r.0@[0] == self.channel + PITCHBEND,
            r.0@[1] == millisemitones_to_code(self.millisemitones as int) % 128,
            r.0@[2] == (millisemitones_to_code(self.millisemitones as int) / 128) % 256,
            r == bend_raw(self.channel, self.millisemitones as int),
    {
        let value: i32 = ((self.millisemitones + 48000) * 16384) / 96000;
        assert(value as int == millisemitones_to_code(self.millisemitones as int));
        let msb: i32 = value >> 7;
        let lsb: i32 = value & 0x7F;
        assert((value & 0x7F) as int == value as int % 128) by (bit_vector);
        assert((value >> 7) as int == (value as int) / 128) by (bit_vector);
        assert(-22370 <= value <= 22370);
        assert((msb as u8) as int == (msb as int) % 256) by (bit_vector)
            requires -200 <= msb <= 200;
        assert((lsb as u8) as int == lsb as int) by (bit_vector)
            requires 0 <= lsb < 128;
        RawMessage([self.channel + PITCHBEND, lsb as u8, msb as u8])
    }

    /// Decodes the 14-bit code of a pitch bend message into millisemitones.
    pub fn from_raw(data: RawMessage) -> (r: PitchBend)
        requires
            pitch_bend_code(data.0@) <= max_decodable_pitch_bend_code(),
        ensures
            r.channel == data.0@[0] & 0x0F,
            r.millisemitones == code_to_millisemitones(pitch_bend_code(data.0@)),
    {
        let lsb: i32 = data.0[1] as i32;
        let msb: i32 = data.0[2] as i32;
        let value: i32 = lsb + msb * 128;
        let millisemitones: i32 = (value * 96000 / 16384) - 48000;
        PitchBend { channel: data.0[0] & 0x0F, millisemitones }
    }
}

impl ChannelMessage for PitchBend {
    fn get_channel(&self) -> (r: u8)
        ensures
            r == self.channel,
    {
        self.channel
    }
}

impl AfterTouch {
    /// Encodes aftertouch with status `0xA0 + channel`, pitch, value.
    pub fn into_raw(self) -> (r: RawMessage)
        requires
            self.channel + AFTERTOUCH <= 0xFF,
        ensures
            r.0@ == seq![(self.channel + AFTERTOUCH) as u8, self.pitch, self.value],
            r == aftertouch_raw(self.channel, self.pitch, self.value),
    {
        RawMessage([self.channel + AFTERTOUCH, self.pitch, self.value])
    }

    /// Decodes a message as aftertouch, whatever its status.
    pub fn from_raw(data: RawMessage) -> (r: AfterTouch)
        ensures
            r.channel == data.0@[0] & 0x0F,
            r.pitch == data.0@[1],
            r.value == data.0@[2],
    {
        AfterTouch { channel: data.0[0] & 0x0F, pitch: data.0[1], value: data.0[2] }
    }
}

impl ChannelMessage for AfterTouch {
    fn get_channel(&self) -> (r: u8)
        ensures
            r == self.channel,
    {
        self.channel
    }
}

impl CC {
    /// Encodes the control change: status `0xB0 + channel`, controller, value.
    pub fn into_raw(self) -> (r: RawMessage)
        requires
            CC_STATUS + self.channel <= 0xFF,
        ensures
            r.0@ == seq![(CC_STATUS + self.channel) as u8, self.cc, self.value],
            r == cc_raw(self.channel, self.cc, self.value),
    {
        RawMessage([CC_STATUS + self.channel, self.cc, self.value])
    }

    /// Decodes a message as a control change, whatever its status.
    pub fn from_raw(data: RawMessage) -> (r: CC)
        ensures
            r.channel == data.0@[0] & 0x0F,
            r.cc == data.0@[1],
            r.value == data.0@[2],
    {
        CC { channel: data.0[0] & 0x0F, cc: data.0[1], value: data.0[2] }
    }
}

impl ChannelMessage for CC {
    fn get_channel(&self) -> (r: u8)
        ensures
            r == self.channel,
    {
        self.channel
    }
}

impl GenericChannelMessage {
    /// Wraps a message without looking at it.
    pub fn from_raw(data: RawMessage) -> (r: GenericChannelMessage)
        ensures
            r.0 == data,
    {
        GenericChannelMessage(data)
    }

    /// Wraps the message made of these bytes.
    pub fn from_bytes(data: &[u8; 3]) -> (r: GenericChannelMessage)
        ensures
            (r.0).0 == *data,
    {
        GenericChannelMessage(RawMessage(*data))
    }
}

impl ChannelMessage for GenericChannelMessage {
    fn get_channel(&self) -> (r: u8)
        ensures
            r == (self.0).0@[0] & 0x0F,
    {
        self.0.0[0] & 0x0F
    }
}

impl Timbre {
    /// Encodes the timbre dimension as control change 74 on the channel.
    pub fn into_raw(self) -> (r: RawMessage)
        requires
            CC_STATUS + self.channel <= 0xFF,
        ensures
            r.0@ == seq![(CC_STATUS + self.channel) as u8, TIMBRECC, self.value],
            r == cc_raw(self.channel, TIMBRECC, self.value),
    {
        CC { channel: self.channel, cc: TIMBRECC, value: self.value }.into_raw()
    }
}

/// `PitchBend::from_raw` reads back what `PitchBend::into_raw` wrote: for a
/// channel below 16 and a bend from -48000 up to (not including) 48000
/// millisemitones, the encoding meets the decoder's bound, the decoded
/// channel is the channel, and the decoded bend is the bend rounded down by
/// less than 6 millisemitones (the 14-bit code is never exact).
pub proof fn lemma_pitch_bend_decode_encode(channel: u8, millisemitones: i32)
    requires
        channel < 16,
        -48000 <= millisemitones < 48000,
    ensures
        channel + PITCHBEND <= 0xFF,
        encodable_millisemitones(millisemitones as int),
        pitch_bend_code(bend_raw(channel, millisemitones as int).0@) <= max_decodable_pitch_bend_code(),
        bend_raw(channel, millisemitones as int).0@[0] & 0x0F == channel,
        millisemitones - 6 <= code_to_millisemitones(pitch_bend_code(bend_raw(channel, millisemitones as int).0@))
            <= millisemitones,
{
    lemma_pitch_bend_round_trip(channel, millisemitones as int);
    assert(((0xE0u8 + channel) as u8) & 0x0Fu8 == channel) by (bit_vector)
        requires
            channel < 16,
    ;
}

/// Pitch bend round trip: a bend from -48000 millisemitones up to the top
/// of the encodable range, once encoded, decodes without overflow to the
/// same bend rounded down by less than 6 millisemitones (one step of the
/// 14-bit code is 96000/16384 millisemitones).
pub proof fn lemma_pitch_bend_round_trip(channel: u8, millisemitones: int)
    requires
        -48000 <= millisemitones,
        encodable_millisemitones(millisemitones),
    ensures
        pitch_bend_code(bend_raw(channel, millisemitones).0@) == millisemitones_to_code(millisemitones),
        pitch_bend_code(bend_raw(channel, millisemitones).0@) <= max_decodable_pitch_bend_code(),
        millisemitones - 6 <= code_to_millisemitones(pitch_bend_code(bend_raw(channel, millisemitones).0@))
            <= millisemitones,
{
    let x = millisemitones + 48000;
    let code = millisemitones_to_code(millisemitones);
    assert(code == x * 16384 / 96000);
    assert(0 <= code <= 22369) by (nonlinear_arith)
        requires
            code == x * 16384 / 96000,
            0 <= x <= 131071,
    ;
    assert(code % 128 + 128 * ((code / 128) % 256) == code) by (nonlinear_arith)
        requires
            0 <= code <= 22369,
    ;
    let b = bend_raw(channel, millisemitones).0@;
    assert(b[1] == code % 128);
    assert(b[2] == (code / 128) % 256);
    assert(x - 6 <= code * 96000 / 16384 <= x) by (nonlinear_arith)
        requires
            code == x * 16384 / 96000,
            0 <= x,
    ;
}

} // verus!
