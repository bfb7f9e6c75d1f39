use vstd::prelude::*;
use crate::constants::{NOTE_ON, NOTE_OFF, PRESSURE, PITCHWHEEL, CC, TIMBRECC, ZEROVALUE, C0};
use crate::midi_event::{MidiEvent, live_event, make_midi_message};
use crate::parameters::note_generator::Parameter;

verus! {

/// A value to store for a parameter, read from the text a user typed.
#[derive(Clone, Copy, Debug, PartialEq, Eq, Structural)]
pub enum ParameterSetting {
    Byte(Parameter, u8),
    Bool(Parameter, bool),
}

pub open spec fn is_digit(c: char) -> bool {
    '0' <= c <= '9'
}

/// The value of a string of decimal digits.
pub open spec fn digits_value(ds: Seq<char>) -> int
    decreases ds.len(),
{
    if ds.len() == 0 {
        0
    } else {
        digits_value(ds.drop_last()) * 10 + ((ds.last() as int) - ('0' as int))
    }
}

pub open spec fn all_digits(ds: Seq<char>) -> bool {
    forall|i: int| 0 <= i < ds.len() ==> is_digit(#[trigger] ds[i])
}

/// What `u8::from_str` gives: an optional `+` followed by at least one ASCII
/// digit and nothing else, whose value fits in a `u8`.
pub open spec fn decimal_u8(s: Seq<char>) -> Option<u8> {
    let ds = if s.len() > 0 && s[0] == '+' {
        s.drop_first()
    } else {
        s
    };
    if ds.len() > 0 && all_digits(ds) && digits_value(ds) <= 255 {
        Some(digits_value(ds) as u8)
    } else {
        None
    }
}

/// What `i8::from_str` gives: an optional `+` or `-` followed by at least
/// one ASCII digit and nothing else, whose value fits in an `i8`.
pub open spec fn decimal_i8(s: Seq<char>) -> Option<i8> {
    let negative = s.len() > 0 && s[0] == '-';
    let ds = if s.len() > 0 && (s[0] == '+' || s[0] == '-') {
        s.drop_first()
    } else {
        s
    };
    let v = if negative {
        -digits_value(ds)
    } else {
        digits_value(ds)
    };
    if ds.len() > 0 && all_digits(ds) && -128 <= v <= 127 {
        Some(v as i8)
    } else {
        None
    }
}

/// Calls `str::parse::<u8>`, whose documented format is stated by
/// `decimal_u8`.
#[verifier::external_body]
fn parse_u8(text: &str) -> (r: Option<u8>)
    ensures
        r == decimal_u8(text@),
{
    text.parse::<u8>().ok()
}

/// Calls `str::parse::<i8>`, whose documented format is stated by
/// `decimal_i8`.
#[verifier::external_body]
fn parse_i8(text: &str) -> (r: Option<i8>)
    ensures
        r == decimal_i8(text@),
{
    text.parse::<i8>().ok()
}

/// The name of each of the twelve pitch classes, from C.
pub open spec fn note_name(i: int) -> Seq<char> {
    if i == 0 {
        seq!['C']
    } else if i == 1 {
        seq!['C', '#']
    } else if i == 2 {
        seq!['D']
    } else if i == 3 {
        seq!['D', '#']
    } else if i == 4 {
        seq!['E']
    } else if i == 5 {
        seq!['F']
    } else if i == 6 {
        seq!['F', '#']
    } else if i == 7 {
        seq!['G']
    } else if i == 8 {
        seq!['G', '#']
    } else if i == 9 {
        seq!['A']
    } else if i == 10 {
        seq!['A', '#']
    } else {
        seq!['B']
    }
}

pub open spec fn is_prefix(p: Seq<char>, s: Seq<char>) -> bool {
    p.len() <= s.len() && s.subrange(0, p.len() as int) == p
}

/// The first pitch-class name the text starts with, tried in order from C.
pub open spec fn first_name(s: Seq<char>, from: int) -> Option<int>
    decreases 12 - from,
{
    if from >= 12 || from < 0 {
        None
    } else if is_prefix(note_name(from), s) {
        Some(from)
    } else {
        first_name(s, from + 1)
    }
}

/// ASCII letters in lower case, other characters unchanged.
pub open spec fn ascii_lower(c: char) -> char {
    if 'A' <= c <= 'Z' {
        ((c as int) + 32) as char
    } else {
        c
    }
}

/// The setting a typed text stands for, if any: a channel from 1 to 16; a
/// velocity, note off velocity or pressure below 128 (all three stored as
/// the velocity); a pitch as a note name then an octave from -2 to 8 (C0
/// is pitch 24); the trigger as "0", "off" or nothing, or "1" or "on", in
/// any case.
pub open spec fn setting_of(parameter: Parameter, s: Seq<char>) -> Option<ParameterSetting> {
    match parameter {
        Parameter::Channel => match decimal_u8(s) {
            Some(n) => if 0 < n <= 16 {
                Some(ParameterSetting::Byte(Parameter::Channel, n))
            } else {
                None
            },
            None => None,
        },
        Parameter::Velocity | Parameter::NoteOffVelocity | Parameter::Pressure => match decimal_u8(s) {
            Some(n) => if n < 128 {
                Some(ParameterSetting::Byte(Parameter::Velocity, n))
            } else {
                None
            },
            None => None,
        },
        Parameter::Pitch => match first_name(s, 0) {
            None => None,
            Some(position) => match decimal_i8(s.skip(note_name(position).len() as int)) {
                Some(octave) => {
                    let pitch = octave * 12 + C0 + position;
                    if -2 <= octave <= 8 && pitch < 128 {
                        Some(ParameterSetting::Byte(Parameter::Pitch, pitch as u8))
                    } else {
                        None
                    }
                },
                None => None,
            },
        },
        Parameter::Trigger => {
            let l = s.map_values(|c: char| ascii_lower(c));
            if l == seq!['0'] || l == seq!['o', 'f', 'f'] || l.len() == 0 {
                Some(ParameterSetting::Bool(Parameter::Trigger, false))
            } else if l == seq!['1'] || l == seq!['o', 'n'] {
                Some(ParameterSetting::Bool(Parameter::Trigger, true))
            } else {
                None
            }
        },
        _ => None,
    }
}

/// The characters of the pitch-class name `i`.
fn note_name_chars(i: usize) -> (r: (char, Option<char>))
    requires
        i < 12,
    ensures
        note_name(i as int) == match r.1 {
            Some(c) => seq![r.0, c],
            None => seq![r.0],
        },
{
    match i {
        0 => ('C', None),
        1 => ('C', Some('#')),
        2 => ('D', None),
        3 => ('D', Some('#')),
        4 => ('E', None),
        5 => ('F', None),
        6 => ('F', Some('#')),
        7 => ('G', None),
        8 => ('G', Some('#')),
        9 => ('A', None),
        10 => ('A', Some('#')),
        _ => ('B', None),
    }
}

/// Whether the text starts with the pitch-class name `i`.
fn starts_with_name(text: &str, len: usize, i: usize) -> (r: bool)
    requires
        i < 12,
        len == text@.len(),
    ensures
        r == is_prefix(note_name(i as int), text@),
{
    let (c0, c1) = note_name_chars(i);
    match c1 {
        None => {
            if len < 1 {
                return false;
            }
            let a = text.get_char(0);
            assert(text@.subrange(0, 1) =~= seq![a]);
            if a == c0 {
                assert(seq![a] =~= seq![c0]);
                true
            } else {
                assert(seq![a][0] != seq![c0][0]);
                false
            }
        },
        Some(c) => {
            if len < 2 {
                return false;
            }
            let a = text.get_char(0);
            let b = text.get_char(1);
            assert(text@.subrange(0, 2) =~= seq![a, b]);
            if a == c0 && b == c {
                assert(seq![a, b] =~= seq![c0, c]);
                true
            } else {
                assert(seq![a, b][0] != seq![c0, c][0] || seq![a, b][1] != seq![c0, c][1]);
                false
            }
        },
    }
}

/// The first pitch-class name the text starts with.
fn find_name(text: &str, len: usize) -> (r: Option<usize>)
    requires
        len == text@.len(),
    ensures
        match first_name(text@, 0) {
            Some(p) => r is Some && r->0 == p && p < 12 && is_prefix(note_name(p), text@),
            None => r is None,
        },
{
    let mut position: usize = 0;
    while position < 12
        invariant
            0 <= position <= 12,
            len == text@.len(),
            first_name(text@, 0) == first_name(text@, position as int),
        decreases 12 - position,
    {
        if starts_with_name(text, len, position) {
            return Some(position);
        }
        position = position + 1;
    }
    None
}

/// Whether the text, in lower case, is `word`.
fn lower_equals(text: &str, len: usize, word: &str) -> (r: bool)
    requires
        len == text@.len(),
    ensures
        r == (text@.map_values(|c: char| ascii_lower(c)) == word@),
{
    let wlen = word.unicode_len();
    if wlen != len {
        proof {
            assert(text@.map_values(|c: char| ascii_lower(c)).len() != word@.len());
        }
        return false;
    }
    let mut i: usize = 0;
    while i < len
        invariant
            0 <= i <= len,
            len == text@.len(),
            len == word@.len(),
            forall|j: int| 0 <= j < i ==> ascii_lower(#[trigger] text@[j]) == word@[j],
        decreases len - i,
    {
        let c = text.get_char(i);
        let lc = if 'A' <= c && c <= 'Z' {
            ((c as u32) + 32) as u8 as char
        } else {
            c
        };
        assert(lc == ascii_lower(c)) by {
            if 'A' <= c && c <= 'Z' {
                assert((c as u32) + 32 < 256);
            }
        }
        if lc != word.get_char(i) {
            proof {
                assert(text@.map_values(|c: char| ascii_lower(c))[i as int] != word@[i as int]);
            }
            return false;
        }
        i = i + 1;
    }
    assert(text@.map_values(|c: char| ascii_lower(c)) =~= word@);
    true
}

fn pitch_setting(text: &str) -> (r: Option<ParameterSetting>)
    ensures
        r == setting_of(Parameter::Pitch, text@),
{
    let len = text.unicode_len();
    let position = match find_name(text, len) {
        None => {
            return None;
        },
        Some(p) => p,
    };
    let (_, second) = note_name_chars(position);
    let name_len: usize = match second {
        Some(_) => 2,
        None => 1,
    };
    assert(name_len == note_name(position as int).len());
    let rest = text.substring_char(name_len, len);
    assert(rest@ == text@.skip(name_len as int));
    match parse_i8(rest) {
        Some(octave) => {
            if octave >= -2 && octave <= 8 {
                let pitch: i16 = octave as i16 * 12 + C0 as i16 + position as i16;
                if pitch < 128 {
                    Some(ParameterSetting::Byte(Parameter::Pitch, pitch as u8))
                } else {
                    None
                }
            } else {
                None
            }
        },
        None => None,
    }
}

fn trigger_setting(text: &str) -> (r: Option<ParameterSetting>)
    ensures
        r == setting_of(Parameter::Trigger, text@),
{
    let len = text.unicode_len();
    proof {
        reveal_strlit("0");
        reveal_strlit("off");
        reveal_strlit("1");
        reveal_strlit("on");
        assert("0"@ =~= seq!['0']);
        assert("off"@ =~= seq!['o', 'f', 'f']);
        assert("1"@ =~= seq!['1']);
        assert("on"@ =~= seq!['o', 'n']);
    }
    if lower_equals(text, len, "0") || lower_equals(text, len, "off") || len == 0 {
        proof {
            if len == 0 {
                assert(text@.map_values(|c: char| ascii_lower(c)).len() == 0);
            }
        }
        Some(ParameterSetting::Bool(Parameter::Trigger, false))
    } else if lower_equals(text, len, "1") || lower_equals(text, len, "on") {
        Some(ParameterSetting::Bool(Parameter::Trigger, true))
    } else {
        proof {
            assert(text@.map_values(|c: char| ascii_lower(c)).len() == len);
        }
        None
    }
}

/// Reads the text a user typed for a parameter (see `setting_of`).
pub fn string_to_parameter(parameter: Parameter, text: &str) -> (r: Option<ParameterSetting>)
    ensures
        r == setting_of(parameter, text@),
{
    match parameter {
        Parameter::Channel => match parse_u8(text) {
            Some(n) => if n > 0 && n <= 16 {
                Some(ParameterSetting::Byte(Parameter::Channel, n))
            } else {
                None
            },
            None => None,
        },
        Parameter::Velocity | Parameter::NoteOffVelocity | Parameter::Pressure => match parse_u8(text) {
            Some(n) => if n < 128 {
                Some(ParameterSetting::Byte(Parameter::Velocity, n))
            } else {
                None
            },
            None => None,
        },
        Parameter::Pitch => pitch_setting(text),
        Parameter::Trigger => trigger_setting(text),
        _ => None,
    }
}

/// The octave shown for a pitch: its distance from C0 in octaves, rounded
/// towards zero.
pub open spec fn octave_of(pitch: u8) -> int {
    let d = pitch - C0;
    if d >= 0 {
        d / 12
    } else {
        -((-d) / 12)
    }
}

/// The pitch-class index and octave of the label of a pitch (pitches of
/// MIDI range, 0 to 127).
pub fn pitch_label_parts(pitch: u8) -> (r: (usize, i8))
    requires
        pitch <= 127,
    ensures
        r.0 == pitch % 12,
        r.1 == octave_of(pitch),
{
    ((pitch % 12) as usize, ((pitch as i8) - C0) / 12)
}

/// A channel event of the generator: status `event_type` on the channel of
/// the channel parameter's byte (an eighth of it), two data bytes.
pub open spec fn channel_event(event_type: u8, channel_byte: u8, a: u8, b: u8, delta: i32) -> MidiEvent {
    live_event([(event_type + channel_byte / 8) as u8, a, b], delta)
}

/// The events of a triggered note: the note on at once, then, one frame
/// later, a centred pitch wheel, a centred timbre and the pressure, so that
/// the host applies them after the note on.
pub open spec fn trigger_on_events(channel_byte: u8, pitch: u8, velocity: u8, pressure: u8) -> Seq<MidiEvent> {
    seq![
        channel_event(NOTE_ON, channel_byte, pitch, velocity, 0),
        channel_event(PITCHWHEEL, channel_byte, 0, ZEROVALUE, 1),
        channel_event(CC, channel_byte, TIMBRECC, ZEROVALUE, 1),
        channel_event(PRESSURE, channel_byte, pressure, 0, 1),
    ]
}

/// The event for a pressure change.
pub fn pressure_event(channel_byte: u8, pressure: u8, delta: i32) -> (r: MidiEvent)
    ensures
        r == channel_event(PRESSURE, channel_byte, pressure, 0, delta),
{
    make_midi_message([PRESSURE + channel_byte / 8, pressure, 0], delta)
}

/// The events that start a triggered note.
pub fn trigger_on(channel_byte: u8, pitch: u8, velocity: u8, pressure: u8) -> (r: Vec<MidiEvent>)
    ensures
        r@ == trigger_on_events(channel_byte, pitch, velocity, pressure),
{
    let mut r: Vec<MidiEvent> = Vec::new();
    r.push(make_midi_message([NOTE_ON + channel_byte / 8, pitch, velocity], 0));
    r.push(make_midi_message([PITCHWHEEL + channel_byte / 8, 0, ZEROVALUE], 1));
    r.push(make_midi_message([CC + channel_byte / 8, TIMBRECC, ZEROVALUE], 1));
    r.push(pressure_event(channel_byte, pressure, 1));
    r
}

/// The event that ends the triggered note, on the channel and pitch it was
/// triggered with.
pub fn trigger_off(triggered_channel_byte: u8, triggered_pitch: u8, note_off_velocity: u8) -> (r: MidiEvent)
    ensures
        r == channel_event(NOTE_OFF, triggered_channel_byte, triggered_pitch, note_off_velocity, 0),
{
    make_midi_message([NOTE_OFF + triggered_channel_byte / 8, triggered_pitch, note_off_velocity], 0)
}

} // verus!
