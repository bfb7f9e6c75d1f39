use vstd::prelude::*;
use crate::arpegiator::note::Note;
use crate::arpegiator::timed_event::TimedEvent;
use vstd::std_specs::convert::FromSpecImpl;

verus! {

/// Pitch of the C of the octave a pattern is written from.
pub const C3: u8 = 60;

/// A pattern step: a note of the pattern device, played on the output as
/// the held note of rank `index`, shifted by `octave` octaves.
#[derive(Clone, Copy, Debug)]
pub struct Pattern {
    pub id: usize,
    pub channel: u8,
    pub index: u8,
    pub octave: i8,
    pub pressed_at: usize,
    pub released_at: usize,
    pub velocity: u8,
    pub velocity_off: u8,
    pub pressure: u8,
    pub timbre: u8,
    /// In millisemitones.
    pub pitchbend: i32,
}

pub open spec fn transposed(octave: i8, pitch: u8) -> int {
    pitch + octave * 12
}

pub open spec fn pattern_timestamp(p: Pattern) -> usize {
    if p.released_at > 0 {
        p.released_at
    } else {
        p.pressed_at
    }
}

/// The pattern a note of the pattern device stands for: its pitch class is
/// the rank, its octave relative to C3 the transposition.
pub open spec fn pattern_of(note: Note) -> Pattern {
    Pattern {
        channel: note.channel,
        id: note.id,
        index: (note.pitch % 12) as u8,
        velocity_off: 0,
        pressure: 0,
        timbre: 64,
        octave: ((note.pitch - note.pitch % 12 - 60) / 12) as i8,
        pressed_at: note.pressed_at,
        released_at: 0,
        velocity: note.velocity,
        pitchbend: 0,
    }
}

impl Pattern {
    /// The pitch shifted by the pattern's octaves, when it stays in 0..=127.
    pub fn transpose(&self, pitch: u8) -> (r: Option<u8>)
        ensures
            0 <= transposed(self.octave, pitch) <= 127 ==> r == Some(transposed(self.octave, pitch) as u8),
            !(0 <= transposed(self.octave, pitch) <= 127) ==> r is None,
    {
        let pitch: i16 = pitch as i16 + self.octave as i16 * 12;
        if !(0 <= pitch && pitch <= 127) {
            None
        } else {
            Some(pitch as u8)
        }
    }
}

/// The pattern for a note of the pattern device.
impl From<Note> for Pattern {
    fn from(note: Note) -> (r: Pattern) {
        let index = note.pitch % 12;
        let base: i16 = (note.pitch - index) as i16 - C3 as i16;
        let octave = (base / 12) as i8;
        proof {
            assert(-60 <= base <= 195);
            assert(base as int == note.pitch - note.pitch % 12 - 60);
        }
        Pattern {
            channel: note.channel,
            id: note.id,
            index,
            velocity_off: 0,
            pressure: 0,
            timbre: 64,
            octave,
            pressed_at: note.pressed_at,
            released_at: 0,
            velocity: note.velocity,
            pitchbend: 0,
        }
    }
}

impl FromSpecImpl<Note> for Pattern {
    open spec fn obeys_from_spec() -> bool {
        true
    }

    open spec fn from_spec(note: Note) -> Pattern {
        pattern_of(note)
    }
}

impl TimedEvent for Pattern {
    open spec fn time_of(&self) -> usize {
        pattern_timestamp(*self)
    }

    open spec fn id_of(&self) -> usize {
        self.id
    }

    /// Release time once released, press time before.
    fn timestamp(&self) -> (r: usize) {
        if self.released_at > 0 {
            self.released_at
        } else {
            self.pressed_at
        }
    }

    fn id(&self) -> (r: usize) {
        self.id
    }
}

/// A pattern played on the note of its own rank counted from C3 plays the
/// note the pattern was written with: a pattern note's pitch is C3 plus its
/// rank plus twelve times its octave.
pub proof fn lemma_pattern_of_note(note: Note)
    ensures
        pattern_of(note).index == note.pitch % 12,
        0 <= transposed(pattern_of(note).octave, (C3 + pattern_of(note).index) as u8) <= 255,
        transposed(pattern_of(note).octave, (C3 + pattern_of(note).index) as u8) == note.pitch,
{
    let p = note.pitch as int;
    let base = p - p % 12 - 60;
    assert(base % 12 == 0 && -60 <= base <= 195) by (nonlinear_arith)
        requires
            base == p - p % 12 - 60,
            0 <= p <= 255,
    ;
    assert((base / 12) * 12 == base) by (nonlinear_arith)
        requires
            base % 12 == 0,
    ;
}

} // verus!
