use vstd::prelude::*;
use vstd::std_specs::cmp::{PartialEqSpecImpl, PartialOrdSpecImpl};
use core::cmp::Ordering;

verus! {

/// A note held on an input device, with the expression values it started with.
#[derive(Clone, Copy, Debug)]
pub struct Note {
    pub id: usize,
    pub pressed_at: usize,
    pub released_at: usize,
    pub channel: u8,
    pub pitch: u8,
    pub velocity: u8,
    pub velocity_off: u8,
    pub pressure: u8,
    pub timbre: u8,
    /// In millisemitones.
    pub pitchbend: i32,
}

/// Key of a note on a device.
#[derive(Clone, Copy, Debug, PartialEq, Eq, Structural, Hash)]
pub struct NoteIndex {
    pub channel: u8,
    pub pitch: u8,
}

/// Key of a controller value on a device.
#[derive(Clone, Copy, Debug, PartialEq, Eq, Structural, Hash)]
pub struct CCIndex {
    pub channel: u8,
    pub index: u8,
}

/// Orders two (pitch, identifier) keys lexicographically.
pub open spec fn pitch_id_cmp(a1: u8, a2: usize, b1: u8, b2: usize) -> Option<Ordering> {
    if a1 < b1 {
        Some(Ordering::Less)
    } else if a1 > b1 {
        Some(Ordering::Greater)
    } else if a2 < b2 {
        Some(Ordering::Less)
    } else if a2 > b2 {
        Some(Ordering::Greater)
    } else {
        Some(Ordering::Equal)
    }
}

/// Orders two (pitch, channel) keys lexicographically.
pub open spec fn pitch_channel_cmp(a1: u8, a2: u8, b1: u8, b2: u8) -> Option<Ordering> {
    if a1 < b1 {
        Some(Ordering::Less)
    } else if a1 > b1 {
        Some(Ordering::Greater)
    } else if a2 < b2 {
        Some(Ordering::Less)
    } else if a2 > b2 {
        Some(Ordering::Greater)
    } else {
        Some(Ordering::Equal)
    }
}

/// Notes are equal when their identifiers are.
impl PartialEq for Note {
    fn eq(&self, other: &Self) -> (r: bool) {
        self.id == other.id
    }
}

impl PartialEqSpecImpl for Note {
    open spec fn obeys_eq_spec() -> bool {
        true
    }

    open spec fn eq_spec(&self, other: &Note) -> bool {
        self.id == other.id
    }
}

impl Eq for Note {}

/// Notes are ordered by pitch, then by identifier.
impl PartialOrd for Note {
    fn partial_cmp(&self, other: &Self) -> (r: Option<Ordering>) {
        if self.pitch < other.pitch {
            Some(Ordering::Less)
        } else if self.pitch > other.pitch {
            Some(Ordering::Greater)
        } else if self.id < other.id {
            Some(Ordering::Less)
        } else if self.id > other.id {
            Some(Ordering::Greater)
        } else {
            Some(Ordering::Equal)
        }
    }
}

impl PartialOrdSpecImpl for Note {
    open spec fn obeys_partial_cmp_spec() -> bool {
        true
    }

    open spec fn partial_cmp_spec(&self, other: &Note) -> Option<Ordering> {
        pitch_id_cmp(self.pitch, self.id, other.pitch, other.id)
    }
}

/// Note keys are ordered by pitch, then by channel.
impl PartialOrd for NoteIndex {
    fn partial_cmp(&self, other: &Self) -> (r: Option<Ordering>) {
        if self.pitch < other.pitch {
            Some(Ordering::Less)
        } else if self.pitch > other.pitch {
            Some(Ordering::Greater)
        } else if self.channel < other.channel {
            Some(Ordering::Less)
        } else if self.channel > other.channel {
            Some(Ordering::Greater)
        } else {
            Some(Ordering::Equal)
        }
    }
}

impl PartialOrdSpecImpl for NoteIndex {
    open spec fn obeys_partial_cmp_spec() -> bool {
        true
    }

    open spec fn partial_cmp_spec(&self, other: &NoteIndex) -> Option<Ordering> {
        pitch_channel_cmp(self.pitch, self.channel, other.pitch, other.channel)
    }
}

} // verus!
