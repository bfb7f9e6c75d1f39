use vstd::prelude::*;
use vstd::std_specs::cmp::{PartialEqSpecImpl, PartialOrdSpecImpl};
use core::cmp::Ordering;
use crate::arpegiator::device::{DeviceChange, change_time, change_id};
use crate::arpegiator::pattern_device::{PatternDeviceChange, pattern_change_time, pattern_change_id};
use crate::arpegiator::timed_event::TimedEvent;

verus! {

/// A change of either input device of the arpeggiator.
pub enum SourceChange {
    NoteChange(DeviceChange),
    PatternChange(PatternDeviceChange),
}

/// Orders (time, identifier) pairs lexicographically.
pub open spec fn time_id_order(t1: usize, i1: usize, t2: usize, i2: usize) -> Option<Ordering> {
    if t1 < t2 {
        Some(Ordering::Less)
    } else if t1 > t2 {
        Some(Ordering::Greater)
    } else if i1 < i2 {
        Some(Ordering::Less)
    } else if i1 > i2 {
        Some(Ordering::Greater)
    } else {
        Some(Ordering::Equal)
    }
}

fn order_by_time_then_id(t1: usize, i1: usize, t2: usize, i2: usize) -> (r: Option<Ordering>)
    ensures
        r == time_id_order(t1, i1, t2, i2),
{
    if t1 < t2 {
        Some(Ordering::Less)
    } else if t1 > t2 {
        Some(Ordering::Greater)
    } else if i1 < i2 {
        Some(Ordering::Less)
    } else if i1 > i2 {
        Some(Ordering::Greater)
    } else {
        Some(Ordering::Equal)
    }
}

/// Device changes are equal when their identifiers are.
impl PartialEq for DeviceChange {
    fn eq(&self, other: &Self) -> (r: bool) {
        self.id() == other.id()
    }
}

impl PartialEqSpecImpl for DeviceChange {
    open spec fn obeys_eq_spec() -> bool {
        true
    }

    open spec fn eq_spec(&self, other: &DeviceChange) -> bool {
        change_id(*self) == change_id(*other)
    }
}

/// Device changes are ordered by time, then by identifier.
impl PartialOrd for DeviceChange {
    fn partial_cmp(&self, other: &Self) -> (r: Option<Ordering>) {
        order_by_time_then_id(self.timestamp(), self.id(), other.timestamp(), other.id())
    }
}

impl PartialOrdSpecImpl for DeviceChange {
    open spec fn obeys_partial_cmp_spec() -> bool {
        true
    }

    open spec fn partial_cmp_spec(&self, other: &DeviceChange) -> Option<Ordering> {
        time_id_order(change_time(*self), change_id(*self), change_time(*other), change_id(*other))
    }
}

/// Pattern changes are equal when their identifiers are.
impl PartialEq for PatternDeviceChange {
    fn eq(&self, other: &Self) -> (r: bool) {
        self.id() == other.id()
    }
}

impl PartialEqSpecImpl for PatternDeviceChange {
    open spec fn obeys_eq_spec() -> bool {
        true
    }

    open spec fn eq_spec(&self, other: &PatternDeviceChange) -> bool {
        pattern_change_id(*self) == pattern_change_id(*other)
    }
}

/// Pattern changes are ordered by time, then by identifier.
impl PartialOrd for PatternDeviceChange {
    fn partial_cmp(&self, other: &Self) -> (r: Option<Ordering>) {
        order_by_time_then_id(self.timestamp(), self.id(), other.timestamp(), other.id())
    }
}

impl PartialOrdSpecImpl for PatternDeviceChange {
    open spec fn obeys_partial_cmp_spec() -> bool {
        true
    }

    open spec fn partial_cmp_spec(&self, other: &PatternDeviceChange) -> Option<Ordering> {
        time_id_order(
            pattern_change_time(*self),
            pattern_change_id(*self),
            pattern_change_time(*other),
            pattern_change_id(*other),
        )
    }
}

/// The time of a source change.
pub open spec fn source_time(c: SourceChange) -> usize {
    match c {
        SourceChange::NoteChange(n) => change_time(n),
        SourceChange::PatternChange(p) => pattern_change_time(p),
    }
}

/// The identifier of a source change.
pub open spec fn source_id(c: SourceChange) -> usize {
    match c {
        SourceChange::NoteChange(n) => change_id(n),
        SourceChange::PatternChange(p) => pattern_change_id(p),
    }
}

/// Changes are ordered by time; at the same time a note change comes
/// before a pattern change, so that a pattern starts on the note meant for
/// it; changes of one kind and time are ordered by identifier.
pub open spec fn source_order(a: SourceChange, b: SourceChange) -> Option<Ordering> {
    match (a, b) {
        (SourceChange::PatternChange(p), SourceChange::PatternChange(q)) => time_id_order(
            pattern_change_time(p),
            pattern_change_id(p),
            pattern_change_time(q),
            pattern_change_id(q),
        ),
        (SourceChange::PatternChange(p), SourceChange::NoteChange(n)) => if pattern_change_time(p) < change_time(
            n,
        ) {
            Some(Ordering::Less)
        } else {
            Some(Ordering::Greater)
        },
        (SourceChange::NoteChange(n), SourceChange::PatternChange(p)) => if pattern_change_time(p) < change_time(
            n,
        ) {
            Some(Ordering::Greater)
        } else {
            Some(Ordering::Less)
        },
        (SourceChange::NoteChange(n), SourceChange::NoteChange(m)) => time_id_order(
            change_time(n),
            change_id(n),
            change_time(m),
            change_id(m),
        ),
    }
}

/// Two source changes are equal when they are of the same kind with the
/// same identifier.
pub open spec fn source_eq(a: SourceChange, b: SourceChange) -> bool {
    match (a, b) {
        (SourceChange::PatternChange(p), SourceChange::PatternChange(q)) => pattern_change_id(p)
            == pattern_change_id(q),
        (SourceChange::NoteChange(n), SourceChange::NoteChange(m)) => change_id(n) == change_id(m),
        _ => false,
    }
}

impl PartialOrd for SourceChange {
    fn partial_cmp(&self, other: &Self) -> (r: Option<Ordering>) {
        match self {
            SourceChange::PatternChange(pattern) => match other {
                SourceChange::PatternChange(other_pattern) => pattern.partial_cmp(other_pattern),
                SourceChange::NoteChange(note) => if pattern.timestamp() < note.timestamp() {
                    Some(Ordering::Less)
                } else {
                    Some(Ordering::Greater)
                },
            },
            SourceChange::NoteChange(note) => match other {
                SourceChange::PatternChange(pattern) => if pattern.timestamp() < note.timestamp() {
                    Some(Ordering::Greater)
                } else {
                    Some(Ordering::Less)
                },
                SourceChange::NoteChange(other_note) => note.partial_cmp(other_note),
            },
        }
    }
}

impl PartialOrdSpecImpl for SourceChange {
    open spec fn obeys_partial_cmp_spec() -> bool {
        true
    }

    open spec fn partial_cmp_spec(&self, other: &SourceChange) -> Option<Ordering> {
        source_order(*self, *other)
    }
}

impl PartialEq for SourceChange {
    fn eq(&self, other: &Self) -> (r: bool) {
        match self {
            SourceChange::PatternChange(pattern) => match other {
                SourceChange::PatternChange(other_pattern) => pattern.eq(other_pattern),
                SourceChange::NoteChange(_) => false,
            },
            SourceChange::NoteChange(note) => match other {
                SourceChange::PatternChange(_) => false,
                SourceChange::NoteChange(other_note) => note.eq(other_note),
            },
        }
    }
}

impl PartialEqSpecImpl for SourceChange {
    open spec fn obeys_eq_spec() -> bool {
        true
    }

    open spec fn eq_spec(&self, other: &SourceChange) -> bool {
        source_eq(*self, *other)
    }
}

impl TimedEvent for SourceChange {
    open spec fn time_of(&self) -> usize {
        source_time(*self)
    }

    open spec fn id_of(&self) -> usize {
        source_id(*self)
    }

    fn timestamp(&self) -> (r: usize) {
        match self {
            SourceChange::NoteChange(note) => note.timestamp(),
            SourceChange::PatternChange(pattern) => pattern.timestamp(),
        }
    }

    fn id(&self) -> (r: usize) {
        match self {
            SourceChange::NoteChange(note) => note.id(),
            SourceChange::PatternChange(pattern) => pattern.id(),
        }
    }
}

} // verus!
