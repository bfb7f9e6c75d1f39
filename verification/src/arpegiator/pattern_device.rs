use vstd::prelude::*;
use crate::messages::CC;
use crate::arpegiator::device::{DeviceChange, Expression};
use crate::arpegiator::pattern::{Pattern, pattern_of};
use crate::arpegiator::timed_event::TimedEvent;
use crate::seq_util::{first_index, lemma_first_index_is, lemma_first_index_none, lemma_first_index_some};

verus! {

/// The patterns currently held, each under the identifier of the note that
/// started it, in the order they arrived.
pub struct PatternDevice {
    patterns: Vec<(usize, Pattern)>,
}

/// What a device change did to the patterns.
pub enum PatternDeviceChange {
    AddPattern { time: usize, pattern: Pattern },
    PatternExpressionChange { time: usize, expression: Expression, pattern: Pattern },
    RemovePattern { time: usize, pattern: Pattern },
    ReplacePattern { time: usize, old_pattern: Pattern, new_pattern: Pattern },
    CC { cc: CC, time: usize },
    Unchanged { time: usize },
}

pub open spec fn pattern_key(id: usize) -> spec_fn((usize, Pattern)) -> bool {
    |e: (usize, Pattern)| e.0 == id
}

/// Stores `p` under `id`: in place when the identifier is held, at the end otherwise.
pub open spec fn patterns_insert(s: Seq<(usize, Pattern)>, id: usize, p: Pattern) -> Seq<(usize, Pattern)> {
    match first_index(s, pattern_key(id)) {
        Some(i) => s.update(i, (id, p)),
        None => s.push((id, p)),
    }
}

/// Identifiers are unique.
pub open spec fn patterns_wf(s: Seq<(usize, Pattern)>) -> bool {
    forall|i: int, j: int| 0 <= i < j < s.len() ==> (#[trigger] s[i]).0 != (#[trigger] s[j]).0
}

/// Added notes become patterns, replaced notes replace their pattern,
/// released notes release theirs (with the release time and velocity),
/// expression changes are copied onto the pattern; controller changes pass
/// through.
pub open spec fn pattern_step(s: Seq<(usize, Pattern)>, change: DeviceChange) -> (
    Seq<(usize, Pattern)>,
    PatternDeviceChange,
) {
    match change {
        DeviceChange::AddNote { time, note } => {
            let p = pattern_of(note);
            match first_index(s, pattern_key(note.id)) {
                Some(i) => (
                    patterns_insert(s, note.id, p),
                    PatternDeviceChange::ReplacePattern { time, old_pattern: s[i].1, new_pattern: p },
                ),
                None => (patterns_insert(s, note.id, p), PatternDeviceChange::AddPattern { time, pattern: p }),
            }
        },
        DeviceChange::RemoveNote { time, note } => match first_index(s, pattern_key(note.id)) {
            Some(i) => (
                s.remove(i),
                PatternDeviceChange::RemovePattern {
                    time,
                    pattern: Pattern { velocity_off: note.velocity_off, released_at: note.released_at, ..s[i].1 },
                },
            ),
            None => (s, PatternDeviceChange::Unchanged { time }),
        },
        DeviceChange::NoteExpressionChange { time, expression, note } => match first_index(
            s,
            pattern_key(note.id),
        ) {
            Some(i) => {
                let p = Pattern { pressure: note.pressure, timbre: note.timbre, pitchbend: note.pitchbend, ..s[i].1 };
                (s.update(i, (note.id, p)), PatternDeviceChange::PatternExpressionChange { time, expression, pattern: p })
            },
            None => (s, PatternDeviceChange::Unchanged { time }),
        },
        DeviceChange::ReplaceNote { time, old_note, new_note } => {
            let p = pattern_of(new_note);
            match first_index(s, pattern_key(new_note.id)) {
                Some(i) => (
                    patterns_insert(s, new_note.id, p),
                    PatternDeviceChange::ReplacePattern { time, old_pattern: s[i].1, new_pattern: p },
                ),
                None => (patterns_insert(s, new_note.id, p), PatternDeviceChange::Unchanged { time }),
            }
        },
        DeviceChange::CCChange { time, cc } => (s, PatternDeviceChange::CC { cc, time }),
        DeviceChange::Unchanged { time } => (s, PatternDeviceChange::Unchanged { time }),
    }
}

/// The pattern device follows changes in order, collecting its own.
pub open spec fn follow_changes(ps: Seq<(usize, Pattern)>, cs: Seq<DeviceChange>) -> (
    Seq<(usize, Pattern)>,
    Seq<PatternDeviceChange>,
)
    decreases cs.len(),
{
    if cs.len() == 0 {
        (ps, Seq::empty())
    } else {
        let r = follow_changes(ps, cs.drop_last());
        let s = pattern_step(r.0, cs.last());
        (s.0, r.1.push(s.1))
    }
}

/// The patterns of rank `index`, in the order they are held.
pub open spec fn patterns_at(s: Seq<(usize, Pattern)>, index: u8) -> Seq<Pattern> {
    s.map_values(|e: (usize, Pattern)| e.1).filter(|p: Pattern| p.index == index)
}

impl PatternDevice {
    pub closed spec fn patterns(&self) -> Seq<(usize, Pattern)> {
        self.patterns@
    }

    pub closed spec fn wf(&self) -> bool {
        patterns_wf(self.patterns@)
    }

    /// A device holding no pattern.
    pub fn new() -> (r: PatternDevice)
        ensures
            r.wf(),
            r.patterns().len() == 0,
    {
        PatternDevice { patterns: Vec::new() }
    }

    fn find(&self, id: usize) -> (r: Option<usize>)
        ensures
            match first_index(self.patterns@, pattern_key(id)) {
                Some(i) => r is Some && r->0 == i,
                None => r is None,
            },
    {
        let n = self.patterns.len();
        let mut i: usize = 0;
        while i < n
            invariant
                n == self.patterns@.len(),
                0 <= i <= n,
                forall|j: int| 0 <= j < i ==> !(#[trigger] pattern_key(id)(self.patterns@[j])),
            decreases n - i,
        {
            if self.patterns[i].0 == id {
                proof {
                    lemma_first_index_is(self.patterns@, pattern_key(id), i as int);
                }
                return Some(i);
            }
            i = i + 1;
        }
        proof {
            lemma_first_index_none(self.patterns@, pattern_key(id));
        }
        None
    }

    /// Stores a pattern and returns the one it replaced.
    fn insert(&mut self, id: usize, p: Pattern) -> (r: Option<Pattern>)
        requires
            old(self).wf(),
        ensures
            final(self).wf(),
            final(self).patterns@ == patterns_insert(old(self).patterns@, id, p),
            match first_index(old(self).patterns@, pattern_key(id)) {
                Some(i) => r == Some(old(self).patterns@[i].1),
                None => r is None,
            },
    {
        match self.find(id) {
            Some(i) => {
                let old_pattern = self.patterns[i].1;
                self.patterns.set(i, (id, p));
                Some(old_pattern)
            },
            None => {
                proof {
                    lemma_first_index_some(self.patterns@, pattern_key(id));
                }
                self.patterns.push((id, p));
                None
            },
        }
    }

    /// Follows a change of the pattern input device.
    pub fn update(&mut self, change: DeviceChange) -> (r: PatternDeviceChange)
        requires
            old(self).wf(),
        ensures
            final(self).wf(),
            (final(self).patterns(), r) == pattern_step(old(self).patterns(), change),
    {
        match change {
            DeviceChange::AddNote { time, note } => {
                let new_pattern = Pattern::from(note);
                match self.insert(note.id, new_pattern) {
                    None => PatternDeviceChange::AddPattern { time, pattern: new_pattern },
                    Some(old_pattern) => PatternDeviceChange::ReplacePattern { time, old_pattern, new_pattern },
                }
            },
            DeviceChange::RemoveNote { time, note } => {
                match self.find(note.id) {
                    None => PatternDeviceChange::Unchanged { time },
                    Some(i) => {
                        let ghost s = self.patterns@;
                        let mut pattern = self.patterns[i].1;
                        self.patterns.remove(i);
                        proof {
                            assert forall|a: int, b: int| 0 <= a < b < self.patterns@.len() implies (
                            #[trigger] self.patterns@[a]).0 != (#[trigger] self.patterns@[b]).0 by {
                                let a2 = if a < i { a } else { a + 1 };
                                let b2 = if b < i { b } else { b + 1 };
                                assert(self.patterns@[a] == s[a2]);
                                assert(self.patterns@[b] == s[b2]);
                            }
                        }
                        pattern.velocity_off = note.velocity_off;
                        pattern.released_at = note.released_at;
                        PatternDeviceChange::RemovePattern { time, pattern }
                    },
                }
            },
            DeviceChange::NoteExpressionChange { time, expression, note } => {
                match self.find(note.id) {
                    None => PatternDeviceChange::Unchanged { time },
                    Some(i) => {
                        let mut pattern = self.patterns[i].1;
                        pattern.pressure = note.pressure;
                        pattern.timbre = note.timbre;
                        pattern.pitchbend = note.pitchbend;
                        self.patterns.set(i, (note.id, pattern));
                        PatternDeviceChange::PatternExpressionChange { time, expression, pattern }
                    },
                }
            },
            DeviceChange::ReplaceNote { time, old_note, new_note } => {
                let new_pattern = Pattern::from(new_note);
                match self.insert(new_pattern.id, new_pattern) {
                    None => PatternDeviceChange::Unchanged { time },
                    Some(old_pattern) => PatternDeviceChange::ReplacePattern { time, old_pattern, new_pattern },
                }
            },
            DeviceChange::CCChange { time, cc } => PatternDeviceChange::CC { cc, time },
            DeviceChange::Unchanged { time } => PatternDeviceChange::Unchanged { time },
        }
    }

    /// Follows the changes of the pattern input in order, returning its own.
    pub fn follow(&mut self, changes: Vec<DeviceChange>) -> (r: Vec<PatternDeviceChange>)
        requires
            old(self).wf(),
        ensures
            final(self).wf(),
            (final(self).patterns(), r@) == follow_changes(old(self).patterns(), changes@),
    {
        let ghost orig = changes@;
        let ghost ps0 = self.patterns();
        let total = changes.len();
        let mut rest = changes;
        let mut out: Vec<PatternDeviceChange> = Vec::new();
        let mut k: usize = 0;
        while rest.len() > 0
            invariant
                0 <= k <= orig.len(),
                orig.len() == total,
                rest@ == orig.skip(k as int),
                self.wf(),
                (self.patterns(), out@) == follow_changes(ps0, orig.take(k as int)),
            decreases rest.len(),
        {
            assert(k < orig.len());
            let c = rest.remove(0);
            proof {
                assert(orig.take(k + 1).drop_last() == orig.take(k as int));
                assert(orig.take(k + 1).last() == c);
            }
            let pc = self.update(c);
            out.push(pc);
            k = k + 1;
            proof {
                assert(rest@ == orig.skip(k as int));
            }
        }
        assert(orig.take(k as int) == orig);
        out
    }

    /// The patterns of rank `index`.
    pub fn at(&self, index: u8) -> (r: Vec<Pattern>)
        ensures
            r@ == patterns_at(self.patterns(), index),
    {
        let mut r: Vec<Pattern> = Vec::new();
        let n = self.patterns.len();
        let mut i: usize = 0;
        while i < n
            invariant
                n == self.patterns@.len(),
                0 <= i <= n,
                r@ == patterns_at(self.patterns@.take(i as int), index),
            decreases n - i,
        {
            let ghost before = self.patterns@.take(i as int);
            let p = self.patterns[i].1;
            proof {
                let f = |e: (usize, Pattern)| e.1;
                assert(self.patterns@.take(i + 1) == before.push(self.patterns@[i as int]));
                assert(self.patterns@.take(i + 1).map_values(f) == before.map_values(f).push(p));
                before.map_values(f).lemma_filter_push(p, |q: Pattern| q.index == index);
            }
            if p.index == index {
                r.push(p);
            }
            i = i + 1;
        }
        assert(self.patterns@.take(n as int) == self.patterns@);
        r
    }
}

impl Default for PatternDevice {
    /// A device holding no pattern.
    fn default() -> (r: PatternDevice)
        ensures
            r.wf(),
            r.patterns().len() == 0,
    {
        PatternDevice::new()
    }
}

/// When a pattern change happened.
pub open spec fn pattern_change_time(c: PatternDeviceChange) -> usize {
    match c {
        PatternDeviceChange::AddPattern { time, .. } => time,
        PatternDeviceChange::PatternExpressionChange { time, .. } => time,
        PatternDeviceChange::RemovePattern { time, .. } => time,
        PatternDeviceChange::ReplacePattern { time, .. } => time,
        PatternDeviceChange::CC { time, .. } => time,
        PatternDeviceChange::Unchanged { time } => time,
    }
}

/// The pattern's identifier (the new pattern's for a replacement), zero when
/// no pattern is involved.
pub open spec fn pattern_change_id(c: PatternDeviceChange) -> usize {
    match c {
        PatternDeviceChange::AddPattern { pattern, .. } => pattern.id,
        PatternDeviceChange::PatternExpressionChange { pattern, .. } => pattern.id,
        PatternDeviceChange::RemovePattern { pattern, .. } => pattern.id,
        PatternDeviceChange::ReplacePattern { new_pattern, .. } => new_pattern.id,
        PatternDeviceChange::CC { .. } => 0,
        PatternDeviceChange::Unchanged { .. } => 0,
    }
}

impl TimedEvent for PatternDeviceChange {
    open spec fn time_of(&self) -> usize {
        pattern_change_time(*self)
    }

    open spec fn id_of(&self) -> usize {
        pattern_change_id(*self)
    }

    fn timestamp(&self) -> (r: usize) {
        match self {
            PatternDeviceChange::AddPattern { time, .. } => *time,
            PatternDeviceChange::PatternExpressionChange { time, .. } => *time,
            PatternDeviceChange::RemovePattern { time, .. } => *time,
            PatternDeviceChange::ReplacePattern { time, .. } => *time,
            PatternDeviceChange::CC { time, .. } => *time,
            PatternDeviceChange::Unchanged { time } => *time,
        }
    }

    fn id(&self) -> (r: usize) {
        match self {
            PatternDeviceChange::AddPattern { pattern, .. } => pattern.id,
            PatternDeviceChange::PatternExpressionChange { pattern, .. } => pattern.id,
            PatternDeviceChange::RemovePattern { pattern, .. } => pattern.id,
            PatternDeviceChange::ReplacePattern { new_pattern, .. } => new_pattern.id,
            PatternDeviceChange::CC { .. } => 0,
            PatternDeviceChange::Unchanged { .. } => 0,
        }
    }
}

} // verus!
