use vstd::prelude::*;
use crate::midi_event::MidiEvent;
use crate::seq_util::{first_index, lemma_first_index_is, lemma_first_index_none, lemma_first_index_some};

verus! {

/// A host event with the absolute time, in samples since the plugin started,
/// at which it plays.
#[derive(Clone, Copy, Debug)]
pub struct AbsoluteTimeEvent {
    pub event: MidiEvent,
    pub play_time_in_samples: usize,
}

/// Events ordered by play time.
pub type AbsoluteTimeEventVector = Vec<AbsoluteTimeEvent>;

pub open spec fn event_later_than(t: usize) -> spec_fn(AbsoluteTimeEvent) -> bool {
    |e: AbsoluteTimeEvent| t < e.play_time_in_samples
}

pub open spec fn event_not_before(t: usize) -> spec_fn(AbsoluteTimeEvent) -> bool {
    |e: AbsoluteTimeEvent| t <= e.play_time_in_samples
}

/// First position at or after `from` whose event satisfies `p`, the length
/// when none does.
pub open spec fn event_position_from(s: Seq<AbsoluteTimeEvent>, from: int, p: spec_fn(AbsoluteTimeEvent) -> bool) -> int {
    match first_index(s.skip(from), p) {
        Some(i) => from + i,
        None => s.len() as int,
    }
}

/// A note on or note off status byte.
pub open spec fn is_note_status(b: u8) -> bool {
    (b & 0xF0u8) == 0x80u8 || (b & 0xF0u8) == 0x90u8
}

/// Two events are about the same note: both are note ons or note offs, on
/// the same channel (low nibble of the status byte) and with the same pitch.
pub open spec fn same_note_event(a: Seq<u8>, b: Seq<u8>) -> bool {
    &&& is_note_status(a[0])
    &&& is_note_status(b[0])
    &&& (a[0] & 0x0Fu8) == (b[0] & 0x0Fu8)
    &&& a[1] == b[1]
}

pub open spec fn events_sorted(s: Seq<AbsoluteTimeEvent>) -> bool {
    forall|i: int, j: int| 0 <= i <= j < s.len() ==> s[i].play_time_in_samples <= s[j].play_time_in_samples
}

/// The events after inserting `e` before the first event played later.
pub open spec fn event_inserted(s: Seq<AbsoluteTimeEvent>, e: AbsoluteTimeEvent) -> Seq<AbsoluteTimeEvent> {
    s.insert(event_position_from(s, 0, event_later_than(e.play_time_in_samples)), e)
}

/// An event moved later by `delay`.
pub open spec fn event_delayed(e: AbsoluteTimeEvent, delay: usize) -> AbsoluteTimeEvent {
    AbsoluteTimeEvent { play_time_in_samples: (e.play_time_in_samples + delay) as usize, ..e }
}

/// Where a delayed note off goes: from its original position (the first
/// event not played before it) up to the first event played after its
/// delayed time. `None` when a note on or off of the same channel and pitch
/// lies in between, which the delayed note off would otherwise cut.
pub open spec fn event_merge_position(s: Seq<AbsoluteTimeEvent>, m: AbsoluteTimeEvent, delay: usize) -> Option<int> {
    let p = event_position_from(s, 0, event_not_before(m.play_time_in_samples));
    let t = (m.play_time_in_samples + delay) as usize;
    let j = event_position_from(s, p, event_later_than(t));
    if exists|k: int| p <= k < j && same_note_event(m.event.data@, #[trigger] s[k].event.data@) {
        None
    } else {
        Some(j)
    }
}

/// One note off merged with its delay.
pub open spec fn event_merge_one(s: Seq<AbsoluteTimeEvent>, m: AbsoluteTimeEvent, delay: usize) -> Seq<AbsoluteTimeEvent> {
    match event_merge_position(s, m, delay) {
        Some(j) => s.insert(j, event_delayed(m, delay)),
        None => s,
    }
}

/// The note offs merged one after the other.
pub open spec fn event_merge_all(s: Seq<AbsoluteTimeEvent>, offs: Seq<AbsoluteTimeEvent>, delay: usize) -> Seq<AbsoluteTimeEvent>
    decreases offs.len(),
{
    if offs.len() == 0 {
        s
    } else {
        event_merge_one(event_merge_all(s, offs.drop_last(), delay), offs.last(), delay)
    }
}

pub proof fn lemma_event_position_from(s: Seq<AbsoluteTimeEvent>, from: int, p: spec_fn(AbsoluteTimeEvent) -> bool)
    requires
        0 <= from <= s.len(),
    ensures
        from <= event_position_from(s, from, p) <= s.len(),
        forall|k: int| from <= k < event_position_from(s, from, p) ==> !p(#[trigger] s[k]),
        event_position_from(s, from, p) < s.len() ==> p(s[event_position_from(s, from, p)]),
{
    let t = s.skip(from);
    lemma_first_index_some(t, p);
    assert forall|k: int| from <= k < event_position_from(s, from, p) implies !p(#[trigger] s[k]) by {
        assert(s[k] == t[k - from]);
    }
}

/// Finds `event_position_from` for a bound on the play time by scanning.
fn scan_events(s: &Vec<AbsoluteTimeEvent>, from: usize, strict: bool, t: usize) -> (r: usize)
    requires
        from <= s@.len(),
    ensures
        strict ==> r == event_position_from(s@, from as int, event_later_than(t)),
        !strict ==> r == event_position_from(s@, from as int, event_not_before(t)),
{
    let n = s.len();
    let mut i = from;
    while i < n
        invariant
            n == s@.len(),
            from <= i <= n,
            strict ==> forall|k: int| from <= k < i ==> !event_later_than(t)(#[trigger] s@[k]),
            !strict ==> forall|k: int| from <= k < i ==> !event_not_before(t)(#[trigger] s@[k]),
        decreases n - i,
    {
        let hit = if strict { t < s[i].play_time_in_samples } else { t <= s[i].play_time_in_samples };
        if hit {
            proof {
                let u = s@.skip(from as int);
                assert(u[i - from] == s@[i as int]);
                if strict {
                    assert forall|k: int| 0 <= k < i - from implies !event_later_than(t)(#[trigger] u[k]) by {
                        assert(u[k] == s@[k + from]);
                    }
                    lemma_first_index_is(u, event_later_than(t), i - from);
                } else {
                    assert forall|k: int| 0 <= k < i - from implies !event_not_before(t)(#[trigger] u[k]) by {
                        assert(u[k] == s@[k + from]);
                    }
                    lemma_first_index_is(u, event_not_before(t), i - from);
                }
            }
            return i;
        }
        i = i + 1;
    }
    proof {
        let u = s@.skip(from as int);
        if strict {
            assert forall|k: int| 0 <= k < u.len() implies !event_later_than(t)(#[trigger] u[k]) by {
                assert(u[k] == s@[k + from]);
            }
            lemma_first_index_none(u, event_later_than(t));
        } else {
            assert forall|k: int| 0 <= k < u.len() implies !event_not_before(t)(#[trigger] u[k]) by {
                assert(u[k] == s@[k + from]);
            }
            lemma_first_index_none(u, event_not_before(t));
        }
    }
    n
}

/// Merges one note off, returned with its delayed time.
fn merge_one_event(s: &mut Vec<AbsoluteTimeEvent>, note_off: AbsoluteTimeEvent, delay: usize) -> (r: AbsoluteTimeEvent)
    requires
        note_off.play_time_in_samples + delay <= usize::MAX,
    ensures
        final(s)@ == event_merge_one(old(s)@, note_off, delay),
        r == event_delayed(note_off, delay),
{
    let ghost s0 = s@;
    let position = scan_events(s, 0, false, note_off.play_time_in_samples);
    proof {
        lemma_event_position_from(s0, 0, event_not_before(note_off.play_time_in_samples));
    }
    let delayed = AbsoluteTimeEvent {
        play_time_in_samples: note_off.play_time_in_samples + delay,
        ..note_off
    };
    let channel = note_off.event.data[0] & 0x0F;
    let pitch = note_off.event.data[1];
    let off_kind = note_off.event.data[0] & 0xF0;
    let off_is_note = off_kind == 0x80 || off_kind == 0x90;
    let n = s.len();
    let mut k = position;
    while k < n && s[k].play_time_in_samples <= delayed.play_time_in_samples
        invariant
            n == s0.len(),
            s@ == s0,
            position <= k <= n,
            delayed == event_delayed(note_off, delay),
            note_off.play_time_in_samples + delay <= usize::MAX,
            channel == note_off.event.data@[0] & 0x0Fu8,
            pitch == note_off.event.data@[1],
            off_is_note == is_note_status(note_off.event.data@[0]),
            position == event_position_from(s0, 0, event_not_before(note_off.play_time_in_samples)),
            forall|j: int| position <= j < k ==> !event_later_than(delayed.play_time_in_samples)(#[trigger] s0[j]),
            forall|j: int|
                position <= j < k ==> !same_note_event(note_off.event.data@, #[trigger] s0[j].event.data@),
        decreases n - k,
    {
        let kind = s[k].event.data[0] & 0xF0;
        if off_is_note && (kind == 0x80 || kind == 0x90) && (s[k].event.data[0] & 0x0F) == channel
            && s[k].event.data[1] == pitch {
            proof {
                let t = delayed.play_time_in_samples;
                let j = event_position_from(s0, position as int, event_later_than(t));
                lemma_event_position_from(s0, position as int, event_later_than(t));
                assert(!event_later_than(t)(s0[k as int]));
                if j <= k {
                    if j < k {
                        assert(!event_later_than(t)(s0[j]));
                    }
                }
                assert(k < j);
                assert(same_note_event(note_off.event.data@, s0[k as int].event.data@));
                assert(exists|kk: int|
                    position <= kk < j && same_note_event(note_off.event.data@, #[trigger] s0[kk].event.data@));
                assert(event_merge_position(s0, note_off, delay) is None);
            }
            return delayed;
        }
        k = k + 1;
    }
    proof {
        let t = delayed.play_time_in_samples;
        let u = s0.skip(position as int);
        if k < n {
            assert forall|j: int| 0 <= j < k - position implies !event_later_than(t)(#[trigger] u[j]) by {
                assert(u[j] == s0[j + position]);
            }
            lemma_first_index_is(u, event_later_than(t), k - position);
        } else {
            assert forall|j: int| 0 <= j < u.len() implies !event_later_than(t)(#[trigger] u[j]) by {
                assert(u[j] == s0[j + position]);
            }
            lemma_first_index_none(u, event_later_than(t));
        }
        assert(event_position_from(s0, position as int, event_later_than(t)) == k);
    }
    if k < n {
        s.insert(k, delayed);
    } else {
        s.push(delayed);
    }
    delayed
}

/// The queue operations of the note off delay on host events.
pub trait AbsoluteTimeEventVectorMethods {
    spec fn events(&self) -> Seq<AbsoluteTimeEvent>;

    /// Inserts after the events played no later than it.
    fn insert_event(&mut self, event: AbsoluteTimeEvent)
        ensures
            final(self).events() == event_inserted(old(self).events(), event),
    ;

    /// Inserts each note off, delayed by `note_off_delay`, after the events
    /// played no later than its delayed time, unless a note on or off of the
    /// same channel and pitch lies between its original and delayed positions;
    /// the note offs themselves are moved to their delayed times.
    fn merge_notes_off(&mut self, notes_off: &mut AbsoluteTimeEventVector, note_off_delay: usize)
        requires
            forall|i: int|
                0 <= i < old(notes_off)@.len() ==> #[trigger] old(notes_off)@[i].play_time_in_samples
                    + note_off_delay <= usize::MAX,
        ensures
            final(self).events() == event_merge_all(old(self).events(), old(notes_off)@, note_off_delay),
            final(notes_off)@ == old(notes_off)@.map_values(|e: AbsoluteTimeEvent| event_delayed(e, note_off_delay)),
    ;
}

impl AbsoluteTimeEventVectorMethods for AbsoluteTimeEventVector {
    open spec fn events(&self) -> Seq<AbsoluteTimeEvent> {
        self@
    }

    fn insert_event(&mut self, event: AbsoluteTimeEvent) {
        let position = scan_events(self, 0, true, event.play_time_in_samples);
        if position < self.len() {
            self.insert(position, event);
        } else {
            self.push(event);
        }
    }

    fn merge_notes_off(&mut self, notes_off: &mut AbsoluteTimeEventVector, note_off_delay: usize) {
        let ghost offs = notes_off@;
        let ghost s0 = self@;
        let n = notes_off.len();
        let mut i: usize = 0;
        while i < n
            invariant
                n == offs.len(),
                n == notes_off@.len(),
                0 <= i <= n,
                forall|k: int|
                    0 <= k < offs.len() ==> #[trigger] offs[k].play_time_in_samples + note_off_delay <= usize::MAX,
                forall|k: int| 0 <= k < i ==> #[trigger] notes_off@[k] == event_delayed(offs[k], note_off_delay),
                forall|k: int| i <= k < n ==> #[trigger] notes_off@[k] == offs[k],
                self@ == event_merge_all(s0, offs.take(i as int), note_off_delay),
            decreases n - i,
        {
            proof {
                assert(offs.take(i + 1).drop_last() == offs.take(i as int));
                assert(offs.take(i + 1).last() == offs[i as int]);
            }
            let note_off = notes_off[i];
            let delayed = merge_one_event(self, note_off, note_off_delay);
            notes_off.set(i, delayed);
            i = i + 1;
        }
        assert(offs.take(n as int) == offs);
        assert(notes_off@ =~= offs.map_values(|e: AbsoluteTimeEvent| event_delayed(e, note_off_delay)));
    }
}

/// Merging a delayed note off keeps an ordered event queue ordered.
pub proof fn lemma_event_merge_one_sorted(s: Seq<AbsoluteTimeEvent>, m: AbsoluteTimeEvent, delay: usize)
    requires
        events_sorted(s),
        m.play_time_in_samples + delay <= usize::MAX,
    ensures
        events_sorted(event_merge_one(s, m, delay)),
{
    let p = event_position_from(s, 0, event_not_before(m.play_time_in_samples));
    lemma_event_position_from(s, 0, event_not_before(m.play_time_in_samples));
    let t = (m.play_time_in_samples + delay) as usize;
    lemma_event_position_from(s, p, event_later_than(t));
    match event_merge_position(s, m, delay) {
        Some(j) => {
            let r = s.insert(j, event_delayed(m, delay));
            assert forall|k: int| 0 <= k < j implies s[k].play_time_in_samples <= t by {
                if k < p {
                    assert(!event_not_before(m.play_time_in_samples)(s[k]));
                } else {
                    assert(!event_later_than(t)(s[k]));
                }
            }
            assert forall|k: int| j <= k < s.len() implies t < s[k].play_time_in_samples by {
                assert(event_later_than(t)(s[j]));
            }
            assert forall|a: int, b: int| 0 <= a <= b < r.len() implies r[a].play_time_in_samples
                <= r[b].play_time_in_samples by {
                if a < j && b < j {
                } else if a < j && b == j {
                } else if a < j {
                    assert(r[b] == s[b - 1]);
                } else if a == j && b == j {
                } else if a == j {
                    assert(r[b] == s[b - 1]);
                } else {
                    assert(r[a] == s[a - 1]);
                    assert(r[b] == s[b - 1]);
                }
            }
        },
        None => {},
    }
}

/// Merging delayed note offs into an ordered event queue keeps it ordered.
pub proof fn lemma_event_merge_all_sorted(s: Seq<AbsoluteTimeEvent>, offs: Seq<AbsoluteTimeEvent>, delay: usize)
    requires
        events_sorted(s),
        forall|i: int| 0 <= i < offs.len() ==> #[trigger] offs[i].play_time_in_samples + delay <= usize::MAX,
    ensures
        events_sorted(event_merge_all(s, offs, delay)),
    decreases offs.len(),
{
    if offs.len() > 0 {
        let t = offs.drop_last();
        assert forall|i: int| 0 <= i < t.len() implies #[trigger] t[i].play_time_in_samples + delay <= usize::MAX by {
            assert(t[i] == offs[i]);
        }
        lemma_event_merge_all_sorted(s, t, delay);
        lemma_event_merge_one_sorted(event_merge_all(s, t, delay), offs.last(), delay);
    }
}

/// Inserting an event keeps an ordered event queue ordered, and adds just
/// that event.
pub proof fn lemma_event_inserted_sorted(s: Seq<AbsoluteTimeEvent>, e: AbsoluteTimeEvent)
    requires
        events_sorted(s),
    ensures
        events_sorted(event_inserted(s, e)),
        event_inserted(s, e).to_multiset() == s.to_multiset().insert(e),
{
    let t = e.play_time_in_samples;
    let j = event_position_from(s, 0, event_later_than(t));
    lemma_event_position_from(s, 0, event_later_than(t));
    let r = s.insert(j, e);
    assert forall|k: int| 0 <= k < j implies s[k].play_time_in_samples <= t by {
        assert(!event_later_than(t)(s[k]));
    }
    assert forall|k: int| j <= k < s.len() implies t < s[k].play_time_in_samples by {
        assert(event_later_than(t)(s[j]));
    }
    assert forall|a: int, b: int| 0 <= a <= b < r.len() implies r[a].play_time_in_samples
        <= r[b].play_time_in_samples by {
        if a < j && b < j {
        } else if a < j && b == j {
        } else if a < j {
            assert(r[b] == s[b - 1]);
        } else if a == j && b == j {
        } else if a == j {
            assert(r[b] == s[b - 1]);
        } else {
            assert(r[a] == s[a - 1]);
            assert(r[b] == s[b - 1]);
        }
    }
    vstd::seq_lib::to_multiset_insert(s, j, e);
}

} // verus!
