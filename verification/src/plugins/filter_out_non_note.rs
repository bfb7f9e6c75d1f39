use vstd::prelude::*;
use crate::midi_event::{Event, MidiEvent};

verus! {

/// Note on and note off messages: status bytes 0x80 to 0x9F.
pub open spec fn is_note_event(e: MidiEvent) -> bool {
    0x80 <= e.data@[0] <= 0x9F
}

/// The MIDI events among `events` that carry a note on or a note off, in order.
pub open spec fn note_events(events: Seq<Event>) -> Seq<MidiEvent>
    decreases events.len(),
{
    if events.len() == 0 {
        Seq::empty()
    } else {
        let prev = note_events(events.drop_last());
        match events.last() {
            Event::Midi(e) => if is_note_event(e) {
                prev.push(e)
            } else {
                prev
            },
            _ => prev,
        }
    }
}

/// Lets only note on and note off messages through.
pub struct FilterOutNonNote {
    pub events: Vec<MidiEvent>,
}

impl FilterOutNonNote {
    /// A filter with nothing pending.
    pub fn new() -> (r: FilterOutNonNote)
        ensures
            r.events@.len() == 0,
    {
        FilterOutNonNote { events: Vec::new() }
    }

    /// Keeps the note events of a block, after those already pending.
    pub fn process_events(&mut self, events: &Vec<Event>)
        ensures
            final(self).events@ == old(self).events@ + note_events(events@),
    {
        let ghost start = self.events@;
        let n = events.len();
        let mut i: usize = 0;
        while i < n
            invariant
                n == events@.len(),
                0 <= i <= n,
                start == old(self).events@,
                self.events@ == start + note_events(events@.take(i as int)),
            decreases n - i,
        {
            proof {
                assert(events@.take(i + 1).drop_last() == events@.take(i as int));
                assert(events@.take(i + 1).last() == events@[i as int]);
            }
            match &events[i] {
                Event::Midi(e) => {
                    if e.data[0] >= 0x80 && e.data[0] <= 0x9F {
                        self.events.push(*e);
                    }
                },
                _ => {},
            }
            i = i + 1;
        }
        assert(events@.take(n as int) == events@);
    }

    /// Hands out the pending events, leaving none.
    pub fn take_events(&mut self) -> (r: Vec<MidiEvent>)
        ensures
            r@ == old(self).events@,
            final(self).events@.len() == 0,
    {
        let mut r: Vec<MidiEvent> = Vec::new();
        std::mem::swap(&mut r, &mut self.events);
        r
    }
}

/// Only note events come out of the filter, and every note event of the
/// block does.
pub proof fn lemma_only_notes_pass(events: Seq<Event>)
    ensures
        forall|i: int| 0 <= i < note_events(events).len() ==> is_note_event(#[trigger] note_events(events)[i]),
        forall|i: int|
            0 <= i < events.len() ==> (#[trigger] events[i] matches Event::Midi(e) && is_note_event(e))
                ==> note_events(events).contains(events[i]->Midi_0),
    decreases events.len(),
{
    if events.len() > 0 {
        let d = events.drop_last();
        lemma_only_notes_pass(d);
        assert forall|i: int|
            0 <= i < events.len() && (#[trigger] events[i] matches Event::Midi(e) && is_note_event(e)) implies note_events(
            events,
        ).contains(events[i]->Midi_0) by {
            if i < events.len() - 1 {
                assert(events[i] == d[i]);
                let k = choose|k: int| 0 <= k < note_events(d).len() && note_events(d)[k] == events[i]->Midi_0;
                assert(note_events(events)[k] == events[i]->Midi_0);
            } else {
                assert(note_events(events).last() == events[i]->Midi_0);
            }
        }
    }
}

} // verus!
