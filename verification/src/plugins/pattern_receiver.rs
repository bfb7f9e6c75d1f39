use vstd::prelude::*;
use crate::midi_event::Event;
use crate::raw_message::RawMessage;
use crate::midi_message_with_delta::MidiMessageWithDelta;
use crate::commands::PatternPayload;
use crate::arpegiator::transmission::midi_events_of;

verus! {

/// The MIDI events of a block as messages with their offsets (truncated to
/// 16 bits), in order; other events are left out.
pub open spec fn midi_messages(events: Seq<Event>) -> Seq<MidiMessageWithDelta>
    decreases events.len(),
{
    if events.len() == 0 {
        Seq::empty()
    } else {
        let prev = midi_messages(events.drop_last());
        match events.last() {
            Event::Midi(e) => prev.push(
                MidiMessageWithDelta { delta_frames: e.delta_frames as u16, data: RawMessage(e.data) },
            ),
            _ => prev,
        }
    }
}

/// One message per MIDI event of the block, in order, whatever the
/// message: the k-th message carries the bytes of the k-th MIDI event and
/// its offset (truncated to 16 bits); only events that are not MIDI are
/// left out.
pub proof fn lemma_midi_messages_keep_every_midi_event(events: Seq<Event>)
    ensures
        midi_messages(events).len() == midi_events_of(events).len(),
        forall|k: int|
            0 <= k < midi_events_of(events).len() ==> (#[trigger] midi_messages(events)[k]).data == RawMessage(
                midi_events_of(events)[k].data,
            ) && midi_messages(events)[k].delta_frames == midi_events_of(events)[k].delta_frames as u16,
    decreases events.len(),
{
    if events.len() > 0 {
        let d = events.drop_last();
        lemma_midi_messages_keep_every_midi_event(d);
        match events.last() {
            Event::Midi(e) => {
                assert(midi_events_of(events) == midi_events_of(d).push(e));
                let r = midi_messages(events);
                assert forall|k: int| 0 <= k < midi_events_of(events).len() implies (#[trigger] r[k]).data
                    == RawMessage(midi_events_of(events)[k].data) && r[k].delta_frames
                    == midi_events_of(events)[k].delta_frames as u16 by {
                    if k < midi_events_of(d).len() {
                        assert(r[k] == midi_messages(d)[k]);
                        assert(midi_events_of(events)[k] == midi_events_of(d)[k]);
                    }
                }
            },
            _ => {
                assert(midi_events_of(events) == midi_events_of(d));
            },
        }
    }
}

/// Collects the patterns played on its input, to hand them to the
/// arpeggiator one block at a time.
pub struct PatternReceiver {
    pub messages: Vec<MidiMessageWithDelta>,
    pub current_time: usize,
}

impl PatternReceiver {
    /// Nothing collected, time at zero.
    pub fn new() -> (r: PatternReceiver)
        ensures
            r.messages@.len() == 0,
            r.current_time == 0,
    {
        PatternReceiver { messages: Vec::new(), current_time: 0 }
    }

    /// Collects the MIDI events of a block.
    pub fn process_events(&mut self, events: &Vec<Event>)
        ensures
            final(self).messages@ == old(self).messages@ + midi_messages(events@),
            final(self).current_time == old(self).current_time,
    {
        let ghost start = self.messages@;
        let n = events.len();
        let mut i: usize = 0;
        while i < n
            invariant
                n == events@.len(),
                0 <= i <= n,
                start == old(self).messages@,
                self.current_time == old(self).current_time,
                self.messages@ == start + midi_messages(events@.take(i as int)),
            decreases n - i,
        {
            proof {
                assert(events@.take(i + 1).drop_last() == events@.take(i as int));
                assert(events@.take(i + 1).last() == events@[i as int]);
            }
            match &events[i] {
                Event::Midi(e) => {
                    self.messages.push(MidiMessageWithDelta { delta_frames: e.delta_frames as u16, data: RawMessage(e.data) });
                },
                _ => {},
            }
            i = i + 1;
        }
        assert(events@.take(n as int) == events@);
    }

    /// Ends a block of `samples` samples: the collected messages, if any,
    /// leave as one payload stamped `time`; time moves on.
    pub fn process(&mut self, samples: usize, time: usize) -> (r: Option<PatternPayload>)
        requires
            old(self).current_time + samples <= usize::MAX,
        ensures
            final(self).current_time == old(self).current_time + samples,
            final(self).messages@.len() == 0,
            old(self).messages@.len() == 0 ==> r is None,
            old(self).messages@.len() > 0 ==> (r matches Some(p) && p.time == time && p.messages@ == old(self).messages@),
    {
        let r = if self.messages.len() > 0 {
            let mut messages: Vec<MidiMessageWithDelta> = Vec::new();
            std::mem::swap(&mut messages, &mut self.messages);
            Some(PatternPayload { time, messages })
        } else {
            None
        };
        self.current_time = self.current_time + samples;
        r
    }
}

} // verus!
