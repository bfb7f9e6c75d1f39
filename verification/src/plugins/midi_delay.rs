use vstd::prelude::*;
use crate::midi_event::{Event, MidiEvent};
use crate::raw_message::RawMessage;
use crate::absolute_time_midi_message::AbsoluteTimeMidiMessage;
use crate::absolute_time_midi_message_vector::{
    AbsoluteTimeMidiMessageVector, ordered_inserted, next_after, first_later, lemma_first_later_bounds,
};
use crate::arpegiator::transmission::midi_events_of;
use crate::delayed_message_consumer::{
    MessageReason, raw_process_scheduled_events, raw_events, raw_queued,
};

verus! {

/// Every MIDI event of the block has a non-negative offset and its delayed
/// play time fits.
pub open spec fn delays_fit(events: Seq<Event>, current_time: usize, delay: usize) -> bool {
    forall|i: int|
        0 <= i < events.len() ==> match #[trigger] events[i] {
            Event::Midi(e) => e.delta_frames >= 0 && e.delta_frames + current_time + delay <= usize::MAX,
            _ => true,
        }
}

/// The queue (messages and next identifier) after the MIDI events of a block
/// are queued `delay` samples after they arrive, each with a fresh identifier.
pub open spec fn delayed_queue(
    q: (Seq<AbsoluteTimeMidiMessage>, usize),
    events: Seq<Event>,
    current_time: usize,
    delay: usize,
) -> (Seq<AbsoluteTimeMidiMessage>, usize)
    decreases events.len(),
{
    if events.len() == 0 {
        q
    } else {
        let prev = delayed_queue(q, events.drop_last(), current_time, delay);
        match events.last() {
            Event::Midi(e) => (
                ordered_inserted(
                    prev.0,
                    AbsoluteTimeMidiMessage {
                        data: RawMessage(e.data),
                        id: prev.1,
                        play_time_in_samples: (e.delta_frames + current_time + delay) as usize,
                        reason: MessageReason::PlayUnprocessed,
                    },
                ),
                next_after(prev.1),
            ),
            _ => prev,
        }
    }
}

/// Every MIDI event of a block is queued, whatever its kind: the queue
/// grows by the number of MIDI events, keeps what it held, and holds each
/// MIDI event's bytes at the event's offset plus the current time plus the
/// delay.
pub proof fn lemma_delayed_queue_keeps_every_midi_event(
    q: (Seq<AbsoluteTimeMidiMessage>, usize),
    events: Seq<Event>,
    current_time: usize,
    delay: usize,
)
    ensures
        delayed_queue(q, events, current_time, delay).0.len() == q.0.len() + midi_events_of(events).len(),
        forall|j: int| 0 <= j < q.0.len() ==> delayed_queue(q, events, current_time, delay).0.contains(#[trigger] q.0[j]),
        forall|k: int|
            #![trigger midi_events_of(events)[k]]
            0 <= k < midi_events_of(events).len() ==> exists|i: int|
                0 <= i < delayed_queue(q, events, current_time, delay).0.len() && {
                    let m = #[trigger] delayed_queue(q, events, current_time, delay).0[i];
                    let e = midi_events_of(events)[k];
                    &&& m.data == RawMessage(e.data)
                    &&& m.play_time_in_samples == (e.delta_frames + current_time + delay) as usize
                },
    decreases events.len(),
{
    if events.len() == 0 {
        assert(delayed_queue(q, events, current_time, delay) == q);
        assert forall|j: int| 0 <= j < q.0.len() implies q.0.contains(#[trigger] q.0[j]) by {
            assert(q.0[j] == q.0[j]);
        }
        assert(midi_events_of(events).len() == 0);
    } else {
        let d = events.drop_last();
        lemma_delayed_queue_keeps_every_midi_event(q, d, current_time, delay);
        let prev = delayed_queue(q, d, current_time, delay);
        match events.last() {
            Event::Midi(e) => {
                let me = midi_events_of(events);
                assert(me == midi_events_of(d).push(e));
                let nm = AbsoluteTimeMidiMessage {
                    data: RawMessage(e.data),
                    id: prev.1,
                    play_time_in_samples: (e.delta_frames + current_time + delay) as usize,
                    reason: MessageReason::PlayUnprocessed,
                };
                let p = first_later(prev.0, nm.play_time_in_samples);
                lemma_first_later_bounds(prev.0, nm.play_time_in_samples);
                let r = delayed_queue(q, events, current_time, delay).0;
                assert(r == prev.0.insert(p, nm));
                assert forall|i: int| 0 <= i < prev.0.len() implies #[trigger] prev.0[i] == r[if i < p { i } else { i + 1 }] by {}
                assert forall|j: int| 0 <= j < q.0.len() implies r.contains(#[trigger] q.0[j]) by {
                    assert(prev.0.contains(q.0[j]));
                    let i0 = choose|i: int| 0 <= i < prev.0.len() && prev.0[i] == q.0[j];
                    let i1 = if i0 < p { i0 } else { i0 + 1 };
                    assert(r[i1] == prev.0[i0]);
                }
                assert forall|k: int| #![trigger me[k]] 0 <= k < me.len() implies exists|i: int|
                    0 <= i < r.len() && {
                        let m = #[trigger] r[i];
                        let e2 = me[k];
                        &&& m.data == RawMessage(e2.data)
                        &&& m.play_time_in_samples == (e2.delta_frames + current_time + delay) as usize
                    } by {
                    if k < midi_events_of(d).len() {
                        assert(me[k] == midi_events_of(d)[k]);
                        let i0 = choose|i: int| 0 <= i < prev.0.len() && {
                            let m = #[trigger] prev.0[i];
                            let e2 = midi_events_of(d)[k];
                            &&& m.data == RawMessage(e2.data)
                            &&& m.play_time_in_samples == (e2.delta_frames + current_time + delay) as usize
                        };
                        let i1 = if i0 < p { i0 } else { i0 + 1 };
                        assert(r[i1] == prev.0[i0]);
                    } else {
                        assert(me[k] == e);
                        assert(r[p] == nm);
                    }
                }
            },
            _ => {
                assert(midi_events_of(events) == midi_events_of(d));
                assert(delayed_queue(q, events, current_time, delay) == prev);
            },
        }
    }
}

/// Plays every MIDI message again after a delay.
pub struct MidiDelay {
    pub current_time_in_samples: usize,
    pub message_queue: AbsoluteTimeMidiMessageVector,
}

impl MidiDelay {
    /// A delay with nothing queued, at time zero.
    pub fn new() -> (r: MidiDelay)
        ensures
            r.current_time_in_samples == 0,
            r.message_queue@.len() == 0,
            r.message_queue.next_id == 0,
    {
        MidiDelay { current_time_in_samples: 0, message_queue: AbsoluteTimeMidiMessageVector::default() }
    }

    /// Queues the MIDI events of a block `midi_delay` samples after they arrive.
    pub fn process_events(&mut self, events: &Vec<Event>, midi_delay: usize)
        requires
            delays_fit(events@, old(self).current_time_in_samples, midi_delay),
        ensures
            final(self).current_time_in_samples == old(self).current_time_in_samples,
            (final(self).message_queue@, final(self).message_queue.next_id) == delayed_queue(
                (old(self).message_queue@, old(self).message_queue.next_id),
                events@,
                old(self).current_time_in_samples,
                midi_delay,
            ),
    {
        let ghost q0 = (self.message_queue@, self.message_queue.next_id);
        let ct = self.current_time_in_samples;
        let n = events.len();
        let mut i: usize = 0;
        while i < n
            invariant
                n == events@.len(),
                0 <= i <= n,
                ct == self.current_time_in_samples,
                ct == old(self).current_time_in_samples,
                q0 == (old(self).message_queue@, old(self).message_queue.next_id),
                delays_fit(events@, ct, midi_delay),
                (self.message_queue@, self.message_queue.next_id) == delayed_queue(
                    q0,
                    events@.take(i as int),
                    ct,
                    midi_delay,
                ),
            decreases n - i,
        {
            proof {
                assert(events@.take(i + 1).drop_last() == events@.take(i as int));
                assert(events@.take(i + 1).last() == events@[i as int]);
            }
            match &events[i] {
                Event::Midi(e) => {
                    let time = e.delta_frames as usize + ct + midi_delay;
                    self.message_queue.raw_insert(e.data, time);
                },
                _ => {},
            }
            i = i + 1;
        }
        assert(events@.take(n as int) == events@);
    }

    /// The events due in the block of `samples` samples starting now; later
    /// messages stay queued, past ones are dropped.
    pub fn send_events(&mut self, samples: usize) -> (r: Vec<MidiEvent>)
        requires
            old(self).current_time_in_samples + samples <= usize::MAX,
        ensures
            r@ == raw_events(old(self).message_queue@, old(self).current_time_in_samples, samples),
            final(self).message_queue@ == raw_queued(
                old(self).message_queue@,
                old(self).current_time_in_samples,
                samples,
            ),
            final(self).message_queue.next_id == old(self).message_queue.next_id,
            final(self).current_time_in_samples == old(self).current_time_in_samples,
    {
        let (next_message_queue, events) = raw_process_scheduled_events(
            samples,
            self.current_time_in_samples,
            &self.message_queue,
        );
        self.message_queue = next_message_queue;
        events
    }

    /// Sends the events of a block, then moves time on by its samples.
    pub fn process(&mut self, samples: usize) -> (r: Vec<MidiEvent>)
        requires
            old(self).current_time_in_samples + samples <= usize::MAX,
        ensures
            r@ == raw_events(old(self).message_queue@, old(self).current_time_in_samples, samples),
            final(self).message_queue@ == raw_queued(
                old(self).message_queue@,
                old(self).current_time_in_samples,
                samples,
            ),
            final(self).message_queue.next_id == old(self).message_queue.next_id,
            final(self).current_time_in_samples == old(self).current_time_in_samples + samples,
    {
        let events = self.send_events(samples);
        self.current_time_in_samples = self.current_time_in_samples + samples;
        events
    }
}

} // verus!
