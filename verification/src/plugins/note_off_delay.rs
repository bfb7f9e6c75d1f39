use vstd::prelude::*;
use crate::midi_event::MidiEvent;
use crate::messages::decodable;
use crate::midi_message_type::{MidiMessageType, status_kind, is_note_off_bytes, channel_of};
use crate::absolute_time_midi_message_vector::{
    AbsoluteTimeMidiMessageVector, all_decodable, message_inserted, last_matching_note_on,
    lemma_last_matching_after_insert, lemma_last_matching_note_on, lemma_first_later_bounds, first_later,
};
use crate::delayed_message_consumer::{
    MessageReason, MaxNotesParameter, SchedulerConfig, process_scheduled_events, process_all_spec, empty_model,
    requeue_all,
};

verus! {

/// Messages the plugin drops: those whose first byte is not a status byte.
pub open spec fn is_unsupported(b: Seq<u8>) -> bool {
    let k = status_kind(b);
    k != 0x80u8 && k != 0x90u8 && k != 0xB0u8 && k != 0xD0u8 && k != 0xE0u8 && k != 0xA0u8 && k != 0xC0u8
        && k != 0xF0u8
}

/// The play time of a received event.
pub open spec fn arrival(e: MidiEvent, current_time: usize) -> usize {
    (e.delta_frames + current_time) as usize
}

/// A received event can be queued: it decodes, its offset is not negative
/// and its play time fits; a note off to delay does not come before the
/// note on it ends.
pub open spec fn receive_ok(q: Seq<crate::absolute_time_midi_message::AbsoluteTimeMidiMessage>, e: MidiEvent, current_time: usize, delay_active: bool) -> bool {
    &&& decodable(e.data@)
    &&& e.delta_frames >= 0
    &&& e.delta_frames + current_time <= usize::MAX
    &&& (is_note_off_bytes(e.data@) && delay_active) ==> match last_matching_note_on(
        q,
        channel_of(e.data@),
        e.data@[1],
    ) {
        Some(i) => q[i].play_time_in_samples <= arrival(e, current_time),
        None => true,
    }
}

/// Delays note offs: each note off is queued as it comes, and, when the
/// delay is on, once more later so that its note lasts longer.
pub struct NoteOffDelay {
    pub current_time_in_samples: usize,
    pub message_queue: AbsoluteTimeMidiMessageVector,
}

impl NoteOffDelay {
    /// A plugin with nothing queued, at time zero.
    pub fn new() -> (r: NoteOffDelay)
        ensures
            r.current_time_in_samples == 0,
            r.message_queue@.len() == 0,
            r.message_queue.next_id == 0,
    {
        NoteOffDelay { current_time_in_samples: 0, message_queue: AbsoluteTimeMidiMessageVector::default() }
    }

    /// Queues a received event (live). For a note off with the delay on,
    /// returns the play time of the note on it ends and the note's duration,
    /// from which the caller schedules the delayed note off.
    pub fn receive(&mut self, event: &MidiEvent, delay_active: bool) -> (r: Option<(usize, usize)>)
        requires
            all_decodable(old(self).message_queue@),
            receive_ok(old(self).message_queue@, *event, old(self).current_time_in_samples, delay_active),
        ensures
            all_decodable(final(self).message_queue@),
            final(self).current_time_in_samples == old(self).current_time_in_samples,
            ({
                let q = old(self).message_queue@;
                let t = arrival(*event, old(self).current_time_in_samples);
                if is_unsupported(event.data@) {
                    &&& final(self).message_queue@ == q
                    &&& final(self).message_queue.next_id == old(self).message_queue.next_id
                    &&& r is None
                } else {
                    &&& (final(self).message_queue@, final(self).message_queue.next_id) == message_inserted(
                        (q, old(self).message_queue.next_id),
                        event.data,
                        t,
                        MessageReason::Live,
                    )
                    &&& r == if is_note_off_bytes(event.data@) && delay_active {
                        match last_matching_note_on(q, channel_of(event.data@), event.data@[1]) {
                            Some(i) => Some(
                                (q[i].play_time_in_samples, (t - q[i].play_time_in_samples) as usize),
                            ),
                            None => None,
                        }
                    } else {
                        None
                    }
                }
            }),
    {
        let ghost q = self.message_queue@;
        let time = event.delta_frames as usize + self.current_time_in_samples;
        match MidiMessageType::from_bytes(&event.data) {
            MidiMessageType::NoteOffMessage(note_off) => {
                self.message_queue.insert_message(event.data, time, MessageReason::Live);
                if delay_active {
                    proof {
                        let inserted = self.message_queue@;
                        lemma_first_later_bounds(q, time);
                        lemma_last_matching_note_on(q, note_off.channel, note_off.pitch);
                        let k = first_later(q, time);
                        let m = inserted[k];
                        assert(inserted == q.insert(k, m));
                        lemma_last_matching_after_insert(q, k, m, note_off.channel, note_off.pitch);
                    }
                    match self.message_queue.get_matching_note_on(note_off.channel, note_off.pitch) {
                        Some(note_on) => {
                            let play_time = note_on.play_time_in_samples;
                            Some((play_time, time - play_time))
                        },
                        None => None,
                    }
                } else {
                    None
                }
            },
            MidiMessageType::Unsupported => None,
            _ => {
                self.message_queue.insert_message(event.data, time, MessageReason::Live);
                None
            },
        }
    }

    /// Queues the delayed copy of a note off.
    pub fn schedule_delayed_note_off(&mut self, data: [u8; 3], play_time_in_samples: usize)
        requires
            all_decodable(old(self).message_queue@),
            decodable(data@),
        ensures
            all_decodable(final(self).message_queue@),
            final(self).current_time_in_samples == old(self).current_time_in_samples,
            (final(self).message_queue@, final(self).message_queue.next_id) == message_inserted(
                (old(self).message_queue@, old(self).message_queue.next_id),
                data,
                play_time_in_samples,
                MessageReason::Delayed,
            ),
    {
        self.message_queue.insert_message(data, play_time_in_samples, MessageReason::Delayed);
    }

    /// Sends the events of a block of `samples` samples under the delay and
    /// maximum-notes settings, then moves time on; `None` when scheduling
    /// fails or time would overflow, the plugin then left unchanged.
    pub fn process(
        &mut self,
        samples: usize,
        delay_is_active: bool,
        max_notes: MaxNotesParameter,
        apply_max_notes_to_delayed_notes_only: bool,
    ) -> (r: Option<Vec<MidiEvent>>)
        requires
            all_decodable(old(self).message_queue@),
        ensures
            all_decodable(final(self).message_queue@),
            ({
                let cfg = SchedulerConfig {
                    buffer_duration_in_samples: samples,
                    delay_is_active,
                    max_notes,
                    apply_max_notes_to_delayed_notes_only,
                    current_time_in_samples: old(self).current_time_in_samples,
                };
                match process_all_spec(cfg, empty_model(), old(self).message_queue@) {
                    Some(st) if old(self).current_time_in_samples + samples <= usize::MAX => {
                        &&& r matches Some(ev) && ev@ == st.events
                        &&& final(self).message_queue@ == requeue_all(st.queued, st.requeue)
                        &&& final(self).message_queue.next_id == old(self).message_queue.next_id
                        &&& final(self).current_time_in_samples == old(self).current_time_in_samples + samples
                    },
                    _ => r is None && final(self).message_queue@ == old(self).message_queue@
                        && final(self).current_time_in_samples == old(self).current_time_in_samples,
                }
            }),
    {
        if self.current_time_in_samples > usize::MAX - samples {
            return None;
        }
        match process_scheduled_events(
            samples,
            delay_is_active,
            max_notes,
            apply_max_notes_to_delayed_notes_only,
            self.current_time_in_samples,
            &self.message_queue,
        ) {
            None => None,
            Some((queued_messages, events)) => {
                self.message_queue = queued_messages;
                self.current_time_in_samples = self.current_time_in_samples + samples;
                Some(events)
            },
        }
    }
}

} // verus!
