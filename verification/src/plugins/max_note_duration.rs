use vstd::prelude::*;
use crate::midi_event::{Event, MidiEvent};
use crate::messages::decodable;
use crate::midi_message_type::{MidiMessageType, status_kind, channel_of};
use crate::plugins::note_off_delay::is_unsupported;
use crate::seq_util::{first_index, lemma_first_index_is, lemma_first_index_none};
use crate::arpegiator::transmission::midi_events_of;

verus! {

/// A note that is playing, with the time by which it must end.
#[derive(Clone, Copy, Debug)]
pub struct PlayingNote {
    pub channel: u8,
    pub pitch: u8,
    pub deadline: usize,
}

pub open spec fn same_key(channel: u8, pitch: u8) -> spec_fn(PlayingNote) -> bool {
    |n: PlayingNote| n.channel == channel && n.pitch == pitch
}

/// Adds a note unless one of the same channel and pitch already plays (the
/// playing one keeps its deadline).
pub open spec fn notes_add(s: Seq<PlayingNote>, n: PlayingNote) -> Seq<PlayingNote> {
    match first_index(s, same_key(n.channel, n.pitch)) {
        Some(_) => s,
        None => s.push(n),
    }
}

/// Removes the note of this channel and pitch, if it plays.
pub open spec fn notes_drop(s: Seq<PlayingNote>, channel: u8, pitch: u8) -> Seq<PlayingNote> {
    match first_index(s, same_key(channel, pitch)) {
        Some(i) => s.remove(i),
        None => s,
    }
}

/// Playing notes are on one of the sixteen channels.
pub open spec fn playing_wf(s: Seq<PlayingNote>) -> bool {
    forall|i: int| 0 <= i < s.len() ==> (#[trigger] s[i]).channel < 16
}

/// Every MIDI event of the block decodes, and a note on's deadline fits.
pub open spec fn events_ok(events: Seq<Event>, current_time: usize, maximum_duration: usize) -> bool {
    forall|i: int|
        0 <= i < events.len() ==> match #[trigger] events[i] {
            Event::Midi(e) => decodable(e.data@) && (status_kind(e.data@) == 0x90u8 ==> current_time
                + maximum_duration <= usize::MAX),
            _ => true,
        }
}

/// The playing notes and passed-on events after a block of events: note ons
/// start a note that must end `maximum_duration` samples from now, note offs
/// end theirs; every MIDI event but those without a status byte passes on.
pub open spec fn take_events(
    st: (Seq<PlayingNote>, Seq<MidiEvent>),
    events: Seq<Event>,
    current_time: usize,
    maximum_duration: usize,
) -> (Seq<PlayingNote>, Seq<MidiEvent>)
    decreases events.len(),
{
    if events.len() == 0 {
        st
    } else {
        let prev = take_events(st, events.drop_last(), current_time, maximum_duration);
        match events.last() {
            Event::Midi(e) => {
                let b = e.data@;
                let k = status_kind(b);
                if k == 0x80u8 {
                    (notes_drop(prev.0, channel_of(b), b[1]), prev.1.push(e))
                } else if k == 0x90u8 {
                    (
                        notes_add(
                            prev.0,
                            PlayingNote {
                                channel: channel_of(b),
                                pitch: b[1],
                                deadline: (current_time + maximum_duration) as usize,
                            },
                        ),
                        prev.1.push(e),
                    )
                } else if is_unsupported(b) {
                    prev
                } else {
                    (prev.0, prev.1.push(e))
                }
            },
            _ => prev,
        }
    }
}

/// What a block passes on: every MIDI event of the block that has a status
/// byte, in order, after what was pending; only events without a status
/// byte are dropped.
pub proof fn lemma_take_events_passes_midi(
    st: (Seq<PlayingNote>, Seq<MidiEvent>),
    events: Seq<Event>,
    current_time: usize,
    maximum_duration: usize,
)
    ensures
        take_events(st, events, current_time, maximum_duration).1 == st.1 + midi_events_of(events).filter(
            |e: MidiEvent| !is_unsupported(e.data@),
        ),
    decreases events.len(),
{
    let keep = |e: MidiEvent| !is_unsupported(e.data@);
    if events.len() == 0 {
        assert(midi_events_of(events) == Seq::<MidiEvent>::empty());
        assert(Seq::<MidiEvent>::empty().filter(keep) =~= Seq::<MidiEvent>::empty()) by {
            reveal(Seq::filter);
        }
        assert(st.1 + Seq::<MidiEvent>::empty() =~= st.1);
    } else {
        let d = events.drop_last();
        lemma_take_events_passes_midi(st, d, current_time, maximum_duration);
        let prev = take_events(st, d, current_time, maximum_duration);
        match events.last() {
            Event::Midi(e) => {
                assert(midi_events_of(events) == midi_events_of(d).push(e));
                midi_events_of(d).lemma_filter_push(e, keep);
                let b = e.data@;
                let k = status_kind(b);
                if k == 0x80u8 || k == 0x90u8 {
                    assert(!is_unsupported(b));
                }
                if keep(e) {
                    assert(st.1 + midi_events_of(d).filter(keep).push(e) =~= (st.1 + midi_events_of(d).filter(keep)).push(e));
                }
            },
            _ => {
                assert(midi_events_of(events) == midi_events_of(d));
            },
        }
    }
}

/// The note off that ends a playing note at its deadline.
pub open spec fn expiry_event(n: PlayingNote, current_time: usize) -> MidiEvent {
    MidiEvent {
        data: [(0x80 + n.channel) as u8, n.pitch, 0u8],
        delta_frames: (n.deadline - current_time) as i32,
        live: false,
        note_length: None,
        note_offset: None,
        detune: 0,
        note_off_velocity: 0,
    }
}

/// The notes still playing after a block, and the note offs of those whose
/// deadline falls before its end, in order.
pub open spec fn expire(s: Seq<PlayingNote>, current_time: usize, block_size: usize) -> (Seq<PlayingNote>, Seq<MidiEvent>)
    decreases s.len(),
{
    if s.len() == 0 {
        (s, Seq::empty())
    } else {
        let prev = expire(s.drop_last(), current_time, block_size);
        let n = s.last();
        if n.deadline < current_time + block_size {
            (prev.0, prev.1.push(expiry_event(n, current_time)))
        } else {
            (prev.0.push(n), prev.1)
        }
    }
}

/// The block can end: its end time fits, and no note expiring in it is
/// already past.
pub open spec fn expiry_ok(s: Seq<PlayingNote>, current_time: usize, block_size: usize) -> bool {
    s.len() > 0 ==> {
        &&& current_time + block_size <= usize::MAX
        &&& forall|i: int|
            0 <= i < s.len() && (#[trigger] s[i]).deadline < current_time + block_size ==> s[i].deadline
                >= current_time
    }
}

/// Ends notes that play longer than a maximum duration.
pub struct MaxNoteDuration {
    pub current_time_in_samples: usize,
    pub block_size: usize,
    pub current_playing_notes: Vec<PlayingNote>,
    pub events: Vec<MidiEvent>,
}

impl MaxNoteDuration {
    /// Nothing playing, nothing pending, time at zero.
    pub fn new() -> (r: MaxNoteDuration)
        ensures
            r.current_time_in_samples == 0,
            r.block_size == 0,
            r.current_playing_notes@.len() == 0,
            r.events@.len() == 0,
    {
        MaxNoteDuration {
            current_time_in_samples: 0,
            block_size: 0,
            current_playing_notes: Vec::new(),
            events: Vec::new(),
        }
    }

    fn find(&self, channel: u8, pitch: u8) -> (r: Option<usize>)
        ensures
            match first_index(self.current_playing_notes@, same_key(channel, pitch)) {
                Some(i) => r is Some && r->0 == i,
                None => r is None,
            },
    {
        let n = self.current_playing_notes.len();
        let mut i: usize = 0;
        while i < n
            invariant
                n == self.current_playing_notes@.len(),
                0 <= i <= n,
                forall|j: int| 0 <= j < i ==> !(#[trigger] same_key(channel, pitch)(self.current_playing_notes@[j])),
            decreases n - i,
        {
            let note = self.current_playing_notes[i];
            if note.channel == channel && note.pitch == pitch {
                proof {
                    lemma_first_index_is(self.current_playing_notes@, same_key(channel, pitch), i as int);
                }
                return Some(i);
            }
            i = i + 1;
        }
        proof {
            lemma_first_index_none(self.current_playing_notes@, same_key(channel, pitch));
        }
        None
    }

    /// Takes the events of a block; notes are given `maximum_duration` samples.
    pub fn process_events(&mut self, events: &Vec<Event>, maximum_duration: usize)
        requires
            playing_wf(old(self).current_playing_notes@),
            events_ok(events@, old(self).current_time_in_samples, maximum_duration),
        ensures
            playing_wf(final(self).current_playing_notes@),
            final(self).current_time_in_samples == old(self).current_time_in_samples,
            final(self).block_size == old(self).block_size,
            (final(self).current_playing_notes@, final(self).events@) == take_events(
                (old(self).current_playing_notes@, old(self).events@),
                events@,
                old(self).current_time_in_samples,
                maximum_duration,
            ),
    {
        let ghost st0 = (self.current_playing_notes@, self.events@);
        let ct = self.current_time_in_samples;
        let n = events.len();
        let mut i: usize = 0;
        while i < n
            invariant
                n == events@.len(),
                0 <= i <= n,
                ct == self.current_time_in_samples,
                ct == old(self).current_time_in_samples,
                self.block_size == old(self).block_size,
                st0 == (old(self).current_playing_notes@, old(self).events@),
                events_ok(events@, ct, maximum_duration),
                playing_wf(self.current_playing_notes@),
                (self.current_playing_notes@, self.events@) == take_events(st0, events@.take(i as int), ct, maximum_duration),
            decreases n - i,
        {
            proof {
                assert(events@.take(i + 1).drop_last() == events@.take(i as int));
                assert(events@.take(i + 1).last() == events@[i as int]);
            }
            match &events[i] {
                Event::Midi(e) => {
                    let status: u8 = e.data[0];
                    assert(status & 0x0F < 16) by (bit_vector);
                    match MidiMessageType::from_bytes(&e.data) {
                        MidiMessageType::NoteOffMessage(note) => {
                            match self.find(note.channel, note.pitch) {
                                Some(k) => {
                                    let ghost s = self.current_playing_notes@;
                                    self.current_playing_notes.remove(k);
                                    assert forall|j: int| 0 <= j < self.current_playing_notes@.len() implies (#[trigger] self.current_playing_notes@[j]).channel < 16 by {
                                        if j < k {
                                            assert(self.current_playing_notes@[j] == s[j]);
                                        } else {
                                            assert(self.current_playing_notes@[j] == s[j + 1]);
                                        }
                                    }
                                },
                                None => {},
                            }
                            self.events.push(*e);
                        },
                        MidiMessageType::NoteOnMessage(note) => {
                            match self.find(note.channel, note.pitch) {
                                Some(_) => {},
                                None => {
                                    self.current_playing_notes.push(
                                        PlayingNote { channel: note.channel, pitch: note.pitch, deadline: ct + maximum_duration },
                                    );
                                },
                            }
                            self.events.push(*e);
                        },
                        MidiMessageType::Unsupported => {},
                        _ => {
                            self.events.push(*e);
                        },
                    }
                },
                _ => {},
            }
            i = i + 1;
        }
        assert(events@.take(n as int) == events@);
    }

    /// Ends the block of `samples` samples: notes whose deadline falls
    /// within the block are ended by a note off, the pending events and
    /// those note offs are handed out, and time moves on. `None` when the
    /// block cannot end (see `expiry_ok`) or time would overflow, the plugin
    /// then left unchanged.
    pub fn process(&mut self, samples: usize) -> (r: Option<Vec<MidiEvent>>)
        requires
            playing_wf(old(self).current_playing_notes@),
        ensures
            playing_wf(final(self).current_playing_notes@),
            final(self).block_size == old(self).block_size,
            if expiry_ok(old(self).current_playing_notes@, old(self).current_time_in_samples, old(self).block_size)
                && old(self).current_time_in_samples + samples <= usize::MAX {
                let x = expire(old(self).current_playing_notes@, old(self).current_time_in_samples, old(self).block_size);
                &&& r matches Some(ev) && ev@ == old(self).events@ + x.1
                &&& final(self).current_playing_notes@ == x.0
                &&& final(self).events@.len() == 0
                &&& final(self).current_time_in_samples == old(self).current_time_in_samples + samples
            } else {
                &&& r is None
                &&& final(self).current_playing_notes@ == old(self).current_playing_notes@
                &&& final(self).events@ == old(self).events@
                &&& final(self).current_time_in_samples == old(self).current_time_in_samples
            },
    {
        let ct = self.current_time_in_samples;
        let bs = self.block_size;
        if ct > usize::MAX - samples {
            return None;
        }
        let n = self.current_playing_notes.len();
        if n > 0 {
            if ct > usize::MAX - bs {
                return None;
            }
            let mut i: usize = 0;
            while i < n
                invariant
                    n == self.current_playing_notes@.len(),
                    0 <= i <= n,
                    ct + bs <= usize::MAX,
                    self.current_playing_notes@ == old(self).current_playing_notes@,
                    self.events@ == old(self).events@,
                    self.current_time_in_samples == ct,
                    ct == old(self).current_time_in_samples,
                    self.block_size == bs,
                    bs == old(self).block_size,
                    playing_wf(self.current_playing_notes@),
                    forall|j: int|
                        0 <= j < i && (#[trigger] self.current_playing_notes@[j]).deadline < ct + bs ==> self.current_playing_notes@[j].deadline >= ct,
                decreases n - i,
            {
                let d = self.current_playing_notes[i].deadline;
                if d < ct + bs && d < ct {
                    proof {
                        assert(!expiry_ok(self.current_playing_notes@, ct, bs));
                    }
                    return None;
                }
                i = i + 1;
            }
        }
        let ghost s = self.current_playing_notes@;
        let mut kept: Vec<PlayingNote> = Vec::new();
        let mut sent: Vec<MidiEvent> = Vec::new();
        std::mem::swap(&mut sent, &mut self.events);
        let ghost e0 = sent@;
        let mut i: usize = 0;
        while i < n
            invariant
                n == s.len(),
                s == self.current_playing_notes@,
                0 <= i <= n,
                playing_wf(s),
                n > 0 ==> ct + bs <= usize::MAX,
                expiry_ok(s, ct, bs),
                (kept@, sent@) == (expire(s.take(i as int), ct, bs).0, e0 + expire(s.take(i as int), ct, bs).1),
            decreases n - i,
        {
            let note = self.current_playing_notes[i];
            proof {
                assert(s.take(i + 1).drop_last() == s.take(i as int));
                assert(s.take(i + 1).last() == note);
            }
            if note.deadline < ct + bs {
                assert(note.channel < 16);
                sent.push(
                    MidiEvent {
                        data: [0x80 + note.channel, note.pitch, 0],
                        delta_frames: (note.deadline - ct) as i32,
                        live: false,
                        note_length: None,
                        note_offset: None,
                        detune: 0,
                        note_off_velocity: 0,
                    },
                );
            } else {
                kept.push(note);
            }
            i = i + 1;
        }
        assert(s.take(n as int) == s);
        proof {
            lemma_expire_kept(s, ct, bs);
        }
        self.current_playing_notes = kept;
        self.current_time_in_samples = ct + samples;
        Some(sent)
    }
}

/// The notes kept by `expire` are among those given.
proof fn lemma_expire_kept(s: Seq<PlayingNote>, ct: usize, bs: usize)
    requires
        playing_wf(s),
    ensures
        playing_wf(expire(s, ct, bs).0),
    decreases s.len(),
{
    if s.len() > 0 {
        lemma_expire_kept(s.drop_last(), ct, bs);
    }
}

/// Ending a block keeps exactly the notes whose deadline is at or after its
/// end, in order, and ends each of the others, in order, with a note off at
/// its deadline.
pub proof fn lemma_expire_splits(s: Seq<PlayingNote>, current_time: usize, block_size: usize)
    ensures
        expire(s, current_time, block_size).0 == s.filter(
            |n: PlayingNote| !(n.deadline < current_time + block_size),
        ),
        expire(s, current_time, block_size).1 == s.filter(
            |n: PlayingNote| n.deadline < current_time + block_size,
        ).map_values(|n: PlayingNote| expiry_event(n, current_time)),
    decreases s.len(),
{
    let late = |n: PlayingNote| !(n.deadline < current_time + block_size);
    let due = |n: PlayingNote| n.deadline < current_time + block_size;
    let f = |n: PlayingNote| expiry_event(n, current_time);
    if s.len() == 0 {
        assert(s.filter(late) == s) by {
            reveal(Seq::filter);
        }
        assert(s.filter(due) == s) by {
            reveal(Seq::filter);
        }
    } else {
        let d = s.drop_last();
        lemma_expire_splits(d, current_time, block_size);
        assert(s == d.push(s.last()));
        d.lemma_filter_push(s.last(), late);
        d.lemma_filter_push(s.last(), due);
        assert(d.filter(due).push(s.last()).map_values(f) == d.filter(due).map_values(f).push(f(s.last())));
    }
}

} // verus!
