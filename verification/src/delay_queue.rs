use vstd::prelude::*;
use crate::midi_event::{MidiEvent, Event, live_event};
use crate::midi_message_type::{MidiMessageType, same_note_bytes, lemma_classified_same_note, is_note_on_bytes, is_note_off_bytes, channel_of};
use crate::messages::decodable;
use crate::raw_message::RawMessage;
use crate::seq_util::{first_index, lemma_first_index_is, lemma_first_index_none, lemma_first_index_some};

verus! {

/// Message bytes with the absolute time, in samples, at which to play them.
#[derive(Clone, Copy, Debug)]
pub struct AbsoluteTimeMidiMessage {
    pub data: [u8; 3],
    pub play_time_in_samples: usize,
}

impl AbsoluteTimeMidiMessage {
    pub fn new(data: [u8; 3], play_time_in_samples: usize) -> (r: Self)
        ensures
            r.data == data,
            r.play_time_in_samples == play_time_in_samples,
    {
        AbsoluteTimeMidiMessage { data, play_time_in_samples }
    }

    /// The message of a MIDI event received `current_time_in_samples` samples
    /// after start; other events carry no message.
    pub fn from_event(event: &Event, current_time_in_samples: usize) -> (r: Option<AbsoluteTimeMidiMessage>)
        requires
            event matches Event::Midi(e) ==> current_time_in_samples + (e.delta_frames as usize) <= usize::MAX,
        ensures
            match event {
                Event::Midi(e) => r == Some(
                    AbsoluteTimeMidiMessage {
                        data: e.data,
                        play_time_in_samples: (current_time_in_samples + (e.delta_frames as usize)) as usize,
                    },
                ),
                _ => r is None,
            },
    {
        match event {
            Event::Midi(e) => {
                let delta: usize = e.delta_frames as usize;
                Some(AbsoluteTimeMidiMessage { data: e.data, play_time_in_samples: current_time_in_samples + delta })
            },
            _ => None,
        }
    }

    /// The event for the buffer starting at `current_time_in_samples`.
    pub fn new_midi_event(&self, current_time_in_samples: usize) -> (r: MidiEvent)
        requires
            current_time_in_samples <= self.play_time_in_samples,
        ensures
            r == live_event(self.data, (self.play_time_in_samples - current_time_in_samples) as i32),
    {
        let delta: usize = self.play_time_in_samples - current_time_in_samples;
        MidiEvent {
            data: self.data,
            delta_frames: delta as i32,
            live: true,
            note_length: None,
            note_offset: None,
            detune: 0,
            note_off_velocity: 0,
        }
    }

    /// Channel of the message, the low nibble of its status byte.
    pub fn channel(&self) -> (r: u8)
        ensures
            r == channel_of(self.data@),
    {
        self.data[0] & 0x0F
    }

    /// Classifies the message.
    pub fn message_type(&self) -> (r: MidiMessageType)
        requires
            decodable(self.data@),
        ensures
            crate::midi_message_type::classifies(r, RawMessage(self.data)),
    {
        MidiMessageType::from_bytes(&self.data)
    }
}

/// A time-ordered queue of messages without identifiers.
pub struct AbsoluteTimeMidiMessageVector(pub Vec<AbsoluteTimeMidiMessage>);

pub open spec fn queue_decodable(s: Seq<AbsoluteTimeMidiMessage>) -> bool {
    forall|i: int| 0 <= i < s.len() ==> decodable(#[trigger] s[i].data@)
}

pub open spec fn queue_sorted(s: Seq<AbsoluteTimeMidiMessage>) -> bool {
    forall|i: int, j: int| 0 <= i <= j < s.len() ==> s[i].play_time_in_samples <= s[j].play_time_in_samples
}

pub open spec fn later_than(t: usize) -> spec_fn(AbsoluteTimeMidiMessage) -> bool {
    |m: AbsoluteTimeMidiMessage| t < m.play_time_in_samples
}

pub open spec fn not_before(t: usize) -> spec_fn(AbsoluteTimeMidiMessage) -> bool {
    |m: AbsoluteTimeMidiMessage| t <= m.play_time_in_samples
}

/// First position at or after `from` whose element satisfies `p`, the length when none does.
pub open spec fn position_from(s: Seq<AbsoluteTimeMidiMessage>, from: int, p: spec_fn(AbsoluteTimeMidiMessage) -> bool) -> int {
    match first_index(s.skip(from), p) {
        Some(i) => from + i,
        None => s.len() as int,
    }
}

/// Queue after inserting `m` before the first message played later than it.
pub open spec fn inserted_in_order(s: Seq<AbsoluteTimeMidiMessage>, m: AbsoluteTimeMidiMessage) -> Seq<AbsoluteTimeMidiMessage> {
    s.insert(position_from(s, 0, later_than(m.play_time_in_samples)), m)
}

/// Where a delayed note off goes: from its original position (the first
/// message not played before it) up to the first message played after its
/// delayed time. `None` when a message of the same note lies in between,
/// so that the delayed note off would cut a new instance of the note.
pub open spec fn merge_position(s: Seq<AbsoluteTimeMidiMessage>, m: AbsoluteTimeMidiMessage, delay: usize) -> Option<int> {
    let p = position_from(s, 0, not_before(m.play_time_in_samples));
    let t = (m.play_time_in_samples + delay) as usize;
    let j = position_from(s, p, later_than(t));
    if exists|k: int| p <= k < j && same_note_bytes(m.data@, #[trigger] s[k].data@) {
        None
    } else {
        Some(j)
    }
}

/// One note off merged with its delay.
pub open spec fn merge_one(s: Seq<AbsoluteTimeMidiMessage>, m: AbsoluteTimeMidiMessage, delay: usize) -> Seq<AbsoluteTimeMidiMessage> {
    match merge_position(s, m, delay) {
        Some(j) => s.insert(j, AbsoluteTimeMidiMessage { play_time_in_samples: (m.play_time_in_samples + delay) as usize, ..m }),
        None => s,
    }
}

/// The note offs merged one after the other.
pub open spec fn merge_all(s: Seq<AbsoluteTimeMidiMessage>, offs: Seq<AbsoluteTimeMidiMessage>, delay: usize) -> Seq<AbsoluteTimeMidiMessage>
    decreases offs.len(),
{
    if offs.len() == 0 {
        s
    } else {
        merge_one(merge_all(s, offs.drop_last(), delay), offs.last(), delay)
    }
}

pub proof fn lemma_position_from(s: Seq<AbsoluteTimeMidiMessage>, from: int, p: spec_fn(AbsoluteTimeMidiMessage) -> bool)
    requires
        0 <= from <= s.len(),
    ensures
        from <= position_from(s, from, p) <= s.len(),
        forall|k: int| from <= k < position_from(s, from, p) ==> !p(#[trigger] s[k]),
        position_from(s, from, p) < s.len() ==> p(s[position_from(s, from, p)]),
{
    let t = s.skip(from);
    lemma_first_index_some(t, p);
    assert forall|k: int| from <= k < position_from(s, from, p) implies !p(#[trigger] s[k]) by {
        assert(s[k] == t[k - from]);
    }
}

/// Merging a delayed note off keeps a time-ordered queue ordered.
pub proof fn lemma_merge_one_sorted(s: Seq<AbsoluteTimeMidiMessage>, m: AbsoluteTimeMidiMessage, delay: usize)
    requires
        queue_sorted(s),
        m.play_time_in_samples + delay <= usize::MAX,
    ensures
        queue_sorted(merge_one(s, m, delay)),
{
    let p = position_from(s, 0, not_before(m.play_time_in_samples));
    lemma_position_from(s, 0, not_before(m.play_time_in_samples));
    let t = (m.play_time_in_samples + delay) as usize;
    lemma_position_from(s, p, later_than(t));
    match merge_position(s, m, delay) {
        Some(j) => {
            let d = AbsoluteTimeMidiMessage { play_time_in_samples: t, ..m };
            let r = s.insert(j, d);
            assert forall|k: int| 0 <= k < j implies s[k].play_time_in_samples <= t by {
                if k < p {
                    assert(!not_before(m.play_time_in_samples)(s[k]));
                } else {
                    assert(!later_than(t)(s[k]));
                }
            }
            assert forall|k: int| j <= k < s.len() implies t < s[k].play_time_in_samples by {
                assert(later_than(t)(s[j]));
            }
            assert forall|a: int, b: int| 0 <= a <= b < r.len() implies r[a].play_time_in_samples
                <= r[b].play_time_in_samples by {
                if a < j && b < j {
                } else if a < j && b == j {
                } else if a < j {
                    assert(r[b] == s[b - 1]);
                } else if a == j && b == j {
                } else if a == j {
                    assert(r[b] == s[b - 1]);
                } else {
                    assert(r[a] == s[a - 1]);
                    assert(r[b] == s[b - 1]);
                }
            }
        },
        None => {},
    }
}

/// Merging delayed note offs keeps a time-ordered queue ordered.
pub proof fn lemma_merge_all_sorted(s: Seq<AbsoluteTimeMidiMessage>, offs: Seq<AbsoluteTimeMidiMessage>, delay: usize)
    requires
        queue_sorted(s),
        forall|i: int| 0 <= i < offs.len() ==> #[trigger] offs[i].play_time_in_samples + delay <= usize::MAX,
    ensures
        queue_sorted(merge_all(s, offs, delay)),
    decreases offs.len(),
{
    if offs.len() > 0 {
        let t = offs.drop_last();
        assert forall|i: int| 0 <= i < t.len() implies #[trigger] t[i].play_time_in_samples + delay <= usize::MAX by {
            assert(t[i] == offs[i]);
        }
        lemma_merge_all_sorted(s, t, delay);
        lemma_merge_one_sorted(merge_all(s, t, delay), offs.last(), delay);
    }
}

/// Inserting in order keeps a time-ordered queue ordered.
pub proof fn lemma_inserted_in_order_sorted(s: Seq<AbsoluteTimeMidiMessage>, m: AbsoluteTimeMidiMessage)
    requires
        queue_sorted(s),
    ensures
        queue_sorted(inserted_in_order(s, m)),
        inserted_in_order(s, m).to_multiset() == s.to_multiset().insert(m),
{
    let t = m.play_time_in_samples;
    let j = position_from(s, 0, later_than(t));
    lemma_position_from(s, 0, later_than(t));
    let r = s.insert(j, m);
    assert forall|k: int| 0 <= k < j implies s[k].play_time_in_samples <= t by {
        assert(!later_than(t)(s[k]));
    }
    assert forall|k: int| j <= k < s.len() implies t < s[k].play_time_in_samples by {
        assert(later_than(t)(s[j]));
    }
    assert forall|a: int, b: int| 0 <= a <= b < r.len() implies r[a].play_time_in_samples
        <= r[b].play_time_in_samples by {
        if a < j && b < j {
        } else if a < j && b == j {
        } else if a < j {
            assert(r[b] == s[b - 1]);
        } else if a == j && b == j {
        } else if a == j {
            assert(r[b] == s[b - 1]);
        } else {
            assert(r[a] == s[a - 1]);
            assert(r[b] == s[b - 1]);
        }
    }
    vstd::seq_lib::to_multiset_insert(s, j, m);
}

/// Finds `position_from` for a predicate on the play time by scanning.
fn scan_from(s: &Vec<AbsoluteTimeMidiMessage>, from: usize, strict: bool, t: usize) -> (r: usize)
    requires
        from <= s@.len(),
    ensures
        strict ==> r == position_from(s@, from as int, later_than(t)),
        !strict ==> r == position_from(s@, from as int, not_before(t)),
{
    let n = s.len();
    let mut i = from;
    while i < n
        invariant
            n == s@.len(),
            from <= i <= n,
            strict ==> forall|k: int| from <= k < i ==> !later_than(t)(#[trigger] s@[k]),
            !strict ==> forall|k: int| from <= k < i ==> !not_before(t)(#[trigger] s@[k]),
        decreases n - i,
    {
        let hit = if strict { t < s[i].play_time_in_samples } else { t <= s[i].play_time_in_samples };
        if hit {
            proof {
                let u = s@.skip(from as int);
                assert(u[i - from] == s@[i as int]);
                if strict {
                    assert forall|k: int| 0 <= k < i - from implies !later_than(t)(#[trigger] u[k]) by {
                        assert(u[k] == s@[k + from]);
                    }
                    lemma_first_index_is(u, later_than(t), i - from);
                } else {
                    assert forall|k: int| 0 <= k < i - from implies !not_before(t)(#[trigger] u[k]) by {
                        assert(u[k] == s@[k + from]);
                    }
                    lemma_first_index_is(u, not_before(t), i - from);
                }
            }
            return i;
        }
        i = i + 1;
    }
    proof {
        let u = s@.skip(from as int);
        if strict {
            assert forall|k: int| 0 <= k < u.len() implies !later_than(t)(#[trigger] u[k]) by {
                assert(u[k] == s@[k + from]);
            }
            lemma_first_index_none(u, later_than(t));
        } else {
            assert forall|k: int| 0 <= k < u.len() implies !not_before(t)(#[trigger] u[k]) by {
                assert(u[k] == s@[k + from]);
            }
            lemma_first_index_none(u, not_before(t));
        }
    }
    n
}

impl View for AbsoluteTimeMidiMessageVector {
    type V = Seq<AbsoluteTimeMidiMessage>;

    open spec fn view(&self) -> Seq<AbsoluteTimeMidiMessage> {
        self.0@
    }
}

impl AbsoluteTimeMidiMessageVector {
    pub fn new() -> (r: Self)
        ensures
            r@ == Seq::<AbsoluteTimeMidiMessage>::empty(),
    {
        AbsoluteTimeMidiMessageVector(Vec::new())
    }

    /// Inserts before the first message played strictly later, after the
    /// messages of the same time already present.
    pub fn insert_message(&mut self, message: AbsoluteTimeMidiMessage)
        ensures
            final(self)@ == inserted_in_order(old(self)@, message),
    {
        let position = scan_from(&self.0, 0, true, message.play_time_in_samples);
        if position < self.0.len() {
            self.0.insert(position, message);
        } else {
            self.0.push(message);
        }
    }

    /// Inserts each note off, delayed by `note_off_delay`, at the end of the
    /// messages played no later than its delayed time, unless a message of
    /// the same note lies between its original and its delayed position.
    pub fn merge_notes_off(&mut self, notes_off: &mut AbsoluteTimeMidiMessageVector, note_off_delay: usize)
        requires
            queue_decodable(old(self)@),
            queue_decodable(old(notes_off)@),
            forall|i: int| 0 <= i < old(notes_off)@.len() ==>
                #[trigger] old(notes_off)@[i].play_time_in_samples + note_off_delay <= usize::MAX,
        ensures
            final(self)@ == merge_all(old(self)@, old(notes_off)@, note_off_delay),
            final(notes_off)@ == old(notes_off)@,
            queue_decodable(final(self)@),
    {
        let n = notes_off.0.len();
        let mut i: usize = 0;
        while i < n
            invariant
                n == notes_off@.len(),
                0 <= i <= n,
                notes_off@ == old(notes_off)@,
                queue_decodable(notes_off@),
                queue_decodable(self@),
                forall|k: int| 0 <= k < notes_off@.len() ==>
                    #[trigger] notes_off@[k].play_time_in_samples + note_off_delay <= usize::MAX,
                self@ == merge_all(old(self)@, notes_off@.take(i as int), note_off_delay),
            decreases n - i,
        {
            assert(notes_off@.take(i + 1).drop_last() == notes_off@.take(i as int));
            let note_off_message = notes_off.0[i];
            assert(decodable(note_off_message.data@));
            self.merge_one_exec(note_off_message, note_off_delay);
            i = i + 1;
        }
        assert(notes_off@.take(n as int) == notes_off@);
    }

    fn merge_one_exec(&mut self, note_off_message: AbsoluteTimeMidiMessage, note_off_delay: usize)
        requires
            queue_decodable(old(self)@),
            decodable(note_off_message.data@),
            note_off_message.play_time_in_samples + note_off_delay <= usize::MAX,
        ensures
            final(self)@ == merge_one(old(self)@, note_off_message, note_off_delay),
            queue_decodable(final(self)@),
    {
        let ghost s = self@;
        let position = scan_from(&self.0, 0, false, note_off_message.play_time_in_samples);
        proof {
            lemma_position_from(s, 0, not_before(note_off_message.play_time_in_samples));
        }
        let delayed = AbsoluteTimeMidiMessage {
            play_time_in_samples: note_off_message.play_time_in_samples + note_off_delay,
            ..note_off_message
        };
        let note_off_type = MidiMessageType::from_bytes(&note_off_message.data);
        let n = self.0.len();
        let mut k = position;
        while k < n && self.0[k].play_time_in_samples <= delayed.play_time_in_samples
            invariant
                n == s.len(),
                self@ == s,
                position <= k <= n,
                note_off_message.play_time_in_samples + note_off_delay <= usize::MAX,
                delayed.play_time_in_samples == note_off_message.play_time_in_samples + note_off_delay,
                delayed.data == note_off_message.data,
                position == position_from(s, 0, not_before(note_off_message.play_time_in_samples)),
                queue_decodable(s),
                crate::midi_message_type::classifies(note_off_type, RawMessage(note_off_message.data)),
                forall|j: int| position <= j < k ==> !later_than(delayed.play_time_in_samples)(#[trigger] s[j]),
                forall|j: int| position <= j < k ==> !same_note_bytes(note_off_message.data@, #[trigger] s[j].data@),
            decreases n - k,
        {
            assert(decodable(s[k as int].data@));
            let at_position = MidiMessageType::from_bytes(&self.0[k].data);
            proof {
                lemma_classified_same_note(RawMessage(note_off_message.data), note_off_type, RawMessage(s[k as int].data), at_position);
            }
            if note_off_type.is_same_note(&at_position) {
                proof {
                    let t = delayed.play_time_in_samples;
                    let j = position_from(s, position as int, later_than(t));
                    lemma_position_from(s, position as int, later_than(t));
                    assert(!later_than(t)(s[k as int]));
                    if j <= k {
                        if j < k {
                            assert(!later_than(t)(s[j]));
                        }
                    }
                    assert(k < j);
                    assert(same_note_bytes(note_off_message.data@, s[k as int].data@));
                    assert(exists|kk: int| position <= kk < j && same_note_bytes(note_off_message.data@, #[trigger] s[kk].data@));
                    assert((note_off_message.play_time_in_samples + note_off_delay) as usize == t);
                    assert(merge_position(s, note_off_message, note_off_delay) is None);
                }
                return;
            }
            k = k + 1;
        }
        proof {
            let t = delayed.play_time_in_samples;
            let u = s.skip(position as int);
            if k < n {
                assert forall|j: int| 0 <= j < k - position implies !later_than(t)(#[trigger] u[j]) by {
                    assert(u[j] == s[j + position]);
                }
                lemma_first_index_is(u, later_than(t), k - position);
            } else {
                assert forall|j: int| 0 <= j < u.len() implies !later_than(t)(#[trigger] u[j]) by {
                    assert(u[j] == s[j + position]);
                }
                lemma_first_index_none(u, later_than(t));
            }
            assert(position_from(s, position as int, later_than(t)) == k);
        }
        if k < n {
            self.0.insert(k, delayed);
        } else {
            self.0.push(delayed);
        }
        proof {
            assert forall|j: int| 0 <= j < self@.len() implies decodable(#[trigger] self@[j].data@) by {
                if j < k {
                    assert(self@[j] == s[j]);
                } else if j > k {
                    assert(self@[j] == s[j - 1]);
                }
            }
        }
    }
}

} // verus!

verus! {

/// A note off moved later by `delay`.
pub open spec fn delayed_by(m: AbsoluteTimeMidiMessage, delay: usize) -> AbsoluteTimeMidiMessage {
    AbsoluteTimeMidiMessage { play_time_in_samples: (m.play_time_in_samples + delay) as usize, ..m }
}

/// The queue operations of the note off delay on a plain vector of
/// messages; merging moves the given note offs to their delayed times.
pub trait AbsoluteTimeMidiMessageVectorMethods {
    spec fn messages(&self) -> Seq<AbsoluteTimeMidiMessage>;

    fn insert_message(&mut self, message: AbsoluteTimeMidiMessage)
        ensures
            final(self).messages() == inserted_in_order(old(self).messages(), message),
    ;

    fn merge_notes_off(&mut self, notes_off: &mut Vec<AbsoluteTimeMidiMessage>, note_off_delay: usize)
        requires
            queue_decodable(old(self).messages()),
            queue_decodable(old(notes_off)@),
            forall|i: int|
                0 <= i < old(notes_off)@.len() ==> #[trigger] old(notes_off)@[i].play_time_in_samples
                    + note_off_delay <= usize::MAX,
        ensures
            final(self).messages() == merge_all(old(self).messages(), old(notes_off)@, note_off_delay),
            final(notes_off)@ == old(notes_off)@.map_values(
                |m: AbsoluteTimeMidiMessage| delayed_by(m, note_off_delay),
            ),
            queue_decodable(final(self).messages()),
    ;
}

impl AbsoluteTimeMidiMessageVectorMethods for Vec<AbsoluteTimeMidiMessage> {
    open spec fn messages(&self) -> Seq<AbsoluteTimeMidiMessage> {
        self@
    }

    fn insert_message(&mut self, message: AbsoluteTimeMidiMessage) {
        let mut q = AbsoluteTimeMidiMessageVector(Vec::new());
        std::mem::swap(&mut q.0, self);
        q.insert_message(message);
        std::mem::swap(&mut q.0, self);
    }

    fn merge_notes_off(&mut self, notes_off: &mut Vec<AbsoluteTimeMidiMessage>, note_off_delay: usize) {
        let mut q = AbsoluteTimeMidiMessageVector(Vec::new());
        std::mem::swap(&mut q.0, self);
        let mut offs = AbsoluteTimeMidiMessageVector(Vec::new());
        std::mem::swap(&mut offs.0, notes_off);
        q.merge_notes_off(&mut offs, note_off_delay);
        std::mem::swap(&mut offs.0, notes_off);
        std::mem::swap(&mut q.0, self);
        let ghost before = notes_off@;
        let n = notes_off.len();
        let mut i: usize = 0;
        while i < n
            invariant
                n == notes_off@.len(),
                n == before.len(),
                0 <= i <= n,
                forall|k: int|
                    0 <= k < before.len() ==> #[trigger] before[k].play_time_in_samples + note_off_delay
                        <= usize::MAX,
                forall|k: int| 0 <= k < i ==> #[trigger] notes_off@[k] == delayed_by(before[k], note_off_delay),
                forall|k: int| i <= k < n ==> #[trigger] notes_off@[k] == before[k],
            decreases n - i,
        {
            let m = notes_off[i];
            notes_off.set(i, AbsoluteTimeMidiMessage { play_time_in_samples: m.play_time_in_samples + note_off_delay, ..m });
            i = i + 1;
        }
        assert(notes_off@ =~= before.map_values(|m: AbsoluteTimeMidiMessage| delayed_by(m, note_off_delay)));
    }
}

/// What one step of a consumer yields, and the queue it leaves: late
/// messages are dropped (or played at once), a message inside the buffer
/// (its end included) is taken, nothing is taken while the head lies beyond.
pub open spec fn consume_next(
    s: Seq<AbsoluteTimeMidiMessage>,
    current_time_in_samples: usize,
    samples_in_buffer: usize,
    drop_late_events: bool,
) -> (Option<AbsoluteTimeMidiMessage>, Seq<AbsoluteTimeMidiMessage>)
    decreases s.len(),
{
    if s.len() == 0 {
        (None, s)
    } else if s[0].play_time_in_samples < current_time_in_samples {
        if drop_late_events {
            consume_next(s.drop_first(), current_time_in_samples, samples_in_buffer, drop_late_events)
        } else {
            (Some(AbsoluteTimeMidiMessage { play_time_in_samples: current_time_in_samples, ..s[0] }), s.drop_first())
        }
    } else if s[0].play_time_in_samples > current_time_in_samples + samples_in_buffer {
        (None, s)
    } else {
        (Some(s[0]), s.drop_first())
    }
}

/// Takes the messages of the current buffer off the front of a queue.
pub struct DelayedMessageConsumer {
    pub samples_in_buffer: usize,
    pub messages: AbsoluteTimeMidiMessageVector,
    pub current_time_in_samples: usize,
    pub drop_late_events: bool,
}

impl DelayedMessageConsumer {
    /// The next message to play in this buffer, if any.
    pub fn next(&mut self) -> (r: Option<AbsoluteTimeMidiMessage>)
        requires
            old(self).current_time_in_samples + old(self).samples_in_buffer <= usize::MAX,
        ensures
            (r, final(self).messages@) == consume_next(
                old(self).messages@,
                old(self).current_time_in_samples,
                old(self).samples_in_buffer,
                old(self).drop_late_events,
            ),
            final(self).samples_in_buffer == old(self).samples_in_buffer,
            final(self).current_time_in_samples == old(self).current_time_in_samples,
            final(self).drop_late_events == old(self).drop_late_events,
    {
        let ghost cur = self.current_time_in_samples;
        let ghost samples = self.samples_in_buffer;
        let ghost drop = self.drop_late_events;
        loop
            invariant
                self.current_time_in_samples == cur,
                self.samples_in_buffer == samples,
                self.drop_late_events == drop,
                cur == old(self).current_time_in_samples,
                samples == old(self).samples_in_buffer,
                drop == old(self).drop_late_events,
                cur + samples <= usize::MAX,
                consume_next(old(self).messages@, cur, samples, drop) == consume_next(self.messages@, cur, samples, drop),
            decreases self.messages@.len(),
        {
            if self.messages.0.len() == 0 {
                return None;
            }
            let delayed_message = self.messages.0[0];
            if delayed_message.play_time_in_samples < self.current_time_in_samples {
                if self.drop_late_events {
                    let ghost before = self.messages@;
                    self.messages.0.remove(0);
                    assert(self.messages@ == before.drop_first());
                    continue;
                } else {
                    let mut delayed_message = self.messages.0.remove(0);
                    delayed_message.play_time_in_samples = self.current_time_in_samples;
                    return Some(delayed_message);
                }
            }
            if delayed_message.play_time_in_samples > self.current_time_in_samples + self.samples_in_buffer {
                return None;
            }
            let delayed_message = self.messages.0.remove(0);
            return Some(delayed_message);
        }
    }
}

} // verus!
