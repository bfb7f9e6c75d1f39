use vstd::prelude::*;
use crate::absolute_time_midi_message::AbsoluteTimeMidiMessage;
use crate::delayed_message_consumer::MessageReason;
use crate::midi_message_type::{MidiMessageType, is_note_on_bytes, is_note_off_bytes, channel_of};
use crate::messages::decodable;
use crate::raw_message::RawMessage;

verus! {

/// A queue of absolutely timed messages, kept in play-time order by its
/// inserting operations, with the source of fresh note identifiers.
pub struct AbsoluteTimeMidiMessageVector {
    pub messages: Vec<AbsoluteTimeMidiMessage>,
    pub next_id: usize,
}

/// The identifier that follows `id`; the counter wraps like an atomic counter.
pub open spec fn next_after(id: usize) -> usize {
    if id == usize::MAX {
        0
    } else {
        (id + 1) as usize
    }
}

/// Every message of the sequence decodes without overflow.
pub open spec fn all_decodable(s: Seq<AbsoluteTimeMidiMessage>) -> bool {
    forall|i: int| 0 <= i < s.len() ==> decodable(#[trigger] s[i].data.0@)
}

/// Play times never decrease along the sequence.
pub open spec fn sorted_by_time(s: Seq<AbsoluteTimeMidiMessage>) -> bool {
    forall|i: int, j: int|
        0 <= i <= j < s.len() ==> s[i].play_time_in_samples <= s[j].play_time_in_samples
}

/// The message is a note on with this channel and pitch.
pub open spec fn is_matching_note_on(m: AbsoluteTimeMidiMessage, channel: u8, pitch: u8) -> bool {
    is_note_on_bytes(m.data.0@) && channel_of(m.data.0@) == channel && m.data.0@[1] == pitch
}

/// Index of the last note on with this channel and pitch.
pub open spec fn last_matching_note_on(
    s: Seq<AbsoluteTimeMidiMessage>,
    channel: u8,
    pitch: u8,
) -> Option<int>
    decreases s.len(),
{
    if s.len() == 0 {
        None
    } else if is_matching_note_on(s.last(), channel, pitch) {
        Some(s.len() - 1)
    } else {
        last_matching_note_on(s.drop_last(), channel, pitch)
    }
}

/// Index of the first message played strictly later than `t` (the length when none is).
pub open spec fn first_later(s: Seq<AbsoluteTimeMidiMessage>, t: usize) -> int
    decreases s.len(),
{
    if s.len() == 0 {
        0
    } else if t < s[0].play_time_in_samples {
        0
    } else {
        1 + first_later(s.drop_first(), t)
    }
}

/// The sequence after inserting `m` before the first message played later than it.
pub open spec fn ordered_inserted(
    s: Seq<AbsoluteTimeMidiMessage>,
    m: AbsoluteTimeMidiMessage,
) -> Seq<AbsoluteTimeMidiMessage> {
    s.insert(first_later(s, m.play_time_in_samples), m)
}

/// The queue (messages and next identifier) after a message is inserted in
/// order. A note off takes the identifier of the last queued note on of its
/// channel and pitch; any other message, or a note off without such note
/// on, takes a fresh identifier.
pub open spec fn message_inserted(
    q: (Seq<AbsoluteTimeMidiMessage>, usize),
    data: [u8; 3],
    play_time_in_samples: usize,
    reason: MessageReason,
) -> (Seq<AbsoluteTimeMidiMessage>, usize) {
    let paired = is_note_off_bytes(data@) && last_matching_note_on(q.0, channel_of(data@), data@[1]) is Some;
    let id = if paired {
        q.0[last_matching_note_on(q.0, channel_of(data@), data@[1])->0].id
    } else {
        q.1
    };
    (
        ordered_inserted(q.0, AbsoluteTimeMidiMessage { data: RawMessage(data), id, play_time_in_samples, reason }),
        if paired {
            q.1
        } else {
            next_after(q.1)
        },
    )
}

/// Inserting a message that is not a matching note on leaves the last
/// matching note on in place (shifted past the insertion point).
pub proof fn lemma_last_matching_after_insert(
    s: Seq<AbsoluteTimeMidiMessage>,
    k: int,
    m: AbsoluteTimeMidiMessage,
    channel: u8,
    pitch: u8,
)
    requires
        0 <= k <= s.len(),
        !is_matching_note_on(m, channel, pitch),
    ensures
        match last_matching_note_on(s, channel, pitch) {
            None => last_matching_note_on(s.insert(k, m), channel, pitch) is None,
            Some(i) => last_matching_note_on(s.insert(k, m), channel, pitch) == Some(
                if i < k {
                    i
                } else {
                    i + 1
                },
            ),
        },
    decreases s.len(),
{
    let t = s.insert(k, m);
    assert(t.len() == s.len() + 1);
    if k == s.len() {
        assert(t.last() == m);
        assert(t.drop_last() == s);
        lemma_last_matching_note_on(s, channel, pitch);
    } else {
        assert(t.last() == s.last());
        assert(t.drop_last() == s.drop_last().insert(k, m));
        if !is_matching_note_on(s.last(), channel, pitch) {
            lemma_last_matching_after_insert(s.drop_last(), k, m, channel, pitch);
        }
    }
}

pub proof fn lemma_first_later_bounds(s: Seq<AbsoluteTimeMidiMessage>, t: usize)
    ensures
        0 <= first_later(s, t) <= s.len(),
        forall|i: int| 0 <= i < first_later(s, t) ==> s[i].play_time_in_samples <= t,
        first_later(s, t) < s.len() ==> t < s[first_later(s, t)].play_time_in_samples,
    decreases s.len(),
{
    if s.len() > 0 && t >= s[0].play_time_in_samples {
        lemma_first_later_bounds(s.drop_first(), t);
        assert forall|i: int| 0 <= i < first_later(s, t) implies s[i].play_time_in_samples <= t by {
            if i > 0 {
                assert(s[i] == s.drop_first()[i - 1]);
            }
        }
    }
}

pub proof fn lemma_last_matching_note_on(s: Seq<AbsoluteTimeMidiMessage>, channel: u8, pitch: u8)
    ensures
        last_matching_note_on(s, channel, pitch) matches Some(i) ==> 0 <= i < s.len()
            && is_matching_note_on(s[i], channel, pitch) && forall|j: int|
            i < j < s.len() ==> !is_matching_note_on(#[trigger] s[j], channel, pitch),
        last_matching_note_on(s, channel, pitch) is None ==> forall|j: int|
            0 <= j < s.len() ==> !is_matching_note_on(#[trigger] s[j], channel, pitch),
    decreases s.len(),
{
    if s.len() > 0 {
        lemma_last_matching_note_on(s.drop_last(), channel, pitch);
        if !is_matching_note_on(s.last(), channel, pitch) {
            assert forall|j: int| 0 <= j < s.len() - 1 implies #[trigger] s[j] == s.drop_last()[j] by {}
        }
    }
}

/// Inserting in order keeps a sorted queue sorted and adds exactly the new message.
pub proof fn lemma_ordered_insert_sorted(s: Seq<AbsoluteTimeMidiMessage>, m: AbsoluteTimeMidiMessage)
    requires
        sorted_by_time(s),
    ensures
        sorted_by_time(ordered_inserted(s, m)),
        ordered_inserted(s, m).to_multiset() == s.to_multiset().insert(m),
{
    let p = first_later(s, m.play_time_in_samples);
    lemma_first_later_bounds(s, m.play_time_in_samples);
    let r = ordered_inserted(s, m);
    assert forall|i: int, j: int| 0 <= i <= j < r.len() implies r[i].play_time_in_samples
        <= r[j].play_time_in_samples by {
        if i < p && j < p {
        } else if i < p && j == p {
        } else if i < p {
            assert(r[j] == s[j - 1]);
        } else if i == p && j == p {
        } else if i == p {
            assert(r[j] == s[j - 1]);
            assert(s[p] == r[p + 1]);
        } else {
            assert(r[j] == s[j - 1]);
            assert(r[i] == s[i - 1]);
        }
    }
    vstd::seq_lib::to_multiset_insert(s, p, m);
}

impl View for AbsoluteTimeMidiMessageVector {
    type V = Seq<AbsoluteTimeMidiMessage>;

    open spec fn view(&self) -> Seq<AbsoluteTimeMidiMessage> {
        self.messages@
    }
}

impl AbsoluteTimeMidiMessageVector {
    /// An empty queue whose identifiers start at 0.
    pub fn default() -> (r: Self)
        ensures
            r@ == Seq::<AbsoluteTimeMidiMessage>::empty(),
            r.next_id == 0,
    {
        AbsoluteTimeMidiMessageVector { messages: Vec::new(), next_id: 0 }
    }

    /// An empty queue that continues the identifiers of another queue.
    pub fn continuing(next_id: usize) -> (r: Self)
        ensures
            r@ == Seq::<AbsoluteTimeMidiMessage>::empty(),
            r.next_id == next_id,
    {
        AbsoluteTimeMidiMessageVector { messages: Vec::new(), next_id }
    }

    pub fn len(&self) -> (r: usize)
        ensures
            r == self@.len(),
    {
        self.messages.len()
    }

    pub fn is_empty(&self) -> (r: bool)
        ensures
            r == (self@.len() == 0),
    {
        self.messages.len() == 0
    }

    /// Appends a message at the end, whatever its time.
    pub fn push(&mut self, message: AbsoluteTimeMidiMessage)
        ensures
            final(self)@ == old(self)@.push(message),
            final(self).next_id == old(self).next_id,
    {
        self.messages.push(message);
    }

    /// Takes a fresh note identifier.
    fn fresh_id(&mut self) -> (r: usize)
        ensures
            r == old(self).next_id,
            final(self).next_id == next_after(old(self).next_id),
            final(self)@ == old(self)@,
    {
        let id = self.next_id;
        self.next_id = if id == usize::MAX {
            0
        } else {
            id + 1
        };
        id
    }

    /// The last note on of this channel and pitch in the queue.
    pub fn get_matching_note_on(&self, channel: u8, pitch: u8) -> (r: Option<&AbsoluteTimeMidiMessage>)
        requires
            all_decodable(self@),
        ensures
            match last_matching_note_on(self@, channel, pitch) {
                Some(i) => r == Some(&self@[i]),
                None => r is None,
            },
    {
        let mut found: Option<usize> = None;
        let n = self.messages.len();
        let mut i: usize = 0;
        while i < n
            invariant
                n == self@.len(),
                0 <= i <= n,
                all_decodable(self@),
                found == match last_matching_note_on(self@.take(i as int), channel, pitch) {
                    Some(k) => Some(k as usize),
                    None => None,
                },
                last_matching_note_on(self@.take(i as int), channel, pitch) matches Some(k) ==> 0
                    <= k < i,
            decreases n - i,
        {
            let ghost prefix = self@.take(i as int);
            assert(self@.take(i + 1).drop_last() == prefix);
            assert(decodable(self@[i as int].data.0@));
            match MidiMessageType::from_raw(self.messages[i].data) {
                MidiMessageType::NoteOnMessage(m) => {
                    if channel == m.channel && pitch == m.pitch {
                        found = Some(i);
                    }
                },
                _ => {},
            }
            proof {
                lemma_last_matching_note_on(prefix, channel, pitch);
            }
            i = i + 1;
        }
        assert(self@.take(n as int) == self@);
        match found {
            Some(k) => Some(&self.messages[k]),
            None => None,
        }
    }

    /// Inserts before the first message played strictly later, so that
    /// messages of equal time keep their arrival order.
    pub fn ordered_insert(&mut self, message: AbsoluteTimeMidiMessage)
        ensures
            final(self)@ == ordered_inserted(old(self)@, message),
            final(self).next_id == old(self).next_id,
    {
        let n = self.messages.len();
        let mut i: usize = 0;
        assert(self@.skip(0) == self@);
        while i < n
            invariant
                n == self@.len(),
                0 <= i <= n,
                self@ == old(self)@,
                self.next_id == old(self).next_id,
                first_later(self@, message.play_time_in_samples) == i + first_later(
                    self@.skip(i as int),
                    message.play_time_in_samples,
                ),
            decreases n - i,
        {
            if message.play_time_in_samples < self.messages[i].play_time_in_samples {
                assert(first_later(self@.skip(i as int), message.play_time_in_samples) == 0);
                self.messages.insert(i, message);
                return;
            }
            assert(self@.skip(i as int).drop_first() == self@.skip(i + 1));
            i = i + 1;
        }
        assert(first_later(self@.skip(n as int), message.play_time_in_samples) == 0);
        self.messages.push(message);
    }

    /// Inserts a message with a fresh identifier, ignoring note pairing.
    pub fn raw_insert(&mut self, data: [u8; 3], play_time_in_samples: usize)
        ensures
            final(self)@ == ordered_inserted(
                old(self)@,
                AbsoluteTimeMidiMessage {
                    data: RawMessage(data),
                    id: old(self).next_id,
                    play_time_in_samples,
                    reason: MessageReason::PlayUnprocessed,
                },
            ),
            final(self).next_id == next_after(old(self).next_id),
    {
        let id = self.fresh_id();
        let message = AbsoluteTimeMidiMessage {
            data: RawMessage(data),
            id,
            play_time_in_samples,
            reason: MessageReason::PlayUnprocessed,
        };
        self.ordered_insert(message);
    }

    /// Inserts a message in order. A note off takes the identifier of the
    /// last queued note on of its channel and pitch; any other message, or a
    /// note off without such note on, takes a fresh identifier.
    pub fn insert_message(&mut self, data: [u8; 3], play_time_in_samples: usize, reason: MessageReason)
        requires
            all_decodable(old(self)@),
            decodable(data@),
        ensures
            (final(self)@, final(self).next_id) == message_inserted(
                (old(self)@, old(self).next_id),
                data,
                play_time_in_samples,
                reason,
            ),
            all_decodable(final(self)@),
    {
        let raw_message = RawMessage(data);
        let id = match MidiMessageType::from_raw(raw_message) {
            MidiMessageType::NoteOffMessage(midi_message) => {
                match self.get_matching_note_on(midi_message.channel, midi_message.pitch) {
                    Some(note_on_message) => note_on_message.id,
                    None => self.fresh_id(),
                }
            },
            _ => self.fresh_id(),
        };
        let message = AbsoluteTimeMidiMessage { data: raw_message, id, play_time_in_samples, reason };
        self.ordered_insert(message);
        proof {
            let s = old(self)@;
            lemma_first_later_bounds(s, play_time_in_samples);
            let p = first_later(s, play_time_in_samples);
            assert forall|i: int| 0 <= i < self@.len() implies decodable(#[trigger] self@[i].data.0@) by {
                if i < p {
                    assert(self@[i] == s[i]);
                } else if i > p {
                    assert(self@[i] == s[i - 1]);
                }
            }
        }
    }
}

} // verus!
