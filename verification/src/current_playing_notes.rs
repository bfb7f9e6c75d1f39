use vstd::prelude::*;
use vstd::std_specs::cmp::PartialEqSpecImpl;
use crate::delay_queue::AbsoluteTimeMidiMessage;
use crate::midi_message_type::{MidiMessageType, is_note_on_bytes, is_note_off_bytes, is_note_bytes, channel_of};
use crate::messages::{NoteOn, NoteOff, ChannelMessage, NoteMessage, decodable};
use crate::seq_util::{first_index, lemma_first_index_is, lemma_first_index_none, lemma_first_index_some};

verus! {

/// Channel and pitch of a playing note.
#[derive(Clone, Copy, Debug)]
pub struct CurrentPlayingNotesIndex(pub [u8; 2]);

impl PartialEq for CurrentPlayingNotesIndex {
    fn eq(&self, other: &Self) -> (r: bool) {
        self.0[0] == other.0[0] && self.0[1] == other.0[1]
    }
}

impl PartialEqSpecImpl for CurrentPlayingNotesIndex {
    open spec fn obeys_eq_spec() -> bool {
        true
    }

    open spec fn eq_spec(&self, other: &CurrentPlayingNotesIndex) -> bool {
        self.0@[0] == other.0@[0] && self.0@[1] == other.0@[1]
    }
}

impl Eq for CurrentPlayingNotesIndex {}

/// Channel and pitch of a note message.
pub open spec fn note_index(b: Seq<u8>) -> Seq<u8> {
    seq![channel_of(b), b[1]]
}

impl CurrentPlayingNotesIndex {
    /// The index of a note on or note off.
    pub fn from_message(m: &AbsoluteTimeMidiMessage) -> (r: CurrentPlayingNotesIndex)
        requires
            is_note_bytes(m.data@),
        ensures
            r.0@ == note_index(m.data@),
    {
        let r = CurrentPlayingNotesIndex([m.data[0] & 0x0F, m.data[1]]);
        assert(r.0@ == note_index(m.data@));
        r
    }
}

pub open spec fn index_is(k: Seq<u8>) -> spec_fn((CurrentPlayingNotesIndex, AbsoluteTimeMidiMessage)) -> bool {
    |e: (CurrentPlayingNotesIndex, AbsoluteTimeMidiMessage)| e.0.0@ == k
}

pub open spec fn notes_insert(
    s: Seq<(CurrentPlayingNotesIndex, AbsoluteTimeMidiMessage)>,
    k: CurrentPlayingNotesIndex,
    m: AbsoluteTimeMidiMessage,
) -> Seq<(CurrentPlayingNotesIndex, AbsoluteTimeMidiMessage)> {
    match first_index(s, index_is(k.0@)) {
        Some(i) => s.update(i, (s[i].0, m)),
        None => s.push((k, m)),
    }
}

pub open spec fn notes_remove(
    s: Seq<(CurrentPlayingNotesIndex, AbsoluteTimeMidiMessage)>,
    k: Seq<u8>,
) -> Seq<(CurrentPlayingNotesIndex, AbsoluteTimeMidiMessage)> {
    match first_index(s, index_is(k)) {
        Some(i) => s.remove(i),
        None => s,
    }
}

/// The playing note with the smallest play time; on ties, the one that
/// started playing first. (A hash map leaves the tie to its walking order;
/// here the notes are kept in insertion order and the first one wins.)
pub open spec fn oldest_of(s: Seq<(CurrentPlayingNotesIndex, AbsoluteTimeMidiMessage)>) -> Option<AbsoluteTimeMidiMessage>
    decreases s.len(),
{
    if s.len() == 0 {
        None
    } else {
        let prev = oldest_of(s.drop_last());
        let m = s.last().1;
        if prev is None || m.play_time_in_samples < prev->0.play_time_in_samples {
            Some(m)
        } else {
            prev
        }
    }
}

/// Bytes of the note off that ends a note on: status `0x80 + channel`, pitch, 0.
pub open spec fn ending_note_off(b: Seq<u8>) -> [u8; 3] {
    [(0x80 + channel_of(b)) as u8, b[1], 0u8]
}

/// A note on added to the playing notes; beyond `max_notes` (when not 0) the
/// oldest note stops and its note off, at the new note's time, is returned.
pub open spec fn add_message_spec(
    s: Seq<(CurrentPlayingNotesIndex, AbsoluteTimeMidiMessage)>,
    message: AbsoluteTimeMidiMessage,
    max_notes: u8,
) -> (Seq<(CurrentPlayingNotesIndex, AbsoluteTimeMidiMessage)>, Option<AbsoluteTimeMidiMessage>) {
    if !is_note_on_bytes(message.data@) {
        (s, None)
    } else {
        let s1 = notes_insert(s, CurrentPlayingNotesIndex([channel_of(message.data@), message.data@[1]]), message);
        if max_notes > 0 && s1.len() > max_notes {
            match oldest_of(s1) {
                None => (s1, None),
                Some(oldest) => (
                    notes_remove(s1, note_index(oldest.data@)),
                    Some(AbsoluteTimeMidiMessage {
                        data: ending_note_off(oldest.data@),
                        play_time_in_samples: message.play_time_in_samples,
                    }),
                ),
            }
        } else {
            (s1, None)
        }
    }
}

/// Messages applied in order: note offs stop their note, note ons are added.
pub open spec fn update_spec(
    s: Seq<(CurrentPlayingNotesIndex, AbsoluteTimeMidiMessage)>,
    messages: Seq<AbsoluteTimeMidiMessage>,
    max_notes: u8,
) -> (Seq<(CurrentPlayingNotesIndex, AbsoluteTimeMidiMessage)>, Seq<AbsoluteTimeMidiMessage>)
    decreases messages.len(),
{
    if messages.len() == 0 {
        (s, Seq::empty())
    } else {
        let (s1, offs) = update_spec(s, messages.drop_last(), max_notes);
        let m = messages.last();
        if is_note_off_bytes(m.data@) {
            (notes_remove(s1, note_index(m.data@)), offs)
        } else if is_note_on_bytes(m.data@) {
            let (s2, off) = add_message_spec(s1, m, max_notes);
            match off {
                Some(o) => (s2, offs.push(o)),
                None => (s2, offs),
            }
        } else {
            (s1, offs)
        }
    }
}

/// Entries are note ons filed under their own channel and pitch.
pub open spec fn notes_wf(s: Seq<(CurrentPlayingNotesIndex, AbsoluteTimeMidiMessage)>) -> bool {
    forall|i: int| 0 <= i < s.len() ==> is_note_on_bytes(#[trigger] s[i].1.data@) && s[i].0.0@ == note_index(s[i].1.data@)
}

/// The notes playing, each under its channel and pitch, in insertion order
/// (a keyed vector standing for a hash map, so that ties are settled by that
/// order rather than by how a hash map is walked).
pub struct CurrentPlayingNotes(pub Vec<(CurrentPlayingNotesIndex, AbsoluteTimeMidiMessage)>);

impl View for CurrentPlayingNotes {
    type V = Seq<(CurrentPlayingNotesIndex, AbsoluteTimeMidiMessage)>;

    open spec fn view(&self) -> Seq<(CurrentPlayingNotesIndex, AbsoluteTimeMidiMessage)> {
        self.0@
    }
}

impl CurrentPlayingNotes {
    pub fn new() -> (r: Self)
        ensures
            r@ == Seq::<(CurrentPlayingNotesIndex, AbsoluteTimeMidiMessage)>::empty(),
    {
        CurrentPlayingNotes(Vec::new())
    }

    fn find(&self, k: &CurrentPlayingNotesIndex) -> (r: Option<usize>)
        ensures
            r matches Some(i) ==> i < self@.len(),
            match first_index(self@, index_is(k.0@)) {
                Some(i) => r is Some && r->0 == i,
                None => r is None,
            },
    {
        let n = self.0.len();
        let mut i: usize = 0;
        while i < n
            invariant
                n == self@.len(),
                0 <= i <= n,
                forall|j: int| 0 <= j < i ==> !(#[trigger] index_is(k.0@)(self@[j])),
            decreases n - i,
        {
            let e = &self.0[i];
            if e.0.0[0] == k.0[0] && e.0.0[1] == k.0[1] {
                assert(e.0.0@ =~= k.0@);
                proof {
                    lemma_first_index_is(self@, index_is(k.0@), i as int);
                }
                return Some(i);
            }
            assert(!(e.0.0@ =~= k.0@));
            i = i + 1;
        }
        proof {
            lemma_first_index_none(self@, index_is(k.0@));
        }
        None
    }

    /// The playing note with the smallest play time (the first one on ties).
    pub fn oldest(&self) -> (r: Option<AbsoluteTimeMidiMessage>)
        ensures
            r == oldest_of(self@),
    {
        let mut prev: Option<AbsoluteTimeMidiMessage> = None;
        let n = self.0.len();
        let mut i: usize = 0;
        while i < n
            invariant
                n == self@.len(),
                0 <= i <= n,
                prev == oldest_of(self@.take(i as int)),
            decreases n - i,
        {
            assert(self@.take(i + 1).drop_last() == self@.take(i as int));
            let m = self.0[i].1;
            let replace = match prev {
                None => true,
                Some(p) => m.play_time_in_samples < p.play_time_in_samples,
            };
            if replace {
                prev = Some(m);
            }
            i = i + 1;
        }
        assert(self@.take(n as int) == self@);
        prev
    }

    /// The note playing at this index.
    pub fn get(&self, index: &CurrentPlayingNotesIndex) -> (r: Option<&AbsoluteTimeMidiMessage>)
        ensures
            match first_index(self@, index_is(index.0@)) {
                Some(i) => r == Some(&self@[i].1),
                None => r is None,
            },
    {
        match self.find(index) {
            Some(i) => Some(&self.0[i].1),
            None => None,
        }
    }

    fn insert(&mut self, k: CurrentPlayingNotesIndex, m: AbsoluteTimeMidiMessage)
        ensures
            final(self)@ == notes_insert(old(self)@, k, m),
    {
        match self.find(&k) {
            Some(i) => {
                let key = self.0[i].0;
                self.0.set(i, (key, m));
            },
            None => {
                self.0.push((k, m));
            },
        }
    }

    fn remove(&mut self, k: &CurrentPlayingNotesIndex)
        ensures
            final(self)@ == notes_remove(old(self)@, k.0@),
    {
        match self.find(k) {
            Some(i) => {
                self.0.remove(i);
            },
            None => {},
        }
    }

    /// Adds a note on; see `add_message_spec`.
    #[verifier::rlimit(40)]
    pub fn add_message(&mut self, message: AbsoluteTimeMidiMessage, max_notes: u8) -> (r: Option<AbsoluteTimeMidiMessage>)
        requires
            decodable(message.data@),
            notes_wf(old(self)@),
        ensures
            (final(self)@, r) == add_message_spec(old(self)@, message, max_notes),
            notes_wf(final(self)@),
    {
        let play_time_in_samples = message.play_time_in_samples;
        match MidiMessageType::from_bytes(&message.data) {
            MidiMessageType::NoteOnMessage(_) => {},
            _ => {
                return None;
            },
        }
        proof {
            lemma_note_on_status(message.data@[0]);
        }
        let k = CurrentPlayingNotesIndex::from_message(&message);
        assert(k.0@ =~= CurrentPlayingNotesIndex([channel_of(message.data@), message.data@[1]]).0@);
        assert(k.0 =~= [channel_of(message.data@), message.data@[1]]);
        assert(k == CurrentPlayingNotesIndex([channel_of(message.data@), message.data@[1]]));
        let ghost s0 = self@;
        self.insert(k, message);
        proof {
            lemma_notes_insert_wf(s0, k, message);
        }
        if max_notes > 0 && self.0.len() > max_notes as usize {
            let oldest = self.oldest();
            proof {
                lemma_oldest_member(self@);
            }
            match oldest {
                None => {
                    return None;
                },
                Some(o) => {
                    proof {
                        lemma_note_on_status(o.data@[0]);
                    }
                    let oldest_note: NoteOn = NoteOn::from_raw(crate::raw_message::RawMessage(o.data));
                    let ok = CurrentPlayingNotesIndex::from_message(&o);
                    let ghost s1 = self@;
                    self.remove(&ok);
                    proof {
                        lemma_notes_remove_wf(s1, ok.0@);
                    }
                    let off = NoteOff::from_note_on(oldest_note).into_raw();
                    let r = AbsoluteTimeMidiMessage::new(off.0, play_time_in_samples);
                    assert(r.data@ =~= ending_note_off(o.data@)@);
                    assert(r.data == ending_note_off(o.data@));
                    assert(ok.0@ == note_index(o.data@));
                    assert(self@ == notes_remove(s1, note_index(o.data@)));
                    return Some(r);
                },
            }
        }
        None
    }

    /// Applies the messages in order and returns the note offs that the
    /// polyphony limit produced.
    pub fn update(&mut self, messages: &[AbsoluteTimeMidiMessage], max_notes: u8) -> (r: Vec<AbsoluteTimeMidiMessage>)
        requires
            forall|i: int| 0 <= i < messages@.len() ==> decodable(#[trigger] messages@[i].data@),
            notes_wf(old(self)@),
        ensures
            (final(self)@, r@) == update_spec(old(self)@, messages@, max_notes),
            notes_wf(final(self)@),
    {
        let mut notes_off: Vec<AbsoluteTimeMidiMessage> = Vec::new();
        let n = messages.len();
        let mut i: usize = 0;
        while i < n
            invariant
                n == messages@.len(),
                0 <= i <= n,
                forall|j: int| 0 <= j < messages@.len() ==> decodable(#[trigger] messages@[j].data@),
                (self@, notes_off@) == update_spec(old(self)@, messages@.take(i as int), max_notes),
                notes_wf(self@),
            decreases n - i,
        {
            assert(messages@.take(i + 1).drop_last() == messages@.take(i as int));
            let message = messages[i];
            assert(decodable(message.data@));
            match MidiMessageType::from_bytes(&message.data) {
                MidiMessageType::NoteOffMessage(m) => {
                    let k = CurrentPlayingNotesIndex([m.get_channel(), m.get_pitch()]);
                    assert(k.0@ =~= note_index(message.data@));
                    let ghost s1 = self@;
                    self.remove(&k);
                    proof {
                        lemma_notes_remove_wf(s1, k.0@);
                    }
                },
                MidiMessageType::NoteOnMessage(_) => {
                    if let Some(note_off) = self.add_message(message, max_notes) {
                        notes_off.push(note_off);
                    }
                },
                _ => {},
            }
            i = i + 1;
        }
        assert(messages@.take(n as int) == messages@);
        notes_off
    }
}

proof fn lemma_note_on_status(b: u8)
    ensures
        (b & 0xF0u8) == 0x90u8 ==> 0x90 <= b <= 0x9F,
        b & 0x0Fu8 <= 15,
{
    assert((b & 0xF0u8) == 0x90u8 ==> 0x90 <= b <= 0x9F) by (bit_vector);
    assert(b & 0x0Fu8 <= 15) by (bit_vector);
}

proof fn lemma_notes_insert_wf(s: Seq<(CurrentPlayingNotesIndex, AbsoluteTimeMidiMessage)>, k: CurrentPlayingNotesIndex, m: AbsoluteTimeMidiMessage)
    requires
        notes_wf(s),
        is_note_on_bytes(m.data@),
        k.0@ == note_index(m.data@),
    ensures
        notes_wf(notes_insert(s, k, m)),
{
    lemma_first_index_some(s, index_is(k.0@));
    let r = notes_insert(s, k, m);
    assert forall|i: int| 0 <= i < r.len() implies is_note_on_bytes(#[trigger] r[i].1.data@) && r[i].0.0@
        == note_index(r[i].1.data@) by {
        match first_index(s, index_is(k.0@)) {
            Some(p) => {
                if i != p {
                    assert(r[i] == s[i]);
                }
            },
            None => {
                if i < s.len() {
                    assert(r[i] == s[i]);
                }
            },
        }
    }
}

proof fn lemma_notes_remove_wf(s: Seq<(CurrentPlayingNotesIndex, AbsoluteTimeMidiMessage)>, k: Seq<u8>)
    requires
        notes_wf(s),
    ensures
        notes_wf(notes_remove(s, k)),
        notes_remove(s, k).len() == if first_index(s, index_is(k)) is Some { s.len() - 1 } else { s.len() as int },
{
    lemma_first_index_some(s, index_is(k));
    let r = notes_remove(s, k);
    match first_index(s, index_is(k)) {
        Some(p) => {
            assert forall|i: int| 0 <= i < r.len() implies is_note_on_bytes(#[trigger] r[i].1.data@) && r[i].0.0@
                == note_index(r[i].1.data@) by {
                if i < p {
                    assert(r[i] == s[i]);
                } else {
                    assert(r[i] == s[i + 1]);
                }
            }
        },
        None => {},
    }
}

proof fn lemma_notes_insert_len(s: Seq<(CurrentPlayingNotesIndex, AbsoluteTimeMidiMessage)>, k: CurrentPlayingNotesIndex, m: AbsoluteTimeMidiMessage)
    ensures
        notes_insert(s, k, m).len() <= s.len() + 1,
{
    lemma_first_index_some(s, index_is(k.0@));
}

/// Adding a note keeps the playing notes well formed and, when a positive
/// limit is set and respected before, respected after.
pub proof fn lemma_add_message_respects_max(
    s: Seq<(CurrentPlayingNotesIndex, AbsoluteTimeMidiMessage)>,
    message: AbsoluteTimeMidiMessage,
    max_notes: u8,
)
    requires
        notes_wf(s),
    ensures
        notes_wf(add_message_spec(s, message, max_notes).0),
        max_notes > 0 && s.len() <= max_notes ==> add_message_spec(s, message, max_notes).0.len() <= max_notes,
{
    if is_note_on_bytes(message.data@) {
        let k = CurrentPlayingNotesIndex([channel_of(message.data@), message.data@[1]]);
        assert(k.0@ =~= note_index(message.data@));
        lemma_notes_insert_wf(s, k, message);
        lemma_notes_insert_len(s, k, message);
        let s1 = notes_insert(s, k, message);
        if max_notes > 0 && s1.len() > max_notes {
            lemma_oldest_member(s1);
            let o = oldest_of(s1)->0;
            let i = choose|i: int| 0 <= i < s1.len() && #[trigger] s1[i].1 == o;
            assert(index_is(note_index(o.data@))(s1[i]));
            lemma_first_index_some(s1, index_is(note_index(o.data@)));
            if first_index(s1, index_is(note_index(o.data@))) is None {
                assert(!index_is(note_index(o.data@))(s1[i]));
            }
            lemma_notes_remove_wf(s1, note_index(o.data@));
        }
    }
}

/// With a positive limit that holds at the start, applying messages never
/// leaves more notes playing than the limit.
pub proof fn lemma_update_respects_max(
    s: Seq<(CurrentPlayingNotesIndex, AbsoluteTimeMidiMessage)>,
    messages: Seq<AbsoluteTimeMidiMessage>,
    max_notes: u8,
)
    requires
        notes_wf(s),
    ensures
        notes_wf(update_spec(s, messages, max_notes).0),
        max_notes > 0 && s.len() <= max_notes ==> update_spec(s, messages, max_notes).0.len() <= max_notes,
    decreases messages.len(),
{
    if messages.len() > 0 {
        lemma_update_respects_max(s, messages.drop_last(), max_notes);
        let s1 = update_spec(s, messages.drop_last(), max_notes).0;
        let m = messages.last();
        if is_note_off_bytes(m.data@) {
            lemma_notes_remove_wf(s1, note_index(m.data@));
        } else if is_note_on_bytes(m.data@) {
            lemma_add_message_respects_max(s1, m, max_notes);
        }
    }
}

/// The note off that ends a note is a note off of the note's channel and
/// pitch, with velocity 0.
proof fn lemma_ending_note_off(b: Seq<u8>)
    ensures
        is_note_off_bytes(ending_note_off(b)@),
        channel_of(ending_note_off(b)@) == channel_of(b),
        ending_note_off(b)@[1] == b[1],
        ending_note_off(b)@[2] == 0,
{
    let x = b[0];
    let c: u8 = x & 0x0F;
    assert(((0x80u8 + c) as u8) & 0xF0u8 == 0x80u8 && ((0x80u8 + c) as u8) & 0x0Fu8 == c) by (bit_vector)
        requires
            c == x & 0x0F,
    ;
}

/// A note is playing at the start, or is one of the messages.
pub open spec fn known_note(
    s: Seq<(CurrentPlayingNotesIndex, AbsoluteTimeMidiMessage)>,
    messages: Seq<AbsoluteTimeMidiMessage>,
    p: AbsoluteTimeMidiMessage,
) -> bool {
    (exists|j: int| 0 <= j < s.len() && #[trigger] s[j].1 == p) || (exists|i: int|
        0 <= i < messages.len() && #[trigger] messages[i] == p)
}

proof fn lemma_known_after(
    s: Seq<(CurrentPlayingNotesIndex, AbsoluteTimeMidiMessage)>,
    messages: Seq<AbsoluteTimeMidiMessage>,
    p: AbsoluteTimeMidiMessage,
    n: int,
)
    requires
        0 <= n <= messages.len(),
        known_note(s, messages.take(n), p),
    ensures
        known_note(s, messages, p),
{
    if exists|i: int| 0 <= i < messages.take(n).len() && #[trigger] messages.take(n)[i] == p {
        let i = choose|i: int| 0 <= i < messages.take(n).len() && #[trigger] messages.take(n)[i] == p;
        assert(messages[i] == p);
    }
}

/// Each note of the result was playing at the start or is one of the
/// messages.
proof fn lemma_update_members(
    s: Seq<(CurrentPlayingNotesIndex, AbsoluteTimeMidiMessage)>,
    messages: Seq<AbsoluteTimeMidiMessage>,
    max_notes: u8,
)
    ensures
        forall|q: int|
            0 <= q < update_spec(s, messages, max_notes).0.len() ==> known_note(
                s,
                messages,
                (#[trigger] update_spec(s, messages, max_notes).0[q]).1,
            ),
    decreases messages.len(),
{
    if messages.len() > 0 {
        let d = messages.drop_last();
        lemma_update_members(s, d, max_notes);
        let s1 = update_spec(s, d, max_notes).0;
        let m = messages.last();
        assert(d == messages.take(messages.len() - 1));
        assert forall|q: int| 0 <= q < s1.len() implies known_note(s, messages, (#[trigger] s1[q]).1) by {
            lemma_known_after(s, messages, s1[q].1, messages.len() - 1);
        }
        assert(messages[messages.len() - 1] == m);
        let r = update_spec(s, messages, max_notes).0;
        if is_note_off_bytes(m.data@) {
            lemma_notes_remove_members(s1, note_index(m.data@));
            assert forall|q: int| 0 <= q < r.len() implies known_note(s, messages, (#[trigger] r[q]).1) by {
                let q2 = choose|q2: int| 0 <= q2 < s1.len() && s1[q2] == r[q];
                assert(known_note(s, messages, s1[q2].1));
            }
        } else if is_note_on_bytes(m.data@) {
            let k = CurrentPlayingNotesIndex([channel_of(m.data@), m.data@[1]]);
            let s1i = notes_insert(s1, k, m);
            lemma_notes_insert_members(s1, k, m);
            assert forall|q: int| 0 <= q < s1i.len() implies known_note(s, messages, (#[trigger] s1i[q]).1) by {
                if s1i[q].1 != m {
                    let q2 = choose|q2: int| 0 <= q2 < s1.len() && s1[q2].1 == s1i[q].1;
                    assert(known_note(s, messages, s1[q2].1));
                }
            }
            if max_notes > 0 && s1i.len() > max_notes && oldest_of(s1i) is Some {
                let o = oldest_of(s1i)->0;
                lemma_notes_remove_members(s1i, note_index(o.data@));
                assert forall|q: int| 0 <= q < r.len() implies known_note(s, messages, (#[trigger] r[q]).1) by {
                    let q2 = choose|q2: int| 0 <= q2 < s1i.len() && s1i[q2] == r[q];
                    assert(known_note(s, messages, s1i[q2].1));
                }
            }
        }
    }
}

proof fn lemma_notes_insert_members(
    s: Seq<(CurrentPlayingNotesIndex, AbsoluteTimeMidiMessage)>,
    k: CurrentPlayingNotesIndex,
    m: AbsoluteTimeMidiMessage,
)
    ensures
        forall|q: int|
            0 <= q < notes_insert(s, k, m).len() ==> (#[trigger] notes_insert(s, k, m)[q]).1 == m || exists|q2: int|
                0 <= q2 < s.len() && s[q2].1 == notes_insert(s, k, m)[q].1,
{
    lemma_first_index_some(s, index_is(k.0@));
    let r = notes_insert(s, k, m);
    assert forall|q: int| 0 <= q < r.len() implies (#[trigger] r[q]).1 == m || exists|q2: int|
        0 <= q2 < s.len() && s[q2].1 == r[q].1 by {
        if r[q].1 != m {
            assert(q < s.len() && s[q].1 == r[q].1);
        }
    }
}

proof fn lemma_notes_remove_members(s: Seq<(CurrentPlayingNotesIndex, AbsoluteTimeMidiMessage)>, key: Seq<u8>)
    ensures
        forall|q: int|
            0 <= q < notes_remove(s, key).len() ==> exists|q2: int|
                0 <= q2 < s.len() && s[q2] == #[trigger] notes_remove(s, key)[q],
{
    lemma_first_index_some(s, index_is(key));
    let r = notes_remove(s, key);
    assert forall|q: int| 0 <= q < r.len() implies exists|q2: int| 0 <= q2 < s.len() && s[q2] == #[trigger] r[q] by {
        match first_index(s, index_is(key)) {
            Some(i) => {
                if q < i {
                    assert(s[q] == r[q]);
                } else {
                    assert(s[q + 1] == r[q]);
                }
            },
            None => {
                assert(s[q] == r[q]);
            },
        }
    }
}

/// What applying messages sends: nothing without a limit; with one, only
/// note offs with velocity 0, each the note off of a note that was playing
/// at the start or was started by the messages, and each timed at a note on
/// of the messages (the one that pushed that note out).
pub proof fn lemma_update_sends_note_offs(
    s: Seq<(CurrentPlayingNotesIndex, AbsoluteTimeMidiMessage)>,
    messages: Seq<AbsoluteTimeMidiMessage>,
    max_notes: u8,
)
    ensures
        max_notes == 0 ==> update_spec(s, messages, max_notes).1.len() == 0,
        forall|k: int| 0 <= k < update_spec(s, messages, max_notes).1.len() ==> {
            let o = #[trigger] update_spec(s, messages, max_notes).1[k];
            &&& is_note_off_bytes(o.data@)
            &&& o.data@[2] == 0
            &&& exists|p: AbsoluteTimeMidiMessage| known_note(s, messages, p) && o.data == ending_note_off(p.data@)
            &&& exists|i: int|
                0 <= i < messages.len() && is_note_on_bytes(messages[i].data@)
                    && #[trigger] messages[i].play_time_in_samples == o.play_time_in_samples
        },
    decreases messages.len(),
{
    if messages.len() > 0 {
        let d = messages.drop_last();
        lemma_update_sends_note_offs(s, d, max_notes);
        lemma_update_members(s, d, max_notes);
        let (s1, offs) = update_spec(s, d, max_notes);
        let m = messages.last();
        let n = messages.len() - 1;
        assert(d == messages.take(n));
        assert(messages[n] == m);
        let r = update_spec(s, messages, max_notes).1;
        assert forall|k: int| 0 <= k < offs.len() implies {
            let o = #[trigger] offs[k];
            &&& is_note_off_bytes(o.data@)
            &&& o.data@[2] == 0
            &&& exists|p: AbsoluteTimeMidiMessage| known_note(s, messages, p) && o.data == ending_note_off(p.data@)
            &&& exists|i: int|
                0 <= i < messages.len() && is_note_on_bytes(messages[i].data@)
                    && #[trigger] messages[i].play_time_in_samples == o.play_time_in_samples
        } by {
            let o = offs[k];
            let p = choose|p: AbsoluteTimeMidiMessage| known_note(s, d, p) && o.data == ending_note_off(p.data@);
            lemma_known_after(s, messages, p, n);
            let i = choose|i: int|
                0 <= i < d.len() && is_note_on_bytes(d[i].data@) && #[trigger] d[i].play_time_in_samples
                    == o.play_time_in_samples;
            assert(messages[i] == d[i]);
        }
        if is_note_on_bytes(m.data@) && !is_note_off_bytes(m.data@) {
            let k = CurrentPlayingNotesIndex([channel_of(m.data@), m.data@[1]]);
            let s1i = notes_insert(s1, k, m);
            if max_notes > 0 && s1i.len() > max_notes && oldest_of(s1i) is Some {
                let p = oldest_of(s1i)->0;
                let o = AbsoluteTimeMidiMessage { data: ending_note_off(p.data@), play_time_in_samples: m.play_time_in_samples };
                assert(r == offs.push(o));
                lemma_ending_note_off(p.data@);
                lemma_oldest_member(s1i);
                let q = choose|q: int| 0 <= q < s1i.len() && #[trigger] s1i[q].1 == p;
                lemma_notes_insert_members(s1, k, m);
                if p != m {
                    let q2 = choose|q2: int| 0 <= q2 < s1.len() && s1[q2].1 == s1i[q].1;
                    assert(known_note(s, d, s1[q2].1));
                    lemma_known_after(s, messages, p, n);
                } else {
                    assert(messages[n] == p);
                }
                assert(known_note(s, messages, p));
                assert forall|kk: int| 0 <= kk < r.len() implies {
                    let o2 = #[trigger] r[kk];
                    &&& is_note_off_bytes(o2.data@)
                    &&& o2.data@[2] == 0
                    &&& exists|p2: AbsoluteTimeMidiMessage| known_note(s, messages, p2) && o2.data == ending_note_off(p2.data@)
                    &&& exists|i: int|
                        0 <= i < messages.len() && is_note_on_bytes(messages[i].data@)
                            && #[trigger] messages[i].play_time_in_samples == o2.play_time_in_samples
                } by {
                    if kk < offs.len() {
                        assert(r[kk] == offs[kk]);
                    } else {
                        assert(r[kk] == o);
                        assert(messages[n].play_time_in_samples == o.play_time_in_samples);
                    }
                }
            }
        }
    }
}

/// Some entry is filed under `key`.
pub open spec fn has_key(s: Seq<(CurrentPlayingNotesIndex, AbsoluteTimeMidiMessage)>, key: Seq<u8>) -> bool {
    exists|j: int| 0 <= j < s.len() && (#[trigger] s[j]).0.0@ == key
}

/// No two entries share a key, as in a map.
pub open spec fn keys_unique(s: Seq<(CurrentPlayingNotesIndex, AbsoluteTimeMidiMessage)>) -> bool {
    forall|a: int, b: int| 0 <= a < b < s.len() ==> (#[trigger] s[a]).0.0@ != (#[trigger] s[b]).0.0@
}

proof fn lemma_insert_unique(
    s: Seq<(CurrentPlayingNotesIndex, AbsoluteTimeMidiMessage)>,
    k: CurrentPlayingNotesIndex,
    m: AbsoluteTimeMidiMessage,
)
    requires
        keys_unique(s),
    ensures
        keys_unique(notes_insert(s, k, m)),
{
    lemma_first_index_some(s, index_is(k.0@));
    let r = notes_insert(s, k, m);
    match first_index(s, index_is(k.0@)) {
        Some(i) => {
            assert forall|a: int, b: int| 0 <= a < b < r.len() implies (#[trigger] r[a]).0.0@ != (#[trigger] r[b]).0.0@ by {
                assert(r[a].0 == s[a].0 && r[b].0 == s[b].0);
            }
        },
        None => {
            assert forall|a: int, b: int| 0 <= a < b < r.len() implies (#[trigger] r[a]).0.0@ != (#[trigger] r[b]).0.0@ by {
                if b == s.len() {
                    assert(r[a] == s[a]);
                    assert(!index_is(k.0@)(s[a]));
                } else {
                    assert(r[a] == s[a] && r[b] == s[b]);
                }
            }
        },
    }
}

proof fn lemma_remove_unique(s: Seq<(CurrentPlayingNotesIndex, AbsoluteTimeMidiMessage)>, key: Seq<u8>)
    requires
        keys_unique(s),
    ensures
        keys_unique(notes_remove(s, key)),
        !has_key(notes_remove(s, key), key),
{
    lemma_first_index_some(s, index_is(key));
    let r = notes_remove(s, key);
    match first_index(s, index_is(key)) {
        Some(i) => {
            assert forall|q: int| 0 <= q < r.len() implies r[q] == if q < i { s[q] } else { s[q + 1] } by {}
            assert forall|a: int, b: int| 0 <= a < b < r.len() implies (#[trigger] r[a]).0.0@ != (#[trigger] r[b]).0.0@ by {
                let a2 = if a < i { a } else { a + 1 };
                let b2 = if b < i { b } else { b + 1 };
                assert(r[a] == s[a2] && r[b] == s[b2]);
            }
            if has_key(r, key) {
                let j = choose|j: int| 0 <= j < r.len() && (#[trigger] r[j]).0.0@ == key;
                if j < i {
                    assert(r[j] == s[j]);
                    assert(!index_is(key)(s[j]));
                } else {
                    assert(r[j] == s[j + 1]);
                    assert(s[i].0.0@ == key);
                }
            }
        },
        None => {
            if has_key(r, key) {
                let j = choose|j: int| 0 <= j < r.len() && (#[trigger] r[j]).0.0@ == key;
                assert(!index_is(key)(s[j]));
            }
        },
    }
}

/// Applying messages keeps keys unique.
proof fn lemma_update_unique(
    s: Seq<(CurrentPlayingNotesIndex, AbsoluteTimeMidiMessage)>,
    messages: Seq<AbsoluteTimeMidiMessage>,
    max_notes: u8,
)
    requires
        keys_unique(s),
    ensures
        keys_unique(update_spec(s, messages, max_notes).0),
    decreases messages.len(),
{
    if messages.len() > 0 {
        lemma_update_unique(s, messages.drop_last(), max_notes);
        let s1 = update_spec(s, messages.drop_last(), max_notes).0;
        let m = messages.last();
        if is_note_off_bytes(m.data@) {
            lemma_remove_unique(s1, note_index(m.data@));
        } else if is_note_on_bytes(m.data@) {
            let k = CurrentPlayingNotesIndex([channel_of(m.data@), m.data@[1]]);
            lemma_insert_unique(s1, k, m);
            let s1i = notes_insert(s1, k, m);
            if max_notes > 0 && s1i.len() > max_notes {
                if let Some(o) = oldest_of(s1i) {
                    lemma_remove_unique(s1i, note_index(o.data@));
                }
            }
        }
    }
}

/// The note off `o` ended, at step `i`, a note that the note on of that
/// step pushed out: `o` is the note off of a note playing once that note on
/// was added, timed at that note on, and the note's key is gone after the
/// step.
pub open spec fn displaced_at(
    s: Seq<(CurrentPlayingNotesIndex, AbsoluteTimeMidiMessage)>,
    messages: Seq<AbsoluteTimeMidiMessage>,
    max_notes: u8,
    i: int,
    o: AbsoluteTimeMidiMessage,
) -> bool {
    let m = messages[i];
    let playing = notes_insert(
        update_spec(s, messages.take(i), max_notes).0,
        CurrentPlayingNotesIndex([channel_of(m.data@), m.data@[1]]),
        m,
    );
    &&& is_note_on_bytes(m.data@)
    &&& o.play_time_in_samples == m.play_time_in_samples
    &&& exists|q: int|
        0 <= q < playing.len() && o.data == ending_note_off((#[trigger] playing[q]).1.data@) && playing[q].0.0@
            == note_index(o.data@) && !has_key(update_spec(s, messages.take(i + 1), max_notes).0, playing[q].0.0@)
}

/// The playing notes under a limit: with a positive limit that holds at
/// the start, never more notes play than the limit; a note off among the
/// messages leaves no note of its key playing; with no limit nothing is
/// sent; and each note off sent has velocity 0 and ends a note pushed out
/// by a note on of the messages, at that note on's time (`displaced_at`).
pub proof fn lemma_update_displaces_notes(
    s: Seq<(CurrentPlayingNotesIndex, AbsoluteTimeMidiMessage)>,
    messages: Seq<AbsoluteTimeMidiMessage>,
    max_notes: u8,
)
    requires
        notes_wf(s),
        keys_unique(s),
    ensures
        max_notes > 0 && s.len() <= max_notes ==> update_spec(s, messages, max_notes).0.len() <= max_notes,
        max_notes == 0 ==> update_spec(s, messages, max_notes).1.len() == 0,
        forall|i: int|
            0 <= i < messages.len() && is_note_off_bytes((#[trigger] messages[i]).data@) ==> !has_key(
                update_spec(s, messages.take(i + 1), max_notes).0,
                note_index(messages[i].data@),
            ),
        forall|k: int| 0 <= k < update_spec(s, messages, max_notes).1.len() ==> {
            let o = #[trigger] update_spec(s, messages, max_notes).1[k];
            &&& is_note_off_bytes(o.data@)
            &&& o.data@[2] == 0
            &&& exists|i: int| 0 <= i < messages.len() && displaced_at(s, messages, max_notes, i, o)
        },
    decreases messages.len(),
{
    lemma_update_respects_max(s, messages, max_notes);
    lemma_update_sends_note_offs(s, messages, max_notes);
    if messages.len() > 0 {
        let n = messages.len() - 1;
        let d = messages.drop_last();
        lemma_update_displaces_notes(s, d, max_notes);
        lemma_update_respects_max(s, d, max_notes);
        lemma_update_unique(s, d, max_notes);
        let (s1, offs) = update_spec(s, d, max_notes);
        let m = messages.last();
        assert(messages.take(n) == d);
        assert(messages.take(n + 1) == messages);
        assert forall|i: int| 0 <= i < n implies messages.take(i) == d.take(i) && messages.take(i + 1) == d.take(
            i + 1,
        ) && messages[i] == d[i] by {
            assert(messages.take(i) =~= d.take(i));
            assert(messages.take(i + 1) =~= d.take(i + 1));
        }
        assert forall|i: int|
            0 <= i < messages.len() && is_note_off_bytes((#[trigger] messages[i]).data@) implies !has_key(
            update_spec(s, messages.take(i + 1), max_notes).0,
            note_index(messages[i].data@),
        ) by {
            if i < n {
                assert(messages.take(i + 1) == d.take(i + 1) && messages[i] == d[i]);
            } else {
                lemma_remove_unique(s1, note_index(m.data@));
            }
        }
        let r = update_spec(s, messages, max_notes).1;
        assert forall|k: int| 0 <= k < offs.len() implies exists|i: int|
            0 <= i < messages.len() && displaced_at(s, messages, max_notes, i, #[trigger] offs[k]) by {
            let o = offs[k];
            let i = choose|i: int| 0 <= i < d.len() && displaced_at(s, d, max_notes, i, o);
            assert(messages.take(i) == d.take(i) && messages.take(i + 1) == d.take(i + 1) && messages[i] == d[i]);
            assert(displaced_at(s, messages, max_notes, i, o));
        }
        if is_note_on_bytes(m.data@) && !is_note_off_bytes(m.data@) {
            let k = CurrentPlayingNotesIndex([channel_of(m.data@), m.data@[1]]);
            assert(k.0@ =~= note_index(m.data@));
            let s1i = notes_insert(s1, k, m);
            if max_notes > 0 && s1i.len() > max_notes && oldest_of(s1i) is Some {
                let p = oldest_of(s1i)->0;
                let o = AbsoluteTimeMidiMessage { data: ending_note_off(p.data@), play_time_in_samples: m.play_time_in_samples };
                assert(r == offs.push(o));
                lemma_notes_insert_wf(s1, k, m);
                lemma_insert_unique(s1, k, m);
                lemma_oldest_member(s1i);
                lemma_ending_note_off(p.data@);
                let q = choose|q: int| 0 <= q < s1i.len() && #[trigger] s1i[q].1 == p;
                assert(s1i[q].0.0@ == note_index(p.data@));
                assert(note_index(o.data@) =~= note_index(p.data@));
                lemma_remove_unique(s1i, note_index(p.data@));
                assert(update_spec(s, messages.take(n + 1), max_notes).0 == notes_remove(s1i, note_index(p.data@)));
                assert(update_spec(s, messages.take(n), max_notes).0 == s1);
                assert(displaced_at(s, messages, max_notes, n, o));
                assert forall|kk: int| 0 <= kk < r.len() implies exists|i: int|
                    0 <= i < messages.len() && displaced_at(s, messages, max_notes, i, #[trigger] r[kk]) by {
                    if kk < offs.len() {
                        assert(r[kk] == offs[kk]);
                    } else {
                        assert(r[kk] == o);
                    }
                }
            }
        }
    }
}

/// The oldest playing note is one of the playing notes.
pub proof fn lemma_oldest_member(s: Seq<(CurrentPlayingNotesIndex, AbsoluteTimeMidiMessage)>)
    ensures
        s.len() > 0 ==> oldest_of(s) is Some,
        oldest_of(s) matches Some(m) ==> exists|i: int| 0 <= i < s.len() && #[trigger] s[i].1 == m,
    decreases s.len(),
{
    if s.len() > 0 {
        let t = s.drop_last();
        lemma_oldest_member(t);
        if oldest_of(s) != Some(s.last().1) {
            let m = oldest_of(t)->0;
            let i = choose|i: int| 0 <= i < t.len() && #[trigger] t[i].1 == m;
            assert(s[i].1 == m);
        } else {
            assert(s[s.len() - 1].1 == s.last().1);
        }
    }
}

} // verus!
