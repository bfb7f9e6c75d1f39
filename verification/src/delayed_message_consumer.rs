use vstd::prelude::*;
use crate::absolute_time_midi_message::AbsoluteTimeMidiMessage;
use crate::absolute_time_midi_message_vector::{
    AbsoluteTimeMidiMessageVector, all_decodable, ordered_inserted,
};
use crate::midi_event::{MidiEvent, live_event};
use crate::midi_message_type::{MidiMessageType, is_note_on_bytes, is_note_off_bytes, channel_of};
use crate::messages::{NoteOff, decodable};
use crate::raw_message::{RawMessage, wire_array};
use crate::seq_util::{first_index, lemma_first_index_is, lemma_first_index_none, lemma_first_index_some};

verus! {

/// Key of a playing note.
#[derive(Clone, Copy, PartialEq, Eq, Structural, Debug)]
pub struct PlayingNoteIndex {
    pub channel: u8,
    pub pitch: u8,
}

/// The maximum number of notes allowed to play at once.
#[derive(Clone, Copy, PartialEq, Eq, Structural, Debug)]
pub enum MaxNotesParameter {
    Infinite,
    Limited(u8),
}

/// Why a message sits in the queue.
#[derive(Clone, Copy, PartialEq, Eq, Structural, Debug)]
pub enum MessageReason {
    Live,
    Delayed,
    MaxNotes,
    Retrigger,
    PlayUnprocessed,
}

/// The limit a byte value of the maximum-notes parameter stands for: a
/// quarter of it, no limit when that is zero.
pub open spec fn max_notes_of(byte: u8) -> MaxNotesParameter {
    if byte / 4 == 0 {
        MaxNotesParameter::Infinite
    } else {
        MaxNotesParameter::Limited((byte / 4) as u8)
    }
}

impl MaxNotesParameter {
    /// The limit of a byte value of the maximum-notes parameter.
    pub fn from_byte(byte: u8) -> (r: MaxNotesParameter)
        ensures
            r == max_notes_of(byte),
    {
        match byte / 4 {
            0 => MaxNotesParameter::Infinite,
            i => MaxNotesParameter::Limited(i),
        }
    }
}

pub open spec fn spec_should_limit(max_notes: MaxNotesParameter, currently_playing: int) -> bool {
    match max_notes {
        MaxNotesParameter::Infinite => false,
        MaxNotesParameter::Limited(limit) => currently_playing >= limit,
    }
}

impl MaxNotesParameter {
    /// True when a limit is set and at least that many notes play already.
    pub fn should_limit(&self, currently_playing: usize) -> (r: bool)
        ensures
            r == spec_should_limit(*self, currently_playing as int),
    {
        match self {
            MaxNotesParameter::Infinite => false,
            MaxNotesParameter::Limited(limit) => currently_playing >= *limit as usize,
        }
    }
}

/// The note index (channel, pitch) of a note message.
pub open spec fn index_of(b: Seq<u8>) -> PlayingNoteIndex {
    PlayingNoteIndex { channel: channel_of(b), pitch: b[1] }
}

/// Configuration of one scheduling pass over a buffer.
pub struct SchedulerConfig {
    pub buffer_duration_in_samples: usize,
    pub delay_is_active: bool,
    pub max_notes: MaxNotesParameter,
    pub apply_max_notes_to_delayed_notes_only: bool,
    pub current_time_in_samples: usize,
}

/// Abstract state of a scheduling pass: the playing notes in insertion order,
/// the messages kept for later buffers, the note ons to put back in the
/// queue and the events sent to the host.
pub ghost struct SchedulerModel {
    pub playing: Seq<(PlayingNoteIndex, AbsoluteTimeMidiMessage)>,
    pub queued: Seq<AbsoluteTimeMidiMessage>,
    pub requeue: Seq<AbsoluteTimeMidiMessage>,
    pub events: Seq<MidiEvent>,
}

pub open spec fn playing_key(k: PlayingNoteIndex) -> spec_fn((PlayingNoteIndex, AbsoluteTimeMidiMessage)) -> bool {
    |e: (PlayingNoteIndex, AbsoluteTimeMidiMessage)| e.0 == k
}

pub open spec fn requeue_key(id: usize) -> spec_fn(AbsoluteTimeMidiMessage) -> bool {
    |m: AbsoluteTimeMidiMessage| m.id == id
}

/// Sets (or replaces) the playing note of an index.
pub open spec fn playing_insert(
    s: Seq<(PlayingNoteIndex, AbsoluteTimeMidiMessage)>,
    k: PlayingNoteIndex,
    m: AbsoluteTimeMidiMessage,
) -> Seq<(PlayingNoteIndex, AbsoluteTimeMidiMessage)> {
    match first_index(s, playing_key(k)) {
        Some(i) => s.update(i, (k, m)),
        None => s.push((k, m)),
    }
}

pub open spec fn playing_remove(
    s: Seq<(PlayingNoteIndex, AbsoluteTimeMidiMessage)>,
    k: PlayingNoteIndex,
) -> Seq<(PlayingNoteIndex, AbsoluteTimeMidiMessage)> {
    match first_index(s, playing_key(k)) {
        Some(i) => s.remove(i),
        None => s,
    }
}

/// Sets (or replaces) the note on kept under an identifier.
pub open spec fn requeue_insert(s: Seq<AbsoluteTimeMidiMessage>, m: AbsoluteTimeMidiMessage) -> Seq<AbsoluteTimeMidiMessage> {
    match first_index(s, requeue_key(m.id)) {
        Some(i) => s.update(i, m),
        None => s.push(m),
    }
}

pub open spec fn requeue_remove(s: Seq<AbsoluteTimeMidiMessage>, id: usize) -> Seq<AbsoluteTimeMidiMessage> {
    match first_index(s, requeue_key(id)) {
        Some(i) => s.remove(i),
        None => s,
    }
}

/// Oldest playing note: the fold over the playing notes in order that keeps
/// the first one, then any with a smaller identifier (skipping live notes
/// when `delayed_only`).
pub open spec fn oldest_from(
    s: Seq<(PlayingNoteIndex, AbsoluteTimeMidiMessage)>,
    delayed_only: bool,
) -> Option<AbsoluteTimeMidiMessage>
    decreases s.len(),
{
    if s.len() == 0 {
        None
    } else {
        let prev = oldest_from(s.drop_last(), delayed_only);
        let m = s.last().1;
        if prev is None || (!(delayed_only && m.reason == MessageReason::Live) && prev->0.id > m.id) {
            Some(m)
        } else {
            prev
        }
    }
}

/// The oldest playing note is the playing note with the smallest
/// identifier: it is one of the playing notes (there is one whenever a note
/// plays), and no playing note has a smaller identifier. When only delayed
/// notes count, it is the first playing note or a note that is not live,
/// and no note that is not live, nor the first playing note, has a smaller
/// identifier.
pub proof fn lemma_oldest_is_smallest_id(s: Seq<(PlayingNoteIndex, AbsoluteTimeMidiMessage)>, delayed_only: bool)
    ensures
        s.len() > 0 <==> oldest_from(s, delayed_only) is Some,
        oldest_from(s, delayed_only) matches Some(m) ==> {
            &&& exists|j: int| 0 <= j < s.len() && #[trigger] s[j].1 == m
            &&& m.id <= s[0].1.id
            &&& !delayed_only ==> forall|j: int| 0 <= j < s.len() ==> m.id <= (#[trigger] s[j]).1.id
            &&& delayed_only ==> forall|j: int|
                0 <= j < s.len() && (#[trigger] s[j]).1.reason != MessageReason::Live ==> m.id <= s[j].1.id
            &&& delayed_only ==> (m == s[0].1 || m.reason != MessageReason::Live)
        },
    decreases s.len(),
{
    if s.len() > 0 {
        let d = s.drop_last();
        lemma_oldest_is_smallest_id(d, delayed_only);
        let m = s.last().1;
        let r = oldest_from(s, delayed_only);
        assert(s[s.len() - 1].1 == m);
        if d.len() == 0 {
            assert(r == Some(m));
            assert(s[0].1 == m);
        } else {
            let p = oldest_from(d, delayed_only)->0;
            assert(d[0] == s[0]);
            let j0 = choose|j: int| 0 <= j < d.len() && #[trigger] d[j].1 == p;
            assert(s[j0] == d[j0]);
            assert forall|j: int| 0 <= j < d.len() implies #[trigger] s[j] == d[j] by {}
        }
    }
}

/// Bytes of the note off that ends a note on of this channel and pitch.
pub open spec fn note_off_bytes(channel: u8, pitch: u8) -> [u8; 3] {
    [(0x80 + channel) as u8, pitch, 0u8]
}

/// One event offered to the buffer. `None` when its offset in the buffer
/// would be negative.
pub open spec fn add_event_spec(
    cfg: SchedulerConfig,
    st: SchedulerModel,
    e: AbsoluteTimeMidiMessage,
) -> Option<SchedulerModel> {
    let cur = cfg.current_time_in_samples;
    let b = e.data.0@;
    if cur + cfg.buffer_duration_in_samples > usize::MAX {
        None
    } else if e.play_time_in_samples < cur + cfg.buffer_duration_in_samples {
        let sent = SchedulerModel {
            events: st.events.push(live_event(wire_array(e.data.0), (e.play_time_in_samples - cur) as i32)),
            ..st
        };
        let after_send: Option<SchedulerModel> = if e.play_time_in_samples >= cur {
            if is_note_off_bytes(b) {
                match first_index(st.requeue, requeue_key(e.id)) {
                    None => Some(st),
                    Some(i) => {
                        let note_on = st.requeue[i];
                        let live_delayed = e.reason == MessageReason::Live && cfg.delay_is_active;
                        if live_delayed && st.playing.len() == 0 {
                            None
                        } else if live_delayed && !spec_should_limit(cfg.max_notes, st.playing.len() - 1) {
                            Some(SchedulerModel {
                                requeue: st.requeue.update(i, AbsoluteTimeMidiMessage { reason: MessageReason::Delayed, ..note_on }),
                                ..st
                            })
                        } else if cfg.apply_max_notes_to_delayed_notes_only && e.reason == MessageReason::MaxNotes
                            && note_on.reason == MessageReason::Live {
                            Some(st)
                        } else {
                            Some(SchedulerModel {
                                playing: playing_remove(st.playing, index_of(b)),
                                requeue: requeue_remove(st.requeue, e.id),
                                events: sent.events,
                                ..st
                            })
                        }
                    },
                }
            } else {
                Some(sent)
            }
        } else {
            Some(st)
        };
        match after_send {
            None => None,
            Some(s1) => if is_note_on_bytes(b) {
                Some(SchedulerModel {
                    playing: playing_insert(s1.playing, index_of(b), e),
                    requeue: requeue_insert(s1.requeue, e),
                    ..s1
                })
            } else {
                Some(s1)
            },
        }
    } else {
        Some(SchedulerModel { queued: st.queued.push(e), ..st })
    }
}

/// Retrigger or polyphony note off, then the note on itself.
pub open spec fn note_on_spec(
    cfg: SchedulerConfig,
    st: SchedulerModel,
    m: AbsoluteTimeMidiMessage,
) -> Option<SchedulerModel> {
    let b = m.data.0@;
    let index = index_of(b);
    match first_index(st.playing, playing_key(index)) {
        Some(i) => {
            let off = AbsoluteTimeMidiMessage {
                data: RawMessage(note_off_bytes(index.channel, index.pitch)),
                id: st.playing[i].1.id,
                reason: MessageReason::Retrigger,
                play_time_in_samples: m.play_time_in_samples,
            };
            if m.play_time_in_samples == usize::MAX {
                None
            } else {
                match add_event_spec(cfg, st, off) {
                    None => None,
                    Some(s1) => add_event_spec(
                        cfg,
                        s1,
                        AbsoluteTimeMidiMessage { play_time_in_samples: (m.play_time_in_samples + 1) as usize, ..m },
                    ),
                }
            }
        },
        None => {
            if spec_should_limit(cfg.max_notes, st.playing.len() as int) {
                match oldest_from(st.playing, cfg.apply_max_notes_to_delayed_notes_only) {
                    Some(oldest) => {
                        let ob = oldest.data.0@;
                        let off = AbsoluteTimeMidiMessage {
                            data: RawMessage(note_off_bytes(channel_of(ob), ob[1])),
                            id: oldest.id,
                            reason: MessageReason::MaxNotes,
                            play_time_in_samples: m.play_time_in_samples,
                        };
                        match add_event_spec(cfg, st, off) {
                            None => None,
                            Some(s1) => add_event_spec(cfg, s1, m),
                        }
                    },
                    None => add_event_spec(cfg, st, m),
                }
            } else {
                add_event_spec(cfg, st, m)
            }
        },
    }
}

/// One queued message processed. `None` when it cannot be scheduled (see
/// `try_process_scheduled_events`).
pub open spec fn process_one_spec(
    cfg: SchedulerConfig,
    st: SchedulerModel,
    m: AbsoluteTimeMidiMessage,
) -> Option<SchedulerModel> {
    let b = m.data.0@;
    if m.play_time_in_samples < cfg.current_time_in_samples && !is_note_on_bytes(b) {
        None
    } else if is_note_on_bytes(b) {
        note_on_spec(cfg, st, m)
    } else if is_note_off_bytes(b) {
        match first_index(st.playing, playing_key(index_of(b))) {
            Some(i) => if st.playing[i].1.id == m.id {
                add_event_spec(cfg, st, m)
            } else {
                Some(st)
            },
            None => Some(st),
        }
    } else {
        add_event_spec(cfg, st, m)
    }
}

/// All queued messages processed in order.
pub open spec fn process_all_spec(
    cfg: SchedulerConfig,
    st: SchedulerModel,
    msgs: Seq<AbsoluteTimeMidiMessage>,
) -> Option<SchedulerModel>
    decreases msgs.len(),
{
    if msgs.len() == 0 {
        Some(st)
    } else {
        match process_all_spec(cfg, st, msgs.drop_last()) {
            None => None,
            Some(s) => process_one_spec(cfg, s, msgs.last()),
        }
    }
}

/// The note ons to keep, put back into the queue in order one after the other.
pub open spec fn requeue_all(
    queued: Seq<AbsoluteTimeMidiMessage>,
    requeue: Seq<AbsoluteTimeMidiMessage>,
) -> Seq<AbsoluteTimeMidiMessage>
    decreases requeue.len(),
{
    if requeue.len() == 0 {
        queued
    } else {
        ordered_inserted(requeue_all(queued, requeue.drop_last()), requeue.last())
    }
}

/// The playing notes of a pass, keyed by channel and pitch, in insertion order.
pub struct PlayingNotes(pub Vec<(PlayingNoteIndex, AbsoluteTimeMidiMessage)>);

impl PlayingNotes {
    pub fn new() -> (r: PlayingNotes)
        ensures
            r.0@ == Seq::<(PlayingNoteIndex, AbsoluteTimeMidiMessage)>::empty(),
    {
        PlayingNotes(Vec::new())
    }

    pub fn len(&self) -> (r: usize)
        ensures
            r == self.0@.len(),
    {
        self.0.len()
    }

    fn find(&self, k: PlayingNoteIndex) -> (r: Option<usize>)
        ensures
            r matches Some(i) ==> i < self.0@.len(),
            match first_index(self.0@, playing_key(k)) {
                Some(i) => r is Some && r->0 == i,
                None => r is None,
            },
    {
        let n = self.0.len();
        let mut i: usize = 0;
        while i < n
            invariant
                n == self.0@.len(),
                0 <= i <= n,
                forall|j: int| 0 <= j < i ==> !(#[trigger] playing_key(k)(self.0@[j])),
            decreases n - i,
        {
            if self.0[i].0 == k {
                proof {
                    lemma_first_index_is(self.0@, playing_key(k), i as int);
                }
                return Some(i);
            }
            i = i + 1;
        }
        proof {
            lemma_first_index_none(self.0@, playing_key(k));
        }
        None
    }

    /// The note playing at this index.
    pub fn get(&self, k: PlayingNoteIndex) -> (r: Option<AbsoluteTimeMidiMessage>)
        ensures
            match first_index(self.0@, playing_key(k)) {
                Some(i) => r == Some(self.0@[i].1),
                None => r is None,
            },
    {
        match self.find(k) {
            Some(i) => {
                Some(self.0[i].1)
            },
            None => None,
        }
    }

    pub fn insert(&mut self, k: PlayingNoteIndex, m: AbsoluteTimeMidiMessage)
        ensures
            final(self).0@ == playing_insert(old(self).0@, k, m),
    {
        match self.find(k) {
            Some(i) => {
                self.0.set(i, (k, m));
            },
            None => {
                self.0.push((k, m));
            },
        }
    }

    pub fn remove(&mut self, k: PlayingNoteIndex)
        ensures
            final(self).0@ == playing_remove(old(self).0@, k),
    {
        match self.find(k) {
            Some(i) => {
                self.0.remove(i);
            },
            None => {},
        }
    }

    /// The first playing note, replaced along the way by any note with a
    /// smaller identifier (live notes are skipped for that when `delayed_only`).
    pub fn oldest_playing_note(&self, delayed_only: bool) -> (r: Option<AbsoluteTimeMidiMessage>)
        ensures
            r == oldest_from(self.0@, delayed_only),
    {
        let mut prev: Option<AbsoluteTimeMidiMessage> = None;
        let n = self.0.len();
        let mut i: usize = 0;
        while i < n
            invariant
                n == self.0@.len(),
                0 <= i <= n,
                prev == oldest_from(self.0@.take(i as int), delayed_only),
            decreases n - i,
        {
            assert(self.0@.take(i + 1).drop_last() == self.0@.take(i as int));
            let message = self.0[i].1;
            let replace = match prev {
                None => true,
                Some(p) => !(delayed_only && message.reason == MessageReason::Live) && p.id > message.id,
            };
            if replace {
                prev = Some(message);
            }
            i = i + 1;
        }
        assert(self.0@.take(n as int) == self.0@);
        prev
    }
}

fn requeue_find(v: &Vec<AbsoluteTimeMidiMessage>, id: usize) -> (r: Option<usize>)
    ensures
        r matches Some(i) ==> i < v@.len(),
        match first_index(v@, requeue_key(id)) {
            Some(i) => r is Some && r->0 == i,
            None => r is None,
        },
{
    let n = v.len();
    let mut i: usize = 0;
    while i < n
        invariant
            n == v@.len(),
            0 <= i <= n,
            forall|j: int| 0 <= j < i ==> !(#[trigger] requeue_key(id)(v@[j])),
        decreases n - i,
    {
        if v[i].id == id {
            proof {
                lemma_first_index_is(v@, requeue_key(id), i as int);
            }
            return Some(i);
        }
        i = i + 1;
    }
    proof {
        lemma_first_index_none(v@, requeue_key(id));
    }
    None
}

fn requeue_insert_exec(v: &mut Vec<AbsoluteTimeMidiMessage>, m: AbsoluteTimeMidiMessage)
    ensures
        final(v)@ == requeue_insert(old(v)@, m),
{
    match requeue_find(v, m.id) {
        Some(i) => {
            v.set(i, m);
        },
        None => {
            v.push(m);
        },
    }
}

fn requeue_remove_exec(v: &mut Vec<AbsoluteTimeMidiMessage>, id: usize)
    ensures
        final(v)@ == requeue_remove(old(v)@, id),
{
    match requeue_find(v, id) {
        Some(i) => {
            v.remove(i);
        },
        None => {},
    }
}

/// The notes of a model are all note ons.
pub open spec fn playing_wf(s: Seq<(PlayingNoteIndex, AbsoluteTimeMidiMessage)>) -> bool {
    forall|i: int| 0 <= i < s.len() ==> is_note_on_bytes(#[trigger] s[i].1.data.0@)
}

pub open spec fn model_wf(st: SchedulerModel) -> bool {
    &&& playing_wf(st.playing)
    &&& all_decodable(st.queued)
    &&& all_decodable(st.requeue)
}

proof fn lemma_note_status(b: u8)
    ensures
        (b & 0xF0u8) == 0x90u8 ==> 0x90 <= b <= 0x9F,
        (b & 0xF0u8) == 0x80u8 ==> 0x80 <= b <= 0x8F,
        b & 0x0Fu8 <= 15,
{
    assert((b & 0xF0u8) == 0x90u8 ==> 0x90 <= b <= 0x9F) by (bit_vector);
    assert((b & 0xF0u8) == 0x80u8 ==> 0x80 <= b <= 0x8F) by (bit_vector);
    assert(b & 0x0Fu8 <= 15) by (bit_vector);
}

proof fn lemma_note_off_bytes_decodable(channel: u8, pitch: u8)
    requires
        channel <= 15,
    ensures
        decodable(note_off_bytes(channel, pitch)@),
        is_note_off_bytes(note_off_bytes(channel, pitch)@),
        channel_of(note_off_bytes(channel, pitch)@) == channel,
        note_off_bytes(channel, pitch)@[1] == pitch,
{
    let b: u8 = (0x80 + channel) as u8;
    assert(b == 0x80 + channel);
    assert((b & 0xF0u8) == 0x80u8 && (b & 0x0Fu8) == channel) by (bit_vector)
        requires
            b == 0x80 + channel,
            channel <= 15,
    ;
}

proof fn lemma_playing_insert_wf(s: Seq<(PlayingNoteIndex, AbsoluteTimeMidiMessage)>, k: PlayingNoteIndex, m: AbsoluteTimeMidiMessage)
    requires
        playing_wf(s),
        is_note_on_bytes(m.data.0@),
    ensures
        playing_wf(playing_insert(s, k, m)),
{
    lemma_first_index_some(s, playing_key(k));
    let r = playing_insert(s, k, m);
    assert forall|i: int| 0 <= i < r.len() implies is_note_on_bytes(#[trigger] r[i].1.data.0@) by {
        if i < s.len() && r[i] != (k, m) {
            assert(r[i] == s[i]);
        }
    }
}

proof fn lemma_playing_remove_wf(s: Seq<(PlayingNoteIndex, AbsoluteTimeMidiMessage)>, k: PlayingNoteIndex)
    requires
        playing_wf(s),
    ensures
        playing_wf(playing_remove(s, k)),
{
    lemma_first_index_some(s, playing_key(k));
    let r = playing_remove(s, k);
    match first_index(s, playing_key(k)) {
        Some(p) => {
            assert forall|i: int| 0 <= i < r.len() implies is_note_on_bytes(#[trigger] r[i].1.data.0@) by {
                if i < p {
                    assert(r[i] == s[i]);
                } else {
                    assert(r[i] == s[i + 1]);
                }
            }
        },
        None => {},
    }
}

proof fn lemma_requeue_insert_wf(s: Seq<AbsoluteTimeMidiMessage>, m: AbsoluteTimeMidiMessage)
    requires
        all_decodable(s),
        decodable(m.data.0@),
    ensures
        all_decodable(requeue_insert(s, m)),
{
    lemma_first_index_some(s, requeue_key(m.id));
    let r = requeue_insert(s, m);
    assert forall|i: int| 0 <= i < r.len() implies decodable(#[trigger] r[i].data.0@) by {
        if i < s.len() && r[i] != m {
            assert(r[i] == s[i]);
        }
    }
}

proof fn lemma_requeue_remove_wf(s: Seq<AbsoluteTimeMidiMessage>, id: usize)
    requires
        all_decodable(s),
    ensures
        all_decodable(requeue_remove(s, id)),
{
    lemma_first_index_some(s, requeue_key(id));
    let r = requeue_remove(s, id);
    match first_index(s, requeue_key(id)) {
        Some(p) => {
            assert forall|i: int| 0 <= i < r.len() implies decodable(#[trigger] r[i].data.0@) by {
                if i < p {
                    assert(r[i] == s[i]);
                } else {
                    assert(r[i] == s[i + 1]);
                }
            }
        },
        None => {},
    }
}

/// Schedules the queued messages of one buffer: sends what falls in it,
/// enforces the polyphony limit, retriggers notes that start again while
/// playing and keeps the playing note ons for the next buffer.
pub struct ScheduledEventsHelper {
    playing_notes: PlayingNotes,
    pub queued_messages: AbsoluteTimeMidiMessageVector,
    notes_on_to_requeue: Vec<AbsoluteTimeMidiMessage>,
    pub events: Vec<MidiEvent>,
    buffer_duration_in_samples: usize,
    delay_is_active: bool,
    max_notes: MaxNotesParameter,
    apply_max_notes_to_delayed_notes_only: bool,
    current_time_in_samples: usize,
}

impl ScheduledEventsHelper {
    pub closed spec fn cfg(&self) -> SchedulerConfig {
        SchedulerConfig {
            buffer_duration_in_samples: self.buffer_duration_in_samples,
            delay_is_active: self.delay_is_active,
            max_notes: self.max_notes,
            apply_max_notes_to_delayed_notes_only: self.apply_max_notes_to_delayed_notes_only,
            current_time_in_samples: self.current_time_in_samples,
        }
    }

    pub closed spec fn model(&self) -> SchedulerModel {
        SchedulerModel {
            playing: self.playing_notes.0@,
            queued: self.queued_messages@,
            requeue: self.notes_on_to_requeue@,
            events: self.events@,
        }
    }

    /// A helper with nothing playing, nothing queued and no event yet.
    pub fn new(
        buffer_duration_in_samples: usize,
        delay_is_active: bool,
        max_notes: MaxNotesParameter,
        apply_max_notes_to_delayed_notes_only: bool,
        current_time_in_samples: usize,
    ) -> (r: Self)
        ensures
            r.cfg() == (SchedulerConfig {
                buffer_duration_in_samples,
                delay_is_active,
                max_notes,
                apply_max_notes_to_delayed_notes_only,
                current_time_in_samples,
            }),
            r.model() == (SchedulerModel {
                playing: Seq::empty(),
                queued: Seq::empty(),
                requeue: Seq::empty(),
                events: Seq::empty(),
            }),
    {
        Self {
            playing_notes: PlayingNotes::new(),
            queued_messages: AbsoluteTimeMidiMessageVector::default(),
            notes_on_to_requeue: Vec::new(),
            events: Vec::new(),
            buffer_duration_in_samples,
            delay_is_active,
            max_notes,
            apply_max_notes_to_delayed_notes_only,
            current_time_in_samples,
        }
    }

    /// Offers one event to the buffer; false when its offset in the buffer
    /// would be negative.
    fn add_event(&mut self, event: AbsoluteTimeMidiMessage) -> (ok: bool)
        requires
            decodable(event.data.0@),
            model_wf(old(self).model()),
        ensures
            ok == add_event_spec(old(self).cfg(), old(self).model(), event) is Some,
            ok ==> final(self).model() == add_event_spec(old(self).cfg(), old(self).model(), event)->0,
            ok ==> model_wf(final(self).model()),
            final(self).cfg() == old(self).cfg(),
            final(self).queued_messages.next_id == old(self).queued_messages.next_id,
    {
        let cur = self.current_time_in_samples;
        if cur > usize::MAX - self.buffer_duration_in_samples {
            return false;
        }
        let ghost st = self.model();
        let kind = MidiMessageType::from_raw(event.data);
        proof {
            lemma_note_status(event.data.0@[0]);
        }
        if event.play_time_in_samples < cur + self.buffer_duration_in_samples {
            if event.play_time_in_samples >= cur {
                if let MidiMessageType::NoteOffMessage(_) = kind {
                    match requeue_find(&self.notes_on_to_requeue, event.id) {
                        None => {
                            return true;
                        },
                        Some(i) => {
                            let note_on = self.notes_on_to_requeue[i];
                            if event.reason == MessageReason::Live && self.delay_is_active {
                                if self.playing_notes.len() == 0 {
                                    return false;
                                }
                                if !self.max_notes.should_limit(self.playing_notes.len() - 1) {
                                    self.notes_on_to_requeue.set(
                                        i,
                                        AbsoluteTimeMidiMessage { reason: MessageReason::Delayed, ..note_on },
                                    );
                                    proof {
                                        let r = self.notes_on_to_requeue@;
                                        assert forall|j: int| 0 <= j < r.len() implies decodable(
                                            #[trigger] r[j].data.0@,
                                        ) by {
                                            assert(r[j].data == st.requeue[j].data);
                                        }
                                    }
                                    return true;
                                }
                            }
                            if self.apply_max_notes_to_delayed_notes_only && event.reason
                                == MessageReason::MaxNotes && note_on.reason == MessageReason::Live {
                                return true;
                            }
                            self.playing_notes.remove(
                                PlayingNoteIndex { pitch: event.get_pitch(), channel: event.get_channel() },
                            );
                            requeue_remove_exec(&mut self.notes_on_to_requeue, event.id);
                            proof {
                                lemma_playing_remove_wf(st.playing, index_of(event.data.0@));
                                lemma_requeue_remove_wf(st.requeue, event.id);
                            }
                        },
                    }
                }
                self.events.push(event.new_midi_event(cur));
            }
            if let MidiMessageType::NoteOnMessage(_) = kind {
                let ghost before = self.model();
                self.playing_notes.insert(
                    PlayingNoteIndex { pitch: event.get_pitch(), channel: event.get_channel() },
                    event,
                );
                requeue_insert_exec(&mut self.notes_on_to_requeue, event);
                proof {
                    lemma_playing_insert_wf(before.playing, index_of(event.data.0@), event);
                    lemma_requeue_insert_wf(before.requeue, event);
                }
            }
        } else {
            self.queued_messages.push(event);
            proof {
                let r = self.queued_messages@;
                assert forall|j: int| 0 <= j < r.len() implies decodable(#[trigger] r[j].data.0@) by {
                    if j < st.queued.len() {
                        assert(r[j] == st.queued[j]);
                    }
                }
            }
        }
        true
    }

    /// Processes one queued message; false when it cannot be scheduled.
    fn process_one(&mut self, message: AbsoluteTimeMidiMessage) -> (ok: bool)
        requires
            decodable(message.data.0@),
            model_wf(old(self).model()),
        ensures
            ok == process_one_spec(old(self).cfg(), old(self).model(), message) is Some,
            ok ==> final(self).model() == process_one_spec(old(self).cfg(), old(self).model(), message)->0,
            ok ==> model_wf(final(self).model()),
            final(self).cfg() == old(self).cfg(),
            final(self).queued_messages.next_id == old(self).queued_messages.next_id,
    {
        let mut message = message;
        let kind = MidiMessageType::from_raw(message.data);
        proof {
            lemma_note_status(message.data.0@[0]);
        }
        if message.play_time_in_samples < self.current_time_in_samples {
            match kind {
                MidiMessageType::NoteOnMessage(_) => {},
                _ => {
                    return false;
                },
            }
        }
        match kind {
            MidiMessageType::NoteOnMessage(note_on) => {
                let index = PlayingNoteIndex { channel: note_on.channel, pitch: note_on.pitch };
                assert(index == index_of(message.data.0@));
                let ghost st = self.model();
                match self.playing_notes.get(index) {
                    Some(playing) => {
                        proof {
                            lemma_note_off_bytes_decodable(note_on.channel, note_on.pitch);
                        }
                        let off = AbsoluteTimeMidiMessage {
                            data: NoteOff { channel: note_on.channel, pitch: note_on.pitch, velocity: 0 }.into_raw(),
                            id: playing.id,
                            reason: MessageReason::Retrigger,
                            play_time_in_samples: message.play_time_in_samples,
                        };
                        assert(off.data.0 == note_off_bytes(note_on.channel, note_on.pitch));
                        if !self.add_event(off) {
                            return false;
                        }
                        if message.play_time_in_samples == usize::MAX {
                            return false;
                        }
                        message.play_time_in_samples = message.play_time_in_samples + 1;
                    },
                    None => {
                        if self.max_notes.should_limit(self.playing_notes.len()) {
                            match self.playing_notes.oldest_playing_note(
                                self.apply_max_notes_to_delayed_notes_only,
                            ) {
                                Some(oldest) => {
                                    proof {
                                        lemma_oldest_from_member(st.playing, self.apply_max_notes_to_delayed_notes_only);
                                        lemma_note_status(oldest.data.0@[0]);
                                        lemma_note_off_bytes_decodable(
                                            channel_of(oldest.data.0@),
                                            oldest.data.0@[1],
                                        );
                                    }
                                    let off = AbsoluteTimeMidiMessage {
                                        data: NoteOff {
                                            channel: oldest.get_channel(),
                                            pitch: oldest.get_pitch(),
                                            velocity: 0,
                                        }.into_raw(),
                                        id: oldest.id,
                                        play_time_in_samples: message.play_time_in_samples,
                                        reason: MessageReason::MaxNotes,
                                    };
                                    assert(off.data.0 == note_off_bytes(
                                        channel_of(oldest.data.0@),
                                        oldest.data.0@[1],
                                    ));
                                    if !self.add_event(off) {
                                        return false;
                                    }
                                },
                                None => {},
                            }
                        }
                    },
                }
                self.add_event(message)
            },
            MidiMessageType::NoteOffMessage(note_off) => {
                let playing_note = PlayingNoteIndex { channel: note_off.channel, pitch: note_off.pitch };
                assert(playing_note == index_of(message.data.0@));
                match self.playing_notes.get(playing_note) {
                    Some(currently_playing_note) => {
                        if currently_playing_note.id == message.id {
                            self.add_event(message)
                        } else {
                            true
                        }
                    },
                    None => true,
                }
            },
            _ => self.add_event(message),
        }
    }
}

impl ScheduledEventsHelper {
    /// Runs the pass over the queued messages in order, then puts the note
    /// ons still playing back into the queue. `None` exactly when the pass
    /// cannot go on: a message other than a note on lies in the past, a
    /// retriggered note on sits at the last representable sample, or a live
    /// note off meets an empty set of playing notes while a delay is active.
    pub fn try_process_scheduled_events(
        self,
        messages: &AbsoluteTimeMidiMessageVector,
    ) -> (r: Option<(AbsoluteTimeMidiMessageVector, Vec<MidiEvent>)>)
        requires
            all_decodable(messages@),
            model_wf(self.model()),
        ensures
            match process_all_spec(self.cfg(), self.model(), messages@) {
                None => r is None,
                Some(st) => r matches Some((q, ev)) && q@ == requeue_all(st.queued, st.requeue)
                    && ev@ == st.events && q.next_id == messages.next_id && all_decodable(q@),
            },
    {
        let mut this = self;
        this.queued_messages.next_id = messages.next_id;
        let ghost cfg = this.cfg();
        let ghost start = this.model();
        assert(start == self.model());
        let n = messages.messages.len();
        let mut i: usize = 0;
        while i < n
            invariant
                n == messages@.len(),
                0 <= i <= n,
                all_decodable(messages@),
                this.cfg() == cfg,
                cfg == self.cfg(),
                start == self.model(),
                this.queued_messages.next_id == messages.next_id,
                process_all_spec(cfg, start, messages@.take(i as int)) == Some(this.model()),
                model_wf(this.model()),
            decreases n - i,
        {
            assert(messages@.take(i + 1).drop_last() == messages@.take(i as int));
            assert(messages@.take(i + 1).last() == messages@[i as int]);
            assert(decodable(messages@[i as int].data.0@));
            let message = messages.messages[i];
            let ghost before = this.model();
            if !this.process_one(message) {
                assert(process_one_spec(cfg, before, message) is None);
                assert(process_all_spec(cfg, start, messages@.take(i + 1)) is None);
                proof {
                    lemma_process_all_none_stays(cfg, start, messages@, i as int + 1);
                }
                assert(messages@.take(n as int) == messages@);
                return None;
            }
            i = i + 1;
        }
        assert(messages@.take(n as int) == messages@);
        let ghost st = this.model();
        let mut queued = this.queued_messages;
        let requeue = this.notes_on_to_requeue;
        let m = requeue.len();
        let mut j: usize = 0;
        while j < m
            invariant
                m == requeue@.len(),
                0 <= j <= m,
                requeue@ == st.requeue,
                all_decodable(st.requeue),
                all_decodable(queued@),
                queued@ == requeue_all(st.queued, st.requeue.take(j as int)),
                queued.next_id == messages.next_id,
            decreases m - j,
        {
            assert(st.requeue.take(j + 1).drop_last() == st.requeue.take(j as int));
            let ghost before = queued@;
            queued.ordered_insert(requeue[j]);
            proof {
                crate::absolute_time_midi_message_vector::lemma_first_later_bounds(
                    before,
                    requeue@[j as int].play_time_in_samples,
                );
                let p = crate::absolute_time_midi_message_vector::first_later(
                    before,
                    requeue@[j as int].play_time_in_samples,
                );
                assert(decodable(requeue@[j as int].data.0@));
                assert forall|k: int| 0 <= k < queued@.len() implies decodable(#[trigger] queued@[k].data.0@) by {
                    if k < p {
                        assert(queued@[k] == before[k]);
                    } else if k > p {
                        assert(queued@[k] == before[k - 1]);
                    }
                }
            }
            j = j + 1;
        }
        assert(st.requeue.take(m as int) == st.requeue);
        Some((queued, this.events))
    }

    /// Runs the pass on inputs it can complete (see
    /// `try_process_scheduled_events`).
    pub fn process_scheduled_events(
        self,
        messages: &AbsoluteTimeMidiMessageVector,
    ) -> (r: (AbsoluteTimeMidiMessageVector, Vec<MidiEvent>))
        requires
            all_decodable(messages@),
            model_wf(self.model()),
            process_all_spec(self.cfg(), self.model(), messages@) is Some,
        ensures
            ({
                let st = process_all_spec(self.cfg(), self.model(), messages@)->0;
                &&& r.0@ == requeue_all(st.queued, st.requeue)
                &&& r.1@ == st.events
                &&& r.0.next_id == messages.next_id
                &&& all_decodable(r.0@)
            }),
    {
        match self.try_process_scheduled_events(messages) {
            Some(r) => r,
            None => {
                proof {
                    assert(false);
                }
                (AbsoluteTimeMidiMessageVector::default(), Vec::new())
            },
        }
    }
}

/// Once a pass has failed it stays failed whatever follows.
pub proof fn lemma_process_all_none_stays(
    cfg: SchedulerConfig,
    st: SchedulerModel,
    msgs: Seq<AbsoluteTimeMidiMessage>,
    k: int,
)
    requires
        0 <= k <= msgs.len(),
        process_all_spec(cfg, st, msgs.take(k)) is None,
    ensures
        process_all_spec(cfg, st, msgs) is None,
    decreases msgs.len() - k,
{
    if k < msgs.len() {
        assert(msgs.take(k + 1).drop_last() == msgs.take(k));
        lemma_process_all_none_stays(cfg, st, msgs, k + 1);
    } else {
        assert(msgs.take(k) == msgs);
    }
}

/// The model a fresh helper starts from.
pub open spec fn empty_model() -> SchedulerModel {
    SchedulerModel { playing: Seq::empty(), queued: Seq::empty(), requeue: Seq::empty(), events: Seq::empty() }
}

/// Schedules `messages` over a buffer of `samples` samples starting at
/// `current_time_in_samples` (a fresh helper run once).
pub fn process_scheduled_events(
    samples: usize,
    delay_is_active: bool,
    max_notes: MaxNotesParameter,
    apply_max_notes_to_delayed_notes_only: bool,
    current_time_in_samples: usize,
    messages: &AbsoluteTimeMidiMessageVector,
) -> (r: Option<(AbsoluteTimeMidiMessageVector, Vec<MidiEvent>)>)
    requires
        all_decodable(messages@),
    ensures
        ({
            let cfg = SchedulerConfig {
                buffer_duration_in_samples: samples,
                delay_is_active,
                max_notes,
                apply_max_notes_to_delayed_notes_only,
                current_time_in_samples,
            };
            match process_all_spec(cfg, empty_model(), messages@) {
                None => r is None,
                Some(st) => r matches Some((q, ev)) && q@ == requeue_all(st.queued, st.requeue)
                    && ev@ == st.events && q.next_id == messages.next_id && all_decodable(q@),
            }
        }),
{
    let helper = ScheduledEventsHelper::new(
        samples,
        delay_is_active,
        max_notes,
        apply_max_notes_to_delayed_notes_only,
        current_time_in_samples,
    );
    helper.try_process_scheduled_events(messages)
}

/// Events of the messages that fall in the buffer, in queue order.
pub open spec fn raw_events(
    msgs: Seq<AbsoluteTimeMidiMessage>,
    current_time_in_samples: usize,
    samples: usize,
) -> Seq<MidiEvent>
    decreases msgs.len(),
{
    if msgs.len() == 0 {
        Seq::empty()
    } else {
        let prev = raw_events(msgs.drop_last(), current_time_in_samples, samples);
        let m = msgs.last();
        if current_time_in_samples <= m.play_time_in_samples < current_time_in_samples + samples {
            prev.push(live_event(wire_array(m.data.0), (m.play_time_in_samples - current_time_in_samples) as i32))
        } else {
            prev
        }
    }
}

/// The messages played at or after the end of the buffer, in queue order.
pub open spec fn raw_queued(
    msgs: Seq<AbsoluteTimeMidiMessage>,
    current_time_in_samples: usize,
    samples: usize,
) -> Seq<AbsoluteTimeMidiMessage>
    decreases msgs.len(),
{
    if msgs.len() == 0 {
        Seq::empty()
    } else {
        let prev = raw_queued(msgs.drop_last(), current_time_in_samples, samples);
        let m = msgs.last();
        if m.play_time_in_samples >= current_time_in_samples + samples {
            prev.push(m)
        } else {
            prev
        }
    }
}

/// Sends the messages that fall in the buffer as they are, keeps the later
/// ones and drops the ones already past.
pub fn raw_process_scheduled_events(
    samples: usize,
    current_time_in_samples: usize,
    messages: &AbsoluteTimeMidiMessageVector,
) -> (r: (AbsoluteTimeMidiMessageVector, Vec<MidiEvent>))
    requires
        messages@.len() > 0 ==> current_time_in_samples + samples <= usize::MAX,
    ensures
        r.0@ == raw_queued(messages@, current_time_in_samples, samples),
        r.1@ == raw_events(messages@, current_time_in_samples, samples),
        r.0.next_id == messages.next_id,
{
    let mut queued_messages = AbsoluteTimeMidiMessageVector::continuing(messages.next_id);
    let mut events: Vec<MidiEvent> = Vec::new();
    let n = messages.messages.len();
    let mut i: usize = 0;
    while i < n
        invariant
            n == messages@.len(),
            0 <= i <= n,
            n > 0 ==> current_time_in_samples + samples <= usize::MAX,
            queued_messages@ == raw_queued(messages@.take(i as int), current_time_in_samples, samples),
            events@ == raw_events(messages@.take(i as int), current_time_in_samples, samples),
            queued_messages.next_id == messages.next_id,
        decreases n - i,
    {
        assert(messages@.take(i + 1).drop_last() == messages@.take(i as int));
        let message = messages.messages[i];
        if message.play_time_in_samples < current_time_in_samples + samples {
            if message.play_time_in_samples >= current_time_in_samples {
                events.push(message.new_midi_event(current_time_in_samples));
            }
        } else {
            queued_messages.push(message);
        }
        i = i + 1;
    }
    assert(messages@.take(n as int) == messages@);
    (queued_messages, events)
}

/// What `oldest_from` returns is one of the playing notes.
pub proof fn lemma_oldest_from_member(s: Seq<(PlayingNoteIndex, AbsoluteTimeMidiMessage)>, delayed_only: bool)
    requires
        playing_wf(s),
    ensures
        oldest_from(s, delayed_only) matches Some(m) ==> is_note_on_bytes(m.data.0@),
    decreases s.len(),
{
    if s.len() > 0 {
        let t = s.drop_last();
        assert forall|i: int| 0 <= i < t.len() implies is_note_on_bytes(#[trigger] t[i].1.data.0@) by {
            assert(t[i] == s[i]);
        }
        lemma_oldest_from_member(t, delayed_only);
        assert(is_note_on_bytes(s[s.len() - 1].1.data.0@));
    }
}

/// Every event falls in the block: its offset is at least 0 and below the
/// block's length.
pub open spec fn events_in_buffer(events: Seq<MidiEvent>, samples: usize) -> bool {
    forall|i: int| 0 <= i < events.len() ==> 0 <= (#[trigger] events[i]).delta_frames < samples
}

proof fn lemma_add_event_in_buffer(cfg: SchedulerConfig, st: SchedulerModel, e: AbsoluteTimeMidiMessage)
    requires
        events_in_buffer(st.events, cfg.buffer_duration_in_samples),
        cfg.buffer_duration_in_samples <= i32::MAX,
    ensures
        add_event_spec(cfg, st, e) matches Some(s) ==> events_in_buffer(s.events, cfg.buffer_duration_in_samples),
{
    let cur = cfg.current_time_in_samples;
    if cur + cfg.buffer_duration_in_samples <= usize::MAX && cur <= e.play_time_in_samples
        < cur + cfg.buffer_duration_in_samples {
        let ev = live_event(wire_array(e.data.0), (e.play_time_in_samples - cur) as i32);
        assert(0 <= ev.delta_frames < cfg.buffer_duration_in_samples);
        let pushed = st.events.push(ev);
        assert forall|i: int| 0 <= i < pushed.len() implies 0 <= (#[trigger] pushed[i]).delta_frames
            < cfg.buffer_duration_in_samples by {
            if i < st.events.len() {
                assert(pushed[i] == st.events[i]);
            }
        }
    }
}

proof fn lemma_process_one_in_buffer(cfg: SchedulerConfig, st: SchedulerModel, m: AbsoluteTimeMidiMessage)
    requires
        events_in_buffer(st.events, cfg.buffer_duration_in_samples),
        cfg.buffer_duration_in_samples <= i32::MAX,
    ensures
        process_one_spec(cfg, st, m) matches Some(s) ==> events_in_buffer(s.events, cfg.buffer_duration_in_samples),
{
    lemma_add_event_in_buffer(cfg, st, m);
    let b = m.data.0@;
    if is_note_on_bytes(b) {
        let index = index_of(b);
        match first_index(st.playing, playing_key(index)) {
            Some(i) => {
                let off = AbsoluteTimeMidiMessage {
                    data: RawMessage(note_off_bytes(index.channel, index.pitch)),
                    id: st.playing[i].1.id,
                    reason: MessageReason::Retrigger,
                    play_time_in_samples: m.play_time_in_samples,
                };
                lemma_add_event_in_buffer(cfg, st, off);
                if let Some(s1) = add_event_spec(cfg, st, off) {
                    if m.play_time_in_samples < usize::MAX {
                        lemma_add_event_in_buffer(
                            cfg,
                            s1,
                            AbsoluteTimeMidiMessage { play_time_in_samples: (m.play_time_in_samples + 1) as usize, ..m },
                        );
                    }
                }
            },
            None => {
                if let Some(oldest) = oldest_from(st.playing, cfg.apply_max_notes_to_delayed_notes_only) {
                    let ob = oldest.data.0@;
                    let off = AbsoluteTimeMidiMessage {
                        data: RawMessage(note_off_bytes(channel_of(ob), ob[1])),
                        id: oldest.id,
                        reason: MessageReason::MaxNotes,
                        play_time_in_samples: m.play_time_in_samples,
                    };
                    lemma_add_event_in_buffer(cfg, st, off);
                    if let Some(s1) = add_event_spec(cfg, st, off) {
                        lemma_add_event_in_buffer(cfg, s1, m);
                    }
                }
            },
        }
    }
}

/// Messages are sent in the block they fall in: every event a block sends
/// has an offset of at least 0 and below the block's length (for blocks no
/// longer than an `i32` offset can count).
pub proof fn lemma_events_in_buffer(cfg: SchedulerConfig, msgs: Seq<AbsoluteTimeMidiMessage>)
    requires
        cfg.buffer_duration_in_samples <= i32::MAX,
    ensures
        process_all_spec(cfg, empty_model(), msgs) matches Some(s) ==> events_in_buffer(
            s.events,
            cfg.buffer_duration_in_samples,
        ),
    decreases msgs.len(),
{
    if msgs.len() > 0 {
        lemma_events_in_buffer(cfg, msgs.drop_last());
        if let Some(s) = process_all_spec(cfg, empty_model(), msgs.drop_last()) {
            lemma_process_one_in_buffer(cfg, s, msgs.last());
        }
    }
}

} // verus!
