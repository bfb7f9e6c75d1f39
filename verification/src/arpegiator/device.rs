use vstd::prelude::*;
use crate::constants::TIMBRECC;
use crate::messages::{CC, decodable, pitch_bend_code, code_to_millisemitones};
use crate::midi_message_type::{MidiMessageType, classifies, status_kind, channel_of};
use crate::midi_message_with_delta::MidiMessageWithDelta;
use crate::arpegiator::note::{Note, NoteIndex, CCIndex};
use crate::arpegiator::timed_event::TimedEvent;
use crate::seq_util::{first_index, lemma_first_index_is, lemma_first_index_none, lemma_first_index_some};

verus! {

/// Expression values last received on a channel.
#[derive(Clone, Copy, Debug)]
pub struct Channel {
    pub pressure: u8,
    /// In millisemitones.
    pub pitchbend: i32,
    pub timbre: u8,
}

/// The expression dimension that changed on a note.
#[derive(Clone, Copy, Debug, PartialEq, Eq, Structural)]
pub enum Expression {
    Timbre,
    Pressure,
    PitchBend,
    AfterTouch,
}

/// What a message did to a device.
pub enum DeviceChange {
    AddNote { time: usize, note: Note },
    RemoveNote { time: usize, note: Note },
    NoteExpressionChange { time: usize, expression: Expression, note: Note },
    ReplaceNote { time: usize, old_note: Note, new_note: Note },
    CCChange { time: usize, cc: CC },
    Unchanged { time: usize },
}

/// The state of the notes, controllers and channels of a device: held notes
/// by key, controller values by key (both in the order keys first arrived),
/// the sixteen channels, and the identifier the next note gets.
pub ghost struct DeviceState {
    pub notes: Seq<(NoteIndex, Note)>,
    pub cc: Seq<(CCIndex, u8)>,
    pub channels: Seq<Channel>,
    pub note_index: usize,
}

/// A device that follows the notes and expressions of a MIDI stream. Held
/// notes and controller values are keyed vectors in the order their keys
/// first arrived, standing for hash maps.
pub struct Device {
    pub _name: String,
    pub notes: Vec<(NoteIndex, Note)>,
    pub cc: Vec<(CCIndex, u8)>,
    pub channels: [Channel; 16],
    pub note_index: usize,
}

impl View for Device {
    type V = DeviceState;

    open spec fn view(&self) -> DeviceState {
        DeviceState { notes: self.notes@, cc: self.cc@, channels: self.channels@, note_index: self.note_index }
    }
}

pub open spec fn note_key(k: NoteIndex) -> spec_fn((NoteIndex, Note)) -> bool {
    |e: (NoteIndex, Note)| e.0 == k
}

pub open spec fn on_channel(channel: u8) -> spec_fn((NoteIndex, Note)) -> bool {
    |e: (NoteIndex, Note)| e.1.channel == channel
}

pub open spec fn cc_key(k: CCIndex) -> spec_fn((CCIndex, u8)) -> bool {
    |e: (CCIndex, u8)| e.0 == k
}

/// Stores `n` under `k`: in place when the key is held, at the end otherwise.
pub open spec fn notes_insert(s: Seq<(NoteIndex, Note)>, k: NoteIndex, n: Note) -> Seq<(NoteIndex, Note)> {
    match first_index(s, note_key(k)) {
        Some(i) => s.update(i, (k, n)),
        None => s.push((k, n)),
    }
}

/// Drops the entry of `k`, if any.
pub open spec fn notes_remove(s: Seq<(NoteIndex, Note)>, k: NoteIndex) -> Seq<(NoteIndex, Note)> {
    match first_index(s, note_key(k)) {
        Some(i) => s.remove(i),
        None => s,
    }
}

/// Stores a controller value under its key.
pub open spec fn cc_insert(s: Seq<(CCIndex, u8)>, k: CCIndex, v: u8) -> Seq<(CCIndex, u8)> {
    match first_index(s, cc_key(k)) {
        Some(i) => s.update(i, (k, v)),
        None => s.push((k, v)),
    }
}

/// Keys are unique and each note is stored under its own channel (one of
/// the sixteen) and pitch.
pub open spec fn notes_wf(s: Seq<(NoteIndex, Note)>) -> bool {
    &&& forall|i: int, j: int| 0 <= i < j < s.len() ==> (#[trigger] s[i]).0 != (#[trigger] s[j]).0
    &&& forall|i: int|
        0 <= i < s.len() ==> (#[trigger] s[i]).0.channel == s[i].1.channel && s[i].0.pitch == s[i].1.pitch
            && s[i].1.channel < 16
}

pub open spec fn cc_wf(s: Seq<(CCIndex, u8)>) -> bool {
    forall|i: int, j: int| 0 <= i < j < s.len() ==> (#[trigger] s[i]).0 != (#[trigger] s[j]).0
}

pub open spec fn state_wf(st: DeviceState) -> bool {
    &&& notes_wf(st.notes)
    &&& cc_wf(st.cc)
    &&& st.channels.len() == 16
}

/// A note with one expression dimension set: timbre or pressure to `value`,
/// pitch bend to `bend`.
pub open spec fn with_expression(n: Note, expression: Expression, value: u8, bend: i32) -> Note {
    match expression {
        Expression::Timbre => Note { timbre: value, ..n },
        Expression::PitchBend => Note { pitchbend: bend, ..n },
        _ => Note { pressure: value, ..n },
    }
}

/// Sets an expression dimension on the first note held on `channel`, if
/// any, and reports that change; else `otherwise` is the change. The held
/// notes are kept in the order they were first pressed, so when several
/// notes share the channel the earliest one takes the expression (a hash
/// map would leave that choice to its walking order).
pub open spec fn first_on_channel(
    notes: Seq<(NoteIndex, Note)>,
    channel: u8,
    expression: Expression,
    value: u8,
    bend: i32,
    time: usize,
    otherwise: DeviceChange,
) -> (Seq<(NoteIndex, Note)>, DeviceChange) {
    match first_index(notes, on_channel(channel)) {
        Some(i) => {
            let n = with_expression(notes[i].1, expression, value, bend);
            (notes.update(i, (notes[i].0, n)), DeviceChange::NoteExpressionChange { time, expression, note: n })
        },
        None => (notes, otherwise),
    }
}

/// A note on: the note is held under its channel and pitch (replacing one
/// held there), with the given identifier or a new one, and takes the
/// expression values of its channel.
pub open spec fn note_on_step(st: DeviceState, time: usize, ch: u8, pitch: u8, velocity: u8, id: Option<usize>) -> (
    DeviceState,
    DeviceChange,
) {
    let c = st.channels[ch as int];
    let note_id = match id {
        Some(i) => i,
        None => st.note_index,
    };
    let next = match id {
        Some(_) => st.note_index,
        None => (st.note_index + 1) as usize,
    };
    let k = NoteIndex { channel: ch, pitch };
    let n = Note {
        id: note_id,
        pressed_at: time,
        released_at: 0,
        channel: ch,
        pitch,
        velocity,
        velocity_off: 0,
        pressure: c.pressure,
        timbre: c.timbre,
        pitchbend: c.pitchbend,
    };
    let change = match first_index(st.notes, note_key(k)) {
        Some(i) => DeviceChange::ReplaceNote { time, old_note: st.notes[i].1, new_note: n },
        None => DeviceChange::AddNote { time, note: n },
    };
    (DeviceState { notes: notes_insert(st.notes, k, n), note_index: next, ..st }, change)
}

/// A note off: the held note is released and reported with its release
/// time and velocity.
pub open spec fn note_off_step(st: DeviceState, time: usize, ch: u8, pitch: u8, velocity: u8) -> (
    DeviceState,
    DeviceChange,
) {
    let k = NoteIndex { channel: ch, pitch };
    match first_index(st.notes, note_key(k)) {
        Some(i) => (
            DeviceState { notes: notes_remove(st.notes, k), ..st },
            DeviceChange::RemoveNote { time, note: Note { released_at: time, velocity_off: velocity, ..st.notes[i].1 } },
        ),
        None => (st, DeviceChange::Unchanged { time }),
    }
}

/// A controller: its value is stored; the timbre controller also goes to the
/// channel and to the first note held on it.
pub open spec fn cc_step(st: DeviceState, time: usize, ch: u8, index: u8, value: u8) -> (DeviceState, DeviceChange) {
    let cc = cc_insert(st.cc, CCIndex { channel: ch, index }, value);
    let stored = CC { channel: ch, cc: index, value };
    if index == TIMBRECC {
        let r = first_on_channel(
            st.notes,
            ch,
            Expression::Timbre,
            value,
            0,
            time,
            DeviceChange::CCChange { time, cc: stored },
        );
        (
            DeviceState {
                notes: r.0,
                cc,
                channels: st.channels.update(ch as int, Channel { timbre: value, ..st.channels[ch as int] }),
                ..st
            },
            r.1,
        )
    } else {
        (DeviceState { cc, ..st }, DeviceChange::CCChange { time, cc: stored })
    }
}

/// Channel pressure: goes to the channel and to the first note held on it.
pub open spec fn pressure_step(st: DeviceState, time: usize, ch: u8, value: u8) -> (DeviceState, DeviceChange) {
    let r = first_on_channel(
        st.notes,
        ch,
        Expression::Pressure,
        value,
        0,
        time,
        DeviceChange::Unchanged { time },
    );
    (
        DeviceState {
            notes: r.0,
            channels: st.channels.update(ch as int, Channel { pressure: value, ..st.channels[ch as int] }),
            ..st
        },
        r.1,
    )
}

/// Pitch bend: goes to the channel and to the first note held on it.
pub open spec fn bend_step(st: DeviceState, time: usize, ch: u8, bend: i32) -> (DeviceState, DeviceChange) {
    let r = first_on_channel(
        st.notes,
        ch,
        Expression::PitchBend,
        0,
        bend,
        time,
        DeviceChange::Unchanged { time },
    );
    (
        DeviceState {
            notes: r.0,
            channels: st.channels.update(ch as int, Channel { pitchbend: bend, ..st.channels[ch as int] }),
            ..st
        },
        r.1,
    )
}

/// What a device does with a message received `delta_frames` after
/// `current_time`, by the kind of the message; anything but a note on, a
/// note off, a controller, channel pressure or pitch bend changes nothing.
pub open spec fn device_step(st: DeviceState, m: MidiMessageWithDelta, current_time: usize, id: Option<usize>) -> (
    DeviceState,
    DeviceChange,
) {
    let b = m.data.0@;
    let time = (current_time + m.delta_frames) as usize;
    let kind = status_kind(b);
    let ch = channel_of(b);
    if kind == 0x90u8 {
        note_on_step(st, time, ch, b[1], b[2], id)
    } else if kind == 0x80u8 {
        note_off_step(st, time, ch, b[1], b[2])
    } else if kind == 0xB0u8 {
        cc_step(st, time, ch, b[1], b[2])
    } else if kind == 0xD0u8 {
        pressure_step(st, time, ch, b[1])
    } else if kind == 0xE0u8 {
        bend_step(st, time, ch, code_to_millisemitones(pitch_bend_code(b)) as i32)
    } else {
        (st, DeviceChange::Unchanged { time })
    }
}

/// The order of held notes: by pitch, then by identifier, or by pitch, then
/// by channel.
pub open spec fn note_less(a: Note, b: Note, by_channel: bool) -> bool {
    if a.pitch != b.pitch {
        a.pitch < b.pitch
    } else if by_channel {
        a.channel < b.channel
    } else {
        a.id < b.id
    }
}

/// How many held notes come before `n` in that order.
pub open spec fn below(s: Seq<(NoteIndex, Note)>, n: Note, by_channel: bool) -> nat {
    s.filter(|e: (NoteIndex, Note)| note_less(e.1, n, by_channel)).len()
}

/// Held notes with exactly `position` held notes before them.
pub open spec fn ranked(s: Seq<(NoteIndex, Note)>, position: int, by_channel: bool) -> spec_fn((NoteIndex, Note)) -> bool {
    |e: (NoteIndex, Note)| below(s, e.1, by_channel) == position
}

/// The held note of rank `position` (the first such when ranks tie).
pub open spec fn note_at_rank(s: Seq<(NoteIndex, Note)>, position: int, by_channel: bool) -> Option<Note> {
    match first_index(s, ranked(s, position, by_channel)) {
        Some(i) => Some(s[i].1),
        None => None,
    }
}

/// Takes messages in order (under new identifiers), collecting the changes;
/// `None` when one of them cannot be taken.
pub open spec fn take_messages(st: DeviceState, ms: Seq<MidiMessageWithDelta>, current_time: usize) -> Option<
    (DeviceState, Seq<DeviceChange>),
>
    decreases ms.len(),
{
    if ms.len() == 0 {
        Some((st, Seq::empty()))
    } else {
        match take_messages(st, ms.drop_last(), current_time) {
            None => None,
            Some(r) => if update_ok(r.0, ms.last(), current_time, None) {
                let s = device_step(r.0, ms.last(), current_time, None);
                Some((s.0, r.1.push(s.1)))
            } else {
                None
            },
        }
    }
}

/// Once a prefix of the messages cannot be taken, none of the longer ones can.
pub proof fn lemma_take_messages_none(st: DeviceState, ms: Seq<MidiMessageWithDelta>, current_time: usize, k: int)
    requires
        0 <= k <= ms.len(),
        take_messages(st, ms.take(k), current_time) is None,
    ensures
        take_messages(st, ms, current_time) is None,
    decreases ms.len() - k,
{
    if k < ms.len() {
        assert(ms.take(k + 1).drop_last() == ms.take(k));
        lemma_take_messages_none(st, ms, current_time, k + 1);
    } else {
        assert(ms.take(k) == ms);
    }
}

/// Inputs on which a device can take a message: the time fits, the message
/// decodes, and a new identifier can be drawn when one is needed.
pub open spec fn update_ok(st: DeviceState, m: MidiMessageWithDelta, current_time: usize, id: Option<usize>) -> bool {
    &&& current_time + m.delta_frames <= usize::MAX
    &&& decodable(m.data.0@)
    &&& (status_kind(m.data.0@) == 0x90u8 && id is None ==> st.note_index < usize::MAX)
}

pub open spec fn zero_channel() -> Channel {
    Channel { pressure: 0, pitchbend: 0, timbre: 0 }
}

/// A device holding nothing: no note, no controller value, sixteen neutral
/// channels, the note counter at zero.
pub open spec fn empty_device_state() -> DeviceState {
    DeviceState {
        notes: Seq::empty(),
        cc: Seq::empty(),
        channels: Seq::new(16, |i: int| zero_channel()),
        note_index: 0,
    }
}

impl Device {
    pub open spec fn wf(&self) -> bool {
        state_wf(self@)
    }

    /// A device with no note, no controller value and neutral channels.
    pub fn new(name: String) -> (r: Device)
        ensures
            r._name == name,
            r.wf(),
            r@ == empty_device_state(),
            r@.notes.len() == 0,
            r@.cc.len() == 0,
            r@.note_index == 0,
            forall|i: int| 0 <= i < 16 ==> r@.channels[i] == zero_channel(),
    {
        let r = Device {
            _name: name,
            notes: Vec::new(),
            cc: Vec::new(),
            channels: [Channel { pressure: 0, pitchbend: 0, timbre: 0 }; 16],
            note_index: 0,
        };
        assert(r@.channels =~= empty_device_state().channels);
        r
    }

    /// Position of the note held under `k`.
    fn find_note(&self, k: NoteIndex) -> (r: Option<usize>)
        ensures
            match first_index(self.notes@, note_key(k)) {
                Some(i) => r is Some && r->0 == i,
                None => r is None,
            },
    {
        let n = self.notes.len();
        let mut i: usize = 0;
        while i < n
            invariant
                n == self.notes@.len(),
                0 <= i <= n,
                forall|j: int| 0 <= j < i ==> !(#[trigger] note_key(k)(self.notes@[j])),
            decreases n - i,
        {
            if self.notes[i].0 == k {
                proof {
                    lemma_first_index_is(self.notes@, note_key(k), i as int);
                }
                return Some(i);
            }
            i = i + 1;
        }
        proof {
            lemma_first_index_none(self.notes@, note_key(k));
        }
        None
    }

    /// Position of the first note held on `channel`.
    fn find_on_channel(&self, channel: u8) -> (r: Option<usize>)
        ensures
            match first_index(self.notes@, on_channel(channel)) {
                Some(i) => r is Some && r->0 == i,
                None => r is None,
            },
    {
        let n = self.notes.len();
        let mut i: usize = 0;
        while i < n
            invariant
                n == self.notes@.len(),
                0 <= i <= n,
                forall|j: int| 0 <= j < i ==> !(#[trigger] on_channel(channel)(self.notes@[j])),
            decreases n - i,
        {
            if self.notes[i].1.channel == channel {
                proof {
                    lemma_first_index_is(self.notes@, on_channel(channel), i as int);
                }
                return Some(i);
            }
            i = i + 1;
        }
        proof {
            lemma_first_index_none(self.notes@, on_channel(channel));
        }
        None
    }

    /// Takes the messages of a block in order, each note on under a new
    /// identifier, and returns the changes; `None` as soon as one message
    /// cannot be taken.
    pub fn process_buffer(&mut self, messages: &Vec<MidiMessageWithDelta>, current_time: usize) -> (r: Option<
        Vec<DeviceChange>,
    >)
        requires
            old(self).wf(),
        ensures
            final(self).wf(),
            final(self)._name == old(self)._name,
            match take_messages(old(self)@, messages@, current_time) {
                None => r is None,
                Some(t) => r is Some && r->0@ == t.1 && final(self)@ == t.0,
            },
    {
        let ghost st0 = self@;
        let mut changes: Vec<DeviceChange> = Vec::new();
        let n = messages.len();
        let mut i: usize = 0;
        while i < n
            invariant
                n == messages@.len(),
                0 <= i <= n,
                self.wf(),
                self._name == old(self)._name,
                take_messages(st0, messages@.take(i as int), current_time) == Some((self@, changes@)),
                st0 == old(self)@,
            decreases n - i,
        {
            let m = messages[i];
            proof {
                assert(messages@.take(i + 1).drop_last() == messages@.take(i as int));
                assert(messages@.take(i + 1).last() == m);
            }
            if !self.can_update(m, current_time, None) {
                proof {
                    lemma_take_messages_none(st0, messages@, current_time, i + 1);
                }
                return None;
            }
            let c = self.update(m, current_time, None);
            changes.push(c);
            i = i + 1;
        }
        assert(messages@.take(n as int) == messages@);
        Some(changes)
    }

    /// Whether the device can take this message (see `update_ok`).
    pub fn can_update(&self, midi_message: MidiMessageWithDelta, current_time: usize, id: Option<usize>) -> (r: bool)
        ensures
            r == update_ok(self@, midi_message, current_time, id),
    {
        let b = midi_message.data.0;
        if current_time > usize::MAX - midi_message.delta_frames as usize {
            return false;
        }
        let kind: u8 = b[0] & 0xF0;
        if kind == 0xE0 && (b[1] as u32) + 128 * (b[2] as u32) > 22369 {
            return false;
        }
        if kind == 0x90 && id.is_none() && self.note_index == usize::MAX {
            return false;
        }
        true
    }

    /// How many held notes come before `n`.
    fn count_below(&self, n: Note, by_channel: bool) -> (r: usize)
        ensures
            r == below(self.notes@, n, by_channel),
    {
        let ghost pred = |e: (NoteIndex, Note)| note_less(e.1, n, by_channel);
        let len = self.notes.len();
        let mut count: usize = 0;
        let mut i: usize = 0;
        while i < len
            invariant
                len == self.notes@.len(),
                0 <= i <= len,
                pred == (|e: (NoteIndex, Note)| note_less(e.1, n, by_channel)),
                count == self.notes@.take(i as int).filter(pred).len(),
                count <= i,
            decreases len - i,
        {
            let m = self.notes[i].1;
            proof {
                assert(self.notes@.take(i + 1) == self.notes@.take(i as int).push(self.notes@[i as int]));
                self.notes@.take(i as int).lemma_filter_len_push(pred, self.notes@[i as int]);
            }
            let less = if m.pitch != n.pitch {
                m.pitch < n.pitch
            } else if by_channel {
                m.channel < n.channel
            } else {
                m.id < n.id
            };
            if less {
                count = count + 1;
            }
            i = i + 1;
        }
        assert(self.notes@.take(len as int) == self.notes@);
        count
    }

    /// The held note of rank `position` in the order by pitch then by
    /// channel (`by_channel`) or by pitch then by identifier.
    pub fn ranked_note(&self, position: usize, by_channel: bool) -> (r: Option<Note>)
        ensures
            r == note_at_rank(self.notes@, position as int, by_channel),
    {
        let ghost p = ranked(self.notes@, position as int, by_channel);
        let len = self.notes.len();
        let mut i: usize = 0;
        while i < len
            invariant
                len == self.notes@.len(),
                0 <= i <= len,
                p == ranked(self.notes@, position as int, by_channel),
                forall|j: int| 0 <= j < i ==> !(#[trigger] p(self.notes@[j])),
            decreases len - i,
        {
            let n = self.notes[i].1;
            if self.count_below(n, by_channel) == position {
                proof {
                    lemma_first_index_is(self.notes@, p, i as int);
                }
                return Some(n);
            }
            i = i + 1;
        }
        proof {
            lemma_first_index_none(self.notes@, p);
        }
        None
    }

    /// The held note of rank `position` by pitch, then identifier.
    pub fn nth(&self, position: usize) -> (r: Option<Note>)
        ensures
            r == note_at_rank(self.notes@, position as int, false),
    {
        self.ranked_note(position, false)
    }

    /// Takes a message received `delta_frames` after `current_time`; `id`
    /// names the note a note on starts, else the device draws one.
    pub fn update(&mut self, midi_message: MidiMessageWithDelta, current_time: usize, id: Option<usize>) -> (r:
        DeviceChange)
        requires
            old(self).wf(),
            update_ok(old(self)@, midi_message, current_time, id),
        ensures
            final(self).wf(),
            (final(self)@, r) == device_step(old(self)@, midi_message, current_time, id),
            final(self)._name == old(self)._name,
    {
        let time = current_time + midi_message.delta_frames as usize;
        let status: u8 = midi_message.data.0[0];
        assert(status & 0x0F < 16) by (bit_vector);
        match MidiMessageType::from_raw(midi_message.data) {
            MidiMessageType::NoteOnMessage(note) => self.note_on(time, note.channel, note.pitch, note.velocity, id),
            MidiMessageType::NoteOffMessage(note) => self.note_off(time, note.channel, note.pitch, note.velocity),
            MidiMessageType::CCMessage(cc) => self.control_change(time, cc.channel, cc.cc, cc.value),
            MidiMessageType::PressureMessage(message) => self.pressure(time, message.channel, message.value),
            MidiMessageType::PitchBendMessage(message) => self.pitch_bend(time, message.channel, message.millisemitones),
            MidiMessageType::UnsupportedChannelMessage(_) => DeviceChange::Unchanged { time },
            MidiMessageType::Unsupported => DeviceChange::Unchanged { time },
        }
    }

    fn note_on(&mut self, time: usize, ch: u8, pitch: u8, velocity: u8, id: Option<usize>) -> (r: DeviceChange)
        requires
            old(self).wf(),
            ch < 16,
            id is None ==> old(self).note_index < usize::MAX,
        ensures
            final(self).wf(),
            (final(self)@, r) == note_on_step(old(self)@, time, ch, pitch, velocity, id),
            final(self)._name == old(self)._name,
    {
        let note_id = match id {
            None => {
                let note_id = self.note_index;
                self.note_index = self.note_index + 1;
                note_id
            },
            Some(id) => id,
        };
        let index = NoteIndex { channel: ch, pitch };
        let c = self.channels[ch as usize];
        let new_note = Note {
            id: note_id,
            pressed_at: time,
            released_at: 0,
            channel: ch,
            pitch,
            velocity,
            velocity_off: 0,
            pressure: c.pressure,
            timbre: c.timbre,
            pitchbend: c.pitchbend,
        };
        match self.find_note(index) {
            None => {
                proof {
                    lemma_first_index_some(self.notes@, note_key(index));
                }
                self.notes.push((index, new_note));
                DeviceChange::AddNote { time, note: new_note }
            },
            Some(i) => {
                let old_note = self.notes[i].1;
                self.notes.set(i, (index, new_note));
                DeviceChange::ReplaceNote { time, old_note, new_note }
            },
        }
    }

    fn note_off(&mut self, time: usize, ch: u8, pitch: u8, velocity: u8) -> (r: DeviceChange)
        requires
            old(self).wf(),
        ensures
            final(self).wf(),
            (final(self)@, r) == note_off_step(old(self)@, time, ch, pitch, velocity),
            final(self)._name == old(self)._name,
    {
        let index = NoteIndex { channel: ch, pitch };
        match self.find_note(index) {
            None => DeviceChange::Unchanged { time },
            Some(i) => {
                let ghost s = self.notes@;
                let mut old_note = self.notes[i].1;
                self.notes.remove(i);
                proof {
                    assert forall|a: int, b: int| 0 <= a < b < self.notes@.len() implies (
                    #[trigger] self.notes@[a]).0 != (#[trigger] self.notes@[b]).0 by {
                        let a2 = if a < i { a } else { a + 1 };
                        let b2 = if b < i { b } else { b + 1 };
                        assert(self.notes@[a] == s[a2]);
                        assert(self.notes@[b] == s[b2]);
                    }
                }
                old_note.released_at = time;
                old_note.velocity_off = velocity;
                DeviceChange::RemoveNote { time, note: old_note }
            },
        }
    }

    /// Gives the first note held on `ch` a new expression value.
    fn express_first(&mut self, ch: u8, expression: Expression, value: u8, bend: i32) -> (r: Option<Note>)
        requires
            old(self).wf(),
        ensures
            final(self).wf(),
            final(self).cc == old(self).cc,
            final(self).channels == old(self).channels,
            final(self).note_index == old(self).note_index,
            final(self)._name == old(self)._name,
            ({
                let r2 = first_on_channel(old(self).notes@, ch, expression, value, bend, 0, DeviceChange::Unchanged { time: 0 });
                &&& final(self).notes@ == r2.0
                &&& match r2.1 {
                    DeviceChange::NoteExpressionChange { note, .. } => r == Some(note),
                    _ => r is None,
                }
            }),
    {
        match self.find_on_channel(ch) {
            Some(i) => {
                let (k, mut n) = self.notes[i];
                match expression {
                    Expression::Timbre => {
                        n.timbre = value;
                    },
                    Expression::PitchBend => {
                        n.pitchbend = bend;
                    },
                    _ => {
                        n.pressure = value;
                    },
                }
                self.notes.set(i, (k, n));
                Some(n)
            },
            None => None,
        }
    }

    fn control_change(&mut self, time: usize, ch: u8, index: u8, value: u8) -> (r: DeviceChange)
        requires
            old(self).wf(),
            ch < 16,
        ensures
            final(self).wf(),
            (final(self)@, r) == cc_step(old(self)@, time, ch, index, value),
            final(self)._name == old(self)._name,
    {
        self.store_cc(CCIndex { channel: ch, index }, value);
        if index == TIMBRECC {
            let mut c = self.channels[ch as usize];
            c.timbre = value;
            self.channels[ch as usize] = c;
            match self.express_first(ch, Expression::Timbre, value, 0) {
                Some(n) => {
                    return DeviceChange::NoteExpressionChange { time, expression: Expression::Timbre, note: n };
                },
                None => {},
            }
        }
        DeviceChange::CCChange { time, cc: CC { channel: ch, cc: index, value } }
    }

    fn pressure(&mut self, time: usize, ch: u8, value: u8) -> (r: DeviceChange)
        requires
            old(self).wf(),
            ch < 16,
        ensures
            final(self).wf(),
            (final(self)@, r) == pressure_step(old(self)@, time, ch, value),
            final(self)._name == old(self)._name,
    {
        let mut c = self.channels[ch as usize];
        c.pressure = value;
        self.channels[ch as usize] = c;
        match self.express_first(ch, Expression::Pressure, value, 0) {
            Some(n) => DeviceChange::NoteExpressionChange { time, expression: Expression::Pressure, note: n },
            None => DeviceChange::Unchanged { time },
        }
    }

    fn pitch_bend(&mut self, time: usize, ch: u8, bend: i32) -> (r: DeviceChange)
        requires
            old(self).wf(),
            ch < 16,
        ensures
            final(self).wf(),
            (final(self)@, r) == bend_step(old(self)@, time, ch, bend),
            final(self)._name == old(self)._name,
    {
        let mut c = self.channels[ch as usize];
        c.pitchbend = bend;
        self.channels[ch as usize] = c;
        match self.express_first(ch, Expression::PitchBend, 0, bend) {
            Some(n) => DeviceChange::NoteExpressionChange { time, expression: Expression::PitchBend, note: n },
            None => DeviceChange::Unchanged { time },
        }
    }

    /// Position of the value stored under `k`.
    fn find_cc(&self, k: CCIndex) -> (r: Option<usize>)
        ensures
            match first_index(self.cc@, cc_key(k)) {
                Some(i) => r is Some && r->0 == i,
                None => r is None,
            },
    {
        let n = self.cc.len();
        let mut i: usize = 0;
        while i < n
            invariant
                n == self.cc@.len(),
                0 <= i <= n,
                forall|j: int| 0 <= j < i ==> !(#[trigger] cc_key(k)(self.cc@[j])),
            decreases n - i,
        {
            if self.cc[i].0 == k {
                proof {
                    lemma_first_index_is(self.cc@, cc_key(k), i as int);
                }
                return Some(i);
            }
            i = i + 1;
        }
        proof {
            lemma_first_index_none(self.cc@, cc_key(k));
        }
        None
    }

    /// Stores a controller value under its key.
    fn store_cc(&mut self, k: CCIndex, v: u8)
        requires
            old(self).wf(),
        ensures
            final(self).wf(),
            final(self).cc@ == cc_insert(old(self).cc@, k, v),
            final(self).notes == old(self).notes,
            final(self).channels == old(self).channels,
            final(self).note_index == old(self).note_index,
            final(self)._name == old(self)._name,
    {
        match self.find_cc(k) {
            Some(i) => {
                self.cc.set(i, (k, v));
            },
            None => {
                proof {
                    lemma_first_index_some(self.cc@, cc_key(k));
                }
                self.cc.push((k, v));
            },
        }
    }
}

/// When a change happened.
pub open spec fn change_time(c: DeviceChange) -> usize {
    match c {
        DeviceChange::AddNote { time, .. } => time,
        DeviceChange::RemoveNote { time, .. } => time,
        DeviceChange::NoteExpressionChange { time, .. } => time,
        DeviceChange::ReplaceNote { time, .. } => time,
        DeviceChange::CCChange { time, .. } => time,
        DeviceChange::Unchanged { time } => time,
    }
}

/// The identifier that orders changes of the same time: the note's (the
/// new note's for a replacement), zero when no note is involved.
pub open spec fn change_id(c: DeviceChange) -> usize {
    match c {
        DeviceChange::AddNote { note, .. } => note.id,
        DeviceChange::RemoveNote { note, .. } => note.id,
        DeviceChange::NoteExpressionChange { note, .. } => note.id,
        DeviceChange::ReplaceNote { new_note, .. } => new_note.id,
        DeviceChange::CCChange { .. } => 0,
        DeviceChange::Unchanged { .. } => 0,
    }
}

impl TimedEvent for DeviceChange {
    open spec fn time_of(&self) -> usize {
        change_time(*self)
    }

    open spec fn id_of(&self) -> usize {
        change_id(*self)
    }

    fn timestamp(&self) -> (r: usize) {
        match self {
            DeviceChange::AddNote { time, .. } => *time,
            DeviceChange::RemoveNote { time, .. } => *time,
            DeviceChange::NoteExpressionChange { time, .. } => *time,
            DeviceChange::ReplaceNote { time, .. } => *time,
            DeviceChange::CCChange { time, .. } => *time,
            DeviceChange::Unchanged { time } => *time,
        }
    }

    fn id(&self) -> (r: usize) {
        match self {
            DeviceChange::AddNote { note, .. } => note.id,
            DeviceChange::RemoveNote { note, .. } => note.id,
            DeviceChange::NoteExpressionChange { note, .. } => note.id,
            DeviceChange::ReplaceNote { new_note, .. } => new_note.id,
            DeviceChange::CCChange { .. } => 0,
            DeviceChange::Unchanged { .. } => 0,
        }
    }
}

/// A note on followed by the note off of the same channel and pitch leaves
/// the held notes as they were, when no note was held there; the note off
/// reports the note the note on added, released at its time.
pub proof fn lemma_note_on_then_off(
    st: DeviceState,
    t1: usize,
    t2: usize,
    ch: u8,
    pitch: u8,
    velocity: u8,
    velocity_off: u8,
    id: Option<usize>,
)
    requires
        state_wf(st),
        ch < 16,
        first_index(st.notes, note_key(NoteIndex { channel: ch, pitch })) is None,
    ensures
        ({
            let on = note_on_step(st, t1, ch, pitch, velocity, id);
            let off = note_off_step(on.0, t2, ch, pitch, velocity_off);
            &&& off.0.notes == st.notes
            &&& on.1 matches DeviceChange::AddNote { note, .. }
            &&& off.1 == DeviceChange::RemoveNote {
                time: t2,
                note: Note { released_at: t2, velocity_off, ..on.1->AddNote_note },
            }
        }),
{
    let k = NoteIndex { channel: ch, pitch };
    let on = note_on_step(st, t1, ch, pitch, velocity, id);
    let s1 = on.0.notes;
    assert(s1 == st.notes.push((k, on.1->AddNote_note)));
    lemma_first_index_some(st.notes, note_key(k));
    assert forall|j: int| 0 <= j < st.notes.len() implies !(#[trigger] note_key(k)(s1[j])) by {
        assert(s1[j] == st.notes[j]);
    }
    lemma_first_index_is(s1, note_key(k), st.notes.len() as int);
    assert(s1.remove(st.notes.len() as int) == st.notes);
}

} // verus!
