use vstd::prelude::*;
use crate::messages::{
    NoteOff, PitchBend, decodable, note_off_raw, bend_raw, bend_round_trips,
};
use crate::midi_message_with_delta::MidiMessageWithDelta;
use crate::arpegiator::device::{Device, DeviceState, device_step, update_ok, state_wf, empty_device_state};
use crate::arpegiator::note::Note;
use crate::arpegiator::pattern::{Pattern, transposed};
use crate::arpegiator::expressive_note::{ExpressiveNote, expressive_messages};
use crate::seq_util::{first_index, lemma_first_index_is, lemma_first_index_none};

verus! {

/// The output side of the arpeggiator: a device that follows what was sent,
/// and the messages queued for sending.
pub struct DeviceOut {
    pub device: Device,
    pub output_queue: Vec<MidiMessageWithDelta>,
}

/// The state after the device took `ms` in order, all under `id`.
pub open spec fn feed(st: DeviceState, ms: Seq<MidiMessageWithDelta>, current_time: usize, id: Option<usize>) -> DeviceState
    decreases ms.len(),
{
    if ms.len() == 0 {
        st
    } else {
        device_step(feed(st, ms.drop_last(), current_time, id), ms.last(), current_time, id).0
    }
}

pub open spec fn with_id(id: usize) -> spec_fn((crate::arpegiator::note::NoteIndex, Note)) -> bool {
    |e: (crate::arpegiator::note::NoteIndex, Note)| e.1.id == id
}

/// The first note sent under the identifier `id`, if any.
pub open spec fn note_by_id(st: DeviceState, id: usize) -> Option<Note> {
    match first_index(st.notes, with_id(id)) {
        Some(i) => Some(st.notes[i].1),
        None => None,
    }
}

/// The messages that start a pattern on the held note: the note's pitch
/// moved by the pattern's octaves, the pattern's channel, velocity and
/// expression, at the pattern's start.
pub open spec fn pattern_note_messages(pattern: Pattern, pitch: u8, current_time: usize) -> Seq<MidiMessageWithDelta> {
    expressive_messages(
        ExpressiveNote {
            channel: pattern.channel,
            pitch,
            velocity: pattern.velocity,
            pressure: pattern.pressure,
            timbre: pattern.timbre,
            pitchbend: pattern.pitchbend,
        },
    ).map_values(
        |m: crate::raw_message::RawMessage|
            MidiMessageWithDelta { delta_frames: (pattern.pressed_at - current_time) as u16, data: m },
    )
}

/// A pattern can start at `current_time`: it does not start earlier, its
/// channel fits every status byte and its bend encodes and decodes.
pub open spec fn pattern_start_ok(pattern: Pattern, current_time: usize) -> bool {
    &&& pattern.pressed_at >= current_time
    &&& pattern.channel + 0xE0 <= 0xFF
    &&& bend_round_trips(pattern.pitchbend as int)
}

/// A bend towards `target_pitch` can be sent for the note sent under `id`.
pub open spec fn pitch_target_ok(st: DeviceState, id: usize, target_pitch: u8) -> bool {
    match note_by_id(st, id) {
        Some(n) => target_pitch >= n.pitch && bend_round_trips((target_pitch - n.pitch) * 1000),
        None => true,
    }
}

/// Starting a pattern sends, in order, the messages of the expressive note
/// (bend, timbre, aftertouch, note on) built from the pattern and the
/// pitch, each at the pattern's start counted from the block's start, when
/// that offset fits a frame offset. With `push_note_on`'s contract: when
/// the transposed pitch leaves 0..=127 nothing changes; else these messages
/// are appended to the output queue.
pub proof fn lemma_pattern_note_messages(pattern: Pattern, pitch: u8, current_time: usize)
    requires
        current_time <= pattern.pressed_at <= current_time + 0xFFFF,
    ensures
        ({
            let n = ExpressiveNote {
                channel: pattern.channel,
                pitch,
                velocity: pattern.velocity,
                pressure: pattern.pressure,
                timbre: pattern.timbre,
                pitchbend: pattern.pitchbend,
            };
            let ms = pattern_note_messages(pattern, pitch, current_time);
            &&& ms.len() == 4
            &&& forall|k: int|
                0 <= k < 4 ==> (#[trigger] ms[k]).data == expressive_messages(n)[k] && ms[k].delta_frames
                    == pattern.pressed_at - current_time
        }),
{
}

/// Each message that starts a pattern decodes without overflow.
proof fn lemma_pattern_messages_decodable(pattern: Pattern, pitch: u8, current_time: usize)
    requires
        pattern_start_ok(pattern, current_time),
    ensures
        pattern_note_messages(pattern, pitch, current_time).len() == 4,
        forall|k: int|
            0 <= k < 4 ==> decodable((#[trigger] pattern_note_messages(pattern, pitch, current_time)[k]).data.0@),
{
    let ms = pattern_note_messages(pattern, pitch, current_time);
    let ch = pattern.channel;
    let s1: u8 = (0xB0 + ch) as u8;
    let s2: u8 = (0x90 + ch) as u8;
    assert(0xB0 <= s1 <= 0xCF ==> (s1 & 0xF0) != 0xE0) by (bit_vector);
    assert(0x90 <= s2 <= 0xAF ==> (s2 & 0xF0) != 0xE0) by (bit_vector);
    let s3: u8 = (0xA0 + ch) as u8;
    assert(0xA0 <= s3 <= 0xBF ==> (s3 & 0xF0) != 0xE0) by (bit_vector);
    assert(decodable(ms[0].data.0@));
    assert(decodable(ms[1].data.0@));
    assert(decodable(ms[2].data.0@));
    assert(decodable(ms[3].data.0@));
}

impl DeviceOut {
    /// What the output device holds.
    pub open spec fn state(&self) -> DeviceState {
        self.device@
    }

    pub open spec fn wf(&self) -> bool {
        self.device.wf()
    }

    /// An output with nothing sent and nothing queued.
    pub fn new(name: String) -> (r: DeviceOut)
        ensures
            r.wf(),
            r.device._name == name,
            r.state() == empty_device_state(),
            r.state().notes.len() == 0,
            r.state().cc.len() == 0,
            r.state().note_index == 0,
            r.output_queue@.len() == 0,
    {
        DeviceOut { device: Device::new(name), output_queue: Vec::new() }
    }

    /// Queues a message and lets the output device follow it.
    pub fn update(&mut self, midi_message: MidiMessageWithDelta, current_time: usize, id: Option<usize>)
        requires
            old(self).wf(),
            update_ok(old(self).state(), midi_message, current_time, id),
        ensures
            final(self).wf(),
            final(self).output_queue@ == old(self).output_queue@.push(midi_message),
            final(self).state() == device_step(old(self).state(), midi_message, current_time, id).0,
    {
        self.output_queue.push(midi_message);
        self.device.update(midi_message, current_time, id);
    }

    fn find_by_id(&self, id: usize) -> (r: Option<usize>)
        ensures
            match first_index(self.device.notes@, with_id(id)) {
                Some(i) => r is Some && r->0 == i,
                None => r is None,
            },
    {
        let n = self.device.notes.len();
        let mut i: usize = 0;
        while i < n
            invariant
                n == self.device.notes@.len(),
                0 <= i <= n,
                forall|j: int| 0 <= j < i ==> !(#[trigger] with_id(id)(self.device.notes@[j])),
            decreases n - i,
        {
            if self.device.notes[i].1.id == id {
                proof {
                    lemma_first_index_is(self.device.notes@, with_id(id), i as int);
                }
                return Some(i);
            }
            i = i + 1;
        }
        proof {
            lemma_first_index_none(self.device.notes@, with_id(id));
        }
        None
    }

    /// The first note sent under the identifier `id`, if any.
    pub fn note_by_id(&self, id: usize) -> (r: Option<Note>)
        ensures
            r == note_by_id(self.state(), id),
    {
        match self.find_by_id(id) {
            Some(i) => Some(self.device.notes[i].1),
            None => None,
        }
    }

    /// Bends the note sent under `note_id` towards `target_pitch`, one
    /// semitone per thousand millisemitones; nothing when no such note plays.
    pub fn update_pitch(&mut self, note_id: usize, target_pitch: u8, delta_frames: u16, current_time: usize)
        requires
            old(self).wf(),
            current_time + delta_frames <= usize::MAX,
            pitch_target_ok(old(self).state(), note_id, target_pitch),
        ensures
            final(self).wf(),
            match note_by_id(old(self).state(), note_id) {
                Some(n) => {
                    let m = MidiMessageWithDelta {
                        delta_frames,
                        data: bend_raw(n.channel, (target_pitch - n.pitch) * 1000),
                    };
                    &&& final(self).output_queue@ == old(self).output_queue@.push(m)
                    &&& final(self).state() == device_step(old(self).state(), m, current_time, None).0
                },
                None => final(self).output_queue@ == old(self).output_queue@ && final(self).state() == old(
                    self,
                ).state(),
            },
    {
        match self.find_by_id(note_id) {
            None => {},
            Some(i) => {
                let note = self.device.notes[i].1;
                assert(note.channel < 16);
                let raw_message = PitchBend {
                    channel: note.channel,
                    millisemitones: (target_pitch - note.pitch) as i32 * 1000,
                }.into_raw();
                assert(decodable(raw_message.0@));
                let status: u8 = raw_message.0[0];
                assert(0xE0 <= status <= 0xEF ==> (status & 0xF0) != 0x90) by (bit_vector);
                self.update(MidiMessageWithDelta { delta_frames, data: raw_message }, current_time, None);
            },
        }
    }

    /// Sends the note off of the note sent under `note_id`; nothing when no
    /// such note plays.
    pub fn push_note_off(&mut self, note_id: usize, velocity_off: u8, delta_frames: u16, current_time: usize)
        requires
            old(self).wf(),
            current_time + delta_frames <= usize::MAX,
        ensures
            final(self).wf(),
            match note_by_id(old(self).state(), note_id) {
                Some(n) => {
                    let m = MidiMessageWithDelta { delta_frames, data: note_off_raw(n.channel, n.pitch, velocity_off) };
                    &&& final(self).output_queue@ == old(self).output_queue@.push(m)
                    &&& final(self).state() == device_step(old(self).state(), m, current_time, None).0
                },
                None => final(self).output_queue@ == old(self).output_queue@ && final(self).state() == old(
                    self,
                ).state(),
            },
    {
        let i = match self.find_by_id(note_id) {
            None => {
                return;
            },
            Some(i) => i,
        };
        let note = self.device.notes[i].1;
        assert(note.channel < 16);
        let raw_message = NoteOff { channel: note.channel, pitch: note.pitch, velocity: velocity_off }.into_raw();
        let status: u8 = raw_message.0[0];
        assert(0x80 <= status <= 0x8F ==> (status & 0xF0) != 0xE0 && (status & 0xF0) != 0x90) by (bit_vector);
        self.update(MidiMessageWithDelta { delta_frames, data: raw_message }, current_time, None);
    }

    /// Starts `pattern` on `note`: the note's pitch moved by the pattern's
    /// octaves, with the pattern's expression, at the pattern's start and
    /// under the pattern's identifier; nothing when the pitch leaves 0..=127.
    pub fn push_note_on(&mut self, pattern: &Pattern, note: &Note, current_time: usize)
        requires
            old(self).wf(),
            pattern_start_ok(*pattern, current_time),
        ensures
            final(self).wf(),
            ({
                let t = transposed(pattern.octave, note.pitch);
                if 0 <= t <= 127 {
                    let ms = pattern_note_messages(*pattern, t as u8, current_time);
                    &&& final(self).output_queue@ == old(self).output_queue@ + ms
                    &&& final(self).state() == feed(old(self).state(), ms, current_time, Some(pattern.id))
                } else {
                    final(self).output_queue@ == old(self).output_queue@ && final(self).state() == old(self).state()
                }
            }),
    {
        let pitch = match pattern.transpose(note.pitch) {
            None => {
                return;
            },
            Some(pitch) => pitch,
        };
        let messages = ExpressiveNote {
            channel: pattern.channel,
            pitch,
            velocity: pattern.velocity,
            pressure: pattern.pressure,
            timbre: pattern.timbre,
            pitchbend: pattern.pitchbend,
        }.into_rawmessages();
        let until_start: usize = pattern.pressed_at - current_time;
        let delta_frames = until_start as u16;
        assert(until_start as u16 <= until_start) by (bit_vector);
        let ghost ms = pattern_note_messages(*pattern, pitch, current_time);
        proof {
            lemma_pattern_messages_decodable(*pattern, pitch, current_time);
        }
        let ghost q0 = self.output_queue@;
        let ghost st0 = self.state();
        let n = messages.len();
        let mut i: usize = 0;
        while i < n
            invariant
                n == messages@.len(),
                n == ms.len(),
                0 <= i <= n,
                self.wf(),
                delta_frames == (pattern.pressed_at - current_time) as u16,
                forall|k: int| 0 <= k < n ==> (#[trigger] ms[k]) == (MidiMessageWithDelta { delta_frames, data: messages@[k] }),
                forall|k: int| 0 <= k < n ==> decodable((#[trigger] ms[k]).data.0@),
                current_time + delta_frames <= usize::MAX,
                self.output_queue@ == q0 + ms.take(i as int),
                self.state() == feed(st0, ms.take(i as int), current_time, Some(pattern.id)),
            decreases n - i,
        {
            let m = MidiMessageWithDelta { delta_frames, data: messages[i] };
            assert(ms[i as int] == m);
            proof {
                assert(ms.take(i + 1).drop_last() == ms.take(i as int));
                assert(ms.take(i + 1) == ms.take(i as int).push(m));
            }
            self.update(m, current_time, Some(pattern.id));
            i = i + 1;
        }
        assert(ms.take(n as int) == ms);
    }
}

} // verus!
