use vstd::prelude::*;
use crate::constants::TIMBRECC;
use crate::raw_message::RawMessage;
use crate::messages::{
    Timbre, PitchBend, AfterTouch, cc_raw, bend_raw, aftertouch_raw, note_off_raw, encodable_millisemitones,
    bend_round_trips,
};
use crate::midi_message_with_delta::MidiMessageWithDelta;
use crate::arpegiator::note::Note;
use crate::arpegiator::device::{
    empty_device_state, Device, DeviceState, DeviceChange, Expression, device_step, update_ok, note_at_rank, change_time,
    take_messages,
};
use crate::arpegiator::device_out::{
    DeviceOut, feed, note_by_id, pattern_note_messages, pattern_start_ok, pitch_target_ok,
};
use crate::arpegiator::pattern::{Pattern, transposed};
use crate::arpegiator::pattern_device::{
    PatternDevice, PatternDeviceChange, pattern_step, patterns_at, pattern_change_time, follow_changes,
};
use crate::arpegiator::timed_event::TimedEvent;
use crate::arpegiator::change::SourceChange;
use crate::arpegiator::timed_sort::{sort_by_time, sort_timed, lemma_sort_timed_len};

verus! {

/// How output notes follow a held note that changes under a playing
/// pattern: not at all, or by bending them at once to the new pitch.
#[derive(Clone, Copy, Debug, PartialEq, Eq, Structural)]
pub enum PitchBendMode {
    Off,
    Immediate,
}

/// The output device and the messages queued so far.
pub type Output = (DeviceState, Seq<MidiMessageWithDelta>);

/// The state of an arpeggiator: its two input devices, the patterns held,
/// its output, and the time of the current block.
pub ghost struct ArpState {
    pub patterns_in: DeviceState,
    pub notes_in: DeviceState,
    pub patterns: Seq<(usize, Pattern)>,
    pub out: DeviceState,
    pub queue: Seq<MidiMessageWithDelta>,
    pub current_time: usize,
}

/// An arpeggiator: patterns played on a pattern input are applied to the
/// notes held on a note input, the pattern note of rank `i` playing the held
/// note of rank `i`.
pub struct Arpegiator {
    pub pattern_device_in: Device,
    pub notes_device_in: Device,
    pub pattern_device: PatternDevice,
    pub device_out: DeviceOut,
    pub current_time_in_samples: usize,
}

/// Sends one message on the output, when the output can take it.
pub open spec fn send(o: Output, m: MidiMessageWithDelta, current_time: usize) -> Option<Output> {
    if update_ok(o.0, m, current_time, None) {
        Some((device_step(o.0, m, current_time, None).0, o.1.push(m)))
    } else {
        None
    }
}

/// Starts a pattern on a held note, when the pattern can start.
pub open spec fn start_pattern(o: Output, pattern: Pattern, note: Note, current_time: usize) -> Option<Output> {
    if !pattern_start_ok(pattern, current_time) {
        None
    } else {
        let t = transposed(pattern.octave, note.pitch);
        if 0 <= t <= 127 {
            let ms = pattern_note_messages(pattern, t as u8, current_time);
            Some((feed(o.0, ms, current_time, Some(pattern.id)), o.1 + ms))
        } else {
            Some(o)
        }
    }
}

/// Ends the output note started for the pattern `id`, if it plays.
pub open spec fn stop_pattern(o: Output, id: usize, velocity_off: u8, delta: u16, current_time: usize) -> Option<
    Output,
> {
    if current_time + delta > usize::MAX {
        None
    } else {
        match note_by_id(o.0, id) {
            Some(n) => {
                let m = MidiMessageWithDelta { delta_frames: delta, data: note_off_raw(n.channel, n.pitch, velocity_off) };
                Some((device_step(o.0, m, current_time, None).0, o.1.push(m)))
            },
            None => Some(o),
        }
    }
}

/// Bends the output note of the pattern `id` to `target`.
pub open spec fn bend_pattern(o: Output, id: usize, target: u8, delta: u16, current_time: usize) -> Option<Output> {
    if current_time + delta > usize::MAX || !pitch_target_ok(o.0, id, target) {
        None
    } else {
        match note_by_id(o.0, id) {
            Some(n) => {
                let m = MidiMessageWithDelta {
                    delta_frames: delta,
                    data: bend_raw(n.channel, (target - n.pitch) * 1000),
                };
                Some((device_step(o.0, m, current_time, None).0, o.1.push(m)))
            },
            None => Some(o),
        }
    }
}

/// Bends the output notes of `ps` to the held note `note` moved by each
/// pattern's octaves (those that leave 0..=127 are left alone).
pub open spec fn bend_patterns(o: Output, ps: Seq<Pattern>, note: Note, delta: u16, current_time: usize) -> Option<
    Output,
>
    decreases ps.len(),
{
    if ps.len() == 0 {
        Some(o)
    } else {
        match bend_patterns(o, ps.drop_last(), note, delta, current_time) {
            None => None,
            Some(o1) => {
                let p = ps.last();
                let t = transposed(p.octave, note.pitch);
                if 0 <= t <= 127 {
                    bend_pattern(o1, p.id, t as u8, delta, current_time)
                } else {
                    Some(o1)
                }
            },
        }
    }
}

/// Bends the patterns of the first `k` ranks, the held note of each rank
/// (by pitch, then channel) driving the patterns of that rank.
pub open spec fn glide(
    o: Output,
    notes: Seq<(crate::arpegiator::note::NoteIndex, Note)>,
    ps: Seq<(usize, Pattern)>,
    k: nat,
    delta: u16,
    current_time: usize,
) -> Option<Output>
    decreases k,
{
    if k == 0 {
        Some(o)
    } else {
        match glide(o, notes, ps, (k - 1) as nat, delta, current_time) {
            None => None,
            Some(o1) => match note_at_rank(notes, k - 1, true) {
                None => Some(o1),
                Some(note) => bend_patterns(o1, patterns_at(ps, (k - 1) as u8), note, delta, current_time),
            },
        }
    }
}

/// The frames between the block start and a change, `None` before the block.
pub open spec fn delta_of(time: usize, current_time: usize) -> Option<u16> {
    if time < current_time {
        None
    } else {
        Some((time - current_time) as u16)
    }
}

/// What a change of the note input does to the output: an added note moves
/// the playing patterns onto the held notes when bending is on.
#[verifier::opaque]
pub open spec fn apply_note_change(
    o: Output,
    c: DeviceChange,
    st: ArpState,
    mode: PitchBendMode,
) -> Option<Output> {
    match delta_of(change_time(c), st.current_time) {
        None => None,
        Some(delta) => match c {
            DeviceChange::AddNote { .. } => if mode == PitchBendMode::Immediate {
                glide(o, st.notes_in.notes, st.patterns, st.notes_in.notes.len(), delta, st.current_time)
            } else {
                Some(o)
            },
            _ => Some(o),
        },
    }
}

/// The message that carries a pattern's new expression, if any: timbre and
/// pitch bend on the pattern's channel, pressure as aftertouch on the
/// pattern's note.
pub open spec fn expression_message(expression: Expression, pattern: Pattern, notes: Seq<(crate::arpegiator::note::NoteIndex, Note)>) -> Option<RawMessage> {
    match expression {
        Expression::Timbre => Some(cc_raw(pattern.channel, TIMBRECC, pattern.timbre)),
        Expression::PitchBend => Some(bend_raw(pattern.channel, pattern.pitchbend as int)),
        _ => match note_at_rank(notes, pattern.index as int, false) {
            None => None,
            Some(note) => {
                let t = transposed(pattern.octave, note.pitch);
                if 0 <= t <= 127 {
                    Some(aftertouch_raw(pattern.channel, t as u8, pattern.pressure))
                } else {
                    None
                }
            },
        },
    }
}

/// The expression message can be encoded.
pub open spec fn expression_ok(expression: Expression, pattern: Pattern) -> bool {
    match expression {
        Expression::Timbre => pattern.channel + 0xB0 <= 0xFF,
        Expression::PitchBend => pattern.channel + 0xE0 <= 0xFF && encodable_millisemitones(pattern.pitchbend as int),
        _ => pattern.channel + 0xA0 <= 0xFF,
    }
}

/// What a change of the patterns does to the output: a new pattern starts
/// on the held note of its rank, a released pattern stops, a replaced one
/// stops and the new one starts, expression changes are forwarded.
#[verifier::opaque]
pub open spec fn apply_pattern_change(o: Output, c: PatternDeviceChange, st: ArpState) -> Option<Output> {
    let ct = st.current_time;
    let notes = st.notes_in.notes;
    match delta_of(pattern_change_time(c), ct) {
        None => None,
        Some(delta) => match c {
            PatternDeviceChange::AddPattern { pattern, .. } => match note_at_rank(notes, pattern.index as int, false) {
                None => Some(o),
                Some(note) => start_pattern(o, pattern, note, ct),
            },
            PatternDeviceChange::PatternExpressionChange { expression, pattern, .. } => match expression_message(
                expression,
                pattern,
                notes,
            ) {
                None => Some(o),
                Some(m) => if !expression_ok(expression, pattern) {
                    None
                } else {
                    send(o, MidiMessageWithDelta { delta_frames: delta, data: m }, ct)
                },
            },
            PatternDeviceChange::RemovePattern { pattern, .. } => stop_pattern(
                o,
                pattern.id,
                pattern.velocity_off,
                delta,
                ct,
            ),
            PatternDeviceChange::ReplacePattern { old_pattern, new_pattern, .. } => match stop_pattern(
                o,
                old_pattern.id,
                old_pattern.velocity_off,
                delta,
                ct,
            ) {
                None => None,
                Some(o1) => match note_at_rank(notes, new_pattern.index as int, false) {
                    None => Some(o1),
                    Some(note) => start_pattern(o1, new_pattern, note, ct),
                },
            },
            _ => Some(o),
        },
    }
}

/// Note and pattern changes, each list sorted, merged in time order: at the
/// same time the note change comes first, so that a pattern starts on the
/// note meant for it.
pub open spec fn merge_changes(ns: Seq<DeviceChange>, ps: Seq<PatternDeviceChange>) -> Seq<SourceChange>
    decreases ns.len() + ps.len(),
{
    if ns.len() == 0 && ps.len() == 0 {
        Seq::empty()
    } else if ps.len() == 0 || (ns.len() > 0 && change_time(ns[0]) <= pattern_change_time(ps[0])) {
        seq![SourceChange::NoteChange(ns[0])] + merge_changes(ns.drop_first(), ps)
    } else {
        seq![SourceChange::PatternChange(ps[0])] + merge_changes(ns, ps.drop_first())
    }
}

/// One change applied to the output.
pub open spec fn apply_source_change(o: Output, c: SourceChange, st: ArpState, mode: PitchBendMode) -> Option<Output> {
    match c {
        SourceChange::NoteChange(n) => apply_note_change(o, n, st, mode),
        SourceChange::PatternChange(p) => apply_pattern_change(o, p, st),
    }
}

/// Applies changes in order.
pub open spec fn apply_source_changes(o: Output, cs: Seq<SourceChange>, st: ArpState, mode: PitchBendMode) -> Option<
    Output,
>
    decreases cs.len(),
{
    if cs.len() == 0 {
        Some(o)
    } else {
        match apply_source_changes(o, cs.drop_last(), st, mode) {
            None => None,
            Some(o1) => apply_source_change(o1, cs.last(), st, mode),
        }
    }
}

/// One block: the pattern and note inputs take their messages, the pattern
/// device follows the pattern input, then the output applies the note
/// changes and the pattern changes, each sorted by time and identifier and
/// the two merged in time order (see `merge_changes`), and the time moves
/// on by the block's samples. `None` when a step cannot be taken.
pub open spec fn process_block(
    st: ArpState,
    pattern_messages: Seq<MidiMessageWithDelta>,
    note_messages: Seq<MidiMessageWithDelta>,
    mode: PitchBendMode,
    samples: usize,
) -> Option<ArpState> {
    let ct = st.current_time;
    match take_messages(st.patterns_in, pattern_messages, ct) {
        None => None,
        Some(p) => match take_messages(st.notes_in, note_messages, ct) {
            None => None,
            Some(n) => {
                let f = follow_changes(st.patterns, p.1);
                let mid = ArpState { patterns_in: p.0, notes_in: n.0, patterns: f.0, ..st };
                match apply_source_changes((st.out, st.queue), merge_changes(sort_timed(n.1), sort_timed(f.1)), mid, mode) {
                    None => None,
                    Some(o2) => if ct + samples > usize::MAX {
                        None
                    } else {
                        Some(ArpState { out: o2.0, queue: o2.1, current_time: (ct + samples) as usize, ..mid })
                    },
                }
            },
        },
    }
}

/// Only the output differs between two states.
pub open spec fn same_inputs(a: ArpState, b: ArpState) -> bool {
    &&& a.patterns_in == b.patterns_in
    &&& a.notes_in == b.notes_in
    &&& a.patterns == b.patterns
    &&& a.current_time == b.current_time
}

/// The output of a state.
pub open spec fn output_of(a: ArpState) -> Output {
    (a.out, a.queue)
}

/// Whether a bend of `millisemitones` encodes and decodes again.
fn bend_ok(millisemitones: i32) -> (r: bool)
    ensures
        r == bend_round_trips(millisemitones as int),
{
    if millisemitones < -179072 || millisemitones > 83071 {
        return false;
    }
    let raw = PitchBend { channel: 0, millisemitones }.into_raw();
    (raw.0[1] as u32) + 128 * (raw.0[2] as u32) <= 22369
}

impl View for Arpegiator {
    type V = ArpState;

    open spec fn view(&self) -> ArpState {
        ArpState {
            patterns_in: self.pattern_device_in@,
            notes_in: self.notes_device_in@,
            patterns: self.pattern_device.patterns(),
            out: self.device_out.state(),
            queue: self.device_out.output_queue@,
            current_time: self.current_time_in_samples,
        }
    }
}

impl Arpegiator {
    pub open spec fn wf(&self) -> bool {
        &&& self.pattern_device_in.wf()
        &&& self.notes_device_in.wf()
        &&& self.pattern_device.wf()
        &&& self.device_out.wf()
    }

    /// An arpeggiator with nothing held, nothing played and time at zero.
    pub fn new() -> (r: Arpegiator)
        ensures
            r.wf(),
            r@ == (ArpState {
                patterns_in: empty_device_state(),
                notes_in: empty_device_state(),
                patterns: Seq::empty(),
                out: empty_device_state(),
                queue: Seq::empty(),
                current_time: 0,
            }),
            r.pattern_device_in._name@ == "Pattern"@,
            r.notes_device_in._name@ == "Notes"@,
            r.device_out.device._name@ == "Out"@,
            r@.patterns_in.notes.len() == 0,
            r@.notes_in.notes.len() == 0,
            r@.patterns.len() == 0,
            r@.out.notes.len() == 0,
            r@.queue.len() == 0,
            r@.current_time == 0,
    {
        let r = Arpegiator {
            pattern_device_in: Device::new(String::from_str("Pattern")),
            notes_device_in: Device::new(String::from_str("Notes")),
            pattern_device: PatternDevice::new(),
            device_out: DeviceOut::new(String::from_str("Out")),
            current_time_in_samples: 0,
        };
        assert(r@.patterns =~= Seq::empty());
        assert(r@.queue =~= Seq::empty());
        r
    }

    fn start(&mut self, pattern: Pattern, note: Note) -> (r: bool)
        requires
            old(self).wf(),
        ensures
            final(self).wf(),
            same_inputs(final(self)@, old(self)@),
            match start_pattern(output_of(old(self)@), pattern, note, old(self)@.current_time) {
                None => !r,
                Some(o) => r && output_of(final(self)@) == o,
            },
    {
        let ct = self.current_time_in_samples;
        if !(pattern.pressed_at >= ct && pattern.channel <= 31 && bend_ok(pattern.pitchbend)) {
            return false;
        }
        self.device_out.push_note_on(&pattern, &note, ct);
        true
    }

    fn stop(&mut self, id: usize, velocity_off: u8, delta: u16) -> (r: bool)
        requires
            old(self).wf(),
        ensures
            final(self).wf(),
            same_inputs(final(self)@, old(self)@),
            match stop_pattern(output_of(old(self)@), id, velocity_off, delta, old(self)@.current_time) {
                None => !r,
                Some(o) => r && output_of(final(self)@) == o,
            },
    {
        let ct = self.current_time_in_samples;
        if ct > usize::MAX - delta as usize {
            return false;
        }
        self.device_out.push_note_off(id, velocity_off, delta, ct);
        true
    }

    fn bend(&mut self, id: usize, target: u8, delta: u16) -> (r: bool)
        requires
            old(self).wf(),
        ensures
            final(self).wf(),
            same_inputs(final(self)@, old(self)@),
            match bend_pattern(output_of(old(self)@), id, target, delta, old(self)@.current_time) {
                None => !r,
                Some(o) => r && output_of(final(self)@) == o,
            },
    {
        let ct = self.current_time_in_samples;
        if ct > usize::MAX - delta as usize {
            return false;
        }
        match self.device_out.note_by_id(id) {
            Some(n) => {
                if !(target >= n.pitch && bend_ok((target - n.pitch) as i32 * 1000)) {
                    return false;
                }
            },
            None => {},
        }
        self.device_out.update_pitch(id, target, delta, ct);
        true
    }

    fn bend_all(&mut self, ps: &Vec<Pattern>, note: Note, delta: u16) -> (r: bool)
        requires
            old(self).wf(),
        ensures
            final(self).wf(),
            same_inputs(final(self)@, old(self)@),
            match bend_patterns(output_of(old(self)@), ps@, note, delta, old(self)@.current_time) {
                None => !r,
                Some(o) => r && output_of(final(self)@) == o,
            },
    {
        let ghost o0 = output_of(self@);
        let ghost st0 = self@;
        let n = ps.len();
        let mut i: usize = 0;
        while i < n
            invariant
                n == ps@.len(),
                0 <= i <= n,
                self.wf(),
                same_inputs(self@, st0),
                o0 == output_of(st0),
                st0 == old(self)@,
                bend_patterns(o0, ps@.take(i as int), note, delta, st0.current_time) == Some(output_of(self@)),
            decreases n - i,
        {
            let p = ps[i];
            proof {
                assert(ps@.take(i + 1).drop_last() == ps@.take(i as int));
                assert(ps@.take(i + 1).last() == p);
            }
            match p.transpose(note.pitch) {
                Some(target) => {
                    if !self.bend(p.id, target, delta) {
                        proof {
                            lemma_bend_patterns_none(o0, ps@, note, delta, st0.current_time, i + 1);
                        }
                        return false;
                    }
                },
                None => {},
            }
            i = i + 1;
        }
        assert(ps@.take(n as int) == ps@);
        true
    }

    fn glide_all(&mut self, delta: u16) -> (r: bool)
        requires
            old(self).wf(),
        ensures
            final(self).wf(),
            same_inputs(final(self)@, old(self)@),
            match glide(
                output_of(old(self)@),
                old(self)@.notes_in.notes,
                old(self)@.patterns,
                old(self)@.notes_in.notes.len(),
                delta,
                old(self)@.current_time,
            ) {
                None => !r,
                Some(o) => r && output_of(final(self)@) == o,
            },
    {
        let ghost o0 = output_of(self@);
        let ghost st0 = self@;
        let n = self.notes_device_in.notes.len();
        let mut k: usize = 0;
        while k < n
            invariant
                n == st0.notes_in.notes.len(),
                0 <= k <= n,
                self.wf(),
                same_inputs(self@, st0),
                o0 == output_of(st0),
                st0 == old(self)@,
                glide(o0, st0.notes_in.notes, st0.patterns, k as nat, delta, st0.current_time) == Some(
                    output_of(self@),
                ),
            decreases n - k,
        {
            match self.notes_device_in.ranked_note(k, true) {
                None => {},
                Some(note) => {
                    let ps = self.pattern_device.at(k as u8);
                    if !self.bend_all(&ps, note, delta) {
                        proof {
                            lemma_glide_none(o0, st0.notes_in.notes, st0.patterns, delta, st0.current_time, (k + 1) as nat, n as nat);
                        }
                        return false;
                    }
                },
            }
            k = k + 1;
        }
        true
    }

    fn apply_note_change(&mut self, c: &DeviceChange, mode: PitchBendMode) -> (r: bool)
        requires
            old(self).wf(),
        ensures
            final(self).wf(),
            same_inputs(final(self)@, old(self)@),
            match apply_note_change(output_of(old(self)@), *c, old(self)@, mode) {
                None => !r,
                Some(o) => r && output_of(final(self)@) == o,
            },
    {
        reveal(apply_note_change);
        let ct = self.current_time_in_samples;
        let time = c.timestamp();
        if time < ct {
            return false;
        }
        let delta = (time - ct) as u16;
        match c {
            DeviceChange::AddNote { .. } => {
                if mode == PitchBendMode::Immediate {
                    self.glide_all(delta)
                } else {
                    true
                }
            },
            _ => true,
        }
    }

    fn apply_pattern_change(&mut self, c: &PatternDeviceChange) -> (r: bool)
        requires
            old(self).wf(),
        ensures
            final(self).wf(),
            same_inputs(final(self)@, old(self)@),
            match apply_pattern_change(output_of(old(self)@), *c, old(self)@) {
                None => !r,
                Some(o) => r && output_of(final(self)@) == o,
            },
    {
        reveal(apply_pattern_change);
        let ct = self.current_time_in_samples;
        let time = c.timestamp();
        if time < ct {
            return false;
        }
        let delta = (time - ct) as u16;
        match c {
            PatternDeviceChange::AddPattern { pattern, .. } => {
                match self.notes_device_in.nth(pattern.index as usize) {
                    None => true,
                    Some(note) => self.start(*pattern, note),
                }
            },
            PatternDeviceChange::PatternExpressionChange { expression, pattern, .. } => {
                let ch = pattern.channel;
                let raw = match expression {
                    Expression::Timbre => {
                        if ch > 0x4F {
                            return false;
                        }
                        Timbre { channel: ch, value: pattern.timbre }.into_raw()
                    },
                    Expression::PitchBend => {
                        if ch > 31 || pattern.pitchbend < -179072 || pattern.pitchbend > 83071 {
                            return false;
                        }
                        PitchBend { channel: ch, millisemitones: pattern.pitchbend }.into_raw()
                    },
                    _ => {
                        let note = match self.notes_device_in.nth(pattern.index as usize) {
                            None => {
                                return true;
                            },
                            Some(note) => note,
                        };
                        let pitch = match pattern.transpose(note.pitch) {
                            None => {
                                return true;
                            },
                            Some(pitch) => pitch,
                        };
                        if ch > 0x5F {
                            return false;
                        }
                        AfterTouch { channel: ch, pitch, value: pattern.pressure }.into_raw()
                    },
                };
                let m = MidiMessageWithDelta { delta_frames: delta, data: raw };
                if !self.device_out.device.can_update(m, ct, None) {
                    return false;
                }
                self.device_out.update(m, ct, None);
                true
            },
            PatternDeviceChange::RemovePattern { pattern, .. } => {
                self.stop(pattern.id, pattern.velocity_off, delta)
            },
            PatternDeviceChange::ReplacePattern { old_pattern, new_pattern, .. } => {
                if !self.stop(old_pattern.id, old_pattern.velocity_off, delta) {
                    return false;
                }
                match self.notes_device_in.nth(new_pattern.index as usize) {
                    None => true,
                    Some(note) => self.start(*new_pattern, note),
                }
            },
            _ => true,
        }
    }

    /// Processes one block (see `process_block`): `false` when a step could
    /// not be taken, the state then being left part way.
    pub fn process(
        &mut self,
        pattern_messages: Vec<MidiMessageWithDelta>,
        note_messages: Vec<MidiMessageWithDelta>,
        mode: PitchBendMode,
        samples: usize,
    ) -> (r: bool)
        requires
            old(self).wf(),
        ensures
            final(self).wf(),
            r == process_block(old(self)@, pattern_messages@, note_messages@, mode, samples) is Some,
            r ==> final(self)@ == process_block(old(self)@, pattern_messages@, note_messages@, mode, samples)->0,
    {
        let ghost st0 = self@;
        let ct = self.current_time_in_samples;
        let pattern_changes = match self.pattern_device_in.process_buffer(&pattern_messages, ct) {
            None => {
                return false;
            },
            Some(c) => c,
        };
        let note_changes = match self.notes_device_in.process_buffer(&note_messages, ct) {
            None => {
                return false;
            },
            Some(c) => c,
        };
        let pattern_changes = self.pattern_device.follow(pattern_changes);
        let note_changes = sort_by_time(note_changes);
        let pattern_changes = sort_by_time(pattern_changes);
        let ghost mid = self@;
        let ghost o0 = output_of(mid);
        proof {
            let p = take_messages(st0.patterns_in, pattern_messages@, ct)->0;
            let q = take_messages(st0.notes_in, note_messages@, ct)->0;
            let f = follow_changes(st0.patterns, p.1);
            assert(mid == (ArpState { patterns_in: p.0, notes_in: q.0, patterns: f.0, ..st0 }));
            assert(note_changes@ == sort_timed(q.1));
            assert(pattern_changes@ == sort_timed(f.1));
        }
        let ghost all = merge_changes(note_changes@, pattern_changes@);
        assert(apply_source_changes(o0, all, mid, mode) is None ==> process_block(
            st0,
            pattern_messages@,
            note_messages@,
            mode,
            samples,
        ) is None);
        let n = note_changes.len();
        let m = pattern_changes.len();
        let mut i: usize = 0;
        let mut j: usize = 0;
        let ghost mut done: Seq<SourceChange> = Seq::empty();
        assert(note_changes@.skip(0) == note_changes@);
        assert(pattern_changes@.skip(0) == pattern_changes@);
        while i < n || j < m
            invariant
                n == note_changes@.len(),
                m == pattern_changes@.len(),
                0 <= i <= n,
                0 <= j <= m,
                self.wf(),
                same_inputs(self@, mid),
                st0 == old(self)@,
                all == merge_changes(note_changes@, pattern_changes@),
                all == done + merge_changes(note_changes@.skip(i as int), pattern_changes@.skip(j as int)),
                apply_source_changes(o0, done, mid, mode) == Some(output_of(self@)),
                apply_source_changes(o0, all, mid, mode) is None ==> process_block(
                    st0,
                    pattern_messages@,
                    note_messages@,
                    mode,
                    samples,
                ) is None,
            decreases (n - i) + (m - j),
        {
            let ghost ns = note_changes@.skip(i as int);
            let ghost ps = pattern_changes@.skip(j as int);
            let take_note = i < n && (j == m || note_changes[i].timestamp() <= pattern_changes[j].timestamp());
            let ghost c: SourceChange;
            if take_note {
                proof {
                    c = SourceChange::NoteChange(note_changes@[i as int]);
                    assert(ns[0] == note_changes@[i as int]);
                    assert(ns.drop_first() == note_changes@.skip(i + 1));
                    assert(merge_changes(ns, ps) == seq![c] + merge_changes(note_changes@.skip(i + 1), ps));
                    lemma_note_change_inputs(output_of(self@), note_changes@[i as int], self@, mid, mode);
                }
                let ok = self.apply_note_change(&note_changes[i], mode);
                i = i + 1;
                if !ok {
                    proof {
                        assert((done + seq![c]).drop_last() == done);
                        lemma_apply_source_changes_none(o0, done + seq![c], merge_changes(note_changes@.skip(i as int), ps), mid, mode);
                        assert(done + seq![c] + merge_changes(note_changes@.skip(i as int), ps) == all);
                    }
                    return false;
                }
            } else {
                proof {
                    c = SourceChange::PatternChange(pattern_changes@[j as int]);
                    assert(ps[0] == pattern_changes@[j as int]);
                    assert(ps.drop_first() == pattern_changes@.skip(j + 1));
                    assert(merge_changes(ns, ps) == seq![c] + merge_changes(ns, pattern_changes@.skip(j + 1)));
                    lemma_pattern_change_inputs(output_of(self@), pattern_changes@[j as int], self@, mid);
                }
                let ok = self.apply_pattern_change(&pattern_changes[j]);
                j = j + 1;
                if !ok {
                    proof {
                        assert((done + seq![c]).drop_last() == done);
                        lemma_apply_source_changes_none(o0, done + seq![c], merge_changes(ns, pattern_changes@.skip(j as int)), mid, mode);
                        assert(done + seq![c] + merge_changes(ns, pattern_changes@.skip(j as int)) == all);
                    }
                    return false;
                }
            }
            proof {
                let d1 = done + seq![c];
                assert(d1.drop_last() == done);
                assert(d1.last() == c);
                assert(all == d1 + merge_changes(note_changes@.skip(i as int), pattern_changes@.skip(j as int)));
                done = d1;
            }
        }
        proof {
            assert(note_changes@.skip(n as int).len() == 0);
            assert(pattern_changes@.skip(m as int).len() == 0);
            assert(all == done);
        }
        if ct > usize::MAX - samples {
            return false;
        }
        self.current_time_in_samples = ct + samples;
        true
    }
}

/// A note change acts on the output through the inputs alone.
proof fn lemma_note_change_inputs(o: Output, c: DeviceChange, a: ArpState, b: ArpState, mode: PitchBendMode)
    requires
        same_inputs(a, b),
    ensures
        apply_note_change(o, c, a, mode) == apply_note_change(o, c, b, mode),
{
    reveal(apply_note_change);
}

/// A pattern change acts on the output through the inputs alone.
proof fn lemma_pattern_change_inputs(o: Output, c: PatternDeviceChange, a: ArpState, b: ArpState)
    requires
        same_inputs(a, b),
    ensures
        apply_pattern_change(o, c, a) == apply_pattern_change(o, c, b),
{
    reveal(apply_pattern_change);
}

proof fn lemma_bend_patterns_none(o: Output, ps: Seq<Pattern>, note: Note, delta: u16, ct: usize, k: int)
    requires
        0 <= k <= ps.len(),
        bend_patterns(o, ps.take(k), note, delta, ct) is None,
    ensures
        bend_patterns(o, ps, note, delta, ct) is None,
    decreases ps.len() - k,
{
    if k < ps.len() {
        assert(ps.take(k + 1).drop_last() == ps.take(k));
        lemma_bend_patterns_none(o, ps, note, delta, ct, k + 1);
    } else {
        assert(ps.take(k) == ps);
    }
}

proof fn lemma_glide_none(
    o: Output,
    notes: Seq<(crate::arpegiator::note::NoteIndex, Note)>,
    ps: Seq<(usize, Pattern)>,
    delta: u16,
    ct: usize,
    k: nat,
    n: nat,
)
    requires
        k <= n,
        glide(o, notes, ps, k, delta, ct) is None,
    ensures
        glide(o, notes, ps, n, delta, ct) is None,
    decreases n - k,
{
    if k < n {
        lemma_glide_none(o, notes, ps, delta, ct, k + 1, n);
    }
}

/// Once a change fails, applying more changes after it fails too.
proof fn lemma_apply_source_changes_none(
    o: Output,
    a: Seq<SourceChange>,
    b: Seq<SourceChange>,
    st: ArpState,
    mode: PitchBendMode,
)
    requires
        apply_source_changes(o, a, st, mode) is None,
    ensures
        apply_source_changes(o, a + b, st, mode) is None,
    decreases b.len(),
{
    if b.len() > 0 {
        lemma_apply_source_changes_none(o, a, b.drop_last(), st, mode);
        assert((a + b).drop_last() == a + b.drop_last());
    } else {
        assert(a + b == a);
    }
}

} // verus!
