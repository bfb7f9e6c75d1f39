use vstd::prelude::*;
use crate::midi_event::{Event, MidiEvent};
use crate::raw_message::wire_array;
use crate::messages::{NoteOn, NoteOff, decodable, note_on_raw, note_off_raw};
use crate::midi_message_type::{MidiMessageType, status_kind, channel_of};
use crate::seq_util::{first_index, lemma_first_index_is, lemma_first_index_none, lemma_first_index_some};

verus! {

/// How note ons are spread over output channels: round robin over the first
/// `n` channels (from channel 1), or each on its own channel.
#[derive(Clone, Copy, Debug, PartialEq, Eq, Structural)]
pub enum ChannelDistribution {
    Channels(u8),
    Off,
}

/// A note that was let through, with the channel it was sent on.
#[derive(Clone, Copy, Debug)]
pub struct FanNote {
    pub channel: u8,
    pub pitch: u8,
    pub mapped_channel: u8,
}

/// The state of a fan-out: notes let through, the current step, and how
/// many note ons were distributed so far.
pub ghost struct FanState {
    pub notes: Seq<FanNote>,
    pub step: u8,
    pub counter: usize,
}

pub open spec fn fan_key(channel: u8, pitch: u8) -> spec_fn(FanNote) -> bool {
    |n: FanNote| n.channel == channel && n.pitch == pitch
}

/// A distribution whose every output channel fits a note status byte.
pub open spec fn distribution_ok(d: ChannelDistribution) -> bool {
    match d {
        ChannelDistribution::Channels(n) => 1 <= n <= 0x6F,
        ChannelDistribution::Off => true,
    }
}

/// How many note ons a block holds.
pub open spec fn note_on_count(events: Seq<Event>) -> nat
    decreases events.len(),
{
    if events.len() == 0 {
        0
    } else {
        note_on_count(events.drop_last()) + match events.last() {
            Event::Midi(e) => if status_kind(e.data@) == 0x90u8 {
                1nat
            } else {
                0nat
            },
            _ => 0nat,
        }
    }
}

/// One event through the fan-out. A note on goes to its target channel
/// (the next of the round robin, or its own) when the step is the selected
/// one or steps are off, and is remembered; the step moves on. A note off
/// of a remembered note goes to the channel its note on went to; any other
/// MIDI event passes unchanged.
pub open spec fn fan_step(
    st: FanState,
    e: MidiEvent,
    steps: u8,
    selection: u8,
    distribution: ChannelDistribution,
) -> (FanState, Seq<MidiEvent>) {
    let b = e.data@;
    let k = status_kind(b);
    if k == 0x90u8 {
        let target: u8 = match distribution {
            ChannelDistribution::Channels(n) => (((st.counter as int) % (n as int)) + 1) as u8,
            ChannelDistribution::Off => channel_of(b),
        };
        let counter = match distribution {
            ChannelDistribution::Channels(_) => (st.counter + 1) as usize,
            ChannelDistribution::Off => st.counter,
        };
        let play = steps == 0 || selection == st.step;
        let notes = if play {
            match first_index(st.notes, fan_key(channel_of(b), b[1])) {
                Some(_) => st.notes,
                None => st.notes.push(FanNote { channel: channel_of(b), pitch: b[1], mapped_channel: target }),
            }
        } else {
            st.notes
        };
        let out = if play {
            seq![MidiEvent { data: wire_array(note_on_raw(target, b[1], b[2]).0), ..e }]
        } else {
            Seq::empty()
        };
        let step = if steps > 0 {
            (((st.step + 1) as int) % (steps as int)) as u8
        } else {
            st.step
        };
        (FanState { notes, step, counter }, out)
    } else if k == 0x80u8 {
        match first_index(st.notes, fan_key(channel_of(b), b[1])) {
            Some(i) => (
                FanState { notes: st.notes.remove(i), ..st },
                seq![MidiEvent { data: wire_array(note_off_raw(st.notes[i].mapped_channel, b[1], b[2]).0), ..e }],
            ),
            None => (st, seq![e]),
        }
    } else {
        (st, seq![e])
    }
}

/// A block of events through the fan-out, in order.
pub open spec fn fan_events(
    st: FanState,
    events: Seq<Event>,
    steps: u8,
    selection: u8,
    distribution: ChannelDistribution,
) -> (FanState, Seq<MidiEvent>)
    decreases events.len(),
{
    if events.len() == 0 {
        (st, Seq::empty())
    } else {
        let prev = fan_events(st, events.drop_last(), steps, selection, distribution);
        match events.last() {
            Event::Midi(e) => {
                let r = fan_step(prev.0, e, steps, selection, distribution);
                (r.0, prev.1 + r.1)
            },
            _ => prev,
        }
    }
}

/// The step moves on with note ons only: a note on moves it to the next
/// of the `steps` steps (when steps are on), and any other message, a note
/// off included, leaves it where it is.
pub proof fn lemma_step_moves_on_note_ons(
    st: FanState,
    e: MidiEvent,
    steps: u8,
    selection: u8,
    distribution: ChannelDistribution,
)
    ensures
        status_kind(e.data@) != 0x90u8 ==> fan_step(st, e, steps, selection, distribution).0.step == st.step,
        status_kind(e.data@) == 0x90u8 && steps > 0 ==> fan_step(st, e, steps, selection, distribution).0.step
            == (st.step + 1) % (steps as int),
        steps == 0 ==> fan_step(st, e, steps, selection, distribution).0.step == st.step,
{
}

/// After a block, the step has moved on by the number of note ons in the
/// block, around the `steps` steps; note offs and other events do not count.
pub proof fn lemma_step_counts_note_ons(
    st: FanState,
    events: Seq<Event>,
    steps: u8,
    selection: u8,
    distribution: ChannelDistribution,
)
    ensures
        fan_events(st, events, steps, selection, distribution).0.step == if steps == 0 || note_on_count(events)
            == 0 {
            st.step as int
        } else {
            (st.step + note_on_count(events)) % (steps as int)
        },
    decreases events.len(),
{
    if events.len() > 0 {
        let d = events.drop_last();
        lemma_step_counts_note_ons(st, d, steps, selection, distribution);
        let prev = fan_events(st, d, steps, selection, distribution);
        match events.last() {
            Event::Midi(e) => {
                lemma_step_moves_on_note_ons(prev.0, e, steps, selection, distribution);
                if status_kind(e.data@) == 0x90u8 && steps > 0 && note_on_count(d) > 0 {
                    vstd::arithmetic::div_mod::lemma_add_mod_noop_right(1, st.step + note_on_count(d), steps as int);
                }
            },
            _ => {},
        }
    }
}

/// Remembered notes were sent on a channel that fits a note status byte,
/// and the step is below 255.
pub open spec fn fan_wf(st: FanState) -> bool {
    &&& st.step < 255
    &&& forall|i: int| 0 <= i < st.notes.len() ==> (#[trigger] st.notes[i]).mapped_channel <= 0x6F
}

/// Every MIDI event of the block decodes.
pub open spec fn all_midi_decodable(events: Seq<Event>) -> bool {
    forall|i: int| 0 <= i < events.len() ==> match #[trigger] events[i] {
        Event::Midi(e) => decodable(e.data@),
        _ => true,
    }
}

/// Spreads notes over channels, or lets through only every `steps`-th note.
pub struct NoteFanOut {
    pub events: Vec<MidiEvent>,
    pub current_playing_notes: Vec<FanNote>,
    pub current_step: u8,
    pub notes_counter: usize,
}

impl View for NoteFanOut {
    type V = FanState;

    open spec fn view(&self) -> FanState {
        FanState { notes: self.current_playing_notes@, step: self.current_step, counter: self.notes_counter }
    }
}

impl NoteFanOut {
    /// Nothing pending or remembered, step and counter at zero.
    pub fn new() -> (r: NoteFanOut)
        ensures
            r.events@.len() == 0,
            r@.notes.len() == 0,
            r@.step == 0,
            r@.counter == 0,
    {
        NoteFanOut { events: Vec::new(), current_playing_notes: Vec::new(), current_step: 0, notes_counter: 0 }
    }

    fn find(&self, channel: u8, pitch: u8) -> (r: Option<usize>)
        ensures
            match first_index(self.current_playing_notes@, fan_key(channel, pitch)) {
                Some(i) => r is Some && r->0 == i,
                None => r is None,
            },
    {
        let n = self.current_playing_notes.len();
        let mut i: usize = 0;
        while i < n
            invariant
                n == self.current_playing_notes@.len(),
                0 <= i <= n,
                forall|j: int| 0 <= j < i ==> !(#[trigger] fan_key(channel, pitch)(self.current_playing_notes@[j])),
            decreases n - i,
        {
            let note = self.current_playing_notes[i];
            if note.channel == channel && note.pitch == pitch {
                proof {
                    lemma_first_index_is(self.current_playing_notes@, fan_key(channel, pitch), i as int);
                }
                return Some(i);
            }
            i = i + 1;
        }
        proof {
            lemma_first_index_none(self.current_playing_notes@, fan_key(channel, pitch));
        }
        None
    }

    fn take_event(&mut self, e: &MidiEvent, steps: u8, selection: u8, distribution: ChannelDistribution)
        requires
            fan_wf(old(self)@),
            decodable(e.data@),
            distribution_ok(distribution),
            distribution is Channels && status_kind(e.data@) == 0x90u8 ==> old(self).notes_counter < usize::MAX,
        ensures
            fan_wf(final(self)@),
            (final(self)@, final(self).events@) == ({
                let r = fan_step(old(self)@, *e, steps, selection, distribution);
                (r.0, old(self).events@ + r.1)
            }),
    {
        let ghost ev0 = self.events@;
        let status: u8 = e.data[0];
        assert(status & 0x0F < 16) by (bit_vector);
        match MidiMessageType::from_bytes(&e.data) {
            MidiMessageType::NoteOnMessage(midi_message) => {
                let target_channel = match distribution {
                    ChannelDistribution::Channels(n) => {
                        let target_channel = (self.notes_counter % (n as usize)) as u8 + 1;
                        self.notes_counter = self.notes_counter + 1;
                        target_channel
                    },
                    ChannelDistribution::Off => e.data[0] & 0x0F,
                };
                if steps == 0 || selection == self.current_step {
                    let raw_message = NoteOn {
                        channel: target_channel,
                        pitch: midi_message.pitch,
                        velocity: midi_message.velocity,
                    }.into_raw();
                    self.events.push(MidiEvent { data: raw_message.into_bytes(), ..*e });
                    match self.find(midi_message.channel, midi_message.pitch) {
                        Some(_) => {},
                        None => {
                            self.current_playing_notes.push(
                                FanNote {
                                    channel: midi_message.channel,
                                    pitch: midi_message.pitch,
                                    mapped_channel: target_channel,
                                },
                            );
                        },
                    }
                }
                if steps > 0 {
                    self.current_step = (self.current_step + 1) % steps;
                }
                proof {
                    assert(self.events@ == ev0 + fan_step(old(self)@, *e, steps, selection, distribution).1);
                }
            },
            MidiMessageType::NoteOffMessage(midi_message) => {
                match self.find(midi_message.channel, midi_message.pitch) {
                    Some(i) => {
                        let ghost s = self.current_playing_notes@;
                        let note = self.current_playing_notes.remove(i);
                        let raw_message = NoteOff {
                            channel: note.mapped_channel,
                            pitch: midi_message.pitch,
                            velocity: midi_message.velocity,
                        }.into_raw();
                        self.events.push(MidiEvent { data: raw_message.into_bytes(), ..*e });
                        assert forall|j: int| 0 <= j < self.current_playing_notes@.len() implies (#[trigger] self.current_playing_notes@[j]).mapped_channel <= 0x6F by {
                            if j < i {
                                assert(self.current_playing_notes@[j] == s[j]);
                            } else {
                                assert(self.current_playing_notes@[j] == s[j + 1]);
                            }
                        }
                        assert(self.events@ == ev0 + fan_step(old(self)@, *e, steps, selection, distribution).1);
                    },
                    None => {
                        self.events.push(*e);
                        assert(self.events@ == ev0 + fan_step(old(self)@, *e, steps, selection, distribution).1);
                    },
                }
            },
            _ => {
                self.events.push(*e);
                assert(self.events@ == ev0 + fan_step(old(self)@, *e, steps, selection, distribution).1);
            },
        }
    }

    /// Takes the events of a block, with `steps` steps of which `selection`
    /// plays (no steps: every note plays) and the given channel distribution.
    pub fn process_events(
        &mut self,
        events: &Vec<Event>,
        steps: u8,
        selection: u8,
        distribution: ChannelDistribution,
    )
        requires
            fan_wf(old(self)@),
            all_midi_decodable(events@),
            distribution_ok(distribution),
            distribution is Channels ==> old(self).notes_counter + note_on_count(events@) <= usize::MAX,
        ensures
            fan_wf(final(self)@),
            (final(self)@, final(self).events@) == ({
                let r = fan_events(old(self)@, events@, steps, selection, distribution);
                (r.0, old(self).events@ + r.1)
            }),
    {
        let ghost st0 = self@;
        let ghost ev0 = self.events@;
        let n = events.len();
        let mut i: usize = 0;
        while i < n
            invariant
                n == events@.len(),
                0 <= i <= n,
                st0 == old(self)@,
                ev0 == old(self).events@,
                fan_wf(self@),
                all_midi_decodable(events@),
                distribution_ok(distribution),
                distribution is Channels ==> self.notes_counter + note_on_count(events@) - note_on_count(events@.take(i as int)) <= usize::MAX,
                distribution is Channels ==> self.notes_counter == st0.counter + note_on_count(events@.take(i as int)),
                (self@, self.events@) == ({
                    let r = fan_events(st0, events@.take(i as int), steps, selection, distribution);
                    (r.0, ev0 + r.1)
                }),
            decreases n - i,
        {
            proof {
                assert(events@.take(i + 1).drop_last() == events@.take(i as int));
                assert(events@.take(i + 1).last() == events@[i as int]);
                lemma_note_on_count_prefix(events@, i as int);
            }
            match &events[i] {
                Event::Midi(e) => {
                    self.take_event(e, steps, selection, distribution);
                },
                _ => {},
            }
            i = i + 1;
        }
        assert(events@.take(n as int) == events@);
    }

    /// Hands out the pending events, leaving none.
    pub fn take_events(&mut self) -> (r: Vec<MidiEvent>)
        ensures
            r@ == old(self).events@,
            final(self).events@.len() == 0,
            final(self)@ == old(self)@,
    {
        let mut r: Vec<MidiEvent> = Vec::new();
        std::mem::swap(&mut r, &mut self.events);
        r
    }
}

/// Counting note ons grows along prefixes.
proof fn lemma_note_on_count_prefix(events: Seq<Event>, i: int)
    requires
        0 <= i < events.len(),
    ensures
        note_on_count(events.take(i + 1)) <= note_on_count(events),
        note_on_count(events.take(i)) <= note_on_count(events.take(i + 1)),
    decreases events.len() - i,
{
    assert(events.take(i + 1).drop_last() == events.take(i));
    if i + 1 < events.len() {
        lemma_note_on_count_prefix(events, i + 1);
    } else {
        assert(events.take(i + 1) == events);
    }
}

/// A note off goes out on the channel its note on went out on: after a note
/// on that plays (steps off, or its step selected) for a channel and pitch
/// not yet remembered, the note off of that channel and pitch is sent with
/// the note on's output status channel, and the note is forgotten.
pub proof fn lemma_note_off_follows_note_on(
    st: FanState,
    on: MidiEvent,
    off: MidiEvent,
    steps: u8,
    selection: u8,
    distribution: ChannelDistribution,
)
    requires
        fan_wf(st),
        distribution_ok(distribution),
        status_kind(on.data@) == 0x90u8,
        status_kind(off.data@) == 0x80u8,
        channel_of(on.data@) == channel_of(off.data@),
        on.data@[1] == off.data@[1],
        steps == 0 || selection == st.step,
        first_index(st.notes, fan_key(channel_of(on.data@), on.data@[1])) is None,
    ensures
        ({
            let r1 = fan_step(st, on, steps, selection, distribution);
            let r2 = fan_step(r1.0, off, steps, selection, distribution);
            &&& r1.1.len() == 1
            &&& r2.1.len() == 1
            &&& r2.1[0].data@[0] & 0x0F == r1.1[0].data@[0] & 0x0F
            &&& r2.0.notes == st.notes
        }),
{
    let b = on.data@;
    let k = fan_key(channel_of(b), b[1]);
    let r1 = fan_step(st, on, steps, selection, distribution);
    let target: u8 = match distribution {
        ChannelDistribution::Channels(n) => (((st.counter as int) % (n as int)) + 1) as u8,
        ChannelDistribution::Off => channel_of(b),
    };
    let note = FanNote { channel: channel_of(b), pitch: b[1], mapped_channel: target };
    assert(r1.0.notes == st.notes.push(note));
    lemma_first_index_some(st.notes, k);
    assert forall|j: int| 0 <= j < st.notes.len() implies !(#[trigger] k(r1.0.notes[j])) by {
        assert(r1.0.notes[j] == st.notes[j]);
    }
    lemma_first_index_is(r1.0.notes, k, st.notes.len() as int);
    assert(r1.0.notes.remove(st.notes.len() as int) == st.notes);
    let status: u8 = b[0];
    assert(status & 0x0F <= 15) by (bit_vector);
    assert(target <= 0x6F) by (nonlinear_arith)
        requires
            distribution_ok(distribution),
            target == match distribution {
                ChannelDistribution::Channels(n) => (((st.counter as int) % (n as int)) + 1) as u8,
                ChannelDistribution::Off => channel_of(b),
            },
            channel_of(b) == b[0] & 0x0Fu8,
            b[0] & 0x0Fu8 <= 15,
    ;
    let s_on: u8 = (0x90 + target) as u8;
    let s_off: u8 = (0x80 + target) as u8;
    assert(target <= 0x6F ==> (s_on & 0x0F) == (s_off & 0x0F)) by (bit_vector)
        requires
            s_on == (0x90 + target) as u8,
            s_off == (0x80 + target) as u8,
    ;
}

} // verus!
