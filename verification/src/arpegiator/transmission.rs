use vstd::prelude::*;
use crate::midi_event::{MidiEvent, Event};
use crate::raw_message::RawMessage;
use crate::midi_message_with_delta::MidiMessageWithDelta;

verus! {

// Patterns can also travel to the arpeggiator on its MIDI input, mixed with
// the notes: the pattern receiver moves their status bytes below 0x80, the
// arpeggiator tells them apart by that and moves them back.

/// `a` sorts no later than `b`: by frame offset, then status byte, then
/// first data byte.
pub open spec fn key_le(a: MidiEvent, b: MidiEvent) -> bool {
    ||| a.delta_frames < b.delta_frames
    ||| a.delta_frames == b.delta_frames && a.data[0] < b.data[0]
    ||| a.delta_frames == b.delta_frames && a.data[0] == b.data[0] && a.data[1] <= b.data[1]
}

/// Where `x` goes in `s`: after every event that sorts no later than it.
pub open spec fn key_position(s: Seq<MidiEvent>, x: MidiEvent) -> int
    decreases s.len(),
{
    if s.len() == 0 {
        0
    } else if key_le(s.last(), x) {
        s.len() as int
    } else {
        key_position(s.drop_last(), x)
    }
}

/// Events sorted by key, events with equal keys keeping their order.
pub open spec fn sort_by_key(s: Seq<MidiEvent>) -> Seq<MidiEvent>
    decreases s.len(),
{
    if s.len() == 0 {
        s
    } else {
        let sorted = sort_by_key(s.drop_last());
        sorted.insert(key_position(sorted, s.last()), s.last())
    }
}

/// A pattern event: its status byte was moved below 0x80.
pub open spec fn is_pattern_event(e: MidiEvent) -> bool {
    e.data[0] < 0x80
}

/// The pattern message an event carries, its status byte moved back.
pub open spec fn pattern_message(e: MidiEvent) -> MidiMessageWithDelta {
    MidiMessageWithDelta {
        delta_frames: e.delta_frames as u16,
        data: RawMessage([(e.data[0] + 0x80) as u8, e.data[1], e.data[2]]),
    }
}

/// The event the pattern receiver sends for a played event.
pub open spec fn shifted_event(e: MidiEvent) -> MidiEvent {
    MidiEvent { data: [(e.data[0] - 0x80) as u8, e.data[1], e.data[2]], ..e }
}

/// The MIDI events of a block, in order.
pub open spec fn midi_events_of(events: Seq<Event>) -> Seq<MidiEvent>
    decreases events.len(),
{
    if events.len() == 0 {
        Seq::empty()
    } else {
        let prev = midi_events_of(events.drop_last());
        match events.last() {
            Event::Midi(e) => prev.push(e),
            _ => prev,
        }
    }
}

proof fn lemma_key_position_bounds(s: Seq<MidiEvent>, x: MidiEvent)
    ensures
        0 <= key_position(s, x) <= s.len(),
    decreases s.len(),
{
    if s.len() > 0 {
        lemma_key_position_bounds(s.drop_last(), x);
    }
}

fn key_le_exec(a: &MidiEvent, b: &MidiEvent) -> (r: bool)
    ensures
        r == key_le(*a, *b),
{
    a.delta_frames < b.delta_frames || (a.delta_frames == b.delta_frames && a.data[0] < b.data[0]) || (
    a.delta_frames == b.delta_frames && a.data[0] == b.data[0] && a.data[1] <= b.data[1])
}

fn find_key_position(s: &Vec<MidiEvent>, x: &MidiEvent) -> (r: usize)
    ensures
        r == key_position(s@, *x),
{
    let mut i: usize = s.len();
    assert(s@.take(i as int) == s@);
    while i > 0
        invariant
            0 <= i <= s@.len(),
            key_position(s@, *x) == key_position(s@.take(i as int), *x),
        decreases i,
    {
        proof {
            assert(s@.take(i as int).drop_last() == s@.take(i - 1));
            assert(s@.take(i as int).last() == s@[i - 1]);
        }
        if key_le_exec(&s[i - 1], x) {
            return i;
        }
        i = i - 1;
    }
    0
}

/// Sorts events by key; events with equal keys keep their order.
pub fn sort_events_by_key(v: Vec<MidiEvent>) -> (r: Vec<MidiEvent>)
    ensures
        r@ == sort_by_key(v@),
{
    let ghost orig = v@;
    let mut sorted: Vec<MidiEvent> = Vec::new();
    let n = v.len();
    let mut k: usize = 0;
    while k < n
        invariant
            n == orig.len(),
            v@ == orig,
            0 <= k <= n,
            sorted@ == sort_by_key(orig.take(k as int)),
        decreases n - k,
    {
        let x = v[k];
        proof {
            assert(orig.take(k + 1).drop_last() == orig.take(k as int));
            assert(orig.take(k + 1).last() == x);
            lemma_key_position_bounds(sorted@, x);
        }
        let pos = find_key_position(&sorted, &x);
        sorted.insert(pos, x);
        k = k + 1;
    }
    assert(orig.take(n as int) == orig);
    sorted
}

/// Splits the events of a block into the pattern messages and the notes,
/// each sorted by key.
pub fn split_patterns(events: &Vec<MidiEvent>) -> (r: (Vec<MidiMessageWithDelta>, Vec<MidiEvent>))
    ensures
        r.0@ == sort_by_key(events@.filter(|e: MidiEvent| is_pattern_event(e))).map_values(
            |e: MidiEvent| pattern_message(e),
        ),
        r.1@ == sort_by_key(events@.filter(|e: MidiEvent| !is_pattern_event(e))),
{
    let ghost pat = |e: MidiEvent| is_pattern_event(e);
    let ghost not_pat = |e: MidiEvent| !is_pattern_event(e);
    let mut patterns: Vec<MidiEvent> = Vec::new();
    let mut notes: Vec<MidiEvent> = Vec::new();
    let n = events.len();
    let mut i: usize = 0;
    while i < n
        invariant
            n == events@.len(),
            0 <= i <= n,
            pat == (|e: MidiEvent| is_pattern_event(e)),
            not_pat == (|e: MidiEvent| !is_pattern_event(e)),
            patterns@ == events@.take(i as int).filter(pat),
            notes@ == events@.take(i as int).filter(not_pat),
        decreases n - i,
    {
        let e = events[i];
        proof {
            assert(events@.take(i + 1) == events@.take(i as int).push(e));
            events@.take(i as int).lemma_filter_push(e, pat);
            events@.take(i as int).lemma_filter_push(e, not_pat);
        }
        if e.data[0] < 0x80 {
            assert(pat(e) && !not_pat(e));
            patterns.push(e);
        } else {
            assert(!pat(e) && not_pat(e));
            notes.push(e);
        }
        i = i + 1;
    }
    assert(events@.take(n as int) == events@);
    let patterns = sort_events_by_key(patterns);
    let notes = sort_events_by_key(notes);
    let ghost sp = patterns@;
    proof {
        lemma_sort_by_key_keeps(events@.filter(pat), pat);
    }
    let mut messages: Vec<MidiMessageWithDelta> = Vec::new();
    let m = patterns.len();
    let mut j: usize = 0;
    while j < m
        invariant
            m == sp.len(),
            patterns@ == sp,
            0 <= j <= m,
            forall|k: int| 0 <= k < sp.len() ==> is_pattern_event(#[trigger] sp[k]),
            messages@ == sp.take(j as int).map_values(|e: MidiEvent| pattern_message(e)),
        decreases m - j,
    {
        let e = patterns[j];
        assert(is_pattern_event(sp[j as int]));
        messages.push(
            MidiMessageWithDelta {
                delta_frames: e.delta_frames as u16,
                data: RawMessage([e.data[0] + 0x80, e.data[1], e.data[2]]),
            },
        );
        proof {
            assert(sp.take(j + 1).map_values(|e: MidiEvent| pattern_message(e)) =~= sp.take(j as int).map_values(
                |e: MidiEvent| pattern_message(e),
            ).push(pattern_message(sp[j as int])));
        }
        j = j + 1;
    }
    assert(sp.take(m as int) == sp);
    (messages, notes)
}

proof fn lemma_key_position_insert_keeps(s: Seq<MidiEvent>, x: MidiEvent, p: spec_fn(MidiEvent) -> bool)
    requires
        forall|k: int| 0 <= k < s.len() ==> p(#[trigger] s[k]),
        p(x),
    ensures
        forall|k: int| 0 <= k < s.len() + 1 ==> p(#[trigger] s.insert(key_position(s, x), x)[k]),
{
    lemma_key_position_bounds(s, x);
    let q = key_position(s, x);
    let r = s.insert(q, x);
    assert forall|k: int| 0 <= k < s.len() + 1 implies p(#[trigger] r[k]) by {
        if k < q {
            assert(r[k] == s[k]);
        } else if k > q {
            assert(r[k] == s[k - 1]);
        }
    }
}

/// Sorting keeps a property that every event has.
proof fn lemma_sort_by_key_keeps(s: Seq<MidiEvent>, p: spec_fn(MidiEvent) -> bool)
    requires
        forall|k: int| 0 <= k < s.len() ==> p(#[trigger] s[k]),
    ensures
        forall|k: int| 0 <= k < sort_by_key(s).len() ==> p(#[trigger] sort_by_key(s)[k]),
    decreases s.len(),
{
    if s.len() > 0 {
        let d = s.drop_last();
        assert forall|k: int| 0 <= k < d.len() implies p(#[trigger] d[k]) by {
            assert(d[k] == s[k]);
        }
        lemma_sort_by_key_keeps(d, p);
        lemma_sort_by_key_len(d);
        lemma_key_position_insert_keeps(sort_by_key(d), s.last(), p);
        lemma_key_position_bounds(sort_by_key(d), s.last());
        let r = sort_by_key(d).insert(key_position(sort_by_key(d), s.last()), s.last());
        assert(sort_by_key(s) == r);
        assert forall|k: int| 0 <= k < sort_by_key(s).len() implies p(#[trigger] sort_by_key(s)[k]) by {
            assert(p(r[k]));
        }
    }
}

pub proof fn lemma_sort_by_key_len(s: Seq<MidiEvent>)
    ensures
        sort_by_key(s).len() == s.len(),
    decreases s.len(),
{
    if s.len() > 0 {
        lemma_sort_by_key_len(s.drop_last());
        lemma_key_position_bounds(sort_by_key(s.drop_last()), s.last());
    }
}

/// Events sort no later than the ones after them.
pub open spec fn key_sorted(s: Seq<MidiEvent>) -> bool {
    forall|i: int, j: int| 0 <= i < j < s.len() ==> key_le(#[trigger] s[i], #[trigger] s[j])
}

proof fn lemma_key_position(s: Seq<MidiEvent>, x: MidiEvent)
    requires
        key_sorted(s),
    ensures
        0 <= key_position(s, x) <= s.len(),
        forall|i: int| 0 <= i < key_position(s, x) ==> key_le(#[trigger] s[i], x),
        forall|i: int| key_position(s, x) <= i < s.len() ==> !key_le(#[trigger] s[i], x),
    decreases s.len(),
{
    if s.len() > 0 {
        let d = s.drop_last();
        assert forall|i: int, j: int| 0 <= i < j < d.len() implies key_le(#[trigger] d[i], #[trigger] d[j]) by {
            assert(d[i] == s[i] && d[j] == s[j]);
        }
        lemma_key_position(d, x);
        if !key_le(s.last(), x) {
            assert forall|i: int| key_position(s, x) <= i < s.len() implies !key_le(#[trigger] s[i], x) by {
                if i < s.len() - 1 {
                    assert(s[i] == d[i]);
                }
            }
        }
        assert forall|i: int| 0 <= i < key_position(s, x) implies key_le(#[trigger] s[i], x) by {
            if i < s.len() - 1 {
                assert(s[i] == d[i]);
            }
        }
    }
}

/// Sorting by key: the result is ordered by key and holds exactly the
/// events given.
pub proof fn lemma_sort_by_key_sorted(s: Seq<MidiEvent>)
    ensures
        key_sorted(sort_by_key(s)),
        sort_by_key(s).to_multiset() == s.to_multiset(),
    decreases s.len(),
{
    if s.len() > 0 {
        let d = s.drop_last();
        let x = s.last();
        lemma_sort_by_key_sorted(d);
        let sd = sort_by_key(d);
        lemma_key_position(sd, x);
        let p = key_position(sd, x);
        let r = sd.insert(p, x);
        assert forall|i: int, j: int| 0 <= i < j < r.len() implies key_le(#[trigger] r[i], #[trigger] r[j]) by {
            if i < p && j < p {
                assert(r[i] == sd[i] && r[j] == sd[j]);
            } else if i < p && j == p {
                assert(r[i] == sd[i]);
            } else if i < p {
                assert(r[i] == sd[i] && r[j] == sd[j - 1]);
            } else if i == p {
                assert(r[j] == sd[j - 1]);
            } else {
                assert(r[i] == sd[i - 1] && r[j] == sd[j - 1]);
            }
        }
        vstd::seq_lib::to_multiset_insert(sd, p, x);
        assert(s == d.push(x));
        vstd::seq_lib::to_multiset_build(d, x);
    }
}

/// The events the pattern receiver sends for a block: its MIDI events, in
/// order, with their status bytes moved below 0x80 (every status byte must
/// be at least 0x80).
pub fn shift_pattern_events(events: &Vec<Event>) -> (r: Vec<MidiEvent>)
    requires
        forall|i: int| 0 <= i < events@.len() ==> (#[trigger] events@[i] matches Event::Midi(e) ==> e.data[0] >= 0x80),
    ensures
        r@ == midi_events_of(events@).map_values(|e: MidiEvent| shifted_event(e)),
{
    let mut r: Vec<MidiEvent> = Vec::new();
    let n = events.len();
    let mut i: usize = 0;
    while i < n
        invariant
            n == events@.len(),
            0 <= i <= n,
            forall|k: int| 0 <= k < events@.len() ==> (#[trigger] events@[k] matches Event::Midi(e) ==> e.data[0] >= 0x80),
            r@ == midi_events_of(events@.take(i as int)).map_values(|e: MidiEvent| shifted_event(e)),
        decreases n - i,
    {
        proof {
            assert(events@.take(i + 1).drop_last() == events@.take(i as int));
            assert(events@.take(i + 1).last() == events@[i as int]);
        }
        match &events[i] {
            Event::Midi(e) => {
                assert(events@[i as int] matches Event::Midi(f) ==> f.data[0] >= 0x80);
                let mut shifted = *e;
                shifted.data = [e.data[0] - 0x80, e.data[1], e.data[2]];
                r.push(shifted);
                proof {
                    let prev = midi_events_of(events@.take(i as int));
                    assert(midi_events_of(events@.take(i + 1)) == prev.push(*e));
                    assert(prev.push(*e).map_values(|e: MidiEvent| shifted_event(e)) =~= prev.map_values(
                        |e: MidiEvent| shifted_event(e),
                    ).push(shifted_event(*e)));
                }
            },
            _ => {},
        }
        i = i + 1;
    }
    assert(events@.take(n as int) == events@);
    r
}

/// What the pattern receiver sends, the arpeggiator reads back: a shifted
/// event is a pattern event, and its pattern message carries the original
/// bytes at the original offset.
pub proof fn lemma_shift_round_trip(e: MidiEvent)
    requires
        e.data[0] >= 0x80,
    ensures
        is_pattern_event(shifted_event(e)),
        pattern_message(shifted_event(e)).data == RawMessage(e.data),
        pattern_message(shifted_event(e)).delta_frames == e.delta_frames as u16,
{
    let s = shifted_event(e);
    assert(pattern_message(s).data.0 =~= e.data);
}

} // verus!
