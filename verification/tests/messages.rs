use midi_plugins::commands::controller_bytes;
use midi_plugins::messages::{AfterTouch, NoteOff, NoteOn, PitchBend, Pressure, Timbre, CC};
use midi_plugins::midi_message_type::MidiMessageType;
use midi_plugins::raw_message::RawMessage;

#[test]
fn note_on_and_off_encode_status_and_channel() {
    let on = NoteOn { channel: 1, pitch: 60, velocity: 100 }.into_raw();
    assert_eq!(on.0, [0x91, 60, 100]);
    let off = NoteOff { channel: 15, pitch: 61, velocity: 0 }.into_raw();
    assert_eq!(off.0, [0x8F, 61, 0]);
}

#[test]
fn pressure_timbre_cc_and_aftertouch_encode() {
    assert_eq!(Pressure { channel: 2, value: 77 }.into_raw().0, [0xD2, 77, 0]);
    assert_eq!(Timbre { channel: 3, value: 64 }.into_raw().0, [0xB3, 0x4A, 64]);
    assert_eq!(CC { channel: 0, cc: 7, value: 127 }.into_raw().0, [0xB0, 7, 127]);
    assert_eq!(AfterTouch { channel: 4, pitch: 50, value: 9 }.into_raw().0, [0xA4, 50, 9]);
}

#[test]
fn pitch_bend_centre_encodes_as_8192() {
    let raw = PitchBend { channel: 2, millisemitones: 0 }.into_raw();
    assert_eq!(raw.0, [0xE2, 0x00, 0x40]);
    let decoded = PitchBend::from_raw(raw);
    assert_eq!(decoded.channel, 2);
    assert_eq!(decoded.millisemitones, 0);
}

#[test]
fn pitch_bend_round_trip_rounds_down_by_less_than_six() {
    let raw = PitchBend { channel: 0, millisemitones: 1000 }.into_raw();
    assert_eq!(raw.0, [0xE0, 42, 65]);
    assert_eq!(PitchBend::from_raw(raw).millisemitones, 996);
    for m in [-48000, -1234, 0, 1, 5, 777, 48000, 83000] {
        let back = PitchBend::from_raw(PitchBend { channel: 0, millisemitones: m }.into_raw()).millisemitones;
        assert!(m - 6 <= back && back <= m, "{} came back as {}", m, back);
    }
}

#[test]
fn pitch_bend_extremes_decode() {
    assert_eq!(PitchBend::from_raw(RawMessage([0xE0, 0, 0])).millisemitones, -48000);
    assert_eq!(PitchBend::from_raw(RawMessage([0xE0, 0x7F, 0x7F])).millisemitones, 47994);
}

#[test]
fn raw_message_wire_bytes_clear_pressure_third_byte() {
    assert_eq!(RawMessage([0xD3, 5, 7]).into_bytes(), [0xD3, 5, 0]);
    assert_eq!(RawMessage([0x93, 5, 7]).into_bytes(), [0x93, 5, 7]);
    let a: [u8; 3] = RawMessage([0xD0, 1, 2]).into();
    assert_eq!(a, [0xD0, 1, 0]);
}

#[test]
fn raw_message_equality_and_order_use_the_first_two_bytes() {
    assert!(RawMessage([0x90, 60, 1]) == RawMessage([0x90, 60, 99]));
    assert!(RawMessage([0x90, 60, 1]) != RawMessage([0x90, 61, 1]));
    assert!(RawMessage([0x80, 70, 1]) < RawMessage([0x90, 10, 1]));
    assert!(RawMessage([0x90, 10, 1]) < RawMessage([0x90, 11, 0]));
    assert_eq!(RawMessage([0x95, 1, 2]).get_channel(), 5);
    assert_eq!(RawMessage([0x95, 1, 2]).get_bytes(), &[0x95, 1, 2]);
}

#[test]
fn classification_by_status_nibble() {
    match MidiMessageType::from_bytes(&[0x93, 60, 100]) {
        MidiMessageType::NoteOnMessage(m) => {
            assert_eq!((m.channel, m.pitch, m.velocity), (3, 60, 100));
        }
        _ => panic!("expected a note on"),
    }
    match MidiMessageType::from_bytes(&[0xB1, 7, 5]) {
        MidiMessageType::CCMessage(m) => assert_eq!((m.channel, m.cc, m.value), (1, 7, 5)),
        _ => panic!("expected a controller"),
    }
    match MidiMessageType::from_bytes(&[0xD1, 7, 5]) {
        MidiMessageType::PressureMessage(m) => assert_eq!((m.channel, m.value), (1, 7)),
        _ => panic!("expected pressure"),
    }
    assert!(matches!(MidiMessageType::from_bytes(&[0xC0, 1, 0]), MidiMessageType::UnsupportedChannelMessage(_)));
    assert!(matches!(MidiMessageType::from_bytes(&[0x40, 1, 0]), MidiMessageType::Unsupported));
}

#[test]
fn same_note_needs_notes_of_same_channel_and_pitch() {
    let on = MidiMessageType::from_bytes(&[0x90, 60, 100]);
    let off = MidiMessageType::from_bytes(&[0x80, 60, 0]);
    let other = MidiMessageType::from_bytes(&[0x81, 60, 0]);
    let cc = MidiMessageType::from_bytes(&[0xB0, 60, 0]);
    assert!(on.is_same_note(&off));
    assert!(off.is_same_note(&on));
    assert!(!on.is_same_note(&other));
    assert!(!cc.is_same_note(&cc));
}

#[test]
fn controller_bytes_send_two_bytes_for_pressure() {
    assert_eq!(controller_bytes(RawMessage([0xD2, 9, 9])), vec![0xD2, 9]);
    assert_eq!(controller_bytes(RawMessage([0x92, 9, 8])), vec![0x92, 9, 8]);
}

#[test]
fn pitch_bend_decodes_what_it_encodes_on_every_channel() {
    for channel in 0..16u8 {
        for m in [-48000, -1, 0, 12345, 47999] {
            let back = PitchBend::from_raw(PitchBend { channel, millisemitones: m }.into_raw());
            assert_eq!(back.channel, channel);
            assert!(m - 6 <= back.millisemitones && back.millisemitones <= m);
        }
    }
}
