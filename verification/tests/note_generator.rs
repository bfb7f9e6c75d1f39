use midi_plugins::note_generator::{
    pitch_label_parts, pressure_event, string_to_parameter, trigger_off, trigger_on, ParameterSetting,
};
use midi_plugins::parameters::note_generator::Parameter;

#[test]
fn channel_text_must_be_one_to_sixteen() {
    assert_eq!(string_to_parameter(Parameter::Channel, "5"), Some(ParameterSetting::Byte(Parameter::Channel, 5)));
    assert_eq!(string_to_parameter(Parameter::Channel, "+3"), Some(ParameterSetting::Byte(Parameter::Channel, 3)));
    assert_eq!(string_to_parameter(Parameter::Channel, "0"), None);
    assert_eq!(string_to_parameter(Parameter::Channel, "17"), None);
    assert_eq!(string_to_parameter(Parameter::Channel, "x"), None);
    assert_eq!(string_to_parameter(Parameter::Channel, " 5"), None);
}

#[test]
fn velocities_are_stored_as_the_velocity() {
    assert_eq!(string_to_parameter(Parameter::Velocity, "100"), Some(ParameterSetting::Byte(Parameter::Velocity, 100)));
    assert_eq!(
        string_to_parameter(Parameter::NoteOffVelocity, "127"),
        Some(ParameterSetting::Byte(Parameter::Velocity, 127))
    );
    assert_eq!(string_to_parameter(Parameter::Pressure, "0"), Some(ParameterSetting::Byte(Parameter::Velocity, 0)));
    assert_eq!(string_to_parameter(Parameter::Velocity, "128"), None);
    assert_eq!(string_to_parameter(Parameter::Velocity, "256"), None);
}

#[test]
fn pitch_text_is_a_note_name_and_an_octave() {
    assert_eq!(string_to_parameter(Parameter::Pitch, "C3"), Some(ParameterSetting::Byte(Parameter::Pitch, 60)));
    assert_eq!(string_to_parameter(Parameter::Pitch, "A-1"), Some(ParameterSetting::Byte(Parameter::Pitch, 21)));
    assert_eq!(string_to_parameter(Parameter::Pitch, "G8"), Some(ParameterSetting::Byte(Parameter::Pitch, 127)));
    assert_eq!(string_to_parameter(Parameter::Pitch, "D#3"), None);
    assert_eq!(string_to_parameter(Parameter::Pitch, "A8"), None);
    assert_eq!(string_to_parameter(Parameter::Pitch, "C9"), None);
    assert_eq!(string_to_parameter(Parameter::Pitch, "H3"), None);
    assert_eq!(string_to_parameter(Parameter::Pitch, ""), None);
}

#[test]
fn trigger_text_in_any_case() {
    assert_eq!(string_to_parameter(Parameter::Trigger, "ON"), Some(ParameterSetting::Bool(Parameter::Trigger, true)));
    assert_eq!(string_to_parameter(Parameter::Trigger, "1"), Some(ParameterSetting::Bool(Parameter::Trigger, true)));
    assert_eq!(string_to_parameter(Parameter::Trigger, "Off"), Some(ParameterSetting::Bool(Parameter::Trigger, false)));
    assert_eq!(string_to_parameter(Parameter::Trigger, ""), Some(ParameterSetting::Bool(Parameter::Trigger, false)));
    assert_eq!(string_to_parameter(Parameter::Trigger, "0"), Some(ParameterSetting::Bool(Parameter::Trigger, false)));
    assert_eq!(string_to_parameter(Parameter::Trigger, "yes"), None);
}

#[test]
fn other_parameters_take_no_text() {
    assert_eq!(string_to_parameter(Parameter::PitchBend, "1"), None);
    assert_eq!(string_to_parameter(Parameter::TriggeredPitch, "C3"), None);
}

#[test]
fn pitch_labels() {
    assert_eq!(pitch_label_parts(60), (0, 3));
    assert_eq!(pitch_label_parts(61), (1, 3));
    assert_eq!(pitch_label_parts(24), (0, 0));
    assert_eq!(pitch_label_parts(21), (9, 0));
    assert_eq!(pitch_label_parts(0), (0, -2));
}

#[test]
fn trigger_events() {
    let on: Vec<([u8; 3], i32)> = trigger_on(8, 60, 100, 50).iter().map(|e| (e.data, e.delta_frames)).collect();
    assert_eq!(on, vec![([0x91, 60, 100], 0), ([0xE1, 0, 0x40], 1), ([0xB1, 0x4A, 0x40], 1), ([0xD1, 50, 0], 1)]);
    let off = trigger_off(16, 60, 3);
    assert_eq!((off.data, off.delta_frames, off.live), ([0x82, 60, 3], 0, true));
    let p = pressure_event(0, 77, 0);
    assert_eq!(p.data, [0xD0, 77, 0]);
}
