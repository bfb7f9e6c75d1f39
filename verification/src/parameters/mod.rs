pub mod arpegiator;
pub mod pattern_receiver;
pub mod max_note_duration;
pub mod midi_delay;
pub mod note_fan_out;
pub mod note_generator;
pub mod note_off_delay;
