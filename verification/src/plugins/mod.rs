pub mod filter_out_non_note;
pub mod midi_delay;
pub mod note_off_delay;
pub mod max_note_duration;
pub mod note_fan_out;
pub mod pattern_receiver;
pub mod pattern_link;
