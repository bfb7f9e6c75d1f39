//! Verified MIDI message handling for a family of note-processing plugins:
//! message encoding and classification, absolute-time scheduling queues,
//! note-off delaying, maximum-polyphony enforcement and arpeggiator devices.
pub mod seq_util;
pub mod constants;
pub mod raw_message;
pub mod messages;
pub mod midi_message_type;
pub mod midi_event;
pub mod midi_message_with_delta;
pub mod absolute_time_midi_message;
pub mod delayed_message_consumer;
pub mod absolute_time_midi_message_vector;
pub mod delay_queue;
pub mod timed_messages;
pub mod absolute_time_events;
pub mod current_playing_notes;
pub mod arpegiator;
pub mod plugins;
pub mod parameters;
pub mod system;
pub mod sync_duration;
pub mod commands;
pub mod logging;
pub mod note_generator;
