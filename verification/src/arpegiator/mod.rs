pub mod timed_event;
pub mod note;
pub mod pattern;
pub mod device;
pub mod pattern_device;
pub mod expressive_note;
pub mod device_out;
pub mod change;
pub mod timed_sort;
pub mod engine;
pub mod transmission;
pub mod worker_router;
