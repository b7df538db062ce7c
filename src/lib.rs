//! Audio core of a guitar rhythm game: channel demultiplexing, the rolling
//! sample buffer shared with the capture callback, the playback worker's
//! command handling, and the note arithmetic used by the tuner.

pub mod capture;
pub mod device_config;
pub mod playback;
pub mod rolling_buffer;
pub mod session;
pub mod song_notes;
pub mod tuning;
