//! Core of a remote desktop: wire formats, timing records, media parsing and the state machines of
//! the host and of the viewer. Everything here is free of I/O.
pub mod audio_frames;
pub mod bytes;
pub mod client;
pub mod file_transfer;
pub mod hevc;
pub mod host;
pub mod protocol;
pub mod table;
pub mod text;
pub mod wire;
