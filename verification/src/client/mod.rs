//! The viewer.
pub mod audio_player;
pub mod host_config;
pub mod jitter_buffer;
pub mod labels;
pub mod mesh_pairing;
pub mod panel;
pub mod runtime;
pub mod session;
pub mod talkback;
pub mod transfer_center;
pub mod view;
