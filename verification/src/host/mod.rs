//! The host.
pub mod audio_capture;
pub mod audio_encode;
pub mod capture;
pub mod capture_sources;
pub mod connection;
pub mod input;
pub mod input_injector;
pub mod linux_device;
pub mod linux_input;
pub mod service;
pub mod service_laws;
pub mod standby;
pub mod streaming;
pub mod talkback_player;
pub mod video_encode;
pub mod windows_input;
pub mod windows_keymap;
