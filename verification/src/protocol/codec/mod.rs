//! Messages as bytes.
pub mod audio;
pub mod control;
pub mod envelope;
pub mod layout;
pub mod objects;
pub mod session;
pub mod timing;
