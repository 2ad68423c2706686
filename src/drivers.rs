//! Device input decoding.
pub mod mouse;
