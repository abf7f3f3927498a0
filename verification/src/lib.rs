//! Rules of a small front end to an audio-control program: reading its status
//! text, choosing a default device, and driving the volume.

pub mod chooser;
pub mod decimal;
pub mod error;
pub mod gain;
pub mod node;
pub mod notify;
pub mod pattern;
pub mod text;
pub mod volume;
