//! The phone side of a call: signalling, encoder control, media session.

pub mod control;
pub mod cpal_io;
pub mod keyframe;
pub mod link;
pub mod pcm;
pub mod queue;
pub mod session;
pub mod vtenc;
pub mod ws;

pub use control::{AudioBackend, ClientConfig, ClientEvent, EncoderControl, ProfileSlot};
