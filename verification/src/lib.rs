//! Decision core of a live production switcher fed by phones over WebRTC.

pub mod audio;
pub mod avf;
pub mod client;
pub mod config;
pub mod discovery;
pub mod engine;
pub mod frame;
pub mod h264;
pub mod ios;
pub mod layout;
pub mod offer_laws;
pub mod opus;
pub mod osc;
pub mod pc;
pub mod render;
pub mod ring;
pub mod server;
pub mod signaling;
pub mod startup;
pub mod streamdeck;
pub mod strings;
pub mod text;
pub mod tls;
pub mod ui;
pub mod vt;
pub mod webrtc;
