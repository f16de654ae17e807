//! Messages between the phone and the switcher (JSON on the WebSocket `/ws`): the switcher
//! offers, the phone answers.

use vstd::prelude::*;

verus! {

/// Local statistics of the phone, sent every second. The measured values are carried as the bits
/// of their single-precision numbers.
#[derive(Debug)]
pub struct PhoneStats {
    pub width: u32,
    pub height: u32,
    pub fps_bits: u32,
    pub bitrate_kbps_bits: u32,
    pub quality_limitation: String,
    pub rtt_ms_bits: Option<u32>,
    pub codec: String,
}

/// Messages from the phone.
pub enum ClientMsg {
    Hello { name: Option<String> },
    Answer { sdp: String },
    Ice { candidate: String, sdp_m_line_index: u32 },
    Stats(PhoneStats),
    Bye,
}

/// Messages to the phone.
pub enum ServerMsg {
    Offer { sdp: String },
    Ice { candidate: String, sdp_m_line_index: u32 },
    Bye { reason: String },
    Error { message: String },
    /// Whether the phone's stream is on the programme output.
    OnAir { on: bool },
}

/// Settings published by the switcher on `GET /api/config`.
pub struct ServerConfig {
    /// Ceiling of the video bitrate at 1080 lines (kb/s).
    pub video_max_bitrate_kbps: u32,
    /// Wanted start bitrate (kb/s), 0 for the default.
    pub video_start_bitrate_kbps: u32,
    /// STUN server (`stun:host:port`), empty on a local network.
    pub stun_server: String,
}

impl Default for ServerConfig {
    fn default() -> (r: Self)
        ensures
            r.video_max_bitrate_kbps == 8000,
            r.video_start_bitrate_kbps == 3000,
            r.stun_server@ == Seq::<char>::empty(),
    {
        ServerConfig {
            video_max_bitrate_kbps: 8000,
            video_start_bitrate_kbps: 3000,
            stun_server: String::new(),
        }
    }
}

} // verus!
