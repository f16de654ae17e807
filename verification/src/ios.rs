//! What the phone application sees: codes of the events, and its configuration.

use crate::client::{AudioBackend, ClientConfig, ClientEvent};
use crate::strings;
use vstd::prelude::*;

verus! {

pub const STREAME_EVENT_STATUS: i32 = 0;

pub const STREAME_EVENT_CONNECTED: i32 = 1;

pub const STREAME_EVENT_DISCONNECTED: i32 = 2;

pub const STREAME_EVENT_ON_AIR: i32 = 3;

pub const STREAME_EVENT_STATS: i32 = 4;

pub const STREAME_EVENT_ERROR: i32 = 5;

pub const STREAME_EVENT_ENDED: i32 = 6;

pub const STREAME_EVENT_CERT: i32 = 7;

/// Code of an event.
pub open spec fn code_of(e: ClientEvent) -> i32 {
    match e {
        ClientEvent::Status(_) => STREAME_EVENT_STATUS,
        ClientEvent::Connected => STREAME_EVENT_CONNECTED,
        ClientEvent::Disconnected => STREAME_EVENT_DISCONNECTED,
        ClientEvent::OnAir(_) => STREAME_EVENT_ON_AIR,
        ClientEvent::Stats(_) => STREAME_EVENT_STATS,
        ClientEvent::Error(_) => STREAME_EVENT_ERROR,
        ClientEvent::Ended(_) => STREAME_EVENT_ENDED,
        ClientEvent::Certificate { .. } => STREAME_EVENT_CERT,
    }
}

/// Code of an event.
pub fn event_code(e: &ClientEvent) -> (r: i32)
    ensures
        r == code_of(*e),
{
    match e {
        ClientEvent::Status(_) => STREAME_EVENT_STATUS,
        ClientEvent::Connected => STREAME_EVENT_CONNECTED,
        ClientEvent::Disconnected => STREAME_EVENT_DISCONNECTED,
        ClientEvent::OnAir(_) => STREAME_EVENT_ON_AIR,
        ClientEvent::Stats(_) => STREAME_EVENT_STATS,
        ClientEvent::Error(_) => STREAME_EVENT_ERROR,
        ClientEvent::Ended(_) => STREAME_EVENT_ENDED,
        ClientEvent::Certificate { fingerprint: _, trusted: _ } => STREAME_EVENT_CERT,
    }
}

/// Two events have the same code only if they are of the same kind.
pub proof fn codes_tell_events_apart(a: ClientEvent, b: ClientEvent)
    requires
        code_of(a) == code_of(b),
    ensures
        a is Status == b is Status,
        a is Connected == b is Connected,
        a is Disconnected == b is Disconnected,
        a is OnAir == b is OnAir,
        a is Stats == b is Stats,
        a is Error == b is Error,
        a is Ended == b is Ended,
        a is Certificate == b is Certificate,
{
}

/// Configuration of the application.
pub struct AppConfig {
    pub host: String,
    pub port: u16,
    pub name: String,
    pub height: u32,
    pub fps: u32,
    pub mic_bitrate: i32,
    /// The application brings the sound; without, only the picture is sent.
    pub audio: bool,
    /// Remembered digest of the switcher's certificate.
    pub cert_fingerprint: Option<String>,
}

impl Default for AppConfig {
    fn default() -> (r: Self)
        ensures
            r.host@ == "127.0.0.1"@,
            r.port == 8443,
            r.name@ == "iPhone"@,
            r.height == 1080,
            r.fps == 30,
            r.mic_bitrate == 96_000,
            r.audio,
            r.cert_fingerprint is None,
    {
        AppConfig {
            host: strings::text("127.0.0.1"),
            port: 8443,
            name: strings::text("iPhone"),
            height: 1080,
            fps: 30,
            mic_bitrate: 96_000,
            audio: true,
            cert_fingerprint: None,
        }
    }
}

/// What a session is started with.
pub fn client_config(cfg: AppConfig) -> (r: ClientConfig)
    ensures
        r.host == cfg.host,
        r.port == cfg.port,
        r.name == cfg.name,
        r.height == cfg.height,
        r.fps == cfg.fps,
        r.mic_bitrate == cfg.mic_bitrate,
        r.audio == (if cfg.audio {
            AudioBackend::Bridge
        } else {
            AudioBackend::Off
        }),
        r.cert_fingerprint == cfg.cert_fingerprint,
{
    ClientConfig {
        host: cfg.host,
        port: cfg.port,
        name: cfg.name,
        height: cfg.height,
        fps: cfg.fps,
        audio: if cfg.audio {
            AudioBackend::Bridge
        } else {
            AudioBackend::Off
        },
        mic_bitrate: cfg.mic_bitrate,
        cert_fingerprint: cfg.cert_fingerprint,
    }
}

/// Samples of a block of sound, if there is one.
pub fn block_samples(frames: usize, channels: u32) -> (r: Option<usize>)
    requires
        frames * channels <= usize::MAX,
    ensures
        r == (if frames == 0 || channels == 0 {
            None::<usize>
        } else {
            Some((frames * channels) as usize)
        }),
{
    if frames == 0 || channels == 0 {
        None
    } else {
        Some(frames * channels as usize)
    }
}

/// Time of a picture, zero where it lies before the start of the clock.
pub fn picture_time(pts_ns: i64) -> (r: u64)
    ensures
        r == (if pts_ns < 0 {
            0
        } else {
            pts_ns as int
        }),
{
    if pts_ns < 0 {
        0
    } else {
        pts_ns as u64
    }
}

/// Each event has the code that the application knows it by.
pub proof fn events_have_their_codes(e: ClientEvent)
    ensures
        e is Status ==> code_of(e) == 0,
        e is Connected ==> code_of(e) == 1,
        e is Disconnected ==> code_of(e) == 2,
        e is OnAir ==> code_of(e) == 3,
        e is Stats ==> code_of(e) == 4,
        e is Error ==> code_of(e) == 5,
        e is Ended ==> code_of(e) == 6,
        e is Certificate ==> code_of(e) == 7,
{
}

/// A session is started as the application configured it, with the application's own sound or
/// with none.
pub proof fn sessions_start_as_configured(cfg: AppConfig, r: ClientConfig)
    requires
        call_ensures(client_config, (cfg,), r),
    ensures
        r.host == cfg.host && r.port == cfg.port && r.name == cfg.name,
        r.height == cfg.height && r.fps == cfg.fps && r.mic_bitrate == cfg.mic_bitrate,
        cfg.audio ==> r.audio == AudioBackend::Bridge,
        !cfg.audio ==> r.audio == AudioBackend::Off,
        r.cert_fingerprint == cfg.cert_fingerprint,
{
}

/// A block has its frames times its channels, and is none without either; a picture before the
/// beginning is taken to be at it.
pub proof fn blocks_and_pictures_are_measured(
    frames: usize,
    channels: u32,
    r: Option<usize>,
    pts: i64,
    t: u64,
)
    requires
        frames * channels <= usize::MAX,
        call_ensures(block_samples, (frames, channels), r),
        call_ensures(picture_time, (pts,), t),
    ensures
        r is None <==> frames == 0 || channels == 0,
        r is Some ==> r->0 == frames * channels,
        pts >= 0 ==> t == pts,
        pts < 0 ==> t == 0,
{
}

} // verus!
