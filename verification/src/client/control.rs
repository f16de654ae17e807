//! Encoder settings shared by the sessions, the encoding thread and the interface, and what the
//! encoding thread does with each camera picture.

use super::vtenc::{EncoderConfig, Profile};
use crate::client::vtenc;
use crate::signaling::PhoneStats;
use crate::strings;
use vstd::prelude::*;

verus! {

/// Events towards the interface.
pub enum ClientEvent {
    /// Text to show.
    Status(String),
    /// The call is established.
    Connected,
    /// WebSocket or call lost, another attempt is under way.
    Disconnected,
    /// The stream is (or no longer is) on the programme output.
    OnAir(bool),
    /// Sending statistics, every second.
    Stats(PhoneStats),
    /// Error reported by the switcher.
    Error(String),
    /// Call ended by the switcher, without another attempt.
    Ended(String),
    /// Certificate presented by the switcher, and whether it is accepted.
    Certificate { fingerprint: String, trusted: bool },
}

/// Where the sound comes from and goes to.
#[derive(Debug, Clone, Copy, PartialEq, Eq, Structural)]
pub enum AudioBackend {
    /// The application's own audio engine.
    Bridge,
    /// The default devices.
    Cpal,
    /// A source and a sink given by the caller.
    Custom,
    /// No sound.
    Off,
}

/// What the application asks for.
pub struct ClientConfig {
    pub host: String,
    pub port: u16,
    /// Name shown in the multiview.
    pub name: String,
    /// Requested image height, which sets the bitrate ceiling.
    pub height: u32,
    pub fps: u32,
    pub audio: AudioBackend,
    /// Opus bitrate of the microphone (bit/s).
    pub mic_bitrate: i32,
    /// Remembered digest of the switcher's certificate.
    pub cert_fingerprint: Option<String>,
}

impl Default for ClientConfig {
    fn default() -> (r: Self)
        ensures
            r.host@ == "127.0.0.1"@,
            r.port == 8443,
            r.name@ == "iPhone"@,
            r.height == 1080,
            r.fps == 30,
            r.audio == AudioBackend::Bridge,
            r.mic_bitrate == 96_000,
            r.cert_fingerprint is None,
    {
        ClientConfig {
            host: strings::text("127.0.0.1"),
            port: 8443,
            name: strings::text("iPhone"),
            height: 1080,
            fps: 30,
            audio: AudioBackend::Bridge,
            mic_bitrate: 96_000,
            cert_fingerprint: None,
        }
    }
}

/// Negotiated `profile-level-id`.
pub struct ProfileSlot {
    pub id: String,
}

impl Default for ProfileSlot {
    fn default() -> (r: Self)
        ensures
            r.id@ == Seq::<char>::empty(),
    {
        ProfileSlot { id: String::new() }
    }
}

impl ProfileSlot {
    /// Remembers the negotiated identifier.
    pub fn store(&mut self, id: &str)
        ensures
            final(self).id@ == id@,
    {
        self.id = strings::text(id);
    }

    /// The profile that the identifier names.
    pub fn profile(&self) -> (r: Profile)
        ensures
            r == vtenc::profile_of(self.id@),
    {
        Profile::from_profile_level_id(self.id.as_str())
    }
}

/// Encoder settings.
pub struct EncoderControl {
    pub bitrate_bps: u32,
    pub max_bitrate: u64,
    pub force_key: bool,
    /// Greatest encoded height, 0 for that of the camera.
    pub max_height: u32,
    pub profile: ProfileSlot,
}

impl EncoderControl {
    /// Settings at this bitrate, which is also the ceiling; the first frame is a key frame.
    pub fn new(bitrate_bps: u32) -> (r: Self)
        ensures
            r.bitrate_bps == bitrate_bps,
            r.max_bitrate == bitrate_bps,
            r.force_key,
            r.max_height == 0,
            r.profile.id@ == Seq::<char>::empty(),
    {
        EncoderControl {
            bitrate_bps,
            max_bitrate: bitrate_bps as u64,
            force_key: true,
            max_height: 0,
            profile: ProfileSlot::default(),
        }
    }

    /// Caps the encoded height.
    pub fn set_max_height(&mut self, height: u32)
        ensures
            *final(self) == (EncoderControl { max_height: height, ..*old(self) }),
    {
        self.max_height = height;
    }

    /// Cap on the encoded height.
    pub fn max_height(&self) -> (r: u32)
        ensures
            r == self.max_height,
    {
        self.max_height
    }

    /// Sets the target bitrate.
    pub fn set_bitrate(&mut self, bps: u32)
        ensures
            *final(self) == (EncoderControl { bitrate_bps: bps, ..*old(self) }),
    {
        self.bitrate_bps = bps;
    }

    /// Target bitrate.
    pub fn bitrate(&self) -> (r: u32)
        ensures
            r == self.bitrate_bps,
    {
        self.bitrate_bps
    }

    /// The next frame is to be a key frame.
    pub fn force_keyframe(&mut self)
        ensures
            *final(self) == (EncoderControl { force_key: true, ..*old(self) }),
    {
        self.force_key = true;
    }

    /// Whether a key frame is asked for, by the control or by what comes after the encoder; the
    /// request is taken.
    pub fn take_force(&mut self, need_keyframe: bool) -> (r: bool)
        ensures
            r == (old(self).force_key || need_keyframe),
            *final(self) == (EncoderControl { force_key: false, ..*old(self) }),
    {
        let force = self.force_key || need_keyframe;
        self.force_key = false;
        force
    }

    /// A frame could not be encoded: the next one is to be a key frame.
    pub fn encoded(&mut self, ok: bool)
        ensures
            ok ==> *final(self) == *old(self),
            !ok ==> *final(self) == (EncoderControl { force_key: true, ..*old(self) }),
    {
        if !ok {
            self.force_keyframe();
        }
    }
}

/// What the encoding thread remembers between pictures.
pub struct EncodeLoop {
    pub fps: u32,
    /// Profile of the encoder it has, if any.
    pub encoder: Option<Profile>,
    /// Whether it has a scaler.
    pub scaler: bool,
}

/// What to do with a picture.
#[derive(Debug, Clone, Copy)]
pub struct FramePlan {
    /// Make a new encoder with these settings first.
    pub recreate: Option<EncoderConfig>,
    /// Bitrate to give the encoder.
    pub bitrate_bps: u32,
    /// Size to reduce the picture to.
    pub scale: Option<(u32, u32)>,
    /// A scaler has to be made first.
    pub new_scaler: bool,
}

impl EncodeLoop {
    /// A thread without an encoder; at least one picture per second.
    pub fn new(fps: u32) -> (r: Self)
        ensures
            r.fps == vtenc::at_least_one(fps),
            r.encoder is None,
            !r.scaler,
    {
        EncodeLoop {
            fps: if fps == 0 {
                1
            } else {
                fps
            },
            encoder: None,
            scaler: false,
        }
    }

    /// Plans a picture of this size. Without a session nothing is encoded; a new encoder is made
    /// where there is none or the wanted profile changed.
    pub fn plan(&mut self, control: &EncoderControl, attached: bool, width: u32, height: u32) -> (r:
        Option<FramePlan>)
        ensures
            r is Some <==> attached,
            !attached ==> *final(self) == *old(self),
            attached ==> {
                let wanted = vtenc::profile_of(control.profile.id@);
                let plan = r->0;
                &&& *final(self) == (EncodeLoop { encoder: Some(wanted), ..*old(self) })
                &&& plan.recreate == (if old(self).encoder == Some(wanted) {
                    None
                } else {
                    Some(
                        EncoderConfig {
                            fps: old(self).fps,
                            bitrate_bps: control.bitrate_bps,
                            profile: wanted,
                        },
                    )
                })
                &&& plan.bitrate_bps == control.bitrate_bps
                &&& (match plan.scale {
                    Some((w, h)) => vtenc::reduced(width, height, control.max_height) == Some(
                        (w as int, h as int),
                    ),
                    None => vtenc::reduced(width, height, control.max_height) is None,
                })
                &&& plan.new_scaler == (plan.scale is Some && !old(self).scaler)
            },
    {
        if !attached {
            return None;
        }
        let wanted = control.profile.profile();
        let same = match self.encoder {
            Some(p) => p == wanted,
            None => false,
        };
        let recreate = if same {
            None
        } else {
            Some(EncoderConfig { fps: self.fps, bitrate_bps: control.bitrate(), profile: wanted })
        };
        self.encoder = Some(wanted);
        let scale = vtenc::scaled_dims(width, height, control.max_height());
        Some(
            FramePlan {
                recreate,
                bitrate_bps: control.bitrate(),
                scale,
                new_scaler: scale.is_some() && !self.scaler,
            },
        )
    }

    /// Books the making of a scaler; where it cannot be made, the cap on the height is lifted.
    pub fn scaler_made(&mut self, control: &mut EncoderControl, ok: bool)
        ensures
            *final(self) == (EncodeLoop { scaler: old(self).scaler || ok, ..*old(self) }),
            ok ==> *final(control) == *old(control),
            !ok ==> *final(control) == (EncoderControl { max_height: 0, ..*old(control) }),
    {
        if ok {
            self.scaler = true;
        } else {
            control.set_max_height(0);
        }
    }
}

/// A setting of the encoder that was given is the one that is read, and each leaves the others
/// alone.
pub proof fn encoder_settings_are_kept(
    a: &mut EncoderControl,
    height: u32,
    b: &mut EncoderControl,
    bps: u32,
    ra: &EncoderControl,
    h: u32,
    rb: &EncoderControl,
    r: u32,
)
    requires
        call_ensures(EncoderControl::set_max_height, (a, height), ()),
        call_ensures(EncoderControl::set_bitrate, (b, bps), ()),
        *ra == *final(a),
        call_ensures(EncoderControl::max_height, (ra,), h),
        *rb == *final(b),
        call_ensures(EncoderControl::bitrate, (rb,), r),
    ensures
        h == height,
        r == bps,
        final(a).bitrate_bps == old(a).bitrate_bps && final(a).force_key == old(a).force_key,
        final(b).max_height == old(b).max_height && final(b).force_key == old(b).force_key,
        final(a).max_bitrate == old(a).max_bitrate && final(b).max_bitrate == old(b).max_bitrate,
        final(a).profile == old(a).profile && final(b).profile == old(b).profile,
{
}

/// A key frame that was asked for is taken once; one that the output needs is taken in any case.
pub proof fn key_frames_are_taken_once(
    a: &mut EncoderControl,
    b: &mut EncoderControl,
    first: bool,
    need: bool,
    c: &mut EncoderControl,
    second: bool,
    need_again: bool,
)
    requires
        call_ensures(EncoderControl::force_keyframe, (a,), ()),
        *old(b) == *final(a),
        call_ensures(EncoderControl::take_force, (b, need), first),
        *old(c) == *final(b),
        call_ensures(EncoderControl::take_force, (c, need_again), second),
    ensures
        first,
        second <==> need_again,
        !final(b).force_key && !final(c).force_key,
        final(a).bitrate_bps == old(a).bitrate_bps && final(a).max_height == old(a).max_height,
        final(b).bitrate_bps == old(a).bitrate_bps && final(b).max_height == old(a).max_height,
{
}

/// A frame that could not be encoded asks for a key frame; one that could asks for nothing.
pub proof fn failed_frames_ask_for_a_key_frame(a: &mut EncoderControl, ok: bool)
    requires
        call_ensures(EncoderControl::encoded, (a, ok), ()),
    ensures
        ok ==> *final(a) == *old(a),
        !ok ==> final(a).force_key,
        final(a).bitrate_bps == old(a).bitrate_bps && final(a).max_height == old(a).max_height,
        final(a).max_bitrate == old(a).max_bitrate && final(a).profile == old(a).profile,
{
}

/// The encoder begins at its bitrate, which is also its ceiling, with a key frame and without a cap.
pub proof fn encoders_begin_with_a_key_frame(bps: u32, r: EncoderControl)
    requires
        call_ensures(EncoderControl::new, (bps,), r),
    ensures
        r.bitrate_bps == bps && r.max_bitrate == bps,
        r.force_key && r.max_height == 0,
{
}

/// A frame is encoded only for a session. A new encoder is made for the first one and when the
/// profile changes, with the bitrate in force; the next frame of that profile finds it.
pub proof fn encoders_are_made_for_their_profile(
    a: &mut EncodeLoop,
    control: &EncoderControl,
    width: u32,
    height: u32,
    r: Option<FramePlan>,
    b: &mut EncodeLoop,
    again: Option<FramePlan>,
)
    requires
        call_ensures(EncodeLoop::plan, (a, control, true, width, height), r),
        *old(b) == *final(a),
        call_ensures(EncodeLoop::plan, (b, control, true, width, height), again),
    ensures
        r is Some && again is Some,
        ({
            let wanted = vtenc::profile_of(control.profile.id@);
            &&& r->0.recreate is None <==> old(a).encoder == Some(wanted)
            &&& r->0.recreate matches Some(c) ==> c.profile == wanted && c.fps == old(a).fps
                && c.bitrate_bps == control.bitrate_bps
            &&& final(a).encoder == Some(wanted)
        }),
        again->0.recreate is None,
        r->0.bitrate_bps == control.bitrate_bps,
        final(a).fps == old(a).fps && final(a).scaler == old(a).scaler,
{
}

/// A picture is reduced to the cap, and a scaler is made for the first one that is. Without a
/// session nothing happens.
pub proof fn pictures_are_reduced_to_the_cap(
    a: &mut EncodeLoop,
    control: &EncoderControl,
    attached: bool,
    width: u32,
    height: u32,
    r: Option<FramePlan>,
)
    requires
        call_ensures(EncodeLoop::plan, (a, control, attached, width, height), r),
    ensures
        r is Some <==> attached,
        !attached ==> *final(a) == *old(a),
        attached ==> (r->0.scale is Some <==> vtenc::reduced(width, height, control.max_height)
            is Some),
        attached && r->0.scale is Some ==> ((r->0.scale->0).0 as int, (r->0.scale->0).1 as int)
            == vtenc::reduced(width, height, control.max_height)->0,
        attached ==> (r->0.new_scaler <==> r->0.scale is Some && !old(a).scaler),
{
}

/// A scaler that could be made is kept; where none could be, the cap is given up.
pub proof fn missing_scalers_lift_the_cap(
    a: &mut EncodeLoop,
    control: &mut EncoderControl,
    ok: bool,
)
    requires
        call_ensures(EncodeLoop::scaler_made, (a, control, ok), ()),
    ensures
        ok ==> final(a).scaler && *final(control) == *old(control),
        !ok ==> final(a).scaler == old(a).scaler && final(control).max_height == 0,
        final(control).bitrate_bps == old(control).bitrate_bps,
        final(control).force_key == old(control).force_key,
        final(a).encoder == old(a).encoder && final(a).fps == old(a).fps,
{
}

/// A loop has at least one frame a second and begins without an encoder; a profile that was stored
/// is the one that is used.
pub proof fn loops_begin_without_an_encoder(
    fps: u32,
    r: EncodeLoop,
    s: &mut ProfileSlot,
    id: &str,
)
    requires
        call_ensures(EncodeLoop::new, (fps,), r),
        call_ensures(ProfileSlot::store, (s, id), ()),
    ensures
        fps > 0 ==> r.fps == fps,
        fps == 0 ==> r.fps == 1,
        r.encoder is None && !r.scaler,
        final(s).id@ == id@,
{
}

} // verus!
