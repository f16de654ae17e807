//! Decisions of a media session on the phone: bitrates, resolution under congestion, timing of
//! the frames, what the statistics say.

use super::control::EncoderControl;
use super::vtenc;
use super::vtenc::Profile;
use crate::h264;
use crate::h264::RtpCodec;
use crate::signaling::ServerConfig;
use crate::strings;
use vstd::prelude::*;

verus! {

/// Least bitrate of the encoder (bit/s).
pub const MIN_BITRATE: u64 = 300_000;

/// Wait before going down in resolution, in nanoseconds.
pub const DOWNSCALE_HOLD: u64 = 2_000_000_000;

/// Wait before going back up, in nanoseconds.
pub const UPSCALE_HOLD: u64 = 5_000_000_000;

/// Greatest height that a bitrate of `num / den` bit/s justifies; 0 for no cap.
pub open spec fn justified_height(num: int, den: int) -> u32 {
    if num >= 1_500_000 * den {
        0
    } else if num >= 700_000 * den {
        720
    } else if num >= 400_000 * den {
        540
    } else {
        360
    }
}

/// Greatest height that a bitrate (bit/s) justifies; 0 for no cap.
pub fn height_for_bitrate(bps: u64) -> (r: u32)
    ensures
        r == justified_height(bps as int, 1),
{
    if bps >= 1_500_000 {
        0
    } else if bps >= 700_000 {
        720
    } else if bps >= 400_000 {
        540
    } else {
        360
    }
}

/// Greatest height that a bitrate justifies with a margin of 30 %.
pub fn height_with_margin(bps: u64) -> (r: u32)
    ensures
        r == justified_height(bps as int * 10, 13),
{
    if bps >= 1_950_000 {
        0
    } else if bps >= 910_000 {
        720
    } else if bps >= 520_000 {
        540
    } else {
        360
    }
}

/// Order of the caps on the height: no cap is the highest.
pub open spec fn rank(h: u32) -> u32 {
    if h == 0 {
        u32::MAX
    } else {
        h
    }
}

/// Rank of a cap on the height.
pub fn height_rank(h: u32) -> (r: u32)
    ensures
        r == rank(h),
{
    if h == 0 {
        u32::MAX
    } else {
        h
    }
}

/// Applies a bandwidth estimate to the encoder: bitrate at once, resolution with hysteresis.
#[derive(Debug, Clone, Copy)]
pub struct BitrateControl {
    /// Cap in force, 0 for none.
    pub current_height: u32,
    /// Cap under consideration and since when (nanoseconds).
    pub candidate: Option<(u32, u64)>,
}

/// The bitrate for an estimate: between the least one and the ceiling.
pub open spec fn bitrate_for(estimate: u64, max: u64) -> int {
    let hi = if max < MIN_BITRATE {
        MIN_BITRATE as int
    } else {
        max as int
    };
    let b = if estimate < MIN_BITRATE {
        MIN_BITRATE as int
    } else if estimate > hi {
        hi
    } else {
        estimate as int
    };
    if b > u32::MAX {
        u32::MAX as int
    } else {
        b
    }
}

/// The cap that a bitrate calls for against the one in force, and how long it must be called for.
pub open spec fn wanted_cap(bps: int, current: u32) -> Option<(u32, u64)> {
    let down = justified_height(bps, 1);
    let up = justified_height(bps * 10, 13);
    if rank(down) < rank(current) {
        Some((down, DOWNSCALE_HOLD))
    } else if rank(up) > rank(current) {
        Some((up, UPSCALE_HOLD))
    } else {
        None
    }
}

/// Time since an instant, zero where it lies ahead.
pub open spec fn elapsed(since: u64, now: u64) -> int {
    if now < since {
        0
    } else {
        now - since
    }
}

/// The control after a tick at bitrate `bps`, and the new cap where it changes.
pub open spec fn after_tick(c: BitrateControl, bps: int, now: u64) -> (BitrateControl, Option<u32>) {
    match wanted_cap(bps, c.current_height) {
        Some((h, hold)) => match c.candidate {
            Some((ch, since)) if ch == h => if elapsed(since, now) >= hold {
                (BitrateControl { current_height: h, candidate: None }, Some(h))
            } else {
                (c, None)
            },
            _ => (BitrateControl { candidate: Some((h, now)), ..c }, None),
        },
        None => (BitrateControl { candidate: None, ..c }, None),
    }
}

impl BitrateControl {
    /// No cap, none under consideration.
    pub fn new() -> (r: Self)
        ensures
            r.current_height == 0,
            r.candidate is None,
    {
        BitrateControl { current_height: 0, candidate: None }
    }

    /// Applies an estimate (whole bit/s) at a given time (nanoseconds).
    pub fn tick(&mut self, estimate: u64, now: u64, encoder: &mut EncoderControl) -> (r: Option<u32>)
        ensures
            ({
                let bps = bitrate_for(estimate, old(encoder).max_bitrate);
                &&& (*final(self), r) == after_tick(*old(self), bps, now)
                &&& final(encoder).bitrate_bps == bps
                &&& final(encoder).max_height == (match r {
                    Some(h) => h,
                    None => old(encoder).max_height,
                })
                &&& final(encoder).max_bitrate == old(encoder).max_bitrate
                &&& final(encoder).force_key == old(encoder).force_key
                &&& final(encoder).profile == old(encoder).profile
            }),
    {
        let hi: u64 = if encoder.max_bitrate < MIN_BITRATE {
            MIN_BITRATE
        } else {
            encoder.max_bitrate
        };
        let b: u64 = if estimate < MIN_BITRATE {
            MIN_BITRATE
        } else if estimate > hi {
            hi
        } else {
            estimate
        };
        let bps: u32 = if b > 0xffff_ffff {
            u32::MAX
        } else {
            b as u32
        };
        encoder.set_bitrate(bps);
        let down = height_for_bitrate(bps as u64);
        let up = height_with_margin(bps as u64);
        let wanted: Option<(u32, u64)> = if height_rank(down) < height_rank(self.current_height) {
            Some((down, DOWNSCALE_HOLD))
        } else if height_rank(up) > height_rank(self.current_height) {
            Some((up, UPSCALE_HOLD))
        } else {
            None
        };
        let mut changed: Option<u32> = None;
        match wanted {
            Some((h, hold)) => {
                match self.candidate {
                    Some((ch, since)) if ch == h => {
                        let waited: u64 = if now < since {
                            0
                        } else {
                            now - since
                        };
                        if waited >= hold {
                            self.current_height = h;
                            self.candidate = None;
                            changed = Some(h);
                        }
                    },
                    _ => {
                        self.candidate = Some((h, now));
                    },
                }
            },
            None => {
                self.candidate = None;
            },
        }
        if let Some(h) = changed {
            encoder.set_max_height(h);
        }
        changed
    }
}

/// The bitrate never leaves the range between the least one and the ceiling.
pub proof fn bitrate_stays_in_range(estimate: u64, max: u64)
    ensures
        bitrate_for(estimate, max) >= MIN_BITRATE,
        max >= MIN_BITRATE ==> bitrate_for(estimate, max) <= max,
        max < MIN_BITRATE ==> bitrate_for(estimate, max) == MIN_BITRATE,
{
}

/// A cap changes only after it was called for long enough, and was the one under consideration:
/// two seconds to go down, five to go up.
pub proof fn cap_changes_are_held(c: BitrateControl, bps: int, now: u64)
    ensures
        (match after_tick(c, bps, now).1 {
            Some(h) => {
                &&& c.candidate is Some
                &&& (c.candidate->0).0 == h
                &&& rank(h) < rank(c.current_height) ==> elapsed((c.candidate->0).1, now)
                    >= 2_000_000_000
                &&& rank(h) > rank(c.current_height) ==> elapsed((c.candidate->0).1, now)
                    >= 5_000_000_000
                &&& rank(h) != rank(c.current_height)
            },
            None => after_tick(c, bps, now).0.current_height == c.current_height,
        }),
{
}

/// A bitrate that calls for going up does not call for going down from there: at a steady
/// bitrate the cap settles.
pub proof fn cap_settles(bps: int, current: u32)
    requires
        bps >= 0,
        current == 0 || current == 720 || current == 540 || current == 360,
    ensures
        (match wanted_cap(bps, current) {
            Some((h, _)) => match wanted_cap(bps, h) {
                Some((h2, _)) => rank(current) < rank(h) && rank(h) < rank(h2) || rank(current)
                    > rank(h) && rank(h) > rank(h2),
                None => true,
            },
            None => true,
        }),
{
}

/// The offer holds no H.264 in `packetization-mode=1`.
#[derive(Debug, Clone, Copy, PartialEq, Eq, Structural)]
pub struct NoH264;

/// What a session negotiates from an offer.
pub struct SessionPlan {
    pub payload_type: u8,
    /// The H.264 of the offer, to the letter.
    pub codec: RtpCodec,
    pub profile_level_id: String,
    pub max_kbps: u32,
    pub start_kbps: u32,
}

/// Ceiling of a session (kb/s): by the height, at least 300.
pub open spec fn session_max_kbps(height: u32, cfg: ServerConfig) -> int {
    let m = h264::ceiling_kbps(height, cfg.video_max_bitrate_kbps);
    if m < 300 {
        300
    } else {
        m
    }
}

/// Start bitrate of a session (kb/s): the one announced in the offer, else the published one,
/// else half the ceiling, between 300 and the ceiling.
pub open spec fn session_start_kbps(announced: Option<u32>, published: u32, max: int) -> int {
    let k = match announced {
        Some(k) => k as int,
        None => if published > 0 {
            published as int
        } else {
            max / 2
        },
    };
    if k < 300 {
        300
    } else if k > max {
        max
    } else {
        k
    }
}

/// Plans a session from an offer and the published settings.
pub fn plan_session(offer_sdp: &str, height: u32, cfg: &ServerConfig) -> (r: Result<
    SessionPlan,
    NoH264,
>)
    ensures
        r is Ok <==> h264::offered_in(offer_sdp@) is Some,
        r is Ok ==> {
            let o = h264::offered_in(offer_sdp@)->0;
            let p = r->Ok_0;
            &&& p.payload_type == o.payload_type
            &&& p.codec@ == h264::h264_codec(o.fmtp)
            &&& p.profile_level_id@ == o.profile_level_id
            &&& p.max_kbps == session_max_kbps(height, *cfg)
            &&& p.start_kbps == session_start_kbps(
                o.start_bitrate_kbps,
                cfg.video_start_bitrate_kbps,
                p.max_kbps as int,
            )
            &&& 300 <= p.start_kbps <= p.max_kbps
        },
{
    let offered = match h264::offered_h264(offer_sdp) {
        Some(o) => o,
        None => {
            return Err(NoH264);
        },
    };
    let m = h264::max_bitrate_kbps(height, cfg.video_max_bitrate_kbps);
    let max_kbps: u32 = if m < 300 {
        300
    } else {
        m
    };
    let k: u32 = match offered.start_bitrate_kbps {
        Some(k) => k,
        None => if cfg.video_start_bitrate_kbps > 0 {
            cfg.video_start_bitrate_kbps
        } else {
            max_kbps / 2
        },
    };
    let start_kbps: u32 = if k < 300 {
        300
    } else if k > max_kbps {
        max_kbps
    } else {
        k
    };
    Ok(
        SessionPlan {
            payload_type: offered.payload_type,
            codec: h264::codec(offered.fmtp.as_str()),
            profile_level_id: offered.profile_level_id,
            max_kbps,
            start_kbps,
        },
    )
}

/// Sets the encoder for a session: profile, start bitrate and ceiling.
pub fn apply_plan(plan: &SessionPlan, encoder: &mut EncoderControl)
    ensures
        final(encoder).profile.id@ == plan.profile_level_id@,
        final(encoder).bitrate_bps == (if plan.start_kbps * 1000 > u32::MAX {
            u32::MAX as int
        } else {
            plan.start_kbps * 1000
        }),
        final(encoder).max_bitrate == plan.max_kbps * 1000,
        final(encoder).force_key == old(encoder).force_key,
        final(encoder).max_height == old(encoder).max_height,
{
    encoder.profile.store(plan.profile_level_id.as_str());
    let start: u64 = plan.start_kbps as u64 * 1000;
    encoder.set_bitrate(
        if start > 0xffff_ffff {
            u32::MAX
        } else {
            start as u32
        },
    );
    encoder.max_bitrate = plan.max_kbps as u64 * 1000;
}

/// States of a peer connection.
#[derive(Debug, Clone, Copy, PartialEq, Eq, Structural)]
pub enum ConnectionState {
    New,
    Connecting,
    Connected,
    Disconnected,
    Failed,
    Closed,
    Unspecified,
}

/// Word shown for a state.
pub open spec fn label(state: ConnectionState) -> Seq<char> {
    match state {
        ConnectionState::New => "nouvelle"@,
        ConnectionState::Connecting => "connexion…"@,
        ConnectionState::Connected => "connecté"@,
        ConnectionState::Disconnected => "déconnecté"@,
        ConnectionState::Failed => "échec"@,
        ConnectionState::Closed => "fermé"@,
        ConnectionState::Unspecified => "?"@,
    }
}

/// Word shown for a state.
pub fn state_label(state: ConnectionState) -> (r: &'static str)
    ensures
        r@ == label(state),
{
    match state {
        ConnectionState::New => "nouvelle",
        ConnectionState::Connecting => "connexion…",
        ConnectionState::Connected => "connecté",
        ConnectionState::Disconnected => "déconnecté",
        ConnectionState::Failed => "échec",
        ConnectionState::Closed => "fermé",
        ConnectionState::Unspecified => "?",
    }
}

/// Life of a session: connected, cancelled, closed.
#[derive(Debug, Clone, Copy, PartialEq, Eq, Structural)]
pub struct SessionLife {
    pub connected: bool,
    pub cancelled: bool,
    pub closed: bool,
}

impl SessionLife {
    /// A session that is not connected yet.
    pub fn new() -> (r: Self)
        ensures
            r == (SessionLife { connected: false, cancelled: false, closed: false }),
    {
        SessionLife { connected: false, cancelled: false, closed: false }
    }

    /// Takes a new connection state. True where the interface is to be told that the call is
    /// established; the encoder then starts with a key frame.
    pub fn state_changed(&mut self, state: ConnectionState, encoder: &mut EncoderControl) -> (r: bool)
        ensures
            r == (state == ConnectionState::Connected),
            final(self).connected == (match state {
                ConnectionState::Connected => true,
                ConnectionState::Disconnected | ConnectionState::Failed
                | ConnectionState::Closed => false,
                _ => old(self).connected,
            }),
            final(self).cancelled == (old(self).cancelled || state == ConnectionState::Closed),
            final(self).closed == old(self).closed,
            *final(encoder) == (if r {
                EncoderControl { force_key: true, ..*old(encoder) }
            } else {
                *old(encoder)
            }),
    {
        match state {
            ConnectionState::Connected => {
                self.connected = true;
                encoder.force_keyframe();
                true
            },
            ConnectionState::Disconnected | ConnectionState::Failed => {
                self.connected = false;
                false
            },
            ConnectionState::Closed => {
                self.connected = false;
                self.cancelled = true;
                false
            },
            _ => false,
        }
    }

    /// A new offer can be taken as long as the connection is not closed.
    pub fn can_reoffer(&self) -> (r: bool)
        ensures
            r == (!self.cancelled && !self.closed),
    {
        !self.cancelled && !self.closed
    }

    /// Whether the call is established.
    pub fn is_connected(&self) -> (r: bool)
        ensures
            r == self.connected,
    {
        self.connected
    }

    /// Closes the session; true the first time only.
    pub fn close(&mut self) -> (r: bool)
        ensures
            r == !old(self).closed,
            final(self).closed,
            final(self).cancelled == (old(self).cancelled || r),
            final(self).connected == old(self).connected,
    {
        if self.closed {
            return false;
        }
        self.closed = true;
        self.cancelled = true;
        true
    }
}

/// Nominal duration of a frame, in nanoseconds.
pub open spec fn nominal_duration(fps: u32) -> int {
    (1_000_000int / vtenc::at_least_one(fps)) * 1000
}

/// Duration of a frame (nanoseconds): distance to the previous one, or nominal where the time
/// does not advance, between 1 and 500 ms.
pub open spec fn frame_duration(last: Option<u64>, pts: u64, fps: u32) -> int {
    let d = match last {
        Some(prev) if pts > prev => pts - prev,
        _ => nominal_duration(fps),
    };
    if d < 1_000_000 {
        1_000_000
    } else if d > 500_000_000 {
        500_000_000
    } else {
        d
    }
}

/// Times the frames handed to the RTP writer.
pub struct FrameClock {
    pub fps: u32,
    pub last_pts: Option<u64>,
}

impl FrameClock {
    /// A clock that has seen no frame.
    pub fn new(fps: u32) -> (r: Self)
        ensures
            r.fps == fps,
            r.last_pts is None,
    {
        FrameClock { fps, last_pts: None }
    }

    /// Duration of the frame presented at `pts` (nanoseconds).
    pub fn next(&mut self, pts: u64) -> (r: u64)
        ensures
            r == frame_duration(old(self).last_pts, pts, old(self).fps),
            *final(self) == (FrameClock { last_pts: Some(pts), ..*old(self) }),
    {
        let fps: u64 = if self.fps == 0 {
            1
        } else {
            self.fps as u64
        };
        let nominal: u64 = (1_000_000 / fps) * 1000;
        let d: u64 = match self.last_pts {
            Some(prev) if pts > prev => pts - prev,
            _ => nominal,
        };
        self.last_pts = Some(pts);
        if d < 1_000_000 {
            1_000_000
        } else if d > 500_000_000 {
            500_000_000
        } else {
            d
        }
    }
}

/// What limits the quality: losses, else a capped resolution or an encoder at a target well
/// under the ceiling, else nothing.
pub open spec fn limitation(lossy: bool, max_height: u32, at_target: bool, target: u32, max: u64) -> Seq<char> {
    if lossy {
        "bandwidth (pertes)"@
    } else if max_height != 0 || at_target && target < max * 9 / 10 {
        "bandwidth"@
    } else {
        "none"@
    }
}

/// What limits the quality.
pub fn quality_limitation(
    lossy: bool,
    max_height: u32,
    at_target: bool,
    target: u32,
    max: u64,
) -> (r: String)
    requires
        max <= u64::MAX / 9,
    ensures
        r@ == limitation(lossy, max_height, at_target, target, max),
{
    if lossy {
        strings::text("bandwidth (pertes)")
    } else if max_height != 0 || (at_target && (target as u64) < max * 9 / 10) {
        strings::text("bandwidth")
    } else {
        strings::text("none")
    }
}

/// Difference of two readings of a counter, with the reading kept for the next time.
pub struct Meter {
    pub last: u64,
}

impl Meter {
    /// What was counted since the last reading; nothing where the counter went back.
    pub fn since(&mut self, reading: u64) -> (r: u64)
        ensures
            r == (if reading > old(self).last {
                reading - old(self).last
            } else {
                0
            }),
            final(self).last == reading,
    {
        let d: u64 = if reading > self.last {
            reading - self.last
        } else {
            0
        };
        self.last = reading;
        d
    }
}

/// Profile of the encoder for an offer.
pub fn profile_for(profile_level_id: &str) -> (r: Profile)
    ensures
        r == vtenc::profile_of(profile_level_id@),
{
    Profile::from_profile_level_id(profile_level_id)
}

/// The encoder follows the estimate. Between 300 kb/s and the ceiling its bitrate is the estimate
/// itself, above the ceiling it is the ceiling, below 300 kb/s it is 300 kb/s; a ceiling below
/// that counts as 300 kb/s, and what does not fit in 32 bits is as much as does.
pub proof fn bitrate_follows_the_estimate(estimate: u64, max: u64)
    ensures
        300_000 <= estimate <= max && estimate <= u32::MAX ==> bitrate_for(estimate, max)
            == estimate,
        300_000 <= max <= estimate && max <= u32::MAX ==> bitrate_for(estimate, max) == max,
        estimate <= 300_000 ==> bitrate_for(estimate, max) == 300_000,
        max <= 300_000 ==> bitrate_for(estimate, max) == 300_000,
        estimate >= u32::MAX && max >= u32::MAX ==> bitrate_for(estimate, max) == u32::MAX,
{
}

/// More bandwidth never means a lower bitrate, nor does a higher ceiling.
pub proof fn more_bandwidth_never_lowers_the_bitrate(
    estimate: u64,
    better: u64,
    max: u64,
    higher: u64,
)
    requires
        estimate <= better,
        max <= higher,
    ensures
        bitrate_for(estimate, max) <= bitrate_for(better, max),
        bitrate_for(estimate, max) <= bitrate_for(estimate, higher),
{
}

/// The heights that bitrates justify: no cap from 1.5 Mb/s on, 720 lines from 700 kb/s, 540 from
/// 400 kb/s, 360 below; with the margin, the bitrate has to be 1.3 times as high.
pub proof fn bitrates_justify_heights(num: int, den: int)
    requires
        den > 0,
        num >= 0,
    ensures
        justified_height(num, den) == 0 <==> num >= 1_500_000 * den,
        justified_height(num, den) == 720 <==> 700_000 * den <= num < 1_500_000 * den,
        justified_height(num, den) == 540 <==> 400_000 * den <= num < 700_000 * den,
        justified_height(num, den) == 360 <==> num < 400_000 * den,
        rank(0) == u32::MAX,
        forall|h: u32| h > 0 ==> #[trigger] rank(h) == h,
{
}

/// A good network asks for no cap: from 1.5 Mb/s on, a picture at its full height is left alone,
/// and a cap under consideration is forgotten.
pub proof fn good_network_asks_for_no_cap(c: BitrateControl, bps: int, now: u64)
    requires
        c.current_height == 0,
        bps >= 1_500_000,
    ensures
        after_tick(c, bps, now).0 == (BitrateControl { current_height: 0, candidate: None }),
        after_tick(c, bps, now).1 is None,
{
}

/// A cap is lowered by a bitrate that no longer justifies it, and raised by one that justifies a
/// higher one 1.3 times over; anything in between asks for nothing and forgets the cap under
/// consideration. What is asked for is considered from now on, unless it already is: it then comes
/// into force after two seconds on the way down, five on the way up, and not before.
pub proof fn cap_follows_a_lasting_bitrate(c: BitrateControl, bps: int, now: u64)
    requires
        bps >= 0,
    ensures
        ({
            let cur = rank(c.current_height);
            let down = justified_height(bps, 1);
            let up = justified_height(bps * 10, 13);
            let lower = rank(down) < cur;
            let raise = !lower && rank(up) > cur;
            let wanted = if lower {
                down
            } else {
                up
            };
            let hold: int = if lower {
                2_000_000_000
            } else {
                5_000_000_000
            };
            let considered = c.candidate is Some && (c.candidate->0).0 == wanted;
            let since = (c.candidate->0).1;
            let s = after_tick(c, bps, now);
            &&& !lower && !raise ==> s.0 == (BitrateControl { candidate: None, ..c })
                && s.1 is None
            &&& (lower || raise) && !considered ==> s.0 == (BitrateControl {
                candidate: Some((wanted, now)),
                ..c
            }) && s.1 is None
            &&& (lower || raise) && considered && now >= since + hold ==> s.0 == (BitrateControl {
                current_height: wanted,
                candidate: None,
            }) && s.1 == Some(wanted)
            &&& (lower || raise) && considered && now < since + hold ==> s.0 == c && s.1 is None
        }),
{
}

/// The ceiling of a session is the one that the height allows, and never below 300 kb/s.
pub proof fn session_ceiling_has_a_floor(height: u32, cfg: ServerConfig)
    ensures
        session_max_kbps(height, cfg) >= 300,
        h264::ceiling_kbps(height, cfg.video_max_bitrate_kbps) >= 300 ==> session_max_kbps(
            height,
            cfg,
        ) == h264::ceiling_kbps(height, cfg.video_max_bitrate_kbps),
        h264::ceiling_kbps(height, cfg.video_max_bitrate_kbps) < 300 ==> session_max_kbps(
            height,
            cfg,
        ) == 300,
{
}

/// A session starts at the bitrate that the offer announces; without one, at the published one;
/// without that too, at half the ceiling. Where that lies between 300 kb/s and the ceiling it is
/// kept as it is, and the nearest of the two is taken where it does not.
pub proof fn session_starts_as_announced(announced: Option<u32>, published: u32, max: int)
    requires
        max >= 300,
    ensures
        ({
            let asked = if announced is Some {
                announced->0 as int
            } else if published != 0 {
                published as int
            } else {
                max / 2
            };
            let s = session_start_kbps(announced, published, max);
            &&& 300 <= asked <= max ==> s == asked
            &&& asked <= 300 ==> s == 300
            &&& asked >= max ==> s == max
        }),
{
}

/// A frame lasts until the next one: as long as the distance of their times, within 1 and 500 ms.
/// Where time does not advance, or for the first frame, it lasts as long as the frame rate says.
pub proof fn frames_last_until_the_next(last: u64, pts: u64, fps: u32)
    ensures
        pts > last && 1_000_000 <= pts - last <= 500_000_000 ==> frame_duration(
            Some(last),
            pts,
            fps,
        ) == pts - last,
        pts > last && pts - last < 1_000_000 ==> frame_duration(Some(last), pts, fps) == 1_000_000,
        pts > last && pts - last > 500_000_000 ==> frame_duration(Some(last), pts, fps)
            == 500_000_000,
        pts <= last ==> frame_duration(Some(last), pts, fps) == frame_duration(None, pts, fps),
        2 <= fps <= 1000 ==> frame_duration(None, pts, fps) == (1_000_000int / fps as int) * 1000,
        fps <= 1 ==> frame_duration(None, pts, fps) == 500_000_000,
        fps > 1000 ==> frame_duration(None, pts, fps) == 1_000_000,
{
    if fps >= 1 {
        let f = fps as int;
        let q = 1_000_000int / f;
        assert(2 <= f <= 1000 ==> 1000 <= q <= 500_000) by (nonlinear_arith)
            requires
                q == 1_000_000int / f,
                f >= 1,
        ;
        assert(f > 1000 ==> 0 <= q <= 1000) by (nonlinear_arith)
            requires
                q == 1_000_000int / f,
                f >= 1,
        ;
        if fps == 1 {
            assert(q == 1_000_000);
        }
    }
}

/// Losses are named first; else bandwidth limits the quality where the height is capped, or where
/// the encoder reaches a target below nine tenths of the ceiling; else nothing does.
pub proof fn limits_are_named(
    lossy: bool,
    max_height: u32,
    at_target: bool,
    target: u32,
    max: u64,
)
    ensures
        lossy ==> limitation(lossy, max_height, at_target, target, max) == "bandwidth (pertes)"@,
        !lossy && (max_height > 0 || at_target && target < max * 9 / 10) ==> limitation(
            lossy,
            max_height,
            at_target,
            target,
            max,
        ) == "bandwidth"@,
        !lossy && max_height == 0 && (!at_target || target >= max * 9 / 10) ==> limitation(
            lossy,
            max_height,
            at_target,
            target,
            max,
        ) == "none"@,
{
}

/// Each state of a connection has its word.
pub proof fn states_have_their_words(state: ConnectionState)
    ensures
        state == ConnectionState::New ==> label(state) == "nouvelle"@,
        state == ConnectionState::Connecting ==> label(state) == "connexion…"@,
        state == ConnectionState::Connected ==> label(state) == "connecté"@,
        state == ConnectionState::Disconnected ==> label(state) == "déconnecté"@,
        state == ConnectionState::Failed ==> label(state) == "échec"@,
        state == ConnectionState::Closed ==> label(state) == "fermé"@,
        state == ConnectionState::Unspecified ==> label(state) == "?"@,
{
}

/// Each estimate sets the encoder's bitrate to it, between 300 kb/s and the ceiling; the cap on the
/// height changes where the control says so. Nothing else of the encoder changes.
pub proof fn estimates_reach_the_encoder(
    c: &mut BitrateControl,
    estimate: u64,
    now: u64,
    encoder: &mut EncoderControl,
    r: Option<u32>,
)
    requires
        call_ensures(BitrateControl::tick, (c, estimate, now, encoder), r),
    ensures
        ({
            let max = old(encoder).max_bitrate;
            let bps = final(encoder).bitrate_bps;
            &&& 300_000 <= estimate <= max && estimate <= u32::MAX ==> bps == estimate
            &&& 300_000 <= max <= estimate && max <= u32::MAX ==> bps == max
            &&& estimate <= 300_000 || max <= 300_000 ==> bps == 300_000
            &&& estimate >= u32::MAX && max >= u32::MAX ==> bps == u32::MAX
        }),
        r is None ==> final(encoder).max_height == old(encoder).max_height
            && final(c).current_height == old(c).current_height,
        r is Some ==> final(encoder).max_height == r->0 && final(c).current_height == r->0,
        final(encoder).max_bitrate == old(encoder).max_bitrate,
        final(encoder).force_key == old(encoder).force_key,
        final(encoder).profile == old(encoder).profile,
{
}

/// At one time and from one state, a better estimate never sets a lower bitrate.
pub proof fn better_estimates_set_no_lower_bitrate(
    c: &mut BitrateControl,
    d: &mut BitrateControl,
    estimate: u64,
    better: u64,
    now: u64,
    e: &mut EncoderControl,
    f: &mut EncoderControl,
    r: Option<u32>,
    q: Option<u32>,
)
    requires
        estimate <= better,
        old(e).max_bitrate == old(f).max_bitrate,
        call_ensures(BitrateControl::tick, (c, estimate, now, e), r),
        call_ensures(BitrateControl::tick, (d, better, now, f), q),
    ensures
        final(e).bitrate_bps <= final(f).bitrate_bps,
{
}

/// The height for a bitrate is that of the table; with the margin it takes 1.3 times the bitrate.
pub proof fn heights_follow_the_table(bps: u64, plain: u32, cautious: u32)
    requires
        call_ensures(height_for_bitrate, (bps,), plain),
        call_ensures(height_with_margin, (bps,), cautious),
    ensures
        plain == 0 <==> bps >= 1_500_000,
        plain == 720 <==> 700_000 <= bps < 1_500_000,
        plain == 540 <==> 400_000 <= bps < 700_000,
        plain == 360 <==> bps < 400_000,
        cautious == 0 <==> bps >= 1_950_000,
        cautious == 720 <==> 910_000 <= bps < 1_950_000,
        cautious == 540 <==> 520_000 <= bps < 910_000,
        cautious == 360 <==> bps < 520_000,
{
    bitrates_justify_heights(bps as int, 1);
    bitrates_justify_heights(bps as int * 10, 13);
}

/// A session is planned exactly where the offer holds H.264. It uses the offer's own payload type
/// and profile, and starts between 300 kb/s and its ceiling.
pub proof fn sessions_use_the_offered_h264(
    offer: &str,
    height: u32,
    cfg: &ServerConfig,
    r: Result<SessionPlan, NoH264>,
)
    requires
        call_ensures(plan_session, (offer, height, cfg), r),
    ensures
        r is Ok <==> h264::offered_in(offer@) is Some,
        r is Ok ==> {
            let o = h264::offered_in(offer@)->0;
            let p = r->Ok_0;
            &&& p.payload_type == o.payload_type
            &&& p.profile_level_id@ == o.profile_level_id
            &&& 300 <= p.start_kbps <= p.max_kbps
            &&& o.start_bitrate_kbps is Some && 300 <= o.start_bitrate_kbps->0 <= p.max_kbps
                ==> p.start_kbps == o.start_bitrate_kbps->0
        },
{
}

/// The encoder is given the profile, the start bitrate and the ceiling of the plan.
pub proof fn plans_are_applied(plan: &SessionPlan, encoder: &mut EncoderControl)
    requires
        call_ensures(apply_plan, (plan, encoder), ()),
    ensures
        final(encoder).profile.id@ == plan.profile_level_id@,
        plan.start_kbps <= 4_294_967 ==> final(encoder).bitrate_bps == plan.start_kbps * 1000,
        plan.start_kbps > 4_294_967 ==> final(encoder).bitrate_bps == u32::MAX,
        final(encoder).max_bitrate == plan.max_kbps * 1000,
        final(encoder).force_key == old(encoder).force_key,
        final(encoder).max_height == old(encoder).max_height,
{
}

/// A session is connected from its connection on until that is lost; each connection asks for a key
/// frame, and nothing else does. A closed connection ends the session for good.
pub proof fn connections_begin_with_a_key_frame(
    s: &mut SessionLife,
    state: ConnectionState,
    encoder: &mut EncoderControl,
    r: bool,
)
    requires
        call_ensures(SessionLife::state_changed, (s, state, encoder), r),
    ensures
        r <==> state == ConnectionState::Connected,
        state == ConnectionState::Connected ==> final(s).connected && final(encoder).force_key,
        state == ConnectionState::Disconnected || state == ConnectionState::Failed || state
            == ConnectionState::Closed ==> !final(s).connected,
        state == ConnectionState::New || state == ConnectionState::Connecting || state
            == ConnectionState::Unspecified ==> final(s).connected == old(s).connected,
        state != ConnectionState::Connected ==> *final(encoder) == *old(encoder),
        final(encoder).bitrate_bps == old(encoder).bitrate_bps,
        final(encoder).max_bitrate == old(encoder).max_bitrate,
        final(encoder).max_height == old(encoder).max_height,
        state == ConnectionState::Closed ==> final(s).cancelled,
        state != ConnectionState::Closed ==> final(s).cancelled == old(s).cancelled,
        final(s).closed == old(s).closed,
{
}

/// A session is closed once; then, as after a closed connection, it makes no more offers.
pub proof fn sessions_close_once(
    s: &mut SessionLife,
    first: bool,
    t: &mut SessionLife,
    second: bool,
    u: &SessionLife,
    offers: bool,
)
    requires
        call_ensures(SessionLife::close, (s,), first),
        *old(t) == *final(s),
        call_ensures(SessionLife::close, (t,), second),
        *u == *final(t),
        call_ensures(SessionLife::can_reoffer, (u,), offers),
    ensures
        first <==> !old(s).closed,
        final(s).closed && final(s).connected == old(s).connected,
        first ==> final(s).cancelled,
        !second,
        *final(t) == *final(s),
        !offers,
{
}

/// A session that was neither closed nor cancelled may make another offer.
pub proof fn living_sessions_may_offer(u: &SessionLife, offers: bool)
    requires
        call_ensures(SessionLife::can_reoffer, (u,), offers),
    ensures
        offers <==> !u.cancelled && !u.closed,
{
}

/// Frames are timed from one to the next: the clock keeps the last time and its rate.
pub proof fn frames_are_timed_from_one_to_the_next(
    c: &mut FrameClock,
    a: u64,
    r: u64,
    d: &mut FrameClock,
    b: u64,
    q: u64,
)
    requires
        call_ensures(FrameClock::next, (c, a), r),
        *old(d) == *final(c),
        call_ensures(FrameClock::next, (d, b), q),
    ensures
        final(c).last_pts == Some(a) && final(c).fps == old(c).fps,
        q == frame_duration(Some(a), b, old(c).fps),
{
}

/// What a meter counts between readings adds up; a reading that fell counts nothing, and the next
/// is taken from there.
pub proof fn readings_add_up(m: &mut Meter, a: u64, r: u64, n: &mut Meter, b: u64, q: u64)
    requires
        call_ensures(Meter::since, (m, a), r),
        *old(n) == *final(m),
        call_ensures(Meter::since, (n, b), q),
    ensures
        old(m).last <= a <= b ==> r + q == b - old(m).last,
        a <= old(m).last ==> r == 0,
        a <= b ==> q == b - a,
{
}

} // verus!
