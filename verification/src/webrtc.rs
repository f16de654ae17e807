//! The session with the phone, on the switcher's side: which tracks are decoded, when key frames
//! are asked for, how a broken connection is taken up again, and the statistics of the video.
//! Times are in nanoseconds.

use crate::engine::RtpStats;
use crate::h264;
use crate::signaling::ServerMsg;
use crate::strings;
use vstd::prelude::*;

verus! {

/// One millisecond.
pub const MS: u64 = 1_000_000;

/// A session with a phone.
pub struct PhoneSession {
    pub name: String,
    pub closed: bool,
}

impl PhoneSession {
    /// A session that was just started.
    pub fn new(name: String) -> (r: Self)
        ensures
            r.name == name,
            !r.closed,
    {
        PhoneSession { name, closed: false }
    }

    /// Closes the session; true the first time, when the connection has to be closed.
    pub fn close(&mut self) -> (r: bool)
        ensures
            r == !old(self).closed,
            final(self).closed,
            final(self).name == old(self).name,
    {
        let first = !self.closed;
        self.closed = true;
        first
    }
}

/// The offer sent to the phone: with the start bitrate announced, unless it is zero.
pub fn offer_message(sdp: &str, kbps: u32) -> (r: ServerMsg)
    ensures
        r is Offer,
        kbps == 0 ==> r->sdp@ == sdp@,
        kbps > 0 ==> r->sdp@ == h264::announced(sdp@, h264::start_note(kbps)),
{
    ServerMsg::Offer { sdp: h264::announce_start_bitrate(sdp, kbps) }
}

/// A candidate sent to the phone; without a line it belongs to the first.
pub fn candidate_message(candidate: String, mline: Option<u16>) -> (r: ServerMsg)
    ensures
        r == (ServerMsg::Ice {
            candidate,
            sdp_m_line_index: match mline {
                Some(m) => m as u32,
                None => 0,
            },
        }),
{
    ServerMsg::Ice {
        candidate,
        sdp_m_line_index: match mline {
            Some(m) => m as u32,
            None => 0,
        },
    }
}

/// Line of a candidate that the phone sent, in sixteen bits.
pub fn candidate_line(mline: u32) -> (r: u16)
    ensures
        r == mline % 0x1_0000,
{
    (mline % 0x1_0000) as u16
}

/// Kind of a track.
#[derive(Debug, Clone, Copy, PartialEq, Eq, Structural)]
pub enum TrackKind {
    Audio,
    Video,
}

/// What is done with a track.
#[derive(Debug, Clone, Copy, PartialEq, Eq, Structural)]
pub enum TrackPlan {
    /// Sound: decoded to the output.
    Sound,
    /// H264 pictures: decoded in hardware; clock rate of the stream.
    Picture { clock_rate: u32 },
    /// Any other codec.
    Ignore,
}

/// What is done with a track of a kind, with the name and clock rate of its codec where they are
/// known.
pub open spec fn track_plan(kind: TrackKind, codec: Option<(Seq<char>, u32)>) -> TrackPlan {
    match kind {
        TrackKind::Audio => TrackPlan::Sound,
        TrackKind::Video => match codec {
            Some((mime, clock_rate)) if strings::has_text(strings::lowercase(mime), "h264"@) =>
                TrackPlan::Picture { clock_rate },
            _ => TrackPlan::Ignore,
        },
    }
}

/// A track came.
pub fn on_track(kind: TrackKind, codec: &Option<(String, u32)>) -> (r: TrackPlan)
    ensures
        r == track_plan(
            kind,
            match codec {
                Some((mime, clock_rate)) => Some((mime@, *clock_rate)),
                None => None,
            },
        ),
{
    if kind == TrackKind::Audio {
        return TrackPlan::Sound;
    }
    match codec {
        Some((mime, clock_rate)) => {
            let low = strings::to_lowercase(mime.as_str());
            on_video_track(low.as_str(), *clock_rate)
        },
        None => TrackPlan::Ignore,
    }
}

/// A video track came, with the name of its codec in lower case.
pub fn on_video_track(mime: &str, clock_rate: u32) -> (r: TrackPlan)
    ensures
        r == (if strings::has_text(mime@, "h264"@) {
            TrackPlan::Picture { clock_rate }
        } else {
            TrackPlan::Ignore
        }),
{
    let low = strings::chars_of(mime);
    let h = strings::chars_of("h264");
    if strings::contains(low.as_slice(), h.as_slice()) {
        TrackPlan::Picture { clock_rate }
    } else {
        TrackPlan::Ignore
    }
}

/// Why a key frame is asked for.
#[derive(Debug, Clone, Copy, PartialEq, Eq, Structural)]
pub enum Reason {
    /// Nothing was decoded yet.
    Start,
    /// A loss, or a failure of the decoder.
    Broken,
    /// No picture comes any more.
    Starved,
    /// Once in a while, whatever happens.
    Safety,
}

/// Where the requests for key frames stand.
#[derive(Debug, Clone, Copy, PartialEq, Eq, Structural)]
pub enum Requests {
    /// Until something is decoded; requests sent so far.
    Starting { tries: u8 },
    /// Watching the stream; time of the last request.
    Watching { last: u64 },
    /// The track is gone.
    Over,
}

/// What to do next about key frames.
#[derive(Debug, Clone, Copy, PartialEq, Eq, Structural)]
pub enum Next {
    Request(Reason),
    /// Wake up after this time.
    Wait(u64),
    Stop,
}

/// Most requests at the start.
pub const START_TRIES: u8 = 10;

/// Time between two requests at the start.
pub const START_EVERY: u64 = 500_000_000;

/// Time between two looks at the stream.
pub const LOOK_EVERY: u64 = 100_000_000;

/// Least time between two requests after a break.
pub const BROKEN_AFTER: u64 = 300_000_000;

/// Least time between two requests while no picture comes.
pub const STARVED_AFTER: u64 = 2_000_000_000;

/// Why a key frame is asked for while the stream is watched, `since` the last request: after a
/// break, for want of pictures, or once an interval is over (none for 0).
pub open spec fn reason_to_ask(
    needed: bool,
    starved: bool,
    interval_s: u32,
    since: int,
) -> Option<Reason> {
    if needed && since >= BROKEN_AFTER {
        Some(Reason::Broken)
    } else if starved && since >= STARVED_AFTER {
        Some(Reason::Starved)
    } else if interval_s > 0 && since >= interval_s * 1_000_000_000 {
        Some(Reason::Safety)
    } else {
        None
    }
}

/// Time between two instants, zero where they are out of order.
pub open spec fn passed(from: u64, now: u64) -> int {
    if now < from {
        0
    } else {
        now - from
    }
}

/// The requests after a wake-up, and what to do.
pub open spec fn woken(
    r: Requests,
    decoded: bool,
    needed: bool,
    starved: bool,
    interval_s: u32,
    now: u64,
) -> (Requests, Next) {
    match r {
        Requests::Starting { tries } => if tries < START_TRIES && !decoded {
            (r, Next::Request(Reason::Start))
        } else {
            (Requests::Watching { last: now }, Next::Wait(LOOK_EVERY))
        },
        Requests::Watching { last } => match reason_to_ask(
            needed,
            starved,
            interval_s,
            passed(last, now),
        ) {
            Some(why) => (Requests::Watching { last: now }, Next::Request(why)),
            None => (r, Next::Wait(LOOK_EVERY)),
        },
        Requests::Over => (r, Next::Stop),
    }
}

/// The requests after one was sent, and what to do.
pub open spec fn sent(r: Requests, ok: bool) -> (Requests, Next) {
    match r {
        Requests::Starting { tries } if ok => (
            Requests::Starting { tries: (tries + 1) as u8 },
            Next::Wait(START_EVERY),
        ),
        Requests::Watching { .. } if ok => (r, Next::Wait(LOOK_EVERY)),
        _ => (Requests::Over, Next::Stop),
    }
}

impl Requests {
    /// A video track came.
    pub fn new() -> (r: Self)
        ensures
            r == (Requests::Starting { tries: 0 }),
    {
        Requests::Starting { tries: 0 }
    }

    /// Time to look at the stream: whether something was decoded yet, whether a break was
    /// reported since the last look, whether no picture comes any more.
    pub fn wake(
        &mut self,
        decoded: bool,
        needed: bool,
        starved: bool,
        interval_s: u32,
        now: u64,
    ) -> (r: Next)
        ensures
            (*final(self), r) == woken(*old(self), decoded, needed, starved, interval_s, now),
    {
        let (state, next) = match *self {
            Requests::Starting { tries } => if tries < START_TRIES && !decoded {
                (*self, Next::Request(Reason::Start))
            } else {
                (Requests::Watching { last: now }, Next::Wait(LOOK_EVERY))
            },
            Requests::Watching { last } => {
                let since: u64 = if now < last {
                    0
                } else {
                    now - last
                };
                match why(needed, starved, interval_s, since) {
                    Some(w) => (Requests::Watching { last: now }, Next::Request(w)),
                    None => (*self, Next::Wait(LOOK_EVERY)),
                }
            },
            Requests::Over => (*self, Next::Stop),
        };
        *self = state;
        next
    }

    /// A request was sent, or could not be.
    pub fn sent(&mut self, ok: bool) -> (r: Next)
        requires
            *old(self) matches Requests::Starting { tries } ==> tries < START_TRIES,
        ensures
            (*final(self), r) == sent(*old(self), ok),
    {
        let (state, next) = if ok {
            match *self {
                Requests::Starting { tries } => (
                    Requests::Starting { tries: tries + 1 },
                    Next::Wait(START_EVERY),
                ),
                Requests::Watching { last } => (*self, Next::Wait(LOOK_EVERY)),
                Requests::Over => (Requests::Over, Next::Stop),
            }
        } else {
            (Requests::Over, Next::Stop)
        };
        *self = state;
        next
    }
}

fn why(needed: bool, starved: bool, interval_s: u32, since: u64) -> (r: Option<Reason>)
    ensures
        r == reason_to_ask(needed, starved, interval_s, since as int),
{
    if needed && since >= BROKEN_AFTER {
        Some(Reason::Broken)
    } else if starved && since >= STARVED_AFTER {
        Some(Reason::Starved)
    } else if interval_s > 0 && since >= interval_s as u64 * 1_000_000_000 {
        Some(Reason::Safety)
    } else {
        None
    }
}

/// While the stream is watched, two requests are never closer than the shortest of the delays.
pub proof fn requests_are_spaced(
    last: u64,
    decoded: bool,
    needed: bool,
    starved: bool,
    interval_s: u32,
    now: u64,
)
    ensures
        woken(
            Requests::Watching { last },
            decoded,
            needed,
            starved,
            interval_s,
            now,
        ).1 is Request ==> now >= last + BROKEN_AFTER && woken(
            Requests::Watching { last },
            decoded,
            needed,
            starved,
            interval_s,
            now,
        ).0 == (Requests::Watching { last: now }),
{
}

/// A stream that plays well costs no request but the safety ones, and none without an interval.
pub proof fn healthy_stream_is_left_alone(last: u64, decoded: bool, interval_s: u32, now: u64)
    ensures
        ({
            let next = woken(
                Requests::Watching { last },
                decoded,
                false,
                false,
                interval_s,
                now,
            ).1;
            &&& next is Request ==> interval_s > 0 && now >= last + interval_s * 1_000_000_000
            &&& interval_s == 0 ==> next == Next::Wait(LOOK_EVERY)
        }),
{
}

/// Wakes until the start is over, each with a request that was sent and nothing decoded.
pub open spec fn started(r: Requests, n: nat) -> Requests
    decreases n,
{
    if n == 0 {
        r
    } else {
        let before = started(r, (n - 1) as nat);
        match woken(before, false, false, false, 0, 0).1 {
            Next::Request(_) => sent(before, true).0,
            _ => before,
        }
    }
}

/// At the start at most ten requests are sent, however long nothing is decoded.
pub proof fn start_requests_are_bounded(n: nat)
    ensures
        n <= START_TRIES ==> started(Requests::Starting { tries: 0 }, n) == (Requests::Starting {
            tries: n as u8,
        }),
        n >= START_TRIES ==> woken(
            started(Requests::Starting { tries: 0 }, n),
            false,
            false,
            false,
            0,
            0,
        ).1 == Next::Wait(LOOK_EVERY),
    decreases n,
{
    if n > 0 {
        start_requests_are_bounded((n - 1) as nat);
        if n > START_TRIES {
            lemma_start_stays(n);
        }
    }
}

proof fn lemma_start_stays(n: nat)
    requires
        n >= START_TRIES,
    ensures
        started(Requests::Starting { tries: 0 }, n) == (Requests::Starting { tries: START_TRIES }),
    decreases n,
{
    if n == START_TRIES {
        reveal_with_fuel(started, 11);
    } else {
        lemma_start_stays((n - 1) as nat);
    }
}

/// State of the connection.
#[derive(Debug, Clone, Copy, PartialEq, Eq, Structural)]
pub enum LinkState {
    Connected,
    /// For a while: it may recover by itself.
    Disconnected,
    Failed,
    Closed,
    Other,
}

/// What to do about the connection.
#[derive(Debug, Clone, Copy, PartialEq, Eq, Structural)]
pub enum LinkAction {
    /// The phone is there.
    PhoneHere,
    /// The phone is gone.
    PhoneGone,
    /// Offer again, with new credentials; then look again after the grace time.
    Restart,
    /// End the session.
    Cancel,
}

/// Most restarts of a session.
pub const RESTARTS: u32 = 2;

/// Time given to a restart.
pub const GRACE: u64 = 15_000_000_000;

/// The connection of a session.
#[derive(Debug, Clone, Copy, PartialEq, Eq, Structural)]
pub struct PhoneLink {
    pub connected: bool,
    pub restarts: u32,
}

/// The connection after a change of state, and what to do. A failed connection is restarted, as
/// long as there is one to restart and it was not restarted too often.
pub open spec fn link_step(l: PhoneLink, state: LinkState, have_pc: bool) -> (
    PhoneLink,
    Seq<LinkAction>,
) {
    match state {
        LinkState::Connected => (
            PhoneLink { connected: true, ..l },
            seq![LinkAction::PhoneHere],
        ),
        LinkState::Disconnected => (PhoneLink { connected: false, ..l }, seq![]),
        LinkState::Failed => (
            PhoneLink { connected: false, restarts: l.restarts.wrapping_add(1) },
            seq![
                LinkAction::PhoneGone,
                if have_pc && l.restarts.wrapping_add(1) <= RESTARTS {
                    LinkAction::Restart
                } else {
                    LinkAction::Cancel
                },
            ],
        ),
        LinkState::Closed => (
            PhoneLink { connected: false, ..l },
            seq![LinkAction::PhoneGone, LinkAction::Cancel],
        ),
        LinkState::Other => (l, seq![]),
    }
}

impl PhoneLink {
    /// A new session.
    pub fn new() -> (r: Self)
        ensures
            r == (PhoneLink { connected: false, restarts: 0 }),
    {
        PhoneLink { connected: false, restarts: 0 }
    }

    /// The connection changed its state; `have_pc` where there is a connection to restart.
    pub fn on_connection_state_change(&mut self, state: LinkState, have_pc: bool) -> (r: Vec<
        LinkAction,
    >)
        ensures
            (*final(self), r@) == link_step(*old(self), state, have_pc),
    {
        let mut out: Vec<LinkAction> = Vec::new();
        match state {
            LinkState::Connected => {
                self.connected = true;
                out.push(LinkAction::PhoneHere);
            },
            LinkState::Disconnected => {
                self.connected = false;
            },
            LinkState::Failed => {
                self.connected = false;
                self.restarts = self.restarts.wrapping_add(1);
                out.push(LinkAction::PhoneGone);
                if have_pc && self.restarts <= RESTARTS {
                    out.push(LinkAction::Restart);
                } else {
                    out.push(LinkAction::Cancel);
                }
            },
            LinkState::Closed => {
                self.connected = false;
                out.push(LinkAction::PhoneGone);
                out.push(LinkAction::Cancel);
            },
            LinkState::Other => {},
        }
        assert(out@ =~= link_step(*old(self), state, have_pc).1);
        out
    }

    /// The grace time of a restart is over: without a connection the session ends.
    pub fn after_grace(&self) -> (r: Vec<LinkAction>)
        ensures
            r@ == (if self.connected {
                seq![]
            } else {
                seq![LinkAction::PhoneGone, LinkAction::Cancel]
            }),
    {
        let mut out: Vec<LinkAction> = Vec::new();
        if !self.connected {
            out.push(LinkAction::PhoneGone);
            out.push(LinkAction::Cancel);
        }
        out
    }
}

/// A connection that was restarted twice is not restarted again.
pub proof fn restarts_are_bounded(l: PhoneLink, have_pc: bool)
    requires
        RESTARTS <= l.restarts < u32::MAX,
    ensures
        link_step(l, LinkState::Failed, have_pc).1 == seq![
            LinkAction::PhoneGone,
            LinkAction::Cancel,
        ],
{
}

/// A short disconnection neither drops the phone nor ends the session.
pub proof fn short_disconnection_is_harmless(l: PhoneLink, have_pc: bool)
    ensures
        link_step(l, LinkState::Disconnected, have_pc).1.len() == 0,
        link_step(l, LinkState::Disconnected, have_pc).0.restarts == l.restarts,
{
}

/// What became of a picture, for the progress of the video.
#[derive(Debug, Clone, Copy, PartialEq, Eq, Structural)]
pub enum Decoding {
    Accepted,
    NeedKeyframe,
    Failed,
}

/// Window in which the packets of the received video are put back in order.
#[derive(Debug, Clone, Copy, PartialEq, Eq, Structural)]
pub struct ReorderWindow {
    /// Packets held back at most for one that is missing.
    pub packets: u16,
    /// How long they are held back at most, in milliseconds.
    pub delay_ms: u64,
    /// Ticks of the packets' clock in a second; never zero.
    pub clock_rate: u32,
}

/// Window for a track whose clock has this rate; a rate of zero counts as one.
pub fn reorder_window(clock_rate: u32) -> (r: ReorderWindow)
    ensures
        r == (ReorderWindow {
            packets: 2048,
            delay_ms: 200,
            clock_rate: if clock_rate == 0 {
                1
            } else {
                clock_rate
            },
        }),
{
    let rate: u32 = if clock_rate == 0 {
        1
    } else {
        clock_rate
    };
    ReorderWindow { packets: 2048, delay_ms: 200, clock_rate: rate }
}

/// Progress of the received video.
#[derive(Debug, Clone, Copy, PartialEq, Eq, Structural)]
pub struct VideoIntake {
    pub packets: u64,
    /// Something was decoded.
    pub started: bool,
    pub waiting_idr: bool,
    /// A key frame has to be asked for.
    pub keyframe_needed: bool,
}

/// Packets lost before a picture: those missing, without the padding among them.
pub open spec fn lost_packets(dropped: u16, padding: u16) -> int {
    if dropped > padding {
        dropped - padding
    } else {
        0
    }
}

/// The progress after a picture was given to the decoder.
pub open spec fn taken_in(v: VideoIntake, lost: int, result: Decoding) -> VideoIntake {
    VideoIntake {
        packets: v.packets,
        started: v.started || result == Decoding::Accepted,
        waiting_idr: match result {
            Decoding::Accepted => false,
            Decoding::NeedKeyframe => true,
            Decoding::Failed => v.waiting_idr,
        },
        keyframe_needed: v.keyframe_needed || lost > 0 || result != Decoding::Accepted,
    }
}

impl VideoIntake {
    /// Nothing came yet.
    pub fn new() -> (r: Self)
        ensures
            r == (VideoIntake {
                packets: 0,
                started: false,
                waiting_idr: false,
                keyframe_needed: false,
            }),
    {
        VideoIntake { packets: 0, started: false, waiting_idr: false, keyframe_needed: false }
    }

    /// A packet came; true for the first.
    pub fn packet(&mut self) -> (r: bool)
        requires
            old(self).packets < u64::MAX,
        ensures
            r == (old(self).packets == 0),
            *final(self) == (VideoIntake {
                packets: (old(self).packets + 1) as u64,
                ..*old(self)
            }),
    {
        self.packets += 1;
        self.packets == 1
    }

    /// Packets lost before a picture that came: the decoder has to be told where there are some.
    pub fn lost(&self, dropped: u16, padding: u16) -> (r: u16)
        ensures
            r == lost_packets(dropped, padding),
    {
        if dropped > padding {
            dropped - padding
        } else {
            0
        }
    }

    /// A picture was given to the decoder, after this many lost packets.
    pub fn picture(&mut self, lost: u16, result: Decoding)
        ensures
            *final(self) == taken_in(*old(self), lost as int, result),
    {
        if lost > 0 {
            self.keyframe_needed = true;
        }
        match result {
            Decoding::Accepted => {
                self.started = true;
                self.waiting_idr = false;
            },
            Decoding::NeedKeyframe => {
                self.waiting_idr = true;
                self.keyframe_needed = true;
            },
            Decoding::Failed => {
                self.keyframe_needed = true;
            },
        }
    }

    /// Whether a key frame has to be asked for; the answer is given once.
    pub fn take_keyframe_needed(&mut self) -> (r: bool)
        ensures
            r == old(self).keyframe_needed,
            *final(self) == (VideoIntake { keyframe_needed: false, ..*old(self) }),
    {
        let needed = self.keyframe_needed;
        self.keyframe_needed = false;
        needed
    }
}

/// Padding, which probes the bitrate, never counts as a loss.
pub proof fn padding_is_no_loss(dropped: u16, padding: u16)
    requires
        dropped <= padding,
    ensures
        lost_packets(dropped, padding) == 0,
{
}

/// Every loss and every picture that could not be decoded has a key frame asked for.
pub proof fn trouble_asks_for_a_key_frame(v: VideoIntake, lost: int, result: Decoding)
    requires
        lost > 0 || result != Decoding::Accepted,
    ensures
        taken_in(v, lost, result).keyframe_needed,
{
}

/// When a picture is shown: as late after its arrival as the sound is.
pub fn present_at(arrived: u64, av_offset_ms: u32) -> (r: u64)
    requires
        arrived + av_offset_ms * MS <= u64::MAX,
    ensures
        r == arrived + av_offset_ms * MS,
{
    arrived + av_offset_ms as u64 * MS
}

/// Counters of the received video.
pub struct Inbound {
    pub codec: String,
    pub bytes: u64,
    pub packets_received: u64,
    /// Negative where packets came twice.
    pub packets_lost: i64,
    pub jitter_bits: u64,
    pub nack_count: u32,
    pub pli_count: u32,
}

/// Bytes and time of the last reading of the counters.
pub struct RtpMeter {
    pub last: Option<(u64, u64)>,
}

/// Bytes received since the last reading, and the time that took, a millisecond at least.
pub open spec fn bitrate_since(last: Option<(u64, u64)>, now: u64, bytes: u64) -> (int, int) {
    match last {
        Some((t, b)) => (
            if bytes > b {
                bytes - b
            } else {
                0
            },
            if passed(t, now) > MS {
                passed(t, now)
            } else {
                MS as int
            },
        ),
        None => (0, MS as int),
    }
}

/// Packets that were lost for good.
pub open spec fn lost_for_good(lost: i64) -> int {
    if lost > 0 {
        lost as int
    } else {
        0
    }
}

impl RtpMeter {
    /// Nothing was read yet.
    pub fn new() -> (r: Self)
        ensures
            r.last is None,
    {
        RtpMeter { last: None }
    }

    /// Reads the counters.
    pub fn read(&mut self, now: u64, c: Inbound) -> (r: RtpStats)
        requires
            c.packets_received + lost_for_good(c.packets_lost) <= u64::MAX,
        ensures
            final(self).last == Some((now, c.bytes)),
            r.codec == c.codec,
            r.bitrate.0 == bitrate_since(old(self).last, now, c.bytes).0,
            r.bitrate.1 == bitrate_since(old(self).last, now, c.bytes).1,
            r.packets_received == c.packets_received,
            r.packets_lost == c.packets_lost,
            r.loss.0 == lost_for_good(c.packets_lost),
            r.loss.1 == c.packets_received + lost_for_good(c.packets_lost),
            r.jitter_bits == c.jitter_bits,
            r.nack_count == c.nack_count,
            r.pli_count == c.pli_count,
            r.rtt_ms_bits is None,
    {
        let bitrate: (u64, u64) = match self.last {
            Some((t, b)) => {
                let more: u64 = if c.bytes > b {
                    c.bytes - b
                } else {
                    0
                };
                let dt: u64 = if now > t && now - t > MS {
                    now - t
                } else {
                    MS
                };
                (more, dt)
            },
            None => (0, MS),
        };
        self.last = Some((now, c.bytes));
        let lost: u64 = if c.packets_lost > 0 {
            c.packets_lost as u64
        } else {
            0
        };
        RtpStats {
            codec: c.codec,
            bitrate,
            packets_received: c.packets_received,
            packets_lost: c.packets_lost,
            loss: (lost, c.packets_received + lost),
            jitter_bits: c.jitter_bits,
            nack_count: c.nack_count,
            pli_count: c.pli_count,
            rtt_ms_bits: None,
        }
    }
}

/// The share of lost packets is never more than all of them.
pub proof fn loss_is_a_share(received: u64, lost: i64)
    ensures
        0 <= lost_for_good(lost) <= received + lost_for_good(lost),
{
}

/// Sound is always decoded; a picture is where the name of its codec holds `h264`, in lower case,
/// at its own clock rate; any other picture, and one whose codec is not known, is left alone.
pub proof fn known_tracks_are_decoded(mime: Seq<char>, rate: u32, codec: Option<(Seq<char>, u32)>)
    ensures
        track_plan(TrackKind::Audio, codec) == TrackPlan::Sound,
        strings::has_text(strings::lowercase(mime), "h264"@) ==> track_plan(
            TrackKind::Video,
            Some((mime, rate)),
        ) == (TrackPlan::Picture { clock_rate: rate }),
        !strings::has_text(strings::lowercase(mime), "h264"@) ==> track_plan(
            TrackKind::Video,
            Some((mime, rate)),
        ) == TrackPlan::Ignore,
        track_plan(TrackKind::Video, None) == TrackPlan::Ignore,
{
}

/// While the stream is watched a key frame is asked for after a break, 300 ms after the last
/// request; else for want of pictures, after two seconds; else when the interval is over, if there
/// is one. Otherwise it is looked at again in 100 ms, and nothing changes.
pub proof fn trouble_is_asked_about_in_time(
    last: u64,
    decoded: bool,
    needed: bool,
    starved: bool,
    interval_s: u32,
    now: u64,
)
    ensures
        ({
            let w = woken(
                Requests::Watching { last },
                decoded,
                needed,
                starved,
                interval_s,
                now,
            );
            let broken = needed && now >= last + 300_000_000;
            let hungry = !broken && starved && now >= last + 2_000_000_000;
            let due = !broken && !hungry && interval_s > 0 && now >= last + interval_s
                * 1_000_000_000;
            &&& broken ==> w.1 == Next::Request(Reason::Broken)
            &&& hungry ==> w.1 == Next::Request(Reason::Starved)
            &&& due ==> w.1 == Next::Request(Reason::Safety)
            &&& broken || hungry || due ==> w.0 == (Requests::Watching { last: now })
            &&& !broken && !hungry && !due ==> w == (
                Requests::Watching { last },
                Next::Wait(100_000_000),
            )
        }),
{
}

/// At the start a key frame is asked for until something is decoded, ten times at most; then the
/// stream is watched from now on.
pub proof fn start_asks_until_something_is_decoded(
    tries: u8,
    decoded: bool,
    needed: bool,
    starved: bool,
    interval_s: u32,
    now: u64,
)
    ensures
        ({
            let w = woken(
                Requests::Starting { tries },
                decoded,
                needed,
                starved,
                interval_s,
                now,
            );
            &&& tries < 10 && !decoded ==> w == (
                Requests::Starting { tries },
                Next::Request(Reason::Start),
            )
            &&& tries >= 10 || decoded ==> w == (
                Requests::Watching { last: now },
                Next::Wait(100_000_000),
            )
        }),
        woken(Requests::Over, decoded, needed, starved, interval_s, now) == (
            Requests::Over,
            Next::Stop,
        ),
{
}

/// A request that was sent is counted at the start, where the next one follows half a second
/// later, and looked after in 100 ms once the stream is watched; one that cannot be sent ends the
/// requests.
pub proof fn sent_requests_are_followed_up(tries: u8, last: u64, r: Requests)
    requires
        tries < 10,
    ensures
        sent(Requests::Starting { tries }, true) == (
            Requests::Starting { tries: (tries + 1) as u8 },
            Next::Wait(500_000_000),
        ),
        sent(Requests::Watching { last }, true) == (
            Requests::Watching { last },
            Next::Wait(100_000_000),
        ),
        sent(r, false) == (Requests::Over, Next::Stop),
        sent(Requests::Over, true) == (Requests::Over, Next::Stop),
{
}

/// A connection that comes up has the phone shown; one that fails has it taken away and is
/// restarted, twice at most and where there is something to restart, and ended otherwise; one that
/// is closed ends the session. A short disconnection and any other state are waited out.
pub proof fn broken_connections_are_restarted(l: PhoneLink, have_pc: bool)
    ensures
        link_step(l, LinkState::Connected, have_pc) == (
            PhoneLink { connected: true, restarts: l.restarts },
            seq![LinkAction::PhoneHere],
        ),
        link_step(l, LinkState::Disconnected, have_pc) == (
            PhoneLink { connected: false, restarts: l.restarts },
            Seq::<LinkAction>::empty(),
        ),
        link_step(l, LinkState::Closed, have_pc) == (
            PhoneLink { connected: false, restarts: l.restarts },
            seq![LinkAction::PhoneGone, LinkAction::Cancel],
        ),
        link_step(l, LinkState::Other, have_pc) == (l, Seq::<LinkAction>::empty()),
        l.restarts < 2 && have_pc ==> link_step(l, LinkState::Failed, have_pc) == (
            PhoneLink { connected: false, restarts: (l.restarts + 1) as u32 },
            seq![LinkAction::PhoneGone, LinkAction::Restart],
        ),
        2 <= l.restarts < u32::MAX || !have_pc ==> link_step(l, LinkState::Failed, have_pc).1
            == seq![LinkAction::PhoneGone, LinkAction::Cancel],
        !link_step(l, LinkState::Failed, have_pc).0.connected,
        l.restarts < u32::MAX ==> link_step(l, LinkState::Failed, have_pc).0.restarts == l.restarts
            + 1,
{
}

/// Once its time is over, a restart that did not reconnect ends the session, and one that did is
/// left alone.
pub proof fn vain_restarts_end_the_session(l: PhoneLink, r: Vec<LinkAction>)
    requires
        call_ensures(PhoneLink::after_grace, (&l,), r),
    ensures
        l.connected ==> r@.len() == 0,
        !l.connected ==> r@ == seq![LinkAction::PhoneGone, LinkAction::Cancel],
{
}

/// Packets are held back for a missing one in a window of 2048 packets and 200 ms, at the clock of
/// their track.
pub proof fn packets_are_reordered_in_a_window(clock_rate: u32, r: ReorderWindow)
    requires
        call_ensures(reorder_window, (clock_rate,), r),
    ensures
        r.packets == 2048,
        r.delay_ms == 200,
        clock_rate > 0 ==> r.clock_rate == clock_rate,
        clock_rate == 0 ==> r.clock_rate == 1,
{
}

/// Packets lost are those missing that were not padding.
pub proof fn losses_leave_padding_out(dropped: u16, padding: u16)
    requires
        dropped >= padding,
    ensures
        lost_packets(dropped, padding) == dropped - padding,
{
}

/// A picture that was accepted starts the video and ends the wait for a key frame; one that needs a
/// key frame begins it; a failure leaves both alone. A sound picture without a loss asks for
/// nothing new, and what was asked for stays.
pub proof fn pictures_move_the_intake(v: VideoIntake, lost: int, result: Decoding)
    ensures
        ({
            let t = taken_in(v, lost, result);
            &&& t.packets == v.packets
            &&& result == Decoding::Accepted ==> t.started && !t.waiting_idr
            &&& result == Decoding::NeedKeyframe ==> t.started == v.started && t.waiting_idr
            &&& result == Decoding::Failed ==> t.started == v.started && t.waiting_idr
                == v.waiting_idr
            &&& result == Decoding::Accepted && lost <= 0 ==> t.keyframe_needed
                == v.keyframe_needed
            &&& v.keyframe_needed ==> t.keyframe_needed
        }),
{
}

/// A picture is shown as many milliseconds after it came as the sound is late.
pub proof fn pictures_wait_for_the_sound(arrived: u64, av_offset_ms: u32, r: u64)
    requires
        call_ensures(present_at, (arrived, av_offset_ms), r),
    ensures
        r == arrived + av_offset_ms * 1_000_000,
{
}

/// The bitrate counts the bytes since the last reading over the time since then, a millisecond at
/// least; counters that went back, and the first reading, count none. Packets that came twice are
/// no loss.
pub proof fn bitrates_are_measured_between_readings(t: u64, b: u64, now: u64, bytes: u64, lost: i64)
    ensures
        bytes >= b ==> bitrate_since(Some((t, b)), now, bytes).0 == bytes - b,
        bytes <= b ==> bitrate_since(Some((t, b)), now, bytes).0 == 0,
        now >= t + 1_000_000 ==> bitrate_since(Some((t, b)), now, bytes).1 == now - t,
        now <= t + 1_000_000 ==> bitrate_since(Some((t, b)), now, bytes).1 == 1_000_000,
        bitrate_since(None, now, bytes) == (0int, 1_000_000int),
        lost >= 0 ==> lost_for_good(lost) == lost,
        lost <= 0 ==> lost_for_good(lost) == 0,
{
}

/// A session is closed once.
pub proof fn sessions_are_closed_once(
    s: &mut PhoneSession,
    first: bool,
    t: &mut PhoneSession,
    second: bool,
)
    requires
        call_ensures(PhoneSession::close, (s,), first),
        *old(t) == *final(s),
        call_ensures(PhoneSession::close, (t,), second),
    ensures
        first <==> !old(s).closed,
        final(s).closed && final(t).closed,
        !second,
        final(s).name == old(s).name,
{
}

/// An offer goes out as it is, with the start bitrate announced where one is configured.
pub proof fn offers_announce_the_start(sdp: &str, kbps: u32, r: ServerMsg)
    requires
        call_ensures(offer_message, (sdp, kbps), r),
    ensures
        r is Offer,
        kbps == 0 ==> r->sdp@ == sdp@,
        kbps > 0 ==> r->sdp@ == h264::announced(sdp@, h264::start_note(kbps)),
{
}

/// A candidate goes out for its media line, the first where none is named; one that comes in is for
/// the line it names, as far as that fits in 16 bits.
pub proof fn candidates_name_their_line(
    candidate: String,
    mline: Option<u16>,
    r: ServerMsg,
    given: u32,
    line: u16,
)
    requires
        call_ensures(candidate_message, (candidate, mline), r),
        call_ensures(candidate_line, (given,), line),
    ensures
        mline is Some ==> r == (ServerMsg::Ice { candidate, sdp_m_line_index: mline->0 as u32 }),
        mline is None ==> r == (ServerMsg::Ice { candidate, sdp_m_line_index: 0 }),
        given < 0x1_0000 ==> line == given,
{
}

/// A track is decoded as a picture exactly where its codec is H264.
pub proof fn h264_tracks_are_pictures(mime: &str, clock_rate: u32, r: TrackPlan)
    requires
        call_ensures(on_video_track, (mime, clock_rate), r),
    ensures
        strings::has_text(mime@, "h264"@) ==> r == (TrackPlan::Picture { clock_rate }),
        !strings::has_text(mime@, "h264"@) ==> r == TrackPlan::Ignore,
{
}

/// The first packet of a stream is noticed; each is counted.
pub proof fn packets_are_counted(v: &mut VideoIntake, r: bool)
    requires
        old(v).packets < u64::MAX,
        call_ensures(VideoIntake::packet, (v,), r),
    ensures
        r <==> old(v).packets == 0,
        final(v).packets == old(v).packets + 1,
        final(v).started == old(v).started && final(v).waiting_idr == old(v).waiting_idr,
        final(v).keyframe_needed == old(v).keyframe_needed,
{
}

/// A key frame that is needed is asked for once.
pub proof fn needed_key_frames_are_taken_once(
    v: &mut VideoIntake,
    r: bool,
    w: &mut VideoIntake,
    q: bool,
)
    requires
        call_ensures(VideoIntake::take_keyframe_needed, (v,), r),
        *old(w) == *final(v),
        call_ensures(VideoIntake::take_keyframe_needed, (w,), q),
    ensures
        r <==> old(v).keyframe_needed,
        !q,
        final(v).packets == old(v).packets && final(v).started == old(v).started,
        final(v).waiting_idr == old(v).waiting_idr,
{
}

/// A reading tells what came in as it was counted, and keeps when it was made.
pub proof fn readings_tell_what_came_in(m: &mut RtpMeter, now: u64, c: Inbound, r: RtpStats)
    requires
        call_ensures(RtpMeter::read, (m, now, c), r),
    ensures
        final(m).last == Some((now, c.bytes)),
        r.codec == c.codec,
        r.packets_received == c.packets_received && r.packets_lost == c.packets_lost,
        c.packets_lost >= 0 ==> r.loss.0 == c.packets_lost && r.loss.1 == c.packets_received
            + c.packets_lost,
        c.packets_lost < 0 ==> r.loss.0 == 0 && r.loss.1 == c.packets_received,
        r.jitter_bits == c.jitter_bits && r.nack_count == c.nack_count && r.pli_count
            == c.pli_count,
        r.rtt_ms_bits is None,
{
}

/// Everything begins at the start: no packets, no requests, no connection.
pub proof fn intakes_begin_empty(v: VideoIntake, q: Requests, l: PhoneLink, m: RtpMeter)
    requires
        call_ensures(VideoIntake::new, (), v),
        call_ensures(Requests::new, (), q),
        call_ensures(PhoneLink::new, (), l),
        call_ensures(RtpMeter::new, (), m),
    ensures
        v.packets == 0 && !v.started && !v.waiting_idr && !v.keyframe_needed,
        q == (Requests::Starting { tries: 0 }),
        !l.connected && l.restarts == 0,
        m.last is None,
{
}

} // verus!
