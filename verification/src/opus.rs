//! Opus audio: what to make of each incoming packet, when sending may begin, encoder settings.

use crate::h264::RtpCodec;
use crate::strings;
use vstd::prelude::*;

verus! {

/// Sampling rate of the tracks.
pub const SAMPLE_RATE: u32 = 48_000;

/// Samples of a frame: 20 ms of stereo.
pub const FRAME_SAMPLES: usize = 1920;

/// Duration of a frame, in milliseconds.
pub const FRAME_MS: u64 = 20;

/// Samples per channel of the longest packet (120 ms).
pub const MAX_PER_CHANNEL: usize = 5760;

/// Codec description of the local track (48 kHz stereo).
pub fn codec() -> (r: RtpCodec)
    ensures
        r@.mime_type == "audio/opus"@,
        r@.clock_rate == 48_000,
        r@.channels == 2,
        r@.fmtp == Seq::<char>::empty(),
        r@.feedback.len() == 0,
{
    RtpCodec {
        mime_type: strings::text("audio/opus"),
        clock_rate: SAMPLE_RATE,
        channels: 2,
        sdp_fmtp_line: String::new(),
        rtcp_feedback: Vec::new(),
    }
}

/// What the encoder is tuned for.
#[derive(Debug, Clone, Copy, PartialEq, Eq, Structural)]
pub enum Application {
    /// Speech.
    Voip,
    /// Fidelity.
    Audio,
}

/// Encoder settings of a track.
#[derive(Debug, Clone, Copy)]
pub struct EncoderOptions {
    /// Target bitrate (bit/s).
    pub bitrate: i32,
    pub application: Application,
    /// Name for the logs.
    pub label: &'static str,
}

/// Everything the encoder is set to.
#[derive(Debug, Clone, Copy, PartialEq, Eq, Structural)]
pub struct EncoderSettings {
    pub bitrate: i32,
    pub application: Application,
    pub inband_fec: bool,
    pub packet_loss_perc: i32,
    pub dtx: bool,
}

/// Settings of the encoder: redundancy in band for one packet in ten, no silence suppression.
pub fn encoder_settings(opts: &EncoderOptions) -> (r: EncoderSettings)
    ensures
        r == (EncoderSettings {
            bitrate: opts.bitrate,
            application: opts.application,
            inband_fec: true,
            packet_loss_perc: 10,
            dtx: false,
        }),
{
    EncoderSettings {
        bitrate: opts.bitrate,
        application: opts.application,
        inband_fec: true,
        packet_loss_perc: 10,
        dtx: false,
    }
}

/// Waits until a sender can write: payload type negotiated and transport up.
#[derive(Debug, Clone, Copy, PartialEq, Eq, Structural)]
pub struct PayloadWait {
    pub payload_type: Option<u8>,
}

/// What to do next while waiting.
#[derive(Debug, Clone, Copy, PartialEq, Eq, Structural)]
pub enum WaitStep {
    Cancelled,
    Ready(u8),
    /// Look again in 100 ms.
    Again,
}

impl PayloadWait {
    /// Nothing negotiated yet.
    pub fn new() -> (r: Self)
        ensures
            r.payload_type is None,
    {
        PayloadWait { payload_type: None }
    }

    /// Takes what is negotiated (looked at only as long as nothing was) and whether the transport
    /// is connected.
    pub fn step(&mut self, cancelled: bool, negotiated: Option<u8>, connected: bool) -> (r: WaitStep)
        ensures
            cancelled ==> r == WaitStep::Cancelled && *final(self) == *old(self),
            !cancelled ==> {
                &&& final(self).payload_type == (if old(self).payload_type is Some {
                    old(self).payload_type
                } else {
                    negotiated
                })
                &&& r == (match final(self).payload_type {
                    Some(pt) if connected => WaitStep::Ready(pt),
                    _ => WaitStep::Again,
                })
            },
    {
        if cancelled {
            return WaitStep::Cancelled;
        }
        if self.payload_type.is_none() {
            self.payload_type = negotiated;
        }
        match self.payload_type {
            Some(pt) => if connected {
                WaitStep::Ready(pt)
            } else {
                WaitStep::Again
            },
            None => WaitStep::Again,
        }
    }
}

/// State of a decoder that follows the sequence numbers.
#[derive(Debug, Clone, Copy, PartialEq, Eq, Structural)]
pub struct Sequence {
    pub last_seq: Option<u16>,
    /// Samples per channel of the last decoded packet.
    pub last_per_ch: usize,
    /// Frames made up so far.
    pub concealed: u64,
}

/// How to decode a packet: first `conceal` frames made up, then one from the packet's redundancy
/// where `recover`, both of `frame` samples; then the packet itself.
#[derive(Debug, Clone, Copy, PartialEq, Eq, Structural)]
pub struct PacketPlan {
    pub conceal: usize,
    pub recover: bool,
    pub frame: usize,
}

/// Distance from one sequence number forward to another, around the end of the range.
pub open spec fn distance(from: u16, to: u16) -> int {
    if to >= from {
        to - from
    } else {
        to - from + 0x1_0000
    }
}

/// Packets missing before `seq`; none where `seq` does not come after the last packet.
pub open spec fn missing(last: Option<u16>, seq: u16) -> Option<int> {
    match last {
        Some(prev) => {
            let d = distance(prev, seq);
            if d == 0 || d >= 0x8000 {
                None
            } else {
                Some(d - 1)
            }
        },
        None => Some(0),
    }
}

/// The plan for a packet after `lost` missing ones: a gap of one to three is filled.
pub open spec fn gap_plan(lost: int) -> (int, bool) {
    if 1 <= lost <= 3 {
        (lost - 1, true)
    } else {
        (0, false)
    }
}

impl Sequence {
    /// No packet yet; frames of 20 ms until told otherwise.
    pub fn new() -> (r: Self)
        ensures
            r == (Sequence { last_seq: None, last_per_ch: 960, concealed: 0 }),
    {
        Sequence { last_seq: None, last_per_ch: 960, concealed: 0 }
    }

    /// Plans a packet; none where it is a duplicate or came out of order.
    pub fn packet(&mut self, seq: u16) -> (r: Option<PacketPlan>)
        requires
            old(self).last_per_ch <= MAX_PER_CHANNEL,
            old(self).concealed <= u64::MAX - 3,
        ensures
            (match missing(old(self).last_seq, seq) {
                Some(lost) => {
                    &&& r is Some
                    &&& (r->0.conceal as int, r->0.recover) == gap_plan(lost)
                    &&& r->0.frame == old(self).last_per_ch * 2
                    &&& final(self).last_seq == Some(seq)
                    &&& final(self).concealed == old(self).concealed + r->0.conceal + (
                    if r->0.recover {
                        1int
                    } else {
                        0
                    })
                    &&& final(self).last_per_ch == old(self).last_per_ch
                },
                None => r is None && *final(self) == *old(self),
            }),
    {
        let mut conceal: usize = 0;
        let mut recover = false;
        if let Some(prev) = self.last_seq {
            let d: u16 = seq.wrapping_sub(prev);
            assert(d == distance(prev, seq));
            if d == 0 || d >= 0x8000 {
                return None;
            }
            let lost: u16 = d - 1;
            if 1 <= lost && lost <= 3 {
                conceal = (lost - 1) as usize;
                recover = true;
                self.concealed = self.concealed + lost as u64;
            }
        }
        self.last_seq = Some(seq);
        Some(PacketPlan { conceal, recover, frame: self.last_per_ch * 2 })
    }

    /// Books the size of a decoded packet, at least one sample per channel.
    pub fn decoded(&mut self, per_ch: usize)
        requires
            per_ch <= MAX_PER_CHANNEL,
        ensures
            final(self).last_per_ch <= MAX_PER_CHANNEL,
            *final(self) == (Sequence {
                last_per_ch: if per_ch == 0 {
                    1
                } else {
                    per_ch
                },
                ..*old(self)
            }),
    {
        self.last_per_ch = if per_ch == 0 {
            1
        } else {
            per_ch
        };
    }
}

/// The filled gap has as many frames as packets are missing, for one to three of them.
pub proof fn short_gaps_are_filled(last: Option<u16>, seq: u16)
    requires
        missing(last, seq) is Some,
        missing(last, seq)->0 <= 3,
    ensures
        gap_plan(missing(last, seq)->0).0 + (if gap_plan(missing(last, seq)->0).1 {
            1int
        } else {
            0
        }) == missing(last, seq)->0,
{
}

/// A packet that was taken makes itself and everything up to half the range before it stale.
pub proof fn stale_packets_are_ignored(seq: u16, earlier: u16)
    requires
        distance(earlier, seq) <= 0x8000,
    ensures
        missing(Some(seq), earlier) is None,
{
}

/// Sequence numbers count on around the end of their range: the number `n` places further is at
/// distance `n`.
pub proof fn distances_wrap_around(from: u16, n: u16)
    ensures
        distance(from, ((from + n) % 0x1_0000) as u16) == n,
        0 <= distance(from, n) < 0x1_0000,
{
}

/// After a packet, the one that comes `n + 1` places further tells that `n` were lost, up to half
/// the range; a packet again, or one from before, is not taken. The first packet of all has lost
/// none.
pub proof fn gaps_are_counted(prev: u16, n: u16, seq: u16)
    ensures
        n + 1 < 0x8000 ==> missing(Some(prev), ((prev + n + 1) % 0x1_0000) as u16) == Some(
            n as int,
        ),
        missing(Some(prev), prev) is None,
        0x8000 <= n ==> missing(Some(prev), ((prev + n) % 0x1_0000) as u16) is None,
        missing(None, seq) == Some(0int),
{
}

/// One lost packet is recovered from the redundancy of the next; of two or three, all but the last
/// are made up; a longer gap, and no gap, are left alone.
pub proof fn gaps_are_filled_in_order(lost: int)
    ensures
        lost == 1 ==> gap_plan(lost) == (0int, true),
        lost == 2 ==> gap_plan(lost) == (1int, true),
        lost == 3 ==> gap_plan(lost) == (2int, true),
        lost <= 0 || lost > 3 ==> gap_plan(lost) == (0int, false),
{
}

/// A track is encoded as asked for, with redundancy in band for one packet in ten and without
/// silence suppression.
pub proof fn tracks_are_encoded_with_redundancy(opts: EncoderOptions, r: EncoderSettings)
    requires
        call_ensures(encoder_settings, (&opts,), r),
    ensures
        r.bitrate == opts.bitrate,
        r.application == opts.application,
        r.inband_fec,
        r.packet_loss_perc == 10,
        !r.dtx,
{
}

/// The payload type that was negotiated first is kept; sending begins once it is known and the call
/// is connected, and a cancelled wait ends.
pub proof fn payload_types_are_awaited(
    w: &mut PayloadWait,
    cancelled: bool,
    negotiated: Option<u8>,
    connected: bool,
    r: WaitStep,
)
    requires
        call_ensures(PayloadWait::step, (w, cancelled, negotiated, connected), r),
    ensures
        cancelled <==> r is Cancelled,
        old(w).payload_type is Some ==> final(w).payload_type == old(w).payload_type,
        !cancelled && old(w).payload_type is None ==> final(w).payload_type == negotiated,
        r is Ready <==> !cancelled && connected && (old(w).payload_type is Some
            || negotiated is Some),
        r is Ready && old(w).payload_type is Some ==> r->0 == old(w).payload_type->0,
        r is Ready && old(w).payload_type is None ==> r->0 == negotiated->0,
{
}

/// What is made up for missing packets is as long as the last packet; a packet without samples
/// counts as one.
pub proof fn gaps_are_as_long_as_packets(
    s: &mut Sequence,
    per_ch: usize,
    t: &mut Sequence,
    seq: u16,
    r: Option<PacketPlan>,
)
    requires
        per_ch <= MAX_PER_CHANNEL,
        call_ensures(Sequence::decoded, (s, per_ch), ()),
        *old(t) == *final(s),
        old(t).concealed <= u64::MAX - 3,
        call_ensures(Sequence::packet, (t, seq), r),
    ensures
        per_ch > 0 ==> final(s).last_per_ch == per_ch,
        per_ch == 0 ==> final(s).last_per_ch == 1,
        final(s).last_seq == old(s).last_seq && final(s).concealed == old(s).concealed,
        r is Some && per_ch > 0 ==> r->0.frame == per_ch * 2,
        r is Some ==> final(t).last_seq == Some(seq),
        r is Some && !r->0.recover ==> final(t).concealed == old(t).concealed + r->0.conceal,
        r is Some && r->0.recover ==> final(t).concealed == old(t).concealed + r->0.conceal + 1,
        r is None ==> *final(t) == *old(t),
{
}

/// A sequence begins without a packet, with frames of 20 ms at 48 kHz.
pub proof fn sequences_begin_with_20_ms(s: Sequence, c: RtpCodec, w: PayloadWait)
    requires
        call_ensures(Sequence::new, (), s),
        call_ensures(codec, (), c),
        call_ensures(PayloadWait::new, (), w),
    ensures
        s.last_seq is None && s.last_per_ch == 960 && s.concealed == 0,
        c@.mime_type == "audio/opus"@ && c@.clock_rate == 48_000 && c@.channels == 2,
        w.payload_type is None,
{
}

} // verus!
