//! H.264 over WebRTC: negotiated codec parameters, announced bitrate, Annex-B framing.

use crate::strings;
use vstd::prelude::*;

verus! {

/// One RTCP feedback mechanism of a codec.
pub struct RtcpFeedback {
    pub typ: String,
    pub parameter: String,
}

/// Codec description, as a media session negotiates it.
pub struct RtpCodec {
    pub mime_type: String,
    pub clock_rate: u32,
    pub channels: u16,
    pub sdp_fmtp_line: String,
    pub rtcp_feedback: Vec<RtcpFeedback>,
}

/// A codec under its RTP payload type.
pub struct RtpCodecParameters {
    pub rtp_codec: RtpCodec,
    pub payload_type: u8,
}

/// What a codec description says.
pub struct CodecView {
    pub mime_type: Seq<char>,
    pub clock_rate: u32,
    pub channels: u16,
    pub fmtp: Seq<char>,
    pub feedback: Seq<(Seq<char>, Seq<char>)>,
}

impl View for RtcpFeedback {
    type V = (Seq<char>, Seq<char>);

    open spec fn view(&self) -> (Seq<char>, Seq<char>) {
        (self.typ@, self.parameter@)
    }
}

impl View for RtpCodec {
    type V = CodecView;

    open spec fn view(&self) -> CodecView {
        CodecView {
            mime_type: self.mime_type@,
            clock_rate: self.clock_rate,
            channels: self.channels,
            fmtp: self.sdp_fmtp_line@,
            feedback: self.rtcp_feedback@.map_values(|f: RtcpFeedback| f@),
        }
    }
}

/// Feedback mechanisms declared for H.264.
pub open spec fn h264_feedback() -> Seq<(Seq<char>, Seq<char>)> {
    seq![
        ("goog-remb"@, ""@),
        ("ccm"@, "fir"@),
        ("nack"@, ""@),
        ("nack"@, "pli"@),
        ("transport-cc"@, ""@),
    ]
}

fn feedback(typ: &str, parameter: &str) -> (r: RtcpFeedback)
    ensures
        r@ == (typ@, parameter@),
{
    RtcpFeedback { typ: strings::text(typ), parameter: strings::text(parameter) }
}

/// RTCP feedback declared on H.264.
pub fn rtcp_feedback() -> (r: Vec<RtcpFeedback>)
    ensures
        r@.map_values(|f: RtcpFeedback| f@) == h264_feedback(),
{
    let mut out: Vec<RtcpFeedback> = Vec::new();
    out.push(feedback("goog-remb", ""));
    out.push(feedback("ccm", "fir"));
    out.push(feedback("nack", ""));
    out.push(feedback("nack", "pli"));
    out.push(feedback("transport-cc", ""));
    out
}

/// The fmtp line of a `profile-level-id`.
pub open spec fn fmtp_line(profile_level_id: Seq<char>) -> Seq<char> {
    "level-asymmetry-allowed=1;packetization-mode=1;profile-level-id="@ + profile_level_id
}

/// Standard H.264 fmtp line for a given `profile-level-id`.
pub fn fmtp(profile_level_id: &str) -> (r: String)
    ensures
        r@ == fmtp_line(profile_level_id@),
{
    let mut out = strings::text("level-asymmetry-allowed=1;packetization-mode=1;profile-level-id=");
    out.append(profile_level_id);
    out
}

/// H.264 at 90 kHz with a given fmtp line.
pub open spec fn h264_codec(fmtp: Seq<char>) -> CodecView {
    CodecView {
        mime_type: "video/H264"@,
        clock_rate: 90000,
        channels: 0,
        fmtp,
        feedback: h264_feedback(),
    }
}

/// H.264 codec description (90 kHz) with the given fmtp line.
pub fn codec(sdp_fmtp_line: &str) -> (r: RtpCodec)
    ensures
        r@ == h264_codec(sdp_fmtp_line@),
{
    RtpCodec {
        mime_type: strings::text("video/H264"),
        clock_rate: 90000,
        channels: 0,
        sdp_fmtp_line: strings::text(sdp_fmtp_line),
        rtcp_feedback: rtcp_feedback(),
    }
}

/// The profiles the switcher can decode, with their payload types, in default order.
pub open spec fn base_profiles() -> Seq<(Seq<char>, u8)> {
    seq![("42e01f"@, 125u8), ("42001f"@, 102u8), ("640032"@, 123u8)]
}

/// Whether the fmtp line of profile `i` of the default order names the profile `wanted`.
pub open spec fn names_profile(i: int, wanted: Seq<char>) -> bool {
    strings::has_text(fmtp_line(base_profiles()[i].0), "profile-level-id="@ + wanted)
}

/// Payload type of a profile that is not in the default order: one that no default codec has.
pub const OWN_PAYLOAD_TYPE: u8 = 112;

/// The default order with the first profile that `wanted` names moved to the front; where it
/// names none of them, `wanted` itself goes before them.
pub open spec fn preferred_profiles(wanted: Seq<char>) -> Seq<(Seq<char>, u8)> {
    let b = base_profiles();
    if names_profile(0, wanted) {
        b
    } else if names_profile(1, wanted) {
        seq![b[1], b[0], b[2]]
    } else if names_profile(2, wanted) {
        seq![b[2], b[0], b[1]]
    } else {
        seq![(wanted, OWN_PAYLOAD_TYPE), b[0], b[1], b[2]]
    }
}

/// Whatever profile is configured, it heads the offer, and the default profiles are all offered,
/// each under a payload type of its own.
pub proof fn configured_profile_heads_the_offer(wanted: Seq<char>)
    ensures
        ({
            let order = preferred_profiles(wanted);
            &&& strings::has_text(fmtp_line(order[0].0), "profile-level-id="@ + wanted)
            &&& forall|i: int|
                0 <= i < 3 ==> order.contains(#[trigger] base_profiles()[i])
            &&& forall|i: int, j: int|
                0 <= i < j < order.len() ==> (#[trigger] order[i]).1 != (#[trigger] order[j]).1
        }),
{
    let order = preferred_profiles(wanted);
    let b = base_profiles();
    if !names_profile(0, wanted) && !names_profile(1, wanted) && !names_profile(2, wanted) {
        reveal_strlit("level-asymmetry-allowed=1;packetization-mode=1;profile-level-id=");
        reveal_strlit("profile-level-id=");
        let line = fmtp_line(wanted);
        let needle = "profile-level-id="@ + wanted;
        let at = line.len() - needle.len();
        assert(line.subrange(at, at + needle.len()) =~= needle);
        assert(strings::occurs_at(line, needle, at));
        assert(order[1] == b[0] && order[2] == b[1] && order[3] == b[2]);
    } else if names_profile(0, wanted) {
        assert(order[0] == b[0] && order[1] == b[1] && order[2] == b[2]);
    } else if names_profile(1, wanted) {
        assert(order[0] == b[1] && order[1] == b[0] && order[2] == b[2]);
    } else {
        assert(order[0] == b[2] && order[1] == b[0] && order[2] == b[1]);
    }
}

fn offered(profile: &str, payload_type: u8) -> (r: RtpCodecParameters)
    ensures
        r.rtp_codec@ == h264_codec(fmtp_line(profile@)),
        r.payload_type == payload_type,
{
    let line = fmtp(profile);
    RtpCodecParameters { rtp_codec: codec(line.as_str()), payload_type }
}

fn fmtp_names(profile: &str, wanted: &[char]) -> (r: bool)
    ensures
        r == strings::has_text(fmtp_line(profile@), "profile-level-id="@ + wanted@),
{
    let line = fmtp(profile);
    let l = strings::chars_of(line.as_str());
    let mut needle = strings::chars_of("profile-level-id=");
    strings::append(&mut needle, wanted);
    strings::contains(l.as_slice(), needle.as_slice())
}

/// Video codecs offered: H.264 only, in `packetization-mode=1`, the configured profile first.
pub fn video_codec_preferences(profile_level_id: &str) -> (r: Vec<RtpCodecParameters>)
    ensures
        ({
            let order = preferred_profiles(strings::ascii_lowercase(strings::trim(profile_level_id@)));
            &&& r@.len() == order.len()
            &&& forall|i: int|
                0 <= i < r@.len() ==> {
                    &&& (#[trigger] r@[i]).rtp_codec@ == h264_codec(fmtp_line(order[i].0))
                    &&& r@[i].payload_type == order[i].1
                }
        }),
        r@.len() > 0,
        strings::has_text(
            r@[0].rtp_codec.sdp_fmtp_line@,
            "profile-level-id="@ + strings::ascii_lowercase(strings::trim(profile_level_id@)),
        ),
{
    proof {
        configured_profile_heads_the_offer(
            strings::ascii_lowercase(strings::trim(profile_level_id@)),
        );
    }
    let given = strings::chars_of(profile_level_id);
    let trimmed = strings::trim_of(given.as_slice());
    let wanted = strings::ascii_lowercase_of(trimmed.as_slice());
    let w = wanted.as_slice();
    let mut out: Vec<RtpCodecParameters> = Vec::new();
    if fmtp_names("42e01f", w) {
        out.push(offered("42e01f", 125));
        out.push(offered("42001f", 102));
        out.push(offered("640032", 123));
    } else if fmtp_names("42001f", w) {
        out.push(offered("42001f", 102));
        out.push(offered("42e01f", 125));
        out.push(offered("640032", 123));
    } else if fmtp_names("640032", w) {
        out.push(offered("640032", 123));
        out.push(offered("42e01f", 125));
        out.push(offered("42001f", 102));
    } else {
        let own = strings::string_of(w);
        out.push(offered(own.as_str(), OWN_PAYLOAD_TYPE));
        out.push(offered("42e01f", 125));
        out.push(offered("42001f", 102));
        out.push(offered("640032", 123));
    }
    out
}

/// Bitrate ceiling (kb/s) for an image height: the configured value holds at 1080 lines, 720
/// lines take 9/16 of it and anything smaller a quarter, the share of the pixels at 480 lines;
/// halves round up.
pub open spec fn ceiling_kbps(height: u32, max_1080_kbps: u32) -> int {
    if height >= 1080 {
        max_1080_kbps as int
    } else if height >= 720 {
        (max_1080_kbps * 9 + 8) / 16
    } else {
        (max_1080_kbps + 2) / 4
    }
}

/// Bitrate ceiling (kb/s) for an image height.
pub fn max_bitrate_kbps(height: u32, max_1080_kbps: u32) -> (r: u32)
    ensures
        r == ceiling_kbps(height, max_1080_kbps),
        r <= max_1080_kbps,
{
    let m: u64 = max_1080_kbps as u64;
    let v: u64 = if height >= 1080 {
        m
    } else if height >= 720 {
        (m * 9 + 8) / 16
    } else {
        (m + 2) / 4
    };
    v as u32
}

/// A smaller image never gets a higher ceiling, and none gets more than the configured value.
pub proof fn ceiling_follows_the_height(h1: u32, h2: u32, max_1080_kbps: u32)
    requires
        h1 <= h2,
    ensures
        ceiling_kbps(h1, max_1080_kbps) <= ceiling_kbps(h2, max_1080_kbps) <= max_1080_kbps,
{
}

/// Length of the first line of `s`, its line feed included.
pub open spec fn line_len(s: Seq<char>) -> int {
    let i = strings::find(s, '\n');
    if i < s.len() {
        i + 1
    } else {
        s.len() as int
    }
}

/// A character that ends a line.
pub open spec fn is_eol(c: char) -> bool {
    c == '\r' || c == '\n'
}

/// `line` without the line-ending characters at its end.
pub open spec fn without_eol(line: Seq<char>) -> Seq<char>
    decreases line.len(),
{
    if line.len() > 0 && is_eol(line.last()) {
        without_eol(line.drop_last())
    } else {
        line
    }
}

/// An H.264 fmtp line that does not announce a start bitrate yet.
pub open spec fn lacks_start_bitrate(body: Seq<char>) -> bool {
    &&& strings::occurs_at(body, "a=fmtp:"@, 0)
    &&& strings::has_text(body, "profile-level-id="@)
    &&& !strings::has_text(body, "x-google-start-bitrate="@)
}

/// `line` with `note` before its line ending, where it is an H.264 fmtp line without one.
pub open spec fn annotated(line: Seq<char>, note: Seq<char>) -> Seq<char> {
    let body = without_eol(line);
    if lacks_start_bitrate(body) {
        body + note + line.skip(body.len() as int)
    } else {
        line
    }
}

/// `sdp` with `note` on each of its H.264 fmtp lines.
pub open spec fn announced(sdp: Seq<char>, note: Seq<char>) -> Seq<char>
    decreases sdp.len(),
    via announced_terminates
{
    let n = line_len(sdp);
    if sdp.len() == 0 {
        seq![]
    } else {
        annotated(sdp.take(n), note) + announced(sdp.skip(n), note)
    }
}

#[via_fn]
proof fn announced_terminates(sdp: Seq<char>, note: Seq<char>) {
    strings::lemma_find(sdp, '\n');
}

/// The parameter that announces a start bitrate, with its separator.
pub open spec fn start_note(kbps: u32) -> Seq<char> {
    ";x-google-start-bitrate="@ + strings::decimal(kbps as nat)
}

fn body_len(line: &[char]) -> (n: usize)
    ensures
        n <= line.len(),
        line@.take(n as int) == without_eol(line@),
{
    let mut n: usize = line.len();
    assert(line@.take(n as int) == line@);
    while n > 0 && (line[n - 1] == '\r' || line[n - 1] == '\n')
        invariant
            n <= line.len(),
            without_eol(line@.take(n as int)) == without_eol(line@),
        decreases n,
    {
        assert(line@.take(n as int).drop_last() == line@.take(n - 1));
        n -= 1;
    }
    n
}

fn annotate(line: &[char], note: &[char]) -> (r: Vec<char>)
    ensures
        r@ == annotated(line@, note@),
{
    let n: usize = body_len(line);
    let body = strings::part(line, 0, n);
    assert(body@ == without_eol(line@));
    let b = body.as_slice();
    let profile = strings::chars_of("profile-level-id=");
    let start = strings::chars_of("x-google-start-bitrate=");
    if strings::starts(b, "a=fmtp:") && strings::contains(b, profile.as_slice())
        && !strings::contains(b, start.as_slice()) {
        let tail = strings::part(line, n, line.len());
        let mut out = body;
        strings::append(&mut out, note);
        strings::append(&mut out, tail.as_slice());
        assert(tail@ == line@.skip(n as int));
        out
    } else {
        strings::part(line, 0, line.len())
    }
}

/// Adds `x-google-start-bitrate=<kb/s>` to the H.264 fmtp lines of an offer. The receiving
/// encoder then starts at that bitrate. With 0 the text is unchanged.
pub fn announce_start_bitrate(sdp: &str, kbps: u32) -> (r: String)
    ensures
        kbps == 0 ==> r@ == sdp@,
        kbps > 0 ==> r@ == announced(sdp@, start_note(kbps)),
{
    if kbps == 0 {
        return strings::text(sdp);
    }
    let s = strings::chars_of(sdp);
    let mut note = strings::chars_of(";x-google-start-bitrate=");
    let k = strings::decimal_of(kbps as u64);
    strings::append(&mut note, k.as_slice());
    let mut out: Vec<char> = Vec::new();
    let mut from: usize = 0;
    assert(s@.skip(0) == s@);
    while from < s.len()
        invariant
            from <= s.len(),
            note@ == start_note(kbps),
            out@ + announced(s@.skip(from as int), note@) == announced(s@, note@),
        decreases s.len() - from,
    {
        let i: usize = strings::find_from(s.as_slice(), '\n', from);
        let to: usize = if i < s.len() {
            i + 1
        } else {
            s.len()
        };
        let ghost rest = s@.skip(from as int);
        assert(line_len(rest) == to - from);
        let line = strings::part(s.as_slice(), from, to);
        assert(line@ == rest.take(to - from));
        assert(rest.skip(to - from) == s@.skip(to as int));
        let a = annotate(line.as_slice(), note.as_slice());
        let ghost before = out@;
        strings::append(&mut out, a.as_slice());
        assert(out@ + announced(s@.skip(to as int), note@) == before + announced(rest, note@));
        from = to;
    }
    assert(out@ == announced(s@, note@));
    strings::string_of(out.as_slice())
}

/// What an offer says of the H.264 it prefers.
pub struct OfferedH264 {
    pub payload_type: u8,
    pub profile_level_id: String,
    /// Complete fmtp line, without the sender's own `x-google-start-bitrate`.
    pub fmtp: String,
    /// Announced start bitrate (kb/s), if any.
    pub start_bitrate_kbps: Option<u32>,
}

/// Contents of an [`OfferedH264`].
pub struct OfferedView {
    pub payload_type: u8,
    pub profile_level_id: Seq<char>,
    pub fmtp: Seq<char>,
    pub start_bitrate_kbps: Option<u32>,
}

impl View for OfferedH264 {
    type V = OfferedView;

    open spec fn view(&self) -> OfferedView {
        OfferedView {
            payload_type: self.payload_type,
            profile_level_id: self.profile_level_id@,
            fmtp: self.fmtp@,
            start_bitrate_kbps: self.start_bitrate_kbps,
        }
    }
}

/// The lines of a session description, without white space at their end.
pub open spec fn sdp_lines(sdp: Seq<char>) -> Seq<Seq<char>> {
    strings::split(sdp, '\n').map_values(|l: Seq<char>| strings::trim_end(l))
}

/// The word after `prefix` on a line that begins with it, and the text after the next space.
pub open spec fn attribute(line: Seq<char>, prefix: Seq<char>) -> Option<(Seq<char>, Seq<char>)> {
    if strings::occurs_at(line, prefix, 0) {
        let rest = line.skip(prefix.len() as int);
        let i = strings::find(rest, ' ');
        Some(
            (
                rest.take(i),
                if i < rest.len() {
                    rest.skip(i + 1)
                } else {
                    seq![]
                },
            ),
        )
    } else {
        None
    }
}

/// The payload type that a line maps to H.264, in any case of the letter.
pub open spec fn mapped_h264(line: Seq<char>) -> Option<u8> {
    match attribute(line, "a=rtpmap:"@) {
        Some((number, name)) => match strings::parse_unsigned(number, 255) {
            Some(pt) => if strings::occurs_at(strings::ascii_lowercase(name), "h264/"@, 0) {
                Some(pt as u8)
            } else {
                None
            },
            None => None,
        },
        None => None,
    }
}

/// The payload types mapped to H.264, in order of preference.
pub open spec fn h264_payload_types(lines: Seq<Seq<char>>) -> Seq<u8> {
    lines.filter_map(|l: Seq<char>| mapped_h264(l))
}

/// Name of a `name=value` parameter.
pub open spec fn param_key(kv: Seq<char>) -> Seq<char> {
    kv.take(strings::find(kv, '='))
}

/// Value of a `name=value` parameter; empty without `=`.
pub open spec fn param_value(kv: Seq<char>) -> Seq<char> {
    let i = strings::find(kv, '=');
    if i < kv.len() {
        kv.skip(i + 1)
    } else {
        seq![]
    }
}

/// The `;`-separated parameters of an fmtp line.
pub open spec fn fmtp_params(params: Seq<char>) -> Seq<Seq<char>> {
    strings::split(params, ';').map_values(|p: Seq<char>| strings::trim(p))
}

/// Value of the last parameter named `key`.
pub open spec fn last_value(params: Seq<Seq<char>>, key: Seq<char>) -> Option<Seq<char>>
    decreases params.len(),
{
    if params.len() == 0 {
        None
    } else if param_key(params.last()) == key {
        Some(param_value(params.last()))
    } else {
        last_value(params.drop_last(), key)
    }
}

/// Whether a parameter is part of the codec itself: neither empty nor the start bitrate.
pub open spec fn is_codec_param(kv: Seq<char>) -> bool {
    kv.len() > 0 && param_key(kv) != "x-google-start-bitrate"@
}

/// The start bitrate among parameters, where it is a number.
pub open spec fn start_bitrate(params: Seq<Seq<char>>) -> Option<u32> {
    match last_value(params, "x-google-start-bitrate"@) {
        Some(v) => match strings::parse_unsigned(v, u32::MAX as nat) {
            Some(n) => Some(n as u32),
            None => None,
        },
        None => None,
    }
}

/// What the parameters of an H.264 fmtp line offer, where they are in `packetization-mode=1`
/// and name a profile.
pub open spec fn read_params(pt: u8, params: Seq<Seq<char>>) -> Option<OfferedView> {
    match last_value(params, "profile-level-id"@) {
        Some(profile) => if last_value(params, "packetization-mode"@) == Some("1"@) {
            Some(
                OfferedView {
                    payload_type: pt,
                    profile_level_id: strings::ascii_lowercase(profile),
                    fmtp: strings::join(params.filter(|kv: Seq<char>| is_codec_param(kv)), ";"@),
                    start_bitrate_kbps: start_bitrate(params),
                },
            )
        } else {
            None
        },
        None => None,
    }
}

/// What a line offers, with the rank of its payload type among the H.264 ones.
pub open spec fn candidate(line: Seq<char>, pts: Seq<u8>) -> Option<(int, OfferedView)> {
    match attribute(line, "a=fmtp:"@) {
        Some((number, params)) => match strings::parse_unsigned(number, 255) {
            Some(pt) => match pts.index_of_first(pt as u8) {
                Some(rank) => match read_params(pt as u8, fmtp_params(params)) {
                    Some(o) => Some((rank, o)),
                    None => None,
                },
                None => None,
            },
            None => None,
        },
        None => None,
    }
}

/// The candidate of least rank, the earliest line on ties.
pub open spec fn best_candidate(lines: Seq<Seq<char>>, pts: Seq<u8>) -> Option<(int, OfferedView)>
    decreases lines.len(),
{
    if lines.len() == 0 {
        None
    } else {
        let before = best_candidate(lines.drop_last(), pts);
        match candidate(lines.last(), pts) {
            Some(c) => match before {
                Some(b) if b.0 <= c.0 => before,
                _ => Some(c),
            },
            None => before,
        }
    }
}

/// What an offer says of the H.264 it prefers.
pub open spec fn offered_in(sdp: Seq<char>) -> Option<OfferedView> {
    let lines = sdp_lines(sdp);
    match best_candidate(lines, h264_payload_types(lines)) {
        Some(c) => Some(c.1),
        None => None,
    }
}

/// Splits the parameter at its first `=`.
fn key_value(kv: &[char]) -> (r: (Vec<char>, Vec<char>))
    ensures
        r.0@ == param_key(kv@),
        r.1@ == param_value(kv@),
{
    assert(kv@.skip(0) == kv@);
    let i: usize = strings::find_from(kv, '=', 0);
    let k = strings::part(kv, 0, i);
    let v = if i < kv.len() {
        strings::part(kv, i + 1, kv.len())
    } else {
        Vec::new()
    };
    (k, v)
}

fn attribute_of(line: &[char], prefix: &str) -> (r: Option<(Vec<char>, Vec<char>)>)
    ensures
        (match r {
            Some(a) => attribute(line@, prefix@) == Some((a.0@, a.1@)),
            None => attribute(line@, prefix@) is None,
        }),
{
    if !strings::starts(line, prefix) {
        return None;
    }
    let p = strings::chars_of(prefix);
    let rest = strings::part(line, p.len(), line.len());
    assert(rest@ == line@.skip(prefix@.len() as int));
    assert(rest@.skip(0) == rest@);
    let i: usize = strings::find_from(rest.as_slice(), ' ', 0);
    let head = strings::part(rest.as_slice(), 0, i);
    let tail = if i < rest.len() {
        strings::part(rest.as_slice(), i + 1, rest.len())
    } else {
        Vec::new()
    };
    Some((head, tail))
}

fn mapped(line: &[char]) -> (r: Option<u8>)
    ensures
        r == mapped_h264(line@),
{
    match attribute_of(line, "a=rtpmap:") {
        Some((number, name)) => {
            match strings::parse_of(number.as_slice(), 255) {
                Some(pt) => {
                    let lower = strings::ascii_lowercase_of(name.as_slice());
                    if strings::starts(lower.as_slice(), "h264/") {
                        Some(pt as u8)
                    } else {
                        None
                    }
                },
                None => None,
            }
        },
        None => None,
    }
}

fn payload_types(lines: &Vec<Vec<char>>) -> (r: Vec<u8>)
    ensures
        r@ == h264_payload_types(strings::pieces(lines@)),
{
    let ghost all = strings::pieces(lines@);
    let mut out: Vec<u8> = Vec::new();
    let mut i: usize = 0;
    assert(h264_payload_types(all.take(0)) == Seq::<u8>::empty());
    while i < lines.len()
        invariant
            i <= lines.len(),
            all == strings::pieces(lines@),
            out@ == h264_payload_types(all.take(i as int)),
        decreases lines.len() - i,
    {
        proof {
            all.lemma_filter_map_take_succ(|l: Seq<char>| mapped_h264(l), i as int);
        }
        let m = mapped(lines[i].as_slice());
        if let Some(pt) = m {
            out.push(pt);
        }
        i += 1;
    }
    assert(all.take(all.len() as int) == all);
    out
}

fn rank_of(pts: &Vec<u8>, pt: u8) -> (r: Option<usize>)
    ensures
        (match r {
            Some(i) => pts@.index_of_first(pt) == Some(i as int),
            None => pts@.index_of_first(pt) is None,
        }),
{
    proof {
        pts@.index_of_first_ensures(pt);
    }
    let mut i: usize = 0;
    while i < pts.len()
        invariant
            i <= pts.len(),
            forall|j: int| 0 <= j < i ==> pts@[j] != pt,
        decreases pts.len() - i,
    {
        if pts[i] == pt {
            proof {
                pts@.index_of_first_ensures(pt);
            }
            return Some(i);
        }
        i += 1;
    }
    None
}

fn trimmed_params(params: &[char]) -> (r: Vec<Vec<char>>)
    ensures
        strings::pieces(r@) == fmtp_params(params@),
{
    let raw = strings::split_of(params, ';');
    let mut out: Vec<Vec<char>> = Vec::new();
    let mut i: usize = 0;
    while i < raw.len()
        invariant
            i <= raw.len(),
            strings::pieces(raw@) == strings::split(params@, ';'),
            strings::pieces(out@) == fmtp_params(params@).take(i as int),
        decreases raw.len() - i,
    {
        let ghost before = strings::pieces(out@);
        let t = strings::trim_of(raw[i].as_slice());
        assert(raw@[i as int]@ == strings::pieces(raw@)[i as int]);
        assert(t@ == fmtp_params(params@)[i as int]);
        out.push(t);
        assert(strings::pieces(out@) == before.push(t@));
        i += 1;
    }
    assert(strings::pieces(raw@).len() == raw@.len());
    assert(fmtp_params(params@).take(raw@.len() as int) == fmtp_params(params@));
    out
}

fn same_option(v: &Option<Vec<char>>, t: &str) -> (r: bool)
    ensures
        r == (v is Some && v->0@ == t@),
{
    match v {
        Some(x) => strings::is_text(x.as_slice(), t),
        None => false,
    }
}

fn value_of(params: &Vec<Vec<char>>, name: &str) -> (r: Option<Vec<char>>)
    ensures
        (match r {
            Some(v) => last_value(strings::pieces(params@), name@) == Some(v@),
            None => last_value(strings::pieces(params@), name@) is None,
        }),
{
    let ghost all = strings::pieces(params@);
    let mut n: usize = params.len();
    assert(all.take(n as int) == all);
    while n > 0
        invariant
            n <= params.len(),
            all == strings::pieces(params@),
            last_value(all.take(n as int), name@) == last_value(all, name@),
        decreases n,
    {
        let (k, v) = key_value(params[n - 1].as_slice());
        assert(all.take(n as int).last() == params@[n - 1]@);
        assert(all.take(n as int).drop_last() == all.take(n - 1));
        if strings::is_text(k.as_slice(), name) {
            return Some(v);
        }
        n -= 1;
    }
    None
}

fn codec_params(params: &Vec<Vec<char>>) -> (r: Vec<char>)
    ensures
        r@ == strings::join(
            strings::pieces(params@).filter(|kv: Seq<char>| is_codec_param(kv)),
            ";"@,
        ),
{
    let ghost all = strings::pieces(params@);
    let ghost p = |kv: Seq<char>| is_codec_param(kv);
    let mut out: Vec<char> = Vec::new();
    let mut any = false;
    let mut i: usize = 0;
    let sep = strings::chars_of(";");
    proof {
        reveal_with_fuel(Seq::filter, 1);
        assert(all.take(0).filter(p) == Seq::<Seq<char>>::empty());
    }
    while i < params.len()
        invariant
            i <= params.len(),
            all == strings::pieces(params@),
            p == (|kv: Seq<char>| is_codec_param(kv)),
            sep@ == ";"@,
            any == (all.take(i as int).filter(p).len() > 0),
            out@ == strings::join(all.take(i as int).filter(p), ";"@),
        decreases params.len() - i,
    {
        let kv = params[i].as_slice();
        let ghost before = all.take(i as int).filter(p);
        assert(kv@ == all[i as int]);
        proof {
            assert(all.take(i + 1).drop_last() == all.take(i as int));
            assert(all.take(i + 1).last() == all[i as int]);
            reveal_with_fuel(Seq::filter, 2);
        }
        let (k, _v) = key_value(kv);
        if kv.len() > 0 && !strings::is_text(k.as_slice(), "x-google-start-bitrate") {
            assert(all.take(i + 1).filter(p) == before.push(kv@));
            assert(before.push(kv@).drop_last() == before);
            if any {
                strings::append(&mut out, sep.as_slice());
            }
            strings::append(&mut out, kv);
            assert(out@ == strings::join(before.push(kv@), ";"@));
            any = true;
        } else {
            assert(all.take(i + 1).filter(p) == before);
        }
        i += 1;
    }
    assert(all.take(all.len() as int) == all);
    out
}

fn candidate_of(line: &[char], pts: &Vec<u8>) -> (r: Option<(usize, OfferedH264)>)
    ensures
        (match r {
            Some(c) => candidate(line@, pts@) == Some((c.0 as int, c.1@)),
            None => candidate(line@, pts@) is None,
        }),
{
    let (number, rest) = match attribute_of(line, "a=fmtp:") {
        Some(a) => a,
        None => {
            return None;
        },
    };
    let pt: u8 = match strings::parse_of(number.as_slice(), 255) {
        Some(n) => n as u8,
        None => {
            return None;
        },
    };
    let rank: usize = match rank_of(pts, pt) {
        Some(i) => i,
        None => {
            return None;
        },
    };
    let params = trimmed_params(rest.as_slice());
    let profile = match value_of(&params, "profile-level-id") {
        Some(p) => p,
        None => {
            return None;
        },
    };
    let mode = value_of(&params, "packetization-mode");
    if !same_option(&mode, "1") {
        return None;
    }
    let start: Option<u32> = match value_of(&params, "x-google-start-bitrate") {
        Some(v) => match strings::parse_of(v.as_slice(), 0xffff_ffff) {
            Some(n) => Some(n as u32),
            None => None,
        },
        None => None,
    };
    let lower = strings::ascii_lowercase_of(profile.as_slice());
    let kept = codec_params(&params);
    Some(
        (
            rank,
            OfferedH264 {
                payload_type: pt,
                profile_level_id: strings::string_of(lower.as_slice()),
                fmtp: strings::string_of(kept.as_slice()),
                start_bitrate_kbps: start,
            },
        ),
    )
}

/// The preferred H.264 in `packetization-mode=1` of an offer: that of the payload type mapped
/// first.
pub fn offered_h264(sdp: &str) -> (r: Option<OfferedH264>)
    ensures
        (match r {
            Some(o) => offered_in(sdp@) == Some(o@),
            None => offered_in(sdp@) is None,
        }),
{
    let s = strings::chars_of(sdp);
    let raw = strings::split_of(s.as_slice(), '\n');
    let mut lines: Vec<Vec<char>> = Vec::new();
    let mut i: usize = 0;
    while i < raw.len()
        invariant
            i <= raw.len(),
            strings::pieces(raw@) == strings::split(sdp@, '\n'),
            strings::pieces(lines@) == sdp_lines(sdp@).take(i as int),
        decreases raw.len() - i,
    {
        let ghost before = strings::pieces(lines@);
        let t = strings::trim_end_of(raw[i].as_slice());
        assert(raw@[i as int]@ == strings::pieces(raw@)[i as int]);
        assert(t@ == sdp_lines(sdp@)[i as int]);
        lines.push(t);
        assert(strings::pieces(lines@) == before.push(t@));
        i += 1;
    }
    assert(strings::pieces(raw@).len() == raw@.len());
    assert(strings::pieces(lines@) == sdp_lines(sdp@));
    let pts = payload_types(&lines);
    let ghost all = sdp_lines(sdp@);
    let mut best: Option<(usize, OfferedH264)> = None;
    let mut j: usize = 0;
    while j < lines.len()
        invariant
            j <= lines.len(),
            all == strings::pieces(lines@),
            (match best {
                Some(b) => best_candidate(all.take(j as int), pts@) == Some((b.0 as int, b.1@)),
                None => best_candidate(all.take(j as int), pts@) is None,
            }),
        decreases lines.len() - j,
    {
        assert(all.take(j + 1).drop_last() == all.take(j as int));
        assert(all.take(j + 1).last() == lines@[j as int]@);
        if let Some((rank, o)) = candidate_of(lines[j].as_slice(), &pts) {
            let better = match &best {
                Some(b) => rank < b.0,
                None => true,
            };
            if better {
                best = Some((rank, o));
            }
        }
        j += 1;
    }
    assert(all.take(all.len() as int) == all);
    match best {
        Some((_rank, o)) => Some(o),
        None => None,
    }
}

/// An Annex-B start code (`00 00 01`) stands at position `i`.
pub open spec fn code_at(data: Seq<u8>, i: int) -> bool {
    0 <= i && i + 3 <= data.len() && data[i] == 0 && data[i + 1] == 0 && data[i + 2] == 1
}

/// Position of the first start code at or after `i`, or the length of the data.
pub open spec fn next_code(data: Seq<u8>, i: int) -> int
    decreases data.len() - i,
{
    if i + 3 > data.len() {
        data.len() as int
    } else if code_at(data, i) {
        i
    } else {
        next_code(data, i + 1)
    }
}

/// One zero byte before a start code belongs to it (`00 00 00 01`).
pub open spec fn before_code(unit: Seq<u8>) -> Seq<u8> {
    if unit.len() > 0 && unit.last() == 0 {
        unit.drop_last()
    } else {
        unit
    }
}

/// A list of one unit, or of none where it is empty.
pub open spec fn if_any(unit: Seq<u8>) -> Seq<Seq<u8>> {
    if unit.len() > 0 {
        seq![unit]
    } else {
        seq![]
    }
}

/// The units from position `s` on, which is right after a start code.
pub open spec fn units_from(data: Seq<u8>, s: int) -> Seq<Seq<u8>>
    decreases data.len() - s,
    via units_from_terminates
{
    let q = next_code(data, s);
    if s < 0 || s >= data.len() {
        seq![]
    } else if q < data.len() {
        if_any(before_code(data.subrange(s, q))) + units_from(data, q + 3)
    } else {
        seq![data.subrange(s, data.len() as int)]
    }
}

#[via_fn]
proof fn units_from_terminates(data: Seq<u8>, s: int) {
    lemma_next_code(data, s);
}

/// The units of an Annex-B stream: what stands between start codes, without the empty ones.
pub open spec fn annexb_units(data: Seq<u8>) -> Seq<Seq<u8>> {
    let p = next_code(data, 0);
    if p < data.len() {
        units_from(data, p + 3)
    } else {
        seq![]
    }
}

/// A start code, of four bytes or of three.
pub open spec fn start_code(long: bool) -> Seq<u8> {
    if long {
        seq![0u8, 0u8, 0u8, 1u8]
    } else {
        seq![0u8, 0u8, 1u8]
    }
}

/// The Annex-B stream of a list of units, each behind a four-byte start code.
pub open spec fn annexb(units: Seq<Seq<u8>>) -> Seq<u8>
    decreases units.len(),
{
    if units.len() == 0 {
        seq![]
    } else {
        annexb(units.drop_last()) + seq![0u8, 0u8, 0u8, 1u8] + units.last()
    }
}

/// The same with a start code of four bytes or of three before each unit.
pub open spec fn annexb_with(units: Seq<Seq<u8>>, long: Seq<bool>) -> Seq<u8>
    decreases units.len(),
{
    if units.len() == 0 {
        seq![]
    } else {
        annexb_with(units.drop_last(), long.drop_last()) + start_code(long.last()) + units.last()
    }
}

/// A unit that can stand in an Annex-B stream: not empty, without a start code inside.
pub open spec fn is_unit(unit: Seq<u8>) -> bool {
    unit.len() > 0 && forall|i: int| !#[trigger] code_at(unit, i)
}

pub proof fn lemma_next_code(data: Seq<u8>, i: int)
    ensures
        i <= data.len() ==> i <= next_code(data, i) <= data.len(),
        next_code(data, i) < data.len() && 0 <= i ==> code_at(data, next_code(data, i)),
        forall|j: int| i <= j < next_code(data, i) ==> !#[trigger] code_at(data, j),
    decreases data.len() - i,
{
    if i + 3 <= data.len() && !code_at(data, i) {
        lemma_next_code(data, i + 1);
    }
}

/// A start code before which there is none is the next one.
proof fn lemma_next_code_is(data: Seq<u8>, i: int, q: int)
    requires
        0 <= i <= q <= data.len(),
        q < data.len() ==> code_at(data, q),
        forall|j: int| i <= j < q ==> !#[trigger] code_at(data, j),
    ensures
        next_code(data, i) == q,
    decreases q - i,
{
    if i < q {
        assert(!code_at(data, i));
        if i + 3 <= data.len() {
            lemma_next_code_is(data, i + 1, q);
        }
    }
}

/// Splits an Annex-B stream into its units, without the start codes.
pub fn nalus(data: &[u8]) -> (r: Vec<&[u8]>)
    ensures
        r@.map_values(|u: &[u8]| u@) == annexb_units(data@),
{
    let mut out: Vec<&[u8]> = Vec::new();
    let ghost view = |u: &[u8]| u@;
    let ghost all = annexb_units(data@);
    let mut i: usize = 0;
    let mut start: Option<usize> = None;
    while i < data.len() && data.len() - i > 2
        invariant
            i <= data.len(),
            view == (|u: &[u8]| u@),
            all == annexb_units(data@),
            (match start {
                Some(s) => {
                    &&& s <= i
                    &&& out@.map_values(view) + units_from(data@, s as int) == all
                    &&& next_code(data@, s as int) == next_code(data@, i as int)
                },
                None => out@.len() == 0 && next_code(data@, 0) == next_code(data@, i as int),
            }),
        decreases data.len() - i,
    {
        if data[i] == 0 && data[i + 1] == 0 && data[i + 2] == 1 {
            assert(next_code(data@, i as int) == i);
            if let Some(s) = start {
                let mut end: usize = i;
                if end > s && data[end - 1] == 0 {
                    end -= 1;
                }
                let ghost raw = data@.subrange(s as int, i as int);
                let ghost before = out@.map_values(view);
                assert(s < data.len());
                assert(units_from(data@, s as int) == if_any(before_code(raw)) + units_from(
                    data@,
                    i + 3,
                ));
                if s < i {
                    assert(raw.last() == data@[i - 1]);
                }
                assert(before_code(raw) == data@.subrange(s as int, end as int));
                if end > s {
                    let unit = vstd::slice::slice_subrange(data, s, end);
                    out.push(unit);
                    assert(out@.map_values(view) == before.push(unit@));
                }
                assert(out@.map_values(view) == before + if_any(before_code(raw)));
                assert(out@.map_values(view) + units_from(data@, i + 3) == all);
            } else {
                assert(out@.map_values(view) + units_from(data@, i + 3) == all);
            }
            i += 3;
            start = Some(i);
        } else {
            i += 1;
        }
    }
    assert(next_code(data@, i as int) == data@.len());
    if let Some(s) = start {
        if s < data.len() {
            let unit = vstd::slice::slice_subrange(data, s, data.len());
            let ghost before = out@.map_values(view);
            out.push(unit);
            assert(out@.map_values(view) == before.push(unit@));
        }
    }
    assert(out@.map_values(view) == all);
    out
}

/// A unit before a start code of three bytes does not end in zero: that zero would belong to the
/// code.
pub open spec fn ends_are_clear(units: Seq<Seq<u8>>, long: Seq<bool>) -> bool {
    forall|i: int| 0 < i < units.len() && !#[trigger] long[i] ==> units[i - 1].last() != 0
}

/// Splitting the Annex-B stream of a list of units gives those units back, with start codes of
/// four bytes, of three, or of both.
pub proof fn any_annexb_splits_back(units: Seq<Seq<u8>>, long: Seq<bool>)
    requires
        long.len() == units.len(),
        forall|i: int| 0 <= i < units.len() ==> is_unit(#[trigger] units[i]),
        ends_are_clear(units, long),
    ensures
        annexb_units(annexb_with(units, long)) == units,
{
    if units.len() == 0 {
        assert(annexb_units(annexb_with(units, long)) =~= units);
    } else {
        lemma_head(units, long);
        let data = annexb_with(units, long);
        if long[0] {
            assert(code_at(data, 1));
            assert(!code_at(data, 0));
            lemma_next_code_is(data, 0, 1);
        } else {
            assert(code_at(data, 0));
            lemma_next_code_is(data, 0, 0);
        }
        let n: int = start_code(long[0]).len() as int;
        assert(data.skip(n) =~= units[0] + annexb_with(units.drop_first(), long.drop_first()));
        lemma_units(units, long, n, data);
    }
}

/// Splitting a stream with four-byte start codes gives its units back, whatever they end in.
pub proof fn annexb_splits_back(units: Seq<Seq<u8>>)
    requires
        forall|i: int| 0 <= i < units.len() ==> is_unit(#[trigger] units[i]),
    ensures
        annexb_units(annexb(units)) == units,
{
    let long = Seq::new(units.len(), |i: int| true);
    lemma_four_bytes(units);
    any_annexb_splits_back(units, long);
}

proof fn lemma_four_bytes(units: Seq<Seq<u8>>)
    ensures
        annexb(units) == annexb_with(units, Seq::new(units.len(), |i: int| true)),
    decreases units.len(),
{
    if units.len() > 0 {
        let long = Seq::new(units.len(), |i: int| true);
        lemma_four_bytes(units.drop_last());
        assert(long.drop_last() =~= Seq::new(units.drop_last().len(), |i: int| true));
    }
}

/// A nonempty Annex-B stream begins with the code of its first unit.
proof fn lemma_head(units: Seq<Seq<u8>>, long: Seq<bool>)
    requires
        units.len() > 0,
        long.len() == units.len(),
    ensures
        annexb_with(units, long) == start_code(long[0]) + units[0] + annexb_with(
            units.drop_first(),
            long.drop_first(),
        ),
    decreases units.len(),
{
    let (df, ldf) = (units.drop_first(), long.drop_first());
    let (dl, ldl) = (units.drop_last(), long.drop_last());
    let code = start_code(long[0]);
    if units.len() == 1 {
        assert(dl == Seq::<Seq<u8>>::empty());
        assert(df == Seq::<Seq<u8>>::empty());
        assert(annexb_with(dl, ldl) == Seq::<u8>::empty());
        assert(annexb_with(df, ldf) == Seq::<u8>::empty());
        assert(Seq::<u8>::empty() + code + units[0] =~= code + units[0] + Seq::<u8>::empty());
    } else {
        lemma_head(dl, ldl);
        assert(dl.drop_first() == df.drop_last());
        assert(ldl.drop_first() == ldf.drop_last());
        let middle = annexb_with(df.drop_last(), ldf.drop_last());
        let last = start_code(long.last());
        assert(df.last() == units.last() && ldf.last() == long.last());
        assert(annexb_with(df, ldf) == middle + last + units.last());
        assert((code + units[0] + middle) + last + units.last() =~= code + units[0] + (middle + last
            + units.last()));
    }
}

/// A unit at `s` before another start code ends there.
proof fn lemma_unit_ends(data: Seq<u8>, s: int, u: Seq<u8>, long: bool)
    requires
        0 <= s,
        is_unit(u),
        s + u.len() + start_code(long).len() <= data.len(),
        data.subrange(s, s + u.len()) == u,
        data.subrange(s + u.len(), s + u.len() + start_code(long).len()) == start_code(long),
        !long ==> u.last() != 0,
    ensures
        next_code(data, s) == s + u.len() + start_code(long).len() - 3,
        before_code(data.subrange(s, next_code(data, s))) == u,
{
    let e: int = s + u.len();
    let code = start_code(long);
    // The code proper begins one byte later where it has four.
    let q: int = e + code.len() - 3;
    lemma_inside(data, s, u);
    assert forall|x: int| 0 <= x < code.len() implies data[e + x] == #[trigger] code[x] by {
        assert(data.subrange(e, e + code.len())[x] == data[e + x]);
    }
    assert(data[e] == code[0] && data[e + 1] == code[1] && data[e + 2] == code[2]);
    assert(long ==> data[e + 3] == code[3]);
    assert(code_at(data, q));
    assert forall|j: int| s <= j < q implies !#[trigger] code_at(data, j) by {
        if j + 3 > e {
            assert(data[j + 2] == 0);
        }
    }
    lemma_next_code_is(data, s, q);
    let raw = data.subrange(s, q);
    if long {
        assert(raw.last() == data[e]);
        assert(raw.drop_last() =~= u);
    } else {
        assert(raw =~= u);
    }
}

/// No start code stands inside a unit at `s`.
proof fn lemma_inside(data: Seq<u8>, s: int, u: Seq<u8>)
    requires
        0 <= s,
        is_unit(u),
        s + u.len() <= data.len(),
        data.subrange(s, s + u.len()) == u,
    ensures
        forall|j: int| s <= j && j + 3 <= s + u.len() ==> !#[trigger] code_at(data, j),
{
    assert forall|j: int| s <= j && j + 3 <= s + u.len() implies !#[trigger] code_at(data, j) by {
        assert(!code_at(u, j - s));
        assert(u[j - s] == data[j] && u[j - s + 1] == data[j + 1] && u[j - s + 2] == data[j + 2]);
    }
}

/// The units from the first byte of the first unit of `units`, which stands at `s`.
proof fn lemma_units(units: Seq<Seq<u8>>, long: Seq<bool>, s: int, data: Seq<u8>)
    requires
        units.len() > 0,
        long.len() == units.len(),
        0 <= s <= data.len(),
        data.skip(s) == units[0] + annexb_with(units.drop_first(), long.drop_first()),
        forall|i: int| 0 <= i < units.len() ==> is_unit(#[trigger] units[i]),
        ends_are_clear(units, long),
    ensures
        units_from(data, s) == units,
    decreases units.len(),
{
    let u = units[0];
    let (df, ldf) = (units.drop_first(), long.drop_first());
    let tail = annexb_with(df, ldf);
    let e: int = s + u.len();
    assert(is_unit(u));
    assert(data.skip(s).len() == u.len() + tail.len());
    assert(data.skip(s).take(u.len() as int) =~= u);
    assert(data.subrange(s, e) =~= data.skip(s).take(u.len() as int));
    assert(data.skip(e) =~= tail) by {
        assert(data.skip(e) =~= data.skip(s).skip(u.len() as int));
    }
    if df.len() == 0 {
        lemma_inside(data, s, u);
        assert(tail.len() == 0);
        assert forall|j: int| s <= j < data.len() implies !#[trigger] code_at(data, j) by {}
        lemma_next_code_is(data, s, data.len() as int);
        assert(data.subrange(s, data.len() as int) =~= u);
        assert(units =~= seq![u]);
    } else {
        lemma_head(df, ldf);
        let code = start_code(ldf[0]);
        let more = df[0] + annexb_with(df.drop_first(), ldf.drop_first());
        let n: int = code.len() as int;
        assert(tail =~= code + more);
        assert(data.subrange(e, e + n) =~= code) by {
            assert(data.subrange(e, e + n) =~= data.skip(e).take(n));
        }
        assert(ldf[0] == long[1]);
        assert(!long[1] ==> units[1 - 1].last() != 0);
        lemma_unit_ends(data, s, u, ldf[0]);
        assert(data.skip(e + n) =~= more) by {
            assert(data.skip(e + n) =~= data.skip(e).skip(n));
        }
        assert forall|i: int| 0 <= i < df.len() implies is_unit(#[trigger] df[i]) by {
            assert(df[i] == units[i + 1]);
        }
        assert forall|i: int| 0 < i < df.len() && !#[trigger] ldf[i] implies df[i - 1].last() != 0 by {
            assert(!long[i + 1]);
            assert(df[i - 1] == units[i + 1 - 1]);
        }
        lemma_units(df, ldf, e + n, data);
        assert(next_code(data, s) + 3 == e + n);
        assert(units =~= seq![u] + df);
    }
}

/// The start bitrate is announced once: a second announcement changes nothing.
pub proof fn announcing_twice_changes_nothing(sdp: Seq<char>, first: u32, second: u32)
    ensures
        announced(announced(sdp, start_note(first)), start_note(second)) == announced(
            sdp,
            start_note(first),
        ),
    decreases sdp.len(),
{
    let a = start_note(first);
    let b = start_note(second);
    if sdp.len() > 0 {
        let n = line_len(sdp);
        strings::lemma_find(sdp, '\n');
        let line = sdp.take(n);
        let rest = sdp.skip(n);
        announcing_twice_changes_nothing(rest, first, second);
        let once = annotated(line, a);
        let tail = announced(rest, a);
        lemma_note(first);
        lemma_annotated_line(line, first, second, rest.len() == 0);
        if rest.len() == 0 {
            assert(tail == Seq::<char>::empty());
        }
        assert(once + tail == announced(sdp, a));
        let whole = once + tail;
        strings::lemma_find(once, '\n');
        if rest.len() > 0 {
            assert(once[once.len() - 1] == '\n');
            assert forall|j: int| 0 <= j < once.len() - 1 implies whole[j] != '\n' by {
                assert(whole[j] == once[j]);
            }
            strings::lemma_find_is(whole, '\n', once.len() - 1);
        } else {
            assert(whole == once);
        }
        assert(line_len(whole) == once.len());
        assert(whole.take(once.len() as int) == once);
        assert(whole.skip(once.len() as int) == tail);
        assert(announced(whole, b) == annotated(once, b) + announced(tail, b));
    }
}

/// The note holds no line ending and names the parameter.
pub proof fn lemma_note(kbps: u32)
    ensures
        forall|j: int| 0 <= j < start_note(kbps).len() ==> !is_eol(#[trigger] start_note(kbps)[j]),
        start_note(kbps).len() > 24,
        start_note(kbps).subrange(1, 24) == "x-google-start-bitrate="@,
        "x-google-start-bitrate="@.len() == 23,
        start_note(kbps)[0] == ';',
{
    reveal_strlit(";x-google-start-bitrate=");
    reveal_strlit("x-google-start-bitrate=");
    strings::decimal_is_read_back(kbps as nat, kbps as nat);
    let d = strings::decimal(kbps as nat);
    let p = ";x-google-start-bitrate="@;
    assert forall|j: int| 0 <= j < start_note(kbps).len() implies !is_eol(
        #[trigger] start_note(kbps)[j],
    ) by {
        if j < p.len() {
            assert(start_note(kbps)[j] == p[j]);
        } else {
            assert(start_note(kbps)[j] == d[j - p.len()]);
        }
    }
    assert(start_note(kbps).subrange(1, 24) =~= "x-google-start-bitrate="@);
}

/// What `without_eol` takes away are line-ending characters, and it stops before another one.
pub proof fn lemma_without_eol(line: Seq<char>)
    ensures
        without_eol(line).len() <= line.len(),
        line.take(without_eol(line).len() as int) == without_eol(line),
        forall|j: int| without_eol(line).len() <= j < line.len() ==> is_eol(#[trigger] line[j]),
        without_eol(line).len() > 0 ==> !is_eol(without_eol(line).last()),
    decreases line.len(),
{
    if line.len() > 0 && is_eol(line.last()) {
        let l = line.drop_last();
        lemma_without_eol(l);
        let n = without_eol(line).len() as int;
        assert(line.take(n) == l.take(n));
        assert forall|j: int| n <= j < line.len() implies is_eol(#[trigger] line[j]) by {
            if j < l.len() {
                assert(l[j] == line[j]);
            }
        }
    } else {
        assert(line.take(line.len() as int) == line);
    }
}

/// A text followed by line-ending characters only loses exactly those.
proof fn lemma_without_eol_is(body: Seq<char>, line: Seq<char>)
    requires
        body.len() <= line.len(),
        line.take(body.len() as int) == body,
        forall|j: int| body.len() <= j < line.len() ==> is_eol(#[trigger] line[j]),
        body.len() > 0 ==> !is_eol(body.last()),
    ensures
        without_eol(line) == body,
    decreases line.len(),
{
    if body.len() == line.len() {
        assert(line == body);
    } else {
        let l = line.drop_last();
        assert(l.take(body.len() as int) == body);
        assert forall|j: int| body.len() <= j < l.len() implies is_eol(#[trigger] l[j]) by {
            assert(l[j] == line[j]);
        }
        lemma_without_eol_is(body, l);
    }
}

/// An annotated line ends as the line did, and is not annotated again.
proof fn lemma_annotated_line(line: Seq<char>, first: u32, second: u32, last: bool)
    requires
        line.len() > 0,
        forall|j: int| 0 <= j < line.len() - 1 ==> line[j] != '\n',
        !last ==> line.last() == '\n',
    ensures
        ({
            let once = annotated(line, start_note(first));
            &&& once.len() > 0
            &&& forall|j: int| 0 <= j < once.len() - 1 ==> once[j] != '\n'
            &&& once.last() == line.last() || line.last() != '\n' && once.last() != '\n'
            &&& annotated(once, start_note(second)) == once
        }),
{
    let note = start_note(first);
    let body = without_eol(line);
    let once = annotated(line, note);
    lemma_note(first);
    lemma_without_eol(line);
    if lacks_start_bitrate(body) {
        let tail = line.skip(body.len() as int);
        let long = body + note;
        assert(once == long + tail);
        assert forall|j: int| long.len() <= j < once.len() implies is_eol(#[trigger] once[j]) by {
            assert(once[j] == line[j - note.len()]);
        }
        assert(once.take(long.len() as int) == long);
        assert(long.last() == note.last());
        assert(!is_eol(note[note.len() - 1]));
        lemma_without_eol_is(long, once);
        let i: int = body.len() as int + 1;
        assert(long.subrange(i, i + 23) == note.subrange(1, 24));
        assert(strings::occurs_at(long, "x-google-start-bitrate="@, i));
        assert forall|j: int| 0 <= j < once.len() - 1 implies once[j] != '\n' by {
            if j < body.len() {
                assert(once[j] == line[j]);
                assert(!is_eol(line[j]) || j < line.len() - 1 || body.len() == line.len());
            } else if j < long.len() {
                assert(once[j] == note[j - body.len()]);
            } else {
                assert(once[j] == line[j - note.len()]);
            }
        }
    }
}

/// The ceiling at a height: the configured one from 1080 lines on, nine sixteenths of it from 720
/// lines on, and a quarter below, each rounded to the nearest.
pub proof fn ceilings_follow_the_pixels(height: u32, max: u32)
    ensures
        height >= 1080 ==> ceiling_kbps(height, max) == max,
        720 <= height < 1080 ==> -8 <= ceiling_kbps(height, max) * 16 - max * 9 <= 8,
        height < 720 ==> -2 <= ceiling_kbps(height, max) * 4 - max <= 2,
        height < 720 && max % 4 == 2 ==> ceiling_kbps(height, max) * 4 == max + 2,
        720 <= height < 1080 && max * 9 % 16 == 8 ==> ceiling_kbps(height, max) * 16 == max * 9 + 8,
{
}

/// H.264 is negotiated at 90 kHz in packetization mode 1, with the feedback that asks for key
/// frames, repeats lost packets and estimates the bandwidth.
pub proof fn h264_is_described(profile: Seq<char>)
    ensures
        ({
            let c = h264_codec(fmtp_line(profile));
            &&& c.mime_type == "video/H264"@
            &&& c.clock_rate == 90000
            &&& c.channels == 0
            &&& c.fmtp == "level-asymmetry-allowed=1;packetization-mode=1;profile-level-id="@
                + profile
            &&& c.feedback.len() == 5
            &&& c.feedback.contains(("nack"@, "pli"@))
            &&& c.feedback.contains(("ccm"@, "fir"@))
            &&& c.feedback.contains(("nack"@, ""@))
            &&& c.feedback.contains(("transport-cc"@, ""@))
            &&& c.feedback.contains(("goog-remb"@, ""@))
        }),
{
    let f = h264_feedback();
    assert(f[0] == ("goog-remb"@, ""@) && f[1] == ("ccm"@, "fir"@) && f[2] == ("nack"@, ""@));
    assert(f[3] == ("nack"@, "pli"@) && f[4] == ("transport-cc"@, ""@));
}

/// The profiles offered are the default ones, each under its own payload type, in their order but
/// for the configured one, which comes first; one that is not among them comes before all three.
pub proof fn profiles_keep_their_order(wanted: Seq<char>)
    ensures
        base_profiles() == seq![("42e01f"@, 125u8), ("42001f"@, 102u8), ("640032"@, 123u8)],
        ({
            let b = base_profiles();
            let o = preferred_profiles(wanted);
            let named = |i: int|
                strings::has_text(fmtp_line(b[i].0), "profile-level-id="@ + wanted);
            &&& named(0) ==> o == b
            &&& !named(0) && named(1) ==> o == seq![b[1], b[0], b[2]]
            &&& !named(0) && !named(1) && named(2) ==> o == seq![b[2], b[0], b[1]]
            &&& !named(0) && !named(1) && !named(2) ==> o == seq![(wanted, 112u8)] + b
        }),
{
    let b = base_profiles();
    let o = preferred_profiles(wanted);
    if !names_profile(0, wanted) && !names_profile(1, wanted) && !names_profile(2, wanted) {
        assert(o =~= seq![(wanted, 112u8)] + b);
    }
}

/// The start bitrate goes at the end of every H.264 fmtp line that has none, before its line
/// ending; every other line stays as it is.
pub proof fn fmtp_lines_take_the_note(body: Seq<char>, eol: Seq<char>, note: Seq<char>)
    requires
        forall|i: int| 0 <= i < eol.len() ==> is_eol(#[trigger] eol[i]),
        body.len() > 0 ==> !is_eol(body.last()),
    ensures
        ({
            let takes = strings::occurs_at(body, "a=fmtp:"@, 0) && strings::has_text(
                body,
                "profile-level-id="@,
            ) && !strings::has_text(body, "x-google-start-bitrate="@);
            &&& takes ==> annotated(body + eol, note) == body + note + eol
            &&& !takes ==> annotated(body + eol, note) == body + eol
        }),
{
    lemma_body(body, eol);
    assert((body + eol).skip(body.len() as int) =~= eol);
}

proof fn lemma_body(body: Seq<char>, eol: Seq<char>)
    requires
        forall|i: int| 0 <= i < eol.len() ==> is_eol(#[trigger] eol[i]),
        body.len() > 0 ==> !is_eol(body.last()),
    ensures
        without_eol(body + eol) == body,
    decreases eol.len(),
{
    if eol.len() == 0 {
        assert(body + eol =~= body);
    } else {
        let e = eol.drop_last();
        assert forall|i: int| 0 <= i < e.len() implies is_eol(#[trigger] e[i]) by {
            assert(e[i] == eol[i]);
        }
        lemma_body(body, e);
        assert((body + eol).drop_last() =~= body + e);
        assert((body + eol).last() == eol[eol.len() - 1]);
    }
}

/// An offer is announced line by line: the first line by itself, then the rest.
pub proof fn offers_are_announced_line_by_line(line: Seq<char>, rest: Seq<char>, note: Seq<char>)
    requires
        !line.contains('\n'),
    ensures
        announced(line + seq!['\n'] + rest, note) == annotated(line + seq!['\n'], note) + announced(
            rest,
            note,
        ),
        line.len() > 0 ==> announced(line, note) == annotated(line, note),
        announced(Seq::empty(), note).len() == 0,
{
    let s = line + seq!['\n'] + rest;
    let n = line.len() as int;
    assert(s[n] == '\n');
    assert forall|j: int| 0 <= j < n implies s[j] != '\n' by {
        assert(line.contains(line[j]));
    }
    strings::lemma_find_is(s, '\n', n);
    assert(s.take(n + 1) =~= line + seq!['\n']);
    assert(s.skip(n + 1) =~= rest);
    if line.len() > 0 {
        assert forall|j: int| 0 <= j < n implies line[j] != '\n' by {
            assert(line.contains(line[j]));
        }
        strings::lemma_find_is(line, '\n', n);
        assert(line.take(n) =~= line);
        assert(line.skip(n) =~= Seq::<char>::empty());
        assert(announced(line.skip(n), note) == Seq::<char>::empty());
        assert(annotated(line, note) + Seq::<char>::empty() =~= annotated(line, note));
    }
}

/// The note names the parameter and its value in kb/s.
pub proof fn note_names_the_bitrate(kbps: u32)
    ensures
        start_note(kbps) == ";x-google-start-bitrate="@ + strings::decimal(kbps as nat),
        is_eol('\r'),
        is_eol('\n'),
        forall|c: char| #[trigger] is_eol(c) ==> c == '\r' || c == '\n',
{
}

/// A line `prefix`, a word, a space and a rest has that word and that rest; a line that begins
/// otherwise has neither.
pub proof fn attributes_are_read(
    prefix: Seq<char>,
    word: Seq<char>,
    rest: Seq<char>,
    line: Seq<char>,
)
    requires
        !word.contains(' '),
    ensures
        attribute(prefix + word + seq![' '] + rest, prefix) == Some((word, rest)),
        attribute(prefix + word, prefix) == Some((word, Seq::<char>::empty())),
        !(line.len() >= prefix.len() && line.take(prefix.len() as int) == prefix) ==> attribute(
            line,
            prefix,
        ) is None,
{
    let n = prefix.len() as int;
    let l = prefix + word + seq![' '] + rest;
    assert(l.subrange(0, n) =~= prefix);
    let r = l.skip(n);
    assert(r =~= word + seq![' '] + rest);
    assert forall|j: int| 0 <= j < word.len() implies r[j] != ' ' by {
        assert(word.contains(word[j]));
    }
    strings::lemma_find_is(r, ' ', word.len() as int);
    assert(r.take(word.len() as int) =~= word);
    assert(r.skip(word.len() as int + 1) =~= rest);
    let m = prefix + word;
    assert(m.subrange(0, n) =~= prefix);
    let q = m.skip(n);
    assert(q =~= word);
    assert forall|j: int| 0 <= j < word.len() implies q[j] != ' ' by {
        assert(word.contains(word[j]));
    }
    strings::lemma_find_is(q, ' ', word.len() as int);
    assert(q.take(word.len() as int) =~= word);
    if line.len() >= n {
        assert(line.subrange(0, n) =~= line.take(n));
    }
}

/// A payload type is mapped to H.264 by a line that gives its number and a name that begins with
/// `H264/`, in either case; by no other line.
pub proof fn mappings_are_read(pt: u8, name: Seq<char>, line: Seq<char>)
    ensures
        strings::occurs_at(strings::ascii_lowercase(name), "h264/"@, 0) ==> mapped_h264(
            "a=rtpmap:"@ + strings::decimal(pt as nat) + seq![' '] + name,
        ) == Some(pt),
        !strings::occurs_at(strings::ascii_lowercase(name), "h264/"@, 0) ==> mapped_h264(
            "a=rtpmap:"@ + strings::decimal(pt as nat) + seq![' '] + name,
        ) is None,
        !strings::occurs_at(line, "a=rtpmap:"@, 0) ==> mapped_h264(line) is None,
{
    let d = strings::decimal(pt as nat);
    strings::decimal_is_read_back(pt as nat, 255);
    assert(!d.contains(' '));
    attributes_are_read("a=rtpmap:"@, d, name, line);
}

/// The payload types of H.264 are listed in the order of their lines.
pub proof fn payload_types_keep_their_order(lines: Seq<Seq<char>>, line: Seq<char>)
    ensures
        mapped_h264(line) is Some ==> h264_payload_types(lines.push(line)) == h264_payload_types(
            lines,
        ).push(mapped_h264(line)->0),
        mapped_h264(line) is None ==> h264_payload_types(lines.push(line)) == h264_payload_types(
            lines,
        ),
        h264_payload_types(Seq::empty()).len() == 0,
{
    let f = |l: Seq<char>| mapped_h264(l);
    let all = lines.push(line);
    all.lemma_filter_map_take_succ(f, lines.len() as int);
    assert(all.take(lines.len() as int) =~= lines);
    assert(all.take(all.len() as int) =~= all);
    assert(Seq::<Seq<char>>::empty().filter_map(f) =~= Seq::<u8>::empty());
}

/// A parameter is read at its first `=`; the last one of a name is the one that counts.
pub proof fn last_parameter_counts(
    params: Seq<Seq<char>>,
    key: Seq<char>,
    value: Seq<char>,
    other: Seq<char>,
)
    requires
        !key.contains('='),
    ensures
        param_key(key + seq!['='] + value) == key,
        param_value(key + seq!['='] + value) == value,
        param_key(key) == key,
        param_value(key).len() == 0,
        last_value(params.push(key + seq!['='] + value), key) == Some(value),
        param_key(other) != key ==> last_value(params.push(other), key) == last_value(params, key),
        last_value(Seq::empty(), key) is None,
{
    let kv = key + seq!['='] + value;
    let n = key.len() as int;
    assert forall|j: int| 0 <= j < n implies kv[j] != '=' by {
        assert(key.contains(key[j]));
    }
    assert(kv[n] == '=');
    strings::lemma_find_is(kv, '=', n);
    assert(kv.take(n) =~= key);
    assert(kv.skip(n + 1) =~= value);
    assert forall|j: int| 0 <= j < n implies key[j] != '=' by {
        assert(key.contains(key[j]));
    }
    strings::lemma_find_is(key, '=', n);
    assert(key.take(n) =~= key);
    assert(params.push(kv).drop_last() =~= params);
    assert(params.push(other).drop_last() =~= params);
}

/// Parameters offer H.264 where they name a profile and are in packetization mode 1, and only then:
/// that profile in lower case, the start bitrate where it is a number, and the other parameters as
/// they came, without the start bitrate and without empty ones.
pub proof fn parameters_offer_h264(pt: u8, params: Seq<Seq<char>>)
    ensures
        ({
            let profile = last_value(params, "profile-level-id"@);
            let mode = last_value(params, "packetization-mode"@);
            let start = last_value(params, "x-google-start-bitrate"@);
            let r = read_params(pt, params);
            &&& r is Some <==> profile is Some && mode == Some("1"@)
            &&& r is Some ==> {
                let o = r->0;
                &&& o.payload_type == pt
                &&& o.profile_level_id == strings::ascii_lowercase(profile->0)
                &&& o.fmtp == strings::join(
                    params.filter(
                        |kv: Seq<char>|
                            kv.len() > 0 && param_key(kv) != "x-google-start-bitrate"@,
                    ),
                    ";"@,
                )
                &&& start is None ==> o.start_bitrate_kbps is None
                &&& start is Some && strings::parse_unsigned(start->0, u32::MAX as nat) is None
                    ==> o.start_bitrate_kbps is None
                &&& start is Some && strings::parse_unsigned(start->0, u32::MAX as nat) is Some
                    ==> o.start_bitrate_kbps is Some && o.start_bitrate_kbps->0
                    == strings::parse_unsigned(start->0, u32::MAX as nat)->0
            }
        }),
{
    let f = |kv: Seq<char>| kv.len() > 0 && param_key(kv) != "x-google-start-bitrate"@;
    let g = |kv: Seq<char>| is_codec_param(kv);
    assert(f =~= g);
}

/// An fmtp line is a candidate under the place of its payload type among those of H.264, the first
/// one where it is listed twice.
pub proof fn fmtp_lines_are_candidates(
    pt: u8,
    params: Seq<char>,
    pts: Seq<u8>,
    rank: int,
    line: Seq<char>,
)
    requires
        0 <= rank < pts.len(),
        pts[rank] == pt,
        forall|j: int| 0 <= j < rank ==> pts[j] != pt,
    ensures
        ({
            let l = "a=fmtp:"@ + strings::decimal(pt as nat) + seq![' '] + params;
            let r = read_params(pt, fmtp_params(params));
            &&& r is Some ==> candidate(l, pts) == Some((rank, r->0))
            &&& r is None ==> candidate(l, pts) is None
        }),
        !strings::occurs_at(line, "a=fmtp:"@, 0) ==> candidate(line, pts) is None,
{
    let d = strings::decimal(pt as nat);
    strings::decimal_is_read_back(pt as nat, 255);
    assert(!d.contains(' '));
    attributes_are_read("a=fmtp:"@, d, params, line);
    assert(pts.contains(pt));
    pts.index_of_first_ensures(pt);
    let k = pts.index_of_first(pt)->0;
    assert(pts[k] == pt);
    assert(k == rank);
}

/// The parameters of a line are separated by `;`, white space around them apart.
pub proof fn parameters_are_separated(params: Seq<char>, i: int)
    requires
        0 <= i < strings::split(params, ';').len(),
    ensures
        fmtp_params(params).len() == strings::split(params, ';').len(),
        fmtp_params(params)[i] == strings::trim(strings::split(params, ';')[i]),
{
}

/// What a stream is split into has no empty unit and no start code inside one; a stream without a
/// start code has none.
pub proof fn units_stand_between_start_codes(data: Seq<u8>)
    ensures
        forall|i: int|
            0 <= i < annexb_units(data).len() ==> (#[trigger] annexb_units(data)[i]).len() > 0,
        forall|i: int, j: int|
            0 <= i < annexb_units(data).len() && 0 <= j && j + 2 < annexb_units(data)[i].len()
                ==> !(#[trigger] annexb_units(data)[i][j] == 0 && annexb_units(data)[i][j + 1] == 0
                && annexb_units(data)[i][j + 2] == 1),
        (forall|i: int| !#[trigger] code_at(data, i)) ==> annexb_units(data).len() == 0,
        forall|i: int|
            #[trigger] code_at(data, i) <==> 0 <= i && i + 3 <= data.len() && data[i] == 0 && data[i
                + 1] == 0 && data[i + 2] == 1,
{
    let p = next_code(data, 0);
    lemma_next_code(data, 0);
    if p < data.len() {
        assert(code_at(data, p));
        lemma_units_from_are_units(data, p + 3);
    }
    let all = annexb_units(data);
    assert forall|i: int, j: int|
        0 <= i < all.len() && 0 <= j && j + 2 < all[i].len() implies !(#[trigger] all[i][j] == 0
        && all[i][j + 1] == 0 && all[i][j + 2] == 1) by {
        assert(is_unit(all[i]));
        assert(!code_at(all[i], j));
    }
}

proof fn lemma_units_from_are_units(data: Seq<u8>, s: int)
    ensures
        forall|i: int|
            0 <= i < units_from(data, s).len() ==> is_unit(#[trigger] units_from(data, s)[i]),
    decreases data.len() - s,
{
    let q = next_code(data, s);
    lemma_next_code(data, s);
    if 0 <= s < data.len() {
        let e = if q < data.len() {
            q
        } else {
            data.len() as int
        };
        let whole = data.subrange(s, e);
        let short = before_code(whole);
        assert forall|j: int| !#[trigger] code_at(whole, j) by {
            if code_at(whole, j) {
                assert(data[s + j] == whole[j] && data[s + j + 1] == whole[j + 1] && data[s + j
                    + 2] == whole[j + 2]);
                assert(code_at(data, s + j));
            }
        }
        assert forall|j: int| !#[trigger] code_at(short, j) by {
            if code_at(short, j) {
                assert(short[j] == whole[j] && short[j + 1] == whole[j + 1] && short[j + 2]
                    == whole[j + 2]);
                assert(code_at(whole, j));
            }
        }
        if q < data.len() {
            lemma_units_from_are_units(data, q + 3);
            let head = if_any(short);
            let tail = units_from(data, q + 3);
            assert forall|i: int| 0 <= i < (head + tail).len() implies is_unit(
                #[trigger] (head + tail)[i],
            ) by {
                if i >= head.len() {
                    assert((head + tail)[i] == tail[i - head.len()]);
                }
            }
        }
    }
}

/// Bytes before the first start code belong to no unit.
pub proof fn bytes_before_the_first_code_are_skipped(
    head: Seq<u8>,
    unit: Seq<u8>,
    data: Seq<u8>,
)
    requires
        is_unit(unit),
        data == head + seq![0u8, 0u8, 1u8] + unit,
        forall|i: int| i < head.len() ==> !#[trigger] code_at(data, i),
    ensures
        annexb_units(data) == seq![unit],
{
    let n = head.len() as int;
    assert(code_at(data, n));
    lemma_next_code_is(data, 0, n);
    let s = n + 3;
    assert forall|j: int| s <= j implies !#[trigger] code_at(data, j) by {
        if code_at(data, j) {
            assert(unit[j - s] == data[j] && unit[j - s + 1] == data[j + 1] && unit[j - s + 2]
                == data[j + 2]);
            assert(code_at(unit, j - s));
        }
    }
    lemma_next_code(data, s);
    assert(next_code(data, s) == data.len()) by {
        if next_code(data, s) < data.len() {
            assert(code_at(data, next_code(data, s)));
        }
    }
    assert(data.subrange(s, data.len() as int) =~= unit);
}

} // verus!
