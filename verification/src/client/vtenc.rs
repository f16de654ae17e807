//! H.264 encoder control: profile, target size, session lifetime, Annex-B output and the bounded
//! queue towards the RTP writer.

use super::queue::{Queue, SendOutcome};
use crate::h264;
use crate::strings;
use tokio::sync::mpsc::Sender;
use vstd::prelude::*;

verus! {

/// Longest interval between two key frames, in seconds: a net should a request get lost.
pub const MAX_KEYFRAME_INTERVAL_S: u32 = 10;

/// Negotiated H.264 profile.
#[derive(Debug, Clone, Copy, PartialEq, Eq, Structural)]
pub enum Profile {
    Baseline,
    Main,
    High,
}

/// Profile named by a `profile-level-id`: `4d…` is Main, `64…` is High, anything else Baseline.
pub open spec fn profile_of(id: Seq<char>) -> Profile {
    let two = strings::ascii_lowercase(id.take(2));
    if id.len() >= 2 && two == "4d"@ {
        Profile::Main
    } else if id.len() >= 2 && two == "64"@ {
        Profile::High
    } else {
        Profile::Baseline
    }
}

impl Profile {
    /// The profile of an offer's `profile-level-id`.
    pub fn from_profile_level_id(id: &str) -> (r: Self)
        ensures
            r == profile_of(id@),
    {
        let s = strings::chars_of(id);
        if s.len() < 2 {
            return Profile::Baseline;
        }
        let two = strings::part(s.as_slice(), 0, 2);
        assert(two@ == id@.take(2));
        let low = strings::ascii_lowercase_of(two.as_slice());
        if strings::is_text(low.as_slice(), "4d") {
            Profile::Main
        } else if strings::is_text(low.as_slice(), "64") {
            proof {
                reveal_strlit("4d");
                reveal_strlit("64");
            }
            Profile::High
        } else {
            Profile::Baseline
        }
    }
}

/// Encoder settings.
#[derive(Debug, Clone, Copy, PartialEq, Eq, Structural)]
pub struct EncoderConfig {
    pub fps: u32,
    pub bitrate_bps: u32,
    pub profile: Profile,
}

/// One encoded access unit (Annex-B).
pub struct EncodedFrame {
    pub data: Vec<u8>,
    pub keyframe: bool,
    /// Instant of capture, in nanoseconds of the local monotonic clock.
    pub captured: u64,
    /// Presentation time of the camera, in nanoseconds.
    pub pts: u64,
    pub width: u32,
    pub height: u32,
}

/// Contents of an [`EncodedFrame`].
pub struct FrameView {
    pub data: Seq<u8>,
    pub keyframe: bool,
    pub captured: u64,
    pub pts: u64,
    pub width: u32,
    pub height: u32,
}

impl View for EncodedFrame {
    type V = FrameView;

    open spec fn view(&self) -> FrameView {
        FrameView {
            data: self.data@,
            keyframe: self.keyframe,
            captured: self.captured,
            pts: self.pts,
            width: self.width,
            height: self.height,
        }
    }
}

/// Destination of the encoded frames, one session at a time, behind a bounded queue: where the
/// RTP writer falls behind, the frame is dropped here and the next one will be a key frame.
pub struct Output {
    pub queue: Queue,
    pub need_keyframe: bool,
    pub dropped: u32,
}

/// Contents of an [`Output`]: the sender in use, and every frame handed to one with what became
/// of it.
pub struct OutputView {
    pub tx: Option<Sender<EncodedFrame>>,
    pub handed: Seq<(FrameView, SendOutcome)>,
    pub need_keyframe: bool,
    pub dropped: u32,
}

impl View for Output {
    type V = OutputView;

    open spec fn view(&self) -> OutputView {
        OutputView {
            tx: self.queue.tx(),
            handed: self.queue.handed(),
            need_keyframe: self.need_keyframe,
            dropped: self.dropped,
        }
    }
}

impl Default for Output {
    fn default() -> (r: Self)
        ensures
            r@.tx is None,
            r@.handed.len() == 0,
            !r.need_keyframe,
            r.dropped == 0,
    {
        Output { queue: Queue::new(), need_keyframe: false, dropped: 0 }
    }
}

/// An output after the outcome of a frame was booked.
pub open spec fn booked(before: OutputView, outcome: SendOutcome) -> OutputView {
    match outcome {
        SendOutcome::Sent => before,
        SendOutcome::Full => OutputView {
            need_keyframe: true,
            dropped: before.dropped.wrapping_add(1),
            ..before
        },
        SendOutcome::Closed => OutputView { tx: None, ..before },
    }
}

/// An output after a frame was handed to its sender and had this outcome.
pub open spec fn after_send(
    before: OutputView,
    frame: FrameView,
    outcome: SendOutcome,
) -> OutputView {
    booked(OutputView { handed: before.handed.push((frame, outcome)), ..before }, outcome)
}

impl Output {
    /// Encoded frames waiting for the RTP writer at most.
    pub const QUEUE: usize = 3;

    /// Sends to this queue from now on.
    pub fn attach(&mut self, tx: Sender<EncodedFrame>)
        ensures
            final(self)@ == (OutputView { tx: Some(tx), ..old(self)@ }),
    {
        self.queue.attach(tx);
    }

    /// Sends nowhere from now on.
    pub fn detach(&mut self)
        ensures
            final(self)@ == (OutputView { tx: None, ..old(self)@ }),
    {
        self.queue.detach();
    }

    /// Whether frames go anywhere.
    pub fn is_attached(&self) -> (r: bool)
        ensures
            r == (self@.tx is Some),
    {
        self.queue.is_attached()
    }

    /// True once after a frame was dropped for want of room: the next one is to be a key frame.
    pub fn take_need_keyframe(&mut self) -> (r: bool)
        ensures
            r == old(self).need_keyframe,
            final(self)@ == (OutputView { need_keyframe: false, ..old(self)@ }),
    {
        let need = self.need_keyframe;
        self.need_keyframe = false;
        need
    }

    /// Frames dropped for want of room since the start.
    pub fn dropped(&self) -> (r: u32)
        ensures
            r == self.dropped,
    {
        self.dropped
    }

    /// Books what became of a frame.
    pub fn record(&mut self, outcome: SendOutcome)
        ensures
            final(self)@ == booked(old(self)@, outcome),
    {
        match outcome {
            SendOutcome::Sent => {},
            SendOutcome::Full => {
                self.dropped = self.dropped.wrapping_add(1);
                self.need_keyframe = true;
            },
            SendOutcome::Closed => {
                self.queue.detach();
            },
        }
    }

    /// Hands a frame to the queue; without a queue the frame is ignored.
    pub fn send(&mut self, frame: EncodedFrame)
        ensures
            old(self)@.tx is None ==> final(self)@ == old(self)@,
            old(self)@.tx is Some ==> exists|o: SendOutcome|
                final(self)@ == #[trigger] after_send(old(self)@, frame@, o),
    {
        if let Some(outcome) = self.queue.hand(frame) {
            self.record(outcome);
            assert(self@ == after_send(old(self)@, frame@, outcome));
        }
    }
}

/// A frame handed over goes on record once, whatever became of it, and nothing of the record is
/// lost; a key frame is asked for exactly where it did not fit.
pub proof fn frames_are_handed_over_once(before: OutputView, frame: FrameView, outcome: SendOutcome)
    ensures
        ({
            let after = after_send(before, frame, outcome);
            &&& after.handed == before.handed.push((frame, outcome))
            &&& after.need_keyframe == (before.need_keyframe || outcome == SendOutcome::Full)
            &&& after.tx == (if outcome == SendOutcome::Closed {
                None
            } else {
                before.tx
            })
        }),
{
}

/// Shared counters.
#[derive(Debug, Clone, Copy, PartialEq, Eq, Structural)]
pub struct Counters {
    pub frames_out: u64,
    pub bytes_out: u64,
    pub keyframes: u32,
    pub errors: u32,
    /// Frames dropped before encoding or by the encoder.
    pub dropped: u32,
    /// Size actually encoded.
    pub width: u32,
    pub height: u32,
    /// Times the audio output ran dry.
    pub audio_underruns: u32,
}

impl Default for Counters {
    fn default() -> (r: Self)
        ensures
            r == (Counters {
                frames_out: 0,
                bytes_out: 0,
                keyframes: 0,
                errors: 0,
                dropped: 0,
                width: 0,
                height: 0,
                audio_underruns: 0,
            }),
    {
        Counters {
            frames_out: 0,
            bytes_out: 0,
            keyframes: 0,
            errors: 0,
            dropped: 0,
            width: 0,
            height: 0,
            audio_underruns: 0,
        }
    }
}

impl Counters {
    /// Books a camera picture on its way to the encoder: one that found the queue full is
    /// dropped.
    pub fn pushed(&mut self, accepted: bool)
        ensures
            *final(self) == (if accepted {
                *old(self)
            } else {
                Counters { dropped: old(self).dropped.wrapping_add(1), ..*old(self) }
            }),
    {
        if !accepted {
            self.dropped = self.dropped.wrapping_add(1);
        }
    }
}

/// Even number at or below `n`.
pub open spec fn even_below(n: int) -> int {
    n - n % 2
}

/// Size that caps the height at `max_height` and keeps the ratio, both sides even and the width
/// at least 2; none where the source is small enough or there is no cap.
pub open spec fn reduced(width: u32, height: u32, max_height: u32) -> Option<(int, int)> {
    if max_height == 0 || height <= max_height {
        None
    } else {
        let w = even_below(width as int * max_height as int / height as int);
        Some(
            (
                if w < 2 {
                    2
                } else {
                    w
                },
                even_below(max_height as int),
            ),
        )
    }
}

/// Target size for a cap on the height.
pub fn scaled_dims(width: u32, height: u32, max_height: u32) -> (r: Option<(u32, u32)>)
    ensures
        (match r {
            Some((w, h)) => reduced(width, height, max_height) == Some((w as int, h as int)),
            None => reduced(width, height, max_height) is None,
        }),
{
    if max_height == 0 || height <= max_height {
        return None;
    }
    let a: u64 = width as u64;
    let b: u64 = max_height as u64;
    let c: u64 = height as u64;
    assert(a * b <= 0xffff_ffff * 0xffff_ffff) by (nonlinear_arith)
        requires
            a <= 0xffff_ffff,
            b <= 0xffff_ffff,
    ;
    let q: u64 = a * b / c;
    assert(0 <= q <= a) by (nonlinear_arith)
        requires
            q == a * b / c as int,
            0 <= b <= c,
            c > 0,
            a >= 0,
    ;
    let w: u32 = q as u32;
    let even: u32 = w - w % 2;
    let w2: u32 = if even < 2 {
        2
    } else {
        even
    };
    Some((w2, max_height - max_height % 2))
}

/// A reduced picture has even sides, is no taller than the cap and no wider than its source, but
/// for the least width.
pub proof fn reduced_size_is_even_and_capped(width: u32, height: u32, max_height: u32)
    requires
        reduced(width, height, max_height) is Some,
    ensures
        ({
            let (w, h) = reduced(width, height, max_height)->0;
            &&& w % 2 == 0 && h % 2 == 0
            &&& 2 <= w
            &&& w <= width || w == 2
            &&& h <= max_height < height
            &&& w * height <= width * max_height || w == 2
        }),
{
    let a = width as int;
    let b = max_height as int;
    let c = height as int;
    let q = a * b / c;
    assert(0 <= q <= a && q * c <= a * b) by (nonlinear_arith)
        requires
            q == a * b / c,
            0 <= b <= c,
            c > 0,
            a >= 0,
    ;
    let e = even_below(q);
    assert(e * c <= q * c) by (nonlinear_arith)
        requires
            e <= q,
            c > 0,
    ;
}

/// Parameter sets of an encoded stream and the size of the length before each unit.
pub struct SampleFormat {
    pub parameter_sets: Vec<Vec<u8>>,
    pub header_len: i32,
}

/// What an encoder hands back for one frame.
pub struct EncodedSample {
    /// The mark that the frame depends on others, where there is one.
    pub not_sync: Option<bool>,
    /// Stream description, where it can be had.
    pub format: Option<SampleFormat>,
    /// Units behind their lengths, where they can be read.
    pub data: Option<Vec<u8>>,
}

/// Big-endian number.
pub open spec fn big_endian(b: Seq<u8>) -> int
    decreases b.len(),
{
    if b.len() == 0 {
        0
    } else {
        big_endian(b.drop_last()) * 256 + b.last() as int
    }
}

/// The units from position `i` on of a stream in which each stands behind its length, up to the
/// first length that is zero or points past the end.
pub open spec fn avcc_units_from(data: Seq<u8>, header: int, i: int) -> Seq<Seq<u8>>
    decreases data.len() - i,
{
    let len = big_endian(data.subrange(i, i + header));
    let s = i + header;
    if i < 0 || header < 1 || s > data.len() || len <= 0 || s + len > data.len() {
        seq![]
    } else {
        seq![data.subrange(s, s + len)] + avcc_units_from(data, header, s + len)
    }
}

/// The units of a stream in which each stands behind its length.
pub open spec fn avcc_units(data: Seq<u8>, header: int) -> Seq<Seq<u8>> {
    avcc_units_from(data, header, 0)
}

/// Size of a length: between 1 and 4 bytes.
pub open spec fn header_size(header_len: i32) -> int {
    if header_len < 1 {
        1
    } else if header_len > 4 {
        4
    } else {
        header_len as int
    }
}

/// The contents of a list of byte strings.
pub open spec fn byte_strings(v: Seq<Vec<u8>>) -> Seq<Seq<u8>> {
    v.map_values(|x: Vec<u8>| x@)
}

/// A frame is a key frame unless it is marked as depending on others.
pub open spec fn is_keyframe(s: EncodedSample) -> bool {
    s.not_sync != Some(true)
}

/// Annex-B form of a sample: parameter sets first on a key frame, then its units.
pub open spec fn sample_annexb(s: EncodedSample) -> Option<Seq<u8>> {
    if is_keyframe(s) && s.format is None || s.data is None || s.data->0@.len() == 0 {
        None
    } else if is_keyframe(s) {
        Some(
            h264::annexb(
                byte_strings((s.format->0).parameter_sets@) + avcc_units(
                    s.data->0@,
                    header_size((s.format->0).header_len),
                ),
            ),
        )
    } else {
        Some(h264::annexb(avcc_units(s.data->0@, 4)))
    }
}

fn push_unit(out: &mut Vec<u8>, unit: &[u8])
    ensures
        final(out)@ == old(out)@ + seq![0u8, 0u8, 0u8, 1u8] + unit@,
{
    out.push(0);
    out.push(0);
    out.push(0);
    out.push(1);
    assert(out@ == old(out)@ + seq![0u8, 0u8, 0u8, 1u8]);
    out.extend_from_slice(unit);
    assert(out@ == old(out)@ + seq![0u8, 0u8, 0u8, 1u8] + unit@);
}

/// Writing a unit more.
proof fn lemma_annexb_push(units: Seq<Seq<u8>>, unit: Seq<u8>)
    ensures
        h264::annexb(units.push(unit)) == h264::annexb(units) + seq![0u8, 0u8, 0u8, 1u8] + unit,
{
    assert(units.push(unit).drop_last() == units);
}

fn length_at(data: &[u8], i: usize, header: usize) -> (r: usize)
    requires
        1 <= header <= 4,
        i + header <= data.len(),
    ensures
        r == big_endian(data@.subrange(i as int, i + header)),
{
    let ghost all = data@.subrange(i as int, i + header);
    let mut v: u32 = 0;
    let mut k: usize = 0;
    assert(all.take(0) == Seq::<u8>::empty());
    while k < header
        invariant
            1 <= header <= 4,
            k <= header,
            i + header <= data.len(),
            all == data@.subrange(i as int, i + header),
            v == big_endian(all.take(k as int)),
            k == 0 ==> v == 0,
            k == 1 ==> v < 0x100,
            k == 2 ==> v < 0x1_0000,
            k == 3 ==> v < 0x100_0000,
        decreases header - k,
    {
        assert(all.take(k + 1).drop_last() == all.take(k as int));
        assert(all.take(k + 1).last() == data@[i + k]);
        v = v * 256 + data[i + k] as u32;
        k += 1;
    }
    assert(all.take(header as int) == all);
    v as usize
}

/// Annex-B form of an encoded sample, and whether it is a key frame; none where the stream
/// description of a key frame, or the data, cannot be had.
pub fn annexb_from_sample(sample: &EncodedSample) -> (r: Option<(Vec<u8>, bool)>)
    ensures
        (match r {
            Some((data, keyframe)) => sample_annexb(*sample) == Some(data@) && keyframe
                == is_keyframe(*sample),
            None => sample_annexb(*sample) is None,
        }),
{
    let keyframe = match sample.not_sync {
        Some(b) => !b,
        None => true,
    };
    let mut out: Vec<u8> = Vec::new();
    let mut header_len: i32 = 4;
    let ghost mut units: Seq<Seq<u8>> = seq![];
    assert(out@ == h264::annexb(units));
    if keyframe {
        let format = match &sample.format {
            Some(f) => f,
            None => {
                return None;
            },
        };
        header_len = format.header_len;
        let sets = &format.parameter_sets;
        let ghost all = byte_strings(sets@);
        let mut i: usize = 0;
        while i < sets.len()
            invariant
                i <= sets.len(),
                all == byte_strings(sets@),
                units == all.take(i as int),
                out@ == h264::annexb(units),
            decreases sets.len() - i,
        {
            push_unit(&mut out, sets[i].as_slice());
            proof {
                lemma_annexb_push(units, sets@[i as int]@);
                units = units.push(sets@[i as int]@);
                assert(units == all.take(i + 1));
            }
            i += 1;
        }
        assert(all.take(all.len() as int) == all);
    }
    let avcc = match &sample.data {
        Some(d) => d,
        None => {
            return None;
        },
    };
    if avcc.len() == 0 {
        return None;
    }
    let hl: usize = if header_len < 1 {
        1
    } else if header_len > 4 {
        4
    } else {
        header_len as usize
    };
    let ghost sets = units;
    let ghost mut done: Seq<Seq<u8>> = seq![];
    let mut i: usize = 0;
    assert(units == sets + done);
    assert(done + avcc_units_from(avcc@, hl as int, 0) == avcc_units(avcc@, hl as int));
    while i <= avcc.len() && hl <= avcc.len() - i
        invariant_except_break
            i <= avcc.len(),
        invariant
            1 <= hl <= 4,
            units == sets + done,
            out@ == h264::annexb(units),
            done + avcc_units_from(avcc@, hl as int, i as int) == avcc_units(avcc@, hl as int),
        ensures
            done == avcc_units(avcc@, hl as int),
        decreases avcc.len() - i,
    {
        let len: usize = length_at(avcc.as_slice(), i, hl);
        let s: usize = i + hl;
        if len == 0 || len > avcc.len() - s {
            assert(avcc_units_from(avcc@, hl as int, i as int) == Seq::<Seq<u8>>::empty());
            assert(done == avcc_units(avcc@, hl as int));
            break;
        }
        let unit = vstd::slice::slice_subrange(avcc.as_slice(), s, s + len);
        push_unit(&mut out, unit);
        proof {
            lemma_annexb_push(units, unit@);
            units = units.push(unit@);
            done = done.push(unit@);
            assert(units == sets + done);
        }
        i = s + len;
    }
    assert(units == sets + avcc_units(avcc@, hl as int));
    proof {
        if !keyframe {
            assert(sets == Seq::<Seq<u8>>::empty());
            assert(units == avcc_units(avcc@, 4));
        }
    }
    Some((out, keyframe))
}

/// Big-endian writing of a length in four bytes.
pub open spec fn four_bytes(n: nat) -> Seq<u8> {
    seq![
        (n / 0x100_0000 % 256) as u8,
        (n / 0x1_0000 % 256) as u8,
        (n / 0x100 % 256) as u8,
        (n % 256) as u8,
    ]
}

/// The stream in which each unit stands behind its length in four bytes.
pub open spec fn avcc(units: Seq<Seq<u8>>) -> Seq<u8>
    decreases units.len(),
{
    if units.len() == 0 {
        seq![]
    } else {
        avcc(units.drop_last()) + four_bytes(units.last().len()) + units.last()
    }
}

/// A nonempty stream begins with its first unit.
proof fn lemma_avcc_head(units: Seq<Seq<u8>>)
    requires
        units.len() > 0,
    ensures
        avcc(units) == four_bytes(units[0].len()) + units[0] + avcc(units.drop_first()),
    decreases units.len(),
{
    if units.len() == 1 {
        assert(units.drop_last() == Seq::<Seq<u8>>::empty());
        assert(units.drop_first() == Seq::<Seq<u8>>::empty());
        assert(avcc(units) == four_bytes(units[0].len()) + units[0] + avcc(units.drop_first()));
    } else {
        lemma_avcc_head(units.drop_last());
        assert(units.drop_last().drop_first() == units.drop_first().drop_last());
        assert(avcc(units) == four_bytes(units[0].len()) + units[0] + avcc(units.drop_first()));
    }
}

proof fn lemma_four_bytes(n: nat)
    requires
        n <= u32::MAX,
    ensures
        big_endian(four_bytes(n)) == n,
{
    let b = four_bytes(n);
    let b3 = b.drop_last();
    let b2 = b3.drop_last();
    let b1 = b2.drop_last();
    assert(b1.drop_last() == Seq::<u8>::empty());
    assert(big_endian(b1.drop_last()) == 0);
    assert(big_endian(b1) == n / 0x100_0000);
    assert(big_endian(b2) == big_endian(b1) * 256 + (n / 0x1_0000 % 256));
    assert(big_endian(b3) == big_endian(b2) * 256 + (n / 0x100 % 256));
}

/// Reading a stream of units behind their lengths gives those units back.
pub proof fn avcc_is_read_back(units: Seq<Seq<u8>>)
    requires
        forall|i: int| 0 <= i < units.len() ==> 0 < (#[trigger] units[i]).len() <= u32::MAX,
    ensures
        avcc_units(avcc(units), 4) == units,
{
    lemma_avcc_from(units, Seq::empty());
    assert(Seq::<u8>::empty() + avcc(units) == avcc(units));
}

proof fn lemma_avcc_from(units: Seq<Seq<u8>>, before: Seq<u8>)
    requires
        forall|i: int| 0 <= i < units.len() ==> 0 < (#[trigger] units[i]).len() <= u32::MAX,
    ensures
        avcc_units_from(before + avcc(units), 4, before.len() as int) == units,
    decreases units.len(),
{
    let data = before + avcc(units);
    let i = before.len() as int;
    if units.len() == 0 {
        assert(data == before);
        assert(avcc_units_from(data, 4, i) == units);
    } else {
        let u = units[0];
        let rest = units.drop_first();
        lemma_avcc_head(units);
        lemma_four_bytes(u.len());
        assert(data.subrange(i, i + 4) == four_bytes(u.len()));
        assert(data.subrange(i + 4, i + 4 + u.len()) == u);
        let b = before + four_bytes(u.len()) + u;
        assert(data == b + avcc(rest));
        assert forall|j: int| 0 <= j < rest.len() implies 0 < (#[trigger] rest[j]).len()
            <= u32::MAX by {
            assert(rest[j] == units[j + 1]);
        }
        lemma_avcc_from(rest, b);
        assert(units == seq![u] + rest);
    }
}

/// What the encoder was given behind four-byte lengths, the decoder splits back out of the
/// Annex-B stream: the units of a delta frame, or the parameter sets and units of a key frame.
pub proof fn encoded_units_reach_the_decoder(sample: EncodedSample, units: Seq<Seq<u8>>)
    requires
        sample.data is Some,
        units.len() > 0,
        sample.data->0@ == avcc(units),
        forall|i: int|
            0 <= i < units.len() ==> h264::is_unit(#[trigger] units[i]) && units[i].len()
                <= u32::MAX,
        is_keyframe(sample) ==> {
            &&& sample.format is Some
            &&& header_size((sample.format->0).header_len) == 4
            &&& forall|i: int|
                0 <= i < (sample.format->0).parameter_sets@.len() ==> h264::is_unit(
                    #[trigger] byte_strings((sample.format->0).parameter_sets@)[i],
                )
        },
    ensures
        sample_annexb(sample) is Some,
        h264::annexb_units(sample_annexb(sample)->0) == (if is_keyframe(sample) {
            byte_strings((sample.format->0).parameter_sets@) + units
        } else {
            units
        }),
{
    avcc_is_read_back(units);
    lemma_avcc_head(units);
    if is_keyframe(sample) {
        let sets = byte_strings((sample.format->0).parameter_sets@);
        let all = sets + units;
        assert forall|i: int| 0 <= i < all.len() implies h264::is_unit(#[trigger] all[i]) by {
            if i < sets.len() {
                assert(all[i] == sets[i]);
            } else {
                assert(all[i] == units[i - sets.len()]);
            }
        }
        h264::annexb_splits_back(all);
    } else {
        h264::annexb_splits_back(units);
    }
}

/// What goes with a frame through the encoder.
#[derive(Debug, Clone, Copy, PartialEq, Eq, Structural)]
pub struct FrameMeta {
    pub captured: u64,
    pub pts: u64,
    pub width: u32,
    pub height: u32,
}

/// What the encoder reports of a frame.
pub enum EncodeReport {
    /// The encoder failed.
    Failed,
    /// The encoder left the frame out.
    Dropped,
    Encoded(EncodedSample),
}

/// The frame to send for a report, where there is one.
pub open spec fn reported_frame(report: EncodeReport, meta: Option<FrameMeta>) -> Option<
    FrameView,
> {
    match (report, meta) {
        (EncodeReport::Encoded(s), Some(m)) => match sample_annexb(s) {
            Some(data) => Some(
                FrameView {
                    data,
                    keyframe: is_keyframe(s),
                    captured: m.captured,
                    pts: m.pts,
                    width: m.width,
                    height: m.height,
                },
            ),
            None => None,
        },
        _ => None,
    }
}

/// The counters after a report.
pub open spec fn counted(c: Counters, report: EncodeReport, meta: Option<FrameMeta>) -> Counters {
    match report {
        EncodeReport::Failed => Counters { errors: c.errors.wrapping_add(1), ..c },
        EncodeReport::Dropped => Counters { dropped: c.dropped.wrapping_add(1), ..c },
        EncodeReport::Encoded(s) => if meta is None {
            c
        } else {
            match sample_annexb(s) {
                Some(data) => Counters {
                    frames_out: c.frames_out.wrapping_add(1),
                    bytes_out: c.bytes_out.wrapping_add(data.len() as u64),
                    keyframes: if is_keyframe(s) {
                        c.keyframes.wrapping_add(1)
                    } else {
                        c.keyframes
                    },
                    ..c
                },
                None => Counters { errors: c.errors.wrapping_add(1), ..c },
            }
        },
    }
}

/// Books a report of the encoder and makes the frame to send, if any.
pub fn take_report(counters: &mut Counters, report: &EncodeReport, meta: Option<FrameMeta>) -> (r:
    Option<EncodedFrame>)
    ensures
        *final(counters) == counted(*old(counters), *report, meta),
        (match r {
            Some(f) => reported_frame(*report, meta) == Some(f@),
            None => reported_frame(*report, meta) is None,
        }),
{
    match report {
        EncodeReport::Failed => {
            counters.errors = counters.errors.wrapping_add(1);
            None
        },
        EncodeReport::Dropped => {
            counters.dropped = counters.dropped.wrapping_add(1);
            None
        },
        EncodeReport::Encoded(sample) => {
            let m = match meta {
                Some(m) => m,
                None => {
                    return None;
                },
            };
            match annexb_from_sample(sample) {
                Some((data, keyframe)) => {
                    counters.frames_out = counters.frames_out.wrapping_add(1);
                    counters.bytes_out = counters.bytes_out.wrapping_add(data.len() as u64);
                    if keyframe {
                        counters.keyframes = counters.keyframes.wrapping_add(1);
                    }
                    Some(
                        EncodedFrame {
                            data,
                            keyframe,
                            captured: m.captured,
                            pts: m.pts,
                            width: m.width,
                            height: m.height,
                        },
                    )
                },
                None => {
                    counters.errors = counters.errors.wrapping_add(1);
                    None
                },
            }
        },
    }
}

/// Books a report of the encoder and sends its frame on, if any.
pub fn on_encoded(
    counters: &mut Counters,
    output: &mut Output,
    report: &EncodeReport,
    meta: Option<FrameMeta>,
)
    ensures
        *final(counters) == counted(*old(counters), *report, meta),
        reported_frame(*report, meta) is None || old(output)@.tx is None ==> final(output)@ == old(
            output,
        )@,
        reported_frame(*report, meta) is Some && old(output)@.tx is Some ==> exists|o: SendOutcome|
            final(output)@ == #[trigger] after_send(
                old(output)@,
                reported_frame(*report, meta)->0,
                o,
            ),
{
    if let Some(frame) = take_report(counters, report, meta) {
        let ghost sent = frame@;
        output.send(frame);
        proof {
            if old(output)@.tx is Some {
                let o = choose|o: SendOutcome| output@ == #[trigger] after_send(old(output)@, sent, o);
                assert(output@ == after_send(old(output)@, reported_frame(*report, meta)->0, o));
            }
        }
    }
}

/// The picture has no pixels.
#[derive(Debug, Clone, Copy, PartialEq, Eq, Structural)]
pub struct EmptyPicture;

/// Settings of an encoding session.
#[derive(Debug, Clone, Copy, PartialEq, Eq, Structural)]
pub struct SessionSettings {
    pub profile: Profile,
    /// CABAC entropy coding, which Baseline does not have.
    pub cabac: bool,
    pub fps: u32,
    /// Longest interval between key frames, in frames.
    pub keyframe_interval: u32,
    /// Longest interval between key frames, in seconds.
    pub keyframe_interval_s: u32,
}

/// State of the encoder: the session it has, if any, and its settings.
pub struct H264Encoder {
    pub has_session: bool,
    pub cfg: EncoderConfig,
    pub width: u32,
    pub height: u32,
    pub frames_in: u64,
}

/// Average bitrate and ceiling in bytes per second: at least 100 kb/s, and no more than 1.25
/// times the average over one second.
pub open spec fn rate_limits(bps: u32) -> (int, int) {
    let b = if bps < 100_000 {
        100_000
    } else {
        bps as int
    };
    (b, b * 5 / 32)
}

/// The frame rate, at least one frame per second.
pub open spec fn at_least_one(fps: u32) -> int {
    if fps == 0 {
        1
    } else {
        fps as int
    }
}

fn least_one(fps: u32) -> (r: u32)
    ensures
        r == at_least_one(fps),
{
    if fps == 0 {
        1
    } else {
        fps
    }
}

impl H264Encoder {
    /// An encoder without a session.
    pub fn new(cfg: EncoderConfig) -> (r: Self)
        ensures
            r == (H264Encoder { has_session: false, cfg, width: 0, height: 0, frames_in: 0 }),
    {
        H264Encoder { has_session: false, cfg, width: 0, height: 0, frames_in: 0 }
    }

    /// Target bitrate.
    pub fn bitrate(&self) -> (r: u32)
        ensures
            r == self.cfg.bitrate_bps,
    {
        self.cfg.bitrate_bps
    }

    /// Frames submitted so far.
    pub fn frames_submitted(&self) -> (r: u64)
        ensures
            r == self.frames_in,
    {
        self.frames_in
    }

    /// Changes the target bitrate; true where a running session has to be told.
    pub fn set_bitrate(&mut self, bps: u32) -> (r: bool)
        ensures
            r == (old(self).has_session && bps != old(self).cfg.bitrate_bps),
            *final(self) == (H264Encoder {
                cfg: EncoderConfig { bitrate_bps: bps, ..old(self).cfg },
                ..*old(self)
            }),
    {
        if bps == self.cfg.bitrate_bps {
            return false;
        }
        self.cfg = EncoderConfig { fps: self.cfg.fps, bitrate_bps: bps, profile: self.cfg.profile };
        self.has_session
    }

    /// Average bitrate and ceiling (bytes per second) to give the session.
    pub fn apply_bitrate(&self) -> (r: (u32, u32))
        ensures
            (r.0 as int, r.1 as int) == rate_limits(self.cfg.bitrate_bps),
    {
        let b: u32 = if self.cfg.bitrate_bps < 100_000 {
            100_000
        } else {
            self.cfg.bitrate_bps
        };
        (b, (b as u64 * 5 / 32) as u32)
    }

    /// Settings of a new session.
    pub fn session_settings(&self) -> (r: SessionSettings)
        requires
            self.cfg.fps <= u32::MAX / MAX_KEYFRAME_INTERVAL_S,
        ensures
            r.profile == self.cfg.profile,
            r.cabac == (self.cfg.profile != Profile::Baseline),
            r.fps == at_least_one(self.cfg.fps),
            r.keyframe_interval == at_least_one(self.cfg.fps) * 10,
            r.keyframe_interval_s == 10,
    {
        let fps: u32 = least_one(self.cfg.fps);
        SessionSettings {
            profile: self.cfg.profile,
            cabac: self.cfg.profile != Profile::Baseline,
            fps,
            keyframe_interval: fps * MAX_KEYFRAME_INTERVAL_S,
            keyframe_interval_s: MAX_KEYFRAME_INTERVAL_S,
        }
    }

    /// Duration of a frame, in microseconds.
    pub fn frame_duration_us(&self) -> (r: u32)
        ensures
            r == 1_000_000int / at_least_one(self.cfg.fps),
    {
        1_000_000 / least_one(self.cfg.fps)
    }

    /// Whether a picture of this size needs a new session; an empty picture is refused.
    pub fn needs_session(&self, width: u32, height: u32) -> (r: Result<bool, EmptyPicture>)
        ensures
            r is Err <==> width == 0 || height == 0,
            r is Ok ==> r->Ok_0 == (!self.has_session || width != self.width || height
                != self.height),
    {
        if width == 0 || height == 0 {
            return Err(EmptyPicture);
        }
        Ok(!self.has_session || width != self.width || height != self.height)
    }

    /// A session of this size was opened.
    pub fn session_opened(&mut self, counters: &mut Counters, width: u32, height: u32)
        ensures
            *final(self) == (H264Encoder { has_session: true, width, height, ..*old(self) }),
            *final(counters) == (Counters { width, height, ..*old(counters) }),
    {
        self.has_session = true;
        self.width = width;
        self.height = height;
        counters.width = width;
        counters.height = height;
    }

    /// The session is gone; the next picture opens another.
    pub fn session_lost(&mut self)
        ensures
            *final(self) == (H264Encoder { has_session: false, ..*old(self) }),
    {
        self.has_session = false;
    }

    /// Books the submission of a picture; a failed one loses the session.
    pub fn submitted(&mut self, ok: bool)
        requires
            old(self).frames_in < u64::MAX,
        ensures
            ok ==> *final(self) == (H264Encoder {
                frames_in: (old(self).frames_in + 1) as u64,
                ..*old(self)
            }),
            !ok ==> *final(self) == (H264Encoder { has_session: false, ..*old(self) }),
    {
        if ok {
            self.frames_in += 1;
        } else {
            self.session_lost();
        }
    }
}

/// A profile is named by the first two characters of a `profile-level-id`, in either case: `4d` is
/// Main, `64` is High, anything else is Baseline.
pub proof fn profiles_are_named_by_two_digits(id: Seq<char>)
    ensures
        id.len() >= 2 && id[0] == '4' && (id[1] == 'd' || id[1] == 'D') <==> profile_of(id)
            == Profile::Main,
        id.len() >= 2 && id[0] == '6' && id[1] == '4' <==> profile_of(id) == Profile::High,
{
    reveal_strlit("4d");
    reveal_strlit("64");
    let a = "4d"@;
    let b = "64"@;
    assert(a.len() == 2 && a[0] == '4' && a[1] == 'd');
    assert(b.len() == 2 && b[0] == '6' && b[1] == '4');
    if id.len() >= 2 {
        let two = strings::ascii_lowercase(id.take(2));
        assert(two.len() == 2);
        assert(two[0] == strings::ascii_lower(id[0]) && two[1] == strings::ascii_lower(id[1]));
        strings::lemma_ascii_lower_is(id[1], 'd', 'D');
        assert('A' <= id[0] <= 'Z' ==> strings::ascii_lower(id[0]) as u32 >= 97);
        assert('A' <= id[1] <= 'Z' ==> strings::ascii_lower(id[1]) as u32 >= 97);
        if two[0] == '4' && two[1] == 'd' {
            assert(two =~= a);
        }
        if two[0] == '6' && two[1] == '4' {
            assert(two =~= b);
        }
    }
}

/// A frame that was sent changes nothing of the output; one that found no room is counted, and the
/// next one is to be a key frame; a queue that was closed is let go.
pub proof fn outcomes_are_booked(before: OutputView)
    ensures
        booked(before, SendOutcome::Sent) == before,
        booked(before, SendOutcome::Full) == (OutputView {
            need_keyframe: true,
            dropped: before.dropped.wrapping_add(1),
            ..before
        }),
        booked(before, SendOutcome::Closed) == (OutputView { tx: None, ..before }),
{
}

/// A picture taller than the cap is brought down to it, and only such a one: its height becomes
/// the cap, its width keeps the ratio, each rounded down to an even number, with a width of two at
/// least.
pub proof fn tall_pictures_are_brought_down(width: u32, height: u32, max_height: u32)
    ensures
        reduced(width, height, max_height) is Some <==> 0 < max_height < height,
        0 < max_height < height ==> {
            let (w, h) = reduced(width, height, max_height)->0;
            &&& h == max_height || h == max_height - 1
            &&& h % 2 == 0 && w % 2 == 0
            &&& width * max_height < (w + 2) * height
            &&& w * height <= width * max_height || w == 2 && width * max_height < 2 * height
        },
{
    if 0 < max_height < height {
        let a = width as int;
        let b = max_height as int;
        let c = height as int;
        let q = a * b / c;
        assert(q * c <= a * b < (q + 1) * c && q >= 0) by (nonlinear_arith)
            requires
                q == a * b / c,
                c > 0,
                a >= 0,
                b >= 0,
        ;
        let e = even_below(q);
        let w = (reduced(width, height, max_height)->0).0;
        assert((q + 1) * c <= (w + 2) * c) by (nonlinear_arith)
            requires
                q + 1 <= w + 2,
                c > 0,
        ;
        if w == e {
            assert(e * c <= q * c) by (nonlinear_arith)
                requires
                    e <= q,
                    c > 0,
            ;
        } else {
            assert((q + 1) * c <= 2 * c) by (nonlinear_arith)
                requires
                    q + 1 <= 2,
                    c > 0,
            ;
        }
    }
}

/// A frame is a key frame unless it is marked as depending on others, and lengths take between one
/// and four bytes, as the description says.
pub proof fn marks_tell_key_frames(s: EncodedSample, n: i32)
    ensures
        s.not_sync is None ==> is_keyframe(s),
        s.not_sync == Some(false) ==> is_keyframe(s),
        s.not_sync == Some(true) ==> !is_keyframe(s),
        1 <= n <= 4 ==> header_size(n) == n,
        n <= 1 ==> header_size(n) == 1,
        n >= 4 ==> header_size(n) == 4,
{
}

/// A sample gives a stream where its data can be had and is not empty, and, for a key frame, its
/// description too. A key frame begins with its parameter sets; any other frame holds its units
/// alone.
pub proof fn samples_become_streams(s: EncodedSample)
    ensures
        sample_annexb(s) is Some <==> s.data is Some && s.data->0@.len() > 0 && (!is_keyframe(s)
            || s.format is Some),
        sample_annexb(s) is Some && is_keyframe(s) ==> sample_annexb(s)->0 == h264::annexb(
            byte_strings((s.format->0).parameter_sets@) + avcc_units(
                s.data->0@,
                header_size((s.format->0).header_len),
            ),
        ),
        sample_annexb(s) is Some && !is_keyframe(s) ==> sample_annexb(s)->0 == h264::annexb(
            avcc_units(s.data->0@, 4),
        ),
{
}

/// A stream that breaks off in the middle of a length gives the whole units before.
pub proof fn broken_off_streams_give_their_whole_units(units: Seq<Seq<u8>>, tail: Seq<u8>)
    requires
        forall|i: int| 0 <= i < units.len() ==> 0 < (#[trigger] units[i]).len() <= u32::MAX,
        tail.len() < 4,
    ensures
        avcc_units(avcc(units) + tail, 4) == units,
{
    lemma_avcc_broken(units, tail, Seq::empty());
    assert(Seq::<u8>::empty() + avcc(units) + tail =~= avcc(units) + tail);
}

proof fn lemma_avcc_broken(units: Seq<Seq<u8>>, tail: Seq<u8>, before: Seq<u8>)
    requires
        forall|i: int| 0 <= i < units.len() ==> 0 < (#[trigger] units[i]).len() <= u32::MAX,
        tail.len() < 4,
    ensures
        avcc_units_from(before + avcc(units) + tail, 4, before.len() as int) == units,
    decreases units.len(),
{
    let data = before + avcc(units) + tail;
    let i = before.len() as int;
    if units.len() == 0 {
        assert(data.len() < i + 4);
        assert(avcc_units_from(data, 4, i) =~= units);
    } else {
        let u = units[0];
        let rest = units.drop_first();
        lemma_avcc_head(units);
        lemma_four_bytes(u.len());
        assert(data.subrange(i, i + 4) =~= four_bytes(u.len()));
        assert(data.subrange(i + 4, i + 4 + u.len()) =~= u);
        let b = before + four_bytes(u.len()) + u;
        assert(data =~= b + avcc(rest) + tail);
        assert forall|j: int| 0 <= j < rest.len() implies 0 < (#[trigger] rest[j]).len()
            <= u32::MAX by {
            assert(rest[j] == units[j + 1]);
        }
        lemma_avcc_broken(rest, tail, b);
        assert(units =~= seq![u] + rest);
    }
}

/// A frame is sent for a report exactly where the encoder gave one, what goes with it is known and
/// its stream can be had: that stream, with the times and the size that it came with.
pub proof fn encoded_frames_are_sent(report: EncodeReport, meta: Option<FrameMeta>)
    ensures
        reported_frame(report, meta) is Some <==> report is Encoded && meta is Some
            && sample_annexb(report->Encoded_0) is Some,
        reported_frame(report, meta) is Some ==> {
            let f = reported_frame(report, meta)->0;
            &&& Some(f.data) == sample_annexb(report->Encoded_0)
            &&& f.keyframe == is_keyframe(report->Encoded_0)
            &&& f.captured == (meta->0).captured
            &&& f.pts == (meta->0).pts
            &&& f.width == (meta->0).width
            &&& f.height == (meta->0).height
        },
{
}

/// Each report is counted once: a frame that is sent with its bytes, and as a key frame where it is
/// one; a failure and a stream that cannot be had as errors; a frame left out as dropped. The
/// other counters stay.
pub proof fn reports_are_counted(c: Counters, report: EncodeReport, meta: Option<FrameMeta>)
    ensures
        ({
            let n = counted(c, report, meta);
            let sent = reported_frame(report, meta);
            let unreadable = report is Encoded && meta is Some && sent is None;
            &&& n.frames_out == (if sent is Some {
                c.frames_out.wrapping_add(1)
            } else {
                c.frames_out
            })
            &&& n.bytes_out == (if sent is Some {
                c.bytes_out.wrapping_add((sent->0).data.len() as u64)
            } else {
                c.bytes_out
            })
            &&& n.keyframes == (if sent is Some && (sent->0).keyframe {
                c.keyframes.wrapping_add(1)
            } else {
                c.keyframes
            })
            &&& n.errors == (if report is Failed || unreadable {
                c.errors.wrapping_add(1)
            } else {
                c.errors
            })
            &&& n.dropped == (if report is Dropped {
                c.dropped.wrapping_add(1)
            } else {
                c.dropped
            })
            &&& n.width == c.width && n.height == c.height && n.audio_underruns
                == c.audio_underruns
        }),
{
}

/// The encoder is given the bitrate asked for, 100 kb/s at least, and a ceiling of 1.25 times as
/// many bits in a second, counted in bytes.
pub proof fn encoder_rates_have_a_ceiling(bps: u32, fps: u32)
    ensures
        bps >= 100_000 ==> rate_limits(bps).0 == bps,
        bps <= 100_000 ==> rate_limits(bps).0 == 100_000,
        rate_limits(bps).1 * 32 <= rate_limits(bps).0 * 5 < (rate_limits(bps).1 + 1) * 32,
        fps >= 1 ==> at_least_one(fps) == fps,
        at_least_one(0) == 1,
{
}

/// A new bitrate is kept, and given to the session where one is open and it is another than
/// before; nothing else of the encoder changes.
pub proof fn new_bitrates_reach_the_session(
    e: &mut H264Encoder,
    bps: u32,
    r: bool,
    f: &H264Encoder,
    q: u32,
)
    requires
        call_ensures(H264Encoder::set_bitrate, (e, bps), r),
        *f == *final(e),
        call_ensures(H264Encoder::bitrate, (f,), q),
    ensures
        q == bps,
        r <==> old(e).has_session && bps != old(e).cfg.bitrate_bps,
        final(e).has_session == old(e).has_session,
        final(e).width == old(e).width && final(e).height == old(e).height,
        final(e).cfg.fps == old(e).cfg.fps && final(e).cfg.profile == old(e).cfg.profile,
        final(e).frames_in == old(e).frames_in,
{
}

/// A session is opened for the first picture and for one of another size; once open, the next of
/// that size needs none. A picture without pixels is refused.
pub proof fn sessions_fit_their_pictures(
    e: &mut H264Encoder,
    counters: &mut Counters,
    width: u32,
    height: u32,
    f: &H264Encoder,
    w: u32,
    h: u32,
    r: Result<bool, EmptyPicture>,
)
    requires
        call_ensures(H264Encoder::session_opened, (e, counters, width, height), ()),
        *f == *final(e),
        call_ensures(H264Encoder::needs_session, (f, w, h), r),
    ensures
        r is Err <==> w == 0 || h == 0,
        r is Ok ==> (r->Ok_0 <==> w != width || h != height),
        final(counters).width == width && final(counters).height == height,
        final(counters).frames_out == old(counters).frames_out,
        final(counters).bytes_out == old(counters).bytes_out,
        final(counters).dropped == old(counters).dropped,
        final(e).cfg == old(e).cfg && final(e).frames_in == old(e).frames_in,
{
}

/// A session that is lost is opened again for the next picture; so is one that refused a picture.
pub proof fn lost_sessions_are_opened_again(
    e: &mut H264Encoder,
    f: &mut H264Encoder,
    g: &H264Encoder,
    w: u32,
    h: u32,
    r: Result<bool, EmptyPicture>,
)
    requires
        call_ensures(H264Encoder::session_lost, (e,), ()),
        call_ensures(H264Encoder::submitted, (f, false), ()),
        *g == *final(e) || *g == *final(f),
        w > 0,
        h > 0,
        call_ensures(H264Encoder::needs_session, (g, w, h), r),
    ensures
        r is Ok && r->Ok_0,
        final(e).cfg == old(e).cfg && final(f).cfg == old(f).cfg,
        final(f).frames_in == old(f).frames_in,
{
}

/// Each picture that was taken counts, and leaves the session as it is.
pub proof fn taken_pictures_count(
    begun: H264Encoder,
    cfg: EncoderConfig,
    e: &mut H264Encoder,
    f: &H264Encoder,
    n: u64,
)
    requires
        call_ensures(H264Encoder::new, (cfg,), begun),
        old(e).frames_in < u64::MAX,
        call_ensures(H264Encoder::submitted, (e, true), ()),
        *f == *final(e),
        call_ensures(H264Encoder::frames_submitted, (f,), n),
    ensures
        begun.cfg == cfg && !begun.has_session && begun.frames_in == 0,
        n == old(e).frames_in + 1,
        final(e).has_session == old(e).has_session && final(e).cfg == old(e).cfg,
{
}

/// A session has the profile and the rate of its settings, with at least one frame a second, a key
/// frame at least every ten seconds, and arithmetic coding except in Baseline.
pub proof fn sessions_are_set_up_as_configured(
    e: &H264Encoder,
    r: SessionSettings,
    us: u32,
)
    requires
        e.cfg.fps <= 429_496_729,
        call_ensures(H264Encoder::session_settings, (e,), r),
        call_ensures(H264Encoder::frame_duration_us, (e,), us),
    ensures
        r.profile == e.cfg.profile,
        r.cabac <==> e.cfg.profile != Profile::Baseline,
        e.cfg.fps > 0 ==> r.fps == e.cfg.fps && r.keyframe_interval == e.cfg.fps * 10,
        e.cfg.fps == 0 ==> r.fps == 1 && r.keyframe_interval == 10 && us == 1_000_000,
        r.keyframe_interval_s == 10,
        e.cfg.fps > 0 ==> us == 1_000_000int / (e.cfg.fps as int),
{
}

/// A frame that was not taken for encoding counts as dropped.
pub proof fn refused_frames_count_as_dropped(c: &mut Counters, accepted: bool)
    requires
        call_ensures(Counters::pushed, (c, accepted), ()),
    ensures
        accepted ==> *final(c) == *old(c),
        !accepted && old(c).dropped < u32::MAX ==> final(c).dropped == old(c).dropped + 1,
        final(c).frames_out == old(c).frames_out && final(c).errors == old(c).errors,
        final(c).keyframes == old(c).keyframes && final(c).bytes_out == old(c).bytes_out,
{
}

/// An output is attached from one call until another; a key frame that it needs is asked for once.
pub proof fn outputs_are_attached(
    o: &mut Output,
    tx: Sender<EncodedFrame>,
    p: &mut Output,
    q: &mut Output,
    r: bool,
)
    requires
        call_ensures(Output::attach, (o, tx), ()),
        call_ensures(Output::detach, (p,), ()),
        call_ensures(Output::take_need_keyframe, (q,), r),
    ensures
        final(o)@.tx == Some(tx) && final(p)@.tx is None && final(q)@.tx == old(q)@.tx,
        final(o)@.need_keyframe == old(o)@.need_keyframe,
        final(p)@.need_keyframe == old(p)@.need_keyframe,
        r <==> old(q).need_keyframe,
        !final(q)@.need_keyframe,
        final(o)@.dropped == old(o)@.dropped && final(p)@.dropped == old(p)@.dropped
            && final(q)@.dropped == old(q)@.dropped,
        final(o)@.handed == old(o)@.handed && final(p)@.handed == old(p)@.handed
            && final(q)@.handed == old(q)@.handed,
{
}

} // verus!
