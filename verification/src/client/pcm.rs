//! Rings of samples between the phone's audio engine and the Opus codecs (48 kHz stereo), and
//! the conversions of blocks on the way. Resampling itself is done outside, between the two
//! halves of a conversion.

use super::vtenc::Counters;
use crate::opus::{FRAME_SAMPLES, SAMPLE_RATE};
use crate::ring;
use crate::ring::Ring;
use vstd::arithmetic::div_mod::lemma_fundamental_div_mod_converse;
use vstd::prelude::*;

verus! {

/// Largest block taken by a callback, in frames.
pub const MAX_BLOCK_FRAMES: usize = 4096;

/// Lowest rate expected of a device.
pub const MIN_DEVICE_RATE: u32 = 8_000;

/// Samples that a ring of the phone holds: 400 ms of stereo.
pub const RING_SAMPLES: usize = 38_400;

/// Samples of 80 ms of stereo: above, the microphone's reader drops the oldest.
pub const MIC_DRIFT: usize = 7_680;

/// Samples of 200 ms of stereo: above, decoded sound is dropped.
pub const SPEAKER_MAX: usize = 19_200;

/// Samples of 60 ms of stereo: what is gathered before playing.
pub const PREBUFFER: usize = 5_760;

/// Source of the Opus encoder, filled by the audio engine.
pub struct MicReader {
    pub ring: Ring,
    /// Above, the oldest samples are dropped to bound the latency.
    pub drift_max: usize,
    pub mic_on: bool,
}

/// All samples silent.
pub open spec fn silence(n: nat) -> Seq<u32> {
    Seq::new(n, |i: int| 0u32)
}

/// Silences a block.
pub fn mute(out: &mut [u32])
    ensures
        final(out)@ == silence(old(out)@.len()),
{
    let n: usize = out.len();
    let mut i: usize = 0;
    while i < n
        invariant
            i <= n,
            n == out@.len(),
            n == old(out)@.len(),
            forall|j: int| 0 <= j < i ==> out@[j] == 0,
        decreases n - i,
    {
        out[i] = 0;
        i += 1;
    }
    assert(out@ == silence(old(out)@.len()));
}

/// What a pull of one frame gives: whether there was one, what is held after it, and the frame.
pub struct Pull {
    pub ok: bool,
    pub held: Seq<u32>,
    pub frame: Seq<u32>,
}

/// What pulling a frame over `out` gives: the oldest samples once a late reader has caught up,
/// silence in their place where the microphone is off; short of a frame, `out` as it was.
pub open spec fn pulled(held: Seq<u32>, drift_max: nat, mic_on: bool, out: Seq<u32>) -> Pull {
    let kept = ring::caught_up(held, drift_max, out.len());
    let n = out.len() as int;
    if kept.len() < n {
        Pull { ok: false, held: kept, frame: out }
    } else {
        Pull {
            ok: true,
            held: kept.skip(n),
            frame: if mic_on {
                kept.take(n)
            } else {
                silence(n as nat)
            },
        }
    }
}

/// What is held after `pulls` frames as long as `out` were asked for.
pub open spec fn after_pulls(
    held: Seq<u32>,
    drift_max: nat,
    mic_on: bool,
    out: Seq<u32>,
    pulls: nat,
) -> Seq<u32>
    decreases pulls,
{
    if pulls == 0 {
        held
    } else {
        pulled(
            after_pulls(held, drift_max, mic_on, out, (pulls - 1) as nat),
            drift_max,
            mic_on,
            out,
        ).held
    }
}

impl MicReader {
    /// Takes one frame where it is available; silence where the microphone is off, so that the
    /// stream stays alive.
    pub fn pull_frame(&mut self, out: &mut [u32]) -> (r: bool)
        ensures
            ({
                let p = pulled(
                    ring::contents(old(self).ring),
                    old(self).drift_max as nat,
                    old(self).mic_on,
                    old(out)@,
                );
                &&& r == p.ok
                &&& ring::contents(final(self).ring) == p.held
                &&& final(out)@ == p.frame
            }),
            ring::capacity(final(self).ring) == ring::capacity(old(self).ring),
            final(self).drift_max == old(self).drift_max,
            final(self).mic_on == old(self).mic_on,
    {
        let ok = ring::pull_frame(&mut self.ring, self.drift_max, out);
        if ok && !self.mic_on {
            mute(out);
        }
        ok
    }
}

/// A reader that is not late gives out every whole frame that it holds, in order and none twice,
/// then nothing more. 40 ms of sound are two frames of 20 ms: a third pull leaves its frame as it
/// was. A microphone that is off gives out as many frames, all silent.
pub proof fn every_whole_frame_is_read_once(
    held: Seq<u32>,
    drift_max: nat,
    mic_on: bool,
    out: Seq<u32>,
    pulls: nat,
)
    requires
        out.len() > 0,
        held.len() <= drift_max,
        pulls * out.len() <= held.len(),
    ensures
        ({
            let n = out.len();
            let p = pulled(
                after_pulls(held, drift_max, mic_on, out, pulls),
                drift_max,
                mic_on,
                out,
            );
            &&& p.ok <==> (pulls + 1) * n <= held.len()
            &&& p.ok && mic_on ==> p.frame == held.subrange(
                (pulls * n) as int,
                ((pulls + 1) * n) as int,
            )
            &&& p.ok && !mic_on ==> p.frame == silence(n)
            &&& !p.ok ==> p.frame == out
        }),
{
    let n = out.len();
    lemma_after_pulls(held, drift_max, mic_on, out, pulls);
    assert((pulls + 1) * n == pulls * n + n) by (nonlinear_arith);
    let now = held.skip((pulls * n) as int);
    if now.len() >= n {
        assert(now.take(n as int) =~= held.subrange(
            (pulls * n) as int,
            ((pulls + 1) * n) as int,
        ));
    }
}

proof fn lemma_after_pulls(
    held: Seq<u32>,
    drift_max: nat,
    mic_on: bool,
    out: Seq<u32>,
    pulls: nat,
)
    requires
        held.len() <= drift_max,
        pulls * out.len() <= held.len(),
    ensures
        after_pulls(held, drift_max, mic_on, out, pulls) == held.skip((pulls * out.len()) as int),
    decreases pulls,
{
    let n = out.len();
    if pulls == 0 {
        assert(pulls * n == 0) by (nonlinear_arith)
            requires
                pulls == 0,
        ;
        assert(held.skip(0) == held);
    } else {
        let less = (pulls - 1) as nat;
        assert(less * n + n == pulls * n && less * n >= 0) by (nonlinear_arith)
            requires
                less == pulls - 1,
        ;
        lemma_after_pulls(held, drift_max, mic_on, out, less);
        assert(held.skip((less * n) as int).skip(n as int) =~= held.skip((pulls * n) as int));
    }
}

/// Sink of the Opus decoder, emptied by the audio engine.
pub struct SpeakerWriter {
    pub ring: Ring,
    pub spk_on: bool,
    /// Most samples tolerated: above, the frame is dropped.
    pub max_fill: usize,
}

impl SpeakerWriter {
    /// Takes decoded samples, unless the output is off or too far behind.
    pub fn push(&mut self, samples: &[u32])
        ensures
            ({
                let held = ring::contents(old(self).ring);
                let room = ring::capacity(old(self).ring) - held.len();
                ring::contents(final(self).ring) == (if !old(self).spk_on || held.len()
                    + samples@.len() > old(self).max_fill {
                    held
                } else {
                    held + samples@.take(ring::least(samples@.len() as int, room))
                })
            }),
            ring::capacity(final(self).ring) == ring::capacity(old(self).ring),
            final(self).spk_on == old(self).spk_on,
            final(self).max_fill == old(self).max_fill,
    {
        if !self.spk_on {
            return;
        }
        let occupied = ring::occupied_len(&self.ring);
        if occupied > self.max_fill || samples.len() > self.max_fill - occupied {
            return;
        }
        let _ = ring::push_slice(&mut self.ring, samples);
    }
}

/// The two rings of an audio session: microphone (towards Opus) and output (from Opus).
pub fn rings(mic_on: bool, spk_on: bool) -> (r: (MicReader, SpeakerWriter))
    ensures
        ring::contents(r.0.ring).len() == 0,
        ring::capacity(r.0.ring) == 38_400,
        r.0.drift_max == 7_680,
        r.0.mic_on == mic_on,
        ring::contents(r.1.ring).len() == 0,
        ring::capacity(r.1.ring) == 38_400,
        r.1.max_fill == 19_200,
        r.1.spk_on == spk_on,
{
    (
        MicReader { ring: ring::new_ring(RING_SAMPLES), drift_max: MIC_DRIFT, mic_on },
        SpeakerWriter { ring: ring::new_ring(RING_SAMPLES), spk_on, max_fill: SPEAKER_MAX },
    )
}

/// What the resampler has to do for a block.
#[derive(Debug, Clone, Copy, PartialEq, Eq, Structural)]
pub enum Resample {
    /// The rates agree.
    Unneeded,
    /// Go on with the resampler in use.
    Same,
    /// Make a new resampler: the rate changed.
    Fresh,
}

/// What a change of rate asks of the resampler.
pub open spec fn resample_for(old_rate: u32, rate: u32) -> Resample {
    if rate == 48_000 {
        Resample::Unneeded
    } else if rate == old_rate {
        Resample::Same
    } else {
        Resample::Fresh
    }
}

fn resample(old_rate: u32, rate: u32) -> (r: Resample)
    ensures
        r == resample_for(old_rate, rate),
{
    if rate == SAMPLE_RATE {
        Resample::Unneeded
    } else if rate == old_rate {
        Resample::Same
    } else {
        Resample::Fresh
    }
}

/// Whole frames of a block, at most [`MAX_BLOCK_FRAMES`].
pub open spec fn block_frames(len: nat, channels: nat) -> nat {
    if len / channels > 4096 {
        4096
    } else {
        len / channels
    }
}

/// The first two channels of each frame of a block; the only one twice where there is one.
pub open spec fn first_two(input: Seq<u32>, channels: nat) -> Seq<u32> {
    Seq::new(
        2 * block_frames(input.len(), channels),
        |i: int|
            if i % 2 == 1 && channels > 1 {
                input[(i / 2) * channels + 1]
            } else {
                input[(i / 2) * channels]
            },
    )
}

/// Turns interleaved blocks of any channels and rate into stereo.
pub struct ToStereo48k {
    pub rate: u32,
    /// The stereo block, in a buffer that never grows.
    pub stereo: Vec<u32>,
}

/// A frame of a block stands inside it.
proof fn lemma_frame_inside(f: int, frames: int, channels: int, len: int)
    requires
        0 <= f < frames,
        channels > 0,
        frames <= len / channels,
        len >= 0,
    ensures
        0 <= f * channels,
        f * channels + channels <= len,
{
    assert(f * channels + channels <= len && 0 <= f * channels) by (nonlinear_arith)
        requires
            0 <= f < frames,
            channels > 0,
            frames <= len / channels,
            len >= 0,
    ;
}

impl Default for ToStereo48k {
    fn default() -> (r: Self)
        ensures
            r.rate == 0,
            r.stereo@.len() == 0,
    {
        ToStereo48k::new()
    }
}

impl ToStereo48k {
    /// A converter that has seen no block.
    pub fn new() -> (r: Self)
        ensures
            r.rate == 0,
            r.stereo@.len() == 0,
    {
        ToStereo48k { rate: 0, stereo: Vec::with_capacity(MAX_BLOCK_FRAMES * 2) }
    }

    /// Lays a block out in stereo. None where there is nothing to convert: no channel, no sample
    /// or a rate below [`MIN_DEVICE_RATE`].
    pub fn convert(&mut self, input: &[u32], channels: usize, rate: u32) -> (r: Option<Resample>)
        ensures
            (channels == 0 || input@.len() == 0 || rate < 8_000) <==> r is None,
            r is None ==> *final(self) == *old(self),
            r is Some ==> {
                &&& r->0 == resample_for(old(self).rate, rate)
                &&& final(self).rate == rate
                &&& final(self).stereo@ == first_two(input@, channels as nat)
            },
    {
        if channels == 0 || input.len() == 0 || rate < MIN_DEVICE_RATE {
            return None;
        }
        let what = resample(self.rate, rate);
        self.rate = rate;
        let len: usize = input.len();
        let whole: usize = len / channels;
        let frames: usize = if whole > MAX_BLOCK_FRAMES {
            MAX_BLOCK_FRAMES
        } else {
            whole
        };
        self.stereo.clear();
        let ghost all = first_two(input@, channels as nat);
        let mut f: usize = 0;
        while f < frames
            invariant
                channels > 0,
                len == input@.len(),
                f <= frames,
                frames <= 4096,
                frames <= input@.len() / channels as nat,
                all == first_two(input@, channels as nat),
                frames == block_frames(input@.len(), channels as nat),
                self.rate == rate,
                self.stereo@ == all.take(2 * f),
            decreases frames - f,
        {
            proof {
                lemma_frame_inside(
                    f as int,
                    frames as int,
                    channels as int,
                    input@.len() as int,
                );
            }
            let base: usize = f * channels;
            let l: u32 = input[base];
            let r: u32 = if channels > 1 {
                input[base + 1]
            } else {
                l
            };
            self.stereo.push(l);
            self.stereo.push(r);
            assert((2 * f) / 2 == f && (2 * f + 1) / 2 == f);
            assert(self.stereo@ == all.take(2 * (f + 1)));
            f += 1;
        }
        assert(all.take(2 * frames) == all);
        Some(what)
    }
}

/// What to write in an output block.
#[derive(Debug, Clone, Copy, PartialEq, Eq, Structural)]
pub struct FillPlan {
    pub channels: usize,
    /// Whole frames of the block.
    pub total_frames: usize,
    /// Frames that carry sound: at most [`MAX_BLOCK_FRAMES`].
    pub frames: usize,
    pub resample: Resample,
}

/// Reads the output ring and lays it out for the audio engine, with a prebuffer of 60 ms and
/// silence where it runs dry.
pub struct FromStereo48k {
    pub rate: u32,
    pub primed: bool,
    pub prebuffer: usize,
    /// What was read from the ring for the current block.
    pub pulled: Vec<u32>,
    /// Times the ring ran dry.
    pub underruns: u32,
}

/// The sample of frame `f`, channel `c`: left on even channels, right on odd ones, silence past
/// the source or past the frames that carry sound.
pub open spec fn spread_sample(src: Seq<u32>, frames: nat, f: int, c: int) -> u32 {
    if f < frames && f * 2 + 1 < src.len() {
        if c % 2 == 0 {
            src[f * 2]
        } else {
            src[f * 2 + 1]
        }
    } else {
        0
    }
}

/// A block after stereo samples were spread over its channels; what makes no whole frame stays.
pub open spec fn spread_over(src: Seq<u32>, plan: FillPlan, before: Seq<u32>) -> Seq<u32> {
    Seq::new(
        before.len(),
        |j: int|
            if j < plan.total_frames * plan.channels {
                spread_sample(
                    src,
                    plan.frames as nat,
                    j / plan.channels as int,
                    j % plan.channels as int,
                )
            } else {
                before[j]
            },
    )
}

/// A plan fits a block of `len` samples.
pub open spec fn plan_fits(plan: FillPlan, len: nat) -> bool {
    &&& plan.channels > 0
    &&& plan.frames <= plan.total_frames
    &&& plan.total_frames * plan.channels <= len
}

/// Writes stereo samples over the channels of a block.
pub fn spread(src: &[u32], plan: &FillPlan, out: &mut [u32])
    requires
        plan_fits(*plan, old(out)@.len()),
    ensures
        final(out)@ == spread_over(src@, *plan, old(out)@),
{
    let ghost before = out@;
    let ghost want = spread_over(src@, *plan, before);
    let mut f: usize = 0;
    let mut j: usize = 0;
    let channels: usize = plan.channels;
    while f < plan.total_frames
        invariant
            plan_fits(*plan, before.len()),
            channels == plan.channels,
            f <= plan.total_frames,
            j == f * channels,
            out@.len() == before.len(),
            want == spread_over(src@, *plan, before),
            forall|k: int| 0 <= k < j ==> out@[k] == want[k],
            forall|k: int| j <= k < before.len() ==> out@[k] == before[k],
        decreases plan.total_frames - f,
    {
        proof {
            assert(f * channels + channels <= plan.total_frames * channels) by (nonlinear_arith)
                requires
                    f < plan.total_frames,
                    channels > 0,
            ;
        }
        let (l, r): (u32, u32) = if f < plan.frames && src.len() > 1 && f <= (src.len() - 2) / 2 {
            (src[f * 2], src[f * 2 + 1])
        } else {
            (0, 0)
        };
        let mut c: usize = 0;
        while c < channels
            invariant
                plan_fits(*plan, before.len()),
                channels == plan.channels,
                f < plan.total_frames,
                c <= channels,
                f * channels + channels <= plan.total_frames * channels,
                j == f * channels + c,
                out@.len() == before.len(),
                want == spread_over(src@, *plan, before),
                l == spread_sample(src@, plan.frames as nat, f as int, 0),
                r == spread_sample(src@, plan.frames as nat, f as int, 1),
                forall|k: int| 0 <= k < j ==> out@[k] == want[k],
                forall|k: int| j <= k < before.len() ==> out@[k] == before[k],
            decreases channels - c,
        {
            proof {
                lemma_fundamental_div_mod_converse(
                    j as int,
                    channels as int,
                    f as int,
                    c as int,
                );
            }
            out[j] = if c % 2 == 0 {
                l
            } else {
                r
            };
            assert(out@[j as int] == want[j as int]);
            j += 1;
            c += 1;
        }
        proof {
            assert((f + 1) * channels == f * channels + channels) by (nonlinear_arith);
        }
        f += 1;
    }
    assert(out@ == want);
}

impl Default for FromStereo48k {
    fn default() -> (r: Self)
        ensures
            r.rate == 0,
            !r.primed,
            r.prebuffer == 5_760,
            r.underruns == 0,
            r.pulled@.len() == 0,
    {
        FromStereo48k::new()
    }
}

/// Samples read for a block of `need` frames: the oldest held where playing, silence after them.
pub open spec fn pulled_for(held: Seq<u32>, primed: bool, need: nat) -> Seq<u32> {
    let n = need * 2;
    let got = if primed {
        ring::least(n as int, held.len() as int)
    } else {
        0
    };
    held.take(got) + silence((n - got) as nat)
}

/// The output as its listener knows it: what waits, and whether it plays.
pub struct Playback {
    pub held: Seq<u32>,
    pub primed: bool,
    pub prebuffer: int,
    pub underruns: u32,
}

/// What a reader and its ring are to the listener.
pub open spec fn playback(from: FromStereo48k, ring: Ring) -> Playback {
    Playback {
        held: ring::contents(ring),
        primed: from.primed,
        prebuffer: from.prebuffer as int,
        underruns: from.underruns,
    }
}

/// Plays: it did, or the prebuffer is full.
pub open spec fn plays(p: Playback) -> bool {
    p.primed || p.held.len() >= p.prebuffer
}

/// The samples of the next `frames` frames.
pub open spec fn heard(p: Playback, frames: nat) -> Seq<u32> {
    pulled_for(p.held, plays(p), frames)
}

/// The next `frames` frames hold sound.
pub open spec fn sounds(p: Playback, frames: nat) -> bool {
    plays(p) && p.held.len() > 0 && frames > 0
}

/// The output after `frames` frames were read. Where it plays and has nothing left, it ran dry:
/// that is counted, and it waits for its prebuffer again.
pub open spec fn played(p: Playback, frames: nat) -> Playback {
    let got = if plays(p) {
        ring::least((frames * 2) as int, p.held.len() as int)
    } else {
        0
    };
    let dry = plays(p) && p.held.len() == 0 && frames > 0;
    Playback {
        held: p.held.skip(got),
        primed: plays(p) && !dry,
        underruns: if dry {
            p.underruns.wrapping_add(1)
        } else {
            p.underruns
        },
        ..p
    }
}

/// The plan of a block of `len` samples at 48 kHz.
pub open spec fn plain_plan(len: nat, channels: usize) -> FillPlan {
    let ch: usize = if channels == 0 {
        1
    } else {
        channels
    };
    FillPlan {
        channels: ch,
        total_frames: (len / ch as nat) as usize,
        frames: block_frames(len, ch as nat) as usize,
        resample: Resample::Unneeded,
    }
}

/// Short of its prebuffer, the output stays silent and loses nothing.
pub proof fn output_waits_for_its_prebuffer(p: Playback, frames: nat)
    requires
        !p.primed,
        p.held.len() < p.prebuffer,
    ensures
        !sounds(p, frames),
        heard(p, frames) == silence(frames * 2),
        played(p, frames) == p,
{
    assert(p.held.skip(0) == p.held);
    assert(heard(p, frames) =~= silence(frames * 2));
}

/// Once its prebuffer is full the output sounds, from the oldest sample on, and goes on until
/// nothing is left.
pub proof fn full_prebuffer_sounds(p: Playback, frames: nat)
    requires
        plays(p),
        p.held.len() > 0,
        frames > 0,
    ensures
        sounds(p, frames),
        heard(p, frames)[0] == p.held[0],
        p.held.len() >= frames * 2 ==> heard(p, frames) == p.held.take((frames * 2) as int),
        played(p, frames).primed,
        played(p, frames).underruns == p.underruns,
        played(p, frames).held.len() == (if p.held.len() >= frames * 2 {
            p.held.len() - frames * 2
        } else {
            0
        }),
{
    if p.held.len() >= frames * 2 {
        assert(heard(p, frames) =~= p.held.take((frames * 2) as int));
    }
}

/// An output that runs dry counts it once, however often it is read before its prebuffer is full
/// again.
pub proof fn running_dry_counts_once(p: Playback, frames: nat, more: nat)
    requires
        p.primed,
        p.held.len() == 0,
        p.prebuffer > 0,
        frames > 0,
    ensures
        !sounds(p, frames),
        played(p, frames).underruns == p.underruns.wrapping_add(1),
        !sounds(played(p, frames), more),
        played(played(p, frames), more) == played(p, frames),
{
    output_waits_for_its_prebuffer(played(p, frames), more);
}

impl FromStereo48k {
    /// A reader that has played nothing.
    pub fn new() -> (r: Self)
        ensures
            r.rate == 0,
            !r.primed,
            r.prebuffer == 5_760,
            r.underruns == 0,
            r.pulled@.len() == 0,
    {
        FromStereo48k {
            rate: 0,
            primed: false,
            prebuffer: PREBUFFER,
            pulled: Vec::with_capacity(MAX_BLOCK_FRAMES * 12 + 4),
            underruns: 0,
        }
    }

    /// Times the ring ran dry.
    pub fn underruns(&self) -> (r: u32)
        ensures
            r == self.underruns,
    {
        self.underruns
    }

    /// Plans a block; none where the rate is below [`MIN_DEVICE_RATE`], the block is silence then.
    /// Playing begins once the prebuffer is full.
    pub fn plan(&mut self, ring: &Ring, len: usize, channels: usize, rate: u32) -> (r: Option<
        FillPlan,
    >)
        ensures
            rate < 8_000 <==> r is None,
            r is None ==> *final(self) == *old(self),
            r is Some ==> {
                let ch: usize = if channels == 0 {
                    1
                } else {
                    channels
                };
                &&& plan_fits(r->0, len as nat)
                &&& r->0.channels == ch
                &&& r->0.total_frames == len / ch
                &&& r->0.frames == block_frames(len as nat, ch as nat)
                &&& r->0.resample == resample_for(old(self).rate, rate)
                &&& final(self).rate == rate
                &&& final(self).primed == (old(self).primed || ring::contents(*ring).len()
                    >= old(self).prebuffer)
                &&& final(self).prebuffer == old(self).prebuffer
                &&& final(self).underruns == old(self).underruns
                &&& final(self).pulled@ == old(self).pulled@
            },
    {
        if rate < MIN_DEVICE_RATE {
            return None;
        }
        let ch: usize = if channels == 0 {
            1
        } else {
            channels
        };
        let total: usize = len / ch;
        let frames: usize = if total > MAX_BLOCK_FRAMES {
            MAX_BLOCK_FRAMES
        } else {
            total
        };
        let what = resample(self.rate, rate);
        self.rate = rate;
        if !self.primed && ring::occupied_len(ring) >= self.prebuffer {
            self.primed = true;
        }
        proof {
            assert(total * ch <= len) by (nonlinear_arith)
                requires
                    total == len / ch,
                    ch > 0,
            ;
        }
        Some(FillPlan { channels: ch, total_frames: total, frames, resample: what })
    }

    /// Reads `need` frames from the ring into `pulled`, with silence where they are missing, and
    /// returns how many samples came. Where nothing came at all, playing stops until the
    /// prebuffer is full again.
    pub fn pull(&mut self, ring: &mut Ring, need: usize) -> (r: usize)
        requires
            need <= usize::MAX / 2,
        ensures
            ({
                let held = ring::contents(*old(ring));
                let n = (need * 2) as int;
                &&& r == (if old(self).primed {
                    ring::least(n, held.len() as int)
                } else {
                    0
                })
                &&& final(self).pulled@ == pulled_for(held, old(self).primed, need as nat)
                &&& ring::contents(*final(ring)) == held.skip(r as int)
                &&& ring::capacity(*final(ring)) == ring::capacity(*old(ring))
                &&& final(self).primed == (old(self).primed && (r > 0 || n == 0))
                &&& final(self).underruns == (if old(self).primed && r == 0 && n > 0 {
                    old(self).underruns.wrapping_add(1)
                } else {
                    old(self).underruns
                })
                &&& final(self).rate == old(self).rate
                &&& final(self).prebuffer == old(self).prebuffer
            }),
    {
        let ghost held = ring::contents(*ring);
        let n: usize = need * 2;
        self.pulled.clear();
        self.pulled.resize(n, 0);
        assert(self.pulled@ == silence(n as nat));
        let mut got: usize = 0;
        if self.primed {
            got = ring::pop_slice(ring, self.pulled.as_mut_slice());
            if got < n {
                if got == 0 {
                    self.primed = false;
                    self.underruns = self.underruns.wrapping_add(1);
                }
            }
        }
        assert(self.pulled@ == pulled_for(held, old(self).primed, need as nat));
        assert(held.skip(0) == held);
        got
    }

    /// Fills a block at 48 kHz, or at a rate that no device has: true where sound (not only
    /// silence) was written.
    pub fn fill(&mut self, ring: &mut Ring, out: &mut [u32], channels: usize, rate: u32) -> (r: bool)
        requires
            rate == 48_000 || rate < 8_000,
        ensures
            rate < 8_000 ==> !r && final(out)@ == silence(old(out)@.len()) && *final(self) == *old(
                self,
            ) && *final(ring) == *old(ring),
            rate == 48_000 ==> {
                let plan = plain_plan(old(out)@.len(), channels);
                let before = playback(*old(self), *old(ring));
                let src = heard(before, plan.frames as nat);
                &&& final(out)@ == spread_over(src, plan, old(out)@)
                &&& final(self).pulled@ == src
                &&& r == sounds(before, plan.frames as nat)
                &&& playback(*final(self), *final(ring)) == played(before, plan.frames as nat)
                &&& final(self).rate == rate
                &&& ring::capacity(*final(ring)) == ring::capacity(*old(ring))
            },
    {
        let ghost before = playback(*self, *ring);
        let plan = match self.plan(ring, out.len(), channels, rate) {
            Some(p) => p,
            None => {
                mute(out);
                return false;
            },
        };
        let got = self.pull(ring, plan.frames);
        spread(self.pulled.as_slice(), &plan, out);
        assert(playback(*self, *ring) == played(before, plan.frames as nat));
        got > 0
    }
}

/// Bridge to an audio engine that pushes the microphone and pulls the output from its callbacks.
pub struct PcmBridge {
    pub mic: MicReader,
    pub speaker: SpeakerWriter,
    pub mic_in: ToStereo48k,
    pub spk_out: FromStereo48k,
}

impl PcmBridge {
    /// A bridge with empty rings.
    pub fn new(mic_on: bool, spk_on: bool) -> (r: Self)
        ensures
            ring::contents(r.mic.ring).len() == 0,
            ring::capacity(r.mic.ring) == 38_400,
            r.mic.drift_max == 7_680,
            r.mic.mic_on == mic_on,
            ring::contents(r.speaker.ring).len() == 0,
            ring::capacity(r.speaker.ring) == 38_400,
            r.speaker.max_fill == 19_200,
            r.speaker.spk_on == spk_on,
            r.mic_in.rate == 0,
            r.spk_out.rate == 0,
            !r.spk_out.primed,
            r.spk_out.prebuffer == 5_760,
            r.spk_out.underruns == 0,
    {
        let (mic, speaker) = rings(mic_on, spk_on);
        PcmBridge { mic, speaker, mic_in: ToStereo48k::new(), spk_out: FromStereo48k::new() }
    }

    /// Takes stereo samples of the microphone at 48 kHz, as many as there is room for. True where
    /// a whole frame is then available to the encoder.
    pub fn push_stereo(&mut self, samples: &[u32]) -> (r: bool)
        ensures
            ({
                let held = ring::contents(old(self).mic.ring);
                let room = ring::capacity(old(self).mic.ring) - held.len();
                ring::contents(final(self).mic.ring) == held + samples@.take(
                    ring::least(samples@.len() as int, room),
                )
            }),
            ring::capacity(final(self).mic.ring) == ring::capacity(old(self).mic.ring),
            r == (ring::contents(final(self).mic.ring).len() >= 1920),
            final(self).mic.drift_max == old(self).mic.drift_max,
            final(self).mic.mic_on == old(self).mic.mic_on,
            final(self).speaker == old(self).speaker,
            final(self).mic_in == old(self).mic_in,
            final(self).spk_out == old(self).spk_out,
    {
        let _ = ring::push_slice(&mut self.mic.ring, samples);
        ring::occupied_len(&self.mic.ring) >= FRAME_SAMPLES
    }

    /// Lays out a block of the microphone in stereo, ready to be resampled; see
    /// [`ToStereo48k::convert`]. The samples are then handed to [`PcmBridge::push_stereo`].
    pub fn convert_mic(&mut self, input: &[u32], channels: usize, rate: u32) -> (r: Option<Resample>)
        ensures
            (channels == 0 || input@.len() == 0 || rate < 8_000) <==> r is None,
            r is None ==> final(self).mic_in == old(self).mic_in,
            r is Some ==> {
                &&& r->0 == resample_for(old(self).mic_in.rate, rate)
                &&& final(self).mic_in.rate == rate
                &&& final(self).mic_in.stereo@ == first_two(input@, channels as nat)
            },
            final(self).mic == old(self).mic,
            final(self).speaker == old(self).speaker,
            final(self).spk_out == old(self).spk_out,
    {
        self.mic_in.convert(input, channels, rate)
    }

    /// Takes a block of the microphone at 48 kHz. True where a whole frame is then available.
    pub fn push_mic(&mut self, input: &[u32], channels: usize) -> (r: bool)
        ensures
            ({
                let held = ring::contents(old(self).mic.ring);
                let room = ring::capacity(old(self).mic.ring) - held.len();
                let samples = if channels == 0 {
                    Seq::<u32>::empty()
                } else {
                    first_two(input@, channels as nat)
                };
                ring::contents(final(self).mic.ring) == held + samples.take(
                    ring::least(samples.len() as int, room),
                )
            }),
            r == (ring::contents(final(self).mic.ring).len() >= 1920),
            (channels == 0 || input@.len() == 0) ==> final(self).mic_in == old(self).mic_in,
            channels > 0 && input@.len() > 0 ==> {
                &&& final(self).mic_in.rate == 48_000
                &&& final(self).mic_in.stereo@ == first_two(input@, channels as nat)
            },
            final(self).speaker == old(self).speaker,
            final(self).spk_out == old(self).spk_out,
            ring::capacity(final(self).mic.ring) == ring::capacity(old(self).mic.ring),
            final(self).mic.drift_max == old(self).mic.drift_max,
            final(self).mic.mic_on == old(self).mic.mic_on,
    {
        if self.mic_in.convert(input, channels, SAMPLE_RATE).is_some() {
            let _ = ring::push_slice(&mut self.mic.ring, self.mic_in.stereo.as_slice());
        } else {
            proof {
                if channels > 0 {
                    assert(input@.len() / channels as nat == 0) by (nonlinear_arith)
                        requires
                            input@.len() == 0,
                            channels > 0,
                    ;
                    assert(first_two(input@, channels as nat) == Seq::<u32>::empty());
                }
                let held = ring::contents(old(self).mic.ring);
                assert(held + Seq::<u32>::empty().take(0) == held);
            }
            let empty: [u32; 0] = [];
            let _ = ring::push_slice(&mut self.mic.ring, &empty);
        }
        ring::occupied_len(&self.mic.ring) >= FRAME_SAMPLES
    }

    /// Fills an output block at 48 kHz and publishes how often the ring ran dry. True where sound
    /// was written.
    pub fn pull_speaker(&mut self, counters: &mut Counters, out: &mut [u32], channels: usize) -> (r:
        bool)
        ensures
            ({
                let plan = plain_plan(old(out)@.len(), channels);
                let before = playback(old(self).spk_out, old(self).speaker.ring);
                let src = heard(before, plan.frames as nat);
                &&& final(out)@ == spread_over(src, plan, old(out)@)
                &&& final(self).spk_out.pulled@ == src
                &&& r == sounds(before, plan.frames as nat)
                &&& playback(final(self).spk_out, final(self).speaker.ring) == played(
                    before,
                    plan.frames as nat,
                )
            }),
            final(self).spk_out.rate == 48_000,
            ring::capacity(final(self).speaker.ring) == ring::capacity(old(self).speaker.ring),
            *final(counters) == (Counters {
                audio_underruns: final(self).spk_out.underruns,
                ..*old(counters)
            }),
            final(self).mic == old(self).mic,
            final(self).mic_in == old(self).mic_in,
            final(self).speaker.spk_on == old(self).speaker.spk_on,
            final(self).speaker.max_fill == old(self).speaker.max_fill,
    {
        let ok = self.spk_out.fill(&mut self.speaker.ring, out, channels, SAMPLE_RATE);
        counters.audio_underruns = self.spk_out.underruns();
        ok
    }
}

/// What a reader holds after a pull is what it held without the frame that it gave, the oldest
/// dropped first where it was late; short of a frame it gives nothing and keeps what it has. A
/// microphone that is off gives silence in place of the frame, and as often.
pub proof fn pulls_take_the_oldest_frame(
    held: Seq<u32>,
    drift_max: nat,
    mic_on: bool,
    out: Seq<u32>,
)
    ensures
        ({
            let n = out.len() as int;
            let kept = ring::caught_up(held, drift_max, out.len());
            let p = pulled(held, drift_max, mic_on, out);
            &&& p.ok == (kept.len() >= n)
            &&& p.ok ==> p.held == kept.skip(n) && p.frame.len() == n
            &&& p.ok && mic_on ==> p.frame + p.held == kept
            &&& p.ok && !mic_on ==> forall|i: int| 0 <= i < n ==> #[trigger] p.frame[i] == 0
            &&& !p.ok ==> p.held == kept && p.frame == out
        }),
{
    let n = out.len() as int;
    let kept = ring::caught_up(held, drift_max, out.len());
    let p = pulled(held, drift_max, mic_on, out);
    if p.ok && mic_on {
        assert(p.frame + p.held =~= kept);
    }
}

/// A block is resampled where its rate is not 48 kHz: with the resampler in use as long as the
/// rate stays, with a fresh one where it changed.
pub proof fn rates_decide_on_resampling(old_rate: u32, rate: u32)
    ensures
        rate == 48_000 <==> resample_for(old_rate, rate) == Resample::Unneeded,
        rate != 48_000 && rate == old_rate <==> resample_for(old_rate, rate) == Resample::Same,
        rate != 48_000 && rate != old_rate <==> resample_for(old_rate, rate) == Resample::Fresh,
{
}

/// A block in stereo has a left and a right sample for each whole frame, up to 4096 of them: the
/// first two channels, or the only one on both sides.
pub proof fn blocks_are_laid_out_in_stereo(input: Seq<u32>, channels: nat, f: int)
    requires
        channels > 0,
        0 <= f < input.len() / channels,
        f < 4096,
    ensures
        input.len() / channels <= 4096 ==> first_two(input, channels).len() == 2 * (input.len()
            / channels),
        input.len() / channels > 4096 ==> first_two(input, channels).len() == 8192,
        first_two(input, channels)[2 * f] == input[f * channels],
        channels == 1 ==> first_two(input, channels)[2 * f + 1] == input[f],
        channels >= 2 ==> first_two(input, channels)[2 * f + 1] == input[f * channels + 1],
{
    assert((2 * f) / 2 == f && (2 * f) % 2 == 0 && (2 * f + 1) / 2 == f && (2 * f + 1) % 2 == 1);
    if channels == 1 {
        assert(f * channels == f) by (nonlinear_arith)
            requires
                channels == 1,
        ;
    }
}

/// Stereo sound is spread over the channels of a block: left on the even ones, right on the odd
/// ones, frame after frame; where there is none left, silence; what makes no whole frame stays as
/// it was.
pub proof fn sound_is_spread_over_the_channels(
    src: Seq<u32>,
    plan: FillPlan,
    before: Seq<u32>,
    f: int,
    c: int,
)
    requires
        plan_fits(plan, before.len()),
        0 <= f < plan.total_frames,
        0 <= c < plan.channels,
    ensures
        ({
            let out = spread_over(src, plan, before);
            let at = f * plan.channels + c;
            &&& out.len() == before.len()
            &&& 0 <= at < before.len()
            &&& f < plan.frames && 2 * f + 1 < src.len() && c % 2 == 0 ==> out[at] == src[2 * f]
            &&& f < plan.frames && 2 * f + 1 < src.len() && c % 2 == 1 ==> out[at] == src[2 * f
                + 1]
            &&& f >= plan.frames || 2 * f + 1 >= src.len() ==> out[at] == 0
            &&& forall|j: int|
                plan.total_frames * plan.channels <= j < before.len() ==> #[trigger] out[j]
                    == before[j]
        }),
{
    let n = plan.channels as int;
    assert(f * n + c < plan.total_frames * n && f * n >= 0) by (nonlinear_arith)
        requires
            0 <= f < plan.total_frames,
            0 <= c < n,
    ;
    lemma_fundamental_div_mod_converse(f * n + c, n, f, c);
}

/// While it plays the output gives out what it holds from the oldest on, and silence for what is
/// missing; what it gave out it holds no more. Whether it plays is decided by its prebuffer, and
/// it goes on as long as something is left.
pub proof fn output_gives_out_what_it_holds(p: Playback, frames: nat)
    requires
        plays(p),
    ensures
        heard(p, frames).len() == frames * 2,
        frames * 2 <= p.held.len() ==> heard(p, frames) + played(p, frames).held == p.held,
        frames * 2 > p.held.len() ==> heard(p, frames).take(p.held.len() as int) == p.held
            && played(p, frames).held.len() == 0 && forall|i: int|
            p.held.len() <= i < frames * 2 ==> #[trigger] heard(p, frames)[i] == 0,
        played(p, frames).prebuffer == p.prebuffer,
        p.held.len() > 0 || frames == 0 ==> played(p, frames).primed && played(p, frames).underruns
            == p.underruns,
        p.held.len() == 0 && frames > 0 ==> !played(p, frames).primed && played(
            p,
            frames,
        ).underruns == p.underruns.wrapping_add(1),
        sounds(p, frames) == (p.held.len() > 0 && frames > 0),
{
    if frames * 2 <= p.held.len() {
        assert(heard(p, frames) + played(p, frames).held =~= p.held);
    } else {
        assert(heard(p, frames).take(p.held.len() as int) =~= p.held);
    }
}

/// The output begins to play with a full prebuffer, and not before; once it plays it does not look
/// at it again.
pub proof fn playing_begins_with_a_full_prebuffer(p: Playback)
    ensures
        !p.primed && p.held.len() >= p.prebuffer ==> plays(p),
        !p.primed && p.held.len() < p.prebuffer ==> !plays(p),
        p.primed ==> plays(p),
{
}

/// A block at 48 kHz is filled as far as its whole frames go, without resampling, and with sound in
/// 4096 of them at most; no channel counts as one.
pub proof fn plain_blocks_are_filled_whole(len: nat, channels: usize)
    requires
        len <= usize::MAX,
    ensures
        ({
            let p = plain_plan(len, channels);
            &&& channels == 0 ==> p.channels == 1
            &&& channels > 0 ==> p.channels == channels
            &&& p.total_frames == len / p.channels as nat
            &&& p.total_frames <= 4096 ==> p.frames == p.total_frames
            &&& p.total_frames > 4096 ==> p.frames == 4096
            &&& p.resample == Resample::Unneeded
        }),
{
    let ch = plain_plan(len, channels).channels as nat;
    assert(0 <= len / ch <= len) by (nonlinear_arith)
        requires
            ch >= 1,
            len >= 0,
    ;
}

/// The microphone's sound is pulled in whole frames and in order; where it is off, as much silence
/// comes in its place. Without a whole frame nothing is given out.
pub proof fn microphone_is_pulled_in_order(m: &mut MicReader, out: &mut [u32], r: bool, i: int)
    requires
        ring::contents(old(m).ring).len() <= old(m).drift_max,
        call_ensures(MicReader::pull_frame, (m, out), r),
    ensures
        ({
            let held = ring::contents(old(m).ring);
            let n = old(out)@.len();
            &&& r <==> held.len() >= n
            &&& r ==> ring::contents(final(m).ring) == held.skip(n as int) && final(out)@.len()
                == n
            &&& r && old(m).mic_on && 0 <= i < n ==> final(out)@[i] == held[i]
            &&& r && !old(m).mic_on && 0 <= i < n ==> final(out)@[i] == 0
            &&& !r ==> final(out)@ == old(out)@ && ring::contents(final(m).ring) == held
        }),
        final(m).mic_on == old(m).mic_on,
{
}

/// The speaker takes a frame whole where it is on and the frame is not too much; else it takes
/// nothing.
pub proof fn speaker_takes_whole_frames(s: &mut SpeakerWriter, samples: &[u32])
    requires
        ring::contents(old(s).ring).len() + samples@.len() <= ring::capacity(old(s).ring),
        call_ensures(SpeakerWriter::push, (s, samples), ()),
    ensures
        ({
            let held = ring::contents(old(s).ring);
            let takes = old(s).spk_on && held.len() + samples@.len() <= old(s).max_fill;
            &&& takes ==> ring::contents(final(s).ring) == held + samples@
            &&& !takes ==> ring::contents(final(s).ring) == held
        }),
        final(s).spk_on == old(s).spk_on && final(s).max_fill == old(s).max_fill,
{
    assert(samples@.take(samples@.len() as int) =~= samples@);
}

/// Both rings hold 0.4 s of stereo; the microphone's drops what is over 80 ms, the speaker's takes
/// nothing over 0.2 s. Playing begins with 60 ms.
pub proof fn bridges_begin_empty(mic_on: bool, spk_on: bool, b: PcmBridge)
    requires
        call_ensures(PcmBridge::new, (mic_on, spk_on), b),
    ensures
        ring::contents(b.mic.ring).len() == 0 && ring::contents(b.speaker.ring).len() == 0,
        ring::capacity(b.mic.ring) == 38_400 && ring::capacity(b.speaker.ring) == 38_400,
        b.mic.drift_max == 7_680 && b.speaker.max_fill == 19_200,
        b.mic.mic_on == mic_on && b.speaker.spk_on == spk_on,
        !b.spk_out.primed && b.spk_out.prebuffer == 5_760 && b.spk_out.underruns == 0,
{
}

/// A block is converted unless it is empty, has no channels or runs below 8 kHz; a resampler is made
/// when the rate changes, kept while it does not, and none is needed at 48 kHz.
pub proof fn blocks_are_converted(
    c: &mut ToStereo48k,
    input: &[u32],
    channels: usize,
    rate: u32,
    r: Option<Resample>,
    d: &mut ToStereo48k,
    q: Option<Resample>,
)
    requires
        call_ensures(ToStereo48k::convert, (c, input, channels, rate), r),
        *old(d) == *final(c),
        call_ensures(ToStereo48k::convert, (d, input, channels, rate), q),
    ensures
        r is None <==> channels == 0 || input@.len() == 0 || rate < 8_000,
        r is None ==> *final(c) == *old(c),
        r is Some && rate == 48_000 ==> r->0 == Resample::Unneeded,
        r is Some && rate != 48_000 && rate != old(c).rate ==> r->0 == Resample::Fresh,
        r is Some && rate != 48_000 ==> q == Some(Resample::Same),
        r is Some ==> final(c).rate == rate && final(c).stereo@ == first_two(
            input@,
            channels as nat,
        ),
{
}

/// Playing goes on once the prebuffer was full; what it takes from the ring is the oldest, and what
/// is missing is silence. A ring that ran dry counts, and has to fill again.
pub proof fn playing_takes_the_oldest(
    f: &mut FromStereo48k,
    ring: &mut Ring,
    need: usize,
    r: usize,
    i: int,
)
    requires
        0 < need <= usize::MAX / 2,
        call_ensures(FromStereo48k::pull, (f, ring, need), r),
    ensures
        ({
            let held = ring::contents(*old(ring));
            &&& !old(f).primed ==> r == 0
            &&& old(f).primed && held.len() >= need * 2 ==> r == need * 2
            &&& old(f).primed && held.len() < need * 2 ==> r == held.len()
            &&& ring::contents(*final(ring)) == held.skip(r as int)
            &&& final(f).pulled@.len() == need * 2
            &&& 0 <= i < r ==> final(f).pulled@[i] == held[i]
            &&& r <= i < need * 2 ==> final(f).pulled@[i] == 0
            &&& final(f).primed <==> r > 0
            &&& old(f).primed && r == 0 && old(f).underruns < u32::MAX ==> final(f).underruns
                == old(f).underruns + 1
            &&& !old(f).primed || r > 0 ==> final(f).underruns == old(f).underruns
        }),
{
}

/// Stereo sound for the phone stands behind what waits; a frame of 20 ms is ready from 1920 samples
/// on. Nothing else of the bridge changes.
pub proof fn bridges_take_in_sound(b: &mut PcmBridge, samples: &[u32], r: bool)
    requires
        ring::contents(old(b).mic.ring).len() + samples@.len() <= ring::capacity(old(b).mic.ring),
        call_ensures(PcmBridge::push_stereo, (b, samples), r),
    ensures
        ring::contents(final(b).mic.ring) == ring::contents(old(b).mic.ring) + samples@,
        r <==> ring::contents(old(b).mic.ring).len() + samples@.len() >= 1920,
        final(b).speaker == old(b).speaker && final(b).mic_in == old(b).mic_in
            && final(b).spk_out == old(b).spk_out,
        final(b).mic.mic_on == old(b).mic.mic_on,
{
    assert(samples@.take(samples@.len() as int) =~= samples@);
}

/// A block of the microphone goes in as stereo; nothing else of the bridge changes.
pub proof fn bridges_take_in_the_microphone(
    b: &mut PcmBridge,
    input: &[u32],
    channels: usize,
    r: bool,
)
    requires
        channels > 0,
        ring::contents(old(b).mic.ring).len() + first_two(input@, channels as nat).len()
            <= ring::capacity(old(b).mic.ring),
        call_ensures(PcmBridge::push_mic, (b, input, channels), r),
    ensures
        ring::contents(final(b).mic.ring) == ring::contents(old(b).mic.ring) + first_two(
            input@,
            channels as nat,
        ),
        r <==> ring::contents(final(b).mic.ring).len() >= 1920,
        final(b).speaker == old(b).speaker && final(b).spk_out == old(b).spk_out,
{
    let s = first_two(input@, channels as nat);
    assert(s.take(s.len() as int) =~= s);
}

/// A muted block is silent throughout.
pub proof fn muted_blocks_are_silent(out: &mut [u32], i: int)
    requires
        call_ensures(mute, (out,), ()),
    ensures
        final(out)@.len() == old(out)@.len(),
        0 <= i < final(out)@.len() ==> final(out)@[i] == 0,
{
}

} // verus!
