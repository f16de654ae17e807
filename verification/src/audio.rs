//! Sound card decisions: choice of device and format, prebuffered sources, routing to channels,
//! the branding bus. Samples are carried as the bits of their single-precision numbers.

use crate::ring;
use crate::ring::Ring;
use crate::strings;
use vstd::prelude::*;

verus! {

/// A sound device, as an output or as an input.
pub struct AudioDevice {
    pub name: String,
    /// `Audio/Sink` (output) or `Audio/Source` (input).
    pub class: String,
    pub max_channels: Option<i32>,
}

/// The most channels among formats.
pub open spec fn most_channels(list: Seq<u16>) -> Option<int>
    decreases list.len(),
{
    if list.len() == 0 {
        None
    } else {
        match most_channels(list.drop_last()) {
            Some(m) if m > list.last() => Some(m),
            _ => Some(list.last() as int),
        }
    }
}

/// Describes a device by its name, its direction and the channel counts of its formats.
pub fn describe_device(name: String, output: bool, channels: &Option<Vec<u16>>) -> (r: AudioDevice)
    ensures
        r.name == name,
        r.class@ == (if output {
            "Audio/Sink"@
        } else {
            "Audio/Source"@
        }),
        (match r.max_channels {
            Some(m) => channels is Some && most_channels(channels->0@) == Some(m as int),
            None => channels is None || most_channels(channels->0@) is None,
        }),
{
    let mut best: Option<i32> = None;
    if let Some(list) = channels {
        let mut i: usize = 0;
        assert(list@.take(0) == Seq::<u16>::empty());
        while i < list.len()
            invariant
                i <= list.len(),
                (match best {
                    Some(m) => most_channels(list@.take(i as int)) == Some(m as int),
                    None => most_channels(list@.take(i as int)) is None,
                }),
            decreases list.len() - i,
        {
            assert(list@.take(i + 1).drop_last() == list@.take(i as int));
            assert(list@.take(i + 1).last() == list@[i as int]);
            let c: i32 = list[i] as i32;
            let more = match best {
                Some(m) => m <= c,
                None => true,
            };
            if more {
                best = Some(c);
            }
            i += 1;
        }
        assert(list@.take(list@.len() as int) == list@);
    }
    AudioDevice {
        name,
        class: if output {
            strings::text("Audio/Sink")
        } else {
            strings::text("Audio/Source")
        },
        max_channels: best,
    }
}

/// Which device a name stands for.
#[derive(Debug, Clone, Copy, PartialEq, Eq, Structural)]
pub enum DeviceChoice {
    /// The default one was asked for.
    Default,
    /// The device at this place of the list.
    Found(usize),
    /// No device has that name: the default one in its place.
    Fallback,
}

/// A name that asks for the default device: blank, or `default` in any case.
pub open spec fn asks_default(name: Seq<char>) -> bool {
    let t = strings::trim(name);
    t.len() == 0 || strings::ascii_lowercase(t) == "default"@
}

/// A device name holds the wanted one, in any case of the letters.
pub open spec fn name_matches(device: Option<String>, wanted: Seq<char>) -> bool {
    match device {
        Some(n) => strings::has_text(strings::lowercase(n@), strings::lowercase(wanted)),
        None => false,
    }
}

/// Chooses a device by name among those listed (a device may have no readable name): the first
/// whose name holds the wanted one, else the default one, so that the rest of the sound goes on.
pub fn find_device(name: &str, devices: &Vec<Option<String>>) -> (r: DeviceChoice)
    ensures
        r == DeviceChoice::Default <==> asks_default(name@),
        (match r {
            DeviceChoice::Found(i) => {
                &&& i < devices@.len()
                &&& name_matches(devices@[i as int], name@)
                &&& forall|j: int| 0 <= j < i ==> !name_matches(#[trigger] devices@[j], name@)
            },
            DeviceChoice::Fallback => forall|j: int|
                0 <= j < devices@.len() ==> !name_matches(#[trigger] devices@[j], name@),
            DeviceChoice::Default => true,
        }),
{
    let s = strings::chars_of(name);
    let t = strings::trim_of(s.as_slice());
    let low = strings::ascii_lowercase_of(t.as_slice());
    if t.len() == 0 || strings::is_text(low.as_slice(), "default") {
        return DeviceChoice::Default;
    }
    let lowered = strings::to_lowercase(name);
    let wanted = strings::chars_of(lowered.as_str());
    let mut i: usize = 0;
    while i < devices.len()
        invariant
            i <= devices.len(),
            wanted@ == strings::lowercase(name@),
            !asks_default(name@),
            forall|j: int| 0 <= j < i ==> !name_matches(#[trigger] devices@[j], name@),
        decreases devices.len() - i,
    {
        if let Some(n) = &devices[i] {
            let l = strings::to_lowercase(n.as_str());
            let lc = strings::chars_of(l.as_str());
            if strings::contains(lc.as_slice(), wanted.as_slice()) {
                return DeviceChoice::Found(i);
            }
        }
        i += 1;
    }
    DeviceChoice::Fallback
}

/// Channels and the range of rates of a supported format.
#[derive(Debug, Clone, Copy, PartialEq, Eq, Structural)]
pub struct FormatRange {
    pub channels: u16,
    pub min_rate: u32,
    pub max_rate: u32,
}

/// Rate to use of a range: 48 kHz where it lies inside, else the highest.
pub open spec fn rate_of(f: FormatRange) -> u32 {
    if f.min_rate <= 48_000 <= f.max_rate {
        48_000
    } else {
        f.max_rate
    }
}

/// The better of a choice and a format: more channels win; with as many, a format replaces the
/// choice unless it would give 48 kHz up.
pub open spec fn better(best: (u16, u32), f: FormatRange) -> (u16, u32) {
    if f.channels > best.0 || f.channels == best.0 && (rate_of(f) == 48_000 || best.1 != 48_000) {
        (f.channels, rate_of(f))
    } else {
        best
    }
}

/// The choice among the default format and the supported ones.
pub open spec fn best_format(default: (u16, u32), formats: Seq<FormatRange>) -> (u16, u32)
    decreases formats.len(),
{
    if formats.len() == 0 {
        default
    } else {
        better(best_format(default, formats.drop_last()), formats.last())
    }
}

/// Best output format (channels, rate): as many channels as there are, at 48 kHz if possible.
pub fn best_config(default: (u16, u32), formats: &Vec<FormatRange>) -> (r: (u16, u32))
    ensures
        r == best_format(default, formats@),
{
    let mut best: (u16, u32) = default;
    let mut i: usize = 0;
    assert(formats@.take(0) == Seq::<FormatRange>::empty());
    while i < formats.len()
        invariant
            i <= formats.len(),
            best == best_format(default, formats@.take(i as int)),
        decreases formats.len() - i,
    {
        assert(formats@.take(i + 1).drop_last() == formats@.take(i as int));
        assert(formats@.take(i + 1).last() == formats@[i as int]);
        let f = formats[i];
        let rate: u32 = if f.min_rate <= 48_000 && 48_000 <= f.max_rate {
            48_000
        } else {
            f.max_rate
        };
        if f.channels > best.0 || (f.channels == best.0 && (rate == 48_000 || best.1 != 48_000)) {
            best = (f.channels, rate);
        }
        i += 1;
    }
    assert(formats@.take(formats@.len() as int) == formats@);
    best
}

/// Best input format, by the same rule.
pub fn best_input_config(default: (u16, u32), formats: &Vec<FormatRange>) -> (r: (u16, u32))
    ensures
        r == best_format(default, formats@),
{
    best_config(default, formats)
}

/// The choice has at least the channels of every format, and runs at 48 kHz where a format with
/// that many channels allows it.
pub proof fn best_format_is_widest(default: (u16, u32), formats: Seq<FormatRange>)
    ensures
        best_format(default, formats).0 >= default.0,
        forall|i: int|
            0 <= i < formats.len() ==> {
                &&& (#[trigger] formats[i]).channels <= best_format(default, formats).0
                &&& formats[i].channels == best_format(default, formats).0 && rate_of(formats[i])
                    == 48_000 ==> best_format(default, formats).1 == 48_000
            },
    decreases formats.len(),
{
    if formats.len() > 0 {
        best_format_is_widest(default, formats.drop_last());
        assert forall|i: int| 0 <= i < formats.len() implies {
            &&& (#[trigger] formats[i]).channels <= best_format(default, formats).0
            &&& formats[i].channels == best_format(default, formats).0 && rate_of(formats[i])
                == 48_000 ==> best_format(default, formats).1 == 48_000
        } by {
            if i < formats.len() - 1 {
                assert(formats.drop_last()[i] == formats[i]);
            }
        }
    }
}

/// Wanted buffer of the card, in frames.
pub const LOW_LATENCY_FRAMES: u32 = 256;

/// The buffer to ask for: the low-latency one where the card announces it, else its default.
pub fn low_latency_buffer(supported: Option<(u32, u32)>) -> (r: Option<u32>)
    ensures
        r == (match supported {
            Some((min, max)) if min <= 256 && 256 <= max => Some(256u32),
            _ => None,
        }),
{
    match supported {
        Some((min, max)) => if min <= LOW_LATENCY_FRAMES && LOW_LATENCY_FRAMES <= max {
            Some(LOW_LATENCY_FRAMES)
        } else {
            None
        },
        None => None,
    }
}

/// Meter of a stereo source: level and peak per channel, as bits of single-precision numbers.
#[derive(Debug, Clone, Copy)]
pub struct SourceMeter {
    pub rms: [u32; 2],
    pub peak: [u32; 2],
}

impl Default for SourceMeter {
    fn default() -> (r: Self)
        ensures
            r.rms@ == seq![0u32, 0u32],
            r.peak@ == seq![0u32, 0u32],
    {
        SourceMeter { rms: [0, 0], peak: [0, 0] }
    }
}

impl SourceMeter {
    /// Stores the level and peak of one channel.
    pub fn store(&mut self, channel: usize, rms: u32, peak: u32)
        requires
            channel < 2,
        ensures
            final(self).rms@ == old(self).rms@.update(channel as int, rms),
            final(self).peak@ == old(self).peak@.update(channel as int, peak),
    {
        self.rms[channel] = rms;
        self.peak[channel] = peak;
    }
}

/// The three meters: phone stream, branding, return.
pub struct Meters {
    pub stream: SourceMeter,
    pub branding: SourceMeter,
    pub ret: SourceMeter,
}

impl Default for Meters {
    fn default() -> (r: Self)
        ensures
            r.stream.rms@ == seq![0u32, 0u32],
            r.branding.rms@ == seq![0u32, 0u32],
            r.ret.rms@ == seq![0u32, 0u32],
            r.stream.peak@ == seq![0u32, 0u32],
            r.branding.peak@ == seq![0u32, 0u32],
            r.ret.peak@ == seq![0u32, 0u32],
    {
        Meters {
            stream: SourceMeter::default(),
            branding: SourceMeter::default(),
            ret: SourceMeter::default(),
        }
    }
}

/// Highest rate whose one-second ring can be addressed on every machine.
pub const MAX_SAMPLE_RATE: u32 = 0x0fff_ffff;

/// Samples of `ms` milliseconds of stereo at a rate, at least `floor`.
pub open spec fn stereo_ms(sample_rate: u32, ms: int, floor: int) -> int {
    let n = sample_rate as int * 2 * ms / 1000;
    if n < floor {
        floor
    } else {
        n
    }
}

fn stereo_samples(sample_rate: u32, ms: u32, floor: usize) -> (r: usize)
    requires
        sample_rate <= MAX_SAMPLE_RATE,
        ms <= 1000,
        floor <= 100,
    ensures
        r == stereo_ms(sample_rate, ms as int, floor as int),
        floor <= r <= 0x1fff_ffff,
{
    proof {
        assert(sample_rate as int * 2 * ms as int <= 0x1fff_fffe * 1000) by (nonlinear_arith)
            requires
                sample_rate <= 0x0fff_ffff,
                ms <= 1000,
        ;
        assert(sample_rate as int * 2 * ms as int >= 0) by (nonlinear_arith);
    }
    let n: usize = (sample_rate as u64 * 2 * ms as u64 / 1000) as usize;
    if n < floor {
        floor
    } else {
        n
    }
}

/// A source of the output mix, played once 50 ms are gathered.
pub struct MixSource {
    pub ring: Ring,
    pub primed: bool,
    pub prime: usize,
    /// Filling that the drift compensation aims at.
    pub target: usize,
    pub capacity: usize,
}

/// What a block of `need` samples reads from a source: the oldest held where playing, silence
/// after them.
pub open spec fn source_block(held: Seq<u32>, playing: bool, need: nat) -> Seq<u32> {
    let got = if playing {
        ring::least(need as int, held.len() as int)
    } else {
        0
    };
    held.take(got) + Seq::new((need - got) as nat, |i: int| 0u32)
}

/// A source plays: it did, or its prebuffer is full.
pub open spec fn playing(s: MixSource) -> bool {
    s.primed || ring::contents(s.ring).len() >= s.prime
}

impl MixSource {
    /// An empty source at a rate: 400 ms of room, 50 ms of prebuffer, 70 ms aimed at.
    pub fn new(sample_rate: u32) -> (r: Self)
        requires
            sample_rate <= MAX_SAMPLE_RATE,
        ensures
            ring::contents(r.ring).len() == 0,
            ring::capacity(r.ring) == r.capacity,
            r.capacity == stereo_ms(sample_rate, 400, 4),
            r.prime == stereo_ms(sample_rate, 50, 2),
            r.target == stereo_ms(sample_rate, 70, 2),
            !r.primed,
    {
        let capacity = stereo_samples(sample_rate, 400, 4);
        MixSource {
            ring: ring::new_ring(capacity),
            primed: false,
            prime: stereo_samples(sample_rate, 50, 2),
            target: stereo_samples(sample_rate, 70, 2),
            capacity,
        }
    }

    /// Reads a block; where it comes up short, the source stops until its prebuffer is full again.
    pub fn read(&mut self, out: &mut [u32])
        ensures
            ({
                let held = ring::contents(old(self).ring);
                let need = old(out)@.len();
                let plays = playing(*old(self));
                &&& final(out)@ == source_block(held, plays, need)
                &&& ring::contents(final(self).ring) == held.skip(
                    if plays {
                        ring::least(need as int, held.len() as int)
                    } else {
                        0
                    },
                )
                &&& final(self).primed == (plays && held.len() >= need)
            }),
            ring::capacity(final(self).ring) == ring::capacity(old(self).ring),
            final(self).prime == old(self).prime,
            final(self).target == old(self).target,
            final(self).capacity == old(self).capacity,
    {
        let ghost held = ring::contents(self.ring);
        let ghost before = out@;
        let need: usize = out.len();
        if !self.primed && ring::occupied_len(&self.ring) >= self.prime {
            self.primed = true;
        }
        let ghost plays = self.primed;
        let mut got: usize = 0;
        if self.primed {
            got = ring::pop_slice(&mut self.ring, out);
            if got < need {
                self.primed = false;
            }
        }
        assert(held.skip(0) == held);
        let mut i: usize = got;
        while i < need
            invariant
                got <= i <= need,
                need == out@.len(),
                got <= held.len(),
                forall|j: int| 0 <= j < got ==> out@[j] == held[j],
                forall|j: int| got <= j < i ==> out@[j] == 0,
            decreases need - i,
        {
            out[i] = 0;
            i += 1;
        }
        assert(out@ == source_block(held, plays, need as nat));
    }

    /// Samples that wait to be played: what the resampling ratio is steered by.
    pub fn waiting(&self) -> (r: usize)
        ensures
            r == ring::contents(self.ring).len(),
    {
        ring::occupied_len(&self.ring)
    }

    /// Takes resampled samples. Where they do not fit, only the end of the block is kept, cut
    /// between frames. True where everything fitted.
    pub fn push(&mut self, samples: &[u32]) -> (r: bool)
        requires
            ring::capacity(old(self).ring) == old(self).capacity,
        ensures
            ({
                let held = ring::contents(old(self).ring);
                let free = old(self).capacity - held.len();
                let over = samples@.len() - free;
                &&& r == (over <= 0)
                &&& ring::contents(final(self).ring) == (if over <= 0 {
                    held + samples@
                } else {
                    held + samples@.skip(over - over % 2).take(free)
                })
            }),
            ring::capacity(final(self).ring) == ring::capacity(old(self).ring),
            final(self).capacity == old(self).capacity,
            final(self).primed == old(self).primed,
            final(self).prime == old(self).prime,
            final(self).target == old(self).target,
    {
        let free: usize = self.capacity - ring::occupied_len(&self.ring);
        if samples.len() > free {
            let over: usize = samples.len() - free;
            let start: usize = over - over % 2;
            let tail = vstd::slice::slice_subrange(samples, start, samples.len());
            assert(tail@ == samples@.skip(start as int));
            let _ = ring::push_slice(&mut self.ring, tail);
            return false;
        }
        let _ = ring::push_slice(&mut self.ring, samples);
        assert(samples@.take(samples@.len() as int) == samples@);
        true
    }
}

/// Where a block does not fit, what is kept of it is its end: as much as there is room for, or
/// one sample more to begin on a frame.
pub proof fn overflow_keeps_the_newest(free: int, len: int)
    requires
        0 <= free < len,
    ensures
        ({
            let over = len - free;
            let start = over - over % 2;
            0 <= start <= len && len - start - free <= 1 && len - start >= free
        }),
{
}

/// Place of a channel of a frame in an output block of `n` channels, where the card has it.
pub open spec fn place(frame: int, n: int, channel: int) -> Option<int> {
    if channel < n {
        Some(frame * n + channel)
    } else {
        None
    }
}

/// Where a source's sample goes in an output block; nowhere where the card has no such channel.
pub fn output_place(frame: usize, n: usize, channel: usize, len: usize) -> (r: Option<usize>)
    requires
        n > 0,
        frame < len / n,
    ensures
        (match r {
            Some(i) => place(frame as int, n as int, channel as int) == Some(i as int) && i < len,
            None => place(frame as int, n as int, channel as int) is None,
        }),
{
    if channel < n {
        proof {
            assert(frame * n + n <= len) by (nonlinear_arith)
                requires
                    frame < len / n,
                    n > 0,
            ;
        }
        Some(frame * n + channel)
    } else {
        None
    }
}

/// Two samples of an output block share a place only where frame and channel agree.
pub proof fn places_are_distinct(n: int, f1: int, c1: int, f2: int, c2: int)
    requires
        0 <= c1 < n,
        0 <= c2 < n,
        place(f1, n, c1) == place(f2, n, c2),
    ensures
        f1 == f2 && c1 == c2,
{
    vstd::arithmetic::div_mod::lemma_fundamental_div_mod_converse(f1 * n + c1, n, f1, c1);
    vstd::arithmetic::div_mod::lemma_fundamental_div_mod_converse(f2 * n + c2, n, f2, c2);
}

/// The last channel where an index is past it.
pub open spec fn clamp_channel(sel: usize, channels: int) -> int {
    if sel >= channels {
        channels - 1
    } else {
        sel as int
    }
}

/// The two selected channels of an input block.
pub open spec fn selected(data: Seq<u32>, channels: nat, sel: (usize, usize)) -> Seq<u32> {
    Seq::new(
        2 * (data.len() / channels),
        |i: int|
            data[(i / 2) * channels + clamp_channel(
                if i % 2 == 0 {
                    sel.0
                } else {
                    sel.1
                },
                channels as int,
            )],
    )
}

/// Keeps the two selected channels of an input block; an index past the last stands for the last.
pub fn select_return(data: &[u32], channels: usize, sel: (usize, usize)) -> (r: Vec<u32>)
    ensures
        channels == 0 ==> r@.len() == 0,
        channels > 0 ==> r@ == selected(data@, channels as nat, sel),
{
    let mut out: Vec<u32> = Vec::new();
    if channels == 0 {
        return out;
    }
    let i0: usize = if sel.0 >= channels {
        channels - 1
    } else {
        sel.0
    };
    let i1: usize = if sel.1 >= channels {
        channels - 1
    } else {
        sel.1
    };
    let len: usize = data.len();
    let frames: usize = len / channels;
    let ghost all = selected(data@, channels as nat, sel);
    let mut f: usize = 0;
    while f < frames
        invariant
            channels > 0,
            i0 < channels,
            i1 < channels,
            i0 == clamp_channel(sel.0, channels as int),
            i1 == clamp_channel(sel.1, channels as int),
            len == data@.len(),
            frames == len / channels,
            f <= frames,
            all == selected(data@, channels as nat, sel),
            out@ == all.take(2 * f),
        decreases frames - f,
    {
        proof {
            assert(f * channels + channels <= len) by (nonlinear_arith)
                requires
                    f < frames,
                    frames == len / channels,
                    channels > 0,
            ;
        }
        let base: usize = f * channels;
        out.push(data[base + i0]);
        out.push(data[base + i1]);
        assert((2 * f) / 2 == f && (2 * f + 1) / 2 == f);
        assert(out@ == all.take(2 * (f + 1)));
        f += 1;
    }
    assert(all.take(2 * frames) == all);
    out
}

/// Reader of the card's return, on the encoder's side.
pub struct Reader {
    pub ring: Ring,
    /// Above, the oldest samples are dropped to bound the latency.
    pub drift_max: usize,
}

impl Reader {
    /// An empty return at a rate: 400 ms of room, 200 ms before the oldest is dropped.
    pub fn new(sample_rate: u32) -> (r: Self)
        requires
            sample_rate <= MAX_SAMPLE_RATE,
        ensures
            ring::contents(r.ring).len() == 0,
            ring::capacity(r.ring) == stereo_ms(sample_rate, 400, 4),
            r.drift_max == stereo_ms(sample_rate, 200, 4),
    {
        let capacity = stereo_samples(sample_rate, 400, 4);
        Reader {
            ring: ring::new_ring(capacity),
            drift_max: stereo_samples(sample_rate, 200, 4),
        }
    }

    /// Takes selected samples of the card, as many as there is room for.
    pub fn push(&mut self, samples: &[u32])
        ensures
            ({
                let held = ring::contents(old(self).ring);
                let room = ring::capacity(old(self).ring) - held.len();
                ring::contents(final(self).ring) == held + samples@.take(
                    ring::least(samples@.len() as int, room),
                )
            }),
            ring::capacity(final(self).ring) == ring::capacity(old(self).ring),
            final(self).drift_max == old(self).drift_max,
    {
        let _ = ring::push_slice(&mut self.ring, samples);
    }

    /// Takes exactly one frame where it is available, at the pace of the card; else `out` is left
    /// alone.
    pub fn pull_frame(&mut self, out: &mut [u32]) -> (r: bool)
        ensures
            ({
                let held = ring::caught_up(
                    ring::contents(old(self).ring),
                    old(self).drift_max as nat,
                    old(out)@.len(),
                );
                let n = old(out)@.len() as int;
                &&& r == (held.len() >= n)
                &&& r ==> final(out)@ == held.take(n) && ring::contents(final(self).ring)
                    == held.skip(n)
                &&& !r ==> final(out)@ == old(out)@ && ring::contents(final(self).ring) == held
            }),
            ring::capacity(final(self).ring) == ring::capacity(old(self).ring),
            final(self).drift_max == old(self).drift_max,
    {
        ring::pull_frame(&mut self.ring, self.drift_max, out)
    }
}

/// One input of the branding bus, filled by a video's sound: a ring of one second.
pub struct BusInput {
    pub ring: Ring,
}

impl BusInput {
    /// An empty input at a rate.
    pub fn new(sample_rate: u32) -> (r: Self)
        requires
            sample_rate <= MAX_SAMPLE_RATE,
        ensures
            ring::contents(r.ring).len() == 0,
            ring::capacity(r.ring) == stereo_ms(sample_rate, 1000, 4),
    {
        BusInput { ring: ring::new_ring(stereo_samples(sample_rate, 1000, 4)) }
    }

    /// Takes what fits and returns how many samples that is.
    pub fn push(&mut self, samples: &[u32]) -> (r: usize)
        ensures
            r == ring::least(
                samples@.len() as int,
                ring::capacity(old(self).ring) - ring::contents(old(self).ring).len(),
            ),
            ring::contents(final(self).ring) == ring::contents(old(self).ring) + samples@.take(
                r as int,
            ),
            ring::capacity(final(self).ring) == ring::capacity(old(self).ring),
    {
        ring::push_slice(&mut self.ring, samples)
    }

    /// Reads at most a block and returns how many samples came; they are then added to the mix.
    pub fn pop(&mut self, out: &mut [u32]) -> (r: usize)
        ensures
            r == ring::least(
                old(out)@.len() as int,
                ring::contents(old(self).ring).len() as int,
            ),
            final(out)@ == ring::contents(old(self).ring).take(r as int) + old(out)@.skip(
                r as int,
            ),
            ring::contents(final(self).ring) == ring::contents(old(self).ring).skip(r as int),
            ring::capacity(final(self).ring) == ring::capacity(old(self).ring),
    {
        ring::pop_slice(&mut self.ring, out)
    }
}

/// Tick of the branding bus, in nanoseconds.
pub const BUS_TICK: u64 = 10_000_000;

/// Delay above which missed ticks are given up, in nanoseconds.
pub const BUS_GIVE_UP: u64 = 200_000_000;

/// Pace of the branding bus.
#[derive(Debug, Clone, Copy, PartialEq, Eq, Structural)]
pub struct BusPace {
    pub next: u64,
}

/// The pace after a tick at `now`, and how long to sleep.
pub open spec fn paced(next: int, now: int) -> (int, int) {
    let n = next + 10_000_000;
    if n > now {
        (n, n - now)
    } else if now - n > 200_000_000 {
        (now, 0)
    } else {
        (n, 0)
    }
}

impl BusPace {
    /// Samples of a tick: 10 ms of stereo, at least one frame.
    pub fn tick_samples(sample_rate: u32) -> (r: usize)
        requires
            sample_rate <= MAX_SAMPLE_RATE,
        ensures
            r == (if sample_rate < 100 {
                2
            } else {
                sample_rate / 100 * 2
            }),
    {
        let n: usize = sample_rate as usize / 100;
        if n < 1 {
            2
        } else {
            n * 2
        }
    }

    /// After a tick, at `now` (nanoseconds): how long to sleep. A long pause is not caught up.
    pub fn after_tick(&mut self, now: u64) -> (r: u64)
        requires
            old(self).next <= u64::MAX - 10_000_000,
        ensures
            (final(self).next as int, r as int) == paced(old(self).next as int, now as int),
    {
        let n: u64 = self.next + BUS_TICK;
        if n > now {
            self.next = n;
            n - now
        } else if now - n > BUS_GIVE_UP {
            self.next = now;
            0
        } else {
            self.next = n;
            0
        }
    }
}

/// A device has as many channels as the widest of its formats: one of them has that many, and none
/// has more. Without a format the number is not known.
pub proof fn widest_format_counts(list: Seq<u16>)
    ensures
        list.len() == 0 <==> most_channels(list) is None,
        forall|i: int|
            0 <= i < list.len() ==> most_channels(list) is Some && #[trigger] list[i]
                <= most_channels(list)->0,
        list.len() > 0 ==> exists|i: int|
            0 <= i < list.len() && #[trigger] list[i] == most_channels(list)->0,
    decreases list.len(),
{
    if list.len() > 0 {
        let u = list.drop_last();
        let n = list.len() - 1;
        widest_format_counts(u);
        assert(list.last() == list[n]);
        assert forall|i: int| 0 <= i < list.len() implies #[trigger] list[i]
            <= most_channels(list)->0 by {
            if i < n {
                assert(u[i] == list[i]);
            }
        }
        if most_channels(list)->0 == list[n] {
            assert(list[n] == most_channels(list)->0);
        } else {
            let i = choose|i: int| 0 <= i < u.len() && #[trigger] u[i] == most_channels(u)->0;
            assert(list[i] == u[i]);
        }
    }
}

/// The default device is asked for by a blank name, or by `default` in any case of its letters;
/// another device by a part of its name, in any case.
pub proof fn names_ask_for_devices(name: Seq<char>, device: String)
    ensures
        strings::trim(name).len() == 0 ==> asks_default(name),
        strings::ascii_lowercase(strings::trim(name)) == "default"@ ==> asks_default(name),
        strings::trim(name).len() > 0 && strings::ascii_lowercase(strings::trim(name))
            != "default"@ ==> !asks_default(name),
        name_matches(Some(device), name) <==> strings::has_text(
            strings::lowercase(device@),
            strings::lowercase(name),
        ),
        !name_matches(None, name),
{
}

/// A format is used at 48 kHz where it allows it, and at its highest rate where it does not.
pub proof fn formats_run_at_48_khz_if_they_can(f: FormatRange)
    ensures
        f.min_rate <= 48_000 && 48_000 <= f.max_rate ==> rate_of(f) == 48_000,
        f.min_rate > 48_000 || 48_000 > f.max_rate ==> rate_of(f) == f.max_rate,
{
}

/// The format that is chosen is one that there is: the default one, or one of the list at the rate
/// that it is used at. A default format wider than all the others stays as it is.
pub proof fn chosen_format_exists(default: (u16, u32), formats: Seq<FormatRange>)
    ensures
        best_format(default, formats) == default || exists|i: int|
            0 <= i < formats.len() && best_format(default, formats) == (
                (#[trigger] formats[i]).channels,
                rate_of(formats[i]),
            ),
        (forall|i: int| 0 <= i < formats.len() ==> (#[trigger] formats[i]).channels < default.0)
            ==> best_format(default, formats) == default,
    decreases formats.len(),
{
    if formats.len() > 0 {
        let u = formats.drop_last();
        let n = formats.len() - 1;
        chosen_format_exists(default, u);
        assert(formats.last() == formats[n]);
        if best_format(default, formats) == best_format(default, u) {
            if best_format(default, u) != default {
                let i = choose|i: int|
                    0 <= i < u.len() && best_format(default, u) == (
                        (#[trigger] u[i]).channels,
                        rate_of(u[i]),
                    );
                assert(formats[i] == u[i]);
                assert(best_format(default, formats) == (
                    formats[i].channels,
                    rate_of(formats[i]),
                ));
            }
        } else {
            assert(best_format(default, formats) == (formats[n].channels, rate_of(formats[n])));
        }
        if forall|i: int| 0 <= i < formats.len() ==> (#[trigger] formats[i]).channels < default.0 {
            assert(formats[n].channels < default.0);
            assert forall|i: int| 0 <= i < u.len() implies (#[trigger] u[i]).channels
                < default.0 by {
                assert(u[i] == formats[i]);
            }
        }
    }
}

/// The card is asked for 256 frames where it announces them, and left to its default otherwise.
pub proof fn cards_are_asked_for_a_short_buffer(supported: Option<(u32, u32)>, r: Option<u32>)
    requires
        call_ensures(low_latency_buffer, (supported,), r),
    ensures
        r is Some ==> r == Some(256u32),
        r is Some <==> supported is Some && (supported->0).0 <= 256 && 256 <= (supported->0).1,
{
}

/// A second of stereo at a rate is twice as many samples, and a part of it in proportion, with a
/// floor.
pub proof fn durations_are_counted_in_samples(rate: u32, floor: int)
    ensures
        stereo_ms(rate, 1000, 0) == rate * 2,
        stereo_ms(rate, 400, floor) >= floor,
        rate * 2 * 400 / 1000 >= floor ==> stereo_ms(rate, 400, floor) == rate * 2 * 400 / 1000,
        rate * 2 * 200 / 1000 >= floor ==> stereo_ms(rate, 200, floor) == rate * 2 * 200 / 1000,
        rate * 2 * 70 / 1000 >= floor ==> stereo_ms(rate, 70, floor) == rate * 2 * 70 / 1000,
        rate * 2 * 50 / 1000 >= floor ==> stereo_ms(rate, 50, floor) == rate * 2 * 50 / 1000,
        rate == 0 && floor >= 0 ==> stereo_ms(rate, 400, floor) == floor,
{
}

/// A source that plays gives out its oldest samples, and silence for what is missing; one that does
/// not is silent. It plays once its prebuffer is full, and from then on.
pub proof fn sources_give_out_their_oldest(held: Seq<u32>, need: nat, i: int)
    requires
        0 <= i < need,
    ensures
        source_block(held, true, need).len() == need,
        i < held.len() ==> source_block(held, true, need)[i] == held[i],
        i >= held.len() ==> source_block(held, true, need)[i] == 0,
        source_block(held, false, need).len() == need,
        source_block(held, false, need)[i] == 0,
{
}

/// A source plays where it did, or where its prebuffer is full.
pub proof fn sources_play_with_a_full_prebuffer(s: MixSource)
    ensures
        s.primed ==> playing(s),
        !s.primed ==> playing(s) == (ring::contents(s.ring).len() >= s.prime),
{
}

/// A sample goes to its own channel of its own frame, where the card has that channel, and nowhere
/// otherwise.
pub proof fn samples_go_to_their_channel(frame: int, n: int, channel: int)
    ensures
        channel < n ==> place(frame, n, channel) == Some(frame * n + channel),
        channel >= n ==> place(frame, n, channel) is None,
{
}

/// The return takes its two channels out of each frame of the input, left then right; a channel
/// past the last is the last.
pub proof fn return_takes_its_channels(
    data: Seq<u32>,
    channels: nat,
    sel: (usize, usize),
    f: int,
)
    requires
        channels > 0,
        0 <= f < data.len() / channels,
    ensures
        selected(data, channels, sel).len() == 2 * (data.len() / channels),
        sel.0 < channels ==> selected(data, channels, sel)[2 * f] == data[f * channels + sel.0],
        sel.1 < channels ==> selected(data, channels, sel)[2 * f + 1] == data[f * channels
            + sel.1],
        sel.0 >= channels ==> selected(data, channels, sel)[2 * f] == data[f * channels + channels
            - 1],
        sel.1 >= channels ==> selected(data, channels, sel)[2 * f + 1] == data[f * channels
            + channels - 1],
{
    assert((2 * f) / 2 == f && (2 * f) % 2 == 0 && (2 * f + 1) / 2 == f && (2 * f + 1) % 2 == 1);
}

/// The bus ticks every 10 ms: ahead of time it sleeps until then, late it goes on at once and
/// catches up, unless it is more than 200 ms late: then it starts over from now.
pub proof fn bus_keeps_its_pace(next: int, now: int)
    ensures
        now < next + 10_000_000 ==> paced(next, now) == (next + 10_000_000, next + 10_000_000
            - now),
        next + 10_000_000 <= now <= next + 210_000_000 ==> paced(next, now) == (
            next + 10_000_000,
            0int,
        ),
        now > next + 210_000_000 ==> paced(next, now) == (now, 0int),
{
}

/// The default device is taken where it is asked for; a device that is found is the first that
/// matches the name.
pub proof fn devices_are_found_by_name(
    name: &str,
    devices: &Vec<Option<String>>,
    r: DeviceChoice,
    i: int,
)
    requires
        call_ensures(find_device, (name, devices), r),
    ensures
        r is Default <==> asks_default(name@),
        r is Found ==> r->0 < devices@.len() && name_matches(devices@[r->0 as int], name@),
        r is Found && 0 <= i < r->0 ==> !name_matches(devices@[i], name@),
{
}

/// A device is listed under its name, as a sink or a source, with the most channels of its formats.
pub proof fn devices_are_described(
    name: String,
    output: bool,
    channels: &Option<Vec<u16>>,
    r: AudioDevice,
)
    requires
        call_ensures(describe_device, (name, output, channels), r),
    ensures
        r.name == name,
        output ==> r.class@ == "Audio/Sink"@,
        !output ==> r.class@ == "Audio/Source"@,
        channels is None ==> r.max_channels is None,
{
}

/// A meter keeps the level of its channel and leaves the other one alone.
pub proof fn meters_keep_their_levels(
    m: &mut SourceMeter,
    channel: usize,
    rms: u32,
    peak: u32,
    other: int,
)
    requires
        channel < 2,
        0 <= other < 2,
        other != channel,
        call_ensures(SourceMeter::store, (m, channel, rms, peak), ()),
    ensures
        final(m).rms@[channel as int] == rms && final(m).peak@[channel as int] == peak,
        final(m).rms@[other] == old(m).rms@[other] && final(m).peak@[other] == old(m).peak@[other],
{
}

/// Samples pushed into a source stand behind those that it holds. Where they all fit, they are all
/// kept; where they do not, the source is full of the last of them, in whole frames.
pub proof fn sources_take_in_the_newest(s: &mut MixSource, samples: &[u32], r: bool)
    requires
        ring::capacity(old(s).ring) == old(s).capacity,
        ring::contents(old(s).ring).len() <= old(s).capacity,
        call_ensures(MixSource::push, (s, samples), r),
    ensures
        ({
            let held = ring::contents(old(s).ring);
            let after = ring::contents(final(s).ring);
            &&& r <==> held.len() + samples@.len() <= old(s).capacity
            &&& r ==> after == held + samples@
            &&& after.len() >= held.len() && after.take(held.len() as int) == held
            &&& !r && (held.len() + samples@.len() - old(s).capacity) % 2 == 0 ==> after.len()
                == old(s).capacity && (after.len() > held.len() ==> after.last()
                == samples@.last())
        }),
        final(s).primed == old(s).primed && final(s).capacity == old(s).capacity,
{
    let held = ring::contents(old(s).ring);
    let after = ring::contents(final(s).ring);
    assert(after.take(held.len() as int) =~= held);
}

/// What a source gives out is what it holds, oldest first, followed by silence where that is too
/// little; a source that does not play yet gives out silence and keeps everything.
pub proof fn sources_give_out_in_order(s: &mut MixSource, out: &mut [u32], i: int)
    requires
        call_ensures(MixSource::read, (s, out), ()),
    ensures
        ({
            let held = ring::contents(old(s).ring);
            let need = old(out)@.len();
            let plays = old(s).primed || held.len() >= old(s).prime;
            &&& final(out)@.len() == need
            &&& plays && 0 <= i < need && i < held.len() ==> final(out)@[i] == held[i]
            &&& plays && held.len() <= i < need ==> final(out)@[i] == 0
            &&& !plays && 0 <= i < need ==> final(out)@[i] == 0
            &&& !plays ==> ring::contents(final(s).ring) == held
            &&& plays && held.len() >= need ==> ring::contents(final(s).ring) == held.skip(
                need as int,
            )
            &&& plays && held.len() < need ==> ring::contents(final(s).ring).len() == 0
            &&& final(s).primed <==> plays && held.len() >= need
        }),
{
    let held = ring::contents(old(s).ring);
    assert(held.skip(0) =~= held);
}

/// A reader takes in as much as it has room for, and gives out whole frames in order; without a
/// whole one it leaves the block as it was.
pub proof fn readers_give_out_whole_frames(
    a: &mut Reader,
    samples: &[u32],
    b: &mut Reader,
    out: &mut [u32],
    r: bool,
)
    requires
        ring::contents(old(a).ring).len() + samples@.len() <= ring::capacity(old(a).ring),
        call_ensures(Reader::push, (a, samples), ()),
        ring::contents(old(b).ring).len() <= old(b).drift_max,
        call_ensures(Reader::pull_frame, (b, out), r),
    ensures
        ring::contents(final(a).ring) == ring::contents(old(a).ring) + samples@,
        r <==> ring::contents(old(b).ring).len() >= old(out)@.len(),
        r ==> final(out)@ + ring::contents(final(b).ring) == ring::contents(old(b).ring),
        !r ==> final(out)@ == old(out)@ && ring::contents(final(b).ring) == ring::contents(
            old(b).ring,
        ),
{
    let held = ring::contents(old(b).ring);
    assert(samples@.take(samples@.len() as int) =~= samples@);
    if r {
        assert(final(out)@ + ring::contents(final(b).ring) =~= held);
    }
}

/// The bus gives out what came in, oldest first: what is popped and what stays are what it held.
pub proof fn bus_gives_out_in_order(
    a: &mut BusInput,
    samples: &[u32],
    n: usize,
    b: &mut BusInput,
    out: &mut [u32],
    m: usize,
)
    requires
        ring::contents(old(a).ring).len() <= ring::capacity(old(a).ring),
        call_ensures(BusInput::push, (a, samples), n),
        call_ensures(BusInput::pop, (b, out), m),
    ensures
        n <= samples@.len(),
        ring::contents(final(a).ring) == ring::contents(old(a).ring) + samples@.take(n as int),
        n < samples@.len() ==> ring::contents(final(a).ring).len() == ring::capacity(old(a).ring),
        m <= old(out)@.len() && m <= ring::contents(old(b).ring).len(),
        m == old(out)@.len() || m == ring::contents(old(b).ring).len(),
        final(out)@.take(m as int) + ring::contents(final(b).ring) == ring::contents(old(b).ring),
        final(out)@.skip(m as int) == old(out)@.skip(m as int),
{
    let held = ring::contents(old(b).ring);
    assert(final(out)@.take(m as int) + ring::contents(final(b).ring) =~= held);
    assert(final(out)@.skip(m as int) =~= old(out)@.skip(m as int));
}

/// A source holds 0.4 s, plays from 50 ms on and aims at 70 ms; a reader holds 0.4 s and drops what
/// is over 0.2 s; the bus holds a second and moves 10 ms at a time. All in stereo.
pub proof fn buffers_are_sized_in_time(
    sample_rate: u32,
    s: MixSource,
    r: Reader,
    b: BusInput,
    tick: usize,
)
    requires
        1000 <= sample_rate <= MAX_SAMPLE_RATE,
        call_ensures(MixSource::new, (sample_rate,), s),
        call_ensures(Reader::new, (sample_rate,), r),
        call_ensures(BusInput::new, (sample_rate,), b),
        call_ensures(BusPace::tick_samples, (sample_rate,), tick),
    ensures
        s.capacity == sample_rate * 800 / 1000,
        s.prime == sample_rate * 100 / 1000,
        s.target == sample_rate * 140 / 1000,
        !s.primed && ring::contents(s.ring).len() == 0,
        r.drift_max == sample_rate * 400 / 1000,
        ring::capacity(r.ring) == sample_rate * 800 / 1000,
        ring::capacity(b.ring) == sample_rate * 2,
        ring::contents(r.ring).len() == 0 && ring::contents(b.ring).len() == 0,
        tick == sample_rate / 100 * 2,
{
}

} // verus!
