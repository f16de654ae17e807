//! Hand-over of pictures between decoders and drawing: each source (the phone, a video file) has
//! a slot that holds its latest picture. `S` stands for the picture's memory; times are in
//! nanoseconds.

use vstd::prelude::*;

verus! {

/// Layout of the pixels of a decoded picture.
#[derive(Debug, Clone, Copy, PartialEq, Eq, Structural)]
pub enum PixelFormat {
    Bgra,
    Nv12,
}

/// Code `420v`: two planes, video range.
pub const CODE_NV12_VIDEO: u32 = 0x3432_3076;

/// Code `420f`: two planes, full range.
pub const CODE_NV12_FULL: u32 = 0x3432_3066;

/// Code `BGRA`: one plane.
pub const CODE_BGRA: u32 = 0x4247_5241;

/// The pixel layout that a four-character code names, if it can be drawn.
pub open spec fn format_of_code(code: u32) -> Option<PixelFormat> {
    if code == CODE_NV12_VIDEO || code == CODE_NV12_FULL {
        Some(PixelFormat::Nv12)
    } else if code == CODE_BGRA {
        Some(PixelFormat::Bgra)
    } else {
        None
    }
}

/// A decoded picture in graphics memory.
pub struct SurfaceFrame<S> {
    pub surface: S,
    /// Identifier of the memory, the key under which its texture is kept.
    pub surface_id: u32,
    pub width: u32,
    pub height: u32,
    pub format: PixelFormat,
}

impl<S> SurfaceFrame<S> {
    /// Wraps a decoded picture: nothing where it has no graphics memory behind it, or a layout
    /// that cannot be drawn.
    pub fn from_pixel_buffer(
        code: u32,
        surface: Option<S>,
        surface_id: u32,
        width: u32,
        height: u32,
    ) -> (r: Option<Self>)
        ensures
            r == (match (format_of_code(code), surface) {
                (Some(format), Some(surface)) => Some(
                    SurfaceFrame { surface, surface_id, width, height, format },
                ),
                _ => None,
            }),
    {
        let format = if code == CODE_NV12_VIDEO || code == CODE_NV12_FULL {
            PixelFormat::Nv12
        } else if code == CODE_BGRA {
            PixelFormat::Bgra
        } else {
            return None;
        };
        match surface {
            Some(surface) => Some(SurfaceFrame { surface, surface_id, width, height, format }),
            None => None,
        }
    }
}

/// One second.
pub const SECOND: u64 = 1_000_000_000;

/// Time between two instants, zero where they are out of order.
pub open spec fn since(start: u64, now: u64) -> int {
    if now < start {
        0
    } else {
        now - start
    }
}

/// Counter of pictures per second. The measured rate is a number of pictures and the time they
/// took.
#[derive(Debug, Clone, Copy)]
pub struct FpsCounter {
    pub count: u64,
    pub start: u64,
    pub measured: (u64, u64),
}

impl FpsCounter {
    /// A counter that starts now.
    pub fn new(now: u64) -> (r: Self)
        ensures
            r == (FpsCounter { count: 0, start: now, measured: (0, SECOND) }),
    {
        FpsCounter { count: 0, start: now, measured: (0, SECOND) }
    }

    /// One more picture. Once a second has passed the rate is measured, and the count starts
    /// again.
    pub fn tick(&mut self, now: u64)
        ensures
            *final(self) == ticked(*old(self), now),
    {
        let n: u64 = self.count.wrapping_add(1);
        let passed: u64 = if now < self.start {
            0
        } else {
            now - self.start
        };
        if passed >= SECOND {
            self.count = 0;
            self.start = now;
            self.measured = (n, passed);
        } else {
            self.count = n;
        }
    }

    /// The last measured rate, pictures and the time they took; no picture where nothing came
    /// for two seconds.
    pub fn value(&self, now: u64) -> (r: (u64, u64))
        ensures
            r == rate_at(*self, now),
    {
        if now > self.start && now - self.start > 2 * SECOND {
            (0, SECOND)
        } else {
            self.measured
        }
    }
}

/// The counter after a picture.
pub open spec fn ticked(c: FpsCounter, now: u64) -> FpsCounter {
    let n = c.count.wrapping_add(1);
    if since(c.start, now) >= SECOND {
        FpsCounter { count: 0, start: now, measured: (n, since(c.start, now) as u64) }
    } else {
        FpsCounter { count: n, ..c }
    }
}

/// The rate that a counter shows.
pub open spec fn rate_at(c: FpsCounter, now: u64) -> (u64, u64) {
    if since(c.start, now) > 2 * SECOND {
        (0, SECOND)
    } else {
        c.measured
    }
}

/// The latest picture of a source.
pub struct FrameSlot<S> {
    pub id: u64,
    pub seq: u64,
    pub latest: Option<SurfaceFrame<S>>,
    pub fps: FpsCounter,
}

impl<S> FrameSlot<S> {
    /// An empty slot.
    pub fn new(id: u64, now: u64) -> (r: Self)
        ensures
            r == (FrameSlot::<S> {
                id,
                seq: 0,
                latest: None,
                fps: FpsCounter { count: 0, start: now, measured: (0, SECOND) },
            }),
    {
        FrameSlot { id, seq: 0, latest: None, fps: FpsCounter::new(now) }
    }

    pub fn id(&self) -> (r: u64)
        ensures
            r == self.id,
    {
        self.id
    }

    /// A new picture replaces the one before.
    pub fn push(&mut self, frame: SurfaceFrame<S>, now: u64)
        ensures
            *final(self) == pushed(*old(self), frame, now),
    {
        self.latest = Some(frame);
        self.seq = self.seq.wrapping_add(1);
        self.fps.tick(now);
    }

    /// The source is gone.
    pub fn clear(&mut self)
        ensures
            *final(self) == cleared(*old(self)),
    {
        self.latest = None;
        self.seq = self.seq.wrapping_add(1);
    }

    /// Number that changes with the contents.
    pub fn seq(&self) -> (r: u64)
        ensures
            r == self.seq,
    {
        self.seq
    }

    /// The latest picture and its number.
    pub fn latest(&self) -> (r: Option<(u64, &SurfaceFrame<S>)>)
        ensures
            r == (match &self.latest {
                Some(f) => Some((self.seq, f)),
                None => None,
            }),
    {
        match &self.latest {
            Some(f) => Some((self.seq, f)),
            None => None,
        }
    }

    /// Size of the latest picture.
    pub fn dimensions(&self) -> (r: Option<(u32, u32)>)
        ensures
            r == (match self.latest {
                Some(f) => Some((f.width, f.height)),
                None => None,
            }),
    {
        match &self.latest {
            Some(f) => Some((f.width, f.height)),
            None => None,
        }
    }
}

/// A slot after a picture came.
pub open spec fn pushed<S>(s: FrameSlot<S>, frame: SurfaceFrame<S>, now: u64) -> FrameSlot<S> {
    FrameSlot {
        id: s.id,
        seq: s.seq.wrapping_add(1),
        latest: Some(frame),
        fps: ticked(s.fps, now),
    }
}

/// A slot after its source went.
pub open spec fn cleared<S>(s: FrameSlot<S>) -> FrameSlot<S> {
    FrameSlot { seq: s.seq.wrapping_add(1), latest: None, ..s }
}

/// Whoever remembers the number of a slot notices the next change of its contents.
pub proof fn changes_are_noticed<S>(s: FrameSlot<S>, frame: SurfaceFrame<S>, now: u64)
    ensures
        pushed(s, frame, now).seq != s.seq,
        cleared(s).seq != s.seq,
{
}

/// A slot whose source went shows no picture, and no rate two seconds after the last measure.
pub proof fn silent_source_has_no_rate(c: FpsCounter, now: u64)
    requires
        now > c.start + 2 * SECOND,
    ensures
        (rate_at(c, now)).0 == 0,
{
}

/// Pictures can be drawn in two layouts: two planes for the codes `420v` and `420f`, one plane for
/// `BGRA`; no other code can be.
pub proof fn drawable_layouts(code: u32)
    ensures
        format_of_code(code) == Some(PixelFormat::Nv12) <==> code == 0x3432_3076 || code
            == 0x3432_3066,
        format_of_code(code) == Some(PixelFormat::Bgra) <==> code == 0x4247_5241,
{
}

/// The rate is measured once a second: within it pictures are only counted, and the rate shown
/// stays; the first one after it has the rate measured over the time that passed, itself included,
/// and the count starts again.
pub proof fn rates_are_measured_each_second(c: FpsCounter, now: u64)
    requires
        c.count < u64::MAX,
    ensures
        now < c.start + 1_000_000_000 ==> {
            let t = ticked(c, now);
            t.count == c.count + 1 && t.start == c.start && t.measured == c.measured
        },
        now >= c.start + 1_000_000_000 ==> {
            let t = ticked(c, now);
            t.count == 0 && t.start == now && t.measured.0 == c.count + 1 && t.measured.1 == now
                - c.start
        },
        now <= c.start + 2_000_000_000 ==> rate_at(c, now) == c.measured,
        now > c.start + 2_000_000_000 ==> rate_at(c, now) == (0u64, 1_000_000_000u64),
{
}

/// The latest picture is the one that came last, whole; a source that went leaves none. Both count
/// on the number of the slot, and only a picture counts for the rate.
pub proof fn latest_picture_is_held<S>(s: FrameSlot<S>, frame: SurfaceFrame<S>, now: u64)
    ensures
        pushed(s, frame, now).latest == Some(frame),
        pushed(s, frame, now).id == s.id,
        pushed(s, frame, now).seq == s.seq.wrapping_add(1),
        pushed(s, frame, now).fps == ticked(s.fps, now),
        cleared(s).latest is None,
        cleared(s).id == s.id,
        cleared(s).seq == s.seq.wrapping_add(1),
        cleared(s).fps == s.fps,
{
}

/// A picture that was pushed is the one that is shown, under a new number, until it is cleared;
/// what is told of its size is its size.
pub proof fn pushed_pictures_are_shown<S>(
    s: &mut FrameSlot<S>,
    frame: SurfaceFrame<S>,
    now: u64,
    t: &FrameSlot<S>,
    shown: Option<(u64, &SurfaceFrame<S>)>,
    size: Option<(u32, u32)>,
    u: &mut FrameSlot<S>,
)
    requires
        call_ensures(FrameSlot::<S>::push, (s, frame, now), ()),
        *t == *final(s),
        call_ensures(FrameSlot::<S>::latest, (t,), shown),
        call_ensures(FrameSlot::<S>::dimensions, (t,), size),
        call_ensures(FrameSlot::<S>::clear, (u,), ()),
    ensures
        shown is Some && *((shown->0).1) == frame && (shown->0).0 == final(s).seq,
        size == Some((frame.width, frame.height)),
        old(s).seq < u64::MAX ==> final(s).seq == old(s).seq + 1,
        final(s).id == old(s).id,
        final(u).latest is None && final(u).id == old(u).id,
{
}

/// A picture comes out of a pixel buffer exactly where its layout is known and its memory can be
/// had; it is then of that memory and size.
pub proof fn pictures_come_out_of_buffers<S>(
    code: u32,
    surface: Option<S>,
    surface_id: u32,
    width: u32,
    height: u32,
    r: Option<SurfaceFrame<S>>,
)
    requires
        call_ensures(
            SurfaceFrame::<S>::from_pixel_buffer,
            (code, surface, surface_id, width, height),
            r,
        ),
    ensures
        r is Some <==> format_of_code(code) is Some && surface is Some,
        r is Some ==> r->0.surface == surface->0 && r->0.surface_id == surface_id && r->0.width
            == width && r->0.height == height && r->0.format == format_of_code(code)->0,
{
}

} // verus!
