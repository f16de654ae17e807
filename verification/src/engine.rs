//! State of the switcher: scenes, programme, preview, transitions, the phone, and the routing of
//! the sound. Times are in nanoseconds.

use crate::avf::Playlist;
use crate::config;
use crate::config::{AudioConfig, Config, Geometry, LayerConfig, SceneConfig};
use crate::frame;
use crate::frame::{FpsCounter, FrameSlot};
use crate::signaling::PhoneStats;
use crate::strings;
use vstd::prelude::*;

verus! {

/// What is shown in place of a lost phone.
pub fn no_phone_text() -> (r: &'static str)
    ensures
        r@ == "Connexion avec notre correspondant perdue !"@,
{
    "Connexion avec notre correspondant perdue !"
}

/// What the switcher tells its listeners.
pub enum Event {
    Program { scene: String },
    Preview { scene: String },
    Phone { connected: bool, name: Option<String> },
}

/// Identifier and name of a scene.
pub struct SceneInfo {
    pub id: String,
    pub name: String,
}

/// Statistics of the phone's video, as received.
pub struct RtpStats {
    pub codec: String,
    /// Bytes received, and the time that took.
    pub bitrate: (u64, u64),
    pub packets_received: u64,
    pub packets_lost: i64,
    /// Packets lost, out of all that were sent.
    pub loss: (u64, u64),
    /// Bits of the jitter in units of the stream's clock, in double precision.
    pub jitter_bits: u64,
    pub nack_count: u32,
    pub pli_count: u32,
    pub rtt_ms_bits: Option<u32>,
}

/// Statistics of the switcher. A rate is a number of pictures and the time they took.
pub struct Stats {
    pub phone_fps: (u64, u64),
    pub phone_width: u32,
    pub phone_height: u32,
    pub render_fps: (u64, u64),
    pub rtp: Option<RtpStats>,
    pub phone: Option<PhoneStats>,
}

/// A running fade.
#[derive(Debug, Clone, Copy, PartialEq, Eq, Structural)]
pub struct Transition {
    pub from: usize,
    pub start: u64,
    pub duration: u64,
}

/// Time since an instant, zero where it lies ahead.
pub open spec fn elapsed(since: u64, now: u64) -> int {
    if now < since {
        0
    } else {
        now - since
    }
}

impl Transition {
    /// Time of the fade that has passed, at most its duration.
    pub fn progress(&self, now: u64) -> (r: u64)
        ensures
            r == (if elapsed(self.start, now) < self.duration {
                elapsed(self.start, now)
            } else {
                self.duration as int
            }),
    {
        let e: u64 = if now < self.start {
            0
        } else {
            now - self.start
        };
        if e < self.duration {
            e
        } else {
            self.duration
        }
    }

    /// Whether the fade is over.
    pub fn over(&self, now: u64) -> (r: bool)
        ensures
            r == fade_over(*self, now),
    {
        self.progress(now) >= self.duration
    }
}

/// A fade is over once its duration has passed.
pub open spec fn fade_over(t: Transition, now: u64) -> bool {
    elapsed(t.start, now) >= t.duration
}

/// What to draw.
#[derive(Debug, Clone, Copy)]
pub struct RenderState {
    pub program: usize,
    pub preview: usize,
    /// Scene that fades out, time that has passed and duration.
    pub fade: Option<(usize, u64, u64)>,
    pub phone_connected: bool,
}

/// What a layer of a scene shows.
#[derive(Debug, Clone, Copy, PartialEq, Eq, Structural)]
pub enum LayerKind {
    Phone,
    Color,
    Image,
    Video {
        /// Plays while its scene is on the air.
        on_air: bool,
    },
    Text,
}

/// A layer, ready to be drawn.
#[derive(Debug, Clone, Copy, PartialEq, Eq, Structural)]
pub struct Layer {
    /// Key of its texture.
    pub id: u64,
    pub kind: LayerKind,
}

/// A scene.
pub struct Scene {
    pub id: String,
    pub name: String,
    pub layers: Vec<Layer>,
}

/// What to do besides a change of state.
pub enum Effect {
    Emit(Event),
    /// (Re)start the videos of a scene that play on the air.
    StartVideos(usize),
    /// Stop the videos of a scene that play on the air, after a while.
    StopVideos { scene: usize, after: u64 },
    /// Forget the phone's picture.
    ClearPhone,
}

/// The switcher.
pub struct Engine {
    pub scenes: Vec<Scene>,
    /// `cut` or `fade`.
    pub transition_kind: String,
    pub transition_ms: u64,
    pub program: usize,
    pub preview: usize,
    pub transition: Option<Transition>,
    pub phone: Option<String>,
    pub rtp_stats: Option<RtpStats>,
    pub phone_stats: Option<PhoneStats>,
}

/// Programme, preview and fade speak of scenes.
pub open spec fn engine_wf(e: Engine) -> bool {
    &&& e.program < e.scenes@.len()
    &&& e.preview < e.scenes@.len()
    &&& e.transition matches Some(t) ==> t.from < e.scenes@.len()
    &&& e.transition_ms <= u64::MAX / 1_000_000
}

/// A scene shows the phone.
pub open spec fn shows_phone(s: Scene) -> bool {
    exists|i: int| 0 <= i < s.layers@.len() && (#[trigger] s.layers@[i]).kind == LayerKind::Phone
}

/// A change of programme fades: it is animated, and a fade of some duration is configured.
pub open spec fn fades(e: Engine, animated: bool) -> bool {
    animated && strings::ascii_lowercase(e.transition_kind@) == "fade"@ && e.transition_ms > 0
}

/// The switcher and what to do after a scene was put on the programme. The scene on the air asked
/// for again restarts its videos, and a cut to it ends its fade; a scene that leaves stops its
/// videos once it has faded out.
pub open spec fn switched(e: Engine, idx: usize, animated: bool, now: u64) -> (Engine, Seq<Effect>) {
    if idx >= e.scenes@.len() {
        (e, seq![])
    } else if idx == e.program {
        (
            Engine {
                transition: if animated {
                    e.transition
                } else {
                    None
                },
                ..e
            },
            seq![Effect::StartVideos(idx)],
        )
    } else {
        let fade = fades(e, animated);
        let duration = (e.transition_ms * 1_000_000) as u64;
        (
            Engine {
                program: idx,
                transition: if fade {
                    Some(Transition { from: e.program, start: now, duration })
                } else {
                    None
                },
                ..e
            },
            seq![
                Effect::StartVideos(idx),
                Effect::StopVideos {
                    scene: e.program,
                    after: if fade {
                        duration
                    } else {
                        0
                    },
                },
                Effect::Emit(Event::Program { scene: e.scenes@[idx as int].id }),
            ],
        )
    }
}

/// The switcher and what to do after another scene was put on the preview.
pub open spec fn previewed(e: Engine, idx: usize) -> (Engine, Seq<Effect>) {
    if idx >= e.scenes@.len() || idx == e.preview {
        (e, seq![])
    } else {
        (
            Engine { preview: idx, ..e },
            seq![Effect::Emit(Event::Preview { scene: e.scenes@[idx as int].id })],
        )
    }
}

/// The switcher and what to do after the preview was taken to the programme; the programme goes
/// to the preview.
pub open spec fn taken(e: Engine, now: u64) -> (Engine, Seq<Effect>) {
    let a = switched(e, e.preview, true, now);
    let b = previewed(a.0, e.program);
    (b.0, a.1 + b.1)
}

/// The first scene with an identifier.
pub open spec fn is_scene(scenes: Seq<Scene>, id: Seq<char>, i: int) -> bool {
    &&& 0 <= i < scenes.len()
    &&& scenes[i].id@ == id
    &&& forall|j: int| 0 <= j < i ==> (#[trigger] scenes[j]).id@ != id
}

/// Place of the first scene with an identifier.
pub open spec fn scene_with(scenes: Seq<Scene>, id: Seq<char>) -> Option<usize> {
    if exists|i: int| is_scene(scenes, id, i) {
        Some((choose|i: int| is_scene(scenes, id, i)) as usize)
    } else {
        None
    }
}

/// The phone is visible on the programme, the scene that fades out included.
pub open spec fn on_air(e: Engine, now: u64) -> bool {
    ||| shows_phone(e.scenes@[e.program as int])
    ||| e.transition matches Some(t) && !fade_over(t, now) && shows_phone(
        e.scenes@[t.from as int],
    )
}

/// What the state of the switcher is.
pub struct Snapshot {
    pub scenes: Vec<SceneInfo>,
    pub program: String,
    pub preview: String,
    pub phone_connected: bool,
    pub phone_name: Option<String>,
    pub transition: String,
    pub stats: Stats,
}

fn copy_rtp(o: &Option<RtpStats>) -> (r: Option<RtpStats>)
    ensures
        r == *o,
{
    match o {
        Some(s) => Some(
            RtpStats {
                codec: s.codec.clone(),
                bitrate: s.bitrate,
                packets_received: s.packets_received,
                packets_lost: s.packets_lost,
                loss: s.loss,
                jitter_bits: s.jitter_bits,
                nack_count: s.nack_count,
                pli_count: s.pli_count,
                rtt_ms_bits: s.rtt_ms_bits,
            },
        ),
        None => None,
    }
}

fn copy_phone(o: &Option<PhoneStats>) -> (r: Option<PhoneStats>)
    ensures
        r == *o,
{
    match o {
        Some(s) => Some(
            PhoneStats {
                width: s.width,
                height: s.height,
                fps_bits: s.fps_bits,
                bitrate_kbps_bits: s.bitrate_kbps_bits,
                quality_limitation: s.quality_limitation.clone(),
                rtt_ms_bits: s.rtt_ms_bits,
                codec: s.codec.clone(),
            },
        ),
        None => None,
    }
}

/// The statistics of a switcher, its phone and its drawing.
pub open spec fn stats_of<S>(e: Engine, phone: FrameSlot<S>, render: FpsCounter, now: u64) -> Stats {
    Stats {
        phone_fps: frame::rate_at(phone.fps, now),
        phone_width: match phone.latest {
            Some(f) => f.width,
            None => 0,
        },
        phone_height: match phone.latest {
            Some(f) => f.height,
            None => 0,
        },
        render_fps: frame::rate_at(render, now),
        rtp: e.rtp_stats,
        phone: e.phone_stats,
    }
}

fn copy_option(o: &Option<String>) -> (r: Option<String>)
    ensures
        r == *o,
{
    match o {
        Some(s) => Some(s.clone()),
        None => None,
    }
}

impl Engine {
    /// A switcher over scenes, the first of them on programme and preview.
    pub fn new(scenes: Vec<Scene>, cfg: &Config) -> (r: Engine)
        requires
            scenes@.len() > 0,
            cfg.transition.duration_ms <= u64::MAX / 1_000_000,
        ensures
            engine_wf(r),
            r.scenes == scenes,
            r.transition_kind == cfg.transition.kind,
            r.transition_ms == cfg.transition.duration_ms,
            r.program == 0,
            r.preview == 0,
            r.transition is None,
            r.phone is None,
            r.rtp_stats is None,
            r.phone_stats is None,
    {
        Engine {
            scenes,
            transition_kind: cfg.transition.kind.clone(),
            transition_ms: cfg.transition.duration_ms,
            program: 0,
            preview: 0,
            transition: None,
            phone: None,
            rtp_stats: None,
            phone_stats: None,
        }
    }

    /// The sources run: the scene on the air starts its videos.
    pub fn start(&self) -> (r: Effect)
        ensures
            r == Effect::StartVideos(self.program),
    {
        Effect::StartVideos(self.program)
    }

    /// The layers of a scene that play while it is on the air.
    pub fn on_air_layers(&self, scene: usize) -> (r: Vec<u64>)
        requires
            scene < self.scenes@.len(),
        ensures
            r@ == self.scenes@[scene as int].layers@.filter(
                |l: Layer| l.kind == (LayerKind::Video { on_air: true }),
            ).map_values(|l: Layer| l.id),
    {
        let layers = &self.scenes[scene].layers;
        let ghost p = |l: Layer| l.kind == (LayerKind::Video { on_air: true });
        let ghost f = |l: Layer| l.id;
        let mut out: Vec<u64> = Vec::new();
        let mut i: usize = 0;
        proof {
            reveal_with_fuel(Seq::filter, 1);
            assert(layers@.take(0).filter(p).map_values(f) == Seq::<u64>::empty());
        }
        while i < layers.len()
            invariant
                i <= layers@.len(),
                p == (|l: Layer| l.kind == (LayerKind::Video { on_air: true })),
                f == (|l: Layer| l.id),
                out@ == layers@.take(i as int).filter(p).map_values(f),
            decreases layers.len() - i,
        {
            proof {
                assert(layers@.take(i + 1).drop_last() == layers@.take(i as int));
                assert(layers@.take(i + 1).last() == layers@[i as int]);
                reveal_with_fuel(Seq::filter, 2);
            }
            let ghost before = layers@.take(i as int).filter(p);
            if layers[i].kind == (LayerKind::Video { on_air: true }) {
                out.push(layers[i].id);
                assert(before.push(layers@[i as int]).map_values(f) == before.map_values(f).push(
                    layers@[i as int].id,
                ));
            }
            i += 1;
        }
        assert(layers@.take(layers@.len() as int) == layers@);
        out
    }

    /// Identifiers and names of the scenes, in order.
    pub fn scenes(&self) -> (r: Vec<SceneInfo>)
        ensures
            r@.len() == self.scenes@.len(),
            forall|i: int|
                0 <= i < r@.len() ==> (#[trigger] r@[i]).id == self.scenes@[i].id && r@[i].name
                    == self.scenes@[i].name,
    {
        let mut out: Vec<SceneInfo> = Vec::new();
        let mut i: usize = 0;
        while i < self.scenes.len()
            invariant
                i <= self.scenes@.len(),
                out@.len() == i,
                forall|j: int|
                    0 <= j < i ==> (#[trigger] out@[j]).id == self.scenes@[j].id && out@[j].name
                        == self.scenes@[j].name,
            decreases self.scenes.len() - i,
        {
            out.push(
                SceneInfo { id: self.scenes[i].id.clone(), name: self.scenes[i].name.clone() },
            );
            i += 1;
        }
        out
    }

    /// Place of the scene with an identifier.
    pub fn scene_index(&self, id: &str) -> (r: Option<usize>)
        ensures
            r == scene_with(self.scenes@, id@),
            (match r {
                Some(i) => is_scene(self.scenes@, id@, i as int),
                None => forall|j: int|
                    0 <= j < self.scenes@.len() ==> (#[trigger] self.scenes@[j]).id@ != id@,
            }),
    {
        let mut i: usize = 0;
        while i < self.scenes.len()
            invariant
                i <= self.scenes@.len(),
                forall|j: int| 0 <= j < i ==> (#[trigger] self.scenes@[j]).id@ != id@,
            decreases self.scenes.len() - i,
        {
            if strings::same_text(self.scenes[i].id.as_str(), id) {
                proof {
                    assert(is_scene(self.scenes@, id@, i as int));
                    let k = choose|k: int| is_scene(self.scenes@, id@, k);
                    assert(self.scenes@[k].id@ == id@);
                    assert(self.scenes@[i as int].id@ == id@);
                }
                return Some(i);
            }
            i += 1;
        }
        None
    }

    fn scene_has_phone(&self, idx: usize) -> (r: bool)
        requires
            idx < self.scenes@.len(),
        ensures
            r == shows_phone(self.scenes@[idx as int]),
    {
        let layers = &self.scenes[idx].layers;
        let mut i: usize = 0;
        while i < layers.len()
            invariant
                idx < self.scenes@.len(),
                layers@ == self.scenes@[idx as int].layers@,
                i <= layers@.len(),
                forall|j: int| 0 <= j < i ==> (#[trigger] layers@[j]).kind != LayerKind::Phone,
            decreases layers.len() - i,
        {
            if layers[i].kind == LayerKind::Phone {
                return true;
            }
            i += 1;
        }
        false
    }

    /// Whether the phone is visible on the programme; also while a scene that shows it fades out.
    pub fn phone_on_air(&self, now: u64) -> (r: bool)
        requires
            engine_wf(*self),
        ensures
            r == on_air(*self, now),
    {
        let mut on = self.scene_has_phone(self.program);
        if let Some(t) = &self.transition {
            if !t.over(now) {
                on = on || self.scene_has_phone(t.from);
            }
        }
        on
    }

    /// Scene on the programme.
    pub fn program_index(&self) -> (r: usize)
        ensures
            r == self.program,
    {
        self.program
    }

    /// Scene on the preview.
    pub fn preview_index(&self) -> (r: usize)
        ensures
            r == self.preview,
    {
        self.preview
    }

    /// The scenes.
    pub fn scenes_ref(&self) -> (r: &[Scene])
        ensures
            r@ == self.scenes@,
    {
        self.scenes.as_slice()
    }

    /// The statistics to show.
    pub fn stats<S>(&self, phone: &FrameSlot<S>, render: &FpsCounter, now: u64) -> (r: Stats)
        ensures
            r == stats_of(*self, *phone, *render, now),
    {
        let (w, h) = match phone.dimensions() {
            Some(d) => d,
            None => (0, 0),
        };
        Stats {
            phone_fps: phone.fps.value(now),
            phone_width: w,
            phone_height: h,
            render_fps: render.value(now),
            rtp: copy_rtp(&self.rtp_stats),
            phone: copy_phone(&self.phone_stats),
        }
    }

    /// Statistics of the received video came.
    pub fn set_rtp_stats(&mut self, st: Option<RtpStats>)
        ensures
            *final(self) == (Engine { rtp_stats: st, ..*old(self) }),
    {
        self.rtp_stats = st;
    }

    /// Statistics of the phone came.
    pub fn set_phone_stats(&mut self, st: Option<PhoneStats>)
        ensures
            *final(self) == (Engine { phone_stats: st, ..*old(self) }),
    {
        self.phone_stats = st;
    }

    /// The state of the switcher.
    pub fn snapshot<S>(&self, phone: &FrameSlot<S>, render: &FpsCounter, now: u64) -> (r: Snapshot)
        requires
            engine_wf(*self),
        ensures
            r.scenes@.len() == self.scenes@.len(),
            forall|i: int|
                0 <= i < r.scenes@.len() ==> (#[trigger] r.scenes@[i]).id == self.scenes@[i].id
                    && r.scenes@[i].name == self.scenes@[i].name,
            r.program == self.scenes@[self.program as int].id,
            r.preview == self.scenes@[self.preview as int].id,
            r.phone_connected == (self.phone is Some),
            r.phone_name == self.phone,
            r.transition == self.transition_kind,
            r.stats == stats_of(*self, *phone, *render, now),
    {
        Snapshot {
            scenes: self.scenes(),
            program: self.scenes[self.program].id.clone(),
            preview: self.scenes[self.preview].id.clone(),
            phone_connected: self.phone.is_some(),
            phone_name: copy_option(&self.phone),
            transition: self.transition_kind.clone(),
            stats: self.stats(phone, render, now),
        }
    }

    /// What to draw now; a fade that is over is ended.
    pub fn render_state(&mut self, now: u64) -> (r: RenderState)
        requires
            engine_wf(*old(self)),
        ensures
            engine_wf(*final(self)),
            r.program == old(self).program,
            r.preview == old(self).preview,
            r.phone_connected == (old(self).phone is Some),
            (match old(self).transition {
                Some(t) => if fade_over(t, now) {
                    r.fade is None && *final(self) == (Engine { transition: None, ..*old(self) })
                } else {
                    &&& r.fade == Some((t.from, elapsed(t.start, now) as u64, t.duration))
                    &&& *final(self) == *old(self)
                },
                None => r.fade is None && *final(self) == *old(self),
            }),
    {
        let mut fade: Option<(usize, u64, u64)> = None;
        let mut end = false;
        if let Some(t) = &self.transition {
            if t.over(now) {
                end = true;
            } else {
                fade = Some((t.from, t.progress(now), t.duration));
            }
        }
        if end {
            self.transition = None;
        }
        RenderState {
            program: self.program,
            preview: self.preview,
            fade,
            phone_connected: self.phone.is_some(),
        }
    }

    /// Puts a scene on the preview.
    pub fn set_preview(&mut self, idx: usize) -> (r: Vec<Effect>)
        requires
            engine_wf(*old(self)),
        ensures
            engine_wf(*final(self)),
            (*final(self), r@) == previewed(*old(self), idx),
    {
        let mut out: Vec<Effect> = Vec::new();
        if idx < self.scenes.len() && self.preview != idx {
            self.preview = idx;
            out.push(Effect::Emit(Event::Preview { scene: self.scenes[idx].id.clone() }));
        }
        assert(out@ =~= previewed(*old(self), idx).1);
        out
    }

    /// Preview to programme, with the configured transition; the programme goes to the preview.
    pub fn take(&mut self, now: u64) -> (r: Vec<Effect>)
        requires
            engine_wf(*old(self)),
        ensures
            engine_wf(*final(self)),
            (*final(self), r@) == taken(*old(self), now),
    {
        let prog = self.program;
        let prev = self.preview;
        let mut out = self.switch_program(prev, true, now);
        let mut more = self.set_preview(prog);
        out.append(&mut more);
        out
    }

    /// Puts a scene on the programme at once.
    pub fn cut(&mut self, idx: usize, now: u64) -> (r: Vec<Effect>)
        requires
            engine_wf(*old(self)),
        ensures
            engine_wf(*final(self)),
            (*final(self), r@) == switched(*old(self), idx, false, now),
    {
        self.switch_program(idx, false, now)
    }

    /// Puts a scene on the programme with the configured transition.
    pub fn transition_to(&mut self, idx: usize, now: u64) -> (r: Vec<Effect>)
        requires
            engine_wf(*old(self)),
        ensures
            engine_wf(*final(self)),
            (*final(self), r@) == switched(*old(self), idx, true, now),
    {
        self.switch_program(idx, true, now)
    }

    fn switch_program(&mut self, idx: usize, animated: bool, now: u64) -> (r: Vec<Effect>)
        requires
            engine_wf(*old(self)),
        ensures
            engine_wf(*final(self)),
            (*final(self), r@) == switched(*old(self), idx, animated, now),
    {
        let mut out: Vec<Effect> = Vec::new();
        if idx >= self.scenes.len() {
            return out;
        }
        if idx == self.program {
            if !animated {
                self.transition = None;
            }
            out.push(Effect::StartVideos(idx));
            assert(out@ =~= switched(*old(self), idx, animated, now).1);
            return out;
        }
        let kind = strings::chars_of(self.transition_kind.as_str());
        let low = strings::ascii_lowercase_of(kind.as_slice());
        let fade = animated && strings::is_text(low.as_slice(), "fade") && self.transition_ms > 0;
        let duration: u64 = self.transition_ms * 1_000_000;
        let from = self.program;
        self.program = idx;
        self.transition = if fade {
            Some(Transition { from, start: now, duration })
        } else {
            None
        };
        out.push(Effect::StartVideos(idx));
        out.push(
            Effect::StopVideos {
                scene: from,
                after: if fade {
                    duration
                } else {
                    0
                },
            },
        );
        out.push(Effect::Emit(Event::Program { scene: self.scenes[idx].id.clone() }));
        assert(out@ =~= switched(*old(self), idx, animated, now).1);
        out
    }

    /// The phone came or went.
    pub fn set_phone(&mut self, name: Option<String>) -> (r: Vec<Effect>)
        requires
            engine_wf(*old(self)),
        ensures
            engine_wf(*final(self)),
            *final(self) == phoned(*old(self), name),
            r@ == (if name is None {
                seq![
                    Effect::ClearPhone,
                    Effect::Emit(Event::Phone { connected: false, name: None }),
                ]
            } else {
                seq![Effect::Emit(Event::Phone { connected: true, name })]
            }),
    {
        let mut out: Vec<Effect> = Vec::new();
        let copy = copy_option(&name);
        let gone = name.is_none();
        if gone {
            out.push(Effect::ClearPhone);
            self.rtp_stats = None;
            self.phone_stats = None;
        }
        out.push(Effect::Emit(Event::Phone { connected: !gone, name: copy }));
        self.phone = name;
        out
    }
}

/// The switcher after the phone came or went; a phone that went leaves no statistics.
pub open spec fn phoned(e: Engine, name: Option<String>) -> Engine {
    if name is None {
        Engine { phone: None, rtp_stats: None, phone_stats: None, ..e }
    } else {
        Engine { phone: name, ..e }
    }
}

/// Whether a phone is there changes nothing of what is on the air.
pub proof fn phone_never_switches(e: Engine, name: Option<String>, now: u64)
    requires
        engine_wf(e),
    ensures
        engine_wf(phoned(e, name)),
        phoned(e, name).program == e.program,
        phoned(e, name).preview == e.preview,
        on_air(phoned(e, name), now) == on_air(e, now),
{
}

/// Taking swaps programme and preview.
pub proof fn take_swaps(e: Engine, now: u64)
    requires
        engine_wf(e),
    ensures
        taken(e, now).0.program == e.preview,
        taken(e, now).0.preview == e.program,
        engine_wf(taken(e, now).0),
{
}

/// Taking twice puts programme and preview back.
pub proof fn taking_twice_restores(e: Engine, now: u64, later: u64)
    requires
        engine_wf(e),
    ensures
        taken(taken(e, now).0, later).0.program == e.program,
        taken(taken(e, now).0, later).0.preview == e.preview,
{
    take_swaps(e, now);
    take_swaps(taken(e, now).0, later);
}

/// A cut shows its scene at once, the one on the air too: no fade is left. A change of programme
/// never touches the preview.
pub proof fn cut_is_immediate(e: Engine, idx: usize, animated: bool, now: u64)
    requires
        engine_wf(e),
        idx < e.scenes@.len(),
    ensures
        switched(e, idx, animated, now).0.program == idx,
        switched(e, idx, animated, now).0.preview == e.preview,
        switched(e, idx, false, now).0.transition is None,
        engine_wf(switched(e, idx, animated, now).0),
{
}

/// A scene put on the programme starts its videos, and the one that leaves stops them.
pub proof fn programme_drives_the_videos(e: Engine, idx: usize, animated: bool, now: u64)
    requires
        engine_wf(e),
        idx < e.scenes@.len(),
    ensures
        switched(e, idx, animated, now).1[0] == Effect::StartVideos(idx),
        idx != e.program ==> switched(e, idx, animated, now).1[1] == (Effect::StopVideos {
            scene: e.program,
            after: if fades(e, animated) {
                (e.transition_ms * 1_000_000) as u64
            } else {
                0
            },
        }),
{
}

/// While a scene that shows the phone fades out, the phone is still on the air; once the fade is
/// over, only the programme counts.
pub proof fn fading_phone_is_on_air(e: Engine, now: u64)
    requires
        engine_wf(e),
        e.transition is Some,
    ensures
        !fade_over(e.transition->0, now) && shows_phone(
            e.scenes@[(e.transition->0).from as int],
        ) ==> on_air(e, now),
        fade_over(e.transition->0, now) ==> on_air(e, now) == shows_phone(
            e.scenes@[e.program as int],
        ),
{
}

/// What a layer will show, before its files are read.
pub enum LayerSource {
    Phone,
    Color((u8, u8, u8, u8)),
    /// Path of a still image.
    Image(String),
    Video(Playlist),
    Text { text: String, font: String, color: (u8, u8, u8, u8) },
    /// The layer is left out: its colour cannot be read.
    BadColor(String),
}

/// A layer to be made.
pub struct LayerPlan {
    pub id: u64,
    pub source: LayerSource,
    pub geometry: Geometry,
    /// Bits of the opacity, in double precision.
    pub opacity: u64,
}

/// A scene to be made.
pub struct ScenePlan {
    pub id: String,
    pub name: String,
    pub layers: Vec<LayerPlan>,
}

/// A layer of the configuration turned into a plan.
pub open spec fn planned(p: LayerPlan, l: config::LayerView, base: Seq<char>) -> bool {
    match l {
        config::LayerView::Phone { geometry, opacity } => p.source is Phone && p.geometry
            == geometry && p.opacity == opacity,
        config::LayerView::Color { color, geometry } => {
            &&& p.geometry == geometry && p.opacity == config::OPAQUE
            &&& (match config::color_in(color) {
                Some(c) => p.source == LayerSource::Color(c),
                None => p.source is BadColor && p.source->BadColor_0@ == color,
            })
        },
        config::LayerView::Image { path, geometry, opacity } => {
            &&& p.source is Image && p.source->Image_0@ == config::resolved(base, path)
            &&& p.geometry == geometry && p.opacity == opacity
        },
        config::LayerView::Video { geometry, opacity, audio, alpha, .. } => {
            &&& p.source is Video
            &&& config::segment_views(p.source->Video_0.segments@) == config::video_pieces(l, base)
            &&& p.source->Video_0.autostart == (config::video_start(l)
                == config::StartMode::Always)
            &&& p.source->Video_0.audio == audio
            &&& p.source->Video_0.alpha == alpha
            &&& p.geometry == geometry && p.opacity == opacity
        },
        config::LayerView::Text { text, font, color, geometry } => {
            &&& p.geometry == geometry && p.opacity == config::OPAQUE
            &&& (match config::color_in(color) {
                Some(c) => {
                    &&& p.source is Text
                    &&& p.source->text@ == text
                    &&& p.source->font@ == font
                    &&& p.source->Text_color == c
                },
                None => p.source is BadColor && p.source->BadColor_0@ == color,
            })
        },
    }
}

/// The layers of a scene; a black one where it has none.
pub open spec fn effective_layers(s: config::SceneView) -> Seq<config::LayerView> {
    if s.layers.len() == 0 {
        seq![config::LayerView::Color { color: "#000000"@, geometry: config::full_frame() }]
    } else {
        s.layers
    }
}

/// Layers of the scenes before a scene, which its first layer's key counts on from.
pub open spec fn layers_before(scenes: Seq<config::SceneView>, n: int) -> int
    decreases n,
{
    if n <= 0 {
        0
    } else {
        layers_before(scenes, n - 1) + effective_layers(scenes[n - 1]).len()
    }
}

/// Every loop of a configuration has bounds that can be counted.
pub open spec fn bounds_ok(scenes: Seq<config::SceneView>) -> bool {
    forall|i: int, j: int|
        0 <= i < scenes.len() && 0 <= j < scenes[i].layers.len() ==> config::bounds_fit(
            #[trigger] scenes[i].layers[j],
        )
}

/// Plans a layer.
pub fn build_layer(cfg: &Config, lc: &LayerConfig, id: u64) -> (r: LayerPlan)
    requires
        config::bounds_fit(lc@),
    ensures
        r.id == id,
        planned(r, lc@, cfg.base_dir@),
{
    match lc {
        LayerConfig::Phone { geometry, opacity } => LayerPlan {
            id,
            source: LayerSource::Phone,
            geometry: *geometry,
            opacity: *opacity,
        },
        LayerConfig::Color { color, geometry } => LayerPlan {
            id,
            source: match config::parse_color(color.as_str()) {
                Some(c) => LayerSource::Color(c),
                None => LayerSource::BadColor(color.clone()),
            },
            geometry: *geometry,
            opacity: config::OPAQUE,
        },
        LayerConfig::Text { text, font, color, geometry } => LayerPlan {
            id,
            source: match config::parse_color(color.as_str()) {
                Some(c) => LayerSource::Text { text: text.clone(), font: font.clone(), color: c },
                None => LayerSource::BadColor(color.clone()),
            },
            geometry: *geometry,
            opacity: config::OPAQUE,
        },
        LayerConfig::Image { path, geometry, opacity } => LayerPlan {
            id,
            source: LayerSource::Image(cfg.resolve(path.as_str())),
            geometry: *geometry,
            opacity: *opacity,
        },
        LayerConfig::Video {
            path: _,
            looped: _,
            next: _,
            loop_from_ms: _,
            loop_to_ms: _,
            start: _,
            audio: _,
            alpha: _,
            geometry,
            opacity,
        } => {
            let list = cfg.playlist(lc);
            LayerPlan {
                id,
                source: match list {
                    Some(p) => LayerSource::Video(p),
                    None => LayerSource::Phone,
                },
                geometry: *geometry,
                opacity: *opacity,
            }
        },
    }
}

/// Plans a scene; its layers' keys count on from `first`.
pub fn plan_scene(cfg: &Config, sc: &SceneConfig, first: u64) -> (r: ScenePlan)
    requires
        first + effective_layers(sc@).len() <= u64::MAX,
        forall|j: int| 0 <= j < sc@.layers.len() ==> config::bounds_fit(#[trigger] sc@.layers[j]),
    ensures
        r.id == sc.id,
        r.name == sc.name,
        r.layers@.len() == effective_layers(sc@).len(),
        forall|i: int|
            0 <= i < r.layers@.len() ==> (#[trigger] r.layers@[i]).id == first + i && planned(
                r.layers@[i],
                effective_layers(sc@)[i],
                cfg.base_dir@,
            ),
{
    let mut layers: Vec<LayerPlan> = Vec::new();
    if sc.layers.len() == 0 {
        let black = LayerConfig::Color {
            color: strings::text("#000000"),
            geometry: Geometry::default(),
        };
        layers.push(build_layer(cfg, &black, first));
    } else {
        let mut i: usize = 0;
        while i < sc.layers.len()
            invariant
                i <= sc.layers@.len(),
                sc.layers@.len() > 0,
                first + effective_layers(sc@).len() <= u64::MAX,
                forall|j: int|
                    0 <= j < sc@.layers.len() ==> config::bounds_fit(#[trigger] sc@.layers[j]),
                layers@.len() == i,
                forall|j: int|
                    0 <= j < i ==> (#[trigger] layers@[j]).id == first + j && planned(
                        layers@[j],
                        effective_layers(sc@)[j],
                        cfg.base_dir@,
                    ),
            decreases sc.layers.len() - i,
        {
            assert(sc@.layers[i as int] == sc.layers@[i as int]@);
            layers.push(build_layer(cfg, &sc.layers[i], first + i as u64));
            i += 1;
        }
    }
    ScenePlan { id: sc.id.clone(), name: sc.name.clone(), layers }
}

/// Plans the scenes of a configuration; every layer gets a key of its own, from 1 on.
pub fn plan_scenes(cfg: &Config) -> (r: Vec<ScenePlan>)
    requires
        bounds_ok(config::scene_views(cfg.scenes@)),
        1 + layers_before(config::scene_views(cfg.scenes@), cfg.scenes@.len() as int) <= u64::MAX,
    ensures
        r@.len() == cfg.scenes@.len(),
        forall|s: int|
            0 <= s < r@.len() ==> {
                let v = cfg.scenes@[s]@;
                &&& (#[trigger] r@[s]).id == cfg.scenes@[s].id
                &&& r@[s].name == cfg.scenes@[s].name
                &&& r@[s].layers@.len() == effective_layers(v).len()
                &&& forall|i: int|
                    0 <= i < r@[s].layers@.len() ==> {
                        &&& (#[trigger] r@[s].layers@[i]).id == 1 + layers_before(
                            config::scene_views(cfg.scenes@),
                            s,
                        ) + i
                        &&& planned(r@[s].layers@[i], effective_layers(v)[i], cfg.base_dir@)
                    }
            },
{
    let ghost views = config::scene_views(cfg.scenes@);
    let mut out: Vec<ScenePlan> = Vec::new();
    let mut first: u64 = 1;
    let mut s: usize = 0;
    while s < cfg.scenes.len()
        invariant
            s <= cfg.scenes@.len(),
            views == config::scene_views(cfg.scenes@),
            bounds_ok(views),
            1 + layers_before(views, cfg.scenes@.len() as int) <= u64::MAX,
            first == 1 + layers_before(views, s as int),
            out@.len() == s,
            forall|k: int|
                0 <= k < s ==> {
                    let v = cfg.scenes@[k]@;
                    &&& (#[trigger] out@[k]).id == cfg.scenes@[k].id
                    &&& out@[k].name == cfg.scenes@[k].name
                    &&& out@[k].layers@.len() == effective_layers(v).len()
                    &&& forall|i: int|
                        0 <= i < out@[k].layers@.len() ==> {
                            &&& (#[trigger] out@[k].layers@[i]).id == 1 + layers_before(views, k)
                                + i
                            &&& planned(out@[k].layers@[i], effective_layers(v)[i], cfg.base_dir@)
                        }
                },
        decreases cfg.scenes.len() - s,
    {
        proof {
            lemma_layers_grow(views, s + 1, cfg.scenes@.len() as int);
            assert(views[s as int] == cfg.scenes@[s as int]@);
            assert forall|j: int|
                0 <= j < cfg.scenes@[s as int]@.layers.len() implies config::bounds_fit(
                #[trigger] cfg.scenes@[s as int]@.layers[j],
            ) by {
                assert(views[s as int].layers[j] == cfg.scenes@[s as int]@.layers[j]);
            }
        }
        let sc = &cfg.scenes[s];
        let n: usize = sc.layers.len();
        out.push(plan_scene(cfg, sc, first));
        first = first + (if n == 0 {
            1
        } else {
            n as u64
        });
        s += 1;
    }
    out
}

proof fn lemma_layers_grow(scenes: Seq<config::SceneView>, a: int, b: int)
    requires
        0 <= a <= b,
    ensures
        layers_before(scenes, a) <= layers_before(scenes, b),
    decreases b - a,
{
    if a < b {
        lemma_layers_grow(scenes, a, b - 1);
    }
}

/// No two layers have the same key.
pub proof fn layer_keys_are_distinct(
    scenes: Seq<config::SceneView>,
    s1: int,
    i1: int,
    s2: int,
    i2: int,
)
    requires
        0 <= s1 < scenes.len(),
        0 <= s2 < scenes.len(),
        0 <= i1 < effective_layers(scenes[s1]).len(),
        0 <= i2 < effective_layers(scenes[s2]).len(),
        1 + layers_before(scenes, s1) + i1 == 1 + layers_before(scenes, s2) + i2,
    ensures
        s1 == s2 && i1 == i2,
{
    if s1 < s2 {
        lemma_layers_grow(scenes, s1 + 1, s2);
    } else if s2 < s1 {
        lemma_layers_grow(scenes, s2 + 1, s1);
    }
}

/// Channels of the sources, counted from 1.
pub struct AudioRoute {
    /// Output channels of the phone's sound.
    pub stream: Vec<usize>,
    /// Output channels of the branding's sound.
    pub branding: Vec<usize>,
    /// Input channels sent back to the phone.
    pub return_input: Vec<usize>,
    pub out_channels: i32,
    pub in_channels: i32,
}

/// A place past every channel of a card: what is routed there is not heard.
pub const UNROUTED: usize = usize::MAX;

/// Place of a channel counted from 1.
pub open spec fn place_of(channel: usize) -> usize {
    if channel == 0 {
        0
    } else {
        (channel - 1) as usize
    }
}

/// Places of the left and right samples of an output source: on its two channels, both on the
/// only one, or nowhere where it has none.
pub open spec fn output_places(channels: Seq<usize>) -> (usize, usize) {
    if channels.len() == 0 {
        (UNROUTED, UNROUTED)
    } else if channels.len() == 1 {
        (place_of(channels[0]), place_of(channels[0]))
    } else {
        (place_of(channels[0]), place_of(channels[1]))
    }
}

/// Places of the left and right input channels: the first channel where none is given.
pub open spec fn input_places(channels: Seq<usize>) -> (usize, usize) {
    if channels.len() == 0 {
        (0, 0)
    } else {
        output_places(channels)
    }
}

fn minus_one(channel: usize) -> (r: usize)
    ensures
        r == place_of(channel),
{
    if channel == 0 {
        0
    } else {
        channel - 1
    }
}

fn output_pair(channels: &[usize]) -> (r: (usize, usize))
    ensures
        r == output_places(channels@),
{
    if channels.len() == 0 {
        (UNROUTED, UNROUTED)
    } else if channels.len() == 1 {
        (minus_one(channels[0]), minus_one(channels[0]))
    } else {
        (minus_one(channels[0]), minus_one(channels[1]))
    }
}

fn input_pair(channels: &[usize]) -> (r: (usize, usize))
    ensures
        r == input_places(channels@),
{
    if channels.len() == 0 {
        (0, 0)
    } else {
        output_pair(channels)
    }
}

fn copy_channels(channels: &[usize]) -> (r: Vec<usize>)
    ensures
        r@ == channels@,
{
    let mut out: Vec<usize> = Vec::new();
    let mut i: usize = 0;
    while i < channels.len()
        invariant
            i <= channels@.len(),
            out@ == channels@.take(i as int),
        decreases channels.len() - i,
    {
        out.push(channels[i]);
        i += 1;
    }
    assert(channels@.take(channels@.len() as int) == channels@);
    out
}

/// The device that a setting asks for: none where it is blank or `none`.
pub open spec fn wanted_device(setting: Seq<char>) -> Option<Seq<char>> {
    let t = strings::trim(setting);
    if t.len() == 0 || strings::ascii_lowercase(t) == "none"@ {
        None
    } else {
        Some(t)
    }
}

/// The device that a setting asks for.
pub fn device_wanted(setting: &str) -> (r: Option<String>)
    ensures
        (match r {
            Some(d) => wanted_device(setting@) == Some(d@),
            None => wanted_device(setting@) is None,
        }),
{
    let s = strings::chars_of(setting);
    let t = strings::trim_of(s.as_slice());
    let low = strings::ascii_lowercase_of(t.as_slice());
    if t.len() == 0 || strings::is_text(low.as_slice(), "none") {
        None
    } else {
        Some(strings::string_of(t.as_slice()))
    }
}

/// Channels to open a device with: as configured, or as many as it has.
pub fn channels_to_open(configured: i32, detected: u16) -> (r: i32)
    ensures
        r == opened_channels(configured, detected),
{
    if configured > 0 {
        configured
    } else {
        detected as i32
    }
}

/// How the sound output is opened.
pub struct OutputPlan {
    pub device: String,
    pub channels: i32,
    pub rate: i32,
    /// Places of the phone's sound.
    pub stream: (usize, usize),
    /// Places of the branding's sound.
    pub branding: (usize, usize),
}

/// How the sound input is opened.
pub struct InputPlan {
    pub device: String,
    pub channels: i32,
    pub rate: i32,
    /// Places of what is sent back to the phone.
    pub selected: (usize, usize),
}

/// The number of channels to open a device with.
pub open spec fn opened_channels(configured: i32, detected: u16) -> int {
    if configured > 0 {
        configured as int
    } else {
        detected as int
    }
}

/// How the output is opened on a device with this many channels; not at all where none is wanted.
pub fn plan_output(a: &AudioConfig, detected: u16) -> (r: Option<OutputPlan>)
    ensures
        r is Some <==> wanted_device(a.output_device@) is Some,
        r matches Some(p) ==> {
            &&& Some(p.device@) == wanted_device(a.output_device@)
            &&& p.channels == opened_channels(a.output_channels, detected)
            &&& p.rate == a.sample_rate
            &&& p.stream == output_places(a.stream_output_channels@)
            &&& p.branding == output_places(a.branding_output_channels@)
        },
{
    match device_wanted(a.output_device.as_str()) {
        Some(device) => Some(
            OutputPlan {
                device,
                channels: channels_to_open(a.output_channels, detected),
                rate: a.sample_rate,
                stream: output_pair(a.stream_output_channels.as_slice()),
                branding: output_pair(a.branding_output_channels.as_slice()),
            },
        ),
        None => None,
    }
}

/// How the input is opened on a device with this many channels; not at all where none is wanted.
pub fn plan_input(a: &AudioConfig, detected: u16) -> (r: Option<InputPlan>)
    ensures
        r is Some <==> wanted_device(a.input_device@) is Some,
        r matches Some(p) ==> {
            &&& Some(p.device@) == wanted_device(a.input_device@)
            &&& p.channels == opened_channels(a.input_channels, detected)
            &&& p.rate == a.sample_rate
            &&& p.selected == input_places(a.return_from_input_channels@)
        },
{
    match device_wanted(a.input_device.as_str()) {
        Some(device) => Some(
            InputPlan {
                device,
                channels: channels_to_open(a.input_channels, detected),
                rate: a.sample_rate,
                selected: input_pair(a.return_from_input_channels.as_slice()),
            },
        ),
        None => None,
    }
}

/// Sound of the switcher: which streams run, where they are routed, which meters are shown.
pub struct AudioSetup {
    /// Places of the phone's sound, once the output runs.
    pub stream_ch: Option<(usize, usize)>,
    pub branding_ch: Option<(usize, usize)>,
    /// Places of the return, once the input runs.
    pub return_sel: Option<(usize, usize)>,
    pub route: AudioRoute,
    /// Identifier and label of each meter.
    pub meters: Vec<(String, String)>,
    pub show_meters: bool,
}

/// Identifiers and labels of meters.
pub open spec fn meter_views(m: Seq<(String, String)>) -> Seq<(Seq<char>, Seq<char>)> {
    m.map_values(|x: (String, String)| (x.0@, x.1@))
}

/// The meters that an output adds.
pub open spec fn output_meters(show: bool) -> Seq<(Seq<char>, Seq<char>)> {
    if show {
        seq![("stream"@, "Stream (téléphone)"@), ("branding"@, "Habillage"@)]
    } else {
        seq![]
    }
}

/// The meters that an input adds.
pub open spec fn input_meters(show: bool) -> Seq<(Seq<char>, Seq<char>)> {
    if show {
        seq![("return"@, "Retour Wing"@)]
    } else {
        seq![]
    }
}

/// Source of a meter.
#[derive(Debug, Clone, Copy, PartialEq, Eq, Structural)]
pub enum MeterSource {
    Stream,
    Branding,
    Return,
}

/// The source that a meter's identifier names.
pub open spec fn meter_source(id: Seq<char>) -> MeterSource {
    if id == "branding"@ {
        MeterSource::Branding
    } else if id == "return"@ {
        MeterSource::Return
    } else {
        MeterSource::Stream
    }
}

/// The source that a meter's identifier names.
pub fn source_of(id: &str) -> (r: MeterSource)
    ensures
        r == meter_source(id@),
{
    if strings::same_text(id, "branding") {
        MeterSource::Branding
    } else if strings::same_text(id, "return") {
        MeterSource::Return
    } else {
        MeterSource::Stream
    }
}

/// The sound after a source was routed elsewhere, as long as its stream runs.
pub open spec fn rerouted(
    a: AudioSetup,
    target: Seq<char>,
    channels: Seq<usize>,
    after: AudioSetup,
    done: bool,
) -> bool {
    let known = target == "stream"@ && a.stream_ch is Some || target == "branding"@
        && a.branding_ch is Some || target == "return"@ && a.return_sel is Some;
    &&& done == known
    &&& after.stream_ch == (if known && target == "stream"@ {
        Some(output_places(channels))
    } else {
        a.stream_ch
    })
    &&& after.branding_ch == (if known && target == "branding"@ {
        Some(output_places(channels))
    } else {
        a.branding_ch
    })
    &&& after.return_sel == (if known && target == "return"@ {
        Some(input_places(channels))
    } else {
        a.return_sel
    })
    &&& after.route.stream@ == (if known && target == "stream"@ {
        channels
    } else {
        a.route.stream@
    })
    &&& after.route.branding@ == (if known && target == "branding"@ {
        channels
    } else {
        a.route.branding@
    })
    &&& after.route.return_input@ == (if known && target == "return"@ {
        channels
    } else {
        a.route.return_input@
    })
    &&& after.route.out_channels == a.route.out_channels
    &&& after.route.in_channels == a.route.in_channels
    &&& after.meters == a.meters
    &&& after.show_meters == a.show_meters
}

fn meter(id: &str, label: &str) -> (r: (String, String))
    ensures
        (r.0@, r.1@) == (id@, label@),
{
    (strings::text(id), strings::text(label))
}

impl AudioSetup {
    /// No stream runs yet; the routes are the configured ones.
    pub fn new(a: &AudioConfig) -> (r: Self)
        ensures
            r.stream_ch is None && r.branding_ch is None && r.return_sel is None,
            r.route.stream@ == a.stream_output_channels@,
            r.route.branding@ == a.branding_output_channels@,
            r.route.return_input@ == a.return_from_input_channels@,
            r.route.out_channels == 0 && r.route.in_channels == 0,
            r.meters@.len() == 0,
            r.show_meters == a.meters,
    {
        AudioSetup {
            stream_ch: None,
            branding_ch: None,
            return_sel: None,
            route: AudioRoute {
                stream: copy_channels(a.stream_output_channels.as_slice()),
                branding: copy_channels(a.branding_output_channels.as_slice()),
                return_input: copy_channels(a.return_from_input_channels.as_slice()),
                out_channels: 0,
                in_channels: 0,
            },
            meters: Vec::new(),
            show_meters: a.meters,
        }
    }

    /// The output runs with this many channels.
    pub fn output_started(&mut self, out_channels: i32)
        ensures
            final(self).stream_ch == Some(output_places(old(self).route.stream@)),
            final(self).branding_ch == Some(output_places(old(self).route.branding@)),
            final(self).return_sel == old(self).return_sel,
            final(self).route.out_channels == out_channels,
            final(self).route.in_channels == old(self).route.in_channels,
            final(self).route.stream == old(self).route.stream,
            final(self).route.branding == old(self).route.branding,
            final(self).route.return_input == old(self).route.return_input,
            meter_views(final(self).meters@) == meter_views(old(self).meters@) + output_meters(
                old(self).show_meters,
            ),
            final(self).show_meters == old(self).show_meters,
    {
        self.stream_ch = Some(output_pair(self.route.stream.as_slice()));
        self.branding_ch = Some(output_pair(self.route.branding.as_slice()));
        self.route.out_channels = out_channels;
        if self.show_meters {
            self.meters.push(meter("stream", "Stream (téléphone)"));
            self.meters.push(meter("branding", "Habillage"));
        }
        assert(meter_views(self.meters@) =~= meter_views(old(self).meters@) + output_meters(
            old(self).show_meters,
        ));
    }

    /// The input runs with this many channels.
    pub fn input_started(&mut self, in_channels: i32)
        ensures
            final(self).return_sel == Some(input_places(old(self).route.return_input@)),
            final(self).stream_ch == old(self).stream_ch,
            final(self).branding_ch == old(self).branding_ch,
            final(self).route.in_channels == in_channels,
            final(self).route.out_channels == old(self).route.out_channels,
            final(self).route.stream == old(self).route.stream,
            final(self).route.branding == old(self).route.branding,
            final(self).route.return_input == old(self).route.return_input,
            meter_views(final(self).meters@) == meter_views(old(self).meters@) + input_meters(
                old(self).show_meters,
            ),
            final(self).show_meters == old(self).show_meters,
    {
        self.return_sel = Some(input_pair(self.route.return_input.as_slice()));
        self.route.in_channels = in_channels;
        if self.show_meters {
            self.meters.push(meter("return", "Retour Wing"));
        }
        assert(meter_views(self.meters@) =~= meter_views(old(self).meters@) + input_meters(
            old(self).show_meters,
        ));
    }

    /// Where the sources are routed.
    pub fn audio_routing(&self) -> (r: AudioRoute)
        ensures
            r.stream@ == self.route.stream@,
            r.branding@ == self.route.branding@,
            r.return_input@ == self.route.return_input@,
            r.out_channels == self.route.out_channels,
            r.in_channels == self.route.in_channels,
    {
        AudioRoute {
            stream: copy_channels(self.route.stream.as_slice()),
            branding: copy_channels(self.route.branding.as_slice()),
            return_input: copy_channels(self.route.return_input.as_slice()),
            out_channels: self.route.out_channels,
            in_channels: self.route.in_channels,
        }
    }

    /// Routes a source to other channels while it runs; false for an unknown source, or one
    /// whose stream does not run.
    pub fn set_audio_route(&mut self, target: &str, channels: &[usize]) -> (r: bool)
        ensures
            rerouted(*old(self), target@, channels@, *final(self), r),
    {
        proof {
            reveal_strlit("stream");
            reveal_strlit("branding");
            reveal_strlit("return");
            assert("stream"@[0] == 's' && "branding"@[0] == 'b' && "return"@[0] == 'r');
        }
        if strings::same_text(target, "stream") {
            if self.stream_ch.is_none() {
                return false;
            }
            self.stream_ch = Some(output_pair(channels));
            self.route.stream = copy_channels(channels);
            true
        } else if strings::same_text(target, "branding") {
            if self.branding_ch.is_none() {
                return false;
            }
            self.branding_ch = Some(output_pair(channels));
            self.route.branding = copy_channels(channels);
            true
        } else if strings::same_text(target, "return") {
            if self.return_sel.is_none() {
                return false;
            }
            self.return_sel = Some(input_pair(channels));
            self.route.return_input = copy_channels(channels);
            true
        } else {
            false
        }
    }
}

/// A source without channels is heard on none, whatever the card.
pub proof fn unrouted_source_is_silent(channels: Seq<usize>, card: u16)
    requires
        channels.len() == 0,
    ensures
        output_places(channels).0 >= card,
        output_places(channels).1 >= card,
{
}

/// The configured transition decides how a scene goes on the air. With a kind that is not `fade`,
/// in any case of its letters, such as `cut`, or without a duration, or where the change is not
/// animated, the new scene is there at once: no transition runs, and the videos of the scene that
/// leaves stop at once. Otherwise that scene fades out over the whole configured duration, from
/// now on, and its videos stop after it.
pub proof fn configured_transition_is_obeyed(e: Engine, idx: usize, animated: bool, now: u64)
    requires
        engine_wf(e),
        idx < e.scenes@.len(),
        idx != e.program,
    ensures
        ({
            let k = e.transition_kind@;
            let fade = k.len() == 4 && (k[0] == 'f' || k[0] == 'F') && (k[1] == 'a' || k[1] == 'A')
                && (k[2] == 'd' || k[2] == 'D') && (k[3] == 'e' || k[3] == 'E');
            let s = switched(e, idx, animated, now);
            &&& !animated || !fade || e.transition_ms == 0 ==> s.0.transition is None && s.1[1]
                == (Effect::StopVideos { scene: e.program, after: 0 })
            &&& animated && fade && e.transition_ms > 0 ==> {
                &&& s.0.transition is Some
                &&& (s.0.transition->0).from == e.program
                &&& (s.0.transition->0).start == now
                &&& (s.0.transition->0).duration == e.transition_ms * 1_000_000
                &&& s.1[1] is StopVideos
                &&& s.1[1]->scene == e.program
                &&& s.1[1]->after == e.transition_ms * 1_000_000
            }
        }),
{
    let k = e.transition_kind@;
    let low = strings::ascii_lowercase(k);
    reveal_strlit("fade");
    let f = "fade"@;
    assert(f.len() == 4 && f[0] == 'f' && f[1] == 'a' && f[2] == 'd' && f[3] == 'e');
    assert(low.len() == k.len());
    assert forall|i: int| 0 <= i < k.len() implies low[i] == strings::ascii_lower(k[i]) by {}
    if k.len() == 4 {
        strings::lemma_ascii_lower_is(k[0], 'f', 'F');
        strings::lemma_ascii_lower_is(k[1], 'a', 'A');
        strings::lemma_ascii_lower_is(k[2], 'd', 'D');
        strings::lemma_ascii_lower_is(k[3], 'e', 'E');
        if strings::ascii_lower(k[0]) == 'f' && strings::ascii_lower(k[1]) == 'a'
            && strings::ascii_lower(k[2]) == 'd' && strings::ascii_lower(k[3]) == 'e' {
            assert(low =~= f);
        } else if low == f {
            assert(low[0] == f[0] && low[1] == f[1] && low[2] == f[2] && low[3] == f[3]);
        }
    }
}

/// Putting another scene on the programme starts its videos, stops those of the scene that leaves
/// and tells who listens, in this order; nothing but programme and transition changes.
pub proof fn change_of_programme_is_told(e: Engine, idx: usize, animated: bool, now: u64)
    requires
        engine_wf(e),
        idx < e.scenes@.len(),
        idx != e.program,
    ensures
        ({
            let s = switched(e, idx, animated, now);
            &&& s.0 == (Engine { program: idx, transition: s.0.transition, ..e })
            &&& s.1.len() == 3
            &&& s.1[0] == Effect::StartVideos(idx)
            &&& s.1[1] is StopVideos && s.1[1]->scene == e.program
            &&& s.1[2] == Effect::Emit(Event::Program { scene: e.scenes@[idx as int].id })
        }),
{
}

/// The scene on the air asked for again only has its videos start over; a cut to it also ends the
/// fade that is still running. A scene that is not there changes nothing.
pub proof fn scene_on_the_air_starts_over(e: Engine, idx: usize, animated: bool, now: u64)
    requires
        engine_wf(e),
    ensures
        switched(e, e.program, true, now) == (e, seq![Effect::StartVideos(e.program)]),
        switched(e, e.program, false, now) == (
            Engine { transition: None, ..e },
            seq![Effect::StartVideos(e.program)],
        ),
        idx >= e.scenes@.len() ==> switched(e, idx, animated, now) == (e, Seq::<Effect>::empty()),
        idx >= e.scenes@.len() ==> previewed(e, idx) == (e, Seq::<Effect>::empty()),
{
}

/// Another scene on the preview is told to who listens, and touches nothing on the air; the same
/// scene again is nothing new.
pub proof fn preview_never_reaches_the_air(e: Engine, idx: usize)
    requires
        engine_wf(e),
        idx < e.scenes@.len(),
    ensures
        previewed(e, idx).0 == (Engine { preview: idx, ..e }),
        idx != e.preview ==> previewed(e, idx).1 == seq![
            Effect::Emit(Event::Preview { scene: e.scenes@[idx as int].id }),
        ],
        idx == e.preview ==> previewed(e, idx).1.len() == 0,
{
}

/// Taking is the animated change to the previewed scene, then the scene that was on the air put on
/// the preview, with what both have to be done.
pub proof fn taking_is_a_change_and_a_preview(e: Engine, now: u64)
    requires
        engine_wf(e),
    ensures
        ({
            let t = taken(e, now);
            let change = switched(e, e.preview, true, now);
            &&& t.0 == (Engine { preview: e.program, ..change.0 })
            &&& t.1.take(change.1.len() as int) == change.1
            &&& e.preview != e.program ==> t.1.len() == change.1.len() + 1 && t.1.last()
                == Effect::Emit(Event::Preview { scene: e.scenes@[e.program as int].id })
            &&& e.preview == e.program ==> t.1 == change.1
        }),
{
    let change = switched(e, e.preview, true, now);
    let t = taken(e, now);
    assert(t.1.take(change.1.len() as int) =~= change.1);
    if e.preview == e.program {
        assert(t.1 =~= change.1);
    }
}

/// A fade is over when as much time as it lasts has passed since it began, and not before; time
/// that runs backwards is no time.
pub proof fn fades_last_their_duration(t: Transition, now: u64)
    ensures
        fade_over(t, now) <==> now >= t.start + t.duration || t.duration == 0,
        now >= t.start ==> elapsed(t.start, now) == now - t.start,
        now <= t.start ==> elapsed(t.start, now) == 0,
{
}

/// A scene is found by its identifier: the first one that bears it, and none where none does.
pub proof fn scenes_are_found_by_their_identifier(scenes: Seq<Scene>, id: Seq<char>, i: usize)
    ensures
        i < scenes.len() && scenes[i as int].id@ == id && (forall|j: int|
            0 <= j < i ==> (#[trigger] scenes[j]).id@ != id) ==> scene_with(scenes, id) == Some(i),
        (forall|j: int| 0 <= j < scenes.len() ==> (#[trigger] scenes[j]).id@ != id)
            ==> scene_with(scenes, id) is None,
{
    if i < scenes.len() && scenes[i as int].id@ == id && (forall|j: int|
        0 <= j < i ==> (#[trigger] scenes[j]).id@ != id) {
        assert(is_scene(scenes, id, i as int));
        let k = choose|k: int| is_scene(scenes, id, k);
        assert(is_scene(scenes, id, k));
        assert(scenes[k].id@ == id);
        assert(scenes[i as int].id@ == id);
    }
    if forall|j: int| 0 <= j < scenes.len() ==> (#[trigger] scenes[j]).id@ != id {
        assert forall|k: int| !is_scene(scenes, id, k) by {
            if 0 <= k < scenes.len() {
                assert(scenes[k].id@ != id);
            }
        }
    }
}

/// The phone is on the air where a layer of the programme shows it, or one of a scene that is
/// still fading out, and nowhere else.
pub proof fn phone_is_on_the_air_where_it_shows(e: Engine, now: u64, i: int)
    requires
        engine_wf(e),
    ensures
        ({
            let program = e.scenes@[e.program as int].layers@;
            let from = e.scenes@[(e.transition->0).from as int].layers@;
            let fading = e.transition is Some && now < (e.transition->0).start + (
            e.transition->0).duration && (e.transition->0).duration > 0;
            &&& 0 <= i < program.len() && program[i].kind is Phone ==> on_air(e, now)
            &&& fading && 0 <= i < from.len() && from[i].kind is Phone ==> on_air(e, now)
            &&& (forall|j: int|
                0 <= j < program.len() ==> !((#[trigger] program[j]).kind is Phone)) && (!fading
                || forall|j: int| 0 <= j < from.len() ==> !((#[trigger] from[j]).kind is Phone))
                ==> !on_air(e, now)
        }),
{
    let program = e.scenes@[e.program as int].layers@;
    let from = e.scenes@[(e.transition->0).from as int].layers@;
    if 0 <= i < program.len() && program[i].kind is Phone {
        assert(program[i].kind == LayerKind::Phone);
        assert(shows_phone(e.scenes@[e.program as int]));
    }
    if 0 <= i < from.len() && from[i].kind is Phone {
        assert(from[i].kind == LayerKind::Phone);
        assert(shows_phone(e.scenes@[(e.transition->0).from as int]));
    }
}

/// A phone that comes is the one shown, and what is known of its stream stays; one that goes takes
/// the statistics of its stream with it.
pub proof fn phone_takes_its_statistics_along(e: Engine, name: String)
    ensures
        phoned(e, Some(name)) == (Engine { phone: Some(name), ..e }),
        phoned(e, None) == (Engine { phone: None, rtp_stats: None, phone_stats: None, ..e }),
{
}

/// The statistics shown are those that came: rates of the phone and of the drawing, the size of
/// the phone's latest picture, zero without one, and what was reported of its stream.
pub proof fn statistics_are_those_that_came<S>(
    e: Engine,
    phone: FrameSlot<S>,
    render: FpsCounter,
    now: u64,
)
    ensures
        ({
            let s = stats_of(e, phone, render, now);
            &&& s.phone_fps == frame::rate_at(phone.fps, now)
            &&& s.render_fps == frame::rate_at(render, now)
            &&& s.rtp == e.rtp_stats
            &&& s.phone == e.phone_stats
            &&& phone.latest is Some ==> s.phone_width == (phone.latest->0).width
                && s.phone_height == (phone.latest->0).height
            &&& phone.latest is None ==> s.phone_width == 0 && s.phone_height == 0
        }),
{
}

/// A layer is drawn where and as the configuration puts it: its place is kept, its opacity too
/// where it has one, and colours and texts are opaque.
pub proof fn layers_are_drawn_as_configured(p: LayerPlan, l: config::LayerView, base: Seq<char>)
    requires
        planned(p, l, base),
    ensures
        match l {
            config::LayerView::Phone { geometry, opacity } => p.source is Phone && p.geometry
                == geometry && p.opacity == opacity,
            config::LayerView::Color { color, geometry } => p.geometry == geometry && p.opacity
                == 0x3ff0_0000_0000_0000u64 && (config::color_in(color) is Some <==> p.source is Color)
                && (p.source is Color ==> Some(p.source->Color_0) == config::color_in(color)) && (
            config::color_in(color) is None ==> p.source is BadColor),
            config::LayerView::Image { path, geometry, opacity } => p.source is Image
                && p.source->Image_0@ == config::resolved(base, path) && p.geometry == geometry
                && p.opacity == opacity,
            config::LayerView::Video { geometry, opacity, audio, alpha, .. } => p.source is Video
                && p.geometry == geometry && p.opacity == opacity && p.source->Video_0.audio
                == audio && p.source->Video_0.alpha == alpha && config::segment_views(
                p.source->Video_0.segments@,
            ) == config::video_pieces(l, base) && p.source->Video_0.autostart == !(
            config::video_start(l) == config::StartMode::OnAir),
            config::LayerView::Text { text, font, color, geometry } => p.geometry == geometry
                && p.opacity == 0x3ff0_0000_0000_0000u64 && (config::color_in(color) is Some
                <==> p.source is Text) && (p.source is Text ==> p.source->text@ == text
                && p.source->font@ == font && Some(p.source->Text_color) == config::color_in(
                color,
            )) && (config::color_in(color) is None ==> p.source is BadColor),
        },
{
}

/// A scene shows its own layers; one without any shows black over the full frame.
pub proof fn empty_scenes_are_black(s: config::SceneView)
    ensures
        s.layers.len() > 0 ==> effective_layers(s) == s.layers,
        s.layers.len() == 0 ==> effective_layers(s).len() == 1 && effective_layers(s)[0] is Color
            && effective_layers(s)[0]->Color_color == "#000000"@
            && effective_layers(s)[0]->Color_geometry == (Geometry {
            x: 0,
            y: 0,
            width: None,
            height: None,
        }),
{
}

/// The keys of the layers count on without a gap: the first layer of the first scene has 1, and
/// the first one of the next scene follows the last one of its own.
pub proof fn layer_keys_count_on(scenes: Seq<config::SceneView>, n: int)
    requires
        n >= 0,
    ensures
        layers_before(scenes, 0) == 0,
        layers_before(scenes, n + 1) == layers_before(scenes, n) + effective_layers(
            scenes[n],
        ).len(),
{
}

/// A source is heard on the channels that it is routed to, counted from 1: left on the first and
/// right on the second of them, both on the only one. Channel 0 counts as the first. Without a
/// channel a return takes the first input.
pub proof fn sources_are_heard_where_routed(a: usize, b: usize, rest: Seq<usize>)
    requires
        a >= 1,
        b >= 1,
    ensures
        output_places(seq![a]) == ((a - 1) as usize, (a - 1) as usize),
        output_places(seq![a, b] + rest) == ((a - 1) as usize, (b - 1) as usize),
        output_places(seq![0usize, 0usize]) == (0usize, 0usize),
        input_places(seq![a]) == ((a - 1) as usize, (a - 1) as usize),
        input_places(seq![a, b] + rest) == ((a - 1) as usize, (b - 1) as usize),
        input_places(Seq::empty()) == (0usize, 0usize),
{
}

/// A device is opened under the name that the setting gives, white space around it apart; a blank
/// setting, or `none` in any case of its letters, opens none.
pub proof fn settings_name_devices(setting: Seq<char>)
    ensures
        ({
            let t = strings::trim(setting);
            &&& t.len() == 0 ==> wanted_device(setting) is None
            &&& strings::ascii_lowercase(t) == "none"@ ==> wanted_device(setting) is None
            &&& t.len() > 0 && strings::ascii_lowercase(t) != "none"@ ==> wanted_device(setting)
                == Some(t)
        }),
{
}

/// A device is opened with the configured number of channels, or with all that it has where none
/// is configured.
pub proof fn devices_open_with_their_channels(configured: i32, detected: u16)
    ensures
        configured > 0 ==> opened_channels(configured, detected) == configured,
        configured <= 0 ==> opened_channels(configured, detected) == detected,
{
}

/// Meters are shown where they are asked for: the phone and the branding with an output, the
/// return with an input; each identifier stands for its own source.
pub proof fn meters_are_shown_on_demand()
    ensures
        output_meters(true) == seq![
            ("stream"@, "Stream (téléphone)"@),
            ("branding"@, "Habillage"@),
        ],
        input_meters(true) == seq![("return"@, "Retour Wing"@)],
        output_meters(false).len() == 0,
        input_meters(false).len() == 0,
        meter_source("stream"@) == MeterSource::Stream,
        meter_source("branding"@) == MeterSource::Branding,
        meter_source("return"@) == MeterSource::Return,
{
    reveal_strlit("stream");
    reveal_strlit("branding");
    reveal_strlit("return");
    assert("stream"@.len() == 6 && "branding"@.len() == 8 && "return"@.len() == 6);
    assert("stream"@[0] == 's' && "branding"@[0] == 'b' && "return"@[0] == 'r');
}

/// A running source is heard on its new channels at once, and keeps them; the other two are left
/// where they were. A source that is unknown, or does not run, changes nothing.
pub proof fn rerouting_moves_one_source(
    a: AudioSetup,
    target: Seq<char>,
    channels: Seq<usize>,
    after: AudioSetup,
    done: bool,
)
    requires
        rerouted(a, target, channels, after, done),
    ensures
        ({
            let stream = target == "stream"@ && a.stream_ch is Some;
            let branding = target == "branding"@ && a.branding_ch is Some;
            let ret = target == "return"@ && a.return_sel is Some;
            &&& done == (stream || branding || ret)
            &&& stream ==> after.stream_ch == Some(output_places(channels)) && after.route.stream@
                == channels
            &&& branding ==> after.branding_ch == Some(output_places(channels))
                && after.route.branding@ == channels
            &&& ret ==> after.return_sel == Some(input_places(channels))
                && after.route.return_input@ == channels
            &&& !stream ==> after.stream_ch == a.stream_ch && after.route.stream@ == a.route.stream@
            &&& !branding ==> after.branding_ch == a.branding_ch && after.route.branding@
                == a.route.branding@
            &&& !ret ==> after.return_sel == a.return_sel && after.route.return_input@
                == a.route.return_input@
            &&& after.route.out_channels == a.route.out_channels && after.route.in_channels
                == a.route.in_channels && after.meters == a.meters && after.show_meters
                == a.show_meters
        }),
{
    reveal_strlit("stream");
    reveal_strlit("branding");
    reveal_strlit("return");
    assert("stream"@[0] == 's' && "branding"@[0] == 'b' && "return"@[0] == 'r');
}

/// A cut changes the programme at once, whatever is configured; the other change fades exactly
/// where a fade that lasts is configured. Both put the scene on the air and leave the preview
/// alone; a scene that there is not changes nothing.
pub proof fn programmes_change_as_asked(
    e: &mut Engine,
    idx: usize,
    now: u64,
    r: Vec<Effect>,
    f: &mut Engine,
    q: Vec<Effect>,
)
    requires
        engine_wf(*old(e)),
        *old(f) == *old(e),
        call_ensures(Engine::cut, (e, idx, now), r),
        call_ensures(Engine::transition_to, (f, idx, now), q),
    ensures
        ({
            let there = idx < old(e).scenes@.len();
            let wanted = strings::ascii_lowercase(old(e).transition_kind@) == "fade"@ && old(
                e,
            ).transition_ms > 0;
            &&& there ==> final(e).program == idx && final(f).program == idx
            &&& there ==> final(e).transition is None
            &&& there && idx != old(e).program ==> (final(f).transition is Some <==> wanted)
            &&& there && idx != old(e).program && wanted ==> final(f).transition == Some(
                Transition {
                    from: old(e).program,
                    start: now,
                    duration: (old(e).transition_ms * 1_000_000) as u64,
                },
            )
            &&& !there ==> *final(e) == *old(e) && *final(f) == *old(f) && r@.len() == 0 && q@.len()
                == 0
        }),
        final(e).preview == old(e).preview && final(f).preview == old(e).preview,
        final(e).scenes == old(e).scenes && final(f).scenes == old(e).scenes,
        final(e).phone == old(e).phone && final(f).phone == old(e).phone,
{
}

/// Taking puts the preview on the air and the programme on the preview; taking twice gives both
/// back.
pub proof fn taking_swaps(
    e: &mut Engine,
    now: u64,
    r: Vec<Effect>,
    f: &mut Engine,
    later: u64,
    q: Vec<Effect>,
)
    requires
        engine_wf(*old(e)),
        call_ensures(Engine::take, (e, now), r),
        *old(f) == *final(e),
        call_ensures(Engine::take, (f, later), q),
    ensures
        final(e).program == old(e).preview && final(e).preview == old(e).program,
        final(f).program == old(e).program && final(f).preview == old(e).preview,
{
}

/// A scene on the preview is shown there and nowhere else.
pub proof fn previews_stay_off_the_air(e: &mut Engine, idx: usize, r: Vec<Effect>)
    requires
        call_ensures(Engine::set_preview, (e, idx), r),
    ensures
        idx < old(e).scenes@.len() ==> final(e).preview == idx,
        idx >= old(e).scenes@.len() ==> *final(e) == *old(e),
        final(e).program == old(e).program && final(e).transition == old(e).transition,
        r@.len() == 1 <==> idx < old(e).scenes@.len() && idx != old(e).preview,
        r@.len() == 1 ==> r@[0] == Effect::Emit(
            Event::Preview { scene: old(e).scenes@[idx as int].id },
        ),
        r@.len() <= 1,
{
}

/// The switcher begins with its first scene on the air and on the preview, without a phone, and
/// starts the videos of the scene on the air.
pub proof fn switchers_begin_with_the_first_scene(
    scenes: Vec<Scene>,
    cfg: &Config,
    e: Engine,
    s: &Engine,
    f: Effect,
)
    requires
        call_ensures(Engine::new, (scenes, cfg), e),
        *s == e,
        call_ensures(Engine::start, (s,), f),
    ensures
        e.scenes == scenes && e.program == 0 && e.preview == 0,
        e.transition is None && e.phone is None && e.rtp_stats is None && e.phone_stats is None,
        e.transition_kind == cfg.transition.kind && e.transition_ms == cfg.transition.duration_ms,
        f == Effect::StartVideos(0),
{
}

/// A drawn picture tells what is on the air and on the preview, and how far a fade has come; one
/// that is over is forgotten, and drawing changes nothing else.
pub proof fn drawing_ends_fades(e: &mut Engine, now: u64, r: RenderState)
    requires
        engine_wf(*old(e)),
        call_ensures(Engine::render_state, (e, now), r),
    ensures
        r.program == old(e).program && r.preview == old(e).preview,
        r.phone_connected <==> old(e).phone is Some,
        final(e).program == old(e).program && final(e).preview == old(e).preview,
        final(e).phone == old(e).phone,
        old(e).transition is None ==> r.fade is None && final(e).transition is None,
        old(e).transition matches Some(t) ==> {
            let passed = if now >= t.start {
                now - t.start
            } else {
                0
            };
            &&& passed >= t.duration ==> r.fade is None && final(e).transition is None
            &&& passed < t.duration ==> r.fade == Some((t.from, passed as u64, t.duration))
                && final(e).transition == old(e).transition
        },
{
}

/// The state that is told names the scenes, what is on the air and on the preview, and the phone.
pub proof fn state_is_told<S>(
    e: &Engine,
    phone: &FrameSlot<S>,
    render: &FpsCounter,
    now: u64,
    r: Snapshot,
    i: int,
)
    requires
        call_ensures(Engine::snapshot::<S>, (e, phone, render, now), r),
        0 <= i < e.scenes@.len(),
    ensures
        r.scenes@.len() == e.scenes@.len(),
        r.scenes@[i].id == e.scenes@[i].id && r.scenes@[i].name == e.scenes@[i].name,
        r.program == e.scenes@[e.program as int].id,
        r.preview == e.scenes@[e.preview as int].id,
        r.phone_connected <==> e.phone is Some,
        r.phone_name == e.phone,
        r.transition == e.transition_kind,
{
}

/// A phone that comes or goes is told with its name; one that goes leaves no picture behind, and
/// the scenes stay as they are.
pub proof fn phones_come_and_go(e: &mut Engine, name: Option<String>, r: Vec<Effect>)
    requires
        call_ensures(Engine::set_phone, (e, name), r),
    ensures
        final(e).phone == name,
        name is Some ==> r@ == seq![Effect::Emit(Event::Phone { connected: true, name })],
        name is None ==> r@ == seq![
            Effect::ClearPhone,
            Effect::Emit(Event::Phone { connected: false, name: None }),
        ],
        final(e).program == old(e).program && final(e).preview == old(e).preview,
        final(e).transition == old(e).transition && final(e).scenes == old(e).scenes,
{
}

/// Statistics that came are kept, each in its place.
pub proof fn statistics_are_kept(
    e: &mut Engine,
    rtp: Option<RtpStats>,
    f: &mut Engine,
    phone: Option<PhoneStats>,
)
    requires
        call_ensures(Engine::set_rtp_stats, (e, rtp), ()),
        call_ensures(Engine::set_phone_stats, (f, phone), ()),
    ensures
        final(e).rtp_stats == rtp && final(e).phone_stats == old(e).phone_stats,
        final(f).phone_stats == phone && final(f).rtp_stats == old(f).rtp_stats,
        final(e).program == old(e).program && final(f).program == old(f).program,
        final(e).phone == old(e).phone && final(f).phone == old(f).phone,
{
}

/// A fade goes on with the time that has passed, up to its duration, and is over then.
pub proof fn fades_go_on_with_time(t: &Transition, now: u64, r: u64, over: bool)
    requires
        call_ensures(Transition::progress, (t, now), r),
        call_ensures(Transition::over, (t, now), over),
    ensures
        now <= t.start ==> r == 0,
        t.start <= now < t.start + t.duration ==> r == now - t.start && !over,
        now >= t.start + t.duration ==> r == t.duration && over,
{
}

/// A scene on the air starts those of its videos that play on the air, in the order of its layers,
/// and no others.
pub proof fn videos_on_the_air_are_listed(e: &Engine, scene: usize, r: Vec<u64>, i: int)
    requires
        scene < e.scenes@.len(),
        call_ensures(Engine::on_air_layers, (e, scene), r),
    ensures
        ({
            let layers = e.scenes@[scene as int].layers@;
            &&& r@.len() <= layers.len()
            &&& 0 <= i < layers.len() && layers[i].kind == (LayerKind::Video { on_air: true })
                ==> r@.contains(layers[i].id)
            &&& 0 <= i < r@.len() ==> exists|j: int|
                0 <= j < layers.len() && (#[trigger] layers[j]).kind == (LayerKind::Video {
                    on_air: true,
                }) && layers[j].id == r@[i]
        }),
{
    let layers = e.scenes@[scene as int].layers@;
    let p = |l: Layer| l.kind == (LayerKind::Video { on_air: true });
    let kept = layers.filter(p);
    layers.lemma_filter_len(p);
    broadcast use vstd::seq_lib::group_filter_ensures;

    if 0 <= i < layers.len() && p(layers[i]) {
        assert(layers.contains(layers[i]));
        assert(kept.contains(layers[i]));
        let k = choose|k: int| 0 <= k < kept.len() && kept[k] == layers[i];
        assert(r@[k] == layers[i].id);
    }
    if 0 <= i < r@.len() {
        assert(r@[i] == kept[i].id);
        layers.lemma_filter_pred(p, i);
        let j = lemma_kept_is_there(layers, p, i);
        assert(layers[j].id == r@[i]);
    }
}

proof fn lemma_kept_is_there(layers: Seq<Layer>, p: spec_fn(Layer) -> bool, i: int) -> (j: int)
    requires
        0 <= i < layers.filter(p).len(),
    ensures
        0 <= j < layers.len(),
        layers[j] == layers.filter(p)[i],
    decreases layers.len(),
{
    reveal(Seq::filter);
    let rest = layers.drop_last();
    if i < rest.filter(p).len() {
        lemma_kept_is_there(rest, p, i)
    } else {
        layers.len() - 1
    }
}

/// An output that starts gives both sources their channels, an input the return; neither touches
/// the other's, and what is routed where stays.
pub proof fn started_devices_have_their_channels(
    a: &mut AudioSetup,
    outs: i32,
    b: &mut AudioSetup,
    ins: i32,
)
    requires
        call_ensures(AudioSetup::output_started, (a, outs), ()),
        call_ensures(AudioSetup::input_started, (b, ins), ()),
    ensures
        final(a).stream_ch is Some && final(a).branding_ch is Some,
        final(a).return_sel == old(a).return_sel,
        final(a).route.out_channels == outs && final(a).route.in_channels == old(
            a,
        ).route.in_channels,
        final(b).return_sel is Some,
        final(b).stream_ch == old(b).stream_ch && final(b).branding_ch == old(b).branding_ch,
        final(b).route.in_channels == ins && final(b).route.out_channels == old(
            b,
        ).route.out_channels,
        final(a).route.stream == old(a).route.stream && final(a).route.branding == old(
            a,
        ).route.branding && final(a).route.return_input == old(a).route.return_input,
        final(b).route.stream == old(b).route.stream && final(b).route.branding == old(
            b,
        ).route.branding && final(b).route.return_input == old(b).route.return_input,
        old(a).route.stream@.len() >= 2 && old(a).route.stream@[0] > 0 && old(a).route.stream@[1]
            > 0 ==> final(a).stream_ch == Some(
            (
                (old(a).route.stream@[0] - 1) as usize,
                (old(a).route.stream@[1] - 1) as usize,
            ),
        ),
        old(a).route.branding@.len() >= 2 && old(a).route.branding@[0] > 0 && old(
            a,
        ).route.branding@[1] > 0 ==> final(a).branding_ch == Some(
            (
                (old(a).route.branding@[0] - 1) as usize,
                (old(a).route.branding@[1] - 1) as usize,
            ),
        ),
{
}

/// A device is opened only where the settings name one, at the configured rate.
pub proof fn named_devices_are_opened(
    a: &AudioConfig,
    detected: u16,
    r: Option<OutputPlan>,
    q: Option<InputPlan>,
)
    requires
        call_ensures(plan_output, (a, detected), r),
        call_ensures(plan_input, (a, detected), q),
    ensures
        r is Some <==> wanted_device(a.output_device@) is Some,
        q is Some <==> wanted_device(a.input_device@) is Some,
        r is Some ==> r->0.device@ == wanted_device(a.output_device@)->0 && r->0.rate
            == a.sample_rate,
        q is Some ==> q->0.device@ == wanted_device(a.input_device@)->0 && q->0.rate
            == a.sample_rate,
        r is Some && a.output_channels > 0 ==> r->0.channels == a.output_channels,
        q is Some && a.input_channels > 0 ==> q->0.channels == a.input_channels,
{
}

/// The routing that is told is the one in force.
pub proof fn routing_is_told(a: &AudioSetup, r: AudioRoute, cfg: &AudioConfig, fresh: AudioSetup)
    requires
        call_ensures(AudioSetup::audio_routing, (a,), r),
        call_ensures(AudioSetup::new, (cfg,), fresh),
    ensures
        r.stream@ == a.route.stream@ && r.branding@ == a.route.branding@,
        r.return_input@ == a.route.return_input@,
        r.out_channels == a.route.out_channels && r.in_channels == a.route.in_channels,
        fresh.route.stream@ == cfg.stream_output_channels@,
        fresh.route.branding@ == cfg.branding_output_channels@,
        fresh.route.return_input@ == cfg.return_from_input_channels@,
        fresh.stream_ch is None && fresh.branding_ch is None && fresh.return_sel is None,
        fresh.meters@.len() == 0 && fresh.show_meters == cfg.meters,
{
}

} // verus!
