//! Playing the branding videos: play lists, remote control, the loop of the playing thread and
//! the pacing of one passage. Times are in nanoseconds.

use std::collections::VecDeque;
use vstd::prelude::*;

verus! {

/// Delay of the picture to meet the sound, which crosses the bus and the output ring.
pub const AV_DELAY: u64 = 80_000_000;

/// How far the sound is read ahead of the picture.
pub const AUDIO_LOOKAHEAD: i64 = 300_000_000;

/// Delay above which a picture is skipped.
pub const MAX_LATE: u64 = 200_000_000;

/// Delay above which a passage is set back on time rather than run after.
pub const RESYNC: u64 = 100_000_000;

/// Least duration of a passage.
pub const MIN_PASSAGE: u64 = 1_000_000;

/// Longest sleep while waiting, so that commands are heeded.
pub const WAIT_SLICE: u64 = 50_000_000;

/// Wait before an unreadable file is tried again.
pub const RETRY: u64 = 1_000_000_000;

/// Sleep of an idle player.
pub const IDLE: u64 = 20_000_000;

/// A piece of a play list: a file, a range, and whether it repeats.
pub struct Segment {
    pub path: String,
    pub from: u64,
    /// End of the range; none for the end of the file.
    pub to: Option<u64>,
    /// Repeated until stopped.
    pub repeat: bool,
}

/// Play list of a video layer.
pub struct Playlist {
    pub segments: Vec<Segment>,
    /// Starts at once, else on the air.
    pub autostart: bool,
    /// The sound goes to the branding bus.
    pub audio: bool,
    /// Forces decoding with alpha; none to detect it.
    pub alpha: Option<bool>,
}

/// What was read of a file when it was opened.
#[derive(Debug, Clone, Copy, PartialEq, Eq, Structural)]
pub struct Probe {
    pub duration: u64,
    pub has_audio: bool,
    pub has_alpha: bool,
}

/// Why a play list cannot be played.
#[derive(Debug, Clone, Copy, PartialEq, Eq, Structural)]
pub enum PlaylistError {
    Empty,
    /// The range of the segment at this place lies outside its file.
    Range(usize),
}

/// A range to play.
#[derive(Debug, Clone, Copy, PartialEq, Eq, Structural)]
pub struct Range {
    pub from: u64,
    pub to: u64,
    pub repeat: bool,
}

/// What a checked play list plays.
pub struct Checked {
    pub ranges: Vec<Range>,
    pub alpha: bool,
}

/// End of a segment of a file.
pub open spec fn segment_end(s: Segment, p: Probe) -> u64 {
    match s.to {
        Some(t) => t,
        None => p.duration,
    }
}

/// The range of a segment lies in its file, give or take a millisecond at the end.
pub open spec fn range_ok(s: Segment, p: Probe) -> bool {
    &&& segment_end(s, p) > s.from
    &&& segment_end(s, p) <= p.duration + 1_000_000
}

/// Decoding with alpha: as forced, else where some file has it.
pub open spec fn wants_alpha(forced: Option<bool>, probes: Seq<Probe>) -> bool {
    match forced {
        Some(a) => a,
        None => exists|i: int| 0 <= i < probes.len() && (#[trigger] probes[i]).has_alpha,
    }
}

/// Checks a play list against what was read of its files.
pub fn check_playlist(list: &Playlist, probes: &Vec<Probe>) -> (r: Result<Checked, PlaylistError>)
    requires
        probes@.len() == list.segments@.len(),
    ensures
        (match r {
            Ok(c) => {
                &&& list.segments@.len() > 0
                &&& c.ranges@.len() == list.segments@.len()
                &&& c.alpha == wants_alpha(list.alpha, probes@)
                &&& forall|i: int|
                    0 <= i < list.segments@.len() ==> {
                        let s = list.segments@[i];
                        &&& range_ok(s, probes@[i])
                        &&& #[trigger] c.ranges@[i] == (Range {
                            from: s.from,
                            to: segment_end(s, probes@[i]),
                            repeat: s.repeat,
                        })
                    }
            },
            Err(PlaylistError::Empty) => list.segments@.len() == 0,
            Err(PlaylistError::Range(i)) => {
                &&& i < list.segments@.len()
                &&& !range_ok(list.segments@[i as int], probes@[i as int])
                &&& forall|j: int|
                    0 <= j < i ==> range_ok(#[trigger] list.segments@[j], probes@[j])
            },
        }),
{
    if list.segments.len() == 0 {
        return Err(PlaylistError::Empty);
    }
    let mut ranges: Vec<Range> = Vec::new();
    let mut any_alpha = false;
    let mut i: usize = 0;
    while i < list.segments.len()
        invariant
            i <= list.segments@.len(),
            probes@.len() == list.segments@.len(),
            ranges@.len() == i,
            any_alpha == (exists|j: int| 0 <= j < i && (#[trigger] probes@[j]).has_alpha),
            forall|j: int| 0 <= j < i ==> range_ok(#[trigger] list.segments@[j], probes@[j]),
            forall|j: int|
                0 <= j < i ==> #[trigger] ranges@[j] == (Range {
                    from: list.segments@[j].from,
                    to: segment_end(list.segments@[j], probes@[j]),
                    repeat: list.segments@[j].repeat,
                }),
        decreases list.segments.len() - i,
    {
        let s = &list.segments[i];
        let p = probes[i];
        let to: u64 = match s.to {
            Some(t) => t,
            None => p.duration,
        };
        if !(to > s.from && (to <= p.duration || to - p.duration <= 1_000_000)) {
            return Err(PlaylistError::Range(i));
        }
        if p.has_alpha {
            any_alpha = true;
        }
        ranges.push(Range { from: s.from, to, repeat: s.repeat });
        i += 1;
    }
    let alpha = match list.alpha {
        Some(a) => a,
        None => any_alpha,
    };
    Ok(Checked { ranges, alpha })
}

/// Command to a player.
#[derive(Debug, Clone, Copy, PartialEq, Eq, Structural)]
pub enum Cmd {
    /// (Re)start the list from the beginning.
    Start,
    /// Stop, unless a start came since that generation.
    Stop { generation: u64 },
}

/// A stop to be given later.
#[derive(Debug, Clone, Copy, PartialEq, Eq, Structural)]
pub struct DeferredStop {
    pub generation: u64,
    pub after: u64,
}

/// State shared by the playing thread and the commands.
pub struct Ctl {
    /// Stopped for good.
    pub stop: bool,
    /// A command waits: interrupts the playing.
    pub wake: bool,
    pub cmds: VecDeque<Cmd>,
    /// Counts the starts, so that a deferred stop does not kill a later one.
    pub generation: u64,
}

impl Ctl {
    /// No command; one start where the list plays at once.
    pub fn new(autostart: bool) -> (r: Self)
        ensures
            !r.stop,
            r.wake == autostart,
            r.generation == 0,
            r.cmds@ == (if autostart {
                seq![Cmd::Start]
            } else {
                Seq::<Cmd>::empty()
            }),
    {
        let mut c = Ctl { stop: false, wake: false, cmds: VecDeque::new(), generation: 0 };
        if autostart {
            c.push(Cmd::Start);
            assert(c.cmds@ == seq![Cmd::Start]);
        }
        c
    }

    /// Whether the playing has to stop and look.
    pub fn interrupted(&self) -> (r: bool)
        ensures
            r == (self.stop || self.wake),
    {
        self.stop || self.wake
    }

    /// Queues a command.
    pub fn push(&mut self, cmd: Cmd)
        ensures
            final(self).cmds@ == old(self).cmds@.push(cmd),
            final(self).wake,
            final(self).stop == old(self).stop,
            final(self).generation == old(self).generation,
    {
        self.cmds.push_back(cmd);
        self.wake = true;
    }

    /// Takes the waiting commands, in order.
    pub fn take(&mut self) -> (r: Vec<Cmd>)
        ensures
            old(self).wake ==> r@ == old(self).cmds@ && final(self).cmds@.len() == 0,
            !old(self).wake ==> r@.len() == 0 && final(self).cmds@ == old(self).cmds@,
            !final(self).wake,
            final(self).stop == old(self).stop,
            final(self).generation == old(self).generation,
    {
        let mut out: Vec<Cmd> = Vec::new();
        if !self.wake {
            return out;
        }
        self.wake = false;
        let ghost all = self.cmds@;
        while self.cmds.len() > 0
            invariant
                out@ + self.cmds@ == all,
                !self.wake,
                self.stop == old(self).stop,
                self.generation == old(self).generation,
            decreases self.cmds@.len(),
        {
            let ghost before = self.cmds@;
            if let Some(c) = self.cmds.pop_front() {
                out.push(c);
                assert(out@ + self.cmds@ == all) by {
                    assert(before[0] == c);
                    assert(self.cmds@ == before.subrange(1, before.len() as int));
                }
            }
        }
        assert(out@ == all);
        out
    }

    /// Ends the playing thread.
    pub fn quit(&mut self)
        ensures
            final(self).stop,
            final(self).wake,
            final(self).cmds@ == old(self).cmds@,
            final(self).generation == old(self).generation,
    {
        self.stop = true;
        self.wake = true;
    }
}

/// Remote control of a player.
pub struct PlayerCtl {
    pub ctl: Ctl,
}

impl PlayerCtl {
    /// (Re)starts the play list from the beginning.
    pub fn start(&mut self)
        requires
            old(self).ctl.generation < u64::MAX,
        ensures
            final(self).ctl.generation == old(self).ctl.generation + 1,
            final(self).ctl.cmds@ == old(self).ctl.cmds@.push(Cmd::Start),
            final(self).ctl.wake,
            final(self).ctl.stop == old(self).ctl.stop,
    {
        self.ctl.generation = self.ctl.generation + 1;
        self.ctl.push(Cmd::Start);
    }

    /// Stops after a while, to let a fade end on a moving picture: at once where that is zero,
    /// else by the stop returned, which is given when its time has come.
    pub fn stop_after(&mut self, after: u64) -> (r: Option<DeferredStop>)
        ensures
            after == 0 ==> {
                &&& r is None
                &&& final(self).ctl.cmds@ == old(self).ctl.cmds@.push(
                    Cmd::Stop { generation: old(self).ctl.generation },
                )
                &&& final(self).ctl.wake
            },
            after > 0 ==> {
                &&& r == Some(DeferredStop { generation: old(self).ctl.generation, after })
                &&& *final(self) == *old(self)
            },
            final(self).ctl.stop == old(self).ctl.stop,
            final(self).ctl.generation == old(self).ctl.generation,
    {
        let generation = self.ctl.generation;
        if after == 0 {
            self.ctl.push(Cmd::Stop { generation });
            None
        } else {
            Some(DeferredStop { generation, after })
        }
    }

    /// The time of a deferred stop has come; without effect on a player that was ended.
    pub fn deferred(&mut self, stop: DeferredStop)
        ensures
            old(self).ctl.stop ==> *final(self) == *old(self),
            !old(self).ctl.stop ==> {
                &&& final(self).ctl.cmds@ == old(self).ctl.cmds@.push(
                    Cmd::Stop { generation: stop.generation },
                )
                &&& final(self).ctl.wake
            },
            final(self).ctl.stop == old(self).ctl.stop,
            final(self).ctl.generation == old(self).ctl.generation,
    {
        if !self.ctl.stop {
            self.ctl.push(Cmd::Stop { generation: stop.generation });
        }
    }
}

/// Where the playing thread stands.
#[derive(Debug, Clone, Copy, PartialEq, Eq, Structural)]
pub enum Phase {
    /// Nothing plays.
    Idle,
    /// The first segment is being opened and its first picture shown. The picture is cleared
    /// where that fails and `clear`; the thread sleeps after it where `rest`.
    Arming { clear: bool, rest: bool },
    /// A segment is being opened; its time begins at `at`, or when it is open.
    Opening { idx: usize, at: Option<u64> },
    /// The passage to play.
    Playing { idx: usize, origin: u64 },
    /// A segment could not be read and will be tried again.
    Retrying { idx: usize },
    Ended,
}

/// What happened in the playing thread.
#[derive(Debug, Clone, Copy, PartialEq, Eq, Structural)]
pub enum Input {
    /// The thread begins.
    Begin,
    Quit,
    /// A start, with the number of starts so far.
    Start { generation: u64, now: u64 },
    Stop { generation: u64 },
    /// Nothing plays and no command came.
    Tick,
    Armed { ok: bool },
    Opened { ok: bool, now: u64 },
    /// The passage was played; whether the next one is open already.
    Done { duration: u64, now: u64, next_ready: bool },
    Failed,
    /// The wait before another try is over, or was interrupted.
    RetryOver,
}

/// What the playing thread does.
#[derive(Debug, Clone, Copy, PartialEq, Eq, Structural)]
pub enum Action {
    /// Open the first segment and show its first picture.
    Arm,
    /// Open a segment.
    Open(usize),
    /// Take the picture away.
    ClearSlot,
    Sleep(u64),
}

/// The loop of a playing thread.
pub struct PlayerLoop {
    pub repeats: Vec<bool>,
    pub armed: bool,
    pub generation: u64,
    pub phase: Phase,
}

/// The passage after segment `idx`: the same where it repeats, else the next, if any.
pub open spec fn next_of(repeats: Seq<bool>, idx: int) -> Option<int> {
    if repeats[idx] {
        Some(idx)
    } else if idx + 1 < repeats.len() {
        Some(idx + 1)
    } else {
        None
    }
}

/// Origin of the passage that follows one: when that one ends, or now where it fell behind.
pub open spec fn next_origin(origin: u64, duration: u64, now: u64) -> int {
    let d = if duration < 1_000_000 {
        1_000_000
    } else {
        duration as int
    };
    if origin + d + 100_000_000 < now {
        now as int
    } else {
        origin + d
    }
}

/// A loop is well formed: it has segments, and its phase speaks of one of them.
pub open spec fn loop_wf(l: PlayerLoop) -> bool {
    &&& l.repeats@.len() > 0
    &&& (match l.phase {
        Phase::Opening { idx, .. } | Phase::Playing { idx, .. } | Phase::Retrying { idx } => idx
            < l.repeats@.len(),
        _ => true,
    })
}

/// The next state and the actions, in order. What does not belong to a phase changes nothing; a
/// passage interrupted by a command goes on unless the command changes the phase.
pub open spec fn step(armed: bool, generation: u64, phase: Phase, repeats: Seq<bool>, input: Input) -> (
    bool,
    u64,
    Phase,
    Seq<Action>,
) {
    match (phase, input) {
        (Phase::Ended, _) => (armed, generation, phase, seq![]),
        (_, Input::Quit) => (armed, generation, Phase::Ended, seq![]),
        (Phase::Idle, Input::Begin) => (
            armed,
            generation,
            Phase::Arming { clear: false, rest: false },
            seq![Action::Arm],
        ),
        (Phase::Idle, Input::Tick) => if armed {
            (armed, generation, phase, seq![Action::Sleep(20_000_000)])
        } else {
            (armed, generation, Phase::Arming { clear: false, rest: true }, seq![Action::Arm])
        },
        (Phase::Arming { clear, rest }, Input::Armed { ok }) => (
            ok,
            generation,
            Phase::Idle,
            if rest {
                seq![Action::Sleep(20_000_000)]
            } else if !ok && clear {
                seq![Action::ClearSlot]
            } else {
                seq![]
            },
        ),
        (Phase::Idle, Input::Start { generation: g, now }) | (
            Phase::Playing { .. },
            Input::Start { generation: g, now },
        ) | (Phase::Retrying { .. }, Input::Start { generation: g, now }) => if armed {
            (false, g, Phase::Playing { idx: 0, origin: now }, seq![])
        } else {
            (false, g, Phase::Opening { idx: 0, at: None }, seq![Action::Open(0)])
        },
        (Phase::Playing { .. }, Input::Stop { generation: g }) | (
            Phase::Retrying { .. },
            Input::Stop { generation: g },
        ) => if g >= generation {
            (armed, generation, Phase::Arming { clear: true, rest: false }, seq![Action::Arm])
        } else {
            (armed, generation, phase, seq![])
        },
        (Phase::Opening { idx, at }, Input::Opened { ok, now }) => if ok {
            let o = match at {
                Some(o) => o,
                None => now,
            };
            (armed, generation, Phase::Playing { idx, origin: o }, seq![])
        } else {
            (armed, generation, Phase::Idle, seq![])
        },
        (Phase::Playing { idx, origin }, Input::Done { duration, now, next_ready }) => {
            let o = next_origin(origin, duration, now) as u64;
            match next_of(repeats, idx as int) {
                Some(n) => if next_ready {
                    (armed, generation, Phase::Playing { idx: n as usize, origin: o }, seq![])
                } else {
                    (
                        armed,
                        generation,
                        Phase::Opening { idx: n as usize, at: Some(o) },
                        seq![Action::Open(n as usize)],
                    )
                },
                None => (armed, generation, Phase::Idle, seq![]),
            }
        },
        (Phase::Playing { idx, .. }, Input::Failed) => if repeats[idx as int] {
            (armed, generation, Phase::Retrying { idx }, seq![Action::Sleep(1_000_000_000)])
        } else {
            (armed, generation, Phase::Idle, seq![])
        },
        (Phase::Retrying { idx }, Input::RetryOver) => (
            armed,
            generation,
            Phase::Opening { idx, at: None },
            seq![Action::Open(idx)],
        ),
        _ => (armed, generation, phase, seq![]),
    }
}

/// The state and actions of a loop after an input.
pub open spec fn loop_step(l: PlayerLoop, input: Input) -> (bool, u64, Phase, Seq<Action>) {
    step(l.armed, l.generation, l.phase, l.repeats@, input)
}

impl PlayerLoop {
    /// A loop over segments that has not begun.
    pub fn new(ranges: &Vec<Range>) -> (r: Self)
        requires
            ranges@.len() > 0,
        ensures
            loop_wf(r),
            r.repeats@ == ranges@.map_values(|x: Range| x.repeat),
            !r.armed,
            r.generation == 0,
            r.phase == Phase::Idle,
    {
        let mut repeats: Vec<bool> = Vec::new();
        let ghost all = ranges@.map_values(|x: Range| x.repeat);
        let mut i: usize = 0;
        while i < ranges.len()
            invariant
                i <= ranges@.len(),
                all == ranges@.map_values(|x: Range| x.repeat),
                repeats@ == all.take(i as int),
            decreases ranges.len() - i,
        {
            repeats.push(ranges[i].repeat);
            i += 1;
        }
        assert(all.take(all.len() as int) == all);
        PlayerLoop { repeats, armed: false, generation: 0, phase: Phase::Idle }
    }

    /// The segment that follows, for opening it ahead.
    pub fn next_segment(&self, idx: usize) -> (r: Option<usize>)
        requires
            idx < self.repeats@.len(),
        ensures
            (match r {
                Some(n) => next_of(self.repeats@, idx as int) == Some(n as int) && n
                    < self.repeats@.len(),
                None => next_of(self.repeats@, idx as int) is None,
            }),
    {
        if self.repeats[idx] {
            Some(idx)
        } else if idx < self.repeats.len() - 1 {
            Some(idx + 1)
        } else {
            None
        }
    }

    /// Takes what happened and says what to do.
    pub fn handle(&mut self, input: Input) -> (r: Vec<Action>)
        requires
            loop_wf(*old(self)),
            input matches Input::Done { duration, now, .. } ==> old(
                self,
            ).phase matches Phase::Playing { origin, .. } ==> origin + duration <= u64::MAX
                - 200_000_000,
        ensures
            loop_wf(*final(self)),
            final(self).repeats@ == old(self).repeats@,
            (final(self).armed, final(self).generation, final(self).phase, r@) == loop_step(
                *old(self),
                input,
            ),
    {
        let mut out: Vec<Action> = Vec::new();
        let ghost want = loop_step(*old(self), input);
        if matches!(self.phase, Phase::Ended) {
            return out;
        }
        match (self.phase, input) {
            (_, Input::Quit) => {
                self.phase = Phase::Ended;
            },
            (Phase::Idle, Input::Begin) => {
                self.phase = Phase::Arming { clear: false, rest: false };
                out.push(Action::Arm);
            },
            (Phase::Idle, Input::Tick) => {
                if self.armed {
                    out.push(Action::Sleep(IDLE));
                } else {
                    self.phase = Phase::Arming { clear: false, rest: true };
                    out.push(Action::Arm);
                }
            },
            (Phase::Arming { clear, rest }, Input::Armed { ok }) => {
                self.armed = ok;
                self.phase = Phase::Idle;
                if rest {
                    out.push(Action::Sleep(IDLE));
                } else if !ok && clear {
                    out.push(Action::ClearSlot);
                }
            },
            (Phase::Idle, Input::Start { generation, now }) | (
                Phase::Playing { .. },
                Input::Start { generation, now },
            ) | (Phase::Retrying { .. }, Input::Start { generation, now }) => {
                self.generation = generation;
                if self.armed {
                    self.armed = false;
                    self.phase = Phase::Playing { idx: 0, origin: now };
                } else {
                    self.phase = Phase::Opening { idx: 0, at: None };
                    out.push(Action::Open(0));
                }
            },
            (Phase::Playing { .. }, Input::Stop { generation }) | (
                Phase::Retrying { .. },
                Input::Stop { generation },
            ) => {
                if generation >= self.generation {
                    self.phase = Phase::Arming { clear: true, rest: false };
                    out.push(Action::Arm);
                }
            },
            (Phase::Opening { idx, at }, Input::Opened { ok, now }) => {
                if ok {
                    let o: u64 = match at {
                        Some(o) => o,
                        None => now,
                    };
                    self.phase = Phase::Playing { idx, origin: o };
                } else {
                    self.phase = Phase::Idle;
                }
            },
            (Phase::Playing { idx, origin }, Input::Done { duration, now, next_ready }) => {
                let d: u64 = if duration < MIN_PASSAGE {
                    MIN_PASSAGE
                } else {
                    duration
                };
                let end: u64 = origin + d;
                let o: u64 = if end + RESYNC < now {
                    now
                } else {
                    end
                };
                match self.next_segment(idx) {
                    Some(n) => {
                        if next_ready {
                            self.phase = Phase::Playing { idx: n, origin: o };
                        } else {
                            self.phase = Phase::Opening { idx: n, at: Some(o) };
                            out.push(Action::Open(n));
                        }
                    },
                    None => {
                        self.phase = Phase::Idle;
                    },
                }
            },
            (Phase::Playing { idx, .. }, Input::Failed) => {
                if self.repeats[idx] {
                    self.phase = Phase::Retrying { idx };
                    out.push(Action::Sleep(RETRY));
                } else {
                    self.phase = Phase::Idle;
                }
            },
            (Phase::Retrying { idx }, Input::RetryOver) => {
                self.phase = Phase::Opening { idx, at: None };
                out.push(Action::Open(idx));
            },
            _ => {},
        }
        assert(out@ =~= want.3);
        out
    }
}

/// A stop deferred before a later start does not stop what that start plays.
pub proof fn deferred_stop_spares_a_later_start(l: PlayerLoop, generation: u64)
    requires
        generation < l.generation,
    ensures
        loop_step(l, Input::Stop { generation }) == (
            l.armed,
            l.generation,
            l.phase,
            Seq::<Action>::empty(),
        ),
{
    assert(loop_step(l, Input::Stop { generation }).3 =~= Seq::<Action>::empty());
}

/// The first segment plays from the start's own time where it is armed: no file is opened.
pub proof fn armed_player_starts_at_once(l: PlayerLoop, generation: u64, now: u64)
    requires
        l.armed,
        l.phase is Idle || l.phase is Playing || l.phase is Retrying,
    ensures
        loop_step(l, Input::Start { generation, now }).2 == (Phase::Playing { idx: 0, origin: now }),
{
}

/// A segment that waits to be tried again is given up for a command: a start plays the first
/// segment, a stop that is not out of date arms it.
pub proof fn commands_end_a_retry(l: PlayerLoop, generation: u64, now: u64)
    requires
        l.phase is Retrying,
    ensures
        ({
            let s = loop_step(l, Input::Start { generation, now });
            &&& s.1 == generation
            &&& s.2 == (if l.armed {
                Phase::Playing { idx: 0, origin: now }
            } else {
                Phase::Opening { idx: 0, at: None }
            })
            &&& !l.armed ==> s.3 == seq![Action::Open(0)]
        }),
        generation >= l.generation ==> loop_step(l, Input::Stop { generation }).2 == (
        Phase::Arming { clear: true, rest: false }) && loop_step(l, Input::Stop { generation }).3
            == seq![Action::Arm],
{
}

/// A thread at rest never runs without a pause: each look for a command ends in a sleep, whether
/// the first segment could be opened or not.
pub proof fn rest_always_sleeps(l: PlayerLoop, ok: bool)
    requires
        l.phase is Idle,
    ensures
        ({
            let t = loop_step(l, Input::Tick);
            let u = step(t.0, t.1, t.2, l.repeats@, Input::Armed { ok });
            &&& l.armed ==> t.2 is Idle && t.3 == seq![Action::Sleep(20_000_000)]
            &&& !l.armed ==> t.3 == seq![Action::Arm] && u.2 is Idle && u.0 == ok && u.3
                == seq![Action::Sleep(20_000_000)]
        }),
{
}

/// Passages follow one another without a gap in time, unless the player fell behind by more than
/// a tenth of a second.
pub proof fn passages_are_seamless(l: PlayerLoop, duration: u64, now: u64)
    requires
        loop_wf(l),
        l.phase is Playing,
        next_of(l.repeats@, l.phase->Playing_idx as int) is Some,
        l.phase->Playing_origin + duration <= u64::MAX - 200_000_000,
        duration >= 1_000_000,
        now <= l.phase->Playing_origin + duration + 100_000_000,
    ensures
        loop_step(l, Input::Done { duration, now, next_ready: true }).2 == (Phase::Playing {
            idx: next_of(l.repeats@, l.phase->Playing_idx as int)->0 as usize,
            origin: (l.phase->Playing_origin + duration) as u64,
        }),
{
}

/// A segment that repeats is followed by itself, for ever.
pub proof fn repeated_segment_follows_itself(repeats: Seq<bool>, idx: int)
    requires
        0 <= idx < repeats.len(),
        repeats[idx],
    ensures
        next_of(repeats, idx) == Some(idx),
{
}

/// Where a passage stands.
#[derive(Debug, Clone, Copy, PartialEq, Eq, Structural)]
pub enum Stage {
    /// The next picture is wanted.
    Picture,
    /// The sound up to a picture is wanted.
    Sound { vpts: i64 },
    /// A block of sound is on its way to the bus.
    Pushing { vpts: i64 },
    /// A picture waits for its time.
    Waiting { vpts: i64 },
    /// The rest of the sound is wanted.
    Rest,
    /// A block of the rest is on its way to the bus.
    PushingRest,
    /// How the reading ended is wanted.
    Status,
    /// The end of the media is waited for.
    End,
    Over(Outcome),
}

/// How a passage ended.
#[derive(Debug, Clone, Copy, PartialEq, Eq, Structural)]
pub enum Outcome {
    Done,
    Interrupted,
    Failed,
}

/// What happened in a passage.
#[derive(Debug, Clone, Copy, PartialEq, Eq, Structural)]
pub enum PassageInput {
    /// A picture was read, with its time in the range.
    Picture(i64),
    /// Something without a picture was read.
    NoPicture,
    /// There are no more pictures.
    NoMorePictures,
    /// A block of sound was read, with its time in the range.
    Sound(i64),
    NoMoreSound,
    /// The block of sound is in the bus.
    Pushed,
    /// What was waited for is due.
    Due(u64),
    /// The next passage was opened ahead, or could not be.
    NextOpened(bool),
    ReadFailed,
    ReadOver,
    /// A command came.
    Interrupt,
}

/// What a passage does.
#[derive(Debug, Clone, Copy, PartialEq, Eq, Structural)]
pub enum PassageAction {
    ReadPicture,
    ReadSound,
    PushSound,
    WaitUntil(u64),
    Show,
    OpenNext,
    CheckStatus,
}

/// One passage over an open segment.
#[derive(Debug, Clone, Copy, PartialEq, Eq, Structural)]
pub struct Passage {
    pub origin: u64,
    pub duration: u64,
    /// Delay of the picture: none without sound.
    pub delay: u64,
    pub has_sound: bool,
    pub sound_done: bool,
    /// Time of a block of sound read too early.
    pub pending: Option<i64>,
    pub shown: u64,
    pub dropped: u64,
    pub next_ready: bool,
    pub next_asked: bool,
    pub stage: Stage,
}

/// Time at which a picture is due.
pub open spec fn due(p: Passage, vpts: i64) -> int {
    p.origin + p.delay + (if vpts > 0 {
        vpts as int
    } else {
        0
    })
}

/// Time at which the passage ends.
pub open spec fn end_of(p: Passage) -> int {
    p.origin + p.delay + p.duration
}

/// The picture waits for its time.
pub open spec fn to_wait(p: Passage, vpts: i64) -> (Passage, Seq<PassageAction>) {
    (
        Passage { stage: Stage::Waiting { vpts }, ..p },
        seq![PassageAction::WaitUntil(due(p, vpts) as u64)],
    )
}

/// A block of sound at `apts` was read for a picture: to the bus, or kept where it is too early.
pub open spec fn on_sound(p: Passage, vpts: i64, apts: i64) -> (Passage, Seq<PassageAction>) {
    if apts > vpts + 300_000_000 {
        to_wait(Passage { pending: Some(apts), ..p }, vpts)
    } else {
        (
            Passage { stage: Stage::Pushing { vpts }, pending: None, ..p },
            seq![PassageAction::PushSound],
        )
    }
}

/// The passage is over.
pub open spec fn over(p: Passage, o: Outcome) -> (Passage, Seq<PassageAction>) {
    (Passage { stage: Stage::Over(o), ..p }, seq![])
}

/// The next state of a passage and the actions, in order. What does not belong to a stage changes
/// nothing.
pub open spec fn passage_step(p: Passage, input: PassageInput) -> (Passage, Seq<PassageAction>) {
    match (p.stage, input) {
        (_, PassageInput::NextOpened(ok)) => (
            Passage { next_ready: p.next_ready || ok, ..p },
            seq![],
        ),
        (Stage::Picture, PassageInput::Interrupt) => over(p, Outcome::Interrupted),
        (Stage::Picture, PassageInput::NoPicture) => (p, seq![PassageAction::ReadPicture]),
        (Stage::Picture, PassageInput::Picture(vpts)) => if p.has_sound && !p.sound_done {
            match p.pending {
                Some(apts) => on_sound(p, vpts, apts),
                None => (
                    Passage { stage: Stage::Sound { vpts }, ..p },
                    seq![PassageAction::ReadSound],
                ),
            }
        } else {
            to_wait(p, vpts)
        },
        (Stage::Picture, PassageInput::NoMorePictures) => if p.has_sound && !p.sound_done {
            match p.pending {
                Some(_) => (
                    Passage { stage: Stage::PushingRest, pending: None, ..p },
                    seq![PassageAction::PushSound],
                ),
                None => (Passage { stage: Stage::Rest, ..p }, seq![PassageAction::ReadSound]),
            }
        } else {
            (Passage { stage: Stage::Status, ..p }, seq![PassageAction::CheckStatus])
        },
        (Stage::Sound { vpts }, PassageInput::Sound(apts)) => on_sound(p, vpts, apts),
        (Stage::Sound { vpts }, PassageInput::NoMoreSound) => to_wait(
            Passage { sound_done: true, ..p },
            vpts,
        ),
        (Stage::Pushing { vpts }, PassageInput::Pushed) => (
            Passage { stage: Stage::Sound { vpts }, ..p },
            seq![PassageAction::ReadSound],
        ),
        (Stage::Pushing { .. }, PassageInput::Interrupt) => over(p, Outcome::Interrupted),
        (Stage::Waiting { .. }, PassageInput::Interrupt) => over(p, Outcome::Interrupted),
        (Stage::Waiting { vpts }, PassageInput::Due(now)) => if now < due(p, vpts) {
            to_wait(p, vpts)
        } else if now - due(p, vpts) > 200_000_000 {
            (
                Passage { stage: Stage::Picture, dropped: p.dropped.wrapping_add(1), ..p },
                seq![PassageAction::ReadPicture],
            )
        } else if p.next_ready || p.next_asked {
            (
                Passage { stage: Stage::Picture, shown: p.shown.wrapping_add(1), ..p },
                seq![PassageAction::Show, PassageAction::ReadPicture],
            )
        } else {
            (
                Passage {
                    stage: Stage::Picture,
                    shown: p.shown.wrapping_add(1),
                    next_asked: true,
                    ..p
                },
                seq![PassageAction::Show, PassageAction::OpenNext, PassageAction::ReadPicture],
            )
        },
        (Stage::Rest, PassageInput::Sound(_)) => (
            Passage { stage: Stage::PushingRest, ..p },
            seq![PassageAction::PushSound],
        ),
        (Stage::Rest, PassageInput::NoMoreSound) => (
            Passage { stage: Stage::Status, sound_done: true, ..p },
            seq![PassageAction::CheckStatus],
        ),
        (Stage::PushingRest, PassageInput::Pushed) => (
            Passage { stage: Stage::Rest, ..p },
            seq![PassageAction::ReadSound],
        ),
        (Stage::PushingRest, PassageInput::Interrupt) => (
            Passage { stage: Stage::Status, ..p },
            seq![PassageAction::CheckStatus],
        ),
        (Stage::Status, PassageInput::ReadFailed) => over(p, Outcome::Failed),
        (Stage::Status, PassageInput::ReadOver) => (
            Passage { stage: Stage::End, ..p },
            seq![PassageAction::WaitUntil(end_of(p) as u64)],
        ),
        (Stage::End, PassageInput::Interrupt) => over(p, Outcome::Interrupted),
        (Stage::End, PassageInput::Due(now)) => if now < end_of(p) {
            (p, seq![PassageAction::WaitUntil(end_of(p) as u64)])
        } else {
            over(p, Outcome::Done)
        },
        _ => (p, seq![]),
    }
}

/// Times of a passage can be counted.
pub open spec fn passage_wf(p: Passage) -> bool {
    &&& p.origin <= 0x3fff_ffff_ffff_ffff
    &&& p.duration <= 0x3fff_ffff_ffff_ffff
    &&& p.delay <= 80_000_000
    &&& (match p.stage {
        Stage::Sound { vpts } | Stage::Pushing { vpts } | Stage::Waiting { vpts } => vpts
            <= 0x3fff_ffff_ffff_ffff,
        _ => true,
    })
}

fn due_at(p: &Passage, vpts: i64) -> (r: u64)
    requires
        passage_wf(*p),
        vpts <= 0x3fff_ffff_ffff_ffff,
    ensures
        r == due(*p, vpts),
{
    let v: u64 = if vpts > 0 {
        vpts as u64
    } else {
        0
    };
    p.origin + p.delay + v
}

impl Passage {
    /// A passage that begins, and what it does first. The picture is delayed only with sound.
    pub fn new(origin: u64, duration: u64, has_sound: bool, next_ready: bool) -> (r: (
        Passage,
        PassageAction,
    ))
        requires
            origin <= 0x3fff_ffff_ffff_ffff,
            duration <= 0x3fff_ffff_ffff_ffff,
        ensures
            passage_wf(r.0),
            r.0 == (Passage {
                origin,
                duration,
                delay: if has_sound {
                    80_000_000
                } else {
                    0
                },
                has_sound,
                sound_done: !has_sound,
                pending: None,
                shown: 0,
                dropped: 0,
                next_ready,
                next_asked: false,
                stage: Stage::Picture,
            }),
            r.1 == PassageAction::ReadPicture,
    {
        (
            Passage {
                origin,
                duration,
                delay: if has_sound {
                    AV_DELAY
                } else {
                    0
                },
                has_sound,
                sound_done: !has_sound,
                pending: None,
                shown: 0,
                dropped: 0,
                next_ready,
                next_asked: false,
                stage: Stage::Picture,
            },
            PassageAction::ReadPicture,
        )
    }

    fn wait(&mut self, vpts: i64, out: &mut Vec<PassageAction>)
        requires
            passage_wf(*old(self)),
            vpts <= 0x3fff_ffff_ffff_ffff,
            old(out)@.len() == 0,
        ensures
            (*final(self), final(out)@) == to_wait(*old(self), vpts),
    {
        let t = due_at(self, vpts);
        self.stage = Stage::Waiting { vpts };
        out.push(PassageAction::WaitUntil(t));
        assert(out@ =~= to_wait(*old(self), vpts).1);
    }

    fn sound(&mut self, vpts: i64, apts: i64, out: &mut Vec<PassageAction>)
        requires
            passage_wf(*old(self)),
            vpts <= 0x3fff_ffff_ffff_ffff,
            old(out)@.len() == 0,
        ensures
            (*final(self), final(out)@) == on_sound(*old(self), vpts, apts),
    {
        if apts > vpts + AUDIO_LOOKAHEAD {
            self.pending = Some(apts);
            self.wait(vpts, out);
        } else {
            self.pending = None;
            self.stage = Stage::Pushing { vpts };
            out.push(PassageAction::PushSound);
        }
        assert(out@ =~= on_sound(*old(self), vpts, apts).1);
    }

    /// Takes what happened and says what to do.
    pub fn handle(&mut self, input: PassageInput) -> (r: Vec<PassageAction>)
        requires
            passage_wf(*old(self)),
            input matches PassageInput::Picture(vpts) ==> vpts <= 0x3fff_ffff_ffff_ffff,
        ensures
            passage_wf(*final(self)),
            (*final(self), r@) == passage_step(*old(self), input),
    {
        let mut out: Vec<PassageAction> = Vec::new();
        let ghost want = passage_step(*old(self), input);
        match (self.stage, input) {
            (_, PassageInput::NextOpened(ok)) => {
                self.next_ready = self.next_ready || ok;
            },
            (Stage::Picture, PassageInput::Interrupt) | (
                Stage::Pushing { .. },
                PassageInput::Interrupt,
            ) | (Stage::Waiting { .. }, PassageInput::Interrupt) | (
                Stage::End,
                PassageInput::Interrupt,
            ) => {
                self.stage = Stage::Over(Outcome::Interrupted);
            },
            (Stage::Picture, PassageInput::NoPicture) => {
                out.push(PassageAction::ReadPicture);
            },
            (Stage::Picture, PassageInput::Picture(vpts)) => {
                if self.has_sound && !self.sound_done {
                    match self.pending {
                        Some(apts) => {
                            self.sound(vpts, apts, &mut out);
                        },
                        None => {
                            self.stage = Stage::Sound { vpts };
                            out.push(PassageAction::ReadSound);
                        },
                    }
                } else {
                    self.wait(vpts, &mut out);
                }
            },
            (Stage::Picture, PassageInput::NoMorePictures) => {
                if self.has_sound && !self.sound_done {
                    if self.pending.is_some() {
                        self.pending = None;
                        self.stage = Stage::PushingRest;
                        out.push(PassageAction::PushSound);
                    } else {
                        self.stage = Stage::Rest;
                        out.push(PassageAction::ReadSound);
                    }
                } else {
                    self.stage = Stage::Status;
                    out.push(PassageAction::CheckStatus);
                }
            },
            (Stage::Sound { vpts }, PassageInput::Sound(apts)) => {
                self.sound(vpts, apts, &mut out);
            },
            (Stage::Sound { vpts }, PassageInput::NoMoreSound) => {
                self.sound_done = true;
                self.wait(vpts, &mut out);
            },
            (Stage::Pushing { vpts }, PassageInput::Pushed) => {
                self.stage = Stage::Sound { vpts };
                out.push(PassageAction::ReadSound);
            },
            (Stage::Waiting { vpts }, PassageInput::Due(now)) => {
                let t = due_at(self, vpts);
                if now < t {
                    self.wait(vpts, &mut out);
                } else if now - t > MAX_LATE {
                    self.dropped = self.dropped.wrapping_add(1);
                    self.stage = Stage::Picture;
                    out.push(PassageAction::ReadPicture);
                } else {
                    self.shown = self.shown.wrapping_add(1);
                    self.stage = Stage::Picture;
                    out.push(PassageAction::Show);
                    if !self.next_ready && !self.next_asked {
                        self.next_asked = true;
                        out.push(PassageAction::OpenNext);
                    }
                    out.push(PassageAction::ReadPicture);
                }
            },
            (Stage::Rest, PassageInput::Sound(_)) => {
                self.stage = Stage::PushingRest;
                out.push(PassageAction::PushSound);
            },
            (Stage::Rest, PassageInput::NoMoreSound) => {
                self.sound_done = true;
                self.stage = Stage::Status;
                out.push(PassageAction::CheckStatus);
            },
            (Stage::PushingRest, PassageInput::Pushed) => {
                self.stage = Stage::Rest;
                out.push(PassageAction::ReadSound);
            },
            (Stage::PushingRest, PassageInput::Interrupt) => {
                self.stage = Stage::Status;
                out.push(PassageAction::CheckStatus);
            },
            (Stage::Status, PassageInput::ReadFailed) => {
                self.stage = Stage::Over(Outcome::Failed);
            },
            (Stage::Status, PassageInput::ReadOver) => {
                self.stage = Stage::End;
                out.push(PassageAction::WaitUntil(self.origin + self.delay + self.duration));
            },
            (Stage::End, PassageInput::Due(now)) => {
                let end: u64 = self.origin + self.delay + self.duration;
                if now < end {
                    out.push(PassageAction::WaitUntil(end));
                } else {
                    self.stage = Stage::Over(Outcome::Done);
                }
            },
            _ => {},
        }
        assert(out@ =~= want.1);
        out
    }
}

/// A picture is shown only once it is due, and no more than a fifth of a second late.
pub proof fn pictures_are_on_time(p: Passage, input: PassageInput, i: int)
    requires
        0 <= i < passage_step(p, input).1.len(),
        passage_step(p, input).1[i] == PassageAction::Show,
    ensures
        p.stage is Waiting,
        input is Due,
        due(p, p.stage->Waiting_vpts) <= input->Due_0 <= due(p, p.stage->Waiting_vpts)
            + 200_000_000,
{
}

/// Sound goes to the bus no more than 300 ms ahead of the picture it was read for.
pub proof fn sound_is_not_too_early(p: Passage, vpts: i64, apts: i64)
    requires
        on_sound(p, vpts, apts).1.contains(PassageAction::PushSound),
    ensures
        apts <= vpts + 300_000_000,
{
    if apts > vpts + 300_000_000 {
        assert(on_sound(p, vpts, apts).1[0] is WaitUntil);
    }
}

/// The next passage is opened ahead once at most, after a picture was shown.
pub proof fn next_passage_is_opened_once(p: Passage, input: PassageInput)
    requires
        passage_step(p, input).1.contains(PassageAction::OpenNext),
    ensures
        !p.next_asked && !p.next_ready,
        passage_step(p, input).0.next_asked,
        passage_step(p, input).1[0] == PassageAction::Show,
{
}

/// A passage that is over does nothing more.
pub proof fn over_passage_rests(p: Passage, input: PassageInput)
    requires
        p.stage is Over,
    ensures
        passage_step(p, input).1.len() == 0,
        passage_step(p, input).0.stage == p.stage,
{
}

/// How long to sleep towards a time, in short steps; none once it has come.
pub fn wait_slice(now: u64, deadline: u64) -> (r: Option<u64>)
    ensures
        now >= deadline ==> r is None,
        now < deadline ==> r == Some(
            if deadline - now < 50_000_000 {
                (deadline - now) as u64
            } else {
                50_000_000
            },
        ),
{
    if now >= deadline {
        None
    } else if deadline - now < WAIT_SLICE {
        Some(deadline - now)
    } else {
        Some(WAIT_SLICE)
    }
}

/// A scene that leaves the air stops its video. While a passage plays, or waits to be tried again,
/// a stop that is not older than the last start leaves it and has the first segment made ready for
/// the next start; an older one changes nothing. Where nothing plays there is nothing to stop.
pub proof fn stop_ends_the_playing(l: PlayerLoop, generation: u64)
    ensures
        ({
            let s = loop_step(l, Input::Stop { generation });
            let running = l.phase is Playing || l.phase is Retrying;
            &&& s.0 == l.armed && s.1 == l.generation
            &&& running && generation >= l.generation ==> s.2 == (Phase::Arming {
                clear: true,
                rest: false,
            }) && s.3 == seq![Action::Arm]
            &&& !running || generation < l.generation ==> s.2 == l.phase && s.3.len() == 0
        }),
{
}

/// A scene that goes on the air starts its video from the beginning, whatever played before: at
/// once where the first segment is ready, and after opening it otherwise. The start is the one
/// that stops are held against, and the segment made ready is used up.
pub proof fn start_plays_from_the_beginning(l: PlayerLoop, generation: u64, now: u64)
    ensures
        ({
            let s = loop_step(l, Input::Start { generation, now });
            let heeded = l.phase is Idle || l.phase is Playing || l.phase is Retrying;
            &&& heeded ==> !s.0 && s.1 == generation
            &&& heeded && l.armed ==> s.2 == (Phase::Playing { idx: 0, origin: now }) && s.3.len()
                == 0
            &&& heeded && !l.armed ==> s.2 == (Phase::Opening { idx: 0, at: None }) && s.3 == seq![
                Action::Open(0),
            ]
            &&& !heeded ==> s.0 == l.armed && s.1 == l.generation && s.2 == l.phase && s.3.len()
                == 0
        }),
{
}

/// A video that is stopped and started again plays from its first picture at the time of the
/// start, without opening a file, where its first segment could be made ready in between.
pub proof fn stopped_video_starts_again_at_once(
    l: PlayerLoop,
    stop: u64,
    start: u64,
    now: u64,
)
    requires
        l.phase is Playing,
        stop >= l.generation,
    ensures
        ({
            let a = loop_step(l, Input::Stop { generation: stop });
            let b = step(a.0, a.1, a.2, l.repeats@, Input::Armed { ok: true });
            let c = step(
                b.0,
                b.1,
                b.2,
                l.repeats@,
                Input::Start { generation: start, now },
            );
            &&& b.2 is Idle
            &&& b.3.len() == 0
            &&& c.2 == (Phase::Playing { idx: 0, origin: now })
            &&& c.3.len() == 0
            &&& c.1 == start
        }),
{
}

/// The thread makes the first segment ready when it begins, and again whenever it rests without
/// one; it is then at rest, knows whether it succeeded, and takes the picture away where it did
/// not after a stop.
pub proof fn first_segment_is_made_ready(l: PlayerLoop, ok: bool)
    ensures
        l.phase is Idle ==> loop_step(l, Input::Begin).3 == seq![Action::Arm] && loop_step(
            l,
            Input::Begin,
        ).2 == (Phase::Arming { clear: false, rest: false }),
        l.phase is Idle && !l.armed ==> loop_step(l, Input::Tick).2 == (Phase::Arming {
            clear: false,
            rest: true,
        }),
        l.phase is Arming ==> {
            let s = loop_step(l, Input::Armed { ok });
            &&& s.0 == ok
            &&& s.1 == l.generation
            &&& s.2 is Idle
            &&& l.phase->rest ==> s.3 == seq![Action::Sleep(20_000_000)]
            &&& !l.phase->rest && !ok && l.phase->clear ==> s.3 == seq![Action::ClearSlot]
            &&& !l.phase->rest && (ok || !l.phase->clear) ==> s.3.len() == 0
        },
{
}

/// A segment that was opened plays, from the time set for it or else from now on; one that cannot
/// be opened leaves the thread at rest.
pub proof fn opened_segment_plays(l: PlayerLoop, ok: bool, now: u64)
    requires
        l.phase is Opening,
    ensures
        ({
            let s = loop_step(l, Input::Opened { ok, now });
            &&& s.0 == l.armed && s.1 == l.generation && s.3.len() == 0
            &&& ok && l.phase->at is Some ==> s.2 == (Phase::Playing {
                idx: l.phase->Opening_idx,
                origin: l.phase->at->0,
            })
            &&& ok && l.phase->at is None ==> s.2 == (Phase::Playing {
                idx: l.phase->Opening_idx,
                origin: now,
            })
            &&& !ok ==> s.2 is Idle
        }),
{
}

/// After a passage comes the same segment where it repeats, else the next one of the list, and
/// after the last one nothing: the thread is then at rest. The next one plays from the very end of
/// the one before, which lasts a millisecond at least; where that end is more than a tenth of a
/// second past, from now on. It is opened first where that was not done ahead.
pub proof fn passages_follow_the_list(
    l: PlayerLoop,
    duration: u64,
    now: u64,
    next_ready: bool,
)
    requires
        loop_wf(l),
        l.phase is Playing,
        l.phase->Playing_origin + duration <= u64::MAX - 200_000_000,
    ensures
        ({
            let idx = l.phase->Playing_idx;
            let s = loop_step(l, Input::Done { duration, now, next_ready });
            let lasted = if duration > 1_000_000 {
                duration as int
            } else {
                1_000_000
            };
            let end = l.phase->Playing_origin + lasted;
            let next = if l.repeats@[idx as int] {
                idx as int
            } else {
                idx + 1
            };
            &&& s.0 == l.armed && s.1 == l.generation
            &&& next >= l.repeats@.len() ==> s.2 is Idle && s.3.len() == 0
            &&& next < l.repeats@.len() && next_ready ==> {
                &&& s.2 is Playing && s.3.len() == 0
                &&& s.2->Playing_idx == next
                &&& now <= end + 100_000_000 ==> s.2->Playing_origin == end
                &&& now > end + 100_000_000 ==> s.2->Playing_origin == now
            }
            &&& next < l.repeats@.len() && !next_ready ==> {
                &&& s.2 is Opening && s.3 == seq![Action::Open(next as usize)]
                &&& s.2->Opening_idx == next
                &&& now <= end + 100_000_000 ==> s.2->at is Some && s.2->at->0 == end
                &&& now > end + 100_000_000 ==> s.2->at == Some(now)
            }
        }),
{
    assert(next_of(l.repeats@, l.phase->Playing_idx as int) matches Some(n) ==> 0 <= n
        < l.repeats@.len());
    assert(l.repeats.len() == l.repeats@.len());
}

/// A segment that cannot be read is tried again after a second, from the time it is open, where it
/// repeats; any other one leaves the thread at rest.
pub proof fn unreadable_loop_is_tried_again(l: PlayerLoop)
    requires
        l.phase is Playing,
    ensures
        ({
            let idx = l.phase->Playing_idx;
            let s = loop_step(l, Input::Failed);
            let again = step(s.0, s.1, s.2, l.repeats@, Input::RetryOver);
            &&& s.0 == l.armed && s.1 == l.generation
            &&& l.repeats@[idx as int] ==> s.2 == (Phase::Retrying { idx }) && s.3 == seq![
                Action::Sleep(1_000_000_000),
            ] && again == (
                l.armed,
                l.generation,
                Phase::Opening { idx, at: None },
                seq![Action::Open(idx)],
            )
            &&& !l.repeats@[idx as int] ==> s.2 is Idle && s.3.len() == 0
        }),
{
}

/// The thread can be ended at any time, and what is ended stays so, whatever happens.
pub proof fn quitting_ends_the_thread(l: PlayerLoop, input: Input)
    ensures
        loop_step(l, Input::Quit).2 is Ended,
        loop_step(l, Input::Quit).3.len() == 0,
        l.phase is Ended ==> loop_step(l, input).2 is Ended && loop_step(l, input).3.len() == 0,
{
}

/// What does not belong to where the thread stands changes nothing.
pub proof fn stray_events_change_nothing(l: PlayerLoop, input: Input)
    requires
        match input {
            Input::Begin | Input::Tick => !(l.phase is Idle),
            Input::Armed { .. } => !(l.phase is Arming),
            Input::Opened { .. } => !(l.phase is Opening),
            Input::Done { .. } | Input::Failed => !(l.phase is Playing),
            Input::RetryOver => !(l.phase is Retrying),
            _ => false,
        },
    ensures
        loop_step(l, input).0 == l.armed,
        loop_step(l, input).1 == l.generation,
        loop_step(l, input).2 == l.phase,
        loop_step(l, input).3.len() == 0,
{
}

/// A play list ends where its segments say, or where their files do; an end before the beginning,
/// or more than a millisecond past the file, is out of range, and nothing else is.
pub proof fn ranges_lie_in_their_files(s: Segment, p: Probe)
    ensures
        s.to is Some ==> segment_end(s, p) == s.to->0,
        s.to is None ==> segment_end(s, p) == p.duration,
        range_ok(s, p) <==> s.from < segment_end(s, p) && segment_end(s, p) - p.duration
            <= 1_000_000,
{
}

/// A setting for alpha is obeyed; without one, a single file with alpha is enough, and needed.
pub proof fn alpha_is_as_set_or_as_found(probes: Seq<Probe>, a: bool, i: int)
    ensures
        wants_alpha(Some(a), probes) == a,
        0 <= i < probes.len() && probes[i].has_alpha ==> wants_alpha(None, probes),
        (forall|j: int| 0 <= j < probes.len() ==> !(#[trigger] probes[j]).has_alpha)
            ==> !wants_alpha(None, probes),
{
}

/// A picture without sound still to be read waits until it is due: as long after the beginning of
/// the passage as its own time says, later by the delay of the picture.
pub proof fn silent_pictures_wait_for_their_time(p: Passage, vpts: i64)
    requires
        passage_wf(p),
        p.stage is Picture,
        vpts <= 0x3fff_ffff_ffff_ffff,
        !p.has_sound || p.sound_done,
    ensures
        ({
            let s = passage_step(p, PassageInput::Picture(vpts));
            let at = p.origin + p.delay + (if vpts < 0 {
                0
            } else {
                vpts as int
            });
            &&& s.0 == (Passage { stage: Stage::Waiting { vpts }, ..p })
            &&& s.1.len() == 1
            &&& s.1[0] is WaitUntil
            &&& s.1[0]->WaitUntil_0 == at
        }),
{
}

/// Sound goes before its picture. Sound up to 300 ms past the picture is taken to the bus, block
/// by block, and a block further on is kept for a later picture; then, or once there is no more
/// sound, the picture waits for its time. A block kept from before is looked at first.
pub proof fn sound_goes_before_its_picture(p: Passage, vpts: i64, apts: i64)
    requires
        passage_wf(p),
        vpts <= 0x3fff_ffff_ffff_ffff,
    ensures
        p.stage is Picture && p.has_sound && !p.sound_done && p.pending is None ==> passage_step(
            p,
            PassageInput::Picture(vpts),
        ) == (
            Passage { stage: Stage::Sound { vpts }, ..p },
            seq![PassageAction::ReadSound],
        ),
        ({
            let kept = p.stage is Picture && p.has_sound && !p.sound_done && p.pending == Some(
                apts,
            );
            let read = p.stage == (Stage::Sound { vpts });
            let at = p.origin + p.delay + (if vpts < 0 {
                0
            } else {
                vpts as int
            });
            let s = if kept {
                passage_step(p, PassageInput::Picture(vpts))
            } else {
                passage_step(p, PassageInput::Sound(apts))
            };
            &&& (kept || read) && apts - vpts <= 300_000_000 ==> s.0 == (Passage {
                stage: Stage::Pushing { vpts },
                pending: None,
                ..p
            }) && s.1 == seq![PassageAction::PushSound]
            &&& (kept || read) && apts - vpts > 300_000_000 ==> s.0 == (Passage {
                stage: Stage::Waiting { vpts },
                pending: Some(apts),
                ..p
            }) && s.1.len() == 1 && s.1[0] is WaitUntil && s.1[0]->WaitUntil_0 == at
        }),
        p.stage == (Stage::Pushing { vpts }) ==> passage_step(p, PassageInput::Pushed) == (
            Passage { stage: Stage::Sound { vpts }, ..p },
            seq![PassageAction::ReadSound],
        ),
        p.stage == (Stage::Sound { vpts }) ==> {
            let s = passage_step(p, PassageInput::NoMoreSound);
            &&& s.0 == (Passage { stage: Stage::Waiting { vpts }, sound_done: true, ..p })
            &&& s.1.len() == 1
            &&& s.1[0] is WaitUntil && s.1[0]->WaitUntil_0 == p.origin + p.delay + (if vpts < 0 {
                0
            } else {
                vpts as int
            })
        },
{
}

/// A picture that waits is shown once its time has come, unless it is more than a fifth of a
/// second late: then it is dropped. Either way the next one is read, and the picture is counted.
/// Before its time it goes on waiting. The first picture shown has the following passage opened
/// ahead, where that was not done or asked for yet.
pub proof fn due_pictures_are_shown(p: Passage, now: u64)
    requires
        passage_wf(p),
        p.stage is Waiting,
    ensures
        ({
            let vpts = p.stage->Waiting_vpts;
            let at = p.origin + p.delay + (if vpts < 0 {
                0
            } else {
                vpts as int
            });
            let s = passage_step(p, PassageInput::Due(now));
            let first = !p.next_ready && !p.next_asked;
            &&& now < at ==> s.0 == p && s.1.len() == 1 && s.1[0] is WaitUntil
                && s.1[0]->WaitUntil_0 == at
            &&& at <= now <= at + 200_000_000 ==> {
                &&& s.0 == (Passage {
                    stage: Stage::Picture,
                    shown: p.shown.wrapping_add(1),
                    next_asked: p.next_asked || first,
                    ..p
                })
                &&& !first ==> s.1 == seq![PassageAction::Show, PassageAction::ReadPicture]
                &&& first ==> s.1 == seq![
                    PassageAction::Show,
                    PassageAction::OpenNext,
                    PassageAction::ReadPicture,
                ]
            }
            &&& now > at + 200_000_000 ==> s == (
                Passage { stage: Stage::Picture, dropped: p.dropped.wrapping_add(1), ..p },
                seq![PassageAction::ReadPicture],
            )
        }),
{
}

/// After the last picture the sound that is left goes to the bus to its end, a kept block first;
/// then the reading is looked at. A command in the middle ends the sound, not the look.
pub proof fn rest_of_the_sound_is_played(p: Passage)
    ensures
        p.stage is Picture && p.has_sound && !p.sound_done && p.pending is Some ==> passage_step(
            p,
            PassageInput::NoMorePictures,
        ) == (
            Passage { stage: Stage::PushingRest, pending: None, ..p },
            seq![PassageAction::PushSound],
        ),
        p.stage is Picture && p.has_sound && !p.sound_done && p.pending is None ==> passage_step(
            p,
            PassageInput::NoMorePictures,
        ) == (Passage { stage: Stage::Rest, ..p }, seq![PassageAction::ReadSound]),
        p.stage is Picture && (!p.has_sound || p.sound_done) ==> passage_step(
            p,
            PassageInput::NoMorePictures,
        ) == (Passage { stage: Stage::Status, ..p }, seq![PassageAction::CheckStatus]),
        p.stage is Rest ==> forall|t: i64|
            #[trigger] passage_step(p, PassageInput::Sound(t)) == (
                Passage { stage: Stage::PushingRest, ..p },
                seq![PassageAction::PushSound],
            ),
        p.stage is Rest ==> passage_step(p, PassageInput::NoMoreSound) == (
            Passage { stage: Stage::Status, sound_done: true, ..p },
            seq![PassageAction::CheckStatus],
        ),
        p.stage is PushingRest ==> passage_step(p, PassageInput::Pushed) == (
            Passage { stage: Stage::Rest, ..p },
            seq![PassageAction::ReadSound],
        ),
        p.stage is PushingRest ==> passage_step(p, PassageInput::Interrupt) == (
            Passage { stage: Stage::Status, ..p },
            seq![PassageAction::CheckStatus],
        ),
{
}

/// A passage that was read to its end is done when its whole duration has passed, delay included,
/// and not before; one whose reading failed has failed.
pub proof fn passage_lasts_its_duration(p: Passage, now: u64)
    requires
        passage_wf(p),
    ensures
        p.stage is Status ==> {
            let s = passage_step(p, PassageInput::ReadOver);
            &&& s.0 == (Passage { stage: Stage::End, ..p })
            &&& s.1.len() == 1 && s.1[0] is WaitUntil
            &&& s.1[0]->WaitUntil_0 == p.origin + p.delay + p.duration
        },
        p.stage is Status ==> passage_step(p, PassageInput::ReadFailed).0 == (Passage {
            stage: Stage::Over(Outcome::Failed),
            ..p
        }),
        p.stage is End ==> {
            let s = passage_step(p, PassageInput::Due(now));
            let end = p.origin + p.delay + p.duration;
            &&& now >= end ==> s.0 == (Passage { stage: Stage::Over(Outcome::Done), ..p })
                && s.1.len() == 0
            &&& now < end ==> s.0 == p && s.1.len() == 1 && s.1[0] is WaitUntil
                && s.1[0]->WaitUntil_0 == end
        },
{
}

/// A command interrupts a passage wherever it waits or reads pictures, at once and without
/// another action.
pub proof fn commands_interrupt_a_passage(p: Passage)
    requires
        p.stage is Picture || p.stage is Pushing || p.stage is Waiting || p.stage is End,
    ensures
        passage_step(p, PassageInput::Interrupt).0 == (Passage {
            stage: Stage::Over(Outcome::Interrupted),
            ..p
        }),
        passage_step(p, PassageInput::Interrupt).1.len() == 0,
{
}

/// Something without a picture is passed over; that the following passage is open is remembered
/// at any time and changes nothing else. The timing of a passage never changes.
pub proof fn passage_keeps_its_timing(p: Passage, input: PassageInput, ok: bool)
    ensures
        p.stage is Picture ==> passage_step(p, PassageInput::NoPicture) == (
            p,
            seq![PassageAction::ReadPicture],
        ),
        passage_step(p, PassageInput::NextOpened(ok)) == (
            Passage { next_ready: p.next_ready || ok, ..p },
            Seq::<PassageAction>::empty(),
        ),
        passage_step(p, input).0.origin == p.origin,
        passage_step(p, input).0.duration == p.duration,
        passage_step(p, input).0.delay == p.delay,
        passage_step(p, input).0.has_sound == p.has_sound,
{
}

/// What does not belong to the stage of a passage changes nothing.
pub proof fn stray_inputs_leave_a_passage_alone(p: Passage, input: PassageInput)
    requires
        match input {
            PassageInput::Picture(_) | PassageInput::NoPicture | PassageInput::NoMorePictures => !(
            p.stage is Picture),
            PassageInput::Sound(_) | PassageInput::NoMoreSound => !(p.stage is Sound || p.stage is Rest),
            PassageInput::Pushed => !(p.stage is Pushing || p.stage is PushingRest),
            PassageInput::Due(_) => !(p.stage is Waiting || p.stage is End),
            PassageInput::ReadFailed | PassageInput::ReadOver => !(p.stage is Status),
            PassageInput::Interrupt => p.stage is Sound || p.stage is Rest || p.stage is Status
                || p.stage is Over,
            PassageInput::NextOpened(_) => false,
        },
    ensures
        passage_step(p, input) == (p, Seq::<PassageAction>::empty()),
{
}

/// A list is played exactly where it has segments and the range of each lies in its file; each is
/// then played from its beginning to its end, or to that of the file.
pub proof fn whole_lists_are_played(
    list: &Playlist,
    probes: &Vec<Probe>,
    r: Result<Checked, PlaylistError>,
    i: int,
)
    requires
        probes@.len() == list.segments@.len(),
        call_ensures(check_playlist, (list, probes), r),
        0 <= i < list.segments@.len(),
    ensures
        ({
            let s = list.segments@[i];
            let end = if s.to is Some {
                s.to->0
            } else {
                probes@[i].duration
            };
            let inside = s.from < end && end <= probes@[i].duration + 1_000_000;
            &&& r is Ok ==> inside && r->Ok_0.ranges@[i] == (Range {
                from: s.from,
                to: end,
                repeat: s.repeat,
            })
            &&& !inside ==> r is Err && r->Err_0 is Range && r->Err_0->0 <= i
        }),
        r is Err ==> r->Err_0 is Range,
{
    let s = list.segments@[i];
    if r is Ok {
        assert(r->Ok_0.ranges@[i] == (Range {
            from: s.from,
            to: segment_end(s, probes@[i]),
            repeat: s.repeat,
        }));
    }
}

/// A list without segments is never played.
pub proof fn empty_lists_are_refused(
    list: &Playlist,
    probes: &Vec<Probe>,
    r: Result<Checked, PlaylistError>,
)
    requires
        probes@.len() == list.segments@.len(),
        call_ensures(check_playlist, (list, probes), r),
    ensures
        list.segments@.len() == 0 <==> r is Err && r->Err_0 is Empty,
{
}

/// Commands reach the thread in the order in which they were given, each once, and interrupt what
/// plays until they are taken.
pub proof fn commands_reach_the_thread(
    c: &mut Ctl,
    cmd: Cmd,
    d: &mut Ctl,
    taken: Vec<Cmd>,
    e: &mut Ctl,
    again: Vec<Cmd>,
)
    requires
        call_ensures(Ctl::push, (c, cmd), ()),
        old(d).cmds@ == final(c).cmds@,
        old(d).wake == final(c).wake,
        call_ensures(Ctl::take, (d,), taken),
        old(e).cmds@ == final(d).cmds@,
        old(e).wake == final(d).wake,
        call_ensures(Ctl::take, (e,), again),
    ensures
        final(c).wake && final(c).stop == old(c).stop && final(c).generation == old(c).generation,
        taken@ == old(c).cmds@.push(cmd),
        !final(d).wake && final(d).stop == old(d).stop,
        again@.len() == 0,
{
}

/// The thread is interrupted by a waiting command and by the end, and by nothing else; once told to
/// end, it stays so.
pub proof fn ending_interrupts(c: &mut Ctl, i: &Ctl, r: bool)
    requires
        call_ensures(Ctl::quit, (c,), ()),
        call_ensures(Ctl::interrupted, (i,), r),
    ensures
        final(c).stop && final(c).wake,
        final(c).cmds@ == old(c).cmds@ && final(c).generation == old(c).generation,
        r <==> i.stop || i.wake,
{
}

/// A player that starts by itself has its start waiting; another one has nothing waiting.
pub proof fn players_start_by_themselves_if_told(autostart: bool, c: Ctl)
    requires
        call_ensures(Ctl::new, (autostart,), c),
    ensures
        c.wake == autostart && !c.stop && c.generation == 0,
        autostart ==> c.cmds@ == seq![Cmd::Start],
        !autostart ==> c.cmds@.len() == 0,
{
}

/// A stop that was put off does not kill a later start: it stops what was started when it was
/// asked for, so that after another start it is older than that.
pub proof fn put_off_stops_spare_later_starts(
    asked: &mut PlayerCtl,
    after: u64,
    stop: Option<DeferredStop>,
    restarted: &mut PlayerCtl,
    later: &mut PlayerCtl,
    l: PlayerLoop,
)
    requires
        after > 0,
        call_ensures(PlayerCtl::stop_after, (asked, after), stop),
        old(restarted).ctl.generation == final(asked).ctl.generation,
        old(restarted).ctl.generation < u64::MAX,
        call_ensures(PlayerCtl::start, (restarted,), ()),
        !old(later).ctl.stop,
        old(later).ctl.generation == final(restarted).ctl.generation,
        stop is Some ==> call_ensures(PlayerCtl::deferred, (later, stop->0), ()),
        l.phase is Playing,
        l.generation == final(restarted).ctl.generation,
    ensures
        *final(asked) == *old(asked),
        stop is Some && stop->0.after == after,
        final(restarted).ctl.cmds@ == old(restarted).ctl.cmds@.push(Cmd::Start),
        final(later).ctl.wake,
        final(later).ctl.cmds@ == old(later).ctl.cmds@.push(
            Cmd::Stop { generation: stop->0.generation },
        ),
        loop_step(l, Input::Stop { generation: stop->0.generation }).2 == l.phase,
{
}

/// A stop at once is given at once, and stops what was started last.
pub proof fn stops_are_given_at_once(
    asked: &mut PlayerCtl,
    stop: Option<DeferredStop>,
    l: PlayerLoop,
)
    requires
        call_ensures(PlayerCtl::stop_after, (asked, 0), stop),
        l.phase is Playing,
        l.generation == old(asked).ctl.generation,
    ensures
        stop is None,
        final(asked).ctl.wake,
        final(asked).ctl.cmds@ == old(asked).ctl.cmds@.push(
            Cmd::Stop { generation: l.generation },
        ),
        loop_step(l, Input::Stop { generation: l.generation }).2 is Arming,
{
}

/// A player that is gone takes no more stops.
pub proof fn gone_players_take_no_stops(p: &mut PlayerCtl, stop: DeferredStop)
    requires
        old(p).ctl.stop,
        call_ensures(PlayerCtl::deferred, (p, stop), ()),
    ensures
        *final(p) == *old(p),
{
}

/// A stop that is not older than the last start leaves the passage that plays, or waits to be
/// tried again, and makes the first one ready; an older one changes nothing.
pub proof fn stopping_leaves_the_passage(
    l: &mut PlayerLoop,
    generation: u64,
    r: Vec<Action>,
)
    requires
        call_ensures(PlayerLoop::handle, (l, Input::Stop { generation }), r),
    ensures
        ({
            let running = old(l).phase is Playing || old(l).phase is Retrying;
            &&& running && generation >= old(l).generation ==> final(l).phase is Arming && r@
                == seq![Action::Arm]
            &&& !running || generation < old(l).generation ==> final(l).phase == old(l).phase
                && r@.len() == 0
        }),
        final(l).armed == old(l).armed && final(l).generation == old(l).generation,
        final(l).repeats@ == old(l).repeats@,
{
}

/// A start plays from the first segment, at once where it is ready.
pub proof fn starting_plays_the_first_segment(
    l: &mut PlayerLoop,
    generation: u64,
    now: u64,
    r: Vec<Action>,
)
    requires
        call_ensures(PlayerLoop::handle, (l, Input::Start { generation, now }), r),
        old(l).phase is Idle || old(l).phase is Playing || old(l).phase is Retrying,
    ensures
        final(l).generation == generation && !final(l).armed,
        old(l).armed ==> final(l).phase == (Phase::Playing { idx: 0, origin: now }) && r@.len()
            == 0,
        !old(l).armed ==> final(l).phase == (Phase::Opening { idx: 0, at: None }) && r@ == seq![
            Action::Open(0),
        ],
{
}

/// A thread begins with nothing ready and nothing playing, and knows which segments repeat.
pub proof fn threads_begin_idle(ranges: &Vec<Range>, l: PlayerLoop, i: int)
    requires
        call_ensures(PlayerLoop::new, (ranges,), l),
        0 <= i < ranges@.len(),
    ensures
        !l.armed && l.generation == 0 && l.phase == Phase::Idle,
        l.repeats@.len() == ranges@.len(),
        l.repeats@[i] == ranges@[i].repeat,
{
}

/// A passage begins with its first picture. Its pictures are shown 80 ms late where it has sound,
/// which is then awaited, and in time where it has none.
pub proof fn passages_begin_with_a_picture(
    origin: u64,
    duration: u64,
    has_sound: bool,
    next_ready: bool,
    r: (Passage, PassageAction),
)
    requires
        call_ensures(Passage::new, (origin, duration, has_sound, next_ready), r),
    ensures
        r.1 == PassageAction::ReadPicture,
        r.0.stage == Stage::Picture,
        r.0.origin == origin && r.0.duration == duration,
        has_sound ==> r.0.delay == 80_000_000 && !r.0.sound_done,
        !has_sound ==> r.0.delay == 0 && r.0.sound_done,
        r.0.has_sound == has_sound && r.0.next_ready == next_ready,
        r.0.pending is None && r.0.shown == 0 && r.0.dropped == 0 && !r.0.next_asked,
{
}

/// Waiting takes slices of 50 ms at most and never goes past the time waited for; it is over then.
pub proof fn waiting_is_cut_in_slices(now: u64, deadline: u64, r: Option<u64>)
    requires
        call_ensures(wait_slice, (now, deadline), r),
    ensures
        r is None <==> now >= deadline,
        r is Some ==> 0 < r->0 <= 50_000_000 && now + r->0 <= deadline,
        r is Some && r->0 < 50_000_000 ==> now + r->0 == deadline,
{
}

} // verus!
