//! Windows: which screen they go to, clicks and keys, the pace of drawing, and the text over the
//! multiview. Times are in nanoseconds.

use crate::engine;
use crate::engine::{Effect, Engine, Stats};
use crate::layout;
use crate::layout::MultiviewLayout;
use crate::strings;
use vstd::prelude::*;

verus! {

/// What a window shows.
#[derive(Debug, Clone, Copy, PartialEq, Eq, Structural)]
pub enum Target {
    Program,
    Multiview,
}

/// A screen, as it is listed.
pub struct MonitorInfo {
    pub name: String,
    pub width: u32,
    pub height: u32,
    pub x: i32,
    pub y: i32,
}

/// Where a window stands.
#[derive(Debug, Clone, Copy, PartialEq, Eq, Structural)]
pub enum Placement {
    /// An ordinary window in the middle of a screen.
    Windowed,
    /// Full screen, as the system offers it.
    Fullscreen,
    /// A second screen covered by itself, above everything else.
    Exclusive,
}

/// The chosen screen, by its place in the list, and whether it is the one that was asked for.
#[derive(Debug, Clone, Copy)]
pub struct Pick {
    pub monitor: Option<usize>,
    pub matched: bool,
}

/// The operator's screen: the main one, else the first.
pub open spec fn primary_of(primary: Option<usize>, count: nat) -> Option<usize> {
    if primary is Some {
        primary
    } else if count > 0 {
        Some(0)
    } else {
        None
    }
}

/// The operator's screen.
pub fn primary_monitor(primary: Option<usize>, count: usize) -> (r: Option<usize>)
    ensures
        r == primary_of(primary, count as nat),
{
    match primary {
        Some(p) => Some(p),
        None => if count > 0 {
            Some(0)
        } else {
            None
        },
    }
}

/// The first screen whose name, in lower case, holds a text.
pub open spec fn named(names: Seq<Seq<char>>, low: Seq<char>, i: int) -> bool {
    &&& 0 <= i < names.len()
    &&& strings::has_text(names[i], low)
    &&& forall|j: int| 0 <= j < i ==> !strings::has_text(#[trigger] names[j], low)
}

/// Some screen's name holds a text.
pub open spec fn some_named(names: Seq<Seq<char>>, low: Seq<char>) -> bool {
    exists|i: int| 0 <= i < names.len() && strings::has_text(#[trigger] names[i], low)
}

/// The chosen screen. `sel` is its number or a part of its name, `low` the same in lower case,
/// `names` the names of the screens in lower case.
pub open spec fn is_pick(
    sel: Seq<char>,
    low: Seq<char>,
    names: Seq<Seq<char>>,
    prefer_secondary: bool,
    primary: Option<usize>,
    p: Pick,
) -> bool {
    let number = strings::parse_unsigned(sel, usize::MAX as nat);
    if sel.len() > 0 {
        if number is Some && number->0 < names.len() {
            p.monitor == Some(number->0 as usize) && p.matched
        } else if some_named(names, low) {
            p.matched && p.monitor is Some && named(names, low, p.monitor->0 as int)
        } else {
            p.monitor == primary && !p.matched
        }
    } else if prefer_secondary && primary is Some && names.len() > 0 && !(names.len() == 1
        && primary->0 == 0) {
        p.matched && p.monitor == Some(
            (if primary->0 == 0 {
                1usize
            } else {
                0usize
            }),
        )
    } else {
        p.monitor == primary && p.matched
    }
}

/// Chooses a screen, with the names already in lower case.
pub fn pick_lowered(
    sel: &str,
    low: &str,
    names: &Vec<String>,
    prefer_secondary: bool,
    primary: Option<usize>,
) -> (r: Pick)
    ensures
        is_pick(sel@, low@, strings::texts(names@), prefer_secondary, primary, r),
{
    let ghost all = strings::texts(names@);
    let s = strings::chars_of(sel);
    if s.len() > 0 {
        if let Some(n) = strings::parse_of(s.as_slice(), usize::MAX as u64) {
            if n < names.len() as u64 {
                return Pick { monitor: Some(n as usize), matched: true };
            }
        }
        let l = strings::chars_of(low);
        let mut i: usize = 0;
        while i < names.len()
            invariant
                i <= names@.len(),
                all == strings::texts(names@),
                l@ == low@,
                s@ == sel@,
                s@.len() > 0,
                !(strings::parse_unsigned(sel@, usize::MAX as nat) is Some
                    && strings::parse_unsigned(sel@, usize::MAX as nat)->0 < all.len()),
                forall|j: int| 0 <= j < i ==> !strings::has_text(#[trigger] all[j], low@),
            decreases names.len() - i,
        {
            let name = strings::chars_of(names[i].as_str());
            assert(all[i as int] == name@);
            if strings::contains(name.as_slice(), l.as_slice()) {
                assert(some_named(all, low@));
                return Pick { monitor: Some(i), matched: true };
            }
            i += 1;
        }
        return Pick { monitor: primary, matched: false };
    }
    if prefer_secondary {
        if let Some(p) = primary {
            if names.len() > 0 && !(names.len() == 1 && p == 0) {
                return Pick {
                    monitor: Some(
                        if p == 0 {
                            1
                        } else {
                            0
                        },
                    ),
                    matched: true,
                };
            }
        }
    }
    Pick { monitor: primary, matched: true }
}

/// Names in lower case.
pub open spec fn lowered(names: Seq<Seq<char>>) -> Seq<Seq<char>> {
    names.map_values(|n: Seq<char>| strings::lowercase(n))
}

/// Chooses the screen for a window: by number or part of the name, upper and lower case alike;
/// without a choice a second screen, where that is preferred and there is one, else the operator's.
pub fn pick_monitor(
    selector: &str,
    prefer_secondary: bool,
    names: &Vec<String>,
    primary: Option<usize>,
) -> (r: Pick)
    ensures
        is_pick(
            strings::trim(selector@),
            strings::lowercase(strings::trim(selector@)),
            lowered(strings::texts(names@)),
            prefer_secondary,
            primary,
            r,
        ),
{
    let c = strings::chars_of(selector);
    let t = strings::trim_of(c.as_slice());
    let sel = strings::string_of(t.as_slice());
    let low = strings::to_lowercase(sel.as_str());
    let mut low_names: Vec<String> = Vec::new();
    let mut i: usize = 0;
    while i < names.len()
        invariant
            i <= names@.len(),
            low_names@.len() == i,
            forall|j: int|
                0 <= j < i ==> (#[trigger] low_names@[j])@ == strings::lowercase(names@[j]@),
        decreases names.len() - i,
    {
        low_names.push(strings::to_lowercase(names[i].as_str()));
        i += 1;
    }
    assert(strings::texts(low_names@) =~= lowered(strings::texts(names@)));
    pick_lowered(sel.as_str(), low.as_str(), &low_names, prefer_secondary, primary)
}

/// Screen and place of a window that should cover its screen or not. `exclusive` where the system
/// can cover a screen by itself.
pub open spec fn decided(
    target: Target,
    cover: bool,
    pick: Pick,
    primary: Option<usize>,
    exclusive: bool,
) -> (Option<usize>, Placement) {
    if !cover {
        (pick.monitor, Placement::Windowed)
    } else if target == Target::Multiview {
        (pick.monitor, Placement::Fullscreen)
    } else if !pick.matched {
        (None, Placement::Windowed)
    } else if exclusive && pick.monitor is Some && pick.monitor != primary {
        (pick.monitor, Placement::Exclusive)
    } else {
        (pick.monitor, Placement::Fullscreen)
    }
}

/// Screen and place of a window. A programme whose screen is missing stays in a window: the
/// operator's screen is never covered in its place.
pub fn decide(
    target: Target,
    cover: bool,
    pick: Pick,
    primary: Option<usize>,
    exclusive: bool,
) -> (r: (Option<usize>, Placement))
    ensures
        r == decided(target, cover, pick, primary, exclusive),
{
    if !cover {
        return (pick.monitor, Placement::Windowed);
    }
    if target == Target::Multiview {
        return (pick.monitor, Placement::Fullscreen);
    }
    if !pick.matched {
        return (None, Placement::Windowed);
    }
    let second = match (pick.monitor, primary) {
        (Some(m), Some(p)) => m != p,
        (Some(_), None) => true,
        _ => false,
    };
    if exclusive && second {
        (pick.monitor, Placement::Exclusive)
    } else {
        (pick.monitor, Placement::Fullscreen)
    }
}

/// The operator's screen is never covered by itself, and a missing screen has nothing covered.
pub proof fn operator_keeps_the_screen(
    target: Target,
    cover: bool,
    pick: Pick,
    primary: Option<usize>,
    exclusive: bool,
)
    ensures
        decided(target, cover, pick, primary, exclusive).1 == Placement::Exclusive ==> decided(
            target,
            cover,
            pick,
            primary,
            exclusive,
        ).0 != primary,
        !pick.matched && target == Target::Program ==> decided(
            target,
            cover,
            pick,
            primary,
            exclusive,
        ).1 == Placement::Windowed,
{
}

/// A window.
#[derive(Debug, Clone, Copy)]
pub struct WindowState {
    pub target: Target,
    pub monitor: Option<usize>,
    pub placement: Placement,
    /// Should cover its screen.
    pub cover: bool,
}

/// What to do with a window.
#[derive(Debug, Clone, Copy, PartialEq, Eq, Structural)]
pub enum WindowAction {
    /// Fit the frame to the screen again.
    Refit,
    LeaveFullscreen,
    LeaveExclusive,
    Decorate(bool),
    ShowCursor(bool),
    /// Give it its size and put it in the middle of its screen.
    Center,
    EnterFullscreen,
    EnterExclusive,
    /// Draw at the pace of its screen.
    TakePace,
}

/// What leaving a place takes.
pub open spec fn leaving(p: Placement) -> Seq<WindowAction> {
    match p {
        Placement::Fullscreen => seq![WindowAction::LeaveFullscreen],
        Placement::Exclusive => seq![WindowAction::LeaveExclusive, WindowAction::Decorate(true)],
        Placement::Windowed => seq![],
    }
}

/// What taking a place takes.
pub open spec fn taking(p: Placement, monitor: Option<usize>, created: bool) -> Seq<WindowAction> {
    match p {
        Placement::Windowed => if monitor is Some {
            seq![WindowAction::ShowCursor(true), WindowAction::Center]
        } else {
            seq![WindowAction::ShowCursor(true)]
        },
        Placement::Fullscreen => if created {
            seq![WindowAction::ShowCursor(false)]
        } else {
            seq![WindowAction::ShowCursor(false), WindowAction::EnterFullscreen]
        },
        Placement::Exclusive => if monitor is Some {
            seq![
                WindowAction::Decorate(false),
                WindowAction::ShowCursor(false),
                WindowAction::EnterExclusive,
            ]
        } else {
            seq![WindowAction::Decorate(false), WindowAction::ShowCursor(false)]
        },
    }
}

/// A window put in a place, and what to do.
pub open spec fn placed(
    w: WindowState,
    monitor: Option<usize>,
    placement: Placement,
    created: bool,
) -> (WindowState, Seq<WindowAction>) {
    if !created && w.placement == placement && w.monitor == monitor {
        (
            w,
            if placement == Placement::Exclusive && monitor is Some {
                seq![WindowAction::Refit]
            } else {
                seq![]
            },
        )
    } else {
        (
            WindowState { placement, monitor, ..w },
            leaving(w.placement) + taking(placement, monitor, created) + (if w.target
                == Target::Program && monitor is Some {
                seq![WindowAction::TakePace]
            } else {
                seq![]
            }),
        )
    }
}

impl WindowState {
    /// A window was just made; it starts in full screen or as an ordinary window.
    pub fn new(target: Target, monitor: Option<usize>, placement: Placement, cover: bool) -> (r: Self)
        ensures
            r == (WindowState {
                target,
                monitor,
                placement: if placement == Placement::Fullscreen {
                    Placement::Fullscreen
                } else {
                    Placement::Windowed
                },
                cover,
            }),
    {
        WindowState {
            target,
            monitor,
            placement: if placement == Placement::Fullscreen {
                Placement::Fullscreen
            } else {
                Placement::Windowed
            },
            cover,
        }
    }

    /// Puts the window in a place.
    pub fn apply(&mut self, monitor: Option<usize>, placement: Placement, created: bool) -> (r: Vec<
        WindowAction,
    >)
        ensures
            (*final(self), r@) == placed(*old(self), monitor, placement, created),
    {
        let mut out: Vec<WindowAction> = Vec::new();
        let same_screen = match (self.monitor, monitor) {
            (Some(a), Some(b)) => a == b,
            (None, None) => true,
            _ => false,
        };
        if !created && self.placement == placement && same_screen {
            if placement == Placement::Exclusive && monitor.is_some() {
                out.push(WindowAction::Refit);
            }
            assert(out@ =~= placed(*old(self), monitor, placement, created).1);
            return out;
        }
        match self.placement {
            Placement::Fullscreen => {
                out.push(WindowAction::LeaveFullscreen);
            },
            Placement::Exclusive => {
                out.push(WindowAction::LeaveExclusive);
                out.push(WindowAction::Decorate(true));
            },
            Placement::Windowed => {},
        }
        match placement {
            Placement::Windowed => {
                out.push(WindowAction::ShowCursor(true));
                if monitor.is_some() {
                    out.push(WindowAction::Center);
                }
            },
            Placement::Fullscreen => {
                out.push(WindowAction::ShowCursor(false));
                if !created {
                    out.push(WindowAction::EnterFullscreen);
                }
            },
            Placement::Exclusive => {
                out.push(WindowAction::Decorate(false));
                out.push(WindowAction::ShowCursor(false));
                if monitor.is_some() {
                    out.push(WindowAction::EnterExclusive);
                }
            },
        }
        self.placement = placement;
        self.monitor = monitor;
        if self.target == Target::Program && monitor.is_some() {
            out.push(WindowAction::TakePace);
        }
        assert(out@ =~= placed(*old(self), monitor, placement, created).1);
        out
    }
}

/// Placing a window again where it already stands moves nothing.
pub proof fn placing_twice_moves_nothing(
    w: WindowState,
    monitor: Option<usize>,
    placement: Placement,
    created: bool,
)
    ensures
        ({
            let once = placed(w, monitor, placement, created).0;
            let again = placed(once, monitor, placement, false);
            &&& again.0 == once
            &&& forall|i: int|
                0 <= i < again.1.len() ==> #[trigger] again.1[i] == WindowAction::Refit
        }),
{
}

/// Time between two looks at the screens.
pub const MONITOR_POLL: u64 = 1_000_000_000;

/// Watch over the screens.
pub struct ScreenWatch {
    /// Name and place of each screen.
    pub screens: Vec<String>,
    pub at: u64,
}

/// Name and place of a screen, in a line.
pub open spec fn screen_text(m: MonitorInfo) -> Seq<char> {
    m.name@ + "@"@ + strings::signed_decimal(m.x as int) + ","@ + strings::signed_decimal(
        m.y as int,
    ) + " "@ + strings::decimal(m.width as nat) + "x"@ + strings::decimal(m.height as nat)
}

/// Name and place of a screen, in a line.
pub fn screen_line(m: &MonitorInfo) -> (r: String)
    ensures
        r@ == screen_text(*m),
{
    let mut out = m.name.clone();
    out.append("@");
    strings::push_signed(&mut out, m.x as i64);
    out.append(",");
    strings::push_signed(&mut out, m.y as i64);
    out.append(" ");
    strings::push_decimal(&mut out, m.width as u64);
    out.append("x");
    strings::push_decimal(&mut out, m.height as u64);
    out
}

fn same_lists(a: &Vec<String>, b: &Vec<String>) -> (r: bool)
    ensures
        r == (strings::texts(a@) == strings::texts(b@)),
{
    let ghost x = strings::texts(a@);
    let ghost y = strings::texts(b@);
    if a.len() != b.len() {
        assert(x.len() != y.len());
        return false;
    }
    let mut i: usize = 0;
    while i < a.len()
        invariant
            i <= a@.len(),
            a@.len() == b@.len(),
            x == strings::texts(a@),
            y == strings::texts(b@),
            forall|j: int| 0 <= j < i ==> x[j] == y[j],
        decreases a.len() - i,
    {
        if !strings::same_text(a[i].as_str(), b[i].as_str()) {
            assert(x[i as int] != y[i as int]);
            return false;
        }
        assert(x[i as int] == y[i as int]);
        i += 1;
    }
    assert(x =~= y);
    true
}

impl ScreenWatch {
    /// Time to look at the screens again.
    pub fn due(&mut self, now: u64) -> (r: bool)
        ensures
            r == (now >= old(self).at && now - old(self).at >= MONITOR_POLL),
            final(self).at == (if r {
                now
            } else {
                old(self).at
            }),
            final(self).screens == old(self).screens,
    {
        let due = now >= self.at && now - self.at >= MONITOR_POLL;
        if due {
            self.at = now;
        }
        due
    }

    /// The screens as they are now; true where something changed and windows have to be placed
    /// again.
    pub fn looked(&mut self, screens: Vec<String>) -> (r: bool)
        ensures
            r == (strings::texts(screens@) != strings::texts(old(self).screens@)),
            strings::texts(final(self).screens@) == strings::texts(screens@),
            final(self).at == old(self).at,
    {
        let changed = !same_lists(&screens, &self.screens);
        if changed {
            self.screens = screens;
        }
        changed
    }
}

/// Longest time between the two clicks of a double click.
pub const DOUBLE_CLICK: u64 = 400_000_000;

/// The last click on a tile.
pub struct Clicks {
    pub last: Option<(usize, u64)>,
}

/// A click on a tile is the second of a double click.
pub open spec fn is_double(last: Option<(usize, u64)>, tile: usize, now: u64) -> bool {
    match last {
        Some((t, at)) => t == tile && (now < at || now - at < DOUBLE_CLICK),
        None => false,
    }
}

impl Clicks {
    /// A click on the multiview: the scene under it goes to the preview, and with a double click
    /// to the programme.
    pub fn multiview_click(
        &mut self,
        engine: &mut Engine,
        places: &MultiviewLayout,
        x: i32,
        y: i32,
        now: u64,
    ) -> (r: Vec<Effect>)
        requires
            engine::engine_wf(*old(engine)),
        ensures
            engine::engine_wf(*final(engine)),
            (forall|j: int|
                0 <= j < places.tiles@.len() ==> !layout::inside(
                    #[trigger] places.tiles@[j],
                    x as int,
                    y as int,
                )) ==> *final(engine) == *old(engine) && r@.len() == 0 && *final(self) == *old(
                self,
            ),
            forall|i: usize|
                {
                    &&& i < places.tiles@.len()
                    &&& layout::inside(#[trigger] places.tiles@[i as int], x as int, y as int)
                    &&& forall|j: int|
                        0 <= j < i ==> !layout::inside(
                            #[trigger] places.tiles@[j],
                            x as int,
                            y as int,
                        )
                } ==> {
                    &&& final(self).last == Some((i, now))
                    &&& (*final(engine), r@) == (if is_double(old(self).last, i, now) {
                        engine::switched(*old(engine), i, true, now)
                    } else {
                        engine::previewed(*old(engine), i)
                    })
                },
    {
        match places.tile_at(x, y) {
            Some(tile) => {
                let double = match self.last {
                    Some((t, at)) => t == tile && (now < at || now - at < DOUBLE_CLICK),
                    None => false,
                };
                self.last = Some((tile, now));
                if double {
                    engine.transition_to(tile, now)
                } else {
                    engine.set_preview(tile)
                }
            },
            None => Vec::new(),
        }
    }
}

/// A key.
pub enum KeyPress {
    Character(String),
    Enter,
    Space,
    Escape,
    Other,
}

/// What a key asks for.
#[derive(Debug, Clone, Copy, PartialEq, Eq, Structural)]
pub enum KeyAction {
    /// Put a scene on the programme.
    Program(usize),
    Take,
    /// Cover the screen, or do not.
    Cover(bool),
    Quit,
    Nothing,
}

/// What a key asks for, in a window that covers its screen or not: a digit is the number of a
/// scene.
pub open spec fn key_action(key: KeyPress, cover: bool) -> KeyAction {
    match key {
        KeyPress::Character(c) => if c@.len() > 0 && '0' <= c@[0] <= '9' {
            if c@[0] == '0' {
                KeyAction::Nothing
            } else {
                KeyAction::Program((c@[0] as int - '1' as int) as usize)
            }
        } else if strings::ascii_lowercase(c@) == "f"@ {
            KeyAction::Cover(!cover)
        } else if strings::ascii_lowercase(c@) == "q"@ {
            KeyAction::Quit
        } else {
            KeyAction::Nothing
        },
        KeyPress::Enter | KeyPress::Space => KeyAction::Take,
        KeyPress::Escape => KeyAction::Cover(false),
        KeyPress::Other => KeyAction::Nothing,
    }
}

/// What a key asks for.
pub fn key(press: &KeyPress, cover: bool) -> (r: KeyAction)
    ensures
        r == key_action(*press, cover),
{
    match press {
        KeyPress::Character(c) => {
            let s = strings::chars_of(c.as_str());
            if s.len() > 0 && '0' <= s[0] && s[0] <= '9' {
                if s[0] == '0' {
                    KeyAction::Nothing
                } else {
                    KeyAction::Program((s[0] as u32 - '1' as u32) as usize)
                }
            } else {
                let low = strings::ascii_lowercase_of(s.as_slice());
                if strings::is_text(low.as_slice(), "f") {
                    KeyAction::Cover(!cover)
                } else if strings::is_text(low.as_slice(), "q") {
                    KeyAction::Quit
                } else {
                    KeyAction::Nothing
                }
            }
        },
        KeyPress::Enter | KeyPress::Space => KeyAction::Take,
        KeyPress::Escape => KeyAction::Cover(false),
        KeyPress::Other => KeyAction::Nothing,
    }
}

/// What closing a window does: the programme's ends the program.
pub fn close_ends(target: Target) -> (r: bool)
    ensures
        r == (target == Target::Program),
{
    target == Target::Program
}

/// Pace of drawing.
#[derive(Debug, Clone, Copy, PartialEq, Eq, Structural)]
pub struct FramePace {
    pub period: u64,
    pub next: u64,
}

/// The pace after a look at the clock, and whether to draw. Where a whole period was missed,
/// drawing goes on from now.
pub open spec fn paced(p: FramePace, now: u64) -> (FramePace, bool) {
    if now >= p.next {
        (
            FramePace {
                next: (if now - p.next > p.period {
                    now + p.period
                } else {
                    p.next + p.period
                }) as u64,
                ..p
            },
            true,
        )
    } else {
        (p, false)
    }
}

impl FramePace {
    /// Sixty pictures a second, until the screen's own pace is known.
    pub fn new(now: u64) -> (r: Self)
        ensures
            r == (FramePace { period: 16_667_000, next: now }),
    {
        FramePace { period: 16_667_000, next: now }
    }

    /// The pace of a screen, in thousandths of a hertz; one that is not known changes nothing.
    pub fn set_rate(&mut self, mhz: u32)
        ensures
            final(self).next == old(self).next,
            final(self).period == (if mhz > 0 {
                (1_000_000_000_000int + mhz as int / 2) / (mhz as int)
            } else {
                old(self).period as int
            }),
    {
        if mhz > 0 {
            proof {
                let n = 1_000_000_000_000int + mhz as int / 2;
                assert(0 <= n / (mhz as int) <= n) by (nonlinear_arith)
                    requires
                        n >= 0,
                        mhz > 0,
                ;
            }
            self.period = (1_000_000_000_000u64 + mhz as u64 / 2) / mhz as u64;
        }
    }

    /// Whether to draw now.
    pub fn tick(&mut self, now: u64) -> (r: bool)
        requires
            now + old(self).period <= u64::MAX,
        ensures
            (*final(self), r) == paced(*old(self), now),
    {
        if now >= self.next {
            self.next = if now - self.next > self.period {
                now + self.period
            } else {
                self.next + self.period
            };
            true
        } else {
            false
        }
    }
}

/// However late a picture was, the next one is due within a period.
pub proof fn drawing_catches_up(p: FramePace, now: u64)
    requires
        now >= p.next,
        now + p.period <= u64::MAX,
    ensures
        paced(p, now).0.next <= now + p.period,
        paced(p, now).0.next + p.period >= now,
        p.next + p.period >= now ==> paced(p, now).0.next == p.next + p.period,
{
}

/// A number with at least two digits.
pub open spec fn two_digits(n: nat) -> Seq<char> {
    if n < 10 {
        "0"@ + strings::decimal(n)
    } else {
        strings::decimal(n)
    }
}

/// A number with at least three digits.
pub open spec fn three_digits(n: nat) -> Seq<char> {
    if n < 100 {
        "0"@ + two_digits(n)
    } else {
        strings::decimal(n)
    }
}

/// Time of the day (UTC), to the millisecond, of a time since 1970.
pub open spec fn clock_text(ms: u64) -> Seq<char> {
    let s = (ms / 1000 % 86_400) as nat;
    two_digits(s / 3600) + ":"@ + two_digits(s / 60 % 60) + ":"@ + two_digits(s % 60) + "."@
        + three_digits((ms % 1000) as nat) + " UTC"@
}

fn push_two(out: &mut String, n: u64)
    ensures
        final(out)@ == old(out)@ + two_digits(n as nat),
{
    if n < 10 {
        out.append("0");
        strings::push_decimal(out, n);
        assert(out@ =~= old(out)@ + two_digits(n as nat));
    } else {
        strings::push_decimal(out, n);
    }
}

/// Text over the multiview: the statistics, and the clock where it is shown.
pub fn overlay_text(stats: &str, clock_ms: Option<u64>) -> (r: String)
    ensures
        r@ == (match clock_ms {
            Some(ms) => stats@ + " · "@ + clock_text(ms),
            None => stats@,
        }),
{
    let mut out = strings::text(stats);
    if let Some(ms) = clock_ms {
        let s: u64 = ms / 1000 % 86_400;
        let m: u64 = ms % 1000;
        out.append(" · ");
        let ghost head = out@;
        push_two(&mut out, s / 3600);
        out.append(":");
        push_two(&mut out, s / 60 % 60);
        out.append(":");
        push_two(&mut out, s % 60);
        out.append(".");
        let ghost before = out@;
        if m < 100 {
            out.append("0");
            push_two(&mut out, m);
        } else {
            strings::push_decimal(&mut out, m);
        }
        assert(out@ =~= before + three_digits(m as nat));
        out.append(" UTC");
        assert(out@ =~= head + clock_text(ms));
        assert(out@ =~= stats@ + " · "@ + clock_text(ms));
    }
    out
}

/// The measured numbers of the statistics, written out.
pub struct Numbers {
    pub phone_fps: String,
    pub rtp_mbps: String,
    pub loss: String,
    pub jitter: String,
    pub rtt: String,
    pub sent_fps: String,
    pub sent_mbps: String,
    pub render_fps: String,
}

/// The pieces of the statistics line.
pub open spec fn stats_parts(st: Stats, n: Numbers) -> Seq<Seq<char>> {
    (if st.phone_width > 0 {
        seq![
            "Tél. "@ + strings::decimal(st.phone_width as nat) + "x"@ + strings::decimal(
                st.phone_height as nat,
            ) + " "@ + n.phone_fps@ + " i/s"@,
        ]
    } else {
        seq![]
    }) + (match st.rtp {
        Some(r) => seq![
            r.codec@ + " "@ + n.rtp_mbps@ + " Mb/s"@,
            "perte "@ + n.loss@ + "% gigue "@ + n.jitter@ + " ms NACK "@ + strings::decimal(
                r.nack_count as nat,
            ) + " PLI "@ + strings::decimal(r.pli_count as nat),
        ] + (if r.rtt_ms_bits is Some {
            seq!["RTT "@ + n.rtt@ + " ms"@]
        } else {
            seq![]
        }),
        None => seq![],
    }) + (match st.phone {
        Some(p) => seq![
            "envoi "@ + strings::decimal(p.width as nat) + "x"@ + strings::decimal(p.height as nat)
                + " "@ + n.sent_fps@ + " i/s "@ + n.sent_mbps@ + " Mb/s limite:"@
                + p.quality_limitation@,
        ],
        None => seq![],
    }) + seq!["rendu "@ + n.render_fps@ + " i/s"@]
}

/// The statistics line: its pieces, with a dot between them.
pub open spec fn stats_line_text(st: Stats, n: Numbers) -> Seq<char> {
    strings::join(stats_parts(st, n), " · "@)
}

proof fn lemma_join_push(parts: Seq<Seq<char>>, p: Seq<char>, sep: Seq<char>)
    ensures
        strings::join(parts.push(p), sep) == (if parts.len() == 0 {
            p
        } else {
            strings::join(parts, sep) + sep + p
        }),
{
    assert(parts.push(p).drop_last() == parts);
}

/// A line and one more piece.
fn add_piece(out: &mut String, first: bool, piece: &str)
    ensures
        final(out)@ == (if first {
            old(out)@ + piece@
        } else {
            old(out)@ + " · "@ + piece@
        }),
{
    if !first {
        out.append(" · ");
    }
    out.append(piece);
}

/// The statistics line.
pub fn stats_line(st: &Stats, n: &Numbers) -> (r: String)
    ensures
        r@ == stats_line_text(*st, *n),
{
    let mut out = String::new();
    let ghost mut parts = Seq::<Seq<char>>::empty();
    let mut first = true;
    if st.phone_width > 0 {
        let mut s = strings::text("Tél. ");
        strings::push_decimal(&mut s, st.phone_width as u64);
        s.append("x");
        strings::push_decimal(&mut s, st.phone_height as u64);
        s.append(" ");
        s.append(n.phone_fps.as_str());
        s.append(" i/s");
        proof {
            lemma_join_push(parts, s@, " · "@);
        }
        add_piece(&mut out, first, s.as_str());
        proof {
            parts = parts.push(s@);
            assert(out@ =~= strings::join(parts, " · "@));
        }
        first = false;
    }
    assert(out@ =~= strings::join(parts, " · "@));
    if let Some(r) = &st.rtp {
        let mut s = r.codec.clone();
        s.append(" ");
        s.append(n.rtp_mbps.as_str());
        s.append(" Mb/s");
        proof {
            lemma_join_push(parts, s@, " · "@);
        }
        add_piece(&mut out, first, s.as_str());
        proof {
            parts = parts.push(s@);
            assert(out@ =~= strings::join(parts, " · "@));
        }
        first = false;
        let mut t = strings::text("perte ");
        t.append(n.loss.as_str());
        t.append("% gigue ");
        t.append(n.jitter.as_str());
        t.append(" ms NACK ");
        strings::push_decimal(&mut t, r.nack_count as u64);
        t.append(" PLI ");
        strings::push_decimal(&mut t, r.pli_count as u64);
        proof {
            lemma_join_push(parts, t@, " · "@);
        }
        add_piece(&mut out, first, t.as_str());
        proof {
            parts = parts.push(t@);
            assert(out@ =~= strings::join(parts, " · "@));
        }
        if r.rtt_ms_bits.is_some() {
            let mut u = strings::text("RTT ");
            u.append(n.rtt.as_str());
            u.append(" ms");
            proof {
                lemma_join_push(parts, u@, " · "@);
            }
            add_piece(&mut out, first, u.as_str());
            proof {
                parts = parts.push(u@);
                assert(out@ =~= strings::join(parts, " · "@));
            }
        }
    }
    if let Some(p) = &st.phone {
        let mut s = strings::text("envoi ");
        strings::push_decimal(&mut s, p.width as u64);
        s.append("x");
        strings::push_decimal(&mut s, p.height as u64);
        s.append(" ");
        s.append(n.sent_fps.as_str());
        s.append(" i/s ");
        s.append(n.sent_mbps.as_str());
        s.append(" Mb/s limite:");
        s.append(p.quality_limitation.as_str());
        proof {
            lemma_join_push(parts, s@, " · "@);
        }
        add_piece(&mut out, first, s.as_str());
        proof {
            parts = parts.push(s@);
            assert(out@ =~= strings::join(parts, " · "@));
        }
        first = false;
    }
    let mut s = strings::text("rendu ");
    s.append(n.render_fps.as_str());
    s.append(" i/s");
    proof {
        lemma_join_push(parts, s@, " · "@);
    }
    add_piece(&mut out, first, s.as_str());
    proof {
        parts = parts.push(s@);
        assert(out@ =~= strings::join(parts, " · "@));
        assert(parts =~= stats_parts(*st, *n));
    }
    out
}

/// The operator's screen is the main one where the system names it, else the first; without a
/// screen there is none.
pub proof fn operator_has_the_main_screen(primary: Option<usize>, count: nat)
    ensures
        primary is Some ==> primary_of(primary, count) == primary,
        primary is None && count > 0 ==> primary_of(primary, count) == Some(0usize),
        primary is None && count == 0 ==> primary_of(primary, count) is None,
{
}

/// A number chooses the screen with that number.
pub proof fn numbers_choose_screens(
    n: usize,
    low: Seq<char>,
    names: Seq<Seq<char>>,
    prefer_secondary: bool,
    primary: Option<usize>,
    p: Pick,
)
    requires
        n < names.len(),
        is_pick(strings::decimal(n as nat), low, names, prefer_secondary, primary, p),
    ensures
        p.monitor == Some(n),
        p.matched,
{
    strings::decimal_is_read_back(n as nat, usize::MAX as nat);
    strings::numbers_are_written_in_decimal(n as nat);
}

/// Another text chooses the first screen whose name holds it; where none does, the operator's
/// screen stands in, and is not the one that was asked for.
pub proof fn names_choose_screens(
    sel: Seq<char>,
    low: Seq<char>,
    names: Seq<Seq<char>>,
    prefer_secondary: bool,
    primary: Option<usize>,
    p: Pick,
    i: int,
)
    requires
        sel.len() > 0,
        strings::parse_unsigned(sel, usize::MAX as nat) is Some ==> strings::parse_unsigned(
            sel,
            usize::MAX as nat,
        )->0 >= names.len(),
        is_pick(sel, low, names, prefer_secondary, primary, p),
    ensures
        0 <= i < names.len() && strings::has_text(names[i], low) ==> p.matched && p.monitor is Some
            && p.monitor->0 <= i && strings::has_text(names[p.monitor->0 as int], low),
        (forall|j: int| 0 <= j < names.len() ==> !strings::has_text(#[trigger] names[j], low))
            ==> p.monitor == primary && !p.matched,
{
    if 0 <= i < names.len() && strings::has_text(names[i], low) {
        assert(some_named(names, low));
    }
}

/// Without a choice the window goes to the first screen that is not the operator's, where a second
/// one is preferred and there is one; else to the operator's.
pub proof fn second_screen_is_taken_if_preferred(
    low: Seq<char>,
    names: Seq<Seq<char>>,
    prefer_secondary: bool,
    primary: Option<usize>,
    p: Pick,
)
    requires
        is_pick(Seq::empty(), low, names, prefer_secondary, primary, p),
    ensures
        p.matched,
        !prefer_secondary || primary is None || names.len() == 0 ==> p.monitor == primary,
        prefer_secondary && primary == Some(0usize) && names.len() == 1 ==> p.monitor == primary,
        prefer_secondary && primary == Some(0usize) && names.len() > 1 ==> p.monitor == Some(
            1usize,
        ),
        prefer_secondary && primary is Some && primary->0 > 0 && names.len() > 0 ==> p.monitor
            == Some(0usize),
{
}

/// A window that should not cover its screen stands on it as an ordinary one. The multiview covers
/// its screen as the system offers it; so does a programme on the operator's screen. On another
/// screen the programme is above everything, where the system can do that.
pub proof fn windows_stand_as_asked(
    target: Target,
    pick: Pick,
    primary: Option<usize>,
    exclusive: bool,
)
    ensures
        decided(target, false, pick, primary, exclusive) == (pick.monitor, Placement::Windowed),
        decided(Target::Multiview, true, pick, primary, exclusive) == (
            pick.monitor,
            Placement::Fullscreen,
        ),
        !pick.matched ==> decided(Target::Program, true, pick, primary, exclusive) == (
            None::<usize>,
            Placement::Windowed,
        ),
        pick.matched && (pick.monitor == primary || pick.monitor is None || !exclusive) ==> decided(
            Target::Program,
            true,
            pick,
            primary,
            exclusive,
        ) == (pick.monitor, Placement::Fullscreen),
        pick.matched && pick.monitor is Some && pick.monitor != primary && exclusive ==> decided(
            Target::Program,
            true,
            pick,
            primary,
            exclusive,
        ) == (pick.monitor, Placement::Exclusive),
{
}

/// A window that moves leaves its place first and takes the new one then, and stands there; a
/// programme draws at the pace of its new screen.
pub proof fn windows_leave_before_they_take(
    w: WindowState,
    monitor: Option<usize>,
    placement: Placement,
    created: bool,
)
    requires
        created || w.placement != placement || w.monitor != monitor,
    ensures
        ({
            let (after, acts) = placed(w, monitor, placement, created);
            let moved = leaving(w.placement) + taking(placement, monitor, created);
            &&& after.placement == placement && after.monitor == monitor
            &&& after.target == w.target && after.cover == w.cover
            &&& w.target == Target::Program && monitor is Some ==> acts == moved.push(
                WindowAction::TakePace,
            )
            &&& w.target != Target::Program || monitor is None ==> acts == moved
        }),
{
}

/// Full screen is left as it was entered; a window that was above everything has its frame back.
pub proof fn places_are_left_as_they_were_taken()
    ensures
        leaving(Placement::Windowed).len() == 0,
        leaving(Placement::Fullscreen) == seq![WindowAction::LeaveFullscreen],
        leaving(Placement::Exclusive) == seq![
            WindowAction::LeaveExclusive,
            WindowAction::Decorate(true),
        ],
{
}

/// An ordinary window has the pointer, in the middle of its screen where it has one. Full screen
/// and above everything there is none; full screen need not be entered by a window that was made in
/// it, and a window above everything has no frame.
pub proof fn places_are_taken(monitor: Option<usize>, created: bool, m: usize)
    ensures
        taking(Placement::Windowed, Some(m), created) == seq![
            WindowAction::ShowCursor(true),
            WindowAction::Center,
        ],
        taking(Placement::Windowed, None, created) == seq![WindowAction::ShowCursor(true)],
        taking(Placement::Fullscreen, monitor, true) == seq![WindowAction::ShowCursor(false)],
        taking(Placement::Fullscreen, monitor, false) == seq![
            WindowAction::ShowCursor(false),
            WindowAction::EnterFullscreen,
        ],
        taking(Placement::Exclusive, Some(m), created) == seq![
            WindowAction::Decorate(false),
            WindowAction::ShowCursor(false),
            WindowAction::EnterExclusive,
        ],
        taking(Placement::Exclusive, None, created) == seq![
            WindowAction::Decorate(false),
            WindowAction::ShowCursor(false),
        ],
{
}

/// A window above everything is fitted to its screen again when it is placed where it stands;
/// another one is left alone.
pub proof fn standing_windows_are_fitted_again(w: WindowState)
    ensures
        placed(w, w.monitor, w.placement, false).0 == w,
        w.placement == Placement::Exclusive && w.monitor is Some ==> placed(
            w,
            w.monitor,
            w.placement,
            false,
        ).1 == seq![WindowAction::Refit],
        w.placement != Placement::Exclusive || w.monitor is None ==> placed(
            w,
            w.monitor,
            w.placement,
            false,
        ).1.len() == 0,
{
}

/// A screen is told from another by its name, its place and its size.
pub proof fn screens_are_told_apart(m: MonitorInfo)
    ensures
        screen_text(m) == m.name@ + "@"@ + strings::signed_decimal(m.x as int) + ","@
            + strings::signed_decimal(m.y as int) + " "@ + strings::decimal(m.width as nat) + "x"@
            + strings::decimal(m.height as nat),
{
}

/// Two clicks on one tile within 0.4 seconds are a double click, and no others are.
pub proof fn double_clicks_are_quick(t: usize, at: u64, tile: usize, now: u64)
    ensures
        t == tile && at <= now < at + 400_000_000 ==> is_double(Some((t, at)), tile, now),
        now >= at + 400_000_000 ==> !is_double(Some((t, at)), tile, now),
        t != tile ==> !is_double(Some((t, at)), tile, now),
        !is_double(None, tile, now),
{
}

/// The digits from one on put their scene on the programme; the line feed and the space bar take;
/// `f` covers the screen or uncovers it, the escape key uncovers it, `q` quits; nothing else does
/// anything.
pub proof fn keys_are_bound(s: String, cover: bool)
    ensures
        ({
            let c = s@;
            let a = key_action(KeyPress::Character(s), cover);
            &&& c.len() > 0 && '1' <= c[0] <= '9' ==> a == KeyAction::Program(
                (c[0] as int - 49) as usize,
            )
            &&& c.len() > 0 && c[0] == '0' ==> a == KeyAction::Nothing
            &&& c.len() == 1 && (c[0] == 'f' || c[0] == 'F') ==> a == KeyAction::Cover(!cover)
            &&& c.len() == 1 && (c[0] == 'q' || c[0] == 'Q') ==> a == KeyAction::Quit
            &&& c.len() == 1 && !('0' <= c[0] <= '9') && c[0] != 'f' && c[0] != 'F' && c[0] != 'q'
                && c[0] != 'Q' ==> a == KeyAction::Nothing
            &&& c.len() != 1 && (c.len() == 0 || !('0' <= c[0] <= '9')) ==> a == KeyAction::Nothing
        }),
        key_action(KeyPress::Enter, cover) == KeyAction::Take,
        key_action(KeyPress::Space, cover) == KeyAction::Take,
        key_action(KeyPress::Escape, cover) == KeyAction::Cover(false),
        key_action(KeyPress::Other, cover) == KeyAction::Nothing,
{
    let c = s@;
    let low = strings::ascii_lowercase(c);
    reveal_strlit("f");
    reveal_strlit("q");
    assert("f"@.len() == 1 && "f"@[0] == 'f' && "q"@.len() == 1 && "q"@[0] == 'q');
    assert(low.len() == c.len());
    if c.len() == 1 {
        strings::lemma_ascii_lower_is(c[0], 'f', 'F');
        strings::lemma_ascii_lower_is(c[0], 'q', 'Q');
        assert(low[0] == strings::ascii_lower(c[0]));
        if c[0] == 'f' || c[0] == 'F' {
            assert(low =~= "f"@);
        }
        if c[0] == 'q' || c[0] == 'Q' {
            assert(low =~= "q"@);
        }
    }
}

/// A picture is drawn once it is due, and not before; the next one is due a period later, and a
/// period from now where more than that was missed.
pub proof fn pictures_are_drawn_when_due(p: FramePace, now: u64)
    requires
        now + p.period <= u64::MAX,
    ensures
        paced(p, now).1 <==> now >= p.next,
        paced(p, now).0.period == p.period,
        now < p.next ==> paced(p, now).0 == p,
        p.next <= now <= p.next + p.period ==> paced(p, now).0.next == p.next + p.period,
        now > p.next + p.period ==> paced(p, now).0.next == now + p.period,
{
}

/// The clock shows hours, minutes, seconds and thousandths of the day, each with its full number of
/// digits.
pub proof fn clock_shows_the_time_of_day(h: nat, m: nat, s: nat, ms: nat, days: nat, t: u64)
    requires
        h < 24,
        m < 60,
        s < 60,
        ms < 1000,
        t == (((days * 24 + h) * 60 + m) * 60 + s) * 1000 + ms,
    ensures
        clock_text(t) == two_digits(h) + ":"@ + two_digits(m) + ":"@ + two_digits(s) + "."@
            + three_digits(ms) + " UTC"@,
        two_digits(h).len() == 2 && two_digits(m).len() == 2 && two_digits(s).len() == 2,
        three_digits(ms).len() == 3,
{
    let day = (h * 60 + m) * 60 + s;
    assert(t as int / 1000 == days * 86_400 + day);
    assert(t / 1000 % 86_400 == day);
    assert(t % 1000 == ms);
    assert(day / 3600 == h);
    assert(day / 60 == h * 60 + m);
    assert(day / 60 % 60 == m);
    assert(day % 60 == s);
    lemma_two_digits(h);
    lemma_two_digits(m);
    lemma_two_digits(s);
    lemma_three_digits(ms);
}

proof fn lemma_two_digits(n: nat)
    requires
        n < 100,
    ensures
        two_digits(n).len() == 2,
{
    reveal_strlit("0");
    reveal_with_fuel(strings::decimal, 3);
}

proof fn lemma_three_digits(n: nat)
    requires
        n < 1000,
    ensures
        three_digits(n).len() == 3,
{
    reveal_strlit("0");
    reveal_with_fuel(strings::decimal, 4);
    if n < 100 {
        lemma_two_digits(n);
    }
}

/// Two and three digits end in the number's own, with nothing but zeros before them.
pub proof fn digits_are_filled_with_zeros(n: nat)
    ensures
        n < 10 ==> two_digits(n) == "0"@ + strings::decimal(n),
        n >= 10 ==> two_digits(n) == strings::decimal(n),
        n < 10 ==> three_digits(n) == "0"@ + ("0"@ + strings::decimal(n)),
        10 <= n < 100 ==> three_digits(n) == "0"@ + strings::decimal(n),
        n >= 100 ==> three_digits(n) == strings::decimal(n),
{
}

/// The statistics line tells of the phone's picture once there is one, of the reception and the
/// round trip where they are known, of what the phone sends where it says so, and always, last, of
/// the drawing; with a dot between them.
pub proof fn statistics_tell_what_is_known(st: Stats, n: Numbers)
    ensures
        ({
            let parts = stats_parts(st, n);
            let seen: int = if st.phone_width > 0 {
                1
            } else {
                0
            };
            let received: int = match st.rtp {
                Some(r) => if r.rtt_ms_bits is Some {
                    3
                } else {
                    2
                },
                None => 0,
            };
            let sent: int = if st.phone is Some {
                1
            } else {
                0
            };
            &&& stats_line_text(st, n) == strings::join(parts, " · "@)
            &&& parts.len() == seen + received + sent + 1
            &&& parts.last() == "rendu "@ + n.render_fps@ + " i/s"@
            &&& st.phone_width > 0 ==> parts[0] == "Tél. "@ + strings::decimal(
                st.phone_width as nat,
            ) + "x"@ + strings::decimal(st.phone_height as nat) + " "@ + n.phone_fps@ + " i/s"@
            &&& st.rtp is Some ==> parts[seen] == (st.rtp->0).codec@ + " "@ + n.rtp_mbps@
                + " Mb/s"@
            &&& st.rtp is Some ==> parts[seen + 1] == "perte "@ + n.loss@ + "% gigue "@ + n.jitter@
                + " ms NACK "@ + strings::decimal((st.rtp->0).nack_count as nat) + " PLI "@
                + strings::decimal((st.rtp->0).pli_count as nat)
            &&& received == 3 ==> parts[seen + 2] == "RTT "@ + n.rtt@ + " ms"@
            &&& st.phone is Some ==> parts[seen + received] == "envoi "@ + strings::decimal(
                (st.phone->0).width as nat,
            ) + "x"@ + strings::decimal((st.phone->0).height as nat) + " "@ + n.sent_fps@
                + " i/s "@ + n.sent_mbps@ + " Mb/s limite:"@ + (st.phone->0).quality_limitation@
        }),
{
}

/// Closing the programme's window ends the program; closing the multiview's does not.
pub proof fn closing_the_programme_ends(r: bool, q: bool)
    requires
        call_ensures(close_ends, (Target::Program,), r),
        call_ensures(close_ends, (Target::Multiview,), q),
    ensures
        r,
        !q,
{
}

/// The pace of a screen is the nearest whole number of nanoseconds to its period.
pub proof fn pace_is_that_of_the_screen(p: &mut FramePace, mhz: u32, r: ())
    requires
        call_ensures(FramePace::set_rate, (p, mhz), r),
    ensures
        final(p).next == old(p).next,
        mhz == 0 ==> final(p).period == old(p).period,
        mhz > 0 ==> final(p).period * mhz <= 1_000_000_000_000 + mhz / 2,
        mhz > 0 ==> (final(p).period + 1) * mhz > 1_000_000_000_000 + mhz / 2,
{
    if mhz > 0 {
        let n = 1_000_000_000_000int + mhz as int / 2;
        assert(n / (mhz as int) * mhz <= n < (n / (mhz as int) + 1) * mhz) by (nonlinear_arith)
            requires
                n >= 0,
                mhz > 0,
        ;
    }
}

/// The screens are looked at once a second; what has changed since the last look is noticed once.
pub proof fn screens_are_watched(
    w: &mut ScreenWatch,
    now: u64,
    due: bool,
    v: &mut ScreenWatch,
    screens: Vec<String>,
    changed: bool,
)
    requires
        call_ensures(ScreenWatch::due, (w, now), due),
        call_ensures(ScreenWatch::looked, (v, screens), changed),
    ensures
        due <==> now >= old(w).at + 1_000_000_000,
        due ==> final(w).at == now,
        !due ==> final(w).at == old(w).at,
        final(w).screens == old(w).screens,
        changed <==> strings::texts(screens@) != strings::texts(old(v).screens@),
        strings::texts(final(v).screens@) == strings::texts(screens@),
        final(v).at == old(v).at,
{
}

/// A click on a tile puts its scene on the preview, a second one within 0.4 s on the programme with
/// the configured transition; a click beside the tiles does nothing.
pub proof fn clicks_choose_scenes(
    c: &mut Clicks,
    engine: &mut Engine,
    places: &MultiviewLayout,
    x: i32,
    y: i32,
    now: u64,
    r: Vec<Effect>,
    i: usize,
)
    requires
        i < places.tiles@.len(),
        layout::inside(places.tiles@[i as int], x as int, y as int),
        forall|j: int|
            0 <= j < i ==> !layout::inside(#[trigger] places.tiles@[j], x as int, y as int),
        call_ensures(Clicks::multiview_click, (c, engine, places, x, y, now), r),
    ensures
        final(c).last == Some((i, now)),
        ({
            let quick = old(c).last is Some && (old(c).last->0).0 == i && now < (old(c).last->0).1
                + 400_000_000;
            &&& quick ==> (*final(engine), r@) == engine::switched(*old(engine), i, true, now)
            &&& !quick ==> (*final(engine), r@) == engine::previewed(*old(engine), i)
        }),
{
    assert(layout::inside(places.tiles@[i as int], x as int, y as int));
}

/// A window is made in full screen or as an ordinary one.
pub proof fn windows_are_made_plain(
    target: Target,
    monitor: Option<usize>,
    placement: Placement,
    cover: bool,
    w: WindowState,
)
    requires
        call_ensures(WindowState::new, (target, monitor, placement, cover), w),
    ensures
        w.target == target && w.monitor == monitor && w.cover == cover,
        placement == Placement::Fullscreen ==> w.placement == Placement::Fullscreen,
        placement != Placement::Fullscreen ==> w.placement == Placement::Windowed,
{
}

/// The text over the multiview is the statistics, with the clock behind them where it is shown.
pub proof fn clock_stands_behind_the_statistics(stats: &str, ms: Option<u64>, r: String)
    requires
        call_ensures(overlay_text, (stats, ms), r),
    ensures
        ms is None ==> r@ == stats@,
        ms is Some ==> r@ == stats@ + " · "@ + clock_text(ms->0),
{
}

} // verus!
