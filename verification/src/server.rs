//! Rules of the web server: control messages, and the conversation with a phone on its socket.

use crate::config::Config;
use crate::engine;
use crate::engine::{AudioSetup, Effect, Engine};
use crate::signaling::{ClientMsg, PhoneStats, ServerConfig, ServerMsg};
use crate::strings;
use vstd::prelude::*;

verus! {

/// A request of the control page.
#[derive(Debug)]
pub enum ControlMsg {
    Program { scene: String },
    Cut { scene: String },
    Preview { scene: String },
    Take,
    /// Routes a source (`stream`, `branding` or `return`) to other channels.
    AudioRoute { target: String, channels: Vec<usize> },
}

/// The switcher after a request about scenes, what to do, and whether the scene is known.
pub open spec fn controlled(e: Engine, cmd: ControlMsg, now: u64) -> (Engine, Seq<Effect>, bool) {
    match cmd {
        ControlMsg::Program { scene } => match engine::scene_with(e.scenes@, scene@) {
            Some(i) => {
                let (s, f) = engine::switched(e, i, true, now);
                (s, f, true)
            },
            None => (e, seq![], false),
        },
        ControlMsg::Cut { scene } => match engine::scene_with(e.scenes@, scene@) {
            Some(i) => {
                let (s, f) = engine::switched(e, i, false, now);
                (s, f, true)
            },
            None => (e, seq![], false),
        },
        ControlMsg::Preview { scene } => match engine::scene_with(e.scenes@, scene@) {
            Some(i) => {
                let (s, f) = engine::previewed(e, i);
                (s, f, true)
            },
            None => (e, seq![], false),
        },
        ControlMsg::Take => {
            let (s, f) = engine::taken(e, now);
            (s, f, true)
        },
        ControlMsg::AudioRoute { .. } => (e, seq![], true),
    }
}

/// Performs a request; false for an unknown scene or source.
pub fn apply_control(
    engine: &mut Engine,
    audio: &mut AudioSetup,
    cmd: &ControlMsg,
    now: u64,
) -> (r: (Vec<Effect>, bool))
    requires
        engine::engine_wf(*old(engine)),
    ensures
        engine::engine_wf(*final(engine)),
        (*final(engine), (r.0)@) == (
            controlled(*old(engine), *cmd, now).0,
            controlled(*old(engine), *cmd, now).1,
        ),
        (match cmd {
            ControlMsg::AudioRoute { target, channels } => engine::rerouted(
                *old(audio),
                target@,
                channels@,
                *final(audio),
                r.1,
            ),
            _ => *final(audio) == *old(audio) && r.1 == controlled(*old(engine), *cmd, now).2,
        }),
{
    match cmd {
        ControlMsg::Program { scene } => match engine.scene_index(scene.as_str()) {
            Some(i) => (engine.transition_to(i, now), true),
            None => (no_effects(), false),
        },
        ControlMsg::Cut { scene } => match engine.scene_index(scene.as_str()) {
            Some(i) => (engine.cut(i, now), true),
            None => (no_effects(), false),
        },
        ControlMsg::Preview { scene } => match engine.scene_index(scene.as_str()) {
            Some(i) => (engine.set_preview(i), true),
            None => (no_effects(), false),
        },
        ControlMsg::Take => (engine.take(now), true),
        ControlMsg::AudioRoute { target, channels } => {
            let done = audio.set_audio_route(target.as_str(), channels.as_slice());
            (no_effects(), done)
        },
    }
}

fn no_effects() -> (r: Vec<Effect>)
    ensures
        r@ == Seq::<Effect>::empty(),
{
    Vec::new()
}

/// A request for a scene by its identifier reaches the first scene that bears it.
pub proof fn known_scenes_are_reached(e: Engine, i: usize, scene: String, now: u64)
    requires
        engine::engine_wf(e),
        engine::is_scene(e.scenes@, scene@, i as int),
        e.scenes@.len() <= usize::MAX,
    ensures
        controlled(e, ControlMsg::Program { scene }, now).0.program == i,
        controlled(e, ControlMsg::Cut { scene }, now).0.program == i,
        controlled(e, ControlMsg::Preview { scene }, now).0.preview == i,
        controlled(e, ControlMsg::Program { scene }, now).2,
{
    let k = choose|k: int| engine::is_scene(e.scenes@, scene@, k);
    assert(engine::is_scene(e.scenes@, scene@, k));
    assert(e.scenes@[k].id@ == scene@);
    assert(e.scenes@[i as int].id@ == scene@);
    assert(k == i);
}

/// A request for an unknown scene changes nothing.
pub proof fn unknown_scenes_change_nothing(e: Engine, scene: String, now: u64)
    requires
        forall|j: int| 0 <= j < e.scenes@.len() ==> (#[trigger] e.scenes@[j]).id@ != scene@,
    ensures
        controlled(e, ControlMsg::Program { scene }, now) == (e, Seq::<Effect>::empty(), false),
        controlled(e, ControlMsg::Cut { scene }, now) == (e, Seq::<Effect>::empty(), false),
        controlled(e, ControlMsg::Preview { scene }, now) == (e, Seq::<Effect>::empty(), false),
{
    assert forall|i: int| !engine::is_scene(e.scenes@, scene@, i) by {
        if 0 <= i < e.scenes@.len() {
            assert(e.scenes@[i].id@ != scene@);
        }
    }
}

/// Status of an answer: not found for an unknown scene.
pub fn api_result(ok: bool) -> (r: u16)
    ensures
        r == (if ok {
            200u16
        } else {
            404u16
        }),
{
    if ok {
        200
    } else {
        404
    }
}

/// What a phone needs to know before it calls.
pub fn api_config(cfg: &Config) -> (r: ServerConfig)
    ensures
        r.video_max_bitrate_kbps == cfg.server.video_max_bitrate_kbps,
        r.video_start_bitrate_kbps == cfg.server.video_start_bitrate_kbps,
        r.stun_server == cfg.server.stun_server,
{
    ServerConfig {
        video_max_bitrate_kbps: cfg.server.video_max_bitrate_kbps,
        video_start_bitrate_kbps: cfg.server.video_start_bitrate_kbps,
        stun_server: cfg.server.stun_server.clone(),
    }
}

/// Direction of a sound device, by its class.
pub fn direction(class: &str) -> (r: &'static str)
    ensures
        r@ == (if strings::has_text(class@, "Sink"@) {
            "sortie"@
        } else {
            "entrée"@
        }),
{
    let c = strings::chars_of(class);
    let sink = strings::chars_of("Sink");
    if strings::contains(c.as_slice(), sink.as_slice()) {
        "sortie"
    } else {
        "entrée"
    }
}

/// Something that happens on the socket of a control page.
pub enum ControlInput {
    Text,
    /// Any other frame.
    Frame,
    Closed,
    /// The switcher told of a change.
    Changed,
    /// Some changes were missed.
    Lagged,
    /// The switcher is gone.
    Gone,
    /// [`PING_EVERY_MS`] have passed since the last ping.
    PingDue,
}

/// What to do on the socket of a control page.
#[derive(Debug, Clone, Copy, PartialEq, Eq, Structural)]
pub enum ControlStep {
    Apply,
    SendState,
    SendPing,
    Wait,
    Stop,
}

/// What to do on the socket of a control page.
pub fn control_step(input: ControlInput) -> (r: ControlStep)
    ensures
        r == (match input {
            ControlInput::Text => ControlStep::Apply,
            ControlInput::Changed => ControlStep::SendState,
            ControlInput::PingDue => ControlStep::SendPing,
            ControlInput::Frame | ControlInput::Lagged => ControlStep::Wait,
            ControlInput::Closed | ControlInput::Gone => ControlStep::Stop,
        }),
{
    match input {
        ControlInput::Text => ControlStep::Apply,
        ControlInput::Changed => ControlStep::SendState,
        ControlInput::PingDue => ControlStep::SendPing,
        ControlInput::Frame | ControlInput::Lagged => ControlStep::Wait,
        ControlInput::Closed | ControlInput::Gone => ControlStep::Stop,
    }
}

/// How long the watchdog of a runtime sleeps between two looks, in milliseconds.
pub const WATCH_EVERY_MS: u64 = 500;

/// How much later than asked a runtime may wake without a word, in milliseconds.
pub const WAKE_TOLERANCE_MS: u64 = 100;

/// By how many milliseconds a runtime overslept, `slept_ms` after it was to sleep for
/// [`WATCH_EVERY_MS`]: told only beyond [`WAKE_TOLERANCE_MS`].
pub fn late_wake(slept_ms: u64) -> (r: Option<u64>)
    ensures
        r is Some <==> slept_ms > WATCH_EVERY_MS + WAKE_TOLERANCE_MS,
        r is Some ==> r->0 == slept_ms - WATCH_EVERY_MS,
{
    if slept_ms > WATCH_EVERY_MS + WAKE_TOLERANCE_MS {
        Some(slept_ms - WATCH_EVERY_MS)
    } else {
        None
    }
}

/// Name of a phone that says hello: its own, unless it is blank.
pub open spec fn shown_name(name: Option<Seq<char>>) -> Seq<char> {
    match name {
        Some(n) => if strings::trim(n).len() == 0 {
            "Téléphone"@
        } else {
            n
        },
        None => "Téléphone"@,
    }
}

/// Name of a phone that says hello.
pub fn phone_name(name: Option<String>) -> (r: String)
    ensures
        r@ == shown_name(
            match name {
                Some(n) => Some(n@),
                None => None,
            },
        ),
{
    match name {
        Some(n) => {
            let c = strings::chars_of(n.as_str());
            let t = strings::trim_of(c.as_slice());
            if t.len() == 0 {
                strings::text("Téléphone")
            } else {
                n
            }
        },
        None => strings::text("Téléphone"),
    }
}

/// The farewell when a session ended by itself.
pub fn farewell() -> (r: ServerMsg)
    ensures
        r is Bye,
        r->reason@ == "session terminée"@,
{
    ServerMsg::Bye { reason: strings::text("session terminée") }
}

/// Time between two pings on a socket, in milliseconds.
pub const PING_EVERY_MS: u64 = 15_000;

/// Extra time after a fade, in milliseconds.
pub const AFTER_FADE_MS: u64 = 80;

/// Something that happens on the socket of a phone. Sessions are numbered.
pub enum PhoneInput {
    /// A message of the phone.
    Message(ClientMsg),
    /// A frame that is no message, or a message that cannot be read.
    Frame,
    /// The socket was closed, or cannot be read.
    Closed,
    /// The session that was asked for runs.
    Started(u64),
    /// The session that was asked for could not be started.
    StartFailed(String),
    /// A message waits to be sent.
    Outgoing(ServerMsg),
    /// A message could not be sent, or none will come any more.
    SendFailed,
    /// The programme changed, or the phone came or went.
    AirChanged,
    /// Another change of the switcher.
    OtherChange,
    /// The session ended by itself.
    SessionEnded,
    /// Time for a ping.
    PingDue,
}

/// What to do on the socket of a phone.
pub enum PhoneAction {
    /// Close a session.
    Close(u64),
    /// Start a session under a phone's name.
    Start { name: Option<String> },
    /// Put a message in the queue.
    Queue(ServerMsg),
    /// Send a message.
    Send(ServerMsg),
    /// Send the farewell.
    SendFarewell,
    SendPing,
    SetAnswer { session: u64, sdp: String },
    AddIce { session: u64, mline: u32, candidate: String },
    SetStats(PhoneStats),
    /// Put the phone's state in the queue again, after this many milliseconds.
    TellLater(u64),
    /// The switcher has no phone any more.
    PhoneGone,
    /// Leave the socket.
    Stop,
}

/// The conversation with a phone on its socket.
#[derive(Debug, Clone, Copy, PartialEq, Eq, Structural)]
pub struct PhoneSocket {
    /// The session of this socket.
    pub session: Option<u64>,
    pub over: bool,
}

/// Leaving the socket: its session is closed, and the switcher's phone with it, unless another
/// took its place.
pub open spec fn left(s: PhoneSocket, phone: Option<u64>) -> (
    PhoneSocket,
    Option<u64>,
    Seq<PhoneAction>,
) {
    match s.session {
        Some(id) => (
            PhoneSocket { over: true, ..s },
            if phone == Some(id) {
                None
            } else {
                phone
            },
            (if phone == Some(id) {
                seq![PhoneAction::PhoneGone]
            } else {
                seq![]
            }) + seq![PhoneAction::Close(id), PhoneAction::Stop],
        ),
        None => (PhoneSocket { over: true, ..s }, phone, seq![PhoneAction::Stop]),
    }
}

/// The conversation and the switcher's phone after something happened, and what to do. `on_air`
/// tells whether the phone is on the air, `fade_ms` how long a fade takes.
pub open spec fn phone_step(
    s: PhoneSocket,
    phone: Option<u64>,
    input: PhoneInput,
    on_air: bool,
    fade_ms: u64,
) -> (PhoneSocket, Option<u64>, Seq<PhoneAction>) {
    if s.over {
        (s, phone, seq![])
    } else {
        match input {
            PhoneInput::Message(ClientMsg::Hello { name }) => (
                s,
                None,
                (match phone {
                    Some(other) => seq![PhoneAction::Close(other)],
                    None => seq![],
                }) + seq![PhoneAction::Start { name }],
            ),
            PhoneInput::Message(ClientMsg::Answer { sdp }) => (
                s,
                phone,
                match s.session {
                    Some(session) => seq![PhoneAction::SetAnswer { session, sdp }],
                    None => seq![],
                },
            ),
            PhoneInput::Message(ClientMsg::Ice { candidate, sdp_m_line_index }) => (
                s,
                phone,
                match s.session {
                    Some(session) => seq![
                        PhoneAction::AddIce { session, mline: sdp_m_line_index, candidate },
                    ],
                    None => seq![],
                },
            ),
            PhoneInput::Message(ClientMsg::Stats(st)) => (
                s,
                phone,
                match s.session {
                    Some(_) => seq![PhoneAction::SetStats(st)],
                    None => seq![],
                },
            ),
            PhoneInput::Message(ClientMsg::Bye) => left(s, phone),
            PhoneInput::Frame => (s, phone, seq![]),
            PhoneInput::Closed => left(s, phone),
            PhoneInput::Started(id) => (
                PhoneSocket { session: Some(id), ..s },
                Some(id),
                seq![PhoneAction::Queue(ServerMsg::OnAir { on: on_air })],
            ),
            PhoneInput::StartFailed(message) => (
                s,
                phone,
                seq![PhoneAction::Queue(ServerMsg::Error { message })],
            ),
            PhoneInput::Outgoing(m) => (s, phone, seq![PhoneAction::Send(m)]),
            PhoneInput::SendFailed => left(s, phone),
            PhoneInput::AirChanged => (
                s,
                phone,
                seq![PhoneAction::Queue(ServerMsg::OnAir { on: on_air })] + (if fade_ms > 0 {
                    seq![PhoneAction::TellLater((fade_ms + AFTER_FADE_MS) as u64)]
                } else {
                    seq![]
                }),
            ),
            PhoneInput::OtherChange => (s, phone, seq![]),
            PhoneInput::SessionEnded => {
                let l = left(s, phone);
                (l.0, l.1, seq![PhoneAction::SendFarewell] + l.2)
            },
            PhoneInput::PingDue => (s, phone, seq![PhoneAction::SendPing]),
        }
    }
}

impl PhoneSocket {
    /// A socket was opened.
    pub fn new() -> (r: Self)
        ensures
            r == (PhoneSocket { session: None, over: false }),
    {
        PhoneSocket { session: None, over: false }
    }

    fn leave(&mut self, phone: &mut Option<u64>, out: &mut Vec<PhoneAction>)
        ensures
            *final(self) == left(*old(self), *old(phone)).0,
            *final(phone) == left(*old(self), *old(phone)).1,
            final(out)@ == old(out)@ + left(*old(self), *old(phone)).2,
    {
        self.over = true;
        if let Some(id) = self.session {
            let mine = match *phone {
                Some(p) => p == id,
                None => false,
            };
            if mine {
                *phone = None;
                out.push(PhoneAction::PhoneGone);
            }
            out.push(PhoneAction::Close(id));
        }
        out.push(PhoneAction::Stop);
        assert(out@ =~= old(out)@ + left(*old(self), *old(phone)).2);
    }

    /// Something happened.
    pub fn handle(
        &mut self,
        phone: &mut Option<u64>,
        input: PhoneInput,
        on_air: bool,
        fade_ms: u64,
    ) -> (r: Vec<PhoneAction>)
        requires
            fade_ms <= u64::MAX - AFTER_FADE_MS,
        ensures
            (*final(self), *final(phone), r@) == phone_step(
                *old(self),
                *old(phone),
                input,
                on_air,
                fade_ms,
            ),
    {
        let mut out: Vec<PhoneAction> = Vec::new();
        let ghost want = phone_step(*self, *phone, input, on_air, fade_ms);
        if self.over {
            return out;
        }
        let mut leaving = false;
        match input {
            PhoneInput::Message(m) => match m {
                ClientMsg::Hello { name } => {
                    if let Some(other) = *phone {
                        out.push(PhoneAction::Close(other));
                    }
                    *phone = None;
                    out.push(PhoneAction::Start { name });
                },
                ClientMsg::Answer { sdp } => {
                    if let Some(session) = self.session {
                        out.push(PhoneAction::SetAnswer { session, sdp });
                    }
                },
                ClientMsg::Ice { candidate, sdp_m_line_index } => {
                    if let Some(session) = self.session {
                        out.push(
                            PhoneAction::AddIce { session, mline: sdp_m_line_index, candidate },
                        );
                    }
                },
                ClientMsg::Stats(st) => {
                    if self.session.is_some() {
                        out.push(PhoneAction::SetStats(st));
                    }
                },
                ClientMsg::Bye => {
                    leaving = true;
                },
            },
            PhoneInput::Frame => {},
            PhoneInput::Closed => {
                leaving = true;
            },
            PhoneInput::Started(id) => {
                self.session = Some(id);
                *phone = Some(id);
                out.push(PhoneAction::Queue(ServerMsg::OnAir { on: on_air }));
            },
            PhoneInput::StartFailed(message) => {
                out.push(PhoneAction::Queue(ServerMsg::Error { message }));
            },
            PhoneInput::Outgoing(m) => {
                out.push(PhoneAction::Send(m));
            },
            PhoneInput::SendFailed => {
                leaving = true;
            },
            PhoneInput::AirChanged => {
                out.push(PhoneAction::Queue(ServerMsg::OnAir { on: on_air }));
                if fade_ms > 0 {
                    out.push(PhoneAction::TellLater(fade_ms + AFTER_FADE_MS));
                }
            },
            PhoneInput::OtherChange => {},
            PhoneInput::SessionEnded => {
                out.push(PhoneAction::SendFarewell);
                leaving = true;
            },
            PhoneInput::PingDue => {
                out.push(PhoneAction::SendPing);
            },
        }
        if leaving {
            self.leave(phone, &mut out);
        }
        assert(out@ =~= want.2);
        out
    }
}

/// What a phone's own socket can still bring without asking for a session of its own.
pub open spec fn asks_no_session(input: PhoneInput) -> bool {
    match input {
        PhoneInput::Message(ClientMsg::Hello { .. }) | PhoneInput::Started(_) => false,
        _ => true,
    }
}

/// Only one phone at a time. While the session `mine` of one socket is the switcher's phone,
/// another socket says hello: `mine` is closed before the new session is asked for, and once that
/// runs it is the switcher's only phone. Whatever then happens on the first socket, its end
/// included, leaves the switcher's phone to the new session; so does an end of the first socket
/// while the new session is being started. A phone without a name of its own is shown as
/// `Téléphone`.
pub proof fn one_phone_at_a_time(
    first: PhoneSocket,
    second: PhoneSocket,
    mine: u64,
    id: u64,
    name: Option<String>,
    later: PhoneInput,
    on_air: bool,
    fade_ms: u64,
)
    requires
        first.session == Some(mine),
        !second.over,
        mine != id,
        asks_no_session(later),
    ensures
        ({
            let hello = PhoneInput::Message(ClientMsg::Hello { name });
            let a = phone_step(second, Some(mine), hello, on_air, fade_ms);
            let b = phone_step(a.0, a.1, PhoneInput::Started(id), on_air, fade_ms);
            let during = phone_step(first, a.1, later, on_air, fade_ms);
            let after = phone_step(first, b.1, later, on_air, fade_ms);
            &&& a.2 == seq![PhoneAction::Close(mine), PhoneAction::Start { name }]
            &&& a.1 is None
            &&& b.0.session == Some(id)
            &&& b.1 == Some(id)
            &&& b.2 == seq![PhoneAction::Queue(ServerMsg::OnAir { on: on_air })]
            &&& during.1 is None && !during.2.contains(PhoneAction::PhoneGone)
            &&& after.1 == Some(id) && !after.2.contains(PhoneAction::PhoneGone)
            &&& after.2 == during.2
            &&& !first.over && later is Closed ==> after.2 == seq![
                PhoneAction::Close(mine),
                PhoneAction::Stop,
            ]
        }),
        name is None ==> shown_name(None) == "Téléphone"@,
        name is Some && strings::trim(name->0@).len() == 0 ==> shown_name(Some(name->0@))
            == "Téléphone"@,
        name is Some && strings::trim(name->0@).len() > 0 ==> shown_name(Some(name->0@))
            == name->0@,
{
}

/// A socket that is left has closed its session, and the switcher keeps no phone of it.
pub proof fn leaving_closes_the_session(
    s: PhoneSocket,
    phone: Option<u64>,
    input: PhoneInput,
    on_air: bool,
    fade_ms: u64,
)
    requires
        !s.over,
        s.session is Some,
    ensures
        ({
            let a = phone_step(s, phone, input, on_air, fade_ms);
            a.0.over ==> a.1 != s.session && a.2.contains(PhoneAction::Close(s.session->0))
                && a.2.last() == PhoneAction::Stop
        }),
{
    let a = phone_step(s, phone, input, on_air, fade_ms);
    let l = left(s, phone).2;
    let id = s.session->0;
    let k: int = if phone == Some(id) {
        1
    } else {
        0
    };
    assert(l[k] == PhoneAction::Close(id));
    if a.0.over {
        if input is SessionEnded {
            assert(a.2[k + 1] == PhoneAction::Close(id));
        } else {
            assert(a.2 == l);
        }
    }
}

/// A socket that was left does nothing any more.
pub proof fn left_socket_is_silent(
    s: PhoneSocket,
    phone: Option<u64>,
    input: PhoneInput,
    on_air: bool,
    fade_ms: u64,
)
    requires
        s.over,
    ensures
        phone_step(s, phone, input, on_air, fade_ms) == (s, phone, Seq::<PhoneAction>::empty()),
{
}

/// A message that waits to be sent is sent: that one, once, and nothing else happens.
pub proof fn waiting_messages_are_sent(
    s: PhoneSocket,
    phone: Option<u64>,
    m: ServerMsg,
    on_air: bool,
    fade_ms: u64,
)
    requires
        !s.over,
    ensures
        phone_step(s, phone, PhoneInput::Outgoing(m), on_air, fade_ms) == (
            s,
            phone,
            seq![PhoneAction::Send(m)],
        ),
{
}

/// What a phone sends about its call reaches the session of its socket, as it was sent: its
/// answer, its candidates and its statistics, each once. Before a session runs there is nothing
/// that they could reach.
pub proof fn call_messages_reach_the_session(
    s: PhoneSocket,
    phone: Option<u64>,
    text: String,
    line: u32,
    stats: PhoneStats,
    on_air: bool,
    fade_ms: u64,
)
    requires
        !s.over,
    ensures
        ({
            let answer = phone_step(
                s,
                phone,
                PhoneInput::Message(ClientMsg::Answer { sdp: text }),
                on_air,
                fade_ms,
            );
            let ice = phone_step(
                s,
                phone,
                PhoneInput::Message(ClientMsg::Ice { candidate: text, sdp_m_line_index: line }),
                on_air,
                fade_ms,
            );
            let st = phone_step(
                s,
                phone,
                PhoneInput::Message(ClientMsg::Stats(stats)),
                on_air,
                fade_ms,
            );
            &&& (answer.0, answer.1) == (s, phone)
            &&& (ice.0, ice.1) == (s, phone)
            &&& (st.0, st.1) == (s, phone)
            &&& s.session is Some ==> answer.2 == seq![
                PhoneAction::SetAnswer { session: s.session->0, sdp: text },
            ]
            &&& s.session is Some ==> ice.2 == seq![
                PhoneAction::AddIce { session: s.session->0, mline: line, candidate: text },
            ]
            &&& s.session is Some ==> st.2 == seq![PhoneAction::SetStats(stats)]
            &&& s.session is None ==> answer.2.len() == 0 && ice.2.len() == 0 && st.2.len() == 0
        }),
{
}

/// A hello asks for a session under the name that it gives, after the phone that was there, if
/// any, has been closed; the socket itself does not change.
pub proof fn hello_asks_for_a_session(
    s: PhoneSocket,
    phone: Option<u64>,
    name: Option<String>,
    on_air: bool,
    fade_ms: u64,
)
    requires
        !s.over,
    ensures
        ({
            let h = phone_step(
                s,
                phone,
                PhoneInput::Message(ClientMsg::Hello { name }),
                on_air,
                fade_ms,
            );
            &&& h.0 == s
            &&& h.1 is None
            &&& phone is None ==> h.2 == seq![PhoneAction::Start { name }]
            &&& phone is Some ==> h.2 == seq![
                PhoneAction::Close(phone->0),
                PhoneAction::Start { name },
            ]
        }),
{
}

/// A session that runs belongs to its socket and is the switcher's phone, and is told whether it
/// is on the air; one that could not be started is told why, and nothing changes.
pub proof fn phone_learns_how_its_session_started(
    s: PhoneSocket,
    phone: Option<u64>,
    id: u64,
    message: String,
    on_air: bool,
    fade_ms: u64,
)
    requires
        !s.over,
    ensures
        phone_step(s, phone, PhoneInput::Started(id), on_air, fade_ms) == (
            PhoneSocket { session: Some(id), over: false },
            Some(id),
            seq![PhoneAction::Queue(ServerMsg::OnAir { on: on_air })],
        ),
        phone_step(s, phone, PhoneInput::StartFailed(message), on_air, fade_ms) == (
            s,
            phone,
            seq![PhoneAction::Queue(ServerMsg::Error { message })],
        ),
{
}

/// A change on the air is told to the phone at once, and once more 80 ms after a fade would be
/// over; another change is not. A ping goes out when it is due; a frame that says nothing is
/// passed over.
pub proof fn phone_is_told_of_the_air(
    s: PhoneSocket,
    phone: Option<u64>,
    on_air: bool,
    fade_ms: u64,
)
    requires
        !s.over,
        fade_ms <= u64::MAX - 80,
    ensures
        ({
            let a = phone_step(s, phone, PhoneInput::AirChanged, on_air, fade_ms);
            &&& (a.0, a.1) == (s, phone)
            &&& a.2[0] == PhoneAction::Queue(ServerMsg::OnAir { on: on_air })
            &&& fade_ms == 0 ==> a.2.len() == 1
            &&& fade_ms > 0 ==> a.2.len() == 2 && a.2[1] is TellLater && a.2[1]->TellLater_0
                == fade_ms + 80
        }),
        phone_step(s, phone, PhoneInput::OtherChange, on_air, fade_ms) == (
            s,
            phone,
            Seq::<PhoneAction>::empty(),
        ),
        phone_step(s, phone, PhoneInput::Frame, on_air, fade_ms) == (
            s,
            phone,
            Seq::<PhoneAction>::empty(),
        ),
        phone_step(s, phone, PhoneInput::PingDue, on_air, fade_ms) == (
            s,
            phone,
            seq![PhoneAction::SendPing],
        ),
{
}

/// A goodbye of the phone, a closed socket, a message that cannot be sent and the end of the
/// session each leave the socket: its session, if any, is closed, and the switcher loses its phone
/// where it was that one, and keeps it where it is another. Only the end of the session is told to
/// the phone, first.
pub proof fn every_end_leaves_the_socket(
    s: PhoneSocket,
    phone: Option<u64>,
    input: PhoneInput,
    on_air: bool,
    fade_ms: u64,
)
    requires
        !s.over,
        input is Closed || input is SendFailed || input is SessionEnded || input
            == PhoneInput::Message(ClientMsg::Bye),
    ensures
        ({
            let a = phone_step(s, phone, input, on_air, fade_ms);
            let told = if input is SessionEnded {
                seq![PhoneAction::SendFarewell]
            } else {
                Seq::empty()
            };
            &&& a.0 == (PhoneSocket { session: s.session, over: true })
            &&& s.session is None ==> a.1 == phone && a.2 == told + seq![PhoneAction::Stop]
            &&& s.session is Some && phone == s.session ==> a.1 is None && a.2 == told + seq![
                PhoneAction::PhoneGone,
                PhoneAction::Close(s.session->0),
                PhoneAction::Stop,
            ]
            &&& s.session is Some && phone != s.session ==> a.1 == phone && a.2 == told + seq![
                PhoneAction::Close(s.session->0),
                PhoneAction::Stop,
            ]
        }),
{
    let a = phone_step(s, phone, input, on_air, fade_ms);
    let told = if input is SessionEnded {
        seq![PhoneAction::SendFarewell]
    } else {
        Seq::empty()
    };
    if s.session is None {
        assert(a.2 =~= told + seq![PhoneAction::Stop]);
    } else if phone == s.session {
        assert(a.2 =~= told + seq![
            PhoneAction::PhoneGone,
            PhoneAction::Close(s.session->0),
            PhoneAction::Stop,
        ]);
    } else {
        assert(a.2 =~= told + seq![PhoneAction::Close(s.session->0), PhoneAction::Stop]);
    }
}

/// Nothing else leaves a socket.
pub proof fn nothing_else_leaves_the_socket(
    s: PhoneSocket,
    phone: Option<u64>,
    input: PhoneInput,
    on_air: bool,
    fade_ms: u64,
)
    requires
        !s.over,
        !(input is Closed || input is SendFailed || input is SessionEnded || input
            == PhoneInput::Message(ClientMsg::Bye)),
    ensures
        !phone_step(s, phone, input, on_air, fade_ms).0.over,
        !phone_step(s, phone, input, on_air, fade_ms).2.contains(PhoneAction::Stop),
{
}

/// A whole call: a phone says hello on a socket and its session starts; the offer that the session
/// queues is sent, and the phone's answer reaches that session.
pub proof fn call_is_set_up(
    phone: Option<u64>,
    name: Option<String>,
    id: u64,
    offer: String,
    answer: String,
    on_air: bool,
    fade_ms: u64,
)
    ensures
        ({
            let s0 = PhoneSocket { session: None, over: false };
            let hello = PhoneInput::Message(ClientMsg::Hello { name });
            let a = phone_step(s0, phone, hello, on_air, fade_ms);
            let b = phone_step(a.0, a.1, PhoneInput::Started(id), on_air, fade_ms);
            let c = phone_step(
                b.0,
                b.1,
                PhoneInput::Outgoing(ServerMsg::Offer { sdp: offer }),
                on_air,
                fade_ms,
            );
            let d = phone_step(
                c.0,
                c.1,
                PhoneInput::Message(ClientMsg::Answer { sdp: answer }),
                on_air,
                fade_ms,
            );
            &&& a.2.last() == (PhoneAction::Start { name })
            &&& c.2 == seq![PhoneAction::Send(ServerMsg::Offer { sdp: offer })]
            &&& d.2 == seq![PhoneAction::SetAnswer { session: id, sdp: answer }]
            &&& d.1 == Some(id)
        }),
{
}

/// On the socket of a control page, a text is obeyed, a change of the switcher has the state sent,
/// a ping goes out when it is due, and the end of the socket or of the switcher leaves it; a frame
/// without a text and missed changes are passed over.
pub proof fn control_sockets_are_served(input: ControlInput, r: ControlStep)
    requires
        call_ensures(control_step, (input,), r),
    ensures
        r == ControlStep::Apply <==> input is Text,
        r == ControlStep::SendState <==> input is Changed,
        r == ControlStep::SendPing <==> input is PingDue,
        r == ControlStep::Stop <==> input is Closed || input is Gone,
        r == ControlStep::Wait <==> input is Frame || input is Lagged,
{
}

/// A request of the control page does to the switcher what its name says: the programme with the
/// configured transition, at once for a cut, the preview, or both exchanged; the known scene is
/// the first one with the identifier. A new route for the sound leaves the scenes alone.
pub proof fn requests_do_what_they_say(
    e: Engine,
    i: usize,
    scene: String,
    target: String,
    channels: Vec<usize>,
    now: u64,
)
    requires
        engine::engine_wf(e),
        i < e.scenes@.len(),
        e.scenes@[i as int].id@ == scene@,
        forall|j: int| 0 <= j < i ==> (#[trigger] e.scenes@[j]).id@ != scene@,
    ensures
        ({
            let program = controlled(e, ControlMsg::Program { scene }, now);
            let cut = controlled(e, ControlMsg::Cut { scene }, now);
            let preview = controlled(e, ControlMsg::Preview { scene }, now);
            let take = controlled(e, ControlMsg::Take, now);
            let route = controlled(e, ControlMsg::AudioRoute { target, channels }, now);
            &&& program.2 && cut.2 && preview.2 && take.2
            &&& program.0.program == i && program.0.preview == e.preview
            &&& (program.0, program.1) == engine::switched(e, i, true, now)
            &&& cut.0.program == i && cut.0.preview == e.preview && cut.0.transition is None
            &&& (cut.0, cut.1) == engine::switched(e, i, false, now)
            &&& preview.0.preview == i && preview.0.program == e.program
            &&& (preview.0, preview.1) == engine::previewed(e, i)
            &&& take.0.program == e.preview && take.0.preview == e.program
            &&& (take.0, take.1) == engine::taken(e, now)
            &&& route.0 == e && route.1.len() == 0
        }),
{
    assert(engine::is_scene(e.scenes@, scene@, i as int));
    assert(engine::scene_with(e.scenes@, scene@) == Some(i)) by {
        let k = choose|k: int| engine::is_scene(e.scenes@, scene@, k);
        assert(engine::is_scene(e.scenes@, scene@, k));
        assert(e.scenes@[k].id@ == scene@);
    }
}

/// A socket that is not over sends each message that waits, and nothing else on that account.
pub proof fn sockets_send_what_waits(
    s: &mut PhoneSocket,
    phone: &mut Option<u64>,
    m: ServerMsg,
    on_air: bool,
    fade_ms: u64,
    r: Vec<PhoneAction>,
)
    requires
        !old(s).over,
        call_ensures(
            PhoneSocket::handle,
            (s, phone, PhoneInput::Outgoing(m), on_air, fade_ms),
            r,
        ),
    ensures
        r@ == seq![PhoneAction::Send(m)],
        *final(s) == *old(s),
        *final(phone) == *old(phone),
{
}

/// A socket begins without a session. Once over it takes nothing in any more.
pub proof fn sockets_end_for_good(
    begun: PhoneSocket,
    s: &mut PhoneSocket,
    phone: &mut Option<u64>,
    input: PhoneInput,
    on_air: bool,
    fade_ms: u64,
    r: Vec<PhoneAction>,
)
    requires
        call_ensures(PhoneSocket::new, (), begun),
        old(s).over,
        call_ensures(PhoneSocket::handle, (s, phone, input, on_air, fade_ms), r),
    ensures
        begun.session is None && !begun.over,
        r@.len() == 0,
        *final(s) == *old(s),
        *final(phone) == *old(phone),
{
}

/// A phone that leaves, its socket closed or broken, has its session closed, and the switcher has
/// no phone any more where it was this one; another one stays.
pub proof fn leaving_phones_are_cleared_away(
    s: &mut PhoneSocket,
    phone: &mut Option<u64>,
    input: PhoneInput,
    on_air: bool,
    fade_ms: u64,
    r: Vec<PhoneAction>,
)
    requires
        !old(s).over,
        input is Closed || input is SendFailed || input == PhoneInput::Message(ClientMsg::Bye),
        call_ensures(PhoneSocket::handle, (s, phone, input, on_air, fade_ms), r),
    ensures
        final(s).over,
        r@.last() == PhoneAction::Stop,
        old(s).session is None ==> r@ == seq![PhoneAction::Stop] && *final(phone) == *old(phone),
        old(s).session is Some && *old(phone) == old(s).session ==> r@ == seq![
            PhoneAction::PhoneGone,
            PhoneAction::Close(old(s).session->0),
            PhoneAction::Stop,
        ] && *final(phone) is None,
        old(s).session is Some && *old(phone) != old(s).session ==> r@ == seq![
            PhoneAction::Close(old(s).session->0),
            PhoneAction::Stop,
        ] && *final(phone) == *old(phone),
{
    if old(s).session is Some {
        let id = old(s).session->0;
        if *old(phone) == Some(id) {
            assert(r@ =~= seq![
                PhoneAction::PhoneGone,
                PhoneAction::Close(id),
                PhoneAction::Stop,
            ]);
        } else {
            assert(r@ =~= seq![PhoneAction::Close(id), PhoneAction::Stop]);
        }
    }
}

/// A request reaches the scene that it names and is answered for: with the configured transition,
/// at once, or on the preview. One for an unknown scene changes nothing and is refused.
pub proof fn requests_reach_their_scene(
    e: &mut Engine,
    audio: &mut AudioSetup,
    cmd: &ControlMsg,
    id: String,
    now: u64,
    r: (Vec<Effect>, bool),
)
    requires
        *cmd == (ControlMsg::Program { scene: id }) || *cmd == (ControlMsg::Cut { scene: id })
            || *cmd == (ControlMsg::Preview { scene: id }),
        call_ensures(apply_control, (e, audio, cmd, now), r),
    ensures
        *final(audio) == *old(audio),
        ({
            let found = engine::scene_with(old(e).scenes@, id@);
            &&& r.1 <==> found is Some
            &&& found is None ==> *final(e) == *old(e) && (r.0)@.len() == 0
            &&& found is Some && *cmd is Program ==> (*final(e), (r.0)@) == engine::switched(
                *old(e),
                found->0,
                true,
                now,
            )
            &&& found is Some && *cmd is Cut ==> (*final(e), (r.0)@) == engine::switched(
                *old(e),
                found->0,
                false,
                now,
            )
            &&& found is Some && *cmd is Preview ==> (*final(e), (r.0)@) == engine::previewed(
                *old(e),
                found->0,
            )
        }),
{
}

/// Taking always succeeds and leaves the sound alone; routing the sound leaves the pictures alone,
/// and succeeds where the source is known and runs.
pub proof fn pictures_and_sound_are_apart(
    e: &mut Engine,
    audio: &mut AudioSetup,
    cmd: &ControlMsg,
    now: u64,
    r: (Vec<Effect>, bool),
)
    requires
        call_ensures(apply_control, (e, audio, cmd, now), r),
    ensures
        *cmd is Take ==> r.1 && *final(audio) == *old(audio) && (*final(e), (r.0)@)
            == engine::taken(*old(e), now),
        *cmd is AudioRoute ==> *final(e) == *old(e) && (r.0)@.len() == 0,
        !(*cmd is AudioRoute) ==> *final(audio) == *old(audio),
        cmd matches ControlMsg::AudioRoute { target, channels } ==> engine::rerouted(
            *old(audio),
            target@,
            channels@,
            *final(audio),
            r.1,
        ),
{
}

/// What was done is answered with 200, what could not be with 404.
pub proof fn answers_say_what_was_done(ok: bool, r: u16)
    requires
        call_ensures(api_result, (ok,), r),
    ensures
        ok ==> r == 200,
        !ok ==> r == 404,
{
}

/// The published settings are the configured ones.
pub proof fn settings_are_published(cfg: &Config, r: ServerConfig)
    requires
        call_ensures(api_config, (cfg,), r),
    ensures
        r.video_max_bitrate_kbps == cfg.server.video_max_bitrate_kbps,
        r.video_start_bitrate_kbps == cfg.server.video_start_bitrate_kbps,
        r.stun_server == cfg.server.stun_server,
{
}

/// A sound device is an output where its class says that it is a sink, else an input.
pub proof fn sinks_are_outputs(class: &str, r: &'static str)
    requires
        call_ensures(direction, (class,), r),
    ensures
        strings::has_text(class@, "Sink"@) ==> r@ == "sortie"@,
        !strings::has_text(class@, "Sink"@) ==> r@ == "entrée"@,
{
}

/// A wake is told of where it comes more than a tenth of a second after the half second that was
/// slept for, and only then; its lateness is what was slept over that.
pub proof fn late_wakes_are_measured(slept_ms: u64, r: Option<u64>)
    requires
        call_ensures(late_wake, (slept_ms,), r),
    ensures
        r is Some <==> slept_ms > 600,
        r is Some ==> r->0 + 500 == slept_ms,
{
}

/// A phone is shown under the name that it gives, unless that is blank or missing.
pub proof fn phones_are_shown_by_name(name: Option<String>, r: String)
    requires
        call_ensures(phone_name, (name,), r),
    ensures
        name is Some && strings::trim(name->0@).len() > 0 ==> r@ == name->0@,
        name is Some && strings::trim(name->0@).len() == 0 ==> r@ == "Téléphone"@,
        name is None ==> r@ == "Téléphone"@,
{
}

} // verus!
