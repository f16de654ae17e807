//! The signalling loop of the phone as a state machine: what happened goes in, what to do comes
//! out. Connection, `hello`, offers, another attempt two seconds after a loss, the end on `bye`
//! or on cancellation.

use super::control::ClientEvent;
use super::ws;
use super::ws::Fingerprint;
use crate::signaling::{ClientMsg, ServerMsg};
use crate::strings;
use vstd::prelude::*;

verus! {

/// Wait before another attempt, in milliseconds.
pub const RETRY_DELAY_MS: u64 = 2000;

/// What the status line says.
pub enum Status {
    Connecting,
    Unreachable(String),
    CertificateChanged,
    WaitingForOffer,
    IceRestart,
    Negotiating,
}

/// What the interface is told.
pub enum Notice {
    Status(Status),
    Disconnected,
    OnAir(bool),
    Error(String),
    Ended(String),
    Certificate { fingerprint: Option<Fingerprint>, trusted: bool },
}

/// Where the loop stands.
pub enum Phase {
    /// At the top, before an attempt.
    Top,
    /// Waiting before another attempt.
    Waiting,
    /// Reading the published settings.
    Fetching,
    /// Opening the WebSocket.
    Connecting,
    /// WebSocket open.
    Open,
    /// A new offer was handed to the running session.
    Reoffering { sdp: String },
    /// A session is being made.
    Starting,
    /// Over.
    Done,
}

/// What happened.
pub enum Input {
    /// The loop goes on (it was not cancelled).
    Proceed,
    Cancelled,
    DelayOver,
    ConfigRead { observed: Option<Fingerprint> },
    ConfigFailed { error: String, mismatch: bool, observed: Option<Fingerprint> },
    SocketOpened,
    SocketFailed { error: String },
    /// A message came, and whether the running session can take a new offer.
    Received { msg: ServerMsg, can_reoffer: bool },
    /// The WebSocket was closed, or reading from or writing to it failed.
    SocketLost,
    /// The session has something to say.
    Outgoing(ClientMsg),
    /// The running session answered a new offer.
    Reoffered { answer: String },
    ReofferFailed,
    /// A session was made and answered the offer.
    Started { answer: String },
    StartFailed { error: String },
    /// The session's connection was closed.
    SessionClosed,
}

/// What to do.
pub enum Action {
    Notify(Notice),
    Sleep(u64),
    FetchConfig,
    OpenSocket,
    Send(ClientMsg),
    Reoffer(String),
    StartSession(String),
    AddIce { candidate: String, sdp_m_line_index: u32 },
    CloseSession,
    CloseSocket,
    DetachOutput,
}

/// State of the loop.
pub struct Link {
    pub phase: Phase,
    /// No attempt was made yet.
    pub first: bool,
    /// The accepted certificate was announced.
    pub cert_announced: bool,
    /// There is a session.
    pub session: bool,
    /// Name to present, if any.
    pub name: Option<String>,
}

/// The actions that close a session, if there is one.
pub open spec fn close_session(session: bool) -> Seq<Action> {
    if session {
        seq![Action::CloseSession]
    } else {
        seq![]
    }
}

/// Notice of a status.
pub open spec fn status(s: Status) -> Action {
    Action::Notify(Notice::Status(s))
}

/// Back to the top of the loop.
pub open spec fn to_top(l: Link) -> Link {
    Link { phase: Phase::Top, session: false, ..l }
}

/// The end.
pub open spec fn to_end(l: Link) -> Link {
    Link { phase: Phase::Done, session: false, ..l }
}

/// What follows a message of the switcher.
pub open spec fn on_message(l: Link, msg: ServerMsg, can_reoffer: bool) -> (Link, Seq<Action>) {
    match msg {
        ServerMsg::Offer { sdp } => if l.session && can_reoffer {
            (Link { phase: Phase::Reoffering { sdp }, ..l }, seq![Action::Reoffer(sdp)])
        } else {
            (
                Link { phase: Phase::Starting, session: false, ..l },
                close_session(l.session) + seq![Action::StartSession(sdp)],
            )
        },
        ServerMsg::Ice { candidate, sdp_m_line_index } => (
            l,
            if l.session {
                seq![Action::AddIce { candidate, sdp_m_line_index }]
            } else {
                seq![]
            },
        ),
        ServerMsg::OnAir { on } => (l, seq![Action::Notify(Notice::OnAir(on))]),
        ServerMsg::Bye { reason } => (
            to_end(l),
            close_session(l.session) + seq![
                Action::Notify(Notice::Ended(reason)),
                Action::CloseSocket,
                Action::DetachOutput,
            ],
        ),
        ServerMsg::Error { message } => (l, seq![Action::Notify(Notice::Error(message))]),
    }
}

/// The next state and the actions, in order. What does not belong to a phase changes nothing.
pub open spec fn step(l: Link, input: Input) -> (Link, Seq<Action>) {
    match (l.phase, input) {
        (Phase::Top, Input::Cancelled) => (to_end(l), seq![Action::DetachOutput]),
        (Phase::Top, Input::Proceed) => if l.first {
            (
                Link { phase: Phase::Fetching, first: false, ..l },
                seq![status(Status::Connecting), Action::FetchConfig],
            )
        } else {
            (
                Link { phase: Phase::Waiting, ..l },
                seq![Action::Notify(Notice::Disconnected), Action::Sleep(RETRY_DELAY_MS)],
            )
        },
        (Phase::Waiting, Input::Cancelled) => (to_end(l), seq![Action::DetachOutput]),
        (Phase::Waiting, Input::DelayOver) => (
            Link { phase: Phase::Fetching, ..l },
            seq![status(Status::Connecting), Action::FetchConfig],
        ),
        (Phase::Fetching, Input::ConfigFailed { error, mismatch, observed }) => (
            to_top(l),
            if mismatch {
                seq![
                    Action::Notify(Notice::Certificate { fingerprint: observed, trusted: false }),
                    status(Status::CertificateChanged),
                ]
            } else {
                seq![status(Status::Unreachable(error))]
            },
        ),
        (Phase::Fetching, Input::ConfigRead { observed }) => if !l.cert_announced
            && observed is Some {
            (
                Link { phase: Phase::Connecting, cert_announced: true, ..l },
                seq![
                    Action::Notify(Notice::Certificate { fingerprint: observed, trusted: true }),
                    Action::OpenSocket,
                ],
            )
        } else {
            (Link { phase: Phase::Connecting, ..l }, seq![Action::OpenSocket])
        },
        (Phase::Connecting, Input::Cancelled) => (to_end(l), seq![Action::DetachOutput]),
        (Phase::Connecting, Input::SocketFailed { error }) => (
            to_top(l),
            seq![status(Status::Unreachable(error))],
        ),
        (Phase::Connecting, Input::SocketOpened) => (
            Link { phase: Phase::Open, session: false, ..l },
            seq![
                Action::Send(ClientMsg::Hello { name: l.name }),
                status(Status::WaitingForOffer),
            ],
        ),
        (Phase::Open, Input::Cancelled) => (
            to_end(l),
            seq![Action::Send(ClientMsg::Bye), Action::CloseSocket] + close_session(l.session)
                + seq![Action::DetachOutput],
        ),
        (Phase::Open, Input::SocketLost) => (
            to_top(l),
            close_session(l.session) + seq![Action::DetachOutput],
        ),
        (Phase::Open, Input::Received { msg, can_reoffer }) => on_message(l, msg, can_reoffer),
        (Phase::Open, Input::Outgoing(msg)) => (l, seq![Action::Send(msg)]),
        (Phase::Open, Input::SessionClosed) => if l.session {
            (to_top(l), seq![Action::CloseSocket, Action::DetachOutput])
        } else {
            (l, seq![])
        },
        (Phase::Reoffering { sdp }, Input::Reoffered { answer }) => (
            Link { phase: Phase::Open, ..l },
            seq![Action::Send(ClientMsg::Answer { sdp: answer }), status(Status::IceRestart)],
        ),
        (Phase::Reoffering { sdp }, Input::ReofferFailed) => (
            Link { phase: Phase::Starting, session: false, ..l },
            seq![Action::CloseSession, Action::StartSession(sdp)],
        ),
        (Phase::Starting, Input::Started { answer }) => (
            Link { phase: Phase::Open, session: true, ..l },
            seq![Action::Send(ClientMsg::Answer { sdp: answer }), status(Status::Negotiating)],
        ),
        (Phase::Starting, Input::StartFailed { error }) => (
            Link { phase: Phase::Open, session: false, ..l },
            seq![Action::Notify(Notice::Error(error))],
        ),
        _ => (l, seq![]),
    }
}

/// The name to present: none where it is blank.
pub open spec fn presented(name: Seq<char>) -> Option<Seq<char>> {
    if strings::trim(name).len() == 0 {
        None
    } else {
        Some(name)
    }
}

fn push_close(out: &mut Vec<Action>, session: bool)
    ensures
        final(out)@ == old(out)@ + close_session(session),
{
    if session {
        out.push(Action::CloseSession);
    }
    assert(out@ == old(out)@ + close_session(session));
}

fn notify_status(out: &mut Vec<Action>, s: Status)
    ensures
        final(out)@ == old(out)@.push(status(s)),
{
    out.push(Action::Notify(Notice::Status(s)));
}

fn copy_name(name: &Option<String>) -> (r: Option<String>)
    ensures
        r == *name,
{
    match name {
        Some(n) => Some(n.clone()),
        None => None,
    }
}

impl Link {
    /// A loop that has not begun; a blank name is not presented.
    pub fn new(name: &str) -> (r: Self)
        ensures
            r.phase is Top,
            r.first,
            !r.cert_announced,
            !r.session,
            (match r.name {
                Some(n) => presented(name@) == Some(n@),
                None => presented(name@) is None,
            }),
    {
        let s = strings::chars_of(name);
        let t = strings::trim_of(s.as_slice());
        Link {
            phase: Phase::Top,
            first: true,
            cert_announced: false,
            session: false,
            name: if t.len() == 0 {
                None
            } else {
                Some(strings::text(name))
            },
        }
    }

    fn message(&mut self, msg: ServerMsg, can_reoffer: bool) -> (r: Vec<Action>)
        requires
            old(self).phase is Open,
        ensures
            (*final(self), r@) == on_message(*old(self), msg, can_reoffer),
    {
        let mut out: Vec<Action> = Vec::new();
        match msg {
            ServerMsg::Offer { sdp } => {
                if self.session && can_reoffer {
                    let copy = sdp.clone();
                    self.phase = Phase::Reoffering { sdp };
                    out.push(Action::Reoffer(copy));
                } else {
                    push_close(&mut out, self.session);
                    self.session = false;
                    self.phase = Phase::Starting;
                    out.push(Action::StartSession(sdp));
                }
            },
            ServerMsg::Ice { candidate, sdp_m_line_index } => {
                if self.session {
                    out.push(Action::AddIce { candidate, sdp_m_line_index });
                }
            },
            ServerMsg::OnAir { on } => {
                out.push(Action::Notify(Notice::OnAir(on)));
            },
            ServerMsg::Bye { reason } => {
                push_close(&mut out, self.session);
                self.session = false;
                self.phase = Phase::Done;
                out.push(Action::Notify(Notice::Ended(reason)));
                out.push(Action::CloseSocket);
                out.push(Action::DetachOutput);
            },
            ServerMsg::Error { message } => {
                out.push(Action::Notify(Notice::Error(message)));
            },
        }
        assert(r_matches(*self, out@, on_message(*old(self), msg, can_reoffer)));
        out
    }

    fn end(&mut self)
        ensures
            *final(self) == to_end(*old(self)),
    {
        self.phase = Phase::Done;
        self.session = false;
    }

    fn top(&mut self)
        ensures
            *final(self) == to_top(*old(self)),
    {
        self.phase = Phase::Top;
        self.session = false;
    }

    /// Takes what happened and says what to do, in order.
    pub fn handle(&mut self, input: Input) -> (r: Vec<Action>)
        ensures
            (*final(self), r@) == step(*old(self), input),
    {
        let mut out: Vec<Action> = Vec::new();
        let ghost want = step(*old(self), input);
        match (&self.phase, input) {
            (Phase::Top, Input::Cancelled) | (Phase::Waiting, Input::Cancelled) | (
                Phase::Connecting,
                Input::Cancelled,
            ) => {
                self.end();
                out.push(Action::DetachOutput);
            },
            (Phase::Top, Input::Proceed) => {
                if self.first {
                    self.first = false;
                    self.phase = Phase::Fetching;
                    notify_status(&mut out, Status::Connecting);
                    out.push(Action::FetchConfig);
                } else {
                    self.phase = Phase::Waiting;
                    out.push(Action::Notify(Notice::Disconnected));
                    out.push(Action::Sleep(RETRY_DELAY_MS));
                }
            },
            (Phase::Waiting, Input::DelayOver) => {
                self.phase = Phase::Fetching;
                notify_status(&mut out, Status::Connecting);
                out.push(Action::FetchConfig);
            },
            (Phase::Fetching, Input::ConfigFailed { error, mismatch, observed }) => {
                self.top();
                if mismatch {
                    out.push(
                        Action::Notify(
                            Notice::Certificate { fingerprint: observed, trusted: false },
                        ),
                    );
                    notify_status(&mut out, Status::CertificateChanged);
                } else {
                    notify_status(&mut out, Status::Unreachable(error));
                }
            },
            (Phase::Fetching, Input::ConfigRead { observed }) => {
                self.phase = Phase::Connecting;
                if !self.cert_announced && observed.is_some() {
                    self.cert_announced = true;
                    out.push(
                        Action::Notify(Notice::Certificate { fingerprint: observed, trusted: true }),
                    );
                }
                out.push(Action::OpenSocket);
            },
            (Phase::Connecting, Input::SocketFailed { error }) => {
                self.top();
                notify_status(&mut out, Status::Unreachable(error));
            },
            (Phase::Connecting, Input::SocketOpened) => {
                self.phase = Phase::Open;
                self.session = false;
                out.push(Action::Send(ClientMsg::Hello { name: copy_name(&self.name) }));
                notify_status(&mut out, Status::WaitingForOffer);
            },
            (Phase::Open, Input::Cancelled) => {
                out.push(Action::Send(ClientMsg::Bye));
                out.push(Action::CloseSocket);
                push_close(&mut out, self.session);
                self.end();
                out.push(Action::DetachOutput);
            },
            (Phase::Open, Input::SocketLost) => {
                push_close(&mut out, self.session);
                self.top();
                out.push(Action::DetachOutput);
            },
            (Phase::Open, Input::Received { msg, can_reoffer }) => {
                out = self.message(msg, can_reoffer);
            },
            (Phase::Open, Input::Outgoing(msg)) => {
                out.push(Action::Send(msg));
            },
            (Phase::Open, Input::SessionClosed) => {
                if self.session {
                    self.top();
                    out.push(Action::CloseSocket);
                    out.push(Action::DetachOutput);
                }
            },
            (Phase::Reoffering { sdp: _ }, Input::Reoffered { answer }) => {
                self.phase = Phase::Open;
                out.push(Action::Send(ClientMsg::Answer { sdp: answer }));
                notify_status(&mut out, Status::IceRestart);
            },
            (Phase::Reoffering { sdp }, Input::ReofferFailed) => {
                let offer = sdp.clone();
                self.phase = Phase::Starting;
                self.session = false;
                out.push(Action::CloseSession);
                out.push(Action::StartSession(offer));
            },
            (Phase::Starting, Input::Started { answer }) => {
                self.phase = Phase::Open;
                self.session = true;
                out.push(Action::Send(ClientMsg::Answer { sdp: answer }));
                notify_status(&mut out, Status::Negotiating);
            },
            (Phase::Starting, Input::StartFailed { error }) => {
                self.phase = Phase::Open;
                self.session = false;
                out.push(Action::Notify(Notice::Error(error)));
            },
            _ => {},
        }
        assert(r_matches(*self, out@, want));
        out
    }
}

/// A state and actions are those expected.
pub open spec fn r_matches(l: Link, actions: Seq<Action>, want: (Link, Seq<Action>)) -> bool {
    l == want.0 && actions =~= want.1
}

/// Text of the status line.
pub open spec fn status_text(s: Status, host: Seq<char>, port: u16) -> Seq<char> {
    match s {
        Status::Connecting => "Connexion au Mac ("@ + host + ":"@ + strings::decimal(port as nat)
            + ")…"@,
        Status::Unreachable(error) => "Mac injoignable : "@ + error@,
        Status::CertificateChanged => "Certificat de la régie changé : connexion refusée."@,
        Status::WaitingForOffer => "Connecté au Mac, en attente de l'offre…"@,
        Status::IceRestart => "Redémarrage ICE…"@,
        Status::Negotiating => "Négociation…"@,
    }
}

/// Writes the status line.
pub fn status_line(s: &Status, host: &str, port: u16) -> (r: String)
    ensures
        r@ == status_text(*s, host@, port),
{
    match s {
        Status::Connecting => {
            let mut t = strings::text("Connexion au Mac (");
            t.append(host);
            t.append(":");
            strings::push_decimal(&mut t, port as u64);
            t.append(")…");
            t
        },
        Status::Unreachable(error) => {
            let mut t = strings::text("Mac injoignable : ");
            t.append(error.as_str());
            t
        },
        Status::CertificateChanged => strings::text(
            "Certificat de la régie changé : connexion refusée.",
        ),
        Status::WaitingForOffer => strings::text("Connecté au Mac, en attente de l'offre…"),
        Status::IceRestart => strings::text("Redémarrage ICE…"),
        Status::Negotiating => strings::text("Négociation…"),
    }
}

/// An event says what a notice says; an unknown digest is written as nothing.
pub open spec fn tells(e: ClientEvent, n: Notice, host: Seq<char>, port: u16) -> bool {
    match n {
        Notice::Status(s) => e is Status && e->Status_0@ == status_text(s, host, port),
        Notice::Disconnected => e is Disconnected,
        Notice::OnAir(on) => e == ClientEvent::OnAir(on),
        Notice::Error(t) => e == ClientEvent::Error(t),
        Notice::Ended(t) => e == ClientEvent::Ended(t),
        Notice::Certificate { fingerprint, trusted } => match e {
            ClientEvent::Certificate { fingerprint: f, trusted: t } => t == trusted && f@ == (
            match fingerprint {
                Some(fp) => ws::hex(fp@),
                None => Seq::<char>::empty(),
            }),
            _ => false,
        },
    }
}

/// The event that tells the interface of a notice.
pub fn event_of(n: Notice, host: &str, port: u16) -> (r: ClientEvent)
    ensures
        tells(r, n, host@, port),
{
    match n {
        Notice::Status(s) => ClientEvent::Status(status_line(&s, host, port)),
        Notice::Disconnected => ClientEvent::Disconnected,
        Notice::OnAir(on) => ClientEvent::OnAir(on),
        Notice::Error(t) => ClientEvent::Error(t),
        Notice::Ended(t) => ClientEvent::Ended(t),
        Notice::Certificate { fingerprint, trusted } => ClientEvent::Certificate {
            fingerprint: match fingerprint {
                Some(fp) => ws::fingerprint_hex(&fp),
                None => String::new(),
            },
            trusted,
        },
    }
}

/// A session exists only while the WebSocket is open, and a new offer is handed to one that
/// exists.
pub open spec fn link_wf(l: Link) -> bool {
    &&& l.session ==> l.phase is Open || l.phase is Reoffering
    &&& l.phase is Reoffering ==> l.session
    &&& l.phase is Waiting ==> !l.first
}

/// The WebSocket is open.
pub open spec fn socket_open(l: Link) -> bool {
    l.phase is Open || l.phase is Reoffering || l.phase is Starting
}

/// The loop keeps its invariant.
pub proof fn loop_stays_well_formed(l: Link, input: Input)
    requires
        link_wf(l),
    ensures
        link_wf(step(l, input).0),
{
}

/// Once over, the loop does nothing more.
pub proof fn over_is_over(l: Link, input: Input)
    requires
        l.phase is Done,
    ensures
        step(l, input).0 == l,
        step(l, input).1.len() == 0,
{
}

/// `bye` and cancellation end the loop: no other attempt follows.
pub proof fn bye_and_cancellation_end_the_loop(l: Link, reason: String, can_reoffer: bool)
    ensures
        l.phase is Open ==> step(
            l,
            Input::Received { msg: ServerMsg::Bye { reason }, can_reoffer },
        ).0.phase is Done,
        l.phase is Top || l.phase is Waiting || l.phase is Connecting || l.phase is Open ==> step(
            l,
            Input::Cancelled,
        ).0.phase is Done,
{
}

/// The accepted certificate is announced at most once, and the loop never forgets that it was.
pub proof fn certificate_is_announced_once(l: Link, input: Input)
    ensures
        l.cert_announced ==> step(l, input).0.cert_announced,
        forall|i: int|
            0 <= i < step(l, input).1.len() ==> (#[trigger] step(l, input).1[i] matches Action::Notify(
                Notice::Certificate { trusted: true, .. },
            ) ==> !l.cert_announced && step(l, input).0.cert_announced),
{
}

/// A session is made only where none exists any more: an existing one is closed first.
pub proof fn one_session_at_a_time(l: Link, input: Input)
    requires
        link_wf(l),
    ensures
        forall|i: int|
            0 <= i < step(l, input).1.len() && #[trigger] step(l, input).1[i] is StartSession ==> {
                &&& !step(l, input).0.session
                &&& l.session ==> i == 1 && step(l, input).1[0] is CloseSession
            },
        forall|i: int|
            0 <= i < step(l, input).1.len() && #[trigger] step(l, input).1[i] is CloseSession
                ==> l.session && !step(l, input).0.session,
{
}

/// Whenever the WebSocket is left, the encoder's output is detached.
pub proof fn leaving_detaches_the_output(l: Link, input: Input)
    requires
        link_wf(l),
        socket_open(l),
        !socket_open(step(l, input).0),
    ensures
        step(l, input).1.len() > 0,
        step(l, input).1.last() is DetachOutput,
{
}

/// Every attempt but the first comes after a wait of two seconds.
pub proof fn attempts_are_spaced(l: Link, input: Input)
    ensures
        forall|i: int|
            0 <= i < step(l, input).1.len() && #[trigger] step(l, input).1[i] is FetchConfig
                ==> l.first || l.phase is Waiting,
        step(l, input).0.phase is Waiting && !(l.phase is Waiting) ==> step(l, input).1.last()
            == Action::Sleep(2000),
{
}

/// The first attempt is made at once; every later one tells the interface that the link was lost
/// and waits. An attempt shows that it is under way and reads the published settings.
pub proof fn attempts_read_the_settings(l: Link)
    ensures
        l.phase is Top && l.first ==> step(l, Input::Proceed) == (
            Link { phase: Phase::Fetching, first: false, ..l },
            seq![Action::Notify(Notice::Status(Status::Connecting)), Action::FetchConfig],
        ),
        l.phase is Top && !l.first ==> step(l, Input::Proceed) == (
            Link { phase: Phase::Waiting, ..l },
            seq![Action::Notify(Notice::Disconnected), Action::Sleep(2000)],
        ),
        l.phase is Waiting ==> step(l, Input::DelayOver) == (
            Link { phase: Phase::Fetching, ..l },
            seq![Action::Notify(Notice::Status(Status::Connecting)), Action::FetchConfig],
        ),
{
}

/// Settings that were read open the socket, and the first certificate seen is announced as
/// trusted before that; the socket once open, the phone says hello under its name and waits for
/// an offer.
pub proof fn settings_open_the_socket(l: Link, observed: Option<Fingerprint>)
    ensures
        l.phase is Fetching ==> {
            let s = step(l, Input::ConfigRead { observed });
            let news = observed is Some && !l.cert_announced;
            &&& s.0 == (Link {
                phase: Phase::Connecting,
                cert_announced: l.cert_announced || observed is Some,
                ..l
            })
            &&& news ==> s.1 == seq![
                Action::Notify(Notice::Certificate { fingerprint: observed, trusted: true }),
                Action::OpenSocket,
            ]
            &&& !news ==> s.1 == seq![Action::OpenSocket]
        },
        l.phase is Connecting ==> step(l, Input::SocketOpened) == (
            Link { phase: Phase::Open, session: false, ..l },
            seq![
                Action::Send(ClientMsg::Hello { name: l.name }),
                Action::Notify(Notice::Status(Status::WaitingForOffer)),
            ],
        ),
{
}

/// A switcher that cannot be reached, at either step, is told and tried again; one with another
/// certificate than the remembered one is refused, and its certificate shown as not trusted.
pub proof fn failures_are_told_and_tried_again(
    l: Link,
    error: String,
    observed: Option<Fingerprint>,
)
    ensures
        l.phase is Fetching ==> step(
            l,
            Input::ConfigFailed { error, mismatch: false, observed },
        ) == (
            Link { phase: Phase::Top, session: false, ..l },
            seq![Action::Notify(Notice::Status(Status::Unreachable(error)))],
        ),
        l.phase is Fetching ==> step(
            l,
            Input::ConfigFailed { error, mismatch: true, observed },
        ) == (
            Link { phase: Phase::Top, session: false, ..l },
            seq![
                Action::Notify(Notice::Certificate { fingerprint: observed, trusted: false }),
                Action::Notify(Notice::Status(Status::CertificateChanged)),
            ],
        ),
        l.phase is Connecting ==> step(l, Input::SocketFailed { error }) == (
            Link { phase: Phase::Top, session: false, ..l },
            seq![Action::Notify(Notice::Status(Status::Unreachable(error)))],
        ),
{
}

/// An offer is answered. One that the running session can take is handed to it; otherwise a new
/// session is made for that offer, any old one closed first. Its answer is sent and the
/// negotiation shown; a session that cannot be made is told, and the socket stays open.
pub proof fn offers_are_answered(
    l: Link,
    sdp: String,
    can_reoffer: bool,
    answer: String,
    error: String,
)
    ensures
        l.phase is Open ==> {
            let s = step(l, Input::Received { msg: ServerMsg::Offer { sdp }, can_reoffer });
            &&& l.session && can_reoffer ==> s == (
                Link { phase: Phase::Reoffering { sdp }, ..l },
                seq![Action::Reoffer(sdp)],
            )
            &&& l.session && !can_reoffer ==> s == (
                Link { phase: Phase::Starting, session: false, ..l },
                seq![Action::CloseSession, Action::StartSession(sdp)],
            )
            &&& !l.session ==> s == (
                Link { phase: Phase::Starting, session: false, ..l },
                seq![Action::StartSession(sdp)],
            )
        },
        l.phase is Starting ==> step(l, Input::Started { answer }) == (
            Link { phase: Phase::Open, session: true, ..l },
            seq![
                Action::Send(ClientMsg::Answer { sdp: answer }),
                Action::Notify(Notice::Status(Status::Negotiating)),
            ],
        ),
        l.phase is Starting ==> step(l, Input::StartFailed { error }) == (
            Link { phase: Phase::Open, session: false, ..l },
            seq![Action::Notify(Notice::Error(error))],
        ),
        l.phase is Reoffering ==> step(l, Input::Reoffered { answer }) == (
            Link { phase: Phase::Open, ..l },
            seq![
                Action::Send(ClientMsg::Answer { sdp: answer }),
                Action::Notify(Notice::Status(Status::IceRestart)),
            ],
        ),
        l.phase is Reoffering ==> step(l, Input::ReofferFailed) == (
            Link { phase: Phase::Starting, session: false, ..l },
            seq![Action::CloseSession, Action::StartSession(l.phase->sdp)],
        ),
{
    if l.phase is Open && l.session && !can_reoffer {
        let s = step(l, Input::Received { msg: ServerMsg::Offer { sdp }, can_reoffer });
        assert(s.1 =~= seq![Action::CloseSession, Action::StartSession(sdp)]);
    }
    if l.phase is Open && !l.session {
        let s = step(l, Input::Received { msg: ServerMsg::Offer { sdp }, can_reoffer });
        assert(s.1 =~= seq![Action::StartSession(sdp)]);
    }
}

/// While the socket is open, candidates of the switcher reach the session, what the session has to
/// say is sent, and the interface is told of the air and of errors, each as it came. Nothing
/// changes by that.
pub proof fn open_socket_carries_messages(
    l: Link,
    candidate: String,
    line: u32,
    on: bool,
    message: String,
    msg: ClientMsg,
    can_reoffer: bool,
)
    requires
        l.phase is Open,
    ensures
        step(
            l,
            Input::Received {
                msg: ServerMsg::Ice { candidate, sdp_m_line_index: line },
                can_reoffer,
            },
        ) == (
            l,
            if l.session {
                seq![Action::AddIce { candidate, sdp_m_line_index: line }]
            } else {
                Seq::empty()
            },
        ),
        step(l, Input::Received { msg: ServerMsg::OnAir { on }, can_reoffer }) == (
            l,
            seq![Action::Notify(Notice::OnAir(on))],
        ),
        step(l, Input::Received { msg: ServerMsg::Error { message }, can_reoffer }) == (
            l,
            seq![Action::Notify(Notice::Error(message))],
        ),
        step(l, Input::Outgoing(msg)) == (l, seq![Action::Send(msg)]),
{
}

/// A farewell of the switcher ends everything and is shown with its reason; a cancellation says
/// goodbye first where the socket is open. A socket that was lost, or a session that was closed,
/// is tried again. In each case the session, if any, is closed, and the encoder's output detached.
pub proof fn ends_clean_up(l: Link, reason: String, can_reoffer: bool)
    requires
        l.phase is Open,
    ensures
        ({
            let closed = if l.session {
                seq![Action::CloseSession]
            } else {
                Seq::empty()
            };
            let bye = step(
                l,
                Input::Received { msg: ServerMsg::Bye { reason }, can_reoffer },
            );
            let cancelled = step(l, Input::Cancelled);
            let lost = step(l, Input::SocketLost);
            let over = step(l, Input::SessionClosed);
            &&& bye.0 == (Link { phase: Phase::Done, session: false, ..l })
            &&& bye.1 == closed + seq![
                Action::Notify(Notice::Ended(reason)),
                Action::CloseSocket,
                Action::DetachOutput,
            ]
            &&& cancelled.0 == (Link { phase: Phase::Done, session: false, ..l })
            &&& cancelled.1 == seq![Action::Send(ClientMsg::Bye), Action::CloseSocket] + closed
                + seq![Action::DetachOutput]
            &&& lost.0 == (Link { phase: Phase::Top, session: false, ..l })
            &&& lost.1 == closed + seq![Action::DetachOutput]
            &&& l.session ==> over == (
                Link { phase: Phase::Top, session: false, ..l },
                seq![Action::CloseSocket, Action::DetachOutput],
            )
            &&& !l.session ==> over == (l, Seq::<Action>::empty())
        }),
{
}

/// A cancellation before the socket is open only detaches the output.
pub proof fn early_cancellation_ends_quietly(l: Link)
    requires
        l.phase is Top || l.phase is Waiting || l.phase is Connecting,
    ensures
        step(l, Input::Cancelled) == (
            Link { phase: Phase::Done, session: false, ..l },
            seq![Action::DetachOutput],
        ),
{
}

/// What does not belong to where the loop stands changes nothing.
pub proof fn stray_events_change_nothing(l: Link, input: Input)
    requires
        match input {
            Input::Proceed => !(l.phase is Top),
            Input::Cancelled => l.phase is Fetching || l.phase is Reoffering || l.phase is Starting
                || l.phase is Done,
            Input::DelayOver => !(l.phase is Waiting),
            Input::ConfigRead { .. } | Input::ConfigFailed { .. } => !(l.phase is Fetching),
            Input::SocketOpened | Input::SocketFailed { .. } => !(l.phase is Connecting),
            Input::Received { .. } | Input::SocketLost | Input::Outgoing(_)
            | Input::SessionClosed => !(l.phase is Open),
            Input::Reoffered { .. } | Input::ReofferFailed => !(l.phase is Reoffering),
            Input::Started { .. } | Input::StartFailed { .. } => !(l.phase is Starting),
        },
    ensures
        step(l, input) == (l, Seq::<Action>::empty()),
{
}

/// A name is presented as it is, unless it is blank.
pub proof fn blank_names_are_not_presented(name: Seq<char>)
    ensures
        strings::trim(name).len() == 0 ==> presented(name) is None,
        strings::trim(name).len() > 0 ==> presented(name) == Some(name),
{
}

/// Each status has its own line, with the address or the error that belongs to it.
pub proof fn status_lines_say_what_happens(error: String, host: Seq<char>, port: u16)
    ensures
        status_text(Status::Connecting, host, port) == "Connexion au Mac ("@ + host + ":"@
            + strings::decimal(port as nat) + ")…"@,
        status_text(Status::Unreachable(error), host, port) == "Mac injoignable : "@ + error@,
        status_text(Status::CertificateChanged, host, port)
            == "Certificat de la régie changé : connexion refusée."@,
        status_text(Status::WaitingForOffer, host, port)
            == "Connecté au Mac, en attente de l'offre…"@,
        status_text(Status::IceRestart, host, port) == "Redémarrage ICE…"@,
        status_text(Status::Negotiating, host, port) == "Négociation…"@,
{
}

/// The interface hears of each notice what it says, a digest in hexadecimal.
pub proof fn events_say_what_notices_say(e: ClientEvent, n: Notice, host: Seq<char>, port: u16)
    requires
        tells(e, n, host, port),
    ensures
        n is Disconnected ==> e is Disconnected,
        n is OnAir ==> e == ClientEvent::OnAir(n->OnAir_0),
        n is Error ==> e == ClientEvent::Error(n->Error_0),
        n is Ended ==> e == ClientEvent::Ended(n->Ended_0),
        n is Status ==> e is Status && e->Status_0@ == status_text(n->Status_0, host, port),
        n is Certificate ==> e is Certificate && e->Certificate_trusted == n->trusted,
        n is Certificate && n->fingerprint is Some ==> e->Certificate_fingerprint@ == ws::hex(
            n->fingerprint->0@,
        ),
        n is Certificate && n->fingerprint is None ==> e->Certificate_fingerprint@.len() == 0,
{
}

/// A link begins at the top, without a session, under the name that is presented.
pub proof fn links_begin_at_the_top(name: &str, r: Link)
    requires
        call_ensures(Link::new, (name,), r),
    ensures
        r.phase is Top && r.first && !r.cert_announced && !r.session,
        r.name is Some <==> presented(name@) is Some,
        r.name is Some ==> r.name->0@ == presented(name@)->0,
{
}

} // verus!
