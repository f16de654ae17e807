//! Control by OSC (UDP), with the same actions as the web interface:
//! - `/streame/program <id>` or `/streame/program/<id>`: to the programme, with the transition;
//! - `/streame/cut <id>` or `/streame/cut/<id>`: to the programme at once;
//! - `/streame/preview <id>` or `/streame/preview/<id>`: to the preview;
//! - `/streame/take`: preview to programme.
//!
//! Bundles are accepted; nothing is answered.

use crate::engine;
use crate::engine::{Effect, Engine, Scene};
use crate::strings;
use vstd::prelude::*;

verus! {

/// An OSC packet of the crate `rosc`, kept closed.
#[verifier::external_type_specification]
#[verifier::external_body]
pub struct ExOscPacket(rosc::OscPacket);

/// An argument of an OSC message of the crate `rosc`, kept closed.
#[verifier::external_type_specification]
#[verifier::external_body]
pub struct ExOscType(rosc::OscType);

/// Why the crate `rosc` could not read a packet.
#[verifier::external_type_specification]
#[verifier::external_body]
pub struct ExOscError(rosc::OscError);

/// An argument of a message, as far as it can name a scene.
pub enum OscArg {
    Text(String),
    Int(i32),
    Long(i64),
    Other,
}

/// Contents of an [`OscArg`].
pub enum ArgView {
    Text(Seq<char>),
    Int(i32),
    Long(i64),
    Other,
}

impl View for OscArg {
    type V = ArgView;

    open spec fn view(&self) -> ArgView {
        match self {
            OscArg::Text(s) => ArgView::Text(s@),
            OscArg::Int(i) => ArgView::Int(*i),
            OscArg::Long(i) => ArgView::Long(*i),
            OscArg::Other => ArgView::Other,
        }
    }
}

/// A message.
pub struct OscMessage {
    pub addr: String,
    pub args: Vec<OscArg>,
}

/// Contents of an [`OscMessage`].
pub struct MessageView {
    pub addr: Seq<char>,
    pub args: Seq<ArgView>,
}

impl View for OscMessage {
    type V = MessageView;

    open spec fn view(&self) -> MessageView {
        MessageView { addr: self.addr@, args: self.args@.map_values(|a: OscArg| a@) }
    }
}

/// A packet: a message, or several packets in order.
pub enum Packet {
    Message(OscMessage),
    Bundle(Vec<Packet>),
}

/// Contents of a [`Packet`].
pub enum PacketView {
    Message(MessageView),
    Bundle(Seq<PacketView>),
}

/// Contents of a packet.
pub open spec fn packet_view(p: Packet) -> PacketView
    decreases p,
{
    match p {
        Packet::Message(m) => PacketView::Message(m@),
        Packet::Bundle(list) => PacketView::Bundle(packet_views(list@)),
    }
}

/// Contents of packets.
pub open spec fn packet_views(list: Seq<Packet>) -> Seq<PacketView>
    decreases list,
{
    if list.len() == 0 {
        seq![]
    } else {
        packet_views(list.drop_last()).push(packet_view(list.last()))
    }
}

/// What a packet of the crate `rosc` holds.
pub uninterp spec fn held(p: rosc::OscPacket) -> PacketView;

/// What an argument of the crate `rosc` holds.
pub uninterp spec fn held_arg(a: rosc::OscType) -> ArgView;

/// What `rosc::decoder::decode_udp` reads out of a datagram, if it can.
pub uninterp spec fn decoded(data: Seq<u8>) -> Option<PacketView>;

/// Longest datagram that is read.
pub const MAX_DATAGRAM: usize = 4096;

/// `rosc::decoder::decode_udp`: whether a datagram can be read, and what it then holds, depends on
/// its bytes alone. The format is not spelled out. Its nesting is followed by recursion, so the
/// length is bounded.
#[verifier::external_body]
fn decode_udp(data: &[u8]) -> (r: Result<rosc::OscPacket, rosc::OscError>)
    requires
        data@.len() <= MAX_DATAGRAM,
    ensures
        (match r {
            Ok(p) => decoded(data@) == Some(held(p)),
            Err(_) => decoded(data@) is None,
        }),
{
    match rosc::decoder::decode_udp(data) {
        Ok((_, packet)) => Ok(packet),
        Err(e) => Err(e),
    }
}

/// A packet taken apart.
enum Parts {
    Message(String, Vec<rosc::OscType>),
    Bundle(Vec<rosc::OscPacket>),
}

/// `rosc::OscPacket`: a packet is either a message, with an address and arguments, or a bundle of
/// packets.
#[verifier::external_body]
fn take_apart(p: rosc::OscPacket) -> (r: Parts)
    ensures
        (match r {
            Parts::Message(addr, args) => held(p) == PacketView::Message(
                MessageView {
                    addr: addr@,
                    args: args@.map_values(|a: rosc::OscType| held_arg(a)),
                },
            ),
            Parts::Bundle(list) => held(p) == PacketView::Bundle(
                list@.map_values(|q: rosc::OscPacket| held(q)),
            ),
        }),
{
    match p {
        rosc::OscPacket::Message(m) => Parts::Message(m.addr, m.args),
        rosc::OscPacket::Bundle(b) => Parts::Bundle(b.content),
    }
}

/// `rosc::OscType`: a text, a 32-bit or a 64-bit integer, or something else.
#[verifier::external_body]
fn open_arg(a: rosc::OscType) -> (r: OscArg)
    ensures
        r@ == held_arg(a),
{
    match a {
        rosc::OscType::String(s) => OscArg::Text(s),
        rosc::OscType::Int(i) => OscArg::Int(i),
        rosc::OscType::Long(i) => OscArg::Long(i),
        _ => OscArg::Other,
    }
}

fn open_args(args: Vec<rosc::OscType>) -> (r: Vec<OscArg>)
    ensures
        r@.map_values(|a: OscArg| a@) == args@.map_values(|a: rosc::OscType| held_arg(a)),
{
    let ghost all = args@;
    let mut out: Vec<OscArg> = Vec::new();
    for a in it: args
        invariant
            it.seq() == all,
            out@.len() == it.index(),
            forall|j: int| 0 <= j < out@.len() ==> (#[trigger] out@[j])@ == held_arg(all[j]),
    {
        out.push(open_arg(a));
    }
    assert(out@.map_values(|a: OscArg| a@) =~= all.map_values(|a: rosc::OscType| held_arg(a)));
    out
}

proof fn lemma_views(list: Seq<Packet>)
    ensures
        packet_views(list).len() == list.len(),
        forall|i: int|
            0 <= i < list.len() ==> #[trigger] packet_views(list)[i] == packet_view(list[i]),
    decreases list.len(),
{
    if list.len() > 0 {
        lemma_views(list.drop_last());
        assert forall|i: int| 0 <= i < list.len() implies #[trigger] packet_views(list)[i]
            == packet_view(list[i]) by {
            if i < list.len() - 1 {
                assert(packet_views(list.drop_last())[i] == packet_view(list.drop_last()[i]));
            }
        }
    }
}

/// A packet of the crate `rosc` as one of the library.
fn opened(p: rosc::OscPacket) -> (r: Packet)
    ensures
        packet_view(r) == held(p),
    decreases held(p),
{
    let ghost whole = held(p);
    match take_apart(p) {
        Parts::Message(addr, args) => Packet::Message(OscMessage { addr, args: open_args(args) }),
        Parts::Bundle(list) => {
            let ghost all = list@;
            let ghost views = all.map_values(|q: rosc::OscPacket| held(q));
            let mut out: Vec<Packet> = Vec::new();
            for q in it: list
                invariant
                    it.seq() == all,
                    whole == held(p),
                    whole == PacketView::Bundle(views),
                    views == all.map_values(|q: rosc::OscPacket| held(q)),
                    out@.len() == it.index(),
                    forall|j: int|
                        0 <= j < out@.len() ==> packet_view(#[trigger] out@[j]) == held(all[j]),
            {
                assert(views[it.index() as int] == held(q));
                assert(decreases_to!(whole => whole->Bundle_0));
                assert(decreases_to!(views => views[it.index() as int]));
                out.push(opened(q));
            }
            proof {
                lemma_views(out@);
                assert(packet_views(out@) =~= views);
            }
            Packet::Bundle(out)
        },
    }
}

/// Reads a datagram.
pub fn decode(data: &[u8]) -> (r: Option<Packet>)
    requires
        data@.len() <= MAX_DATAGRAM,
    ensures
        (match r {
            Some(p) => decoded(data@) == Some(packet_view(p)),
            None => decoded(data@) is None,
        }),
{
    match decode_udp(data) {
        Ok(p) => Some(opened(p)),
        Err(_) => None,
    }
}

/// An action asked for by a message.
#[derive(Debug)]
pub enum Action {
    Program(String),
    Cut(String),
    Preview(String),
    Take,
}

/// Contents of an [`Action`].
pub enum ActionView {
    Program(Seq<char>),
    Cut(Seq<char>),
    Preview(Seq<char>),
    Take,
}

impl View for Action {
    type V = ActionView;

    open spec fn view(&self) -> ActionView {
        match self {
            Action::Program(id) => ActionView::Program(id@),
            Action::Cut(id) => ActionView::Cut(id@),
            Action::Preview(id) => ActionView::Preview(id@),
            Action::Take => ActionView::Take,
        }
    }
}

/// A text without slashes at its end.
pub open spec fn bare_end(s: Seq<char>) -> Seq<char>
    decreases s.len(),
{
    if s.len() > 0 && s.last() == '/' {
        bare_end(s.drop_last())
    } else {
        s
    }
}

/// A text without slashes at its start.
pub open spec fn bare_start(s: Seq<char>) -> Seq<char>
    decreases s.len(),
{
    if s.len() > 0 && s[0] == '/' {
        bare_start(s.drop_first())
    } else {
        s
    }
}

/// The scene that an argument names: a text is its identifier, an integer its number.
pub open spec fn arg_id(a: ArgView) -> Option<Seq<char>> {
    match a {
        ArgView::Text(s) => Some(s),
        ArgView::Int(i) => Some(seq!['#'] + strings::signed_decimal(i as int)),
        ArgView::Long(i) => Some(seq!['#'] + strings::signed_decimal(i as int)),
        ArgView::Other => None,
    }
}

/// What stands before the first slash, and what behind it where there is one.
pub open spec fn cut_at_slash(s: Seq<char>) -> (Seq<char>, Option<Seq<char>>) {
    let i = strings::find(s, '/');
    (
        s.take(i),
        if i < s.len() {
            Some(s.skip(i + 1))
        } else {
            None
        },
    )
}

/// The action that a verb and a scene ask for.
pub open spec fn action_for(verb: Seq<char>, id: Option<Seq<char>>) -> Option<ActionView> {
    if verb == "take"@ {
        Some(ActionView::Take)
    } else {
        match id {
            Some(id) => if verb == "program"@ {
                Some(ActionView::Program(id))
            } else if verb == "cut"@ {
                Some(ActionView::Cut(id))
            } else if verb == "preview"@ {
                Some(ActionView::Preview(id))
            } else {
                None
            },
            None => None,
        }
    }
}

/// The action that a message asks for: `/streame/<verb>[/<id>]`, with the scene at the end of the
/// address or as first argument.
pub open spec fn action_of(m: MessageView) -> Option<ActionView> {
    let (root, rest) = cut_at_slash(bare_start(bare_end(m.addr)));
    if root != "streame"@ || rest is None {
        None
    } else {
        let (verb, id) = cut_at_slash(rest->0);
        action_for(
            verb,
            if id is Some {
                id
            } else if m.args.len() > 0 {
                arg_id(m.args[0])
            } else {
                None
            },
        )
    }
}

fn bare(s: &[char]) -> (r: Vec<char>)
    ensures
        r@ == bare_start(bare_end(s@)),
{
    let mut n: usize = s.len();
    assert(s@.take(n as int) == s@);
    while n > 0 && s[n - 1] == '/'
        invariant
            n <= s@.len(),
            bare_end(s@.take(n as int)) == bare_end(s@),
        decreases n,
    {
        assert(s@.take(n as int).drop_last() == s@.take(n - 1));
        n -= 1;
    }
    let ghost t = bare_end(s@);
    assert(t == s@.take(n as int));
    let mut k: usize = 0;
    assert(t.skip(0) == t);
    while k < n && s[k] == '/'
        invariant
            k <= n <= s@.len(),
            t == s@.take(n as int),
            bare_start(t.skip(k as int)) == bare_start(t),
        decreases n - k,
    {
        assert(t.skip(k as int).drop_first() == t.skip(k + 1));
        assert(t.skip(k as int)[0] == s@[k as int]);
        k += 1;
    }
    assert(k < n ==> t.skip(k as int)[0] == s@[k as int]);
    assert(s@.subrange(k as int, n as int) == t.skip(k as int));
    strings::part(s, k, n)
}

fn halves(s: &[char]) -> (r: (Vec<char>, Option<Vec<char>>))
    ensures
        r.0@ == cut_at_slash(s@).0,
        (match r.1 {
            Some(t) => cut_at_slash(s@).1 == Some(t@),
            None => cut_at_slash(s@).1 is None,
        }),
{
    assert(s@.skip(0) == s@);
    let i: usize = strings::find_from(s, '/', 0);
    let head = strings::part(s, 0, i);
    assert(head@ == s@.take(i as int));
    if i < s.len() {
        let tail = strings::part(s, i + 1, s.len());
        assert(tail@ == s@.skip(i + 1));
        (head, Some(tail))
    } else {
        (head, None)
    }
}

fn number_id(n: i64) -> (r: String)
    ensures
        r@ == seq!['#'] + strings::signed_decimal(n as int),
{
    let mut out = String::new();
    out.push('#');
    strings::push_signed(&mut out, n);
    assert(out@ =~= seq!['#'] + strings::signed_decimal(n as int));
    out
}

fn id_of(a: &OscArg) -> (r: Option<String>)
    ensures
        (match r {
            Some(s) => arg_id(a@) == Some(s@),
            None => arg_id(a@) is None,
        }),
{
    match a {
        OscArg::Text(s) => Some(s.clone()),
        OscArg::Int(i) => Some(number_id(*i as i64)),
        OscArg::Long(i) => Some(number_id(*i)),
        OscArg::Other => None,
    }
}

/// The action that a message asks for.
pub fn parse(msg: &OscMessage) -> (r: Option<Action>)
    ensures
        (match r {
            Some(a) => action_of(msg@) == Some(a@),
            None => action_of(msg@) is None,
        }),
{
    let addr = strings::chars_of(msg.addr.as_str());
    let path = bare(addr.as_slice());
    let (root, rest) = halves(path.as_slice());
    if !strings::is_text(root.as_slice(), "streame") {
        return None;
    }
    let rest = match rest {
        Some(t) => t,
        None => {
            return None;
        },
    };
    let (verb, end) = halves(rest.as_slice());
    let id: Option<String> = match end {
        Some(t) => Some(strings::string_of(t.as_slice())),
        None => if msg.args.len() > 0 {
            id_of(&msg.args[0])
        } else {
            None
        },
    };
    if strings::is_text(verb.as_slice(), "take") {
        return Some(Action::Take);
    }
    match id {
        Some(id) => if strings::is_text(verb.as_slice(), "program") {
            Some(Action::Program(id))
        } else if strings::is_text(verb.as_slice(), "cut") {
            Some(Action::Cut(id))
        } else if strings::is_text(verb.as_slice(), "preview") {
            Some(Action::Preview(id))
        } else {
            None
        },
        None => None,
    }
}

/// The scene that is meant: `#n` is the scene of that number, counted from 1, anything else an
/// identifier.
pub open spec fn scene_meant(scenes: Seq<Scene>, id: Seq<char>) -> Option<usize> {
    if id.len() > 0 && id[0] == '#' {
        match strings::parse_unsigned(id.skip(1), usize::MAX as nat) {
            Some(n) => if 1 <= n <= scenes.len() {
                Some((n - 1) as usize)
            } else {
                None
            },
            None => None,
        }
    } else {
        engine::scene_with(scenes, id)
    }
}

fn scene_index(engine: &Engine, id: &str) -> (r: Option<usize>)
    ensures
        r == scene_meant(engine.scenes@, id@),
{
    let s = strings::chars_of(id);
    if s.len() > 0 && s[0] == '#' {
        let digits = strings::part(s.as_slice(), 1, s.len());
        assert(digits@ == s@.skip(1));
        match strings::parse_of(digits.as_slice(), usize::MAX as u64) {
            Some(n) => if n >= 1 && n <= engine.scenes.len() as u64 {
                Some((n - 1) as usize)
            } else {
                None
            },
            None => None,
        }
    } else {
        engine.scene_index(id)
    }
}

/// The switcher after an action, what to do, and whether the scene is known.
pub open spec fn applied(e: Engine, a: ActionView, now: u64) -> (Engine, Seq<Effect>, bool) {
    match a {
        ActionView::Program(id) => match scene_meant(e.scenes@, id) {
            Some(i) => {
                let (s, f) = engine::switched(e, i, true, now);
                (s, f, true)
            },
            None => (e, seq![], false),
        },
        ActionView::Cut(id) => match scene_meant(e.scenes@, id) {
            Some(i) => {
                let (s, f) = engine::switched(e, i, false, now);
                (s, f, true)
            },
            None => (e, seq![], false),
        },
        ActionView::Preview(id) => match scene_meant(e.scenes@, id) {
            Some(i) => {
                let (s, f) = engine::previewed(e, i);
                (s, f, true)
            },
            None => (e, seq![], false),
        },
        ActionView::Take => {
            let (s, f) = engine::taken(e, now);
            (s, f, true)
        },
    }
}

/// Performs an action; false for an unknown scene.
pub fn apply(engine: &mut Engine, action: &Action, now: u64) -> (r: (Vec<Effect>, bool))
    requires
        engine::engine_wf(*old(engine)),
    ensures
        engine::engine_wf(*final(engine)),
        (*final(engine), (r.0)@, r.1) == applied(*old(engine), action@, now),
{
    match action {
        Action::Program(id) => match scene_index(engine, id.as_str()) {
            Some(i) => (engine.transition_to(i, now), true),
            None => nothing(),
        },
        Action::Cut(id) => match scene_index(engine, id.as_str()) {
            Some(i) => (engine.cut(i, now), true),
            None => nothing(),
        },
        Action::Preview(id) => match scene_index(engine, id.as_str()) {
            Some(i) => (engine.set_preview(i), true),
            None => nothing(),
        },
        Action::Take => (engine.take(now), true),
    }
}

fn nothing() -> (r: (Vec<Effect>, bool))
    ensures
        (r.0)@ == Seq::<Effect>::empty(),
        !r.1,
{
    (Vec::new(), false)
}

/// The switcher after a packet, and what to do: the messages of a bundle act one after the other,
/// and a message that asks for nothing changes nothing.
pub open spec fn handled(e: Engine, p: PacketView, now: u64) -> (Engine, Seq<Effect>)
    decreases p,
{
    match p {
        PacketView::Message(m) => match action_of(m) {
            Some(a) => (applied(e, a, now).0, applied(e, a, now).1),
            None => (e, seq![]),
        },
        PacketView::Bundle(list) => handled_all(e, list, now),
    }
}

/// The switcher after several packets, and what to do.
pub open spec fn handled_all(e: Engine, list: Seq<PacketView>, now: u64) -> (Engine, Seq<Effect>)
    decreases list,
{
    if list.len() == 0 {
        (e, seq![])
    } else {
        let a = handled_all(e, list.drop_last(), now);
        let b = handled(a.0, list.last(), now);
        (b.0, a.1 + b.1)
    }
}

/// Acts on a packet.
pub fn handle(engine: &mut Engine, packet: &Packet, now: u64) -> (r: Vec<Effect>)
    requires
        engine::engine_wf(*old(engine)),
    ensures
        engine::engine_wf(*final(engine)),
        (*final(engine), r@) == handled(*old(engine), packet_view(*packet), now),
    decreases packet,
{
    match packet {
        Packet::Message(msg) => match parse(msg) {
            Some(action) => {
                let (out, _known) = apply(engine, &action, now);
                out
            },
            None => Vec::new(),
        },
        Packet::Bundle(list) => {
            let ghost views = packet_views(list@);
            let ghost start = *engine;
            let mut out: Vec<Effect> = Vec::new();
            let mut i: usize = 0;
            proof {
                lemma_views(list@);
                assert(views.take(0) == Seq::<PacketView>::empty());
            }
            while i < list.len()
                invariant
                    i <= list@.len(),
                    *packet == Packet::Bundle(*list),
                    views == packet_views(list@),
                    views.len() == list@.len(),
                    forall|j: int|
                        0 <= j < views.len() ==> #[trigger] views[j] == packet_view(list@[j]),
                    engine::engine_wf(*engine),
                    (*engine, out@) == handled_all(start, views.take(i as int), now),
                decreases list.len() - i,
            {
                proof {
                    assert(views.take(i + 1).drop_last() == views.take(i as int));
                    assert(views.take(i + 1).last() == views[i as int]);
                    assert(decreases_to!(packet => packet->Bundle_0));
                    assert(decreases_to!(list => list@));
                    assert(decreases_to!(list@ => list@[i as int]));
                }
                let mut more = handle(engine, &list[i], now);
                out.append(&mut more);
                i += 1;
            }
            assert(views.take(views.len() as int) == views);
            out
        },
    }
}

/// Acts on a datagram; nothing happens where it cannot be read.
pub fn receive(engine: &mut Engine, data: &[u8], now: u64) -> (r: Option<Vec<Effect>>)
    requires
        engine::engine_wf(*old(engine)),
        data@.len() <= MAX_DATAGRAM,
    ensures
        engine::engine_wf(*final(engine)),
        (match decoded(data@) {
            Some(p) => r is Some && (*final(engine), (r->0)@) == handled(*old(engine), p, now),
            None => r is None && *final(engine) == *old(engine),
        }),
{
    match decode(data) {
        Some(p) => Some(handle(engine, &p, now)),
        None => None,
    }
}

/// The scene at the end of the address and the scene as first argument mean the same, for an
/// identifier without slashes.
pub proof fn address_and_argument_agree(verb: Seq<char>, id: Seq<char>, args: Seq<ArgView>)
    requires
        verb.len() > 0,
        !verb.contains('/'),
        id.len() > 0,
        !id.contains('/'),
    ensures
        action_of(
            MessageView { addr: "/streame/"@ + verb + seq!['/'] + id, args },
        ) == action_of(
            MessageView { addr: "/streame/"@ + verb, args: seq![ArgView::Text(id)] + args },
        ),
{
    reveal_strlit("/streame/");
    reveal_strlit("streame");
    let tail = verb + seq!['/'] + id;
    lemma_under_root(tail);
    lemma_under_root(verb);
    assert("/streame/"@ + verb + seq!['/'] + id == "/streame/"@ + tail);
    assert(tail.last() == id.last() && id.contains(id.last()));
    assert(verb.contains(verb.last()));
    assert forall|j: int| 0 <= j < verb.len() implies tail[j] != '/' by {
        assert(verb.contains(verb[j]));
    }
    assert forall|j: int| 0 <= j < verb.len() implies verb[j] != '/' by {
        assert(verb.contains(verb[j]));
    }
    strings::lemma_find_is(tail, '/', verb.len() as int);
    strings::lemma_find_is(verb, '/', verb.len() as int);
    assert(tail.take(verb.len() as int) == verb);
    assert(tail.skip(verb.len() as int + 1) == id);
    assert(verb.take(verb.len() as int) == verb);
    assert((seq![ArgView::Text(id)] + args)[0] == ArgView::Text(id));
}

/// What stands under the root of the addresses.
proof fn lemma_under_root(tail: Seq<char>)
    requires
        tail.len() > 0,
        tail.last() != '/',
    ensures
        cut_at_slash(bare_start(bare_end("/streame/"@ + tail))) == ("streame"@, Some(tail)),
{
    reveal_strlit("/streame/");
    reveal_strlit("streame");
    let s = "/streame/"@ + tail;
    assert(s.last() == tail.last());
    assert(bare_end(s) == s);
    let t = s.drop_first();
    assert(t == "streame"@ + seq!['/'] + tail);
    assert(t[0] == 's');
    assert(bare_start(t) == t);
    assert(bare_start(s) == t);
    strings::lemma_find_is(t, '/', 7);
    assert(t.take(7) == "streame"@);
    assert(t.skip(8) == tail);
}

/// The scene at a place is meant by its number, counted from 1.
pub proof fn scenes_are_numbered_from_one(scenes: Seq<Scene>, i: int)
    requires
        0 <= i < scenes.len(),
        scenes.len() <= usize::MAX,
    ensures
        scene_meant(scenes, seq!['#'] + strings::signed_decimal(i + 1)) == Some(i as usize),
{
    let id = seq!['#'] + strings::signed_decimal(i + 1);
    assert(id.skip(1) == strings::decimal((i + 1) as nat));
    strings::decimal_is_read_back((i + 1) as nat, usize::MAX as nat);
}

/// An argument names a scene: a text by its identifier, an integer by its number.
pub proof fn arguments_name_scenes(s: Seq<char>, i: i32, l: i64)
    ensures
        arg_id(ArgView::Text(s)) == Some(s),
        arg_id(ArgView::Int(i)) == Some(seq!['#'] + strings::signed_decimal(i as int)),
        arg_id(ArgView::Long(l)) == Some(seq!['#'] + strings::signed_decimal(l as int)),
        arg_id(ArgView::Other) is None,
{
}

/// Each verb asks for its own action on the scene that is named, and `take` needs none; an unknown
/// verb, or a scene that is missing, asks for nothing.
pub proof fn verbs_ask_for_their_action(verb: Seq<char>, id: Seq<char>, given: Option<Seq<char>>)
    ensures
        action_for("program"@, Some(id)) == Some(ActionView::Program(id)),
        action_for("cut"@, Some(id)) == Some(ActionView::Cut(id)),
        action_for("preview"@, Some(id)) == Some(ActionView::Preview(id)),
        action_for("take"@, given) == Some(ActionView::Take),
        verb != "take"@ ==> action_for(verb, None) is None,
        verb != "take"@ && verb != "program"@ && verb != "cut"@ && verb != "preview"@ ==> action_for(
            verb,
            given,
        ) is None,
{
    reveal_strlit("program");
    reveal_strlit("cut");
    reveal_strlit("preview");
    reveal_strlit("take");
    assert("program"@.len() == 7 && "cut"@.len() == 3 && "preview"@.len() == 7 && "take"@.len()
        == 4);
    assert("program"@[1] == 'r' && "preview"@[1] == 'r' && "program"@[2] == 'o' && "preview"@[2]
        == 'e');
}

/// A message asks by its address, `/streame/` and a verb, and names the scene in its first
/// argument; further arguments do not count. Addresses under another root ask for nothing.
pub proof fn messages_ask_by_their_address(
    verb: Seq<char>,
    id: Seq<char>,
    rest: Seq<ArgView>,
    root: Seq<char>,
)
    requires
        verb.len() > 0,
        !verb.contains('/'),
        root.len() > 0,
        !root.contains('/'),
    ensures
        action_of(
            MessageView { addr: "/streame/"@ + verb, args: seq![ArgView::Text(id)] + rest },
        ) == action_for(verb, Some(id)),
        action_of(MessageView { addr: "/streame/"@ + verb, args: Seq::empty() }) == action_for(
            verb,
            None,
        ),
        root != "streame"@ ==> action_of(
            MessageView { addr: seq!['/'] + root + seq!['/'] + verb, args: rest },
        ) is None,
{
    lemma_verb(verb);
    assert((seq![ArgView::Text(id)] + rest)[0] == ArgView::Text(id));
    let s = seq!['/'] + root + seq!['/'] + verb;
    assert(s.last() == verb.last() && verb.contains(verb.last()));
    assert(bare_end(s) == s);
    let t = s.drop_first();
    assert(t =~= root + seq!['/'] + verb);
    assert(t[0] == root[0] && root.contains(root[0]));
    assert(bare_start(t) == t);
    assert(bare_start(s) == t);
    assert forall|j: int| 0 <= j < root.len() implies t[j] != '/' by {
        assert(root.contains(root[j]));
    }
    strings::lemma_find_is(t, '/', root.len() as int);
    assert(t.take(root.len() as int) =~= root);
}

proof fn lemma_verb(verb: Seq<char>)
    requires
        verb.len() > 0,
        !verb.contains('/'),
    ensures
        cut_at_slash(bare_start(bare_end("/streame/"@ + verb))) == ("streame"@, Some(verb)),
        cut_at_slash(verb) == (verb, None::<Seq<char>>),
{
    assert(verb.contains(verb.last()));
    lemma_under_root(verb);
    assert forall|j: int| 0 <= j < verb.len() implies verb[j] != '/' by {
        assert(verb.contains(verb[j]));
    }
    strings::lemma_find_is(verb, '/', verb.len() as int);
    assert(verb.take(verb.len() as int) =~= verb);
}

/// A scene is meant by its identifier, or by `#` and its number; a number that no scene has means
/// none.
pub proof fn unknown_numbers_mean_no_scene(scenes: Seq<Scene>, id: Seq<char>, n: nat)
    ensures
        id.len() == 0 || id[0] != '#' ==> scene_meant(scenes, id) == engine::scene_with(scenes, id),
        n == 0 || n > scenes.len() ==> scene_meant(scenes, seq!['#'] + strings::decimal(n)) is None,
{
    let t = seq!['#'] + strings::decimal(n);
    assert(t.skip(1) =~= strings::decimal(n));
    strings::decimal_is_read_back(n, n);
    if n <= usize::MAX {
        strings::decimal_is_read_back(n, usize::MAX as nat);
    }
}

/// An action does to the switcher what its name says, on the scene that it means: to the programme
/// with the configured transition, at once for a cut, to the preview, or preview to programme. For
/// a scene that is not known nothing happens.
pub proof fn actions_do_what_they_say(e: Engine, id: Seq<char>, now: u64)
    ensures
        ({
            let meant = scene_meant(e.scenes@, id);
            let program = applied(e, ActionView::Program(id), now);
            let cut = applied(e, ActionView::Cut(id), now);
            let preview = applied(e, ActionView::Preview(id), now);
            let take = applied(e, ActionView::Take, now);
            &&& meant is Some ==> (program.0, program.1) == engine::switched(
                e,
                meant->0,
                true,
                now,
            ) && program.2
            &&& meant is Some ==> (cut.0, cut.1) == engine::switched(e, meant->0, false, now)
                && cut.2
            &&& meant is Some ==> (preview.0, preview.1) == engine::previewed(e, meant->0)
                && preview.2
            &&& meant is None ==> program == (e, Seq::<Effect>::empty(), false)
            &&& meant is None ==> cut == (e, Seq::<Effect>::empty(), false)
            &&& meant is None ==> preview == (e, Seq::<Effect>::empty(), false)
            &&& (take.0, take.1) == engine::taken(e, now) && take.2
        }),
{
}

/// The messages of a bundle act one after the other, each on what the one before left, and what is
/// to be done is what each asks for, in that order. A message that asks for nothing does nothing.
pub proof fn bundles_act_in_order(e: Engine, list: Seq<PacketView>, p: PacketView, now: u64)
    ensures
        ({
            let a = handled(e, PacketView::Bundle(list), now);
            let b = handled(a.0, p, now);
            handled(e, PacketView::Bundle(list.push(p)), now) == (b.0, a.1 + b.1)
        }),
        handled(e, PacketView::Bundle(Seq::empty()), now) == (e, Seq::<Effect>::empty()),
        p is Message && action_of(p->Message_0) is None ==> handled(e, p, now) == (
            e,
            Seq::<Effect>::empty(),
        ),
        p is Message && action_of(p->Message_0) is Some ==> handled(e, p, now) == (
            applied(e, action_of(p->Message_0)->0, now).0,
            applied(e, action_of(p->Message_0)->0, now).1,
        ),
{
    assert(list.push(p).drop_last() =~= list);
    assert(handled_all(e, list.push(p), now) == ({
        let a = handled_all(e, list, now);
        let b = handled(a.0, p, now);
        (b.0, a.1 + b.1)
    }));
}

/// The contents of a packet are its own: a message's address and arguments, a bundle's packets.
pub proof fn packets_hold_their_contents(list: Seq<Packet>, p: Packet, m: OscMessage)
    ensures
        packet_view(Packet::Message(m)) == PacketView::Message(m@),
        m@.addr == m.addr@,
        m@.args.len() == m.args@.len(),
        packet_views(list.push(p)) == packet_views(list).push(packet_view(p)),
        packet_views(Seq::empty()).len() == 0,
{
    assert(list.push(p).drop_last() =~= list);
}

/// A message that cannot be read changes nothing; one that can is acted on.
pub proof fn unreadable_messages_change_nothing(
    e: &mut Engine,
    data: &[u8],
    now: u64,
    r: Option<Vec<Effect>>,
)
    requires
        call_ensures(receive, (e, data, now), r),
    ensures
        r is Some <==> decoded(data@) is Some,
        r is None ==> *final(e) == *old(e),
        r is Some ==> (*final(e), (r->0)@) == handled(*old(e), decoded(data@)->0, now),
{
}

} // verus!
