//! Decoding of the phone's H264 stream: which parameter sets are in force, what is handed to the
//! hardware decoder, and when a key frame is needed. The decoding session itself lives outside.

use crate::client::vtenc;
use crate::frame::SurfaceFrame;
use crate::h264;
pub use crate::h264::nalus;
use vstd::prelude::*;

verus! {

/// What became of a picture.
pub enum Outcome {
    /// Handed to the decoder, or nothing to hand over.
    Accepted,
    /// Thrown away: a key frame is needed.
    NeedKeyframe,
    /// The decoder failed; a key frame is needed too.
    Error(String),
}

/// Rules of decoding.
pub struct H264Decoder {
    /// A decoding session is open.
    pub session: bool,
    pub sps: Vec<u8>,
    pub pps: Vec<u8>,
    /// Nothing is handed over before a key frame.
    pub need_idr: bool,
    /// Pictures that failed since the last unit.
    pub errors: u32,
    /// Pictures that the decoder left out.
    pub dropped: u32,
    pub frames_in: u64,
}

/// Contents of an [`H264Decoder`].
pub struct DecoderView {
    pub session: bool,
    pub sps: Seq<u8>,
    pub pps: Seq<u8>,
    pub need_idr: bool,
    pub errors: u32,
    pub dropped: u32,
    pub frames_in: u64,
}

impl View for H264Decoder {
    type V = DecoderView;

    open spec fn view(&self) -> DecoderView {
        DecoderView {
            session: self.session,
            sps: self.sps@,
            pps: self.pps@,
            need_idr: self.need_idr,
            errors: self.errors,
            dropped: self.dropped,
            frames_in: self.frames_in,
        }
    }
}

/// A picture made ready for the decoder.
pub struct Unit {
    /// Its units, each behind its length.
    pub avcc: Vec<u8>,
    pub has_idr: bool,
    /// A session has to be opened first.
    pub open: bool,
}

/// What to do with a picture.
#[derive(Debug, Clone, Copy, PartialEq, Eq, Structural)]
pub enum Decision {
    Submit,
    Nothing,
    NeedKeyframe,
}

/// Kind of a unit: a sequence parameter set is 7, a picture parameter set 8, a key frame 5.
pub open spec fn unit_kind(unit: Seq<u8>) -> int {
    unit[0] as int % 32
}

/// The last unit of a kind, or what was in force before.
pub open spec fn in_force(before: Seq<u8>, units: Seq<Seq<u8>>, kind: int) -> Seq<u8>
    decreases units.len(),
{
    if units.len() == 0 {
        before
    } else if unit_kind(units.last()) == kind {
        units.last()
    } else {
        in_force(before, units.drop_last(), kind)
    }
}

/// One of the units of a kind differs from the one in force before it.
pub open spec fn changes(before: Seq<u8>, units: Seq<Seq<u8>>, kind: int) -> bool
    decreases units.len(),
{
    units.len() > 0 && (changes(before, units.drop_last(), kind) || unit_kind(units.last()) == kind
        && in_force(before, units.drop_last(), kind) != units.last())
}

/// Units that the decoder is given: neither parameter sets, nor delimiters, nor filler.
pub open spec fn is_coded(unit: Seq<u8>) -> bool {
    let k = unit_kind(unit);
    k != 7 && k != 8 && k != 9 && k != 12
}

/// The units of a picture that the decoder is given.
pub open spec fn coded_units(units: Seq<Seq<u8>>) -> Seq<Seq<u8>> {
    units.filter(|u: Seq<u8>| is_coded(u))
}

/// One of the units belongs to a key frame.
pub open spec fn has_idr(units: Seq<Seq<u8>>) -> bool {
    exists|i: int| 0 <= i < units.len() && unit_kind(#[trigger] units[i]) == 5
}

/// A picture failed since the last unit: a key frame is needed.
pub open spec fn after_errors(d: DecoderView) -> DecoderView {
    DecoderView { need_idr: d.need_idr || d.errors > 0, errors: 0, ..d }
}

/// The decoder after it has read the parameter sets of a picture.
pub open spec fn prepared(d: DecoderView, units: Seq<Seq<u8>>) -> DecoderView {
    DecoderView {
        sps: in_force(d.sps, units, 7),
        pps: in_force(d.pps, units, 8),
        ..after_errors(d)
    }
}

/// A session has to be opened: parameter sets are known, and they changed or none is open.
pub open spec fn must_open(d: DecoderView, units: Seq<Seq<u8>>) -> bool {
    let p = prepared(d, units);
    (changes(d.sps, units, 7) || changes(d.pps, units, 8) || !d.session) && p.sps.len() > 0
        && p.pps.len() > 0
}

/// The decoder after an attempt to open a session. A new one starts from a key frame, and
/// failures of the one before do not count.
pub open spec fn opened(d: DecoderView, ok: bool) -> DecoderView {
    if ok {
        DecoderView { session: true, need_idr: true, errors: 0, ..d }
    } else {
        DecoderView { session: false, ..d }
    }
}

/// What to do with a picture, once the session is there.
pub open spec fn decision(d: DecoderView, idr: bool, empty: bool) -> Decision {
    if !d.session || d.need_idr && !idr {
        Decision::NeedKeyframe
    } else if empty {
        Decision::Nothing
    } else {
        Decision::Submit
    }
}

/// The decoder after that decision: a key frame ends the waiting.
pub open spec fn decided(d: DecoderView, idr: bool) -> DecoderView {
    DecoderView { need_idr: d.need_idr && !(d.session && idr), ..d }
}

/// The decoder after a picture was handed over.
pub open spec fn submitted(d: DecoderView, ok: bool) -> DecoderView {
    if ok {
        DecoderView { frames_in: (d.frames_in + 1) as u64, ..d }
    } else {
        DecoderView { need_idr: true, ..d }
    }
}

/// The stream is broken, or none was decoded yet: a key frame is needed before anything is handed
/// over.
pub open spec fn awaits_key_frame(d: DecoderView) -> bool {
    !d.session || d.need_idr || d.errors > 0
}

/// What the hardware answers while a picture is decoded: whether a session opens where one is
/// asked for, and whether the picture is taken where it is handed over.
#[derive(Debug, Clone, Copy, PartialEq, Eq, Structural)]
pub struct Hardware {
    pub opens: bool,
    pub takes: bool,
}

/// What becomes of a picture, the text of a failure left out.
#[derive(Debug, Clone, Copy, PartialEq, Eq, Structural)]
pub enum Fate {
    Accepted,
    NeedKeyframe,
    Failed,
}

/// The decoder after a whole picture, and what became of it: read, a session opened where it is
/// needed, decided upon and handed over.
pub open spec fn decoded(d: DecoderView, units: Seq<Seq<u8>>, hw: Hardware) -> (DecoderView, Fate) {
    let read = prepared(d, units);
    let ready = if must_open(d, units) {
        opened(read, hw.opens)
    } else {
        read
    };
    let idr = has_idr(units);
    let next = decided(ready, idr);
    if must_open(d, units) && !hw.opens {
        (ready, Fate::Failed)
    } else {
        match decision(ready, idr, vtenc::avcc(coded_units(units)).len() == 0) {
            Decision::NeedKeyframe => (next, Fate::NeedKeyframe),
            Decision::Nothing => (next, Fate::Accepted),
            Decision::Submit => (
                submitted(next, hw.takes),
                if hw.takes {
                    Fate::Accepted
                } else {
                    Fate::Failed
                },
            ),
        }
    }
}

/// The decoder after several pictures.
pub open spec fn decoded_all(
    d: DecoderView,
    pictures: Seq<Seq<Seq<u8>>>,
    hw: Seq<Hardware>,
) -> DecoderView
    decreases pictures.len(),
{
    if pictures.len() == 0 {
        d
    } else {
        decoded(
            decoded_all(d, pictures.drop_last(), hw.drop_last()),
            pictures.last(),
            hw.last(),
        ).0
    }
}

fn same_bytes(a: &[u8], b: &[u8]) -> (r: bool)
    ensures
        r == (a@ == b@),
{
    if a.len() != b.len() {
        return false;
    }
    let mut i: usize = 0;
    while i < a.len()
        invariant
            i <= a@.len(),
            a@.len() == b@.len(),
            forall|j: int| 0 <= j < i ==> a@[j] == b@[j],
        decreases a.len() - i,
    {
        if a[i] != b[i] {
            return false;
        }
        i += 1;
    }
    assert(a@ == b@);
    true
}

fn push_behind_length(out: &mut Vec<u8>, unit: &[u8])
    ensures
        final(out)@ == old(out)@ + vtenc::four_bytes(unit@.len()) + unit@,
{
    let n: usize = unit.len();
    out.push((n / 0x100_0000 % 256) as u8);
    out.push((n / 0x1_0000 % 256) as u8);
    out.push((n / 0x100 % 256) as u8);
    out.push((n % 256) as u8);
    assert(out@ == old(out)@ + vtenc::four_bytes(unit@.len()));
    out.extend_from_slice(unit);
    assert(out@ == old(out)@ + vtenc::four_bytes(unit@.len()) + unit@);
}

proof fn lemma_units_from(data: Seq<u8>, s: int)
    ensures
        forall|i: int|
            0 <= i < h264::units_from(data, s).len() ==> (#[trigger] h264::units_from(
                data,
                s,
            )[i]).len() > 0,
    decreases data.len() - s,
{
    let q = h264::next_code(data, s);
    h264::lemma_next_code(data, s);
    if 0 <= s < data.len() && q < data.len() {
        lemma_units_from(data, q + 3);
        let head = h264::if_any(h264::before_code(data.subrange(s, q)));
        let tail = h264::units_from(data, q + 3);
        assert(h264::units_from(data, s) == head + tail);
        assert forall|i: int| 0 <= i < (head + tail).len() implies (#[trigger] (head
            + tail)[i]).len() > 0 by {
            if i >= head.len() {
                assert((head + tail)[i] == tail[i - head.len()]);
            }
        }
    }
}

/// No unit of a stream is empty.
proof fn lemma_units(data: Seq<u8>)
    ensures
        forall|i: int|
            0 <= i < h264::annexb_units(data).len() ==> (#[trigger] h264::annexb_units(
                data,
            )[i]).len() > 0,
{
    let p = h264::next_code(data, 0);
    if p < data.len() {
        lemma_units_from(data, p + 3);
    }
}

impl H264Decoder {
    /// No session, and a key frame needed.
    pub fn new() -> (r: Self)
        ensures
            r@ == (DecoderView {
                session: false,
                sps: seq![],
                pps: seq![],
                need_idr: true,
                errors: 0,
                dropped: 0,
                frames_in: 0,
            }),
            awaits_key_frame(r@),
    {
        H264Decoder {
            session: false,
            sps: Vec::new(),
            pps: Vec::new(),
            need_idr: true,
            errors: 0,
            dropped: 0,
            frames_in: 0,
        }
    }

    /// Packets were lost on the way: wait for the next key frame.
    pub fn mark_loss(&mut self)
        ensures
            final(self)@ == (DecoderView { need_idr: true, ..old(self)@ }),
            awaits_key_frame(final(self)@),
    {
        self.need_idr = true;
    }

    /// Pictures handed to the decoder.
    pub fn frames_submitted(&self) -> (r: u64)
        ensures
            r == self.frames_in,
    {
        self.frames_in
    }

    /// What the decoder reports of a picture: a failure, nothing where it left the picture out,
    /// or a picture, which may be unusable. Returns the picture to show. A picture left out is no
    /// failure of the stream.
    pub fn on_frame<S>(&mut self, status: i32, image: Option<Option<SurfaceFrame<S>>>) -> (r: Option<
        SurfaceFrame<S>,
    >)
        ensures
            r == (if status == 0 && image is Some {
                image->0
            } else {
                None
            }),
            final(self)@ == (DecoderView {
                errors: if status != 0 || image is Some && image->0 is None {
                    old(self).errors.wrapping_add(1)
                } else {
                    old(self).errors
                },
                dropped: if status == 0 && image is None {
                    old(self).dropped.wrapping_add(1)
                } else {
                    old(self).dropped
                },
                ..old(self)@
            }),
            status != 0 && old(self).errors < u32::MAX ==> awaits_key_frame(final(self)@),
    {
        if status != 0 {
            self.errors = self.errors.wrapping_add(1);
            return None;
        }
        match image {
            None => {
                self.dropped = self.dropped.wrapping_add(1);
                None
            },
            Some(None) => {
                self.errors = self.errors.wrapping_add(1);
                None
            },
            Some(Some(frame)) => Some(frame),
        }
    }

    /// Reads a picture in Annex-B form.
    pub fn prepare(&mut self, annexb: &[u8]) -> (r: Unit)
        ensures
            final(self)@ == prepared(old(self)@, h264::annexb_units(annexb@)),
            r.avcc@ == vtenc::avcc(coded_units(h264::annexb_units(annexb@))),
            r.has_idr == has_idr(h264::annexb_units(annexb@)),
            r.open == must_open(old(self)@, h264::annexb_units(annexb@)),
    {
        let ghost d = self@;
        if self.errors > 0 {
            self.need_idr = true;
        }
        self.errors = 0;
        let list = nalus(annexb);
        let ghost units = h264::annexb_units(annexb@);
        let mut avcc: Vec<u8> = Vec::new();
        let mut idr = false;
        let mut new_params = false;
        let mut i: usize = 0;
        let ghost p = |u: Seq<u8>| is_coded(u);
        proof {
            lemma_units(annexb@);
            assert(list@.map_values(|u: &[u8]| u@) == units);
            assert forall|j: int| 0 <= j < units.len() implies (#[trigger] list@[j])@ == units[j] by {
                assert(list@.map_values(|u: &[u8]| u@)[j] == units[j]);
            }
            reveal(Seq::filter);
            assert(units.take(0) == Seq::<Seq<u8>>::empty());
        }
        while i < list.len()
            invariant
                i <= list@.len(),
                list@.len() == units.len(),
                forall|j: int| 0 <= j < units.len() ==> (#[trigger] list@[j])@ == units[j],
                forall|j: int| 0 <= j < units.len() ==> (#[trigger] units[j]).len() > 0,
                p == (|u: Seq<u8>| is_coded(u)),
                self@ == (DecoderView {
                    sps: in_force(d.sps, units.take(i as int), 7),
                    pps: in_force(d.pps, units.take(i as int), 8),
                    ..after_errors(d)
                }),
                avcc@ == vtenc::avcc(units.take(i as int).filter(p)),
                idr == has_idr(units.take(i as int)),
                new_params == (changes(d.sps, units.take(i as int), 7) || changes(
                    d.pps,
                    units.take(i as int),
                    8,
                )),
            decreases list.len() - i,
        {
            let nal = list[i];
            let ghost before = units.take(i as int);
            let ghost after = units.take(i + 1);
            proof {
                assert(after.drop_last() == before);
                assert(after.last() == units[i as int]);
                assert(list@[i as int]@ == units[i as int]);
                reveal(Seq::filter);
                assert forall|j: int| 0 <= j < before.len() implies before[j] == after[j] by {}
                if has_idr(before) {
                    let j = choose|j: int|
                        0 <= j < before.len() && unit_kind(#[trigger] before[j]) == 5;
                    assert(after[j] == before[j]);
                }
                if unit_kind(units[i as int]) == 5 {
                    assert(unit_kind(after[i as int]) == 5);
                }
                if has_idr(after) && !has_idr(before) {
                    let j = choose|j: int|
                        0 <= j < after.len() && unit_kind(#[trigger] after[j]) == 5;
                    if j < i {
                        assert(unit_kind(before[j]) == 5);
                    }
                }
            }
            let t: u8 = nal[0] % 32;
            assert(t as int == unit_kind(units[i as int]));
            if t == 7 {
                if !same_bytes(self.sps.as_slice(), nal) {
                    self.sps = copied(nal);
                    new_params = true;
                }
            } else if t == 8 {
                if !same_bytes(self.pps.as_slice(), nal) {
                    self.pps = copied(nal);
                    new_params = true;
                }
            } else if t == 9 || t == 12 {
            } else {
                if t == 5 {
                    idr = true;
                }
                push_behind_length(&mut avcc, nal);
                assert(before.filter(p).push(nal@).drop_last() == before.filter(p));
            }
            i += 1;
        }
        assert(units.take(units.len() as int) == units);
        let open = (new_params || !self.session) && self.sps.len() > 0 && self.pps.len() > 0;
        Unit { avcc, has_idr: idr, open }
    }

    /// An attempt to open a session was made; any session before is closed.
    pub fn session_opened(&mut self, ok: bool)
        ensures
            final(self)@ == opened(old(self)@, ok),
    {
        if ok {
            self.session = true;
            self.need_idr = true;
            self.errors = 0;
        } else {
            self.session = false;
        }
    }

    /// What to do with a picture, once a session was opened where one was asked for.
    pub fn decide(&mut self, unit: &Unit) -> (r: Decision)
        ensures
            r == decision(old(self)@, unit.has_idr, unit.avcc@.len() == 0),
            final(self)@ == decided(old(self)@, unit.has_idr),
    {
        if !self.session {
            return Decision::NeedKeyframe;
        }
        if unit.has_idr {
            self.need_idr = false;
        }
        if self.need_idr {
            return Decision::NeedKeyframe;
        }
        if unit.avcc.len() == 0 {
            return Decision::Nothing;
        }
        Decision::Submit
    }

    /// A picture was handed over.
    pub fn submitted(&mut self, error: Option<String>) -> (r: Outcome)
        requires
            old(self).frames_in < u64::MAX,
        ensures
            final(self)@ == submitted(old(self)@, error is None),
            r == (match error {
                None => Outcome::Accepted,
                Some(e) => Outcome::Error(e),
            }),
            error is Some ==> awaits_key_frame(final(self)@),
    {
        match error {
            None => {
                self.frames_in += 1;
                Outcome::Accepted
            },
            Some(e) => {
                self.need_idr = true;
                Outcome::Error(e)
            },
        }
    }
}

impl H264Decoder {
    /// Takes a picture through the whole chain, with hardware whose answers are known.
    pub fn decode(&mut self, annexb: &[u8], hw: Hardware) -> (r: Fate)
        requires
            old(self).frames_in < u64::MAX,
        ensures
            (final(self)@, r) == decoded(old(self)@, h264::annexb_units(annexb@), hw),
    {
        let unit = self.prepare(annexb);
        if unit.open {
            self.session_opened(hw.opens);
            if !hw.opens {
                return Fate::Failed;
            }
        }
        match self.decide(&unit) {
            Decision::NeedKeyframe => Fate::NeedKeyframe,
            Decision::Nothing => Fate::Accepted,
            Decision::Submit => {
                let error = if hw.takes {
                    None
                } else {
                    Some(String::new())
                };
                match self.submitted(error) {
                    Outcome::Accepted => Fate::Accepted,
                    _ => Fate::Failed,
                }
            },
        }
    }
}

fn copied(s: &[u8]) -> (r: Vec<u8>)
    ensures
        r@ == s@,
{
    let mut out: Vec<u8> = Vec::new();
    out.extend_from_slice(s);
    assert(out@ == s@);
    out
}

/// Nothing reaches the hardware without a session, nor while a key frame is awaited.
pub proof fn only_decodable_pictures_are_submitted(d: DecoderView, idr: bool, empty: bool)
    ensures
        decision(d, idr, empty) == Decision::Submit ==> d.session && (!d.need_idr || idr)
            && !decided(d, idr).need_idr,
{
}

/// After a loss, a failure or a change of parameter sets, a picture without a key frame is never
/// accepted, whatever the hardware answers, and the key frame is still awaited after it.
pub proof fn broken_stream_waits_for_a_key_frame(
    d: DecoderView,
    units: Seq<Seq<u8>>,
    hw: Hardware,
)
    requires
        awaits_key_frame(d) || must_open(d, units),
        !has_idr(units),
    ensures
        decoded(d, units, hw).1 != Fate::Accepted,
        decoded(d, units, hw).0.frames_in == d.frames_in,
        awaits_key_frame(d) ==> awaits_key_frame(decoded(d, units, hw).0),
{
}

/// A failure of the hardware, in opening a session or in taking a picture, breaks the stream.
pub proof fn failure_breaks_the_stream(d: DecoderView, units: Seq<Seq<u8>>, hw: Hardware)
    ensures
        decoded(d, units, hw).1 == Fate::Failed ==> awaits_key_frame(decoded(d, units, hw).0),
{
}

/// Everything is thrown away until the next key frame: of any pictures without one that follow a
/// loss, none is accepted and none is handed over.
pub proof fn nothing_passes_until_a_key_frame(
    d: DecoderView,
    pictures: Seq<Seq<Seq<u8>>>,
    hw: Seq<Hardware>,
)
    requires
        awaits_key_frame(d),
        hw.len() == pictures.len(),
        forall|i: int| 0 <= i < pictures.len() ==> !has_idr(#[trigger] pictures[i]),
    ensures
        decoded_all(d, pictures, hw).frames_in == d.frames_in,
        awaits_key_frame(decoded_all(d, pictures, hw)),
        forall|k: int|
            0 <= k < pictures.len() ==> decoded(
                decoded_all(d, pictures.take(k), hw.take(k)),
                #[trigger] pictures[k],
                hw[k],
            ).1 != Fate::Accepted,
    decreases pictures.len(),
{
    if pictures.len() > 0 {
        let n = pictures.len() - 1;
        let less = pictures.drop_last();
        let hw_less = hw.drop_last();
        assert forall|i: int| 0 <= i < less.len() implies !has_idr(#[trigger] less[i]) by {
            assert(less[i] == pictures[i]);
        }
        nothing_passes_until_a_key_frame(d, less, hw_less);
        assert(pictures[n] == pictures.last());
        broken_stream_waits_for_a_key_frame(
            decoded_all(d, less, hw_less),
            pictures.last(),
            hw.last(),
        );
        assert forall|k: int| 0 <= k < pictures.len() implies decoded(
            decoded_all(d, pictures.take(k), hw.take(k)),
            #[trigger] pictures[k],
            hw[k],
        ).1 != Fate::Accepted by {
            if k == n {
                assert(pictures.take(k) =~= less);
                assert(hw.take(k) =~= hw_less);
            } else {
                assert(pictures.take(k) =~= less.take(k));
                assert(hw.take(k) =~= hw_less.take(k));
                assert(less[k] == pictures[k]);
                assert(hw_less[k] == hw[k]);
            }
        }
    }
}

/// A key frame that brings its parameter sets is always submitted, if the session opens.
pub proof fn key_frame_is_submitted(d: DecoderView, units: Seq<Seq<u8>>)
    requires
        has_idr(units),
        exists|i: int| 0 <= i < units.len() && unit_kind(#[trigger] units[i]) == 7,
        exists|i: int| 0 <= i < units.len() && unit_kind(#[trigger] units[i]) == 8,
        forall|i: int| 0 <= i < units.len() ==> (#[trigger] units[i]).len() > 0,
    ensures
        ({
            let p = prepared(d, units);
            let s = if must_open(d, units) {
                opened(p, true)
            } else {
                p
            };
            decision(s, true, false) == Decision::Submit
        }),
{
    lemma_in_force(d.sps, units, 7);
    lemma_in_force(d.pps, units, 8);
}

proof fn lemma_in_force(before: Seq<u8>, units: Seq<Seq<u8>>, kind: int)
    requires
        exists|i: int| 0 <= i < units.len() && unit_kind(#[trigger] units[i]) == kind,
        forall|i: int| 0 <= i < units.len() ==> (#[trigger] units[i]).len() > 0,
    ensures
        in_force(before, units, kind).len() > 0,
    decreases units.len(),
{
    let i = choose|i: int| 0 <= i < units.len() && unit_kind(#[trigger] units[i]) == kind;
    if unit_kind(units.last()) != kind {
        let u = units.drop_last();
        assert(u[i] == units[i]);
        lemma_in_force(before, u, kind);
    }
}

/// Parameter sets that stay the same do not interrupt a running session.
pub proof fn same_parameters_keep_the_session(d: DecoderView, units: Seq<Seq<u8>>)
    requires
        d.session,
        forall|i: int|
            0 <= i < units.len() && unit_kind(#[trigger] units[i]) == 7 ==> units[i] == d.sps,
        forall|i: int|
            0 <= i < units.len() && unit_kind(#[trigger] units[i]) == 8 ==> units[i] == d.pps,
    ensures
        !must_open(d, units),
        prepared(d, units).sps == d.sps,
        prepared(d, units).pps == d.pps,
{
    lemma_unchanged(d.sps, units, 7);
    lemma_unchanged(d.pps, units, 8);
}

proof fn lemma_unchanged(cur: Seq<u8>, units: Seq<Seq<u8>>, kind: int)
    requires
        forall|i: int|
            0 <= i < units.len() && unit_kind(#[trigger] units[i]) == kind ==> units[i] == cur,
    ensures
        in_force(cur, units, kind) == cur,
        !changes(cur, units, kind),
    decreases units.len(),
{
    if units.len() > 0 {
        let u = units.drop_last();
        assert forall|i: int|
            0 <= i < u.len() && unit_kind(#[trigger] u[i]) == kind implies u[i] == cur by {
            assert(u[i] == units[i]);
        }
        lemma_unchanged(cur, u, kind);
        assert(units.last() == units[units.len() - 1]);
    }
}

/// The sequence and picture parameter sets in force after a picture are the last ones that it
/// brings (units of kind 7 and 8, by the low five bits of their first byte), and those from
/// before where it brings none.
pub proof fn last_parameter_sets_are_in_force(d: DecoderView, units: Seq<Seq<u8>>, j: int)
    ensures
        0 <= j < units.len() && units[j][0] as int % 32 == 7 && (forall|k: int|
            j < k < units.len() ==> (#[trigger] units[k])[0] as int % 32 != 7) ==> prepared(
            d,
            units,
        ).sps == units[j],
        0 <= j < units.len() && units[j][0] as int % 32 == 8 && (forall|k: int|
            j < k < units.len() ==> (#[trigger] units[k])[0] as int % 32 != 8) ==> prepared(
            d,
            units,
        ).pps == units[j],
        (forall|k: int| 0 <= k < units.len() ==> (#[trigger] units[k])[0] as int % 32 != 7)
            ==> prepared(d, units).sps == d.sps,
        (forall|k: int| 0 <= k < units.len() ==> (#[trigger] units[k])[0] as int % 32 != 8)
            ==> prepared(d, units).pps == d.pps,
{
    lemma_last_in_force(d.sps, units, 7, j);
    lemma_last_in_force(d.pps, units, 8, j);
}

proof fn lemma_last_in_force(before: Seq<u8>, units: Seq<Seq<u8>>, kind: int, j: int)
    ensures
        0 <= j < units.len() && units[j][0] as int % 32 == kind && (forall|k: int|
            j < k < units.len() ==> (#[trigger] units[k])[0] as int % 32 != kind) ==> in_force(
            before,
            units,
            kind,
        ) == units[j],
        (forall|k: int| 0 <= k < units.len() ==> (#[trigger] units[k])[0] as int % 32 != kind)
            ==> in_force(before, units, kind) == before,
    decreases units.len(),
{
    if units.len() > 0 {
        let u = units.drop_last();
        let n = units.len() - 1;
        lemma_last_in_force(before, u, kind, j);
        assert(units.last() == units[n]);
        if 0 <= j < units.len() && units[j][0] as int % 32 == kind && (forall|k: int|
            j < k < units.len() ==> (#[trigger] units[k])[0] as int % 32 != kind) && j < n {
            assert(units[n][0] as int % 32 != kind);
            assert forall|k: int| j < k < u.len() implies (#[trigger] u[k])[0] as int % 32
                != kind by {
                assert(u[k] == units[k]);
            }
            assert(u[j] == units[j]);
        }
        if forall|k: int| 0 <= k < units.len() ==> (#[trigger] units[k])[0] as int % 32 != kind {
            assert(units[n][0] as int % 32 != kind);
            assert forall|k: int| 0 <= k < u.len() implies (#[trigger] u[k])[0] as int % 32
                != kind by {
                assert(u[k] == units[k]);
            }
        }
    }
}

/// A change of parameter sets reopens the session. Where a picture leaves other sets in force
/// than it found, and both are known, a session is asked for, whether one is open or not; so it
/// is where none is open. Without both sets none is ever asked for.
pub proof fn changed_parameters_reopen_the_session(d: DecoderView, units: Seq<Seq<u8>>)
    ensures
        ({
            let p = prepared(d, units);
            &&& (p.sps != d.sps || p.pps != d.pps) && p.sps.len() > 0 && p.pps.len() > 0
                ==> must_open(d, units)
            &&& !d.session && p.sps.len() > 0 && p.pps.len() > 0 ==> must_open(d, units)
            &&& must_open(d, units) ==> p.sps.len() > 0 && p.pps.len() > 0
        }),
{
    lemma_change_seen(d.sps, units, 7);
    lemma_change_seen(d.pps, units, 8);
}

proof fn lemma_change_seen(before: Seq<u8>, units: Seq<Seq<u8>>, kind: int)
    ensures
        in_force(before, units, kind) != before ==> changes(before, units, kind),
    decreases units.len(),
{
    if units.len() > 0 {
        lemma_change_seen(before, units.drop_last(), kind);
    }
}

/// Each parameter set of a picture that differs from the one in force when it comes reopens the
/// session, even where a later one puts the first back.
pub proof fn every_change_reopens_the_session(d: DecoderView, units: Seq<Seq<u8>>, i: int)
    requires
        0 <= i < units.len(),
        units[i][0] as int % 32 == 7 && units[i] != prepared(d, units.take(i)).sps
            || units[i][0] as int % 32 == 8 && units[i] != prepared(d, units.take(i)).pps,
        prepared(d, units).sps.len() > 0,
        prepared(d, units).pps.len() > 0,
    ensures
        must_open(d, units),
{
    if units[i][0] as int % 32 == 7 && units[i] != prepared(d, units.take(i)).sps {
        lemma_change_at(d.sps, units, 7, i);
    } else {
        lemma_change_at(d.pps, units, 8, i);
    }
}

proof fn lemma_change_at(before: Seq<u8>, units: Seq<Seq<u8>>, kind: int, i: int)
    requires
        0 <= i < units.len(),
        unit_kind(units[i]) == kind,
        units[i] != in_force(before, units.take(i), kind),
    ensures
        changes(before, units, kind),
    decreases units.len(),
{
    let u = units.drop_last();
    if i == units.len() - 1 {
        assert(units.take(i) =~= u);
    } else {
        assert(u.take(i) =~= units.take(i));
        assert(u[i] == units[i]);
        lemma_change_at(before, u, kind, i);
    }
}

/// Reading a picture changes nothing of a decoder but its parameter sets, and turns failures
/// reported since the last one into the wait for a key frame, once.
pub proof fn reading_keeps_the_rest(d: DecoderView, units: Seq<Seq<u8>>)
    ensures
        ({
            let p = prepared(d, units);
            &&& p.session == d.session
            &&& p.dropped == d.dropped
            &&& p.frames_in == d.frames_in
            &&& p.errors == 0
            &&& d.need_idr || d.errors > 0 ==> p.need_idr
            &&& !d.need_idr && d.errors == 0 ==> !p.need_idr
        }),
{
}

/// The hardware is given the coded units of a picture, in order and each whole behind its length
/// in four bytes, the highest first: a further unit adds exactly itself, and a parameter set (7
/// or 8), a delimiter (9) or filler (12) adds nothing.
pub proof fn coded_units_are_handed_over(units: Seq<Seq<u8>>, unit: Seq<u8>)
    requires
        unit.len() > 0,
    ensures
        ({
            let kind = unit[0] as int % 32;
            let before = vtenc::avcc(coded_units(units));
            let after = vtenc::avcc(coded_units(units.push(unit)));
            let n = unit.len();
            &&& kind == 7 || kind == 8 || kind == 9 || kind == 12 ==> after == before
            &&& kind != 7 && kind != 8 && kind != 9 && kind != 12 ==> after == before + seq![
                (n / 0x100_0000 % 256) as u8,
                (n / 0x1_0000 % 256) as u8,
                (n / 0x100 % 256) as u8,
                (n % 256) as u8,
            ] + unit
        }),
        vtenc::avcc(coded_units(Seq::empty())) == Seq::<u8>::empty(),
{
    reveal(Seq::filter);
    let all = units.push(unit);
    assert(all.drop_last() =~= units);
    assert(all.last() == unit);
    let p = |u: Seq<u8>| is_coded(u);
    if is_coded(unit) {
        assert(coded_units(all) == coded_units(units).push(unit));
        assert(coded_units(units).push(unit).drop_last() =~= coded_units(units));
    }
}

/// A picture is a key frame where one of its units is a slice of one (kind 5), and only there.
pub proof fn key_frames_are_known_by_their_slices(units: Seq<Seq<u8>>)
    ensures
        has_idr(units) <==> exists|i: int|
            0 <= i < units.len() && (#[trigger] units[i])[0] as int % 32 == 5,
{
    if has_idr(units) {
        let i = choose|i: int| 0 <= i < units.len() && unit_kind(#[trigger] units[i]) == 5;
        assert(units[i][0] as int % 32 == 5);
    }
    if exists|i: int| 0 <= i < units.len() && (#[trigger] units[i])[0] as int % 32 == 5 {
        let i = choose|i: int| 0 <= i < units.len() && (#[trigger] units[i])[0] as int % 32 == 5;
        assert(unit_kind(units[i]) == 5);
    }
}

/// A session that opens awaits a key frame and forgets the failures of the one before; one that
/// does not open leaves none. Nothing else changes.
pub proof fn new_session_starts_from_a_key_frame(d: DecoderView, ok: bool)
    ensures
        opened(d, ok).session == ok,
        ok ==> opened(d, ok).need_idr && opened(d, ok).errors == 0,
        !ok ==> opened(d, ok).need_idr == d.need_idr && opened(d, ok).errors == d.errors,
        opened(d, ok).sps == d.sps,
        opened(d, ok).pps == d.pps,
        opened(d, ok).dropped == d.dropped,
        opened(d, ok).frames_in == d.frames_in,
{
}

/// A picture with something in it is handed over as soon as a session is open and no key frame is
/// awaited, or it is one itself, which ends the wait; without either a key frame is needed; a
/// picture with nothing in it is passed over.
pub proof fn decodable_pictures_are_submitted(d: DecoderView, idr: bool, empty: bool)
    ensures
        d.session && (idr || !d.need_idr) && !empty ==> decision(d, idr, empty)
            == Decision::Submit,
        d.session && (idr || !d.need_idr) && empty ==> decision(d, idr, empty)
            == Decision::Nothing,
        !d.session || !idr && d.need_idr ==> decision(d, idr, empty) == Decision::NeedKeyframe,
        d.session && idr ==> !decided(d, idr).need_idr,
        !d.session || !idr ==> decided(d, idr) == d,
        decided(d, idr) == (DecoderView { need_idr: decided(d, idr).need_idr, ..d }),
{
}

/// A picture that the hardware took is counted; one that it refused has a key frame awaited, and
/// is not counted.
pub proof fn submissions_are_booked(d: DecoderView)
    requires
        d.frames_in < u64::MAX,
    ensures
        submitted(d, true).frames_in == d.frames_in + 1,
        submitted(d, true).need_idr == d.need_idr,
        submitted(d, false).frames_in == d.frames_in,
        submitted(d, false).need_idr,
        forall|ok: bool|
            {
                let s = #[trigger] submitted(d, ok);
                s.session == d.session && s.sps == d.sps && s.pps == d.pps && s.errors == d.errors
                    && s.dropped == d.dropped
            },
{
}

/// A stream that is sound is decoded picture after picture: each with something in it is handed
/// over and counted, and accepted where the hardware takes it.
pub proof fn sound_stream_is_decoded(d: DecoderView, units: Seq<Seq<u8>>, hw: Hardware)
    requires
        !awaits_key_frame(d),
        d.frames_in < u64::MAX,
        !must_open(d, units),
        vtenc::avcc(coded_units(units)).len() > 0,
    ensures
        hw.takes ==> decoded(d, units, hw).1 == Fate::Accepted && decoded(d, units, hw).0.frames_in
            == d.frames_in + 1 && !awaits_key_frame(decoded(d, units, hw).0),
        !hw.takes ==> decoded(d, units, hw).1 == Fate::Failed && decoded(d, units, hw).0.frames_in
            == d.frames_in,
{
}

/// A key frame heals a broken stream: with its parameter sets known, a session that opens where
/// it must and a hardware that takes it, it is accepted and counted, and the next pictures need
/// no key frame. A session that does not open is a failure and leaves none.
pub proof fn key_frame_heals_the_stream(d: DecoderView, units: Seq<Seq<u8>>, hw: Hardware)
    requires
        has_idr(units),
        d.frames_in < u64::MAX,
        prepared(d, units).sps.len() > 0,
        prepared(d, units).pps.len() > 0,
        vtenc::avcc(coded_units(units)).len() > 0,
    ensures
        hw.takes && (hw.opens || !must_open(d, units)) ==> decoded(d, units, hw).1
            == Fate::Accepted && decoded(d, units, hw).0.frames_in == d.frames_in + 1
            && !awaits_key_frame(decoded(d, units, hw).0),
        !hw.opens && must_open(d, units) ==> decoded(d, units, hw).1 == Fate::Failed && !decoded(
            d,
            units,
            hw,
        ).0.session,
        decoded(d, units, hw).1 != Fate::NeedKeyframe,
{
}

/// The wait for a key frame is on without a session, after a loss, and after a failure, and only
/// then.
pub proof fn what_breaks_a_stream(d: DecoderView)
    ensures
        awaits_key_frame(d) <==> !(d.session && !d.need_idr && d.errors == 0),
{
}

/// Reading a picture asks for a session exactly where both parameter sets are known and there is no
/// session for them: none is open, or the picture leaves other sets in force than it found. It hands
/// nothing to the decoder and counts nothing.
pub proof fn reading_a_picture_asks_for_its_session(
    d: &mut H264Decoder,
    annexb: &[u8],
    r: Unit,
)
    requires
        call_ensures(H264Decoder::prepare, (d, annexb), r),
    ensures
        ({
            let known = final(d).sps@.len() > 0 && final(d).pps@.len() > 0;
            let changed = final(d).sps@ != old(d).sps@ || final(d).pps@ != old(d).pps@;
            &&& known && changed ==> r.open
            &&& known && !old(d).session ==> r.open
            &&& !known ==> !r.open
        }),
        final(d).frames_in == old(d).frames_in,
{
    let units = h264::annexb_units(annexb@);
    changed_parameters_reopen_the_session(old(d)@, units);
    assert(final(d)@ == prepared(old(d)@, units));
}

/// A lost picture leaves everything as it was, but nothing is handed over before a key frame.
pub proof fn losses_ask_for_a_key_frame(
    d: &mut H264Decoder,
    e: &mut H264Decoder,
    unit: &Unit,
    r: Decision,
)
    requires
        call_ensures(H264Decoder::mark_loss, (d,), ()),
        call_ensures(H264Decoder::decide, (e, unit), r),
        old(e)@ == final(d)@,
    ensures
        final(d).need_idr,
        final(d).session == old(d).session,
        final(d).sps@ == old(d).sps@ && final(d).pps@ == old(d).pps@,
        final(d).errors == old(d).errors && final(d).dropped == old(d).dropped,
        final(d).frames_in == old(d).frames_in,
        !unit.has_idr ==> r != Decision::Submit,
{
    assert(final(d)@ == (DecoderView { need_idr: true, ..old(d)@ }));
    assert(final(e)@.need_idr == final(e).need_idr);
}

/// A decoded picture is given out as it came. A failure counts as an error, a picture that the
/// decoder left out as dropped; one without pixels is an error too, and neither is given out.
pub proof fn decoded_pictures_are_given_out<S>(
    d: &mut H264Decoder,
    status: i32,
    image: Option<Option<SurfaceFrame<S>>>,
    r: Option<SurfaceFrame<S>>,
)
    requires
        call_ensures(H264Decoder::on_frame::<S>, (d, status, image), r),
    ensures
        status == 0 && image is Some ==> r == image->0,
        status != 0 || image is None ==> r is None,
        ({
            let failed = status != 0 || image == Some(None::<SurfaceFrame<S>>);
            &&& failed && old(d).errors < u32::MAX ==> final(d).errors == old(d).errors + 1
            &&& !failed ==> final(d).errors == old(d).errors
        }),
        status == 0 && image is None && old(d).dropped < u32::MAX ==> final(d).dropped == old(
            d,
        ).dropped + 1,
        status != 0 || image is Some ==> final(d).dropped == old(d).dropped,
        final(d).session == old(d).session && final(d).need_idr == old(d).need_idr,
        final(d).frames_in == old(d).frames_in,
{
    assert(final(d)@.errors == final(d).errors && final(d)@.dropped == final(d).dropped);
    assert(final(d)@.session == old(d).session && final(d)@.need_idr == old(d).need_idr);
    assert(final(d)@.frames_in == old(d).frames_in);
}

} // verus!
