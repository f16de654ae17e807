//! Key frame requests among incoming feedback: only they are delivered to the application.

use std::collections::VecDeque;
use vstd::prelude::*;

verus! {

/// Place in the chain of interceptors, behind all the default ones.
pub const SLOT: usize = 14_000;

/// A feedback packet: whether it asks for a key frame (picture loss or full intra request), and
/// its contents.
pub struct Feedback<T> {
    pub keyframe_request: bool,
    pub packet: T,
}

/// An incoming packet.
pub enum Incoming<M, T> {
    /// Anything but feedback.
    Other(M),
    /// A group of feedback packets.
    Feedback(Vec<Feedback<T>>),
}

/// A packet on its way, and whether it is for the application.
pub struct Tagged<M, T> {
    pub packet: Incoming<M, T>,
    pub deliver: bool,
}

/// The interceptor that lets key frame requests through to the application.
pub struct KeyframeRequests<M, T> {
    pub read_queue: VecDeque<Tagged<M, T>>,
    pub write_queue: VecDeque<Tagged<M, T>>,
}

/// The requests for a key frame among feedback packets, in order.
pub open spec fn requests<T>(packets: Seq<Feedback<T>>) -> Seq<Feedback<T>> {
    packets.filter(|f: Feedback<T>| f.keyframe_request)
}

/// The reading queue after a packet came: feedback is reduced to the key frame requests, marked
/// for the application, and dropped where there are none; anything else passes.
pub open spec fn queued<M, T>(before: Seq<Tagged<M, T>>, packet: Tagged<M, T>, after: Seq<Tagged<M, T>>) -> bool {
    match packet.packet {
        Incoming::Other(_) => after == before.push(packet),
        Incoming::Feedback(list) => if requests(list@).len() == 0 {
            after == before
        } else {
            &&& after.len() == before.len() + 1
            &&& after.drop_last() == before
            &&& after.last().deliver
            &&& after.last().packet is Feedback
            &&& after.last().packet->Feedback_0@ == requests(list@)
        },
    }
}

/// Keeps the key frame requests of a group.
fn keep_requests<T>(list: Vec<Feedback<T>>) -> (r: Vec<Feedback<T>>)
    ensures
        r@ == requests(list@),
{
    let ghost p = |f: Feedback<T>| f.keyframe_request;
    let ghost all = list@;
    let mut out: Vec<Feedback<T>> = Vec::new();
    proof {
        reveal_with_fuel(Seq::filter, 1);
        assert(all.take(0).filter(p) == Seq::<Feedback<T>>::empty());
    }
    for f in it: list
        invariant
            it.seq() == all,
            p == (|f: Feedback<T>| f.keyframe_request),
            out@ == all.take(it.index() as int).filter(p),
    {
        proof {
            let i = it.index() as int;
            assert(all.take(i + 1).drop_last() == all.take(i));
            assert(all.take(i + 1).last() == all[i]);
            reveal_with_fuel(Seq::filter, 2);
        }
        if f.keyframe_request {
            out.push(f);
        }
    }
    assert(all.take(all.len() as int) == all);
    out
}

impl<M, T> KeyframeRequests<M, T> {
    /// Empty queues.
    pub fn new() -> (r: Self)
        ensures
            r.read_queue@ == Seq::<Tagged<M, T>>::empty(),
            r.write_queue@ == Seq::<Tagged<M, T>>::empty(),
    {
        KeyframeRequests { read_queue: VecDeque::new(), write_queue: VecDeque::new() }
    }

    /// An incoming packet.
    pub fn handle_read(&mut self, msg: Tagged<M, T>)
        ensures
            queued(old(self).read_queue@, msg, final(self).read_queue@),
            final(self).write_queue@ == old(self).write_queue@,
    {
        let Tagged { packet, deliver } = msg;
        match packet {
            Incoming::Feedback(list) => {
                let kept = keep_requests(list);
                if kept.len() > 0 {
                    self.read_queue.push_back(
                        Tagged { packet: Incoming::Feedback(kept), deliver: true },
                    );
                    assert(self.read_queue@.drop_last() == old(self).read_queue@);
                }
            },
            Incoming::Other(m) => {
                self.read_queue.push_back(Tagged { packet: Incoming::Other(m), deliver });
            },
        }
    }

    /// The next packet for what comes after, in order of arrival.
    pub fn poll_read(&mut self) -> (r: Option<Tagged<M, T>>)
        ensures
            final(self).write_queue@ == old(self).write_queue@,
            old(self).read_queue@.len() == 0 ==> r is None && final(self).read_queue@.len() == 0,
            old(self).read_queue@.len() > 0 ==> {
                &&& r == Some(old(self).read_queue@[0])
                &&& final(self).read_queue@ == old(self).read_queue@.drop_first()
            },
    {
        let r = self.read_queue.pop_front();
        proof {
            if old(self).read_queue@.len() > 0 {
                assert(self.read_queue@ == old(self).read_queue@.drop_first());
            }
        }
        r
    }

    /// An outgoing packet, which passes unchanged.
    pub fn handle_write(&mut self, msg: Tagged<M, T>)
        ensures
            final(self).write_queue@ == old(self).write_queue@.push(msg),
            final(self).read_queue@ == old(self).read_queue@,
    {
        self.write_queue.push_back(msg);
    }

    /// The next outgoing packet.
    pub fn poll_write(&mut self) -> (r: Option<Tagged<M, T>>)
        ensures
            final(self).read_queue@ == old(self).read_queue@,
            old(self).write_queue@.len() == 0 ==> r is None && final(self).write_queue@.len() == 0,
            old(self).write_queue@.len() > 0 ==> {
                &&& r == Some(old(self).write_queue@[0])
                &&& final(self).write_queue@ == old(self).write_queue@.drop_first()
            },
    {
        let r = self.write_queue.pop_front();
        proof {
            if old(self).write_queue@.len() > 0 {
                assert(self.write_queue@ == old(self).write_queue@.drop_first());
            }
        }
        r
    }
}

/// What is marked for the application holds key frame requests only.
pub proof fn only_requests_are_delivered<T>(list: Seq<Feedback<T>>, i: int)
    requires
        0 <= i < requests(list).len(),
    ensures
        requests(list)[i].keyframe_request,
{
    list.lemma_filter_pred(|f: Feedback<T>| f.keyframe_request, i);
}

/// Every request for a key frame among feedback is kept, in order, and nothing else: a further
/// packet adds itself where it is a request, and nothing where it is not.
pub proof fn every_request_is_kept<T>(list: Seq<Feedback<T>>, f: Feedback<T>)
    ensures
        f.keyframe_request ==> requests(list.push(f)) == requests(list).push(f),
        !f.keyframe_request ==> requests(list.push(f)) == requests(list),
        requests(Seq::<Feedback<T>>::empty()).len() == 0,
{
    reveal(Seq::filter);
    assert(list.push(f).drop_last() =~= list);
}

/// A packet joins the end of the queue: as it is where it is no feedback, reduced to its requests
/// and marked for the application where it has some; feedback without any does not.
pub proof fn requests_reach_the_application<M, T>(
    before: Seq<Tagged<M, T>>,
    packet: Tagged<M, T>,
    after: Seq<Tagged<M, T>>,
)
    requires
        queued(before, packet, after),
    ensures
        packet.packet is Other ==> after == before.push(packet),
        packet.packet is Feedback && requests(packet.packet->Feedback_0@).len() == 0 ==> after
            == before,
        packet.packet is Feedback && requests(packet.packet->Feedback_0@).len() > 0 ==> after.len()
            == before.len() + 1 && after.take(before.len() as int) == before && after.last().deliver
            && after.last().packet is Feedback && after.last().packet->Feedback_0@ == requests(
            packet.packet->Feedback_0@,
        ),
{
    if packet.packet is Feedback && requests(packet.packet->Feedback_0@).len() > 0 {
        assert(after.take(before.len() as int) =~= after.drop_last());
    }
}

/// What was read comes out in the order in which it came: feedback without a request for a key
/// frame is held back, everything else is passed on. Reading leaves what is written alone.
pub proof fn read_messages_come_out_in_order<M, T>(
    k: &mut KeyframeRequests<M, T>,
    msg: Tagged<M, T>,
    p: &mut KeyframeRequests<M, T>,
    r: Option<Tagged<M, T>>,
)
    requires
        call_ensures(KeyframeRequests::<M, T>::handle_read, (k, msg), ()),
        call_ensures(KeyframeRequests::<M, T>::poll_read, (p,), r),
    ensures
        msg.packet is Other ==> final(k).read_queue@ == old(k).read_queue@.push(msg),
        msg.packet is Feedback ==> {
            let kept = requests(msg.packet->Feedback_0@);
            &&& kept.len() == 0 ==> final(k).read_queue@ == old(k).read_queue@
            &&& kept.len() > 0 ==> final(k).read_queue@.len() == old(k).read_queue@.len() + 1
                && final(k).read_queue@.last().deliver
        },
        final(k).write_queue@ == old(k).write_queue@,
        r is Some <==> old(p).read_queue@.len() > 0,
        r is Some ==> old(p).read_queue@ == seq![r->0] + final(p).read_queue@,
        r is None ==> final(p).read_queue@ == old(p).read_queue@,
        final(p).write_queue@ == old(p).write_queue@,
{
    if old(p).read_queue@.len() > 0 {
        assert(old(p).read_queue@ =~= seq![r->0] + final(p).read_queue@);
    }
}

/// What is written goes through as it is, in order.
pub proof fn written_messages_go_through<M, T>(
    k: &mut KeyframeRequests<M, T>,
    msg: Tagged<M, T>,
    p: &mut KeyframeRequests<M, T>,
    r: Option<Tagged<M, T>>,
)
    requires
        call_ensures(KeyframeRequests::<M, T>::handle_write, (k, msg), ()),
        call_ensures(KeyframeRequests::<M, T>::poll_write, (p,), r),
    ensures
        final(k).write_queue@ == old(k).write_queue@.push(msg),
        final(k).read_queue@ == old(k).read_queue@,
        r is Some <==> old(p).write_queue@.len() > 0,
        r is Some ==> old(p).write_queue@ == seq![r->0] + final(p).write_queue@,
        r is None ==> final(p).write_queue@ == old(p).write_queue@,
        final(p).read_queue@ == old(p).read_queue@,
{
    if old(p).write_queue@.len() > 0 {
        assert(old(p).write_queue@ =~= seq![r->0] + final(p).write_queue@);
    }
}

} // verus!
