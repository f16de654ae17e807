//! The bounded queue between the encoder and the RTP writer (`tokio::sync::mpsc`), with a record
//! of what was handed to it.

use super::vtenc::{EncodedFrame, FrameView};
use tokio::sync::mpsc::error::TrySendError;
use tokio::sync::mpsc::Sender;
use vstd::prelude::*;

verus! {

/// Sending half of a bounded channel.
#[verifier::external_type_specification]
#[verifier::external_body]
#[verifier::reject_recursive_types(T)]
pub struct ExSender<T>(Sender<T>);

/// What became of a frame handed to the queue.
#[derive(Debug, Clone, Copy, PartialEq, Eq, Structural)]
pub enum SendOutcome {
    Sent,
    Full,
    Closed,
}

/// A sender, with the frames handed to it so far and what became of each.
struct Line {
    tx: Sender<EncodedFrame>,
    handed: Ghost<Seq<(FrameView, SendOutcome)>>,
}

/// `tokio::sync::mpsc::Sender::try_send`, its three outcomes told apart. The frame goes on record
/// with its outcome. Which outcome comes depends on what the receiving task has taken meanwhile:
/// nothing is promised of it.
#[verifier::external_body]
fn try_send(line: &mut Line, frame: EncodedFrame) -> (r: SendOutcome)
    ensures
        final(line).tx == old(line).tx,
        final(line).handed@ == old(line).handed@.push((frame@, r)),
{
    match line.tx.try_send(frame) {
        Ok(()) => SendOutcome::Sent,
        Err(TrySendError::Full(_)) => SendOutcome::Full,
        Err(TrySendError::Closed(_)) => SendOutcome::Closed,
    }
}

/// A queue that can be exchanged: at most one sender at a time. The record covers all of them.
pub struct Queue {
    line: Option<Line>,
    past: Ghost<Seq<(FrameView, SendOutcome)>>,
}

impl Queue {
    /// The sender in use.
    pub closed spec fn tx(&self) -> Option<Sender<EncodedFrame>> {
        match self.line {
            Some(l) => Some(l.tx),
            None => None,
        }
    }

    /// Every frame handed to a sender, in order, with what became of it.
    pub closed spec fn handed(&self) -> Seq<(FrameView, SendOutcome)> {
        match self.line {
            Some(l) => self.past@ + l.handed@,
            None => self.past@,
        }
    }

    /// A queue without a sender.
    pub fn new() -> (r: Self)
        ensures
            r.tx() is None,
            r.handed().len() == 0,
    {
        Queue { line: None, past: Ghost(Seq::empty()) }
    }

    /// Whether there is a sender.
    pub fn is_attached(&self) -> (r: bool)
        ensures
            r == (self.tx() is Some),
    {
        self.line.is_some()
    }

    /// Lets the sender go.
    pub fn detach(&mut self)
        ensures
            final(self).tx() is None,
            final(self).handed() == old(self).handed(),
    {
        let ghost all = self.handed();
        self.past = Ghost(all);
        self.line = None;
    }

    /// Takes another sender.
    pub fn attach(&mut self, tx: Sender<EncodedFrame>)
        ensures
            final(self).tx() == Some(tx),
            final(self).handed() == old(self).handed(),
    {
        self.detach();
        self.line = Some(Line { tx, handed: Ghost(Seq::empty()) });
        assert(self.handed() =~= old(self).handed());
    }

    /// Hands a frame to the sender, if there is one, and tells what became of it.
    pub fn hand(&mut self, frame: EncodedFrame) -> (r: Option<SendOutcome>)
        ensures
            final(self).tx() == old(self).tx(),
            old(self).tx() is None ==> r is None && *final(self) == *old(self),
            old(self).tx() is Some ==> r is Some && final(self).handed() == old(self).handed().push(
                (frame@, r->0),
            ),
    {
        match &mut self.line {
            Some(line) => {
                let r = try_send(line, frame);
                assert(self.handed() =~= old(self).handed().push((frame@, r)));
                Some(r)
            },
            None => None,
        }
    }
}

/// A frame handed to an attached queue stands in its record, last, with what became of it; a queue
/// that is not attached takes none.
pub proof fn handed_frames_are_recorded(
    q: &mut Queue,
    frame: EncodedFrame,
    r: Option<SendOutcome>,
    a: &Queue,
    attached: bool,
)
    requires
        call_ensures(Queue::hand, (q, frame), r),
        *a == *old(q),
        call_ensures(Queue::is_attached, (a,), attached),
    ensures
        r is Some <==> attached,
        attached ==> final(q).handed().len() == old(q).handed().len() + 1
            && final(q).handed().last() == (frame@, r->0) && final(q).handed().drop_last() == old(
            q,
        ).handed(),
        !attached ==> final(q).handed() == old(q).handed(),
        final(q).tx() == old(q).tx(),
{
    if attached {
        assert(final(q).handed().drop_last() =~= old(q).handed());
    }
}

} // verus!
