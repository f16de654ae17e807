//! Ring of audio samples, a bounded first-in first-out buffer (`ringbuf`). A sample is carried as
//! the bits of its single-precision number; silence is zero.

use ringbuf::traits::{Consumer, Observer, Producer};
use ringbuf::HeapRb;
use vstd::prelude::*;

verus! {

/// A ring of samples: `ringbuf::HeapRb` used from one side at a time.
#[verifier::external_body]
pub struct Ring {
    inner: HeapRb<u32>,
}

/// The samples that a ring holds, the oldest first.
pub uninterp spec fn contents(ring: Ring) -> Seq<u32>;

/// How many samples a ring can hold.
pub uninterp spec fn capacity(ring: Ring) -> nat;

/// The smaller of two numbers.
pub open spec fn least(a: int, b: int) -> int {
    if a < b {
        a
    } else {
        b
    }
}

/// `HeapRb::new`: an empty ring of the given capacity.
#[verifier::external_body]
pub(crate) fn new_ring(size: usize) -> (r: Ring)
    requires
        0 < size <= 0x1fff_ffff,
    ensures
        contents(r) == Seq::<u32>::empty(),
        capacity(r) == size,
{
    Ring { inner: HeapRb::<u32>::new(size) }
}

/// `Observer::occupied_len`: the number of samples held, never above the capacity.
#[verifier::external_body]
pub(crate) fn occupied_len(ring: &Ring) -> (r: usize)
    ensures
        r == contents(*ring).len(),
        r <= capacity(*ring),
{
    ring.inner.occupied_len()
}

/// `Producer::push_slice`: appends as many of the samples, from the first on, as there is room
/// for, and returns how many.
#[verifier::external_body]
pub(crate) fn push_slice(ring: &mut Ring, samples: &[u32]) -> (r: usize)
    ensures
        r == least(samples@.len() as int, capacity(*old(ring)) - contents(*old(ring)).len()),
        contents(*final(ring)) == contents(*old(ring)) + samples@.take(r as int),
        capacity(*final(ring)) == capacity(*old(ring)),
{
    ring.inner.push_slice(samples)
}

/// `Consumer::pop_slice`: takes as many of the oldest samples as the slice has room for, writes
/// them at its start and returns how many; the rest of the slice is left as it was.
#[verifier::external_body]
pub(crate) fn pop_slice(ring: &mut Ring, out: &mut [u32]) -> (r: usize)
    ensures
        r == least(old(out)@.len() as int, contents(*old(ring)).len() as int),
        final(out)@ == contents(*old(ring)).take(r as int) + old(out)@.skip(r as int),
        contents(*final(ring)) == contents(*old(ring)).skip(r as int),
        capacity(*final(ring)) == capacity(*old(ring)),
{
    ring.inner.pop_slice(out)
}

/// `Consumer::skip`: drops that many of the oldest samples, or all where there are fewer.
#[verifier::external_body]
pub(crate) fn skip(ring: &mut Ring, count: usize) -> (r: usize)
    ensures
        r == least(count as int, contents(*old(ring)).len() as int),
        contents(*final(ring)) == contents(*old(ring)).skip(r as int),
        capacity(*final(ring)) == capacity(*old(ring)),
{
    ring.inner.skip(count)
}

/// What a reader that fell behind keeps: above `drift_max` samples held, the oldest are dropped,
/// by pairs, down to two frames.
pub open spec fn caught_up(held: Seq<u32>, drift_max: nat, frame: nat) -> Seq<u32> {
    if held.len() > drift_max && held.len() > frame * 2 {
        let drop = held.len() - frame * 2;
        held.skip(drop - drop % 2)
    } else {
        held
    }
}

/// Takes exactly one frame of `out.len()` samples where it is available, after dropping the
/// oldest samples of a ring that holds more than `drift_max`; else `out` is left alone.
pub fn pull_frame(ring: &mut Ring, drift_max: usize, out: &mut [u32]) -> (r: bool)
    ensures
        ({
            let held = caught_up(contents(*old(ring)), drift_max as nat, old(out)@.len());
            let n = old(out)@.len() as int;
            &&& r == (held.len() >= n)
            &&& r ==> final(out)@ == held.take(n) && contents(*final(ring)) == held.skip(n)
            &&& !r ==> final(out)@ == old(out)@ && contents(*final(ring)) == held
            &&& capacity(*final(ring)) == capacity(*old(ring))
        }),
{
    let n: usize = out.len();
    let occupied = occupied_len(ring);
    if occupied > drift_max && occupied / 2 >= n && occupied - n > n {
        let drop: usize = occupied - n - n;
        let even: usize = drop - drop % 2;
        let _ = skip(ring, even);
    }
    let ghost held = caught_up(contents(*old(ring)), drift_max as nat, old(out)@.len());
    assert(contents(*ring) == held) by {
        let c = contents(*old(ring));
        if c.len() > n * 2 {
            assert(occupied / 2 >= n);
        }
        assert(c.skip(0) == c);
    }
    if occupied_len(ring) < n {
        return false;
    }
    let got = pop_slice(ring, out);
    assert(old(out)@.skip(n as int) == Seq::<u32>::empty());
    assert(out@ == held.take(n as int));
    got == n
}

/// A pull never leaves more than the drift limit and one frame's worth of pairs behind: what
/// remains is at most `drift_max` or a frame and one sample.
pub proof fn latency_stays_bounded(held: Seq<u32>, drift_max: nat, frame: nat)
    ensures
        caught_up(held, drift_max, frame).len() <= drift_max || caught_up(
            held,
            drift_max,
            frame,
        ).len() <= frame * 2 + 1,
{
}

/// A reader that is not late keeps everything. A late one keeps the newest samples, and of them
/// two frames, with one sample more where that makes whole pairs; what goes is the oldest, by
/// pairs.
pub proof fn late_readers_keep_the_newest(held: Seq<u32>, drift_max: nat, frame: nat)
    ensures
        ({
            let kept = caught_up(held, drift_max, frame);
            let gone = held.len() - kept.len();
            &&& held.len() <= drift_max ==> kept == held
            &&& held.len() <= frame * 2 ==> kept == held
            &&& gone >= 0 && gone % 2 == 0
            &&& kept == held.skip(gone)
            &&& held.len() > drift_max && held.len() > frame * 2 ==> frame * 2 <= kept.len()
                <= frame * 2 + 1
        }),
        forall|a: int, b: int| a <= b ==> #[trigger] least(a, b) == a && least(b, a) == a,
{
    let kept = caught_up(held, drift_max, frame);
    assert(held.skip(0) =~= held);
    if held.len() > drift_max && held.len() > frame * 2 {
        let drop = held.len() - frame * 2;
        assert(kept.len() == held.len() - (drop - drop % 2));
    }
}

} // verus!
