//! Sound of the default devices: the channels of a block that are used.

use vstd::prelude::*;

verus! {

/// Channels that are used: the first two, or the only one.
pub open spec fn used_channels(channels: nat) -> nat {
    if channels < 2 {
        channels
    } else {
        2
    }
}

/// A block of interleaved samples reduced to its first channels, frame by frame; an incomplete
/// frame at the end is left out.
pub open spec fn leading(data: Seq<u32>, channels: nat) -> Seq<u32> {
    let used = used_channels(channels);
    if channels == 0 {
        seq![]
    } else {
        Seq::new(
            (data.len() / channels) * used,
            |i: int| data[(i / used as int) * channels + i % (used as int)],
        )
    }
}

/// A block of interleaved samples reduced to its first two channels.
pub fn leading_channels(data: &[u32], channels: usize) -> (r: Vec<u32>)
    ensures
        r@ == leading(data@, channels as nat),
{
    let mut out: Vec<u32> = Vec::new();
    if channels == 0 {
        assert(out@ =~= leading(data@, 0));
        return out;
    }
    let n: usize = data.len();
    let frames: usize = n / channels;
    let used: usize = if channels < 2 {
        channels
    } else {
        2
    };
    proof {
        assert(frames * channels <= data@.len()) by (nonlinear_arith)
            requires
                channels > 0,
                frames == data@.len() / (channels as nat),
        ;
    }
    let mut f: usize = 0;
    assert(leading(data@, channels as nat).take(0) =~= Seq::<u32>::empty());
    while f < frames
        invariant
            channels > 0,
            n == data@.len(),
            f <= frames,
            frames == data@.len() / (channels as nat),
            frames * channels <= data@.len(),
            used == used_channels(channels as nat),
            1 <= used <= 2,
            used <= channels,
            leading(data@, channels as nat).len() == frames * used,
            out@ == leading(data@, channels as nat).take(f * used),
        decreases frames - f,
    {
        let ghost all = leading(data@, channels as nat);
        assert((f + 1) * channels <= frames * channels && (f + 1) * used <= frames * used && f
            * channels + channels == (f + 1) * channels && f * used + used == (f + 1) * used)
            by (nonlinear_arith)
            requires
                f < frames,
                channels > 0,
                used > 0,
        ;
        let at: usize = f * channels;
        out.push(data[at]);
        proof {
            lemma_place(f as int, used as int, 0);
            assert(all[f * used] == data@[f * channels]);
            assert(out@ =~= all.take(f * used + 1));
        }
        if used == 2 {
            out.push(data[at + 1]);
            proof {
                lemma_place(f as int, used as int, 1);
                assert(all[f * used + 1] == data@[f * channels + 1]);
                assert(out@ =~= all.take(f * used + 2));
            }
        }
        f += 1;
    }
    assert(leading(data@, channels as nat).take(frames * used) =~= leading(
        data@,
        channels as nat,
    ));
    out
}

proof fn lemma_place(f: int, used: int, c: int)
    requires
        0 <= f,
        0 <= c < used,
    ensures
        (f * used + c) / used == f,
        (f * used + c) % used == c,
{
    vstd::arithmetic::div_mod::lemma_fundamental_div_mod_converse(f * used + c, used, f, c);
}

/// Every whole frame is kept, in order, with its first channels: the left sample first and the
/// right one behind it, or the only one. What makes no whole frame, and further channels, are left
/// out; without a channel there is nothing.
pub proof fn first_channels_are_kept(data: Seq<u32>, channels: nat, f: int)
    requires
        channels > 0,
        0 <= f < data.len() / channels,
    ensures
        channels == 1 ==> leading(data, channels) == data,
        channels >= 2 ==> leading(data, channels).len() == 2 * (data.len() / channels),
        channels >= 2 ==> leading(data, channels)[2 * f] == data[f * channels],
        channels >= 2 ==> leading(data, channels)[2 * f + 1] == data[f * channels + 1],
        leading(data, 0).len() == 0,
{
    if channels == 1 {
        assert(data.len() / 1 == data.len());
        assert(leading(data, channels).len() == data.len() * 1);
        assert forall|i: int| 0 <= i < data.len() implies leading(data, channels)[i] == data[i] by {
            assert(i / 1 == i && i % 1 == 0);
            assert((i / 1) * 1 + i % 1 == i);
        }
        assert(leading(data, channels) =~= data);
    } else {
        assert((2 * f) / 2 == f && (2 * f) % 2 == 0 && (2 * f + 1) / 2 == f && (2 * f + 1) % 2
            == 1);
        assert((data.len() / channels) * 2 == 2 * (data.len() / channels));
    }
}

} // verus!
