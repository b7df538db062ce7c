//! What the capture callback does with each block of interleaved input:
//! pick the selected channels and append them to the rolling buffer.

use vstd::prelude::*;
use crate::rolling_buffer::{keep_last, RollingBuffer};

verus! {

/// The samples of the frame that starts at `start`, at the selected channel
/// slots, in selection order.
pub open spec fn pick_frame<T>(data: Seq<T>, start: int, selection: Seq<u16>) -> Seq<T> {
    Seq::new(selection.len(), |j: int| data[start + selection[j]])
}

/// The selected samples of the first `frames` whole frames of `data`.
pub open spec fn picked_frames<T>(data: Seq<T>, channels: nat, selection: Seq<u16>, frames: nat) -> Seq<T>
    decreases frames,
{
    if frames == 0 {
        Seq::empty()
    } else {
        picked_frames(data, channels, selection, (frames - 1) as nat) + pick_frame(
            data,
            (frames - 1) * channels,
            selection,
        )
    }
}

/// What one block of interleaved input adds to the buffer. When the selection
/// is as long as a frame, the block passes through unchanged, interleaving
/// included; otherwise each whole frame contributes its selected samples.
pub open spec fn demux_spec<T>(data: Seq<T>, channels: nat, selection: Seq<u16>) -> Seq<T> {
    if selection.len() == channels {
        data
    } else {
        picked_frames(data, channels, selection, data.len() / channels)
    }
}

/// Every selected channel index lies within a frame.
pub open spec fn valid_selection(channels: nat, selection: Seq<u16>) -> bool {
    forall|j: int| 0 <= j < selection.len() ==> (#[trigger] selection[j]) < channels
}

proof fn lemma_second_of_two_frames<T>(data: Seq<T>, frames: nat)
    ensures
        picked_frames(data, 2, seq![1u16], frames) =~= Seq::new(frames, |i: int| data[2 * i + 1]),
    decreases frames,
{
    if frames > 0 {
        lemma_second_of_two_frames(data, (frames - 1) as nat);
    }
}

/// Selecting only the second channel of a two-channel stream yields exactly
/// the second-channel samples, frame by frame, in order.
pub proof fn lemma_demux_second_channel<T>(data: Seq<T>)
    ensures
        demux_spec(data, 2, seq![1u16]) == Seq::new(data.len() / 2, |i: int| data[2 * i + 1]),
{
    lemma_second_of_two_frames(data, data.len() / 2);
}

/// A selection as long as a frame passes the interleaved input through unchanged.
pub proof fn lemma_demux_full_selection<T>(data: Seq<T>, channels: nat, selection: Seq<u16>)
    requires
        selection.len() == channels,
    ensures
        demux_spec(data, channels, selection) == data,
{
}

/// The samples that one block of interleaved input contributes, following
/// the channel selection.
pub fn demux<T: Copy>(data: &[T], channels: u16, selection: &[u16]) -> (r: Vec<T>)
    requires
        channels > 0,
        valid_selection(channels as nat, selection@),
    ensures
        r@ == demux_spec(data@, channels as nat, selection@),
{
    let mut out: Vec<T> = Vec::new();
    let c = channels as usize;
    if selection.len() == c {
        let mut i: usize = 0;
        while i < data.len()
            invariant
                0 <= i <= data@.len(),
                out@ == data@.subrange(0, i as int),
            decreases data@.len() - i,
        {
            out.push(data[i]);
            proof {
                assert(data@.subrange(0, i + 1) =~= data@.subrange(0, i as int).push(data@[i as int]));
            }
            i = i + 1;
        }
        proof {
            assert(data@.subrange(0, data@.len() as int) =~= data@);
        }
        return out;
    }
    let mut start: usize = 0;
    let ghost mut frames: nat = 0;
    while start <= data.len() && c <= data.len() - start
        invariant
            c == channels as nat,
            c > 0,
            c != selection@.len(),
            valid_selection(c as nat, selection@),
            start == frames * c,
            start <= data@.len(),
            out@ == picked_frames(data@, c as nat, selection@, frames),
        decreases data@.len() - start,
    {
        let mut j: usize = 0;
        let ghost before = out@;
        while j < selection.len()
            invariant
                c == channels as nat,
                valid_selection(c as nat, selection@),
                start + c <= data.len(),
                0 <= j <= selection@.len(),
                out@ == before + pick_frame(data@, start as int, selection@).subrange(0, j as int),
            decreases selection@.len() - j,
        {
            let k = selection[j] as usize;
            assert(selection@[j as int] < c);
            assert(start + k < data.len());
            out.push(data[start + k]);
            proof {
                let p = pick_frame(data@, start as int, selection@);
                assert(p.subrange(0, j + 1) =~= p.subrange(0, j as int).push(p[j as int]));
            }
            j = j + 1;
        }
        proof {
            let p = pick_frame(data@, start as int, selection@);
            assert(p.subrange(0, selection@.len() as int) =~= p);
            assert((frames + 1) * c == frames * c + c) by (nonlinear_arith);
        }
        start = start + c;
        proof {
            frames = frames + 1;
        }
    }
    proof {
        assert(frames == data@.len() / (c as nat)) by (nonlinear_arith)
            requires
                start == frames * c,
                start <= data@.len(),
                data@.len() < start + c,
                c > 0,
        ;
    }
    out
}

impl<T: Copy> RollingBuffer<T> {
    /// Handles one block of interleaved input from the capture device: the
    /// selected samples are appended, then the oldest are dropped so that at
    /// most the capacity remains.
    pub fn ingest(&mut self, data: &[T], channels: u16, selection: &[u16])
        requires
            old(self).wf(),
            channels > 0,
            valid_selection(channels as nat, selection@),
        ensures
            final(self).wf(),
            final(self).capacity_spec() == old(self).capacity_spec(),
            final(self)@ == keep_last(
                old(self)@ + demux_spec(data@, channels as nat, selection@),
                old(self).capacity_spec(),
            ),
    {
        let picked = demux(data, channels, selection);
        self.push_samples(picked.as_slice());
    }
}

} // verus!
