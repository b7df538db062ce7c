//! Choosing a capture configuration from what a device supports, and the
//! user's selection of input channels.

use vstd::prelude::*;

verus! {

/// One range of input configurations that a device supports.
#[derive(Clone, Copy, PartialEq, Eq, Structural)]
pub struct SupportedInputConfig {
    pub channels: u16,
    pub min_sample_rate: u32,
    pub max_sample_rate: u32,
}

/// The channel count and sample rate a capture session runs with.
#[derive(Clone, Copy, PartialEq, Eq, Structural)]
pub struct InputConfig {
    pub channels: u16,
    pub sample_rate: u32,
}

/// A range with at least one channel can be captured from.
pub open spec fn usable(c: SupportedInputConfig) -> bool {
    c.channels >= 1
}

/// The first usable range of `supported`, taken at its highest sample rate.
pub open spec fn chosen_config(supported: Seq<SupportedInputConfig>) -> Option<InputConfig> {
    if exists|i: int| 0 <= i < supported.len() && usable(#[trigger] supported[i]) {
        let i = choose|i: int|
            0 <= i < supported.len() && usable(#[trigger] supported[i]) && forall|j: int|
                0 <= j < i ==> !usable(#[trigger] supported[j]);
        Some(InputConfig { channels: supported[i].channels, sample_rate: supported[i].max_sample_rate })
    } else {
        None
    }
}

/// Picks the configuration to capture with: the first supported range with at
/// least one channel, at that range's highest sample rate; `None` when no range
/// has a channel.
pub fn choose_input_config(supported: &[SupportedInputConfig]) -> (r: Option<InputConfig>)
    ensures
        r == chosen_config(supported@),
{
    let mut i: usize = 0;
    while i < supported.len()
        invariant
            0 <= i <= supported@.len(),
            forall|j: int| 0 <= j < i ==> !usable(#[trigger] supported@[j]),
        decreases supported@.len() - i,
    {
        let c = supported[i];
        if c.channels >= 1 {
            proof {
                let k = choose|k: int|
                    0 <= k < supported@.len() && usable(#[trigger] supported@[k]) && forall|j: int|
                        0 <= j < k ==> !usable(#[trigger] supported@[j]);
                assert(0 <= i < supported@.len() && usable(supported@[i as int]) && forall|j: int|
                    0 <= j < i ==> !usable(#[trigger] supported@[j]));
                if k < i {
                    assert(!usable(supported@[k]));
                } else if k > i {
                    assert(!usable(supported@[i as int]));
                }
            }
            return Some(InputConfig { channels: c.channels, sample_rate: c.max_sample_rate });
        }
        i = i + 1;
    }
    None
}

/// The channels `0, 1, ..., channels - 1`, in order: every channel of a
/// device, as selected when the device is first chosen.
pub fn all_channels(channels: u16) -> (r: Vec<u16>)
    ensures
        r@ == Seq::new(channels as nat, |i: int| i as u16),
{
    let mut out: Vec<u16> = Vec::new();
    let mut k: u16 = 0;
    while k < channels
        invariant
            0 <= k <= channels,
            out@ == Seq::new(k as nat, |i: int| i as u16),
        decreases channels - k,
    {
        out.push(k);
        proof {
            assert(out@ =~= Seq::new((k + 1) as nat, |i: int| i as u16));
        }
        k = k + 1;
    }
    out
}

/// Whether `channel` is in the selection.
pub fn is_selected(selection: &[u16], channel: u16) -> (r: bool)
    ensures
        r == selection@.contains(channel),
{
    let mut i: usize = 0;
    while i < selection.len()
        invariant
            0 <= i <= selection@.len(),
            forall|j: int| 0 <= j < i ==> selection@[j] != channel,
        decreases selection@.len() - i,
    {
        if selection[i] == channel {
            return true;
        }
        i = i + 1;
    }
    false
}

/// `s` with every occurrence of `channel` taken out, the rest kept in order.
pub open spec fn without(s: Seq<u16>, channel: u16) -> Seq<u16>
    decreases s.len(),
{
    if s.len() == 0 {
        s
    } else if s.last() == channel {
        without(s.drop_last(), channel)
    } else {
        without(s.drop_last(), channel).push(s.last())
    }
}

/// The selection after the user clicks `channel`: a selected channel is
/// removed (every occurrence), any other is appended at the end.
pub open spec fn toggled(selection: Seq<u16>, channel: u16) -> Seq<u16> {
    if selection.contains(channel) {
        without(selection, channel)
    } else {
        selection.push(channel)
    }
}

/// Selects `channel` if it is not selected, and deselects it otherwise.
pub fn toggle_channel(selection: &mut Vec<u16>, channel: u16)
    ensures
        final(selection)@ == toggled(old(selection)@, channel),
{
    if is_selected(selection.as_slice(), channel) {
        let mut kept: Vec<u16> = Vec::new();
        let mut i: usize = 0;
        while i < selection.len()
            invariant
                0 <= i <= selection@.len(),
                kept@ == without(selection@.subrange(0, i as int), channel),
            decreases selection@.len() - i,
        {
            let c = selection[i];
            proof {
                let s = selection@.subrange(0, i + 1);
                assert(s.drop_last() =~= selection@.subrange(0, i as int));
                assert(s.last() == c);
            }
            if c != channel {
                kept.push(c);
            }
            i = i + 1;
        }
        proof {
            assert(selection@.subrange(0, selection@.len() as int) =~= selection@);
        }
        *selection = kept;
    } else {
        selection.push(channel);
    }
}

/// A capture session can start only with at least one channel selected.
pub fn selection_ready(selection: &[u16]) -> (r: bool)
    ensures
        r == (selection@.len() > 0),
{
    selection.len() > 0
}

} // verus!
