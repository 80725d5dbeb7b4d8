//! The two RAM machines and the buffer table they can share.

use vstd::prelude::*;

pub mod ram_play;
pub mod ram_record;
pub mod shared;

verus! {

/// The voice or recording channel that a channel number selects: numbers
/// past the last of the eight select the last.
pub open spec fn channel_index(channel: usize) -> int {
    if channel < 7 {
        channel as int
    } else {
        7
    }
}

/// Limits a channel number to the eight voices or recording channels.
pub fn clamped_channel(channel: usize) -> (index: usize)
    ensures
        index == channel_index(channel),
        index < 8,
{
    if channel < 7 {
        channel
    } else {
        7
    }
}

} // verus!
