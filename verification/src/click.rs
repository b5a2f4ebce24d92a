//! The click track: when the latency test clicks.

use vstd::prelude::*;

verus! {

/// Chunks of 20 ms in a second.
pub const CHUNKS_PER_SEC: usize = 50;

/// Chunks that a click lasts: the first 60 ms of its second.
pub const CLICK_CHUNKS: usize = 3;

/// Chunks of silence ahead of the track: about 200 ms of standing fill.
pub const CLICK_PRECHARGE_CHUNKS: usize = 10;

/// One chunk of the track.
#[derive(Debug, Clone, Copy, PartialEq, Eq, Structural)]
pub enum ClickChunk {
    Silence,
    /// The `phase`th chunk of the click with this number, the first of which is
    /// one.
    Click { phase: usize, number: usize },
}

/// Chunks in a track of so many clicks: a second for each, and one of silence
/// to end with.
pub fn track_len(clicks: usize) -> (r: usize)
    requires
        (clicks + 1) * CHUNKS_PER_SEC <= usize::MAX,
    ensures
        r == (clicks + 1) * CHUNKS_PER_SEC,
{
    clicks * CHUNKS_PER_SEC + CHUNKS_PER_SEC
}

/// The `i`th chunk of a track of so many clicks.
pub open spec fn chunk_of_track(i: int, clicks: int) -> ClickChunk {
    let phase = i % CHUNKS_PER_SEC as int;
    let second = i / CHUNKS_PER_SEC as int;
    if phase < CLICK_CHUNKS && second < clicks {
        ClickChunk::Click { phase: phase as usize, number: (second + 1) as usize }
    } else {
        ClickChunk::Silence
    }
}

/// The `i`th chunk of a track of so many clicks.
pub fn track_chunk(i: usize, clicks: usize) -> (r: ClickChunk)
    ensures
        r == chunk_of_track(i as int, clicks as int),
{
    let phase: usize = i % CHUNKS_PER_SEC;
    let second: usize = i / CHUNKS_PER_SEC;
    if phase < CLICK_CHUNKS && second < clicks {
        ClickChunk::Click { phase, number: second + 1 }
    } else {
        ClickChunk::Silence
    }
}

/// Click number `k` begins exactly `k - 1` seconds into the track, for every
/// number up to the number of clicks; and the last second is silent.
pub proof fn law_one_click_a_second(i: int, k: int, clicks: int)
    requires
        0 <= i < (clicks + 1) * CHUNKS_PER_SEC,
        1 <= k <= usize::MAX,
        0 <= clicks <= usize::MAX,
    ensures
        chunk_of_track(i, clicks) == (ClickChunk::Click { phase: 0, number: k as usize }) <==> k
            <= clicks && i == (k - 1) * CHUNKS_PER_SEC,
        i >= clicks * CHUNKS_PER_SEC ==> chunk_of_track(i, clicks) == ClickChunk::Silence,
{
}

} // verus!
