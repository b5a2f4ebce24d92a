//! PCM chunks: what the capture hands in and what the sender takes.

use vstd::prelude::*;

verus! {

/// Frames in 20 ms of audio at 44.1 kHz: the silence keepalive unit.
pub const SILENCE_FRAMES: usize = 882;

/// Chunks of silence sent ahead of a session: about 300 ms of standing fill,
/// a fixed and known latency that absorbs jitter.
pub const PRECHARGE_CHUNKS: usize = 15;

/// One chunk of captured audio, interleaved.
#[derive(Debug)]
pub struct CapturedFrame {
    pub samples: Vec<i16>,
    pub channels: u8,
    pub sample_rate: u32,
}

/// One chunk of audio for the sender, interleaved.
#[derive(Debug)]
pub struct LivePcmFrame {
    pub samples: Vec<i16>,
    pub channels: u8,
    pub sample_rate: u32,
}

/// `n` samples of digital silence.
pub open spec fn silence(n: nat) -> Seq<i16> {
    Seq::new(n, |i: int| 0i16)
}

/// Real audio: at least one sample is not digital silence.
pub open spec fn is_audible(samples: Seq<i16>) -> bool {
    exists|i: int| 0 <= i < samples.len() && samples[i] != 0
}

/// Whether the samples hold anything but digital silence.
pub fn audible(samples: &Vec<i16>) -> (r: bool)
    ensures
        r == is_audible(samples@),
{
    let mut i: usize = 0;
    while i < samples.len()
        invariant
            i <= samples.len(),
            forall|j: int| 0 <= j < i ==> samples@[j] == 0,
        decreases samples.len() - i,
    {
        if samples[i] != 0 {
            return true;
        }
        i = i + 1;
    }
    false
}

/// `n` samples of digital silence.
pub fn silent_samples(n: usize) -> (r: Vec<i16>)
    ensures
        r@ == silence(n as nat),
{
    let r = vec![0i16; n];
    assert(r@ =~= silence(n as nat));
    r
}

/// One keepalive chunk: `SILENCE_FRAMES` frames of silence in the stream's own
/// format. A session starts with `PRECHARGE_CHUNKS` of them.
pub fn silence_chunk(channels: u8, sample_rate: u32) -> (r: LivePcmFrame)
    ensures
        r.samples@ == silence((SILENCE_FRAMES * channels) as nat),
        r.channels == channels,
        r.sample_rate == sample_rate,
{
    LivePcmFrame { samples: silent_samples(SILENCE_FRAMES * channels as usize), channels, sample_rate }
}

} // verus!
