//! The start of a session, and what it keeps out of it.

use crate::capture::Glance;
use crate::pcm::{silence, silence_chunk, LivePcmFrame, PRECHARGE_CHUNKS, SILENCE_FRAMES};
use crate::pump::{deeds_of, is_run, run_deeds, Pump, PumpExit, PumpNote, PumpTurn};
use crate::pump_laws::{
    as_waits, captured_among, captures, law_captured_audio_goes_out_once_and_in_order,
    lemma_filter_nothing, sendings, sources_of, stems_from,
};
use crate::rig::{Deed, Rig};
use std::time::Instant;
use vstd::prelude::*;

verus! {

/// These looks into the channel discard `count` chunks, one each, until `end`
/// finds none (or the count is exhausted).
pub open spec fn discards(looks: Seq<Glance>, count: u32, end: Glance) -> bool {
    &&& looks.len() == count + 1
    &&& forall|i: int| 0 <= i < count ==> (#[trigger] looks[i]) is Frame
    &&& looks.last() == end
    &&& end is Frame ==> count == u32::MAX
}

/// Looking into the channel, once for each of these.
pub open spec fn as_looks(looks: Seq<Glance>) -> Seq<Deed> {
    looks.map_values(|g: Glance| Deed::Looked(g))
}

/// Discards the chunks that queued up while there was no session: replaying
/// them would burst stale audio into the new session and inflate its latency by
/// the length of the outage.
///
/// Returns how many were discarded, and the look that ended it.
pub fn discard_stale<
    A: Fn() -> bool,
    B: Fn() -> bool,
    S: Fn(LivePcmFrame) -> bool,
    H: Fn(u64),
    L: Fn(PumpNote),
>(rig: &mut Rig<A, B, S, H, L>) -> (r: (u32, Glance))
    requires
        old(rig).wf(),
    ensures
        final(rig).wf(),
        exists|looks: Seq<Glance>|
            discards(looks, r.0, r.1) && final(rig).has_done(
                *old(rig),
                #[trigger] as_looks(looks),
            ),
{
    let ghost first = *rig;
    let mut discarded: u32 = 0;
    let mut seen: Glance = rig.look();
    let ghost mut looks: Seq<Glance> = seq![seen];
    assert(rig.journal() =~= first.journal() + as_looks(looks));
    while matches!(seen, Glance::Frame(_)) && discarded < u32::MAX
        invariant
            rig.wf(),
            rig.has_done(first, as_looks(looks)),
            looks.len() == discarded + 1,
            looks.last() == seen,
            forall|i: int| 0 <= i < discarded ==> (#[trigger] looks[i]) is Frame,
        decreases u32::MAX - discarded,
    {
        discarded = discarded + 1;
        let ghost before = looks;
        seen = rig.look();
        proof {
            looks = before.push(seen);
            assert(rig.journal() =~= first.journal() + as_looks(looks));
        }
    }
    let r: (u32, Glance) = (discarded, seen);
    assert(discards(looks, r.0, r.1));
    r
}

/// The deed hands the sender one chunk of the standing fill.
pub open spec fn is_fill(deed: Deed, channels: u8, sample_rate: u32) -> bool {
    &&& deed matches Deed::Sent { frame, .. }
    &&& frame.samples@ == silence((SILENCE_FRAMES * channels) as nat)
    &&& frame.channels == channels
    &&& frame.sample_rate == sample_rate
}

/// These deeds hand the sender the standing fill: `PRECHARGE_CHUNKS` chunks of
/// silence in the stream's own format, whether it takes them or not.
pub open spec fn is_precharge(deeds: Seq<Deed>, channels: u8, sample_rate: u32) -> bool {
    &&& deeds.len() == PRECHARGE_CHUNKS
    &&& forall|i: int|
        0 <= i < deeds.len() ==> is_fill(#[trigger] deeds[i], channels, sample_rate)
}

/// Begins a session that has just come up: discards the chunks that queued up
/// while there was none, then sends the standing fill of silence. Returns how
/// many chunks were discarded.
pub fn begin_session<
    A: Fn() -> bool,
    B: Fn() -> bool,
    S: Fn(LivePcmFrame) -> bool,
    H: Fn(u64),
    L: Fn(PumpNote),
>(rig: &mut Rig<A, B, S, H, L>, channels: u8, sample_rate: u32) -> (discarded: u32)
    requires
        old(rig).wf(),
    ensures
        final(rig).wf(),
        exists|looks: Seq<Glance>, end: Glance, fill: Seq<Deed>|
            #[trigger] discards(looks, discarded, end) && #[trigger] is_precharge(
                fill,
                channels,
                sample_rate,
            ) && final(rig).has_done(*old(rig), as_looks(looks) + fill),
{
    let ghost first = *rig;
    let (discarded, end) = discard_stale(rig);
    let ghost looks = choose|looks: Seq<Glance>|
        discards(looks, discarded, end) && rig.has_done(first, #[trigger] as_looks(looks));
    let ghost mut fill: Seq<Deed> = Seq::empty();
    let mut sent: usize = 0;
    assert(rig.journal() =~= first.journal() + (as_looks(looks) + fill));
    while sent < PRECHARGE_CHUNKS
        invariant
            rig.wf(),
            sent <= PRECHARGE_CHUNKS,
            fill.len() == sent,
            rig.has_done(first, as_looks(looks) + fill),
            forall|i: int|
                0 <= i < fill.len() ==> is_fill(#[trigger] fill[i], channels, sample_rate),
        decreases PRECHARGE_CHUNKS - sent,
    {
        let frame: LivePcmFrame = silence_chunk(channels, sample_rate);
        let ghost handed = frame;
        let taken: bool = rig.hand_over(frame);
        proof {
            fill = fill.push(Deed::Sent { frame: handed, taken });
            assert(rig.journal() =~= first.journal() + (as_looks(looks) + fill));
        }
        sent = sent + 1;
    }
    assert(is_precharge(fill, channels, sample_rate));
    discarded
}

/// No stale audio reaches a session. `looks` and `fill` are what its beginning
/// did, `turns` what its pump did after that. When the pump starts, the channel
/// has been found empty (or without a sender). The sender is handed the standing
/// fill of silence first; and whatever captured audio it is handed after that
/// was taken from the channel after it had been found empty, each chunk once and
/// in order.
pub proof fn law_no_stale_audio_reaches_a_session(
    looks: Seq<Glance>,
    discarded: u32,
    end: Glance,
    fill: Seq<Deed>,
    pump: Pump,
    turns: Seq<PumpTurn>,
    exit: PumpExit,
    start: Instant,
    epoch: Instant,
)
    requires
        discards(looks, discarded, end),
        discarded < u32::MAX,
        is_precharge(fill, pump.channels, pump.sample_rate),
        pump.channels > 0,
        is_run(pump, turns, exit),
    ensures
        ({
            let deeds = as_looks(looks) + fill + run_deeds(pump, turns, start, epoch);
            let sent = deeds.filter(sendings());
            let sources = sources_of(turns);
            let n = looks.len() as int;
            &&& n > 0
            &&& deeds[n - 1] == Deed::Looked(Glance::Empty) || deeds[n - 1] == Deed::Looked(
                Glance::Disconnected,
            )
            &&& deeds.skip(n).filter(captures()) == as_waits(captured_among(sources))
            &&& sent.len() == PRECHARGE_CHUNKS + sources.len()
            &&& is_precharge(sent.take(PRECHARGE_CHUNKS as int), pump.channels, pump.sample_rate)
            &&& forall|k: int|
                0 <= k < sources.len() ==> (#[trigger] sent[PRECHARGE_CHUNKS + k] matches Deed::Sent {
                    frame,
                    ..
                } && stems_from(pump, frame, sources[k]))
        }),
{
    let deeds = deeds_of(pump, turns, start, epoch);
    law_captured_audio_goes_out_once_and_in_order(pump, turns, exit, start, epoch);
    lemma_session_parts(as_looks(looks), fill, start, deeds);
    let all = as_looks(looks) + fill + (seq![Deed::Began(start)] + deeds);
    let later = deeds.filter(sendings());
    let n = looks.len() as int;
    assert(all[n - 1] == Deed::Looked(looks[n - 1]));
    assert((fill + later).take(PRECHARGE_CHUNKS as int) =~= fill);
    assert forall|k: int| 0 <= k < sources_of(turns).len() implies (#[trigger] (fill
        + later)[PRECHARGE_CHUNKS + k] matches Deed::Sent { frame, .. } && stems_from(
        pump,
        frame,
        sources_of(turns)[k],
    )) by {
        assert((fill + later)[PRECHARGE_CHUNKS + k] == later[k]);
    }
}

/// What is sent in a session, and what is captured once its channel was found
/// empty: nothing is sent while looking, and nothing is captured while filling.
proof fn lemma_session_parts(looking: Seq<Deed>, fill: Seq<Deed>, start: Instant, deeds: Seq<Deed>)
    requires
        forall|i: int| 0 <= i < looking.len() ==> (#[trigger] looking[i]) is Looked,
        forall|i: int| 0 <= i < fill.len() ==> (#[trigger] fill[i]) is Sent,
    ensures
        ({
            let all = looking + fill + (seq![Deed::Began(start)] + deeds);
            &&& all.filter(sendings()) == fill + deeds.filter(sendings())
            &&& all.skip(looking.len() as int).filter(captures()) == deeds.filter(captures())
        }),
{
    let began = seq![Deed::Began(start)];
    let run = began + deeds;
    let all = looking + fill + run;
    lemma_filter_nothing(sendings(), looking);
    lemma_filter_all(sendings(), fill);
    lemma_filter_nothing(sendings(), began);
    Seq::filter_distributes_over_add(began, deeds, sendings());
    Seq::filter_distributes_over_add(looking, fill, sendings());
    Seq::filter_distributes_over_add(looking + fill, run, sendings());
    assert(all.filter(sendings()) =~= fill + deeds.filter(sendings()));
    lemma_filter_nothing(captures(), fill);
    lemma_filter_nothing(captures(), began);
    Seq::filter_distributes_over_add(began, deeds, captures());
    Seq::filter_distributes_over_add(fill, run, captures());
    assert(all.skip(looking.len() as int) =~= fill + run);
    assert((fill + run).filter(captures()) =~= deeds.filter(captures()));
}

proof fn lemma_filter_all(keep: spec_fn(Deed) -> bool, deeds: Seq<Deed>)
    requires
        forall|i: int| 0 <= i < deeds.len() ==> keep(#[trigger] deeds[i]),
    ensures
        deeds.filter(keep) == deeds,
    decreases deeds.len(),
{
    reveal(Seq::filter);
    if deeds.len() > 0 {
        let init = deeds.drop_last();
        assert forall|i: int| 0 <= i < init.len() implies keep(#[trigger] init[i]) by {
            assert(init[i] == deeds[i]);
        }
        lemma_filter_all(keep, init);
        assert(keep(deeds[deeds.len() - 1]));
        assert(init.push(deeds.last()) =~= deeds);
    }
    assert(deeds.filter(keep) =~= deeds);
}

} // verus!
