//! What holds of every run of the pump.

use crate::capture::Reception;
use crate::pcm::{is_audible, CapturedFrame, LivePcmFrame};
use crate::pump::{
    deadband, deeds_of, is_run, keepalive_frames, regulated, shed_frames, written, Pump,
    PumpAction, PumpExit, PumpLog, PumpTurn, RECEIVE_WAIT_MS, SEND_FAILURE_LIMIT,
};
use crate::rig::Deed;
use std::time::Instant;
use vstd::prelude::*;

verus! {

/// Frames of the sends that went through.
pub open spec fn frames_through(sends: Seq<(int, bool)>) -> int
    decreases sends.len(),
{
    if sends.len() == 0 {
        0
    } else {
        let (frames, ok) = sends.last();
        frames_through(sends.drop_last()) + if ok {
            frames
        } else {
            0
        }
    }
}

/// The outcomes of a series of sends.
pub open spec fn outcomes(sends: Seq<(int, bool)>) -> Seq<bool> {
    sends.map_values(|s: (int, bool)| s.1)
}

/// Drift regulation leaves a chunk alone inside the deadband. Outside it, the
/// chunk loses or gains at most two frames, on the side that brings the stream
/// back to the clock, and no other sample changes. A chunk that has a frame
/// keeps one, and whole frames stay whole.
pub proof fn law_regulation_is_gentle(samples: Seq<i16>, ch: int, balance: int, band: int)
    requires
        ch > 0,
        band >= 0,
    ensures
        ({
            let r = regulated(samples, ch, balance, band);
            &&& -band <= balance <= band ==> r == samples
            &&& balance > band ==> r.is_prefix_of(samples) && samples.len() - r.len() <= 2 * ch
            &&& balance > band && samples.len() >= 2 * ch ==> r.len() < samples.len()
            &&& balance < -band ==> samples.is_prefix_of(r) && r.len() - samples.len() <= 2 * ch
            &&& balance < -band && samples.len() >= ch ==> r.len() == samples.len() + 2 * ch
            &&& samples.len() >= ch ==> r.len() >= ch
            &&& samples.len() as int % ch == 0 ==> r.len() as int % ch == 0
        }),
{
    let len = samples.len() as int;
    let r = regulated(samples, ch, balance, band);
    if balance > band && len >= 2 * ch {
        let frames = len / ch;
        let shed = shed_frames(frames);
        assert(frames >= 2 && frames * ch <= len) by (nonlinear_arith)
            requires
                frames == len / ch,
                len >= 2 * ch,
                ch > 0,
        ;
        assert(ch <= shed * ch <= 2 * ch && len - shed * ch >= ch) by (nonlinear_arith)
            requires
                1 <= shed <= 2,
                shed <= frames - 1,
                frames * ch <= len,
                ch > 0,
        ;
        if len % ch == 0 {
            assert(len - shed * ch == ch * (-shed) + len) by (nonlinear_arith);
            vstd::arithmetic::div_mod::lemma_mod_multiples_vanish(-shed, len, ch);
        }
    } else if balance < -band && len >= ch {
        assert(r.take(len) =~= samples);
        if len % ch == 0 {
            vstd::arithmetic::div_mod::lemma_mod_multiples_vanish(2, len, ch);
            assert(ch * 2 + len == len + 2 * ch);
        }
    } else {
        assert(samples.take(len) =~= samples);
    }
}

/// The keepalive only fills: it comes only when the stream is behind by more
/// than the deadband, it is silence and nothing else, and it brings the stream
/// at most up to the wall clock and adds at most 200 ms, but for the two frames
/// of drift regulation.
pub proof fn law_keepalive_only_fills(pump: Pump, at_receive: int, at_send: int, action: PumpAction)
    requires
        pump.wf(),
        pump.answers(Reception::Timeout, at_receive, at_send, action),
        action != PumpAction::Idle,
    ensures
        pump.deficit_at(at_receive) > deadband(pump.sample_rate as int),
        action matches PumpAction::Send { frame, frames, .. } && !is_audible(frame.samples@)
            && pump.pushed_frames + frames <= crate::clock::frames_in(
            at_receive,
            pump.sample_rate as int,
        ) + 2 && (frames - 2) * 5 <= pump.sample_rate,
{
    let ch = pump.channels as int;
    let inject = keepalive_frames(pump.deficit_at(at_receive), pump.sample_rate as int);
    let n = inject * ch;
    assert(n >= 0) by (nonlinear_arith)
        requires
            n == inject * ch,
            inject >= 0,
            ch > 0,
    ;
    let quiet = crate::pcm::silence(n as nat);
    let sent = pump.outgoing(quiet, at_send);
    law_regulation_is_gentle(
        quiet,
        ch,
        -pump.deficit_at(at_send),
        deadband(pump.sample_rate as int),
    );
    assert(sent.len() <= n + 2 * ch);
    assert forall|i: int| 0 <= i < sent.len() implies sent[i] == 0 by {}
    let frames = sent.len() as int / ch;
    assert(frames <= inject + 2) by (nonlinear_arith)
        requires
            frames == sent.len() as int / ch,
            sent.len() <= n + 2 * ch,
            n == inject * ch,
            ch > 0,
    ;
}

/// As long as the pump has not given up, its accounts say exactly what went
/// through: dropped chunks are not counted, and the failure count is the
/// current run of failures. It gives up exactly when the last
/// `SEND_FAILURE_LIMIT` sends have all failed.
pub proof fn law_accounts_follow_the_sends(pump: Pump, sends: Seq<(int, bool)>)
    requires
        pump.pushed_frames == 0,
        pump.send_failures == 0,
        forall|i: int| 0 <= i < sends.len() ==> (#[trigger] sends[i]).0 >= 0,
        forall|i: int| 0 <= i < sends.len() ==> !(#[trigger] pump.after_sends(sends.take(i))).is_dead(),
        frames_through(sends) <= u64::MAX,
    ensures
        pump.after_sends(sends).pushed_frames == frames_through(sends),
        pump.after_sends(sends).send_failures == crate::streak::failing_streak(outcomes(sends)),
        pump.after_sends(sends).is_dead() <==> sends.len() >= SEND_FAILURE_LIMIT && (forall|i: int|
            sends.len() - SEND_FAILURE_LIMIT <= i < sends.len() ==> !(#[trigger] sends[i]).1),
    decreases sends.len(),
{
    if sends.len() > 0 {
        let init = sends.drop_last();
        assert forall|i: int| 0 <= i < init.len() implies !(#[trigger] pump.after_sends(
            init.take(i),
        )).is_dead() by {
            assert(init.take(i) =~= sends.take(i));
        }
        lemma_frames_through_nonneg(init);
        law_accounts_follow_the_sends(pump, init);
        assert(sends.take(sends.len() - 1) =~= init);
        assert(outcomes(sends).drop_last() =~= outcomes(init));
        assert(outcomes(sends).last() == sends.last().1);
    }
    crate::streak::law_streak_is_trailing_failures(outcomes(sends), SEND_FAILURE_LIMIT as nat);
    if forall|i: int|
        outcomes(sends).len() - SEND_FAILURE_LIMIT <= i < outcomes(sends).len() ==> !outcomes(
            sends,
        )[i] {
        assert forall|i: int| sends.len() - SEND_FAILURE_LIMIT <= i < sends.len() && i >= 0 implies !(
        #[trigger] sends[i]).1 by {
            assert(!outcomes(sends)[i]);
        }
    }
}

proof fn lemma_frames_through_nonneg(sends: Seq<(int, bool)>)
    requires
        forall|i: int| 0 <= i < sends.len() ==> (#[trigger] sends[i]).0 >= 0,
    ensures
        frames_through(sends) >= 0,
    decreases sends.len(),
{
    if sends.len() > 0 {
        lemma_frames_through_nonneg(sends.drop_last());
    }
}

/// The sends that a series of turns made, each with its frames and outcome.
pub open spec fn sends_of(turns: Seq<PumpTurn>) -> Seq<(int, bool)>
    decreases turns.len(),
{
    if turns.len() == 0 {
        Seq::empty()
    } else {
        let before = sends_of(turns.drop_last());
        match turns.last().action {
            PumpAction::Send { frame, frames, .. } => before.push((frames as int, turns.last().sent)),
            _ => before,
        }
    }
}

/// Turns touch the accounts through their sends alone: a turn that sent nothing
/// leaves them as they were.
pub proof fn law_turns_book_their_sends(pump: Pump, turns: Seq<PumpTurn>)
    ensures
        pump.after_turns(turns) == pump.after_sends(sends_of(turns)),
    decreases turns.len(),
{
    if turns.len() > 0 {
        law_turns_book_their_sends(pump, turns.drop_last());
        let before = sends_of(turns.drop_last());
        if let PumpAction::Send { frame, frames, .. } = turns.last().action {
            assert(before.push((frames as int, turns.last().sent)).drop_last() =~= before);
        }
    }
}

/// A wish to keep some of the deeds, which wants neither clock readings nor notes.
pub open spec fn is_plain(keep: spec_fn(Deed) -> bool) -> bool {
    forall|d: Deed| (d is Began || d is Aged || d is Noted) ==> !#[trigger] keep(d)
}

/// Readings of the stop flag.
pub open spec fn stop_reads() -> spec_fn(Deed) -> bool {
    |d: Deed| d is StopRead
}

/// Readings of the dead flag.
pub open spec fn dead_reads() -> spec_fn(Deed) -> bool {
    |d: Deed| d is DeadRead
}

/// Readings of the stop flag, and waits for the capture.
pub open spec fn stop_reads_and_waits() -> spec_fn(Deed) -> bool {
    |d: Deed| d is StopRead || d is Waited
}

/// Captured chunks that were taken from the channel.
pub open spec fn captures() -> spec_fn(Deed) -> bool {
    |d: Deed|
        (d matches Deed::Waited { reception, .. } && reception is Frame) || (d matches Deed::Looked(
            g,
        ) && g is Frame)
}

/// Chunks that were handed to the sender.
pub open spec fn sendings() -> spec_fn(Deed) -> bool {
    |d: Deed| d is Sent
}

/// Tellings of real audio.
pub open spec fn hearings() -> spec_fn(Deed) -> bool {
    |d: Deed| d is Heard
}

/// The deed alone, if it is kept.
pub open spec fn kept(keep: spec_fn(Deed) -> bool, d: Deed) -> Seq<Deed> {
    if keep(d) {
        seq![d]
    } else {
        Seq::empty()
    }
}

/// What a plain wish keeps of a turn.
pub open spec fn kept_of_turn(keep: spec_fn(Deed) -> bool, t: PumpTurn) -> Seq<Deed> {
    kept(keep, Deed::StopRead(t.stop)) + if t.stop {
        Seq::empty()
    } else {
        kept(keep, Deed::DeadRead(t.dead)) + if t.dead {
            Seq::empty()
        } else {
            kept(keep, Deed::Waited { wait_ms: RECEIVE_WAIT_MS, reception: t.reception })
                + if t.hears() {
                kept(keep, Deed::Heard(t.heard_ms()))
            } else {
                Seq::empty()
            } + match t.action {
                PumpAction::Send { frame, .. } => kept(keep, Deed::Sent { frame, taken: t.sent }),
                _ => Seq::empty(),
            }
        }
    }
}

/// What a plain wish keeps of a series of turns.
pub open spec fn kept_of(keep: spec_fn(Deed) -> bool, turns: Seq<PumpTurn>) -> Seq<Deed>
    decreases turns.len(),
{
    if turns.len() == 0 {
        Seq::empty()
    } else {
        kept_of(keep, turns.drop_last()) + kept_of_turn(keep, turns.last())
    }
}

proof fn lemma_filter_one(keep: spec_fn(Deed) -> bool, d: Deed)
    ensures
        seq![d].filter(keep) == kept(keep, d),
{
    reveal(Seq::filter);
    assert(seq![d].drop_last() =~= Seq::<Deed>::empty());
    assert(Seq::<Deed>::empty().filter(keep) =~= Seq::<Deed>::empty());
    assert(seq![d].filter(keep) =~= kept(keep, d));
}

pub(crate) proof fn lemma_filter_nothing(keep: spec_fn(Deed) -> bool, deeds: Seq<Deed>)
    requires
        forall|i: int| 0 <= i < deeds.len() ==> !keep(#[trigger] deeds[i]),
    ensures
        deeds.filter(keep) == Seq::<Deed>::empty(),
    decreases deeds.len(),
{
    reveal(Seq::filter);
    if deeds.len() > 0 {
        assert forall|i: int| 0 <= i < deeds.drop_last().len() implies !keep(
            #[trigger] deeds.drop_last()[i],
        ) by {
            assert(deeds.drop_last()[i] == deeds[i]);
        }
        lemma_filter_nothing(keep, deeds.drop_last());
        assert(!keep(deeds[deeds.len() - 1]));
    }
    assert(deeds.filter(keep) =~= Seq::<Deed>::empty());
}

/// What is kept of a send is the send.
proof fn lemma_kept_of_send(
    keep: spec_fn(Deed) -> bool,
    pump: Pump,
    log: PumpLog,
    t: PumpTurn,
    start: Instant,
)
    requires
        is_plain(keep),
    ensures
        pump.sending_deeds(log, t, start).filter(keep) == (match t.action {
            PumpAction::Send { frame, .. } => kept(keep, Deed::Sent { frame, taken: t.sent }),
            _ => Seq::empty(),
        }),
{
    match t.action {
        PumpAction::Send { frame, frames, shed, repeated, injected } => {
            let note = written(log.keepalive_note(t.reception is Timeout));
            let sent = seq![Deed::Sent { frame, taken: t.sent }];
            let all = pump.sending_deeds(log, t, start);
            let rest = all.skip((note + sent).len() as int);
            assert(all =~= note + sent + rest);
            assert forall|i: int| 0 <= i < rest.len() implies rest[i] is Aged || rest[i] is Noted by {
                assert(rest[i] == all[(note + sent).len() + i]);
            }
            assert forall|i: int| 0 <= i < rest.len() implies !keep(#[trigger] rest[i]) by {}
            lemma_filter_nothing(keep, note);
            lemma_filter_one(keep, Deed::Sent { frame, taken: t.sent });
            lemma_filter_nothing(keep, rest);
            Seq::filter_distributes_over_add(note + sent, rest, keep);
            Seq::filter_distributes_over_add(note, sent, keep);
            assert(all.filter(keep) =~= kept(keep, Deed::Sent { frame, taken: t.sent }));
        },
        _ => {
            lemma_filter_nothing(keep, Seq::empty());
        },
    }
}

/// What a plain wish keeps of what a turn does.
proof fn lemma_kept_of_turn(
    keep: spec_fn(Deed) -> bool,
    pump: Pump,
    log: PumpLog,
    t: PumpTurn,
    start: Instant,
    epoch: Instant,
)
    requires
        is_plain(keep),
    ensures
        pump.deeds(log, t, start, epoch).filter(keep) == kept_of_turn(keep, t),
{
    let stop = Deed::StopRead(t.stop);
    let dead = Deed::DeadRead(t.dead);
    let waited = Deed::Waited { wait_ms: RECEIVE_WAIT_MS, reception: t.reception };
    let heard = Deed::Heard(t.heard_ms());
    let aged = Deed::Aged { since: epoch, nanos: t.heard_at };
    let ages = seq![
        Deed::Aged { since: start, nanos: t.at_receive },
        Deed::Aged { since: start, nanos: t.at_send },
    ];
    let listening = t.listening_deeds(epoch);
    let sending = pump.sending_deeds(log, t, start);
    let live = pump.live_deeds(log, t, start, epoch);
    let none = Seq::<Deed>::empty();
    lemma_filter_one(keep, stop);
    lemma_filter_one(keep, dead);
    lemma_filter_one(keep, waited);
    lemma_filter_one(keep, heard);
    lemma_filter_nothing(keep, none);
    lemma_filter_nothing(keep, seq![aged]);
    lemma_filter_nothing(keep, ages);
    lemma_kept_of_send(keep, pump, log, t, start);
    assert(listening.filter(keep) == if t.hears() {
        kept(keep, heard)
    } else {
        none
    }) by {
        if t.hears() {
            assert(listening =~= seq![aged] + seq![heard]);
            Seq::filter_distributes_over_add(seq![aged], seq![heard], keep);
            assert(listening.filter(keep) =~= kept(keep, heard));
        }
    }
    assert(live == seq![waited] + listening + ages + sending);
    Seq::filter_distributes_over_add(seq![waited] + listening + ages, sending, keep);
    Seq::filter_distributes_over_add(seq![waited] + listening, ages, keep);
    Seq::filter_distributes_over_add(seq![waited], listening, keep);
    Seq::filter_distributes_over_add(seq![dead], live, keep);
    Seq::filter_distributes_over_add(seq![dead], none, keep);
    Seq::filter_distributes_over_add(seq![stop], seq![dead] + live, keep);
    Seq::filter_distributes_over_add(seq![stop], seq![dead] + none, keep);
    Seq::filter_distributes_over_add(seq![stop], none, keep);
    assert(pump.deeds(log, t, start, epoch).filter(keep) =~= kept_of_turn(keep, t));
}

/// What a plain wish keeps of what a series of turns does.
proof fn lemma_kept_of(
    keep: spec_fn(Deed) -> bool,
    pump: Pump,
    turns: Seq<PumpTurn>,
    start: Instant,
    epoch: Instant,
)
    requires
        is_plain(keep),
    ensures
        deeds_of(pump, turns, start, epoch).filter(keep) == kept_of(keep, turns),
    decreases turns.len(),
{
    if turns.len() == 0 {
        lemma_filter_nothing(keep, Seq::empty());
    } else {
        let init = turns.drop_last();
        let log = PumpLog::fresh().after_turns(init);
        let p = pump.after_turns(init);
        lemma_kept_of(keep, pump, init, start, epoch);
        lemma_kept_of_turn(keep, p, log, turns.last(), start, epoch);
        Seq::filter_distributes_over_add(
            deeds_of(pump, init, start, epoch),
            p.deeds(log, turns.last(), start, epoch),
            keep,
        );
    }
}

/// Both flags are seen promptly. The pump reads the stop flag in every turn, and
/// between two readings it waits at most once, for `RECEIVE_WAIT_MS`. All
/// readings say that the flag is down but the last; if that one says that it is
/// up, the pump is over as `Stopped`, and it is never over like that otherwise.
/// The dead flag, likewise, is read in every turn that the stop flag did not
/// end; a reading that says that it is up is the last, and ends the session.
pub proof fn law_raised_flags_are_seen_promptly(
    pump: Pump,
    turns: Seq<PumpTurn>,
    exit: PumpExit,
    start: Instant,
    epoch: Instant,
)
    requires
        is_run(pump, turns, exit),
    ensures
        ({
            let deeds = deeds_of(pump, turns, start, epoch);
            let stops = deeds.filter(stop_reads());
            let deads = deeds.filter(dead_reads());
            let both = deeds.filter(stop_reads_and_waits());
            let last = turns.len() - 1;
            &&& stops.len() == turns.len()
            &&& forall|i: int| 0 <= i < last ==> #[trigger] stops[i] == Deed::StopRead(false)
            &&& stops[last] == Deed::StopRead(exit == PumpExit::Stopped)
            &&& deads.len() == if exit == PumpExit::Stopped {
                last
            } else {
                turns.len() as int
            }
            &&& forall|i: int| 0 <= i < last ==> #[trigger] deads[i] == Deed::DeadRead(false)
            &&& deads.len() == turns.len() && deads[last] == Deed::DeadRead(true) ==> exit
                == PumpExit::SessionDead
            &&& forall|k: int|
                0 <= k < both.len() ==> if k % 2 == 0 {
                    #[trigger] both[k] is StopRead
                } else {
                    both[k] matches Deed::Waited { wait_ms, .. } && wait_ms == RECEIVE_WAIT_MS
                }
        }),
{
    lemma_kept_of(stop_reads(), pump, turns, start, epoch);
    lemma_kept_of(dead_reads(), pump, turns, start, epoch);
    lemma_kept_of(stop_reads_and_waits(), pump, turns, start, epoch);
    lemma_flags_tell_the_exit(pump, turns, exit);
    lemma_flags_of_turns(turns);
}

/// Only the last turn of a run meets a raised flag.
proof fn lemma_flags_tell_the_exit(pump: Pump, turns: Seq<PumpTurn>, exit: PumpExit)
    requires
        is_run(pump, turns, exit),
    ensures
        turns.len() > 0,
        forall|i: int| 0 <= i < turns.len() - 1 ==> (#[trigger] turns[i]).is_live(),
        exit == PumpExit::Stopped <==> turns.last().stop,
        turns.last().dead && !turns.last().stop ==> exit == PumpExit::SessionDead,
{
    let last = turns.len() - 1;
    assert forall|i: int| 0 <= i < last implies (#[trigger] turns[i]).is_live() by {
        assert(pump.after_turns(turns.take(i)).verdict(turns[i]) is None);
    }
    assert(pump.after_turns(turns.take(last)).takes(turns[last]));
}

/// What turns of which only the last can meet a raised flag read of the flags,
/// and how they wait.
proof fn lemma_flags_of_turns(turns: Seq<PumpTurn>)
    requires
        turns.len() > 0,
        forall|i: int| 0 <= i < turns.len() - 1 ==> (#[trigger] turns[i]).is_live(),
    ensures
        ({
            let stops = kept_of(stop_reads(), turns);
            let deads = kept_of(dead_reads(), turns);
            let both = kept_of(stop_reads_and_waits(), turns);
            let last = turns.len() - 1;
            &&& stops.len() == turns.len()
            &&& forall|i: int| 0 <= i < last ==> #[trigger] stops[i] == Deed::StopRead(false)
            &&& stops[last] == Deed::StopRead(turns.last().stop)
            &&& deads.len() == if turns.last().stop {
                last
            } else {
                turns.len() as int
            }
            &&& forall|i: int| 0 <= i < last ==> #[trigger] deads[i] == Deed::DeadRead(false)
            &&& !turns.last().stop ==> deads[last] == Deed::DeadRead(turns.last().dead)
            &&& forall|k: int|
                0 <= k < both.len() ==> if k % 2 == 0 {
                    #[trigger] both[k] is StopRead
                } else {
                    both[k] matches Deed::Waited { wait_ms, .. } && wait_ms == RECEIVE_WAIT_MS
                }
        }),
{
    let init = turns.drop_last();
    assert forall|i: int| 0 <= i < init.len() implies (#[trigger] init[i]).is_live() by {
        assert(init[i] == turns[i]);
    }
    lemma_flags_of_live_turns(init);
    lemma_flags_of_turn(turns.last());
}

/// What a turn reads of the flags, and how it waits.
proof fn lemma_flags_of_turn(t: PumpTurn)
    ensures
        kept_of_turn(stop_reads(), t) == seq![Deed::StopRead(t.stop)],
        kept_of_turn(dead_reads(), t) == if t.stop {
            Seq::<Deed>::empty()
        } else {
            seq![Deed::DeadRead(t.dead)]
        },
        kept_of_turn(stop_reads_and_waits(), t) == if t.is_live() {
            seq![
                Deed::StopRead(t.stop),
                Deed::Waited { wait_ms: RECEIVE_WAIT_MS, reception: t.reception },
            ]
        } else {
            seq![Deed::StopRead(t.stop)]
        },
{
    assert(kept_of_turn(stop_reads(), t) =~= seq![Deed::StopRead(t.stop)]);
    assert(kept_of_turn(dead_reads(), t) =~= if t.stop {
        Seq::<Deed>::empty()
    } else {
        seq![Deed::DeadRead(t.dead)]
    });
    assert(kept_of_turn(stop_reads_and_waits(), t) =~= if t.is_live() {
        seq![
            Deed::StopRead(t.stop),
            Deed::Waited { wait_ms: RECEIVE_WAIT_MS, reception: t.reception },
        ]
    } else {
        seq![Deed::StopRead(t.stop)]
    });
}

/// What turns with no flag up read of the flags, and how they wait.
proof fn lemma_flags_of_live_turns(turns: Seq<PumpTurn>)
    requires
        forall|i: int| 0 <= i < turns.len() ==> (#[trigger] turns[i]).is_live(),
    ensures
        kept_of(stop_reads(), turns).len() == turns.len(),
        kept_of(dead_reads(), turns).len() == turns.len(),
        kept_of(stop_reads_and_waits(), turns).len() == 2 * turns.len(),
        forall|i: int|
            0 <= i < turns.len() ==> #[trigger] kept_of(stop_reads(), turns)[i] == Deed::StopRead(
                false,
            ),
        forall|i: int|
            0 <= i < turns.len() ==> #[trigger] kept_of(dead_reads(), turns)[i] == Deed::DeadRead(
                false,
            ),
        forall|k: int|
            0 <= k < 2 * turns.len() ==> if k % 2 == 0 {
                #[trigger] kept_of(stop_reads_and_waits(), turns)[k] is StopRead
            } else {
                kept_of(stop_reads_and_waits(), turns)[k] matches Deed::Waited { wait_ms, .. }
                    && wait_ms == RECEIVE_WAIT_MS
            },
    decreases turns.len(),
{
    if turns.len() > 0 {
        let init = turns.drop_last();
        assert forall|i: int| 0 <= i < init.len() implies (#[trigger] init[i]).is_live() by {
            assert(init[i] == turns[i]);
        }
        lemma_flags_of_live_turns(init);
        assert(turns[turns.len() - 1].is_live());
        lemma_flags_of_turn(turns.last());
    }
}

/// What each exit means. The pump says `Stopped` exactly when the stop flag was
/// up, and `CaptureDied` exactly when the capture channel was found empty with
/// no sender left. Short of the counters' limits, it says `SessionDead` exactly
/// when the dead flag was up or the sender failed `SEND_FAILURE_LIMIT` times in
/// a row.
pub proof fn law_exit_tells_why(pump: Pump, turns: Seq<PumpTurn>, exit: PumpExit)
    requires
        is_run(pump, turns, exit),
        turns.len() < u64::MAX,
    ensures
        ({
            let t = turns.last();
            let p = pump.after_turns(turns.drop_last());
            &&& exit == PumpExit::Stopped <==> t.stop
            &&& exit == PumpExit::CaptureDied <==> !t.stop && !t.dead
                && t.reception is Disconnected
            &&& exit == PumpExit::SessionDead <==> !t.stop && (t.dead || (t.action matches
                PumpAction::Send { frame, frames, .. } && (p.booked(frames as int, t.sent).is_dead()
                || t.sent && p.pushed_frames + frames > u64::MAX)))
        }),
{
    let last = turns.len() - 1;
    assert(turns.take(last) =~= turns.drop_last());
    assert(pump.after_turns(turns.take(last)).takes(turns[last]));
}

/// A quiet capture does not end the pump, as long as the sender takes the
/// keepalive.
pub proof fn law_quiet_does_not_end_the_pump(pump: Pump, t: PumpTurn)
    requires
        pump.wf(),
        !t.stop,
        !t.dead,
        t.reception == Reception::Timeout,
        pump.answers(t.reception, t.at_receive as int, t.at_send as int, t.action),
        t.sent,
        t.action matches PumpAction::Send { frame, frames, .. } ==> pump.pushed_frames + frames
            <= u64::MAX,
    ensures
        pump.verdict(t) is None,
{
}

/// Where each chunk that a series of turns handed to the sender came from: a
/// captured chunk, or nowhere (keepalive).
pub open spec fn sources_of(turns: Seq<PumpTurn>) -> Seq<Option<CapturedFrame>>
    decreases turns.len(),
{
    if turns.len() == 0 {
        Seq::empty()
    } else {
        let before = sources_of(turns.drop_last());
        let t = turns.last();
        if !(t.is_live() && t.action is Send) {
            before
        } else {
            before.push(
                match t.reception {
                    Reception::Frame(f) => Some(f),
                    _ => None,
                },
            )
        }
    }
}

/// The captured chunks among sources, in order.
pub open spec fn captured_among(sources: Seq<Option<CapturedFrame>>) -> Seq<CapturedFrame>
    decreases sources.len(),
{
    if sources.len() == 0 {
        Seq::empty()
    } else {
        let before = captured_among(sources.drop_last());
        match sources.last() {
            Some(f) => before.push(f),
            None => before,
        }
    }
}

/// `sent` is what drift regulation makes of `captured` when the stream is
/// `balance` frames ahead.
pub open spec fn is_regulated(pump: Pump, sent: Seq<i16>, captured: Seq<i16>, balance: int) -> bool {
    sent == regulated(captured, pump.channels as int, balance, deadband(pump.sample_rate as int))
}

/// `chunk` is what `pump`'s session makes of `source`: a captured chunk after
/// drift regulation, or silence. It carries the session's format.
pub open spec fn stems_from(pump: Pump, chunk: LivePcmFrame, source: Option<CapturedFrame>) -> bool {
    &&& chunk.channels == pump.channels
    &&& chunk.sample_rate == pump.sample_rate
    &&& source is Some ==> exists|balance: int|
        is_regulated(pump, chunk.samples@, source->0.samples@, balance)
    &&& source is None ==> !is_audible(chunk.samples@)
}

/// Taking captured chunks from the channel, one wait each.
pub open spec fn as_waits(frames: Seq<CapturedFrame>) -> Seq<Deed> {
    frames.map_values(
        |f: CapturedFrame|
            Deed::Waited { wait_ms: RECEIVE_WAIT_MS, reception: Reception::Frame(f) },
    )
}

/// Captured audio goes to the sender once each and in the order in which it was
/// captured: every chunk that was taken from the channel is the source of exactly
/// one chunk that was sent, in the same order, and what is sent besides is
/// silence.
pub proof fn law_captured_audio_goes_out_once_and_in_order(
    pump: Pump,
    turns: Seq<PumpTurn>,
    exit: PumpExit,
    start: Instant,
    epoch: Instant,
)
    requires
        pump.channels > 0,
        is_run(pump, turns, exit),
    ensures
        ({
            let deeds = deeds_of(pump, turns, start, epoch);
            let sources = sources_of(turns);
            let sent = deeds.filter(sendings());
            &&& deeds.filter(captures()) == as_waits(captured_among(sources))
            &&& sent.len() == sources.len()
            &&& forall|k: int|
                0 <= k < sent.len() ==> (#[trigger] sent[k] matches Deed::Sent { frame, .. }
                    && stems_from(pump, frame, sources[k]))
        }),
{
    lemma_kept_of(captures(), pump, turns, start, epoch);
    lemma_kept_of(sendings(), pump, turns, start, epoch);
    lemma_chunks_have_sources(pump, turns);
}

proof fn lemma_chunks_have_sources(pump: Pump, turns: Seq<PumpTurn>)
    requires
        pump.channels > 0,
        forall|i: int|
            0 <= i < turns.len() ==> pump.after_turns(turns.take(i)).takes(#[trigger] turns[i]),
    ensures
        kept_of(captures(), turns) == as_waits(captured_among(sources_of(turns))),
        kept_of(sendings(), turns).len() == sources_of(turns).len(),
        forall|k: int|
            0 <= k < sources_of(turns).len() ==> (#[trigger] kept_of(
                sendings(),
                turns,
            )[k] matches Deed::Sent { frame, .. } && stems_from(pump, frame, sources_of(turns)[k])),
    decreases turns.len(),
{
    if turns.len() == 0 {
        assert(kept_of(captures(), turns) =~= as_waits(captured_among(sources_of(turns))));
    } else {
        let init = turns.drop_last();
        let t = turns.last();
        assert forall|i: int| 0 <= i < init.len() implies pump.after_turns(init.take(i)).takes(
            #[trigger] init[i],
        ) by {
            assert(init.take(i) =~= turns.take(i));
            assert(init[i] == turns[i]);
        }
        lemma_chunks_have_sources(pump, init);
        assert(turns.take(turns.len() - 1) =~= init);
        assert(turns[turns.len() - 1] == t);
        let p = pump.after_turns(init);
        assert(p.takes(t));
        lemma_format_stays(pump, init);
        if t.is_live() && t.action is Send {
            let frame = t.action->frame;
            let source: Option<CapturedFrame> = match t.reception {
                Reception::Frame(f) => Some(f),
                _ => None,
            };
            assert(sources_of(turns) == sources_of(init).push(source));
            assert(sources_of(turns).drop_last() =~= sources_of(init));
            assert(kept_of_turn(sendings(), t) =~= seq![Deed::Sent { frame, taken: t.sent }]);
            lemma_chunk_stems(pump, p, t);
            assert(kept_of(captures(), turns) =~= as_waits(captured_among(sources_of(turns))));
        } else {
            assert(kept_of_turn(sendings(), t) =~= Seq::<Deed>::empty());
            assert(kept_of_turn(captures(), t) =~= Seq::<Deed>::empty());
            assert(kept_of(captures(), turns) =~= kept_of(captures(), init));
            assert(kept_of(sendings(), turns) =~= kept_of(sendings(), init));
        }
    }
}

/// The chunk that a turn sends stems from what it received.
proof fn lemma_chunk_stems(pump: Pump, p: Pump, t: PumpTurn)
    requires
        pump.channels > 0,
        p.channels == pump.channels,
        p.sample_rate == pump.sample_rate,
        t.is_live(),
        t.action is Send,
        p.takes(t),
    ensures
        stems_from(
            pump,
            t.action->frame,
            match t.reception {
                Reception::Frame(f) => Some(f),
                _ => None,
            },
        ),
{
    let frame = t.action->frame;
    let source: Option<CapturedFrame> = match t.reception {
        Reception::Frame(f) => Some(f),
        _ => None,
    };
    let band = deadband(pump.sample_rate as int);
    let balance = -p.deficit_at(t.at_send as int);
    match t.reception {
        Reception::Frame(f) => {
            assert(source->0 == f);
            assert(is_regulated(pump, frame.samples@, source->0.samples@, balance));
        },
        Reception::Timeout => {
            let quiet = keepalive_frames(p.deficit_at(t.at_receive as int), p.sample_rate as int);
            let n = (quiet * p.channels) as nat;
            assert(frame.samples@ == regulated(
                crate::pcm::silence(n),
                pump.channels as int,
                balance,
                band,
            ));
            lemma_silence_stays_silent(n, pump.channels as int, balance, band);
        },
        Reception::Disconnected => {},
    }
    assert(stems_from(pump, frame, source));
}

/// Drift regulation makes no sound.
proof fn lemma_silence_stays_silent(n: nat, ch: int, balance: int, band: int)
    requires
        ch > 0,
        band >= 0,
    ensures
        !is_audible(regulated(crate::pcm::silence(n), ch, balance, band)),
{
    let quiet = crate::pcm::silence(n);
    let r = regulated(quiet, ch, balance, band);
    law_regulation_is_gentle(quiet, ch, balance, band);
    assert forall|i: int| 0 <= i < r.len() implies r[i] == 0 by {}
}

/// The stream's format does not change.
proof fn lemma_format_stays(pump: Pump, turns: Seq<PumpTurn>)
    ensures
        pump.after_turns(turns).channels == pump.channels,
        pump.after_turns(turns).sample_rate == pump.sample_rate,
    decreases turns.len(),
{
    if turns.len() > 0 {
        lemma_format_stays(pump, turns.drop_last());
    }
}

/// Silence is never told of: where no real audio came in, nothing is told.
pub proof fn law_silence_is_never_told(
    pump: Pump,
    turns: Seq<PumpTurn>,
    start: Instant,
    epoch: Instant,
)
    requires
        forall|i: int| 0 <= i < turns.len() ==> !(#[trigger] turns[i]).hears(),
    ensures
        deeds_of(pump, turns, start, epoch).filter(hearings()) == Seq::<Deed>::empty(),
{
    lemma_kept_of(hearings(), pump, turns, start, epoch);
    lemma_no_tellings(turns);
}

proof fn lemma_no_tellings(turns: Seq<PumpTurn>)
    requires
        forall|i: int| 0 <= i < turns.len() ==> !(#[trigger] turns[i]).hears(),
    ensures
        kept_of(hearings(), turns) == Seq::<Deed>::empty(),
    decreases turns.len(),
{
    if turns.len() > 0 {
        let init = turns.drop_last();
        assert forall|i: int| 0 <= i < init.len() implies !(#[trigger] init[i]).hears() by {
            assert(init[i] == turns[i]);
        }
        lemma_no_tellings(init);
        assert(!turns[turns.len() - 1].hears());
        assert(kept_of(hearings(), turns) =~= Seq::<Deed>::empty());
    }
}

/// The last that is told of real audio is when the last of it came in, whether
/// or not the sender took it.
pub proof fn law_last_telling_is_of_the_last_real_audio(
    pump: Pump,
    turns: Seq<PumpTurn>,
    k: int,
    start: Instant,
    epoch: Instant,
)
    requires
        0 <= k < turns.len(),
        turns[k].hears(),
        forall|j: int| k < j < turns.len() ==> !(#[trigger] turns[j]).hears(),
    ensures
        deeds_of(pump, turns, start, epoch).filter(hearings()).len() > 0,
        deeds_of(pump, turns, start, epoch).filter(hearings()).last() == Deed::Heard(
            turns[k].heard_ms(),
        ),
{
    lemma_kept_of(hearings(), pump, turns, start, epoch);
    lemma_last_telling(turns, k);
}

proof fn lemma_last_telling(turns: Seq<PumpTurn>, k: int)
    requires
        0 <= k < turns.len(),
        turns[k].hears(),
        forall|j: int| k < j < turns.len() ==> !(#[trigger] turns[j]).hears(),
    ensures
        kept_of(hearings(), turns).len() > 0,
        kept_of(hearings(), turns).last() == Deed::Heard(turns[k].heard_ms()),
    decreases turns.len(),
{
    let init = turns.drop_last();
    let n = turns.len() - 1;
    assert(turns[n] == turns.last());
    if k < n {
        assert forall|j: int| k < j < init.len() implies !(#[trigger] init[j]).hears() by {
            assert(init[j] == turns[j]);
        }
        lemma_last_telling(init, k);
        assert(!turns[n].hears());
        assert(kept_of(hearings(), turns) =~= kept_of(hearings(), init));
    } else {
        assert(kept_of_turn(hearings(), turns[n]) =~= seq![Deed::Heard(turns[n].heard_ms())]);
    }
}

} // verus!
