//! What becomes of captured audio, in plain numbers.

use crate::capture::Reception;
use crate::clock::frames_in;
use crate::pcm::{
    is_audible, silence, silence_chunk, silent_samples, CapturedFrame, LivePcmFrame,
};
use crate::pump::{
    deadband, is_run, keepalive_frames, regulate, regulated, run_deeds, shed_frames,
    written, Pump, PumpAction, PumpExit, PumpLog, PumpNote, PumpStats, PumpTurn,
};
use crate::rig::Deed;
use std::time::Instant;
use vstd::prelude::*;

verus! {

/// `sent` is what goes out of `captured` in a stream of `rate` frames a second
/// and `ch` channels that has pushed `pushed` frames when its clock shows
/// `nanos`. Within 30 ms of the clock the chunk goes out as it is. Further ahead,
/// it loses its last two frames, or as many as leave it one; further behind, its
/// last frame is played twice more.
pub open spec fn held_to_the_clock(
    captured: Seq<i16>,
    sent: Seq<i16>,
    rate: int,
    ch: int,
    pushed: int,
    nanos: int,
) -> bool {
    let ahead = pushed - nanos * rate / 1_000_000_000;
    let slack = rate * 30 / 1000;
    let n = captured.len() as int;
    &&& -slack <= ahead <= slack ==> sent == captured
    &&& ahead > slack && n < 2 * ch ==> sent == captured
    &&& ahead > slack && 2 * ch <= n < 3 * ch ==> sent == captured.take(n - ch)
    &&& ahead > slack && 3 * ch <= n ==> sent == captured.take(n - 2 * ch)
    &&& ahead < -slack && n < ch ==> sent == captured
    &&& ahead < -slack && ch <= n ==> {
        &&& sent.len() == n + 2 * ch
        &&& sent.take(n) == captured
        &&& forall|j: int|
            0 <= j < ch ==> #[trigger] sent[n + j] == captured[n - ch + j] && sent[n + ch + j]
                == captured[n - ch + j]
    }
}

/// Every captured chunk is sent on, in the stream's own format, held to the wall
/// clock at the time of the send; and the answer counts what it sends, and what
/// was shed or repeated.
pub proof fn law_captured_chunk_is_held_to_the_clock(
    pump: Pump,
    f: CapturedFrame,
    at_receive: u64,
    at_send: u64,
    action: PumpAction,
)
    requires
        pump.wf(),
        call_ensures(Pump::answer, (&pump, Reception::Frame(f), at_receive, at_send), action),
    ensures
        action matches PumpAction::Send { frame, frames, shed, repeated, injected } && {
            let ch = pump.channels as int;
            &&& held_to_the_clock(
                f.samples@,
                frame.samples@,
                pump.sample_rate as int,
                ch,
                pump.pushed_frames as int,
                at_send as int,
            )
            &&& frame.channels == pump.channels
            &&& frame.sample_rate == pump.sample_rate
            &&& frames == frame.samples@.len() as int / ch
            &&& frame.samples@.len() == f.samples@.len() + repeated * ch - shed * ch
            &&& shed == 0 || repeated == 0
            &&& injected == 0
        },
{
    let ch = pump.channels as int;
    let n = f.samples@.len() as int;
    let rate = pump.sample_rate as int;
    assert(rate * 30 / 1000 == rate * 3 / 100);
    assert(pump.answers(Reception::Frame(f), at_receive as int, at_send as int, action));
    lemma_whole_frames(n, ch);
    lemma_held(f.samples@, rate, ch, pump.pushed_frames as int, at_send as int);
    if let PumpAction::Send { frame, frames, shed, repeated, injected } = action {
        assert(shed * ch == if shed == 0 {
            0
        } else if shed == 1 {
            ch
        } else {
            2 * ch
        }) by (nonlinear_arith)
            requires
                0 <= shed <= 2,
        ;
        assert(repeated * ch == if repeated == 0 {
            0
        } else {
            2 * ch
        }) by (nonlinear_arith)
            requires
                repeated == 0 || repeated == 2,
        ;
    }
}

/// Two or more frames, or one and a bit, by the number of samples.
proof fn lemma_whole_frames(n: int, ch: int)
    requires
        n >= 0,
        ch > 0,
    ensures
        2 * ch <= n < 3 * ch ==> n / ch == 2,
        3 * ch <= n ==> n / ch >= 3,
{
    assert(2 * ch <= n < 3 * ch ==> n / ch == 2) by (nonlinear_arith)
        requires
            ch > 0,
    ;
    assert(3 * ch <= n ==> n / ch >= 3) by (nonlinear_arith)
        requires
            ch > 0,
    ;
}

proof fn lemma_held(captured: Seq<i16>, rate: int, ch: int, pushed: int, nanos: int)
    requires
        ch > 0,
        rate >= 0,
    ensures
        held_to_the_clock(
            captured,
            regulated(
                captured,
                ch,
                -(frames_in(nanos, rate) - pushed),
                deadband(rate),
            ),
            rate,
            ch,
            pushed,
            nanos,
        ),
{
    let n = captured.len() as int;
    let ahead = -(frames_in(nanos, rate) - pushed);
    let sent = regulated(captured, ch, ahead, deadband(rate));
    lemma_whole_frames(n, ch);
    assert(rate * 30 / 1000 == rate * 3 / 100);
    if ahead > deadband(rate) && n >= 2 * ch {
        let shed = shed_frames(n / ch);
        assert(shed * ch == if shed == 1 {
            ch
        } else {
            2 * ch
        }) by (nonlinear_arith)
            requires
                shed == 1 || shed == 2,
        ;
        assert(sent == captured.take(n - shed * ch));
    } else if ahead < -deadband(rate) && n >= ch {
        let last = captured.skip(n - ch);
        assert(sent == captured + last + last);
        assert(sent.take(n) =~= captured);
    }
}

/// A wait that timed out is answered by the clock: within 30 ms of it nothing is
/// sent; further behind, as much silence as is missing by the clock when the wait
/// ended, at most 200 ms of it, which is held to the clock like any other chunk.
pub proof fn law_silence_fills_what_is_missing(
    pump: Pump,
    at_receive: u64,
    at_send: u64,
    action: PumpAction,
)
    requires
        pump.wf(),
        call_ensures(Pump::answer, (&pump, Reception::Timeout, at_receive, at_send), action),
    ensures
        ({
            let rate = pump.sample_rate as int;
            let ch = pump.channels as int;
            let missing = at_receive as int * rate / 1_000_000_000 - pump.pushed_frames;
            let fill = if missing <= rate / 5 {
                missing
            } else {
                rate / 5
            };
            if missing <= rate * 30 / 1000 {
                action == PumpAction::Idle
            } else {
                action matches PumpAction::Send { frame, frames, shed, repeated, injected } && {
                    &&& injected == fill
                    &&& forall|i: int| 0 <= i < frame.samples@.len() ==> frame.samples@[i] == 0
                    &&& held_to_the_clock(
                        Seq::new((fill * ch) as nat, |i: int| 0i16),
                        frame.samples@,
                        rate,
                        ch,
                        pump.pushed_frames as int,
                        at_send as int,
                    )
                    &&& frame.channels == pump.channels
                    &&& frame.sample_rate == pump.sample_rate
                    &&& frames == frame.samples@.len() as int / ch
                    &&& frame.samples@.len() == fill * ch + repeated * ch - shed * ch
                    &&& shed == 0 || repeated == 0
                }
            }
        }),
{
    let rate = pump.sample_rate as int;
    let ch = pump.channels as int;
    assert(rate * 30 / 1000 == rate * 3 / 100);
    assert(pump.answers(Reception::Timeout, at_receive as int, at_send as int, action));
    if let PumpAction::Send { frame, frames, shed, repeated, injected } = action {
        let missing = at_receive as int * rate / 1_000_000_000 - pump.pushed_frames;
        let fill = keepalive_frames(missing, rate);
        let quiet = silence((fill * ch) as nat);
        assert(quiet =~= Seq::new((fill * ch) as nat, |i: int| 0i16));
        assert(fill * ch >= 0) by (nonlinear_arith)
            requires
                fill >= 0,
                ch >= 0,
        ;
        lemma_whole_frames(fill * ch, ch);
        lemma_held(quiet, rate, ch, pump.pushed_frames as int, at_send as int);
        assert(frame.samples@ == regulated(
            quiet,
            ch,
            -pump.deficit_at(at_send as int),
            deadband(rate),
        ));
        assert(shed * ch == if shed == 0 {
            0
        } else if shed == 1 {
            ch
        } else {
            2 * ch
        }) by (nonlinear_arith)
            requires
                0 <= shed <= 2,
        ;
        assert(repeated * ch == if repeated == 0 {
            0
        } else {
            2 * ch
        }) by (nonlinear_arith)
            requires
                repeated == 0 || repeated == 2,
        ;
    }
}

/// A capture channel that is gone ends the pump, whatever the clock says.
pub proof fn law_lost_capture_ends_the_pump(
    pump: Pump,
    at_receive: u64,
    at_send: u64,
    action: PumpAction,
)
    requires
        pump.wf(),
        call_ensures(Pump::answer, (&pump, Reception::Disconnected, at_receive, at_send), action),
    ensures
        action == PumpAction::Exit(PumpExit::CaptureDied),
{
}

/// Drift regulation by itself: inside the band nothing changes; ahead of it the
/// chunk loses at most two frames from its end, and keeps one; behind it the last
/// frame is played twice more.
pub proof fn law_regulation_in_plain_words(
    samples: Vec<i16>,
    ch: usize,
    balance: i128,
    band: i128,
    r: Vec<i16>,
)
    requires
        0 < ch <= 255,
        0 <= band <= u32::MAX,
        call_ensures(regulate, (samples, ch, balance, band), r),
    ensures
        ({
            let n = samples@.len() as int;
            &&& -band <= balance <= band ==> r@ == samples@
            &&& balance > band && n < 2 * ch ==> r@ == samples@
            &&& balance > band && 2 * ch <= n < 3 * ch ==> r@ == samples@.take(n - ch)
            &&& balance > band && 3 * ch <= n ==> r@ == samples@.take(n - 2 * ch)
            &&& balance < -band && n < ch ==> r@ == samples@
            &&& balance < -band && ch <= n ==> r@ == samples@ + samples@.skip(n - ch) + samples@.skip(
                n - ch,
            )
        }),
{
    let n = samples@.len() as int;
    lemma_whole_frames(n, ch as int);
    if balance > band && n >= 2 * ch {
        let shed = shed_frames(n / ch as int);
        assert(shed * ch == if shed == 1 {
            ch as int
        } else {
            2 * ch
        }) by (nonlinear_arith)
            requires
                shed == 1 || shed == 2,
        ;
    }
}

/// Only what the sender took is counted, and a success ends a run of failures;
/// the sender counts as gone at the 250th failure in a row, and not before.
pub proof fn law_only_what_was_taken_counts(pump: Pump, frames: int)
    requires
        0 <= frames <= u64::MAX - pump.pushed_frames,
        pump.send_failures < u32::MAX,
    ensures
        ({
            let taken = pump.booked(frames, true);
            let refused = pump.booked(frames, false);
            &&& taken.pushed_frames == pump.pushed_frames + frames
            &&& taken.send_failures == 0
            &&& refused.pushed_frames == pump.pushed_frames
            &&& refused.send_failures == pump.send_failures + 1
            &&& taken.channels == pump.channels && refused.channels == pump.channels
            &&& taken.sample_rate == pump.sample_rate && refused.sample_rate == pump.sample_rate
            &&& !taken.is_dead()
            &&& refused.is_dead() <==> pump.send_failures >= 249
        }),
{
}

/// Frames of the chunks that the sender took in a series of turns.
pub open spec fn frames_taken(turns: Seq<PumpTurn>, ch: int) -> int
    decreases turns.len(),
{
    if turns.len() == 0 {
        0
    } else {
        frames_taken(turns.drop_last(), ch) + match turns.last().action {
            PumpAction::Send { frame, .. } => if turns.last().sent {
                frame.samples@.len() as int / ch
            } else {
                0
            },
            _ => 0,
        }
    }
}

/// Chunks in a row, up to the end of a series of turns, that the sender refused.
pub open spec fn refused_in_a_row(turns: Seq<PumpTurn>) -> int
    decreases turns.len(),
{
    if turns.len() == 0 {
        0
    } else if !(turns.last().action is Send) {
        refused_in_a_row(turns.drop_last())
    } else if turns.last().sent {
        0
    } else {
        refused_in_a_row(turns.drop_last()) + 1
    }
}

proof fn lemma_pushed_is_taken(rate: u32, channels: u8, turns: Seq<PumpTurn>, i: int)
    requires
        channels > 0,
        0 <= i <= turns.len(),
        forall|k: int|
            0 <= k < i ==> Pump::fresh(rate, channels).after_turns(turns.take(k)).takes(
                #[trigger] turns[k],
            ),
        forall|k: int|
            0 <= k < i ==> Pump::fresh(rate, channels).after_turns(turns.take(k)).verdict(
                #[trigger] turns[k],
            ) is None,
    ensures
        ({
            let p = Pump::fresh(rate, channels).after_turns(turns.take(i));
            &&& p.pushed_frames == frames_taken(turns.take(i), channels as int)
            &&& p.channels == channels
            &&& p.sample_rate == rate
            &&& p.send_failures == refused_in_a_row(turns.take(i))
            &&& p.send_failures < 250
        }),
    decreases i,
{
    let all = turns.take(i);
    if i == 0 {
        assert(all.len() == 0);
    } else {
        lemma_pushed_is_taken(rate, channels, turns, i - 1);
        assert(all.drop_last() =~= turns.take(i - 1));
        assert(all.last() == turns[i - 1]);
        let p = Pump::fresh(rate, channels).after_turns(turns.take(i - 1));
        assert(p.takes(turns[i - 1]));
        assert(p.verdict(turns[i - 1]) is None);
    }
}

/// Over a whole run, every captured chunk is held to the clock reading of its own
/// turn, against exactly the frames that the sender has taken before it.
pub proof fn law_every_chunk_is_held_to_its_own_reading(
    rate: u32,
    channels: u8,
    turns: Seq<PumpTurn>,
    exit: PumpExit,
    i: int,
    f: CapturedFrame,
)
    requires
        channels > 0,
        is_run(Pump::fresh(rate, channels), turns, exit),
        0 <= i < turns.len(),
        !turns[i].stop,
        !turns[i].dead,
        turns[i].reception == Reception::Frame(f),
    ensures
        turns[i].action matches PumpAction::Send { frame, .. } && held_to_the_clock(
            f.samples@,
            frame.samples@,
            rate as int,
            channels as int,
            frames_taken(turns.take(i), channels as int),
            turns[i].at_send as int,
        ),
{
    lemma_pushed_is_taken(rate, channels, turns, i);
    let p = Pump::fresh(rate, channels).after_turns(turns.take(i));
    assert(p.takes(turns[i]));
    lemma_held(
        f.samples@,
        rate as int,
        channels as int,
        p.pushed_frames as int,
        turns[i].at_send as int,
    );
}

/// Over a whole run, keepalive is sent exactly when the capture was silent for a
/// turn and the stream is more than 30 ms behind the clock reading of that turn.
pub proof fn law_keepalive_waits_for_the_clock(
    rate: u32,
    channels: u8,
    turns: Seq<PumpTurn>,
    exit: PumpExit,
    i: int,
)
    requires
        channels > 0,
        is_run(Pump::fresh(rate, channels), turns, exit),
        0 <= i < turns.len(),
        !turns[i].stop,
        !turns[i].dead,
        turns[i].reception == Reception::Timeout,
    ensures
        turns[i].action == PumpAction::Idle <==> turns[i].at_receive as int * rate as int
            / 1_000_000_000 - frames_taken(turns.take(i), channels as int) <= rate * 30 / 1000,
{
    lemma_pushed_is_taken(rate, channels, turns, i);
    let p = Pump::fresh(rate, channels).after_turns(turns.take(i));
    assert(p.takes(turns[i]));
    assert(rate * 30 / 1000 == rate * 3 / 100);
}

/// What one turn does with the world, in order. A raised flag is the last that
/// it reads. Otherwise it waits 20 ms for the capture; tells of real audio, in
/// milliseconds of the session's age; reads the clock twice; and sends, after a
/// note where this is the first keepalive.
pub proof fn law_turn_step_by_step(
    pump: Pump,
    log: PumpLog,
    t: PumpTurn,
    start: Instant,
    epoch: Instant,
)
    ensures
        ({
            let deeds = pump.deeds(log, t, start, epoch);
            let loud = t.reception matches Reception::Frame(f) && exists|i: int|
                0 <= i < f.samples@.len() && f.samples@[i] != 0;
            let b: int = if loud {
                5
            } else {
                3
            };
            let first = t.reception is Timeout && log.stats.keepalive == 0;
            let s: int = b + 2 + if first {
                1int
            } else {
                0
            };
            &&& t.stop ==> deeds == seq![Deed::StopRead(true)]
            &&& !t.stop && t.dead ==> deeds == seq![Deed::StopRead(false), Deed::DeadRead(true)]
            &&& !t.stop && !t.dead ==> {
                &&& deeds.len() >= b + 2
                &&& deeds[0] == Deed::StopRead(false)
                &&& deeds[1] == Deed::DeadRead(false)
                &&& deeds[2] == Deed::Waited { wait_ms: 20, reception: t.reception }
                &&& loud ==> deeds[3] == Deed::Aged { since: epoch, nanos: t.heard_at } && deeds[4]
                    == Deed::Heard(t.heard_at / 1_000_000)
                &&& deeds[b] == Deed::Aged { since: start, nanos: t.at_receive }
                &&& deeds[b + 1] == Deed::Aged { since: start, nanos: t.at_send }
                &&& !(t.action is Send) ==> deeds.len() == b + 2
                &&& t.action is Send ==> {
                    &&& deeds.len() > s
                    &&& first ==> deeds[b + 2] == Deed::Noted(PumpNote::KeepaliveEngaged)
                    &&& deeds[s] == Deed::Sent { frame: t.action->frame, taken: t.sent }
                    &&& forall|k: int|
                        s < k < deeds.len() ==> (#[trigger] deeds[k] is Aged || deeds[k] is Noted)
                }
            }
        }),
{
    let deeds = pump.deeds(log, t, start, epoch);
    if t.reception is Frame {
        assert(is_audible(t.reception->Frame_0.samples@) <==> exists|i: int|
            0 <= i < t.reception->Frame_0.samples@.len() && t.reception->Frame_0.samples@[i] != 0);
    }
    if t.stop {
        assert(deeds =~= seq![Deed::StopRead(true)]);
    } else if t.dead {
        assert(deeds =~= seq![Deed::StopRead(false), Deed::DeadRead(true)]);
    }
}

/// What a turn does after a send that did not end the pump: it reads the clock
/// once more, notes the first refused chunk and every 250th after it, and reports
/// the numbers when more than ten minutes have passed since the last report. A
/// send that ended the pump is followed by nothing but the note that the sender
/// is gone.
pub proof fn law_after_the_send(
    pump: Pump,
    log: PumpLog,
    t: PumpTurn,
    start: Instant,
    refused: u64,
    stats: PumpStats,
)
    requires
        t.action is Send,
        !t.stop,
        !t.dead,
        pump.send_failures < 250,
        log.stats.refused < u64::MAX,
        refused == log.stats.refused + if t.sent {
            0int
        } else {
            1
        },
        stats == log.counted(t.action->shed, t.action->repeated, t.action->injected, t.sent),
    ensures
        ({
            let deeds = pump.sending_deeds(log, t, start);
            let s: int = if t.reception is Timeout && log.stats.keepalive == 0 {
                1
            } else {
                0
            };
            let rest = deeds.skip(s + 1);
            let over = if t.sent {
                pump.pushed_frames + t.action->frames > u64::MAX
            } else {
                pump.send_failures >= 249
            };
            let full = !t.sent && refused % 250 == 1;
            let due = t.at_end - log.reported_at > 600_000_000_000;
            let report = Deed::Noted(
                PumpNote::Report { stats, minutes: t.at_end / 60_000_000_000 },
            );
            let aged = Deed::Aged { since: start, nanos: t.at_end };
            let noted = Deed::Noted(PumpNote::QueueFull { total: refused });
            &&& over && t.sent ==> rest == Seq::<Deed>::empty()
            &&& over && !t.sent ==> rest == seq![Deed::Noted(PumpNote::SenderUnresponsive)]
            &&& !over && !full && !due ==> rest == seq![aged]
            &&& !over && full && !due ==> rest == seq![aged, noted]
            &&& !over && !full && due ==> rest == seq![aged, report]
            &&& !over && full && due ==> rest == seq![aged, noted, report]
        }),
{
    let deeds = pump.sending_deeds(log, t, start);
    let s: int = if t.reception is Timeout && log.stats.keepalive == 0 {
        1
    } else {
        0
    };
    let rest = deeds.skip(s + 1);
    assert(t.at_end / 1_000_000_000 / 60 == t.at_end / 60_000_000_000);
    let over = if t.sent {
        pump.pushed_frames + t.action->frames > u64::MAX
    } else {
        pump.send_failures >= 249
    };
    let aged = Deed::Aged { since: start, nanos: t.at_end };
    let tail = if pump.verdict(t) is None {
        seq![aged] + written(PumpLog::refusal_note(t.sent, stats.refused)) + written(
            log.report_note(stats, t.at_end),
        )
    } else if !t.sent {
        written(Some(PumpNote::SenderUnresponsive))
    } else {
        Seq::empty()
    };
    assert(rest =~= tail);
    assert(over <==> pump.verdict(t) is Some);
    let full = !t.sent && refused % 250 == 1;
    let due = t.at_end - log.reported_at > 600_000_000_000;
    let report = Deed::Noted(PumpNote::Report { stats, minutes: t.at_end / 60_000_000_000 });
    let noted = Deed::Noted(PumpNote::QueueFull { total: refused });
    if over && t.sent {
        assert(rest =~= Seq::<Deed>::empty());
    } else if over {
        assert(rest =~= seq![Deed::Noted(PumpNote::SenderUnresponsive)]);
    } else if !full && !due {
        assert(rest =~= seq![aged]);
    } else if full && !due {
        assert(rest =~= seq![aged, noted]);
    } else if !full && due {
        assert(rest =~= seq![aged, report]);
    } else {
        assert(rest =~= seq![aged, noted, report]);
    }
}

/// The numbers of the log are sums: each send adds what it shed, repeated and
/// injected, and one for a refusal; nothing else moves them, and they stop at the
/// greatest number there is. The time of the last report moves exactly when one
/// is due.
pub proof fn law_log_adds_up(
    log: PumpLog,
    shed: u64,
    repeated: u64,
    injected: u64,
    ok: bool,
    at_end: u64,
)
    ensures
        ({
            let after = log.booked(shed, repeated, injected, ok, at_end);
            let old = log.stats;
            let new = after.stats;
            &&& old.shed + shed <= u64::MAX ==> new.shed == old.shed + shed
            &&& old.repeated + repeated <= u64::MAX ==> new.repeated == old.repeated + repeated
            &&& old.keepalive + injected <= u64::MAX ==> new.keepalive == old.keepalive + injected
            &&& ok ==> new.refused == old.refused
            &&& !ok && old.refused < u64::MAX ==> new.refused == old.refused + 1
            &&& new.shed >= old.shed && new.repeated >= old.repeated && new.keepalive
                >= old.keepalive && new.refused >= old.refused
            &&& after.reported_at == if at_end - log.reported_at > 600_000_000_000 {
                at_end
            } else {
                log.reported_at
            }
            &&& PumpLog::fresh() == (PumpLog {
                stats: PumpStats { shed: 0, repeated: 0, keepalive: 0, refused: 0 },
                reported_at: 0,
            })
        }),
{
}

/// A run is its turns, one after the other, after one look at the clock; and the
/// accounts and the log go from turn to turn.
pub proof fn law_run_goes_turn_by_turn(
    pump: Pump,
    turns: Seq<PumpTurn>,
    t: PumpTurn,
    start: Instant,
    epoch: Instant,
)
    ensures
        ({
            let p = pump.after_turns(turns);
            let log = PumpLog::fresh().after_turns(turns);
            &&& run_deeds(pump, Seq::empty(), start, epoch) == seq![Deed::Began(start)]
            &&& run_deeds(pump, turns.push(t), start, epoch) == run_deeds(pump, turns, start, epoch)
                + p.deeds(log, t, start, epoch)
            &&& !(t.action is Send) ==> pump.after_turns(turns.push(t)) == p
                && PumpLog::fresh().after_turns(turns.push(t)) == log
            &&& t.action is Send ==> pump.after_turns(turns.push(t)) == p.booked(
                t.action->frames as int,
                t.sent,
            ) && PumpLog::fresh().after_turns(turns.push(t)) == log.booked(
                t.action->shed,
                t.action->repeated,
                t.action->injected,
                t.sent,
                t.at_end,
            )
        }),
{
    assert(turns.push(t).drop_last() =~= turns);
    assert(run_deeds(pump, Seq::empty(), start, epoch) =~= seq![Deed::Began(start)]);
    assert(run_deeds(pump, turns.push(t), start, epoch) =~= run_deeds(pump, turns, start, epoch)
        + pump.after_turns(turns).deeds(
        PumpLog::fresh().after_turns(turns),
        t,
        start,
        epoch,
    ));
}

/// How a run ends, in plain numbers: as stopped when its last turn found the stop
/// flag up, else as dead when it found the dead flag up, else as a lost capture
/// when the channel was gone, else as dead when the sender refused its 250th
/// chunk in a row; and no turn before the last met any of these.
pub proof fn law_run_ends_at_the_first_reason(
    rate: u32,
    channels: u8,
    turns: Seq<PumpTurn>,
    exit: PumpExit,
    i: int,
)
    requires
        channels > 0,
        is_run(Pump::fresh(rate, channels), turns, exit),
        0 <= i < turns.len(),
        turns.len() < u64::MAX,
        frames_taken(turns, channels as int) <= u64::MAX,
    ensures
        ({
            let t = turns[i];
            let refused = t.action is Send && !t.sent && refused_in_a_row(turns.take(i)) >= 249;
            let lost = t.reception is Disconnected;
            let last = i == turns.len() - 1;
            &&& !last ==> !t.stop && !t.dead && !lost && !refused
            &&& last ==> (t.stop || t.dead || lost || refused)
            &&& last && t.stop ==> exit == PumpExit::Stopped
            &&& last && !t.stop && t.dead ==> exit == PumpExit::SessionDead
            &&& last && !t.stop && !t.dead && lost ==> exit == PumpExit::CaptureDied
            &&& last && !t.stop && !t.dead && !lost ==> exit == PumpExit::SessionDead
        }),
{
    let p = Pump::fresh(rate, channels).after_turns(turns.take(i));
    lemma_pushed_is_taken(rate, channels, turns, i);
    assert(p.takes(turns[i]));
    if i < turns.len() - 1 {
        assert(p.verdict(turns[i]) is None);
    } else {
        assert(turns.drop_last() =~= turns.take(i));
    }
}

/// The standing fill and the keepalive unit: 882 frames of nothing, in the
/// stream's own format.
pub proof fn law_silence_chunk_is_20_ms(channels: u8, sample_rate: u32, r: LivePcmFrame)
    requires
        call_ensures(silence_chunk, (channels, sample_rate), r),
    ensures
        r.samples@.len() == 882 * channels,
        forall|i: int| 0 <= i < r.samples@.len() ==> r.samples@[i] == 0,
        r.channels == channels,
        r.sample_rate == sample_rate,
{
}

/// Silence is zeros, as many as asked for.
pub proof fn law_silence_is_zeros(n: usize, r: Vec<i16>)
    requires
        call_ensures(silent_samples, (n,), r),
    ensures
        r@.len() == n,
        forall|i: int| 0 <= i < r@.len() ==> r@[i] == 0,
{
}

} // verus!
