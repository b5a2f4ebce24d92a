//! What one call does to what it is called on, in plain numbers.

use crate::capture::{Glance, Probe, Reception};
use crate::doctor::{sample_capture, CaptureTally, Check, Report};
use crate::health::{Beat, Health, Pulse};
use crate::mute::{rolled_back_warning, MuteGuard, MuteState, MuteStep};
use crate::pcm::LivePcmFrame;
use crate::pump::{
    deeds_of, is_run, pump_loop, run_deeds, Pump, PumpExit, PumpLog, PumpNote, PumpTurn,
};
use crate::rig::{Deed, Rig};
use crate::session::{as_looks, begin_session, discard_stale, discards, is_precharge};
use crate::status::{status_view, EngineStatus};
use crate::supervisor::{Event, Next, Reaction, Supervisor};
use std::time::Instant;
use vstd::prelude::*;
use vstd::string::*;

verus! {

/// A tick of the mute guard. A mute that nothing was heard through is undone four
/// seconds after it, and not earlier; audio that came more than half a second
/// after the mute is heard through it, and a mute that was once heard through is
/// never undone. A mute is asked for exactly where it is wanted, real audio is
/// coming in, and none was asked for before.
pub proof fn law_tick_of_the_mute(
    g: &mut MuteGuard,
    age_ms: u64,
    playing: bool,
    last_audio_ms: u64,
    r: MuteStep,
)
    requires
        call_ensures(MuteGuard::tick, (g, age_ms, playing, last_audio_ms), r),
    ensures
        final(g).wanted == old(g).wanted,
        r == MuteStep::Mute <==> old(g).state == MuteState::Open && old(g).wanted && playing,
        r is RollBack <==> (old(g).state matches MuteState::Muted { since_ms, proven, .. } && !proven
            && age_ms >= since_ms + 4000 && (last_audio_ms == u64::MAX || last_audio_ms <= since_ms
            + 500)),
        r is RollBack ==> final(g).state == MuteState::GivenUp && old(g).state->before
            == r->RollBack_before,
        !(r is RollBack) && !(old(g).state is Muted) ==> final(g).state == old(g).state,
        !(r is RollBack) && old(g).state is Muted ==> {
            &&& final(g).state is Muted
            &&& final(g).state->before == old(g).state->before
            &&& final(g).state->since_ms == old(g).state->since_ms
            &&& final(g).state->proven <==> old(g).state->proven || (last_audio_ms != u64::MAX
                && last_audio_ms > old(g).state->since_ms + 500)
        },
{
}

/// A mute and its end: what the output was before the mute is what the end of the
/// session sets it back to, once; and an output that could not be muted, or whose
/// mute was undone, is left alone.
pub proof fn law_mute_and_release(
    g: &mut MuteGuard,
    outcome: Option<bool>,
    age_ms: u64,
    nothing: (),
    h: &mut MuteGuard,
    r: Option<bool>,
    k: &mut MuteGuard,
    again: Option<bool>,
)
    requires
        call_ensures(MuteGuard::muted, (g, outcome, age_ms), nothing),
        *old(h) == *final(g),
        call_ensures(MuteGuard::release, (h,), r),
        *old(k) == *final(h),
        call_ensures(MuteGuard::release, (k,), again),
    ensures
        final(g).wanted == old(g).wanted,
        outcome matches Some(before) ==> final(g).state == (MuteState::Muted {
            before,
            since_ms: age_ms,
            proven: false,
        }),
        outcome is None ==> final(g).state == MuteState::GivenUp,
        r == outcome,
        again is None,
        final(h).wanted == old(g).wanted,
        final(h).state == if outcome is Some {
            MuteState::Open
        } else {
            MuteState::GivenUp
        },
{
}

/// The end of a session sets the output back exactly where it is muted by the
/// session, and to what it was before.
pub proof fn law_release(g: &mut MuteGuard, r: Option<bool>)
    requires
        call_ensures(MuteGuard::release, (g,), r),
    ensures
        r is Some <==> old(g).state is Muted,
        r matches Some(before) ==> old(g).state->before == before,
        !(final(g).state is Muted),
        !(old(g).state is Muted) ==> *final(g) == *old(g),
{
}

/// A session starts with the output as it is, and the warning of a mute that was
/// undone goes to the device's name.
pub proof fn law_guard_starts_open(wanted: bool, g: MuteGuard, name: &str, r: EngineStatus)
    requires
        call_ensures(MuteGuard::new, (wanted,), g),
        call_ensures(rolled_back_warning, (name,), r),
    ensures
        g.wanted == wanted,
        g.state == MuteState::Open,
        r matches EngineStatus::Warning { name: n, .. } && n@ == name@,
{
}

/// A heartbeat. Three in a row that go unanswered are the end of the session; an
/// answer takes all strikes back. A receiver that has asked for the time not once
/// in more than ten seconds is warned of, once. Up to that, and once the session
/// is older than five seconds, the user is told of silence when nothing was heard
/// for three seconds and they think otherwise, and of its end likewise.
pub proof fn law_heartbeat(h: &mut Health, beat: Beat, name: &str, r: Pulse)
    requires
        old(h).strikes < 3,
        call_ensures(Health::tick, (h, beat, name), r),
    ensures
        ({
            let age = beat.age_nanos as int;
            let deaf = age > 10_000_000_000 && beat.timing_requests == Some(0u64);
            let playing = beat.last_audio_ms != u64::MAX && age / 1_000_000 - beat.last_audio_ms
                < 3000;
            let warns = !r.dead && !old(h).timing_warned && deaf;
            let talks = !r.dead && !old(h).timing_warned && !deaf && age > 5_000_000_000;
            let silent = talks && !playing && !old(h).silent_reported;
            let back = talks && playing && old(h).silent_reported;
            &&& r.dead <==> !beat.answered && old(h).strikes == 2
            &&& beat.answered ==> final(h).strikes == 0
            &&& !beat.answered ==> final(h).strikes == old(h).strikes + 1
            &&& final(h).timing_warned <==> old(h).timing_warned || warns
            &&& final(h).silent_reported <==> silent || (old(h).silent_reported && !back)
            &&& warns <==> (r.status matches Some(EngineStatus::Warning { name: n, .. }) && n@
                == name@)
            &&& silent <==> (r.status matches Some(EngineStatus::StreamingSilent { name: n }) && n@
                == name@)
            &&& back <==> (r.status matches Some(EngineStatus::Streaming { name: n }) && n@
                == name@)
            &&& r.status is Some <==> warns || silent || back
        }),
{
    let v = status_view(r.status);
    assert(r.status is Some ==> v == Some(r.status->0@));
}

/// A session starts with no strike against it, and nothing told.
pub proof fn law_health_starts_clean(h: Health, s: Supervisor)
    requires
        call_ensures(Health::new, (), h),
        call_ensures(Supervisor::new, (), s),
    ensures
        h.strikes == 0,
        !h.silent_reported,
        !h.timing_warned,
        s.attempt == 0,
        !s.ever_connected,
        s.backoff_secs == 1,
{
}

/// What an event has the supervisor do. It connects when nothing stands in the
/// way; streams when a session is up; waits after a failed attempt and after a
/// session that died, as long as the backoff, which doubles up to thirty seconds;
/// and is done otherwise. A device that never answered is given up on after its
/// third attempt. A session that died after more than a minute sets the backoff
/// back to one second, and the count of attempts to one.
pub proof fn law_supervisor_reacts(
    s: &mut Supervisor,
    event: Event,
    name: &str,
    address: &str,
    r: Reaction,
)
    requires
        1 <= old(s).backoff_secs <= 30,
        old(s).attempt < u32::MAX,
        call_ensures(Supervisor::react, (s, event, name, address), r),
    ensures
        ({
            let hopeless = !old(s).ever_connected && old(s).attempt >= 3;
            let died = event matches Event::SessionOver { exit, .. } && exit
                == PumpExit::SessionDead;
            let healthy = event matches Event::SessionOver { exit, lasted_nanos } && exit
                == PumpExit::SessionDead && lasted_nanos > 60_000_000_000;
            let wait = if healthy {
                1
            } else {
                old(s).backoff_secs as int
            };
            let waits = (event is ConnectFailed && !hopeless) || died;
            &&& final(s).attempt == if event == (Event::Ready { stop: false }) {
                old(s).attempt + 1
            } else if healthy {
                1
            } else {
                old(s).attempt as int
            }
            &&& final(s).ever_connected <==> old(s).ever_connected || event == Event::Connected
            &&& final(s).backoff_secs == if !waits {
                old(s).backoff_secs as int
            } else if wait * 2 <= 30 {
                wait * 2
            } else {
                30
            }
            &&& r.next is Wait <==> waits
            &&& r.next matches Next::Wait { secs } ==> secs == wait
            &&& r.next == Next::Connect <==> event == (Event::Ready { stop: false })
            &&& r.next == Next::Stream <==> event == Event::Connected
        }),
{
}

/// What an event has the user told, by the device's name or address.
pub proof fn law_supervisor_tells(
    s: &mut Supervisor,
    event: Event,
    name: &str,
    address: &str,
    r: Reaction,
)
    requires
        1 <= old(s).backoff_secs <= 30,
        old(s).attempt < u32::MAX,
        call_ensures(Supervisor::react, (s, event, name, address), r),
    ensures
        r.status is None <==> r.next is Wait,
        event == (Event::Ready { stop: false }) && old(s).attempt == 0 ==> (r.status matches Some(
            EngineStatus::Connecting { name: n },
        ) && n@ == name@),
        event == (Event::Ready { stop: false }) && old(s).attempt > 0 ==> (r.status matches Some(
            EngineStatus::Reconnecting { name: n, attempt },
        ) && n@ == name@ && attempt == final(s).attempt),
        event == (Event::Ready { stop: true }) || event == Event::Interrupted ==> r.status == Some(
            EngineStatus::Stopped,
        ),
        event == Event::Connected ==> (r.status matches Some(EngineStatus::Streaming { name: n })
            && n@ == name@),
        event matches Event::CaptureFailed(e) ==> (r.status matches Some(EngineStatus::Failed(m))
            && m@ == "audio capture: "@ + e@),
        event matches Event::ConnectFailed(e) ==> r.next == Next::Finish ==> (r.status matches Some(
            EngineStatus::Failed(m),
        ) && m@ == "could not connect to "@ + address@ + ": "@ + e@),
        event matches Event::SessionOver { exit, .. } ==> exit == PumpExit::Stopped ==> r.status
            == Some(EngineStatus::Stopped),
        event matches Event::SessionOver { exit, .. } ==> exit == PumpExit::CaptureDied ==> (
        r.status matches Some(EngineStatus::Failed(_))),
{
    let v = status_view(r.status);
    assert(r.status is Some ==> v == Some(r.status->0@));
}

/// What a send has the pump book: only chunks that were taken count, one that was
/// taken ends a run of refusals, and the 250th refusal in a row is the end.
pub proof fn law_pump_books_a_send(p: &mut Pump, frames: u64, ok: bool, r: Option<PumpExit>)
    requires
        old(p).send_failures < 250,
        ok ==> old(p).pushed_frames + frames <= u64::MAX,
        call_ensures(Pump::sent, (p, frames, ok), r),
    ensures
        final(p).sample_rate == old(p).sample_rate,
        final(p).channels == old(p).channels,
        ok ==> final(p).pushed_frames == old(p).pushed_frames + frames && final(p).send_failures
            == 0 && r is None,
        !ok ==> final(p).pushed_frames == old(p).pushed_frames && final(p).send_failures
            == old(p).send_failures + 1,
        r is Some <==> !ok && old(p).send_failures == 249,
        r matches Some(e) ==> e == PumpExit::SessionDead,
{
}

/// What a send has the log book and write: sums, a note of the first refusal and
/// of every 250th after it, and a report when more than ten minutes have passed
/// since the last.
pub proof fn law_log_books_a_send(
    log: &mut PumpLog,
    shed: u64,
    repeated: u64,
    injected: u64,
    ok: bool,
    at_end: u64,
    r: (Option<PumpNote>, Option<PumpNote>),
)
    requires
        call_ensures(PumpLog::book, (log, shed, repeated, injected, ok, at_end), r),
        old(log).stats.shed + shed <= u64::MAX,
        old(log).stats.repeated + repeated <= u64::MAX,
        old(log).stats.keepalive + injected <= u64::MAX,
        old(log).stats.refused < u64::MAX,
    ensures
        final(log).stats.shed == old(log).stats.shed + shed,
        final(log).stats.repeated == old(log).stats.repeated + repeated,
        final(log).stats.keepalive == old(log).stats.keepalive + injected,
        final(log).stats.refused == old(log).stats.refused + if ok {
            0int
        } else {
            1
        },
        r.0 is Some <==> !ok && old(log).stats.refused % 250 == 0,
        r.0 matches Some(n) ==> n == (PumpNote::QueueFull { total: final(log).stats.refused }),
        r.1 is Some <==> at_end - old(log).reported_at > 600_000_000_000,
        r.1 matches Some(n) ==> n == (PumpNote::Report {
            stats: final(log).stats,
            minutes: at_end / 60_000_000_000,
        }),
        final(log).reported_at == if r.1 is Some {
            at_end
        } else {
            old(log).reported_at
        },
{
    assert(at_end / 1_000_000_000 / 60 == at_end / 60_000_000_000);
}

/// The log and the pump of a session that has sent nothing, and the note of the
/// first keepalive.
pub proof fn law_pump_starts_empty(
    rate: u32,
    channels: u8,
    p: Pump,
    log: PumpLog,
    any: PumpLog,
    is_keepalive: bool,
    note: Option<PumpNote>,
)
    requires
        channels > 0,
        call_ensures(Pump::new, (rate, channels), p),
        call_ensures(PumpLog::new, (), log),
        call_ensures(PumpLog::engages, (&any, is_keepalive), note),
    ensures
        p.sample_rate == rate,
        p.channels == channels,
        p.pushed_frames == 0,
        p.send_failures == 0,
        log.stats.shed == 0,
        log.stats.repeated == 0,
        log.stats.keepalive == 0,
        log.stats.refused == 0,
        log.reported_at == 0,
        note is Some <==> is_keepalive && any.stats.keepalive == 0,
        note matches Some(n) ==> n == PumpNote::KeepaliveEngaged,
{
}

/// What a reception adds to the tally: the whole frames of a chunk, one for a
/// chunk in which some sample is not zero, and that the capture is gone.
pub proof fn law_tally_takes_a_reception(tally: &mut CaptureTally, reception: Reception, nothing: ())
    requires
        call_ensures(CaptureTally::count, (tally, reception), nothing),
        old(tally).frames <= u64::MAX / 2,
        old(tally).audible_chunks < u64::MAX,
        reception matches Reception::Frame(f) ==> f.samples@.len() <= u64::MAX / 2,
    ensures
        reception is Timeout ==> *final(tally) == *old(tally),
        reception is Disconnected ==> final(tally).died && final(tally).frames
            == old(tally).frames && final(tally).audible_chunks == old(tally).audible_chunks,
        reception matches Reception::Frame(f) ==> {
            let loud = exists|i: int| 0 <= i < f.samples@.len() && f.samples@[i] != 0;
            &&& final(tally).died == old(tally).died
            &&& f.channels == 0 ==> final(tally).frames == old(tally).frames
            &&& f.channels > 0 ==> final(tally).frames == old(tally).frames
                + f.samples@.len() as int / f.channels as int
            &&& final(tally).audible_chunks == old(tally).audible_chunks + if loud {
                1int
            } else {
                0
            }
        },
{
    crate::laws::doctor::law_tally_counts(*old(tally), Seq::empty(), reception);
}

/// A report takes every check, at its end, and prints it.
pub proof fn law_report_takes_every_check(r: &mut Report, check: Check, line: String, fresh: Report)
    requires
        call_ensures(Report::add, (r, check), line),
        call_ensures(Report::new, (), fresh),
    ensures
        fresh.checks@.len() == 0,
        final(r).checks@.len() == old(r).checks@.len() + 1,
        final(r).checks@.last() == check,
        forall|i: int|
            0 <= i < old(r).checks@.len() ==> final(r).checks@[i] == #[trigger] old(r).checks@[i],
        exists|tag: Seq<char>| line@ == #[trigger] ("["@ + tag) + "] "@ + check.name@ + " — "@
            + check.detail@,
{
    let tag = match check.level {
        crate::doctor::Level::Pass => "PASS"@,
        crate::doctor::Level::Warn => "WARN"@,
        crate::doctor::Level::Fail => "FAIL"@,
        crate::doctor::Level::Info => "INFO"@,
        crate::doctor::Level::Skip => "SKIP"@,
    };
    assert(line@ == ("["@ + tag) + "] "@ + check.name@ + " — "@ + check.detail@);
}

/// How the capture is sampled: by a reading of the clock and a wait of 100 ms in
/// turn, from the beginning on, until the clock shows five seconds or the capture
/// is gone; and the tally is that of exactly what was received.
pub proof fn law_capture_is_sampled(probe: &mut Probe, tally: CaptureTally)
    requires
        old(probe).wf(),
        call_ensures(sample_capture, (probe,), tally),
        final(probe).journal().len() < old(probe).journal().len() + u64::MAX,
    ensures
        ({
            let was = old(probe).journal();
            let now = final(probe).journal();
            let n = now.len() - was.len();
            &&& n >= 2
            &&& now.take(was.len() as int) == was
            &&& now[was.len() as int] is Began
            &&& forall|i: int|
                was.len() < i < now.len() ==> {
                    &&& (i - was.len()) % 2 == 1 ==> (#[trigger] now[i] matches Deed::Aged {
                        since,
                        nanos,
                    } && Deed::Began(since) == now[was.len() as int] && (i < now.len() - 1
                        ==> nanos < 5_000_000_000))
                    &&& (i - was.len()) % 2 == 0 ==> (now[i] matches Deed::Waited {
                        wait_ms,
                        reception,
                    } && wait_ms == 100 && (i < now.len() - 1 ==> !(reception is Disconnected)))
                }
            &&& now.last() matches Deed::Aged { nanos, .. } ==> nanos >= 5_000_000_000
            &&& now.last() matches Deed::Waited { reception, .. } ==> reception is Disconnected
            &&& tally == CaptureTally::of(
                Seq::new(((n - 1) / 2) as nat, |j: int| now[was.len() + 2 + 2 * j]->reception),
            )
        }),
{
    let was = old(probe).journal();
    let now = final(probe).journal();
    let (start, receptions, clock) = choose|
        start: Instant,
        receptions: Seq<Reception>,
        clock: Seq<u64>,
    |
        crate::doctor::is_sampling(receptions, clock, tally) && final(probe).has_done(
            *old(probe),
            seq![Deed::Began(start)] + #[trigger] crate::doctor::sampling_steps(
                start,
                receptions,
                clock,
            ),
        );
    let steps = crate::doctor::sampling_steps(start, receptions, clock);
    let deeds = seq![Deed::Began(start)] + steps;
    let w = was.len() as int;
    assert(now == was + deeds);
    assert(now.take(w) =~= was);
    assert(now[w] == deeds[0]);
    assert forall|i: int| w < i < now.len() implies {
        &&& (i - w) % 2 == 1 ==> (#[trigger] now[i] matches Deed::Aged { since, nanos }
            && Deed::Began(since) == now[w] && (i < now.len() - 1 ==> nanos < 5_000_000_000))
        &&& (i - w) % 2 == 0 ==> (now[i] matches Deed::Waited { wait_ms, reception } && wait_ms
            == 100 && (i < now.len() - 1 ==> !(reception is Disconnected)))
    } by {
        let k = i - w - 1;
        assert(now[i] == steps[k]);
        if k % 2 == 0 {
            if i < now.len() - 1 {
                assert(clock[k / 2] < crate::doctor::sample_nanos());
            }
        } else {
            assert(now[i] == (Deed::Waited { wait_ms: 100, reception: receptions[k / 2] }));
            if i < now.len() - 1 {
                assert(!(receptions[k / 2] is Disconnected));
            }
        }
    }
    let m = steps.len() - 1;
    assert(now.last() == steps[m]);
    let n = now.len() - w;
    let got = Seq::new(((n - 1) / 2) as nat, |j: int| now[w + 2 + 2 * j]->reception);
    assert(got =~= receptions) by {
        assert(got.len() == receptions.len());
        assert forall|j: int| 0 <= j < got.len() implies got[j] == receptions[j] by {
            assert(now[w + 2 + 2 * j] == steps[2 * j + 1]);
        }
    }
    if clock.len() == receptions.len() {
        assert(m == 2 * receptions.len() - 1);
        assert(now.last() == (Deed::Waited {
            wait_ms: 100,
            reception: receptions[receptions.len() - 1],
        }));
    } else {
        assert(m == 2 * receptions.len());
        assert(now.last() == (Deed::Aged { since: start, nanos: clock[receptions.len() as int] }));
    }
}

/// Stale audio is discarded by looking into the channel until a look finds no
/// chunk, and as many are discarded as looks found one.
pub proof fn law_stale_audio_is_discarded<
    A: Fn() -> bool,
    B: Fn() -> bool,
    S: Fn(LivePcmFrame) -> bool,
    H: Fn(u64),
    L: Fn(PumpNote),
>(rig: &mut Rig<A, B, S, H, L>, r: (u32, Glance))
    requires
        old(rig).wf(),
        call_ensures(discard_stale::<A, B, S, H, L>, (rig,), r),
        r.0 < u32::MAX,
    ensures
        ({
            let was = old(rig).journal();
            let now = final(rig).journal();
            &&& now.len() == was.len() + r.0 + 1
            &&& now.take(was.len() as int) == was
            &&& forall|i: int|
                was.len() <= i < now.len() - 1 ==> (#[trigger] now[i] matches Deed::Looked(g)
                    && g is Frame)
            &&& now.last() == Deed::Looked(r.1)
            &&& !(r.1 is Frame)
        }),
{
    let was = old(rig).journal();
    let now = final(rig).journal();
    let looks = choose|looks: Seq<Glance>|
        discards(looks, r.0, r.1) && final(rig).has_done(*old(rig), #[trigger] as_looks(looks));
    assert(now == was + as_looks(looks));
    assert(now.take(was.len() as int) =~= was);
    assert forall|i: int| was.len() <= i < now.len() - 1 implies (#[trigger] now[i] matches Deed::Looked(
        g,
    ) && g is Frame) by {
        assert(now[i] == as_looks(looks)[i - was.len()]);
        assert(looks[i - was.len()] is Frame);
    }
    assert(now.last() == as_looks(looks)[r.0 as int]);
}

/// A session begins by discarding stale audio, and sends fifteen chunks of 882
/// frames of nothing after it.
pub proof fn law_session_begins_with_a_fill<
    A: Fn() -> bool,
    B: Fn() -> bool,
    S: Fn(LivePcmFrame) -> bool,
    H: Fn(u64),
    L: Fn(PumpNote),
>(rig: &mut Rig<A, B, S, H, L>, channels: u8, sample_rate: u32, discarded: u32)
    requires
        old(rig).wf(),
        call_ensures(begin_session::<A, B, S, H, L>, (rig, channels, sample_rate), discarded),
        discarded < u32::MAX,
    ensures
        ({
            let was = old(rig).journal();
            let now = final(rig).journal();
            let fill = was.len() + discarded + 1;
            &&& now.len() == fill + 15
            &&& now.take(was.len() as int) == was
            &&& forall|i: int|
                was.len() <= i < fill - 1 ==> (#[trigger] now[i] matches Deed::Looked(g)
                    && g is Frame)
            &&& now[fill - 1] matches Deed::Looked(g) && !(g is Frame)
            &&& forall|i: int|
                fill <= i < now.len() ==> (#[trigger] now[i] matches Deed::Sent { frame, .. }
                    && frame.samples@.len() == 882 * channels && (forall|k: int|
                    0 <= k < frame.samples@.len() ==> frame.samples@[k] == 0) && frame.channels
                    == channels && frame.sample_rate == sample_rate)
        }),
{
    let was = old(rig).journal();
    let now = final(rig).journal();
    let (looks, end, sends) = choose|looks: Seq<Glance>, end: Glance, sends: Seq<Deed>|
        #[trigger] discards(looks, discarded, end) && #[trigger] is_precharge(
            sends,
            channels,
            sample_rate,
        ) && final(rig).has_done(*old(rig), as_looks(looks) + sends);
    let all = as_looks(looks) + sends;
    let w = was.len() as int;
    let fill = w + discarded + 1;
    assert(now == was + all);
    assert(now.take(w) =~= was);
    crate::laws::session::law_standing_fill_is_300_ms(sends, channels, sample_rate);
    assert forall|i: int| w <= i < fill - 1 implies (#[trigger] now[i] matches Deed::Looked(g)
        && g is Frame) by {
        assert(now[i] == as_looks(looks)[i - w]);
        assert(looks[i - w] is Frame);
    }
    assert(now[fill - 1] == as_looks(looks)[discarded as int]);
    assert forall|i: int| fill <= i < now.len() implies (#[trigger] now[i] matches Deed::Sent {
        frame,
        ..
    } && frame.samples@.len() == 882 * channels && (forall|k: int|
        0 <= k < frame.samples@.len() ==> frame.samples@[k] == 0) && frame.channels == channels
        && frame.sample_rate == sample_rate) by {
        assert(now[i] == sends[i - fill]);
    }
}

/// The pump is stopped exactly by the stop flag: it ends as stopped when the last
/// it did was to find that flag up, and never otherwise. Whatever it did, it did
/// after one look at the clock.
pub proof fn law_only_the_flag_stops_the_pump<
    A: Fn() -> bool,
    B: Fn() -> bool,
    S: Fn(LivePcmFrame) -> bool,
    H: Fn(u64),
    L: Fn(PumpNote),
>(
    rig: &mut Rig<A, B, S, H, L>,
    sample_rate: u32,
    channels: u8,
    epoch: Instant,
    exit: PumpExit,
)
    requires
        old(rig).wf(),
        channels > 0,
        call_ensures(pump_loop::<A, B, S, H, L>, (rig, sample_rate, channels, &epoch), exit),
    ensures
        ({
            let was = old(rig).journal();
            let now = final(rig).journal();
            &&& now.len() > was.len() + 1
            &&& now.take(was.len() as int) == was
            &&& now[was.len() as int] is Began
            &&& now[was.len() as int + 1] is StopRead
            &&& exit == PumpExit::Stopped <==> now.last() == Deed::StopRead(true)
        }),
{
    let was = old(rig).journal();
    let now = final(rig).journal();
    let pump = Pump::fresh(sample_rate, channels);
    let (turns, start) = choose|turns: Seq<PumpTurn>, start: Instant|
        is_run(pump, turns, exit) && final(rig).has_done(
            *old(rig),
            #[trigger] run_deeds(pump, turns, start, epoch),
        );
    let all = run_deeds(pump, turns, start, epoch);
    let w = was.len() as int;
    lemma_run_deeds(pump, turns, exit, start, epoch);
    assert(now == was + all);
    assert(now.take(w) =~= was);
    assert(now[w] == all[0]);
    assert(now[w + 1] == all[1]);
    assert(now.last() == all.last());
}

proof fn lemma_run_deeds(
    pump: Pump,
    turns: Seq<PumpTurn>,
    exit: PumpExit,
    start: Instant,
    epoch: Instant,
)
    requires
        is_run(pump, turns, exit),
    ensures
        ({
            let all = run_deeds(pump, turns, start, epoch);
            &&& all.len() > 1
            &&& all[0] is Began
            &&& all[1] is StopRead
            &&& exit == PumpExit::Stopped <==> all.last() == Deed::StopRead(true)
        }),
{
    let all = run_deeds(pump, turns, start, epoch);
    lemma_first_deed(pump, turns, start, epoch);
    assert(all[1] == deeds_of(pump, turns, start, epoch)[0]);
    let last = turns.len() - 1;
    let init = turns.drop_last();
    let t = turns[last];
    assert(turns.take(last) =~= init);
    let log = PumpLog::fresh().after_turns(init);
    let p = pump.after_turns(init);
    let deeds = p.deeds(log, t, start, epoch);
    crate::laws::audio::law_turn_step_by_step(p, log, t, start, epoch);
    assert(p.takes(t));
    assert(all.last() == deeds.last());
    lemma_last_deed(p, log, t, start, epoch);
    lemma_verdict(p, t);
}

proof fn lemma_last_deed(p: Pump, log: PumpLog, t: PumpTurn, start: Instant, epoch: Instant)
    ensures
        p.deeds(log, t, start, epoch).len() > 0,
        p.deeds(log, t, start, epoch).last() == Deed::StopRead(true) <==> t.stop,
{
    let deeds = p.deeds(log, t, start, epoch);
    crate::laws::audio::law_turn_step_by_step(p, log, t, start, epoch);
    if !t.stop && !t.dead {
        assert(!(deeds[deeds.len() - 1] is StopRead));
    }
}

proof fn lemma_verdict(p: Pump, t: PumpTurn)
    requires
        p.takes(t),
    ensures
        p.verdict(t) == Some(PumpExit::Stopped) <==> t.stop,
{
}

proof fn lemma_first_deed(pump: Pump, turns: Seq<PumpTurn>, start: Instant, epoch: Instant)
    requires
        turns.len() > 0,
    ensures
        deeds_of(pump, turns, start, epoch).len() > 0,
        deeds_of(pump, turns, start, epoch)[0] is StopRead,
    decreases turns.len(),
{
    let init = turns.drop_last();
    let log = PumpLog::fresh().after_turns(init);
    crate::laws::audio::law_turn_step_by_step(
        pump.after_turns(init),
        log,
        turns.last(),
        start,
        epoch,
    );
    if init.len() > 0 {
        lemma_first_deed(pump, init, start, epoch);
    } else {
        assert(deeds_of(pump, init, start, epoch).len() == 0);
    }
}

} // verus!
