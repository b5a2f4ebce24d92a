use playfruit::health::{Beat, Health, NO_AUDIO_YET};
use playfruit::mute::{rolled_back_warning, MuteGuard, MuteState, MuteStep};
use playfruit::pump::PumpExit;
use playfruit::status::{cli_report, CliNext};
use playfruit::supervisor::{Event, Next, Reaction, Supervisor};
use playfruit::EngineStatus;

const SECOND: u64 = 1_000_000_000;

fn react(s: &mut Supervisor, e: Event) -> Reaction {
    s.react(e, "Kitchen", "192.0.2.1")
}

#[test]
fn unreachable_device_is_given_up_on_at_the_third_attempt() {
    let mut s = Supervisor::new();
    let r = react(&mut s, Event::Ready { stop: false });
    assert!(matches!(r.status, Some(EngineStatus::Connecting { ref name }) if name == "Kitchen"));
    assert_eq!(r.next, Next::Connect);
    let r = react(&mut s, Event::ConnectFailed("timed out".to_string()));
    assert!(r.status.is_none());
    assert_eq!(r.next, Next::Wait { secs: 1 });
    let r = react(&mut s, Event::Ready { stop: false });
    assert!(matches!(r.status, Some(EngineStatus::Reconnecting { attempt: 2, .. })));
    let r = react(&mut s, Event::ConnectFailed("timed out".to_string()));
    assert_eq!(r.next, Next::Wait { secs: 2 });
    react(&mut s, Event::Ready { stop: false });
    let r = react(&mut s, Event::ConnectFailed("timed out".to_string()));
    assert_eq!(r.next, Next::Finish);
    match r.status {
        Some(EngineStatus::Failed(e)) => {
            assert_eq!(e, "could not connect to 192.0.2.1: timed out")
        }
        other => panic!("{other:?}"),
    }
}

#[test]
fn lost_session_is_reconnected_with_growing_backoff() {
    let mut s = Supervisor::new();
    react(&mut s, Event::Ready { stop: false });
    let r = react(&mut s, Event::Connected);
    assert!(matches!(r.status, Some(EngineStatus::Streaming { .. })));
    assert_eq!(r.next, Next::Stream);
    let r = react(
        &mut s,
        Event::SessionOver { exit: PumpExit::SessionDead, lasted_nanos: 5 * SECOND },
    );
    assert!(r.status.is_none());
    assert_eq!(r.next, Next::Wait { secs: 1 });
    let mut waits = Vec::new();
    for n in 2..9u32 {
        match react(&mut s, Event::Ready { stop: false }).status {
            Some(EngineStatus::Reconnecting { attempt, .. }) => assert_eq!(attempt, n),
            other => panic!("{other:?}"),
        }
        match react(&mut s, Event::ConnectFailed("no".to_string())).next {
            Next::Wait { secs } => waits.push(secs),
            other => panic!("{other:?}"),
        }
    }
    assert_eq!(waits, vec![2, 4, 8, 16, 30, 30, 30]);
    assert_eq!(s.attempt, 8);
}

#[test]
fn healthy_session_starts_the_backoff_over() {
    let mut s = Supervisor { attempt: 9, ever_connected: true, backoff_secs: 30 };
    let r = react(
        &mut s,
        Event::SessionOver { exit: PumpExit::SessionDead, lasted_nanos: 60 * SECOND },
    );
    assert_eq!(r.next, Next::Wait { secs: 30 });
    assert_eq!(s.attempt, 9);
    let r = react(
        &mut s,
        Event::SessionOver { exit: PumpExit::SessionDead, lasted_nanos: 60 * SECOND + 1 },
    );
    assert_eq!(r.next, Next::Wait { secs: 1 });
    assert_eq!((s.attempt, s.backoff_secs), (1, 2));
    let r = react(&mut s, Event::Ready { stop: false });
    assert!(matches!(r.status, Some(EngineStatus::Reconnecting { attempt: 2, .. })));
}

#[test]
fn stop_is_answered_with_stopped() {
    for e in [
        Event::Ready { stop: true },
        Event::Interrupted,
        Event::SessionOver { exit: PumpExit::Stopped, lasted_nanos: 0 },
    ] {
        let mut s = Supervisor::new();
        let r = react(&mut s, e);
        assert!(matches!(r.status, Some(EngineStatus::Stopped)));
        assert_eq!(r.next, Next::Finish);
        assert_eq!(s.attempt, 0);
    }
}

#[test]
fn capture_failures_end_the_engine() {
    let mut s = Supervisor::new();
    let r = react(&mut s, Event::CaptureFailed("no device".to_string()));
    assert!(matches!(r.status, Some(EngineStatus::Failed(ref e)) if e == "audio capture: no device"));
    assert_eq!(r.next, Next::Finish);
    let r = react(
        &mut s,
        Event::SessionOver { exit: PumpExit::CaptureDied, lasted_nanos: 0 },
    );
    assert!(matches!(r.status, Some(EngineStatus::Failed(ref e))
        if e == "audio capture stopped (device removed or driver error)"));
    assert_eq!(r.next, Next::Finish);
}

fn beat(answered: bool, secs: u64, last_audio_ms: u64) -> Beat {
    Beat { answered, timing_requests: Some(7), age_nanos: secs * SECOND, last_audio_ms }
}

#[test]
fn three_unanswered_heartbeats_are_a_dead_session() {
    let mut h = Health::new();
    assert!(!h.tick(beat(false, 2, 1_900), "K").dead);
    assert!(!h.tick(beat(false, 4, 3_900), "K").dead);
    assert!(!h.tick(beat(true, 6, 5_900), "K").dead);
    assert!(!h.tick(beat(false, 8, 7_900), "K").dead);
    assert!(!h.tick(beat(false, 10, 9_900), "K").dead);
    let p = h.tick(beat(false, 12, 11_900), "K");
    assert!(p.dead && p.status.is_none());
}

#[test]
fn silence_and_its_end_are_told_in_turn() {
    let mut h = Health::new();
    // Too early to say.
    assert!(h.tick(beat(true, 5, NO_AUDIO_YET), "K").status.is_none());
    let p = h.tick(beat(true, 6, NO_AUDIO_YET), "K");
    assert!(matches!(p.status, Some(EngineStatus::StreamingSilent { ref name }) if name == "K"));
    assert!(h.tick(beat(true, 8, NO_AUDIO_YET), "K").status.is_none());
    let p = h.tick(beat(true, 10, 9_500), "K");
    assert!(matches!(p.status, Some(EngineStatus::Streaming { .. })));
    assert!(h.tick(beat(true, 12, 9_500), "K").status.is_none());
    // 3 s without audio are too many.
    let p = h.tick(
        Beat { answered: true, timing_requests: None, age_nanos: 12_500_000_000, last_audio_ms: 9_500 },
        "K",
    );
    assert!(matches!(p.status, Some(EngineStatus::StreamingSilent { .. })));
    // Audio that came in after the clock was read is recent too.
    let p = h.tick(beat(true, 14, 14_001), "K");
    assert!(matches!(p.status, Some(EngineStatus::Streaming { .. })));
}

#[test]
fn receiver_that_never_asks_for_the_time_is_warned_of_once() {
    let mut h = Health::new();
    let silent = |secs: u64| Beat {
        answered: true,
        timing_requests: Some(0),
        age_nanos: secs * SECOND,
        last_audio_ms: secs * 1000,
    };
    assert!(h.tick(silent(10), "K").status.is_none());
    let p = h.tick(silent(11), "K");
    match p.status {
        Some(EngineStatus::Warning { name, message }) => {
            assert_eq!(name, "K");
            assert_eq!(
                message,
                "HomePod can't sync its clock — audio will stay silent. \
                 Re-run 'Enable firewall access' in the menu."
            );
        }
        other => panic!("{other:?}"),
    }
    assert!(h.tick(silent(13), "K").status.is_none());
    // No more talk of silence after that.
    assert!(h.tick(beat(true, 30, NO_AUDIO_YET), "K").status.is_none());
}

#[test]
fn uncounted_clock_queries_mean_nothing() {
    let mut h = Health::new();
    let b = Beat {
        answered: true,
        timing_requests: None,
        age_nanos: 20 * SECOND,
        last_audio_ms: 19_999,
    };
    assert!(h.tick(b, "K").status.is_none());
}

#[test]
fn speakers_are_muted_once_audio_flows_and_given_back() {
    let mut g = MuteGuard::new(true);
    assert_eq!(g.tick(2_000, false, NO_AUDIO_YET), MuteStep::Leave);
    assert_eq!(g.tick(4_000, true, 3_900), MuteStep::Mute);
    g.muted(Some(false), 4_000);
    // Audio from before the mute proves nothing.
    assert_eq!(g.tick(6_000, true, 4_500), MuteStep::Leave);
    assert_eq!(g.state, MuteState::Muted { before: false, since_ms: 4_000, proven: false });
    assert_eq!(g.tick(7_000, true, 6_900), MuteStep::Leave);
    assert_eq!(g.state, MuteState::Muted { before: false, since_ms: 4_000, proven: true });
    // A pause of the music later on is no reason to roll back.
    assert_eq!(g.tick(60_000, false, 6_900), MuteStep::Leave);
    assert_eq!(g.release(), Some(false));
    assert_eq!(g.release(), None);
}

#[test]
fn mute_that_silences_the_capture_is_rolled_back() {
    let mut g = MuteGuard::new(true);
    assert_eq!(g.tick(4_000, true, 3_900), MuteStep::Mute);
    g.muted(Some(true), 4_000);
    assert_eq!(g.tick(7_999, false, 4_100), MuteStep::Leave);
    assert_eq!(g.tick(8_000, false, 4_100), MuteStep::RollBack { before: true });
    assert_eq!(g.state, MuteState::GivenUp);
    assert_eq!(g.tick(9_000, true, 8_900), MuteStep::Leave);
    assert_eq!(g.release(), None);
    match rolled_back_warning("K") {
        EngineStatus::Warning { name, message } => {
            assert_eq!(name, "K");
            assert!(message.contains("speakers restored"));
        }
        other => panic!("{other:?}"),
    }
}

#[test]
fn unwanted_or_impossible_mute_leaves_the_speakers_alone() {
    let mut g = MuteGuard::new(false);
    for secs in 0..20u64 {
        assert_eq!(g.tick(secs * 1_000, true, secs * 900), MuteStep::Leave);
        assert_eq!(g.state, MuteState::Open);
    }
    assert_eq!(g.release(), None);
    let mut g = MuteGuard::new(true);
    assert_eq!(g.tick(4_000, true, 3_900), MuteStep::Mute);
    g.muted(None, 4_000);
    assert_eq!(g.tick(6_000, true, 5_900), MuteStep::Leave);
    assert_eq!(g.release(), None);
}

#[test]
fn command_line_tells_every_status() {
    let n = || "Kitchen".to_string();
    let cases = vec![
        (EngineStatus::Connecting { name: n() }, "connecting to Kitchen…", false, CliNext::Continue),
        (
            EngineStatus::Streaming { name: n() },
            "✓ streaming to Kitchen — Ctrl-C to stop",
            false,
            CliNext::Continue,
        ),
        (
            EngineStatus::StreamingSilent { name: n() },
            "· connected to Kitchen — nothing is playing on this PC",
            false,
            CliNext::Continue,
        ),
        (
            EngineStatus::Warning { name: n(), message: "look".to_string() },
            "⚠ Kitchen: look",
            true,
            CliNext::Continue,
        ),
        (
            EngineStatus::Reconnecting { name: n(), attempt: 12 },
            "↻ reconnecting to Kitchen (attempt 12)…",
            false,
            CliNext::Continue,
        ),
        (EngineStatus::Failed("boom".to_string()), "✗ boom", true, CliNext::Fail),
    ];
    for (status, line, is_error, next) in cases {
        let r = cli_report(&status);
        assert_eq!(r.line.as_deref(), Some(line));
        assert_eq!(r.is_error, is_error);
        assert_eq!(r.next, next);
    }
    let r = cli_report(&EngineStatus::Stopped);
    assert!(r.line.is_none() && !r.is_error);
    assert_eq!(r.next, CliNext::Done);
}
