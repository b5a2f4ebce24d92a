use crossbeam_channel::{bounded, Receiver, Sender};
use playfruit::capture::{Glance, Reception};
use playfruit::clock::{age_of, frames_elapsed, present};
use playfruit::pcm::{
    audible, silence_chunk, CapturedFrame, LivePcmFrame, PRECHARGE_CHUNKS, SILENCE_FRAMES,
};
use playfruit::pump::{
    pump_loop, regulate, Pump, PumpAction, PumpExit, PumpLog, PumpNote, PumpStats,
    SEND_FAILURE_LIMIT,
};
use playfruit::rig::Rig;
use playfruit::session::{begin_session, discard_stale};
use std::cell::{Cell, RefCell};
use std::time::{Duration, Instant};

const SECOND: u64 = 1_000_000_000;

fn test_channel() -> (Sender<CapturedFrame>, Receiver<CapturedFrame>) {
    bounded(64)
}

fn chunk(samples: Vec<i16>) -> CapturedFrame {
    CapturedFrame { samples, channels: 2, sample_rate: 44_100 }
}

/// A stop flag that goes up ends the pump promptly, even with a silent capture.
#[test]
fn pump_stop_is_prompt() {
    let (_tx, rx) = test_channel();
    let (sender, _decoder) = bounded::<LivePcmFrame>(64);
    let started = Instant::now();
    let exit = pump_loop(
        &mut Rig::new(
            rx.clone(),
            || started.elapsed() >= Duration::from_millis(100),
            || false,
            |f| sender.try_send(f).is_ok(),
            |_ms| {},
            |_note| {},
        ),
        44_100,
        2,
        &Instant::now(),
    );
    assert!(matches!(exit, PumpExit::Stopped));
    assert!(
        started.elapsed() < Duration::from_millis(500),
        "pump took {:?} to stop",
        started.elapsed()
    );
}

/// A sender that takes nothing any more is a dead session.
#[test]
fn pump_detects_unresponsive_sender() {
    let (_tx, rx) = test_channel();
    // A tiny queue that nobody empties: it fails for good once it is full.
    let (sender, _decoder) = bounded::<LivePcmFrame>(1);
    let started = Instant::now();
    let exit = pump_loop(
        &mut Rig::new(
            rx.clone(),
            || false,
            || false,
            |f| sender.try_send(f).is_ok(),
            |_ms| {},
            |_note| {},
        ),
        44_100,
        2,
        &Instant::now(),
    );
    assert!(matches!(exit, PumpExit::SessionDead));
    assert!(
        started.elapsed() < Duration::from_secs(30),
        "dead-sender detection took {:?}",
        started.elapsed()
    );
}

/// A capture channel without a sender ends the pump.
#[test]
fn pump_reports_capture_death() {
    let (tx, rx) = test_channel();
    drop(tx);
    let exit = pump_loop(
        &mut Rig::new(
            rx.clone(),
            || false,
            || false,
            |_f| true,
            |_ms| {},
            |_note| {},
        ),
        44_100,
        2,
        &Instant::now(),
    );
    assert!(matches!(exit, PumpExit::CaptureDied));
}

#[test]
fn pump_sees_stop_before_dead_and_dead_before_capture() {
    let (tx, rx) = test_channel();
    drop(tx);
    let exit = pump_loop(
        &mut Rig::new(
            rx.clone(),
            || true,
            || true,
            |_f| true,
            |_ms| {},
            |_note| {},
        ),
        44_100,
        2,
        &Instant::now(),
    );
    assert_eq!(exit, PumpExit::Stopped);
    let exit = pump_loop(
        &mut Rig::new(
            rx.clone(),
            || false,
            || true,
            |_f| true,
            |_ms| {},
            |_note| {},
        ),
        44_100,
        2,
        &Instant::now(),
    );
    assert_eq!(exit, PumpExit::SessionDead);
}

#[test]
fn pump_forwards_captured_audio_and_tells_when_it_is_real() {
    let (tx, rx) = test_channel();
    tx.send(chunk(vec![0, 0, 0, 0])).unwrap();
    tx.send(chunk(vec![1, 2, 3, 4])).unwrap();
    drop(tx);
    let got: RefCell<Vec<Vec<i16>>> = RefCell::new(Vec::new());
    let heard = Cell::new(0u32);
    let exit = pump_loop(
        &mut Rig::new(
            rx.clone(),
            || false,
            || false,
            |f: LivePcmFrame| {
                assert_eq!((f.channels, f.sample_rate), (2, 44_100));
                got.borrow_mut().push(f.samples);
                true
            },
            |_ms| heard.set(heard.get() + 1),
            |_note| {},
        ),
        44_100,
        2,
        &Instant::now(),
    );
    assert_eq!(exit, PumpExit::CaptureDied);
    assert_eq!(got.into_inner(), vec![vec![0, 0, 0, 0], vec![1, 2, 3, 4]]);
    assert_eq!(heard.get(), 1);
}

#[test]
fn timeout_within_the_deadband_sends_nothing() {
    let pump = Pump::new(44_100, 2);
    // 30 ms are 1323 frames.
    assert!(matches!(pump.answer(Reception::Timeout, 30_000_000, 30_000_000), PumpAction::Idle));
    match pump.answer(Reception::Timeout, 30_023_000, 30_023_000) {
        PumpAction::Send { frame, frames, .. } => {
            // 1324 frames of silence, and two more since the stream is behind.
            assert_eq!(frame.samples, vec![0i16; 1326 * 2]);
            assert_eq!(frames, 1326);
        }
        other => panic!("{other:?}"),
    }
}

#[test]
fn keepalive_is_capped_at_200_ms() {
    let pump = Pump::new(44_100, 2);
    match pump.answer(Reception::Timeout, 10 * SECOND, 10 * SECOND) {
        PumpAction::Send { frame, frames, .. } => {
            assert_eq!(frame.samples.len(), (8820 + 2) * 2);
            assert_eq!(frames, 8822);
        }
        other => panic!("{other:?}"),
    }
}

#[test]
fn captured_frames_are_shed_when_the_stream_is_ahead() {
    let mut pump = Pump::new(44_100, 2);
    assert_eq!(pump.sent(44_100, true), None);
    match pump.answer(Reception::Frame(chunk(vec![1, 2, 3, 4, 5, 6, 7, 8])), 0, 0) {
        PumpAction::Send { frame, frames, .. } => {
            assert_eq!(frame.samples, vec![1, 2, 3, 4]);
            assert_eq!(frames, 2);
        }
        other => panic!("{other:?}"),
    }
}

#[test]
fn disconnected_capture_is_answered_with_its_death() {
    let pump = Pump::new(44_100, 2);
    assert!(matches!(
        pump.answer(Reception::Disconnected, 0, 0),
        PumpAction::Exit(PumpExit::CaptureDied)
    ));
}

#[test]
fn regulation_sheds_duplicates_or_leaves_alone() {
    // Inside the deadband.
    assert_eq!(regulate(vec![1, 2, 3, 4], 2, 5, 5), vec![1, 2, 3, 4]);
    assert_eq!(regulate(vec![1, 2, 3, 4], 2, -5, 5), vec![1, 2, 3, 4]);
    // Ahead: two frames go, but never the last one.
    assert_eq!(regulate(vec![1, 2, 3, 4, 5, 6], 2, 6, 5), vec![1, 2]);
    assert_eq!(regulate(vec![1, 2, 3, 4], 2, 6, 5), vec![1, 2]);
    assert_eq!(regulate(vec![1, 2], 2, 6, 5), vec![1, 2]);
    assert_eq!(regulate(vec![1, 2, 3, 4, 5], 1, 6, 5), vec![1, 2, 3]);
    // Behind: the last frame is played twice more.
    assert_eq!(regulate(vec![1, 2, 3, 4], 2, -6, 5), vec![1, 2, 3, 4, 3, 4, 3, 4]);
    assert_eq!(regulate(vec![], 2, -6, 5), Vec::<i16>::new());
}

#[test]
fn sends_are_booked() {
    let mut pump = Pump::new(44_100, 2);
    assert_eq!(pump.sent(882, true), None);
    assert_eq!(pump.pushed_frames, 882);
    for _ in 0..SEND_FAILURE_LIMIT - 1 {
        assert_eq!(pump.sent(882, false), None);
    }
    // One success starts the count over, and dropped frames are not counted.
    assert_eq!(pump.sent(1, true), None);
    assert_eq!((pump.pushed_frames, pump.send_failures), (883, 0));
    for _ in 0..SEND_FAILURE_LIMIT - 1 {
        assert_eq!(pump.sent(882, false), None);
    }
    assert_eq!(pump.sent(882, false), Some(PumpExit::SessionDead));
    assert_eq!(SEND_FAILURE_LIMIT, 250);
}

#[test]
fn frames_follow_the_clock() {
    assert_eq!(frames_elapsed(SECOND, 44_100), 44_100);
    assert_eq!(frames_elapsed(20_000_000, 44_100), 882);
    assert_eq!(frames_elapsed(22_675, 44_100), 0);
    assert_eq!(frames_elapsed(22_676, 44_100), 1);
    assert_eq!(frames_elapsed(0, 44_100), 0);
}

/// The integer deadband is the one that 30 ms of floating-point seconds give.
#[test]
fn deadband_agrees_with_floating_point() {
    for rate in [0u32, 1, 33, 34, 8_000, 11_025, 22_050, 44_100, 48_000, 96_000, 192_000, u32::MAX] {
        assert_eq!((rate as f64 * 0.030) as u64, rate as u64 * 3 / 100);
    }
}

/// A session begins with the standing fill, and nothing from before it is sent.
#[test]
fn session_begins_with_silence_and_without_stale_audio() {
    let (tx, rx) = test_channel();
    for _ in 0..3 {
        tx.send(chunk(vec![7, 7])).unwrap();
    }
    let got: RefCell<Vec<LivePcmFrame>> = RefCell::new(Vec::new());
    let mut rig = Rig::new(
        rx,
        || false,
        || false,
        |f| {
            got.borrow_mut().push(f);
            true
        },
        |_ms| {},
        |_note| {},
    );
    assert_eq!(begin_session(&mut rig, 2, 44_100), 3);
    tx.send(chunk(vec![1, 2])).unwrap();
    tx.send(chunk(vec![3, 4])).unwrap();
    drop(tx);
    let exit = pump_loop(&mut rig, 44_100, 2, &Instant::now());
    assert_eq!(exit, PumpExit::CaptureDied);
    let got = got.borrow();
    assert_eq!(got.len(), 15 + 2);
    for c in &got[..15] {
        assert_eq!(c.samples, vec![0i16; 882 * 2]);
        assert_eq!((c.channels, c.sample_rate), (2, 44_100));
    }
    assert_eq!(got[15].samples, vec![1, 2]);
    assert_eq!(got[16].samples, vec![3, 4]);
    assert_eq!(PRECHARGE_CHUNKS * SILENCE_FRAMES * 1000, 300 * 44_100);
    assert_eq!(silence_chunk(1, 8_000).samples.len(), 882);
}

/// Real audio is told of with the session's age, even if the sender refuses it.
#[test]
fn heard_is_the_age_of_the_session() {
    let (tx, rx) = test_channel();
    tx.send(chunk(vec![0, 0])).unwrap();
    tx.send(chunk(vec![1, 0])).unwrap();
    tx.send(chunk(vec![0, 0])).unwrap();
    drop(tx);
    let epoch = Instant::now() - Duration::from_millis(2_000);
    let told: RefCell<Vec<u64>> = RefCell::new(Vec::new());
    let exit = pump_loop(
        &mut Rig::new(
            rx,
            || false,
            || false,
            |_f| false,
            |ms| told.borrow_mut().push(ms),
            |_note| {},
        ),
        44_100,
        2,
        &epoch,
    );
    assert_eq!(exit, PumpExit::CaptureDied);
    let told = told.into_inner();
    assert_eq!(told.len(), 1);
    assert!(told[0] >= 2_000 && told[0] < 10_000, "{told:?}");
}

/// The pump runs on a thread of its own.
#[test]
fn rig_can_change_threads() {
    fn sendable<T: Send>(_: &T) {}
    let (_tx, rx) = test_channel();
    let (sender, _decoder) = bounded::<LivePcmFrame>(1);
    let send = move |f: LivePcmFrame| sender.try_send(f).is_ok();
    sendable(&Rig::new(rx, || false, || false, send, |_ms| {}, |_note| {}));
}

/// Both flags are read in every turn, the stop flag first.
#[test]
fn flags_are_read_in_every_turn() {
    let (tx, rx) = test_channel();
    for _ in 0..3 {
        tx.send(chunk(vec![1, 1])).unwrap();
    }
    let read: RefCell<Vec<char>> = RefCell::new(Vec::new());
    let exit = pump_loop(
        &mut Rig::new(
            rx,
            || {
                read.borrow_mut().push('s');
                read.borrow().len() > 9
            },
            || {
                read.borrow_mut().push('d');
                false
            },
            |_f| {
                read.borrow_mut().push('f');
                true
            },
            |_ms| {},
            |_note| {},
        ),
        44_100,
        2,
        &Instant::now(),
    );
    assert_eq!(exit, PumpExit::Stopped);
    assert_eq!(read.into_inner().iter().collect::<String>(), "sdfsdfsdfs");
}

/// A dead flag that goes up while the pump runs ends the session.
#[test]
fn dead_flag_is_seen_while_the_pump_runs() {
    let (_tx, rx) = test_channel();
    let started = Instant::now();
    let exit = pump_loop(
        &mut Rig::new(
            rx,
            || false,
            || started.elapsed() >= Duration::from_millis(100),
            |_f| true,
            |_ms| {},
            |_note| {},
        ),
        44_100,
        2,
        &started,
    );
    assert_eq!(exit, PumpExit::SessionDead);
    assert!(started.elapsed() < Duration::from_millis(500));
}

/// A silent capture is filled up to the wall clock, turn by turn.
#[test]
fn keepalive_follows_the_clock() {
    let (_tx, rx) = test_channel();
    let started = Instant::now();
    let frames = Cell::new(0usize);
    pump_loop(
        &mut Rig::new(
            rx,
            || started.elapsed() >= Duration::from_millis(600),
            || false,
            |f| {
                frames.set(frames.get() + f.samples.len() / 2);
                true
            },
            |_ms| {},
            |_note| {},
        ),
        44_100,
        2,
        &started,
    );
    let late = started.elapsed().as_millis() as usize;
    let ms = frames.get() * 1_000 / 44_100;
    assert!(ms >= 400 && ms <= late + 1, "{ms} of {late} ms");
}

#[test]
fn clock_readings_grow() {
    let start = present();
    assert!(age_of(&start) < 10 * SECOND);
    let (_tx, rx) = test_channel();
    assert!(rx.recv_timeout(Duration::from_millis(20)).is_err());
    assert!(age_of(&start) >= 20_000_000);
}

/// A silent capture and a sender that takes nothing are both worth a line.
#[test]
fn pump_notes_keepalive_refusals_and_the_end() {
    let (_tx, rx) = test_channel();
    let noted: RefCell<Vec<PumpNote>> = RefCell::new(Vec::new());
    let exit = pump_loop(
        &mut Rig::new(
            rx,
            || false,
            || false,
            |_f| false,
            |_ms| {},
            |n| noted.borrow_mut().push(n),
        ),
        44_100,
        2,
        &Instant::now(),
    );
    assert_eq!(exit, PumpExit::SessionDead);
    assert_eq!(
        noted.into_inner(),
        vec![
            PumpNote::KeepaliveEngaged,
            PumpNote::QueueFull { total: 1 },
            PumpNote::SenderUnresponsive,
        ]
    );
}

#[test]
fn sends_are_counted_for_the_log() {
    let mut log = PumpLog::new();
    assert_eq!(log.engages(false), None);
    assert_eq!(log.engages(true), Some(PumpNote::KeepaliveEngaged));
    assert_eq!(log.book(2, 0, 0, true, SECOND), (None, None));
    assert_eq!(log.book(0, 2, 8_820, true, 2 * SECOND), (None, None));
    assert_eq!(log.engages(true), None);
    let stats = PumpStats { shed: 2, repeated: 2, keepalive: 8_820, refused: 0 };
    assert_eq!(log.stats, stats);
    // The report is due after more than ten minutes, and then again.
    assert_eq!(log.book(0, 0, 0, true, 600 * SECOND), (None, None));
    assert_eq!(
        log.book(0, 0, 0, true, 660 * SECOND),
        (None, Some(PumpNote::Report { stats, minutes: 11 }))
    );
    assert_eq!(log.book(0, 0, 0, true, 1_260 * SECOND), (None, None));
    assert!(log.book(0, 0, 0, true, 1_260 * SECOND + 1).1.is_some());
    // Of the refusals, the first is told of, and one in 250 after it.
    for n in 1..=501u64 {
        let (note, _) = log.book(0, 0, 0, false, 1_261 * SECOND);
        let expected = if n == 1 || n == 251 || n == 501 {
            Some(PumpNote::QueueFull { total: n })
        } else {
            None
        };
        assert_eq!(note, expected);
    }
    // The numbers stop at the greatest there is.
    log.book(u64::MAX, 0, 0, true, 1_261 * SECOND);
    assert_eq!(log.stats.shed, u64::MAX);
}

#[test]
fn regulation_and_keepalive_are_counted_in_the_answer() {
    let mut pump = Pump::new(44_100, 2);
    match pump.answer(Reception::Timeout, 30_023_000, 30_023_000) {
        PumpAction::Send { shed, repeated, injected, .. } => {
            assert_eq!((shed, repeated, injected), (0, 2, 1324));
        }
        other => panic!("{other:?}"),
    }
    assert_eq!(pump.sent(44_100, true), None);
    match pump.answer(Reception::Frame(chunk(vec![1, 2, 3, 4])), 0, 0) {
        PumpAction::Send { shed, repeated, injected, .. } => {
            assert_eq!((shed, repeated, injected), (1, 0, 0));
        }
        other => panic!("{other:?}"),
    }
}

#[test]
fn digital_silence_is_not_audible() {
    assert!(!audible(&vec![]));
    assert!(!audible(&vec![0, 0, 0]));
    assert!(audible(&vec![0, 0, -1]));
}

#[test]
fn stale_chunks_are_discarded() {
    let (tx, rx) = test_channel();
    for _ in 0..3 {
        tx.send(chunk(vec![1, 1])).unwrap();
    }
    let mut rig = Rig::new(rx, || false, || false, |_f| true, |_ms| {}, |_note| {});
    let (n, end) = discard_stale(&mut rig);
    assert_eq!(n, 3);
    assert!(matches!(end, Glance::Empty));
    drop(tx);
    let (n, end) = discard_stale(&mut rig);
    assert_eq!(n, 0);
    assert!(matches!(end, Glance::Disconnected));
}
