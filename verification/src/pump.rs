//! The pump: forwards captured PCM to the sender, fills true capture silence,
//! and holds the pushed-frame rate to the wall clock.

use crate::capture::Reception;
use crate::clock::{frames_elapsed, NANOS_PER_MILLI, NANOS_PER_SEC};
use crate::numbers::{add_capped, capped_sum};
use crate::pcm::{audible, is_audible, silent_samples, LivePcmFrame};
use crate::rig::{Deed, Rig};
use std::time::Instant;
use vstd::prelude::*;

verus! {

/// Sends that may fail in a row (about 5 s of them) before the sender counts as
/// gone.
pub const SEND_FAILURE_LIMIT: u32 = 250;

/// How long one turn of the pump waits for the capture, in milliseconds.
pub const RECEIVE_WAIT_MS: u64 = 20;

/// Of the chunks that the sender refuses, one in so many is told of.
pub const REFUSAL_NOTE_EVERY: u64 = 250;

/// How long after a report the next one is due, in seconds.
pub const REPORT_SECS: u64 = 600;

/// Why the pump stopped.
#[derive(Debug, Clone, Copy, PartialEq, Eq, Structural)]
pub enum PumpExit {
    Stopped,
    SessionDead,
    CaptureDied,
}

/// What to do next.
#[derive(Debug)]
pub enum PumpAction {
    /// Leave the pump.
    Exit(PumpExit),
    /// Nothing to send this turn.
    Idle,
    /// Hand the chunk to the sender and report the outcome with [`Pump::sent`].
    /// Drift regulation has taken `shed` frames from it or repeated one
    /// `repeated` times; `injected` frames of it are keepalive.
    Send { frame: LivePcmFrame, frames: u64, shed: u64, repeated: u64, injected: u64 },
}

/// What one turn of the pump met and did: the record that contracts speak of.
/// The fields that a turn did not get as far as hold anything. Ages are in
/// nanoseconds.
#[derive(Debug)]
pub struct PumpTurn {
    /// The stop flag.
    pub stop: bool,
    /// The dead flag.
    pub dead: bool,
    /// What the capture channel gave.
    pub reception: Reception,
    /// The session's age when real audio came in.
    pub heard_at: u64,
    /// The pump's age when the wait ended.
    pub at_receive: u64,
    /// The pump's age when the chunk was made.
    pub at_send: u64,
    /// The answer to the reception.
    pub action: PumpAction,
    /// Whether the sender took the chunk.
    pub sent: bool,
    /// The pump's age when the turn was over.
    pub at_end: u64,
}

/// What the pump has done so far, in numbers. They stop at `u64::MAX`.
#[derive(Debug, Clone, Copy, PartialEq, Eq, Structural)]
pub struct PumpStats {
    /// Frames that drift regulation shed.
    pub shed: u64,
    /// Frames that drift regulation added.
    pub repeated: u64,
    /// Frames of keepalive.
    pub keepalive: u64,
    /// Chunks that the sender refused.
    pub refused: u64,
}

/// What is worth a line in the log.
#[derive(Debug, Clone, Copy, PartialEq, Eq, Structural)]
pub enum PumpNote {
    /// The capture is silent, and the first keepalive goes out.
    KeepaliveEngaged,
    /// The sender's queue is full; so many chunks were dropped by now.
    QueueFull { total: u64 },
    /// The sender has refused too often in a row: the session counts as dead.
    SenderUnresponsive,
    /// The numbers, every ten minutes.
    Report { stats: PumpStats, minutes: u64 },
}

/// The numbers, and when they were last reported.
#[derive(Debug, Clone, Copy, PartialEq, Eq, Structural)]
pub struct PumpLog {
    pub stats: PumpStats,
    /// The pump's age at the last report, in nanoseconds.
    pub reported_at: u64,
}

/// The accounts of one session.
#[derive(Debug)]
pub struct Pump {
    pub sample_rate: u32,
    pub channels: u8,
    /// Frames that entered the sender's queue.
    pub pushed_frames: u64,
    /// Sends that failed since the last one that went through.
    pub send_failures: u32,
}

/// Skew that is left alone: 30 ms of frames.
pub open spec fn deadband(rate: int) -> int {
    rate * 3 / 100
}

/// The most silence that one turn injects: 200 ms of frames.
pub open spec fn keepalive_cap(rate: int) -> int {
    rate / 5
}

/// Frames to inject when the stream is `deficit` frames behind.
pub open spec fn keepalive_frames(deficit: int, rate: int) -> int {
    if deficit < keepalive_cap(rate) {
        deficit
    } else {
        keepalive_cap(rate)
    }
}

/// Frames to shed from a chunk of `frames` frames: two, but never the last one.
pub open spec fn shed_frames(frames: int) -> int {
    if frames - 1 < 2 {
        frames - 1
    } else {
        2
    }
}

/// Frames that drift regulation sheds from a chunk of `len` samples.
pub open spec fn shed_count(len: int, ch: int, balance: int, band: int) -> int {
    if balance > band && len >= 2 * ch {
        shed_frames(len / ch)
    } else {
        0
    }
}

/// Frames that drift regulation adds to a chunk of `len` samples.
pub open spec fn repeated_count(len: int, ch: int, balance: int, band: int) -> int {
    if balance < -band && len >= ch {
        2
    } else {
        0
    }
}

/// A chunk after drift regulation. `balance` is how many frames the stream is
/// ahead of the wall clock.
pub open spec fn regulated(samples: Seq<i16>, ch: int, balance: int, band: int) -> Seq<i16> {
    let len = samples.len() as int;
    if balance > band && len >= 2 * ch {
        samples.take(len - shed_frames(len / ch) * ch)
    } else if balance < -band && len >= ch {
        let last = samples.skip(len - ch);
        samples + last + last
    } else {
        samples
    }
}

/// Frames that drift regulation sheds from a chunk of `len` samples.
fn shed_of(len: usize, ch: usize, balance: i128, band: i128) -> (r: usize)
    requires
        0 < ch <= u8::MAX,
        0 <= band <= u32::MAX,
    ensures
        r == shed_count(len as int, ch as int, balance as int, band as int),
        r <= 2,
        r > 0 ==> r * ch < len,
{
    if balance > band && len >= 2 * ch {
        let frames: usize = len / ch;
        proof {
            assert(frames >= 2 && frames * ch <= len) by (nonlinear_arith)
                requires
                    frames == len as int / ch as int,
                    len >= 2 * ch,
                    ch > 0,
            ;
        }
        let shed: usize = if frames - 1 < 2 {
            frames - 1
        } else {
            2
        };
        proof {
            assert(shed * ch < frames * ch) by (nonlinear_arith)
                requires
                    shed < frames,
                    ch > 0,
            ;
        }
        shed
    } else {
        0
    }
}

/// Drift regulation: sheds or duplicates at most two frames of a chunk when the
/// stream has left the deadband.
pub fn regulate(samples: Vec<i16>, ch: usize, balance: i128, band: i128) -> (r: Vec<i16>)
    requires
        0 < ch <= u8::MAX,
        0 <= band <= u32::MAX,
    ensures
        r@ == regulated(samples@, ch as int, balance as int, band as int),
{
    let mut out: Vec<i16> = samples;
    let len: usize = out.len();
    if balance > band && len >= 2 * ch {
        let shed: usize = shed_of(len, ch, balance, band);
        proof {
            assert(0 <= shed * ch <= 2 * ch) by (nonlinear_arith)
                requires
                    0 <= shed <= 2,
                    ch > 0,
            ;
        }
        out.truncate(len - shed * ch);
        out
    } else if balance < -band && len >= ch {
        let ghost last = samples@.skip(len - ch);
        let mut pass: usize = 0;
        while pass < 2
            invariant
                0 < ch <= len,
                len == samples@.len(),
                pass <= 2,
                last == samples@.skip(len - ch),
                out@ == (if pass == 0 {
                    samples@
                } else if pass == 1 {
                    samples@ + last
                } else {
                    samples@ + last + last
                }),
            decreases 2 - pass,
        {
            let ghost before = out@;
            let mut i: usize = 0;
            while i < ch
                invariant
                    0 < ch <= len,
                    len == samples@.len(),
                    i <= ch,
                    last == samples@.skip(len - ch),
                    before.len() >= len,
                    before.take(len as int) == samples@,
                    out@ == before + last.take(i as int),
                decreases ch - i,
            {
                let s: i16 = out[len - ch + i];
                proof {
                    assert(out@[len - ch + i] == before[len - ch + i]);
                    assert(before.take(len as int)[len - ch + i] == samples@[len - ch + i]);
                    assert(last.take(i + 1) =~= last.take(i as int).push(s));
                }
                out.push(s);
                i = i + 1;
                assert(out@ =~= before + last.take(i as int));
            }
            assert(last.take(ch as int) =~= last);
            pass = pass + 1;
        }
        out
    } else {
        out
    }
}

impl Pump {
    /// The accounts are consistent: the failure run is short of the limit, and
    /// the largest keepalive chunk has a length.
    pub open spec fn wf(self) -> bool {
        &&& self.channels > 0
        &&& self.send_failures < SEND_FAILURE_LIMIT
        &&& keepalive_cap(self.sample_rate as int) * self.channels <= usize::MAX
    }

    /// The sender has failed too often in a row.
    pub open spec fn is_dead(self) -> bool {
        self.send_failures >= SEND_FAILURE_LIMIT
    }

    /// The accounts after a chunk of `frames` frames was sent (`ok`) or dropped.
    pub open spec fn booked(self, frames: int, ok: bool) -> Pump {
        if ok {
            Pump {
                pushed_frames: (self.pushed_frames + frames) as u64,
                send_failures: 0,
                ..self
            }
        } else {
            Pump { send_failures: (self.send_failures + 1) as u32, ..self }
        }
    }

    /// The accounts after a series of sends, each with its frames and outcome.
    pub open spec fn after_sends(self, sends: Seq<(int, bool)>) -> Pump
        decreases sends.len(),
    {
        if sends.len() == 0 {
            self
        } else {
            let (frames, ok) = sends.last();
            self.after_sends(sends.drop_last()).booked(frames, ok)
        }
    }

    /// How many frames the stream is behind the wall clock after `nanos`.
    pub open spec fn deficit_at(self, nanos: int) -> int {
        crate::clock::frames_in(nanos, self.sample_rate as int) - self.pushed_frames
    }

    /// The chunk that `samples` becomes when it is sent `at_send` nanoseconds
    /// into the session.
    pub open spec fn outgoing(self, samples: Seq<i16>, at_send: int) -> Seq<i16> {
        regulated(
            samples,
            self.channels as int,
            -self.deficit_at(at_send),
            deadband(self.sample_rate as int),
        )
    }

    /// `action` sends `samples`, regulated, and counts its frames, of which
    /// `quiet` are keepalive.
    pub open spec fn sends(
        self,
        action: PumpAction,
        samples: Seq<i16>,
        quiet: int,
        at_send: int,
    ) -> bool {
        let len = samples.len() as int;
        let ch = self.channels as int;
        let balance = -self.deficit_at(at_send);
        let band = deadband(self.sample_rate as int);
        &&& action matches PumpAction::Send { frame, frames, shed, repeated, injected }
        &&& frame.samples@ == self.outgoing(samples, at_send)
        &&& frame.channels == self.channels
        &&& frame.sample_rate == self.sample_rate
        &&& frames == self.outgoing(samples, at_send).len() as int / ch
        &&& shed == shed_count(len, ch, balance, band)
        &&& repeated == repeated_count(len, ch, balance, band)
        &&& injected == quiet
    }

    /// `action` is the answer to `reception`. `at_receive` and `at_send` are the
    /// clock when the wait ended and when the chunk is made.
    ///
    /// A wait that timed out means nothing by itself on a desktop system.
    /// Silence is injected only when the stream is behind the wall clock by
    /// more than the deadband, and then as much as is missing.
    pub open spec fn answers(
        self,
        reception: Reception,
        at_receive: int,
        at_send: int,
        action: PumpAction,
    ) -> bool {
        match reception {
            Reception::Disconnected => action == PumpAction::Exit(PumpExit::CaptureDied),
            Reception::Frame(f) => self.sends(action, f.samples@, 0, at_send),
            Reception::Timeout => {
                let deficit = self.deficit_at(at_receive);
                if deficit <= deadband(self.sample_rate as int) {
                    action == PumpAction::Idle
                } else {
                    let quiet = keepalive_frames(deficit, self.sample_rate as int);
                    self.sends(
                        action,
                        crate::pcm::silence((quiet * self.channels) as nat),
                        quiet,
                        at_send,
                    )
                }
            },
        }
    }

    /// The accounts of a session that has sent nothing yet.
    pub open spec fn fresh(sample_rate: u32, channels: u8) -> Pump {
        Pump { sample_rate, channels, pushed_frames: 0, send_failures: 0 }
    }

    /// Why the turn ends the pump, if it does. The stop flag comes first, the
    /// dead flag next; then it is for the capture and the sender to say. A pump
    /// whose frame count cannot grow any further ends as a dead session.
    pub open spec fn verdict(self, t: PumpTurn) -> Option<PumpExit> {
        if t.stop {
            Some(PumpExit::Stopped)
        } else if t.dead {
            Some(PumpExit::SessionDead)
        } else {
            match t.action {
                PumpAction::Exit(e) => Some(e),
                PumpAction::Idle => None,
                PumpAction::Send { frame, frames, .. } => {
                    if t.sent && self.pushed_frames + frames > u64::MAX {
                        Some(PumpExit::SessionDead)
                    } else if self.booked(frames as int, t.sent).is_dead() {
                        Some(PumpExit::SessionDead)
                    } else {
                        None
                    }
                },
            }
        }
    }

    /// The accounts after a turn that did not end the pump.
    pub open spec fn after_turn(self, t: PumpTurn) -> Pump {
        match t.action {
            PumpAction::Send { frame, frames, .. } => self.booked(frames as int, t.sent),
            _ => self,
        }
    }

    /// The accounts after a series of turns, none of which ended the pump.
    pub open spec fn after_turns(self, turns: Seq<PumpTurn>) -> Pump
        decreases turns.len(),
    {
        if turns.len() == 0 {
            self
        } else {
            self.after_turns(turns.drop_last()).after_turn(turns.last())
        }
    }

    /// The turn is one that the pump takes: its action is the answer to what it
    /// received. A raised flag leaves that out.
    pub open spec fn takes(self, t: PumpTurn) -> bool {
        t.is_live() ==> self.answers(t.reception, t.at_receive as int, t.at_send as int, t.action)
    }

    /// What the turn does with its action, where that is a send: it notes the
    /// first keepalive, hands the chunk over, and, unless that was the end,
    /// looks at the clock once more and notes what is worth it.
    pub open spec fn sending_deeds(self, log: PumpLog, t: PumpTurn, start: Instant) -> Seq<Deed> {
        match t.action {
            PumpAction::Send { frame, frames, shed, repeated, injected } => {
                let stats = log.counted(shed, repeated, injected, t.sent);
                written(log.keepalive_note(t.reception is Timeout)) + seq![
                    Deed::Sent { frame, taken: t.sent },
                ] + if self.verdict(t) is None {
                    seq![Deed::Aged { since: start, nanos: t.at_end }] + written(
                        PumpLog::refusal_note(t.sent, stats.refused),
                    ) + written(log.report_note(stats, t.at_end))
                } else if !t.sent {
                    written(Some(PumpNote::SenderUnresponsive))
                } else {
                    Seq::empty()
                }
            },
            _ => Seq::empty(),
        }
    }

    /// What a turn with no flag up does after reading the flags: it waits for
    /// the capture, tells of real audio, looks at the clock, and sends.
    pub open spec fn live_deeds(
        self,
        log: PumpLog,
        t: PumpTurn,
        start: Instant,
        epoch: Instant,
    ) -> Seq<Deed> {
        seq![Deed::Waited { wait_ms: RECEIVE_WAIT_MS, reception: t.reception }] + t.listening_deeds(
            epoch,
        ) + seq![
            Deed::Aged { since: start, nanos: t.at_receive },
            Deed::Aged { since: start, nanos: t.at_send },
        ] + self.sending_deeds(log, t, start)
    }

    /// What a turn does, in order: it reads the stop flag, then the dead flag,
    /// then goes on, each only as long as no flag is up.
    pub open spec fn deeds(
        self,
        log: PumpLog,
        t: PumpTurn,
        start: Instant,
        epoch: Instant,
    ) -> Seq<Deed> {
        seq![Deed::StopRead(t.stop)] + if t.stop {
            Seq::empty()
        } else {
            seq![Deed::DeadRead(t.dead)] + if t.dead {
                Seq::empty()
            } else {
                self.live_deeds(log, t, start, epoch)
            }
        }
    }

    /// The accounts of a session that has sent nothing yet.
    pub fn new(sample_rate: u32, channels: u8) -> (r: Pump)
        requires
            channels > 0,
            keepalive_cap(sample_rate as int) * channels <= usize::MAX,
        ensures
            r.wf(),
            r == Pump::fresh(sample_rate, channels),
    {
        Pump { sample_rate, channels, pushed_frames: 0, send_failures: 0 }
    }

    fn outgoing_chunk(&self, samples: Vec<i16>, quiet: u64, at_send: u64) -> (r: PumpAction)
        requires
            self.wf(),
        ensures
            self.sends(r, samples@, quiet as int, at_send as int),
    {
        let ch: usize = self.channels as usize;
        let band: i128 = (self.sample_rate as u64 * 3 / 100) as i128;
        let elapsed: u128 = frames_elapsed(at_send, self.sample_rate);
        let balance: i128 = self.pushed_frames as i128 - elapsed as i128;
        let shed: u64 = shed_of(samples.len(), ch, balance, band) as u64;
        let repeated: u64 = if balance < -band && samples.len() >= ch {
            2
        } else {
            0
        };
        let samples: Vec<i16> = regulate(samples, ch, balance, band);
        let frames: u64 = (samples.len() / ch) as u64;
        PumpAction::Send {
            frame: LivePcmFrame {
                samples,
                channels: self.channels,
                sample_rate: self.sample_rate,
            },
            frames,
            shed,
            repeated,
            injected: quiet,
        }
    }

    /// The answer to what the capture channel gave.
    pub fn answer(&self, reception: Reception, at_receive: u64, at_send: u64) -> (r: PumpAction)
        requires
            self.wf(),
        ensures
            self.answers(reception, at_receive as int, at_send as int, r),
    {
        match reception {
            Reception::Frame(frame) => self.outgoing_chunk(frame.samples, 0, at_send),
            Reception::Timeout => {
                let band: i128 = (self.sample_rate as u64 * 3 / 100) as i128;
                let elapsed: u128 = frames_elapsed(at_receive, self.sample_rate);
                let deficit: i128 = elapsed as i128 - self.pushed_frames as i128;
                if deficit <= band {
                    return PumpAction::Idle;
                }
                let cap: u32 = self.sample_rate / 5;
                let inject: usize = if deficit < cap as i128 {
                    deficit as usize
                } else {
                    cap as usize
                };
                proof {
                    assert(inject * self.channels <= cap * self.channels) by (nonlinear_arith)
                        requires
                            inject <= cap,
                            self.channels >= 0,
                    ;
                    assert(0 <= inject * self.channels) by (nonlinear_arith)
                        requires
                            inject >= 0,
                            self.channels >= 0,
                    ;
                }
                self.outgoing_chunk(
                    silent_samples(inject * self.channels as usize),
                    inject as u64,
                    at_send,
                )
            },
            Reception::Disconnected => PumpAction::Exit(PumpExit::CaptureDied),
        }
    }

    /// Books the outcome of a send. Only audio that entered the pipeline counts
    /// toward the drift balance. The sender's channel stays closed once the
    /// streamer is gone, so an unbroken run of failures is a dead session.
    pub fn sent(&mut self, frames: u64, ok: bool) -> (r: Option<PumpExit>)
        requires
            old(self).wf(),
            ok ==> old(self).pushed_frames + frames <= u64::MAX,
        ensures
            *final(self) == old(self).booked(frames as int, ok),
            r == (if final(self).is_dead() {
                Some(PumpExit::SessionDead)
            } else {
                None
            }),
            r is None ==> final(self).wf(),
    {
        if ok {
            self.pushed_frames = self.pushed_frames + frames;
            self.send_failures = 0;
            None
        } else {
            self.send_failures = self.send_failures + 1;
            if self.send_failures >= SEND_FAILURE_LIMIT {
                Some(PumpExit::SessionDead)
            } else {
                None
            }
        }
    }
}

impl PumpTurn {
    /// No flag was up.
    pub open spec fn is_live(self) -> bool {
        !self.stop && !self.dead
    }

    /// Real audio came in.
    pub open spec fn hears(self) -> bool {
        self.is_live() && (self.reception matches Reception::Frame(f) && is_audible(f.samples@))
    }

    /// The session's age, in milliseconds, when real audio came in.
    pub open spec fn heard_ms(self) -> u64 {
        self.heard_at / NANOS_PER_MILLI
    }

    /// What the turn does where real audio came in: it looks up the session's
    /// age, and tells it.
    pub open spec fn listening_deeds(self, epoch: Instant) -> Seq<Deed> {
        if self.hears() {
            seq![
                Deed::Aged { since: epoch, nanos: self.heard_at },
                Deed::Heard(self.heard_ms()),
            ]
        } else {
            Seq::empty()
        }
    }
}

/// Writing a note, if there is one.
pub open spec fn written(note: Option<PumpNote>) -> Seq<Deed> {
    match note {
        Some(n) => seq![Deed::Noted(n)],
        None => Seq::empty(),
    }
}

impl PumpLog {
    /// The log of a session that has sent nothing yet.
    pub open spec fn fresh() -> PumpLog {
        PumpLog {
            stats: PumpStats { shed: 0, repeated: 0, keepalive: 0, refused: 0 },
            reported_at: 0,
        }
    }

    /// The numbers after a send.
    pub open spec fn counted(self, shed: u64, repeated: u64, injected: u64, ok: bool) -> PumpStats {
        PumpStats {
            shed: capped_sum(self.stats.shed, shed as int),
            repeated: capped_sum(self.stats.repeated, repeated as int),
            keepalive: capped_sum(self.stats.keepalive, injected as int),
            refused: if ok {
                self.stats.refused
            } else {
                capped_sum(self.stats.refused, 1)
            },
        }
    }

    /// More than `REPORT_SECS` have passed since the last report.
    pub open spec fn is_due(self, at_end: u64) -> bool {
        at_end - self.reported_at > REPORT_SECS * NANOS_PER_SEC
    }

    /// The log after a send in a turn that was over at `at_end`.
    pub open spec fn booked(
        self,
        shed: u64,
        repeated: u64,
        injected: u64,
        ok: bool,
        at_end: u64,
    ) -> PumpLog {
        PumpLog {
            stats: self.counted(shed, repeated, injected, ok),
            reported_at: if self.is_due(at_end) {
                at_end
            } else {
                self.reported_at
            },
        }
    }

    /// What to write when keepalive goes out: only the first time.
    pub open spec fn keepalive_note(self, is_keepalive: bool) -> Option<PumpNote> {
        if is_keepalive && self.stats.keepalive == 0 {
            Some(PumpNote::KeepaliveEngaged)
        } else {
            None
        }
    }

    /// What to write when so many chunks were refused by now.
    pub open spec fn refusal_note(ok: bool, refused: u64) -> Option<PumpNote> {
        if !ok && refused % REFUSAL_NOTE_EVERY == 1 {
            Some(PumpNote::QueueFull { total: refused })
        } else {
            None
        }
    }

    /// What to write at the end of a turn, with the numbers as they are then.
    pub open spec fn report_note(self, stats: PumpStats, at_end: u64) -> Option<PumpNote> {
        if self.is_due(at_end) {
            Some(PumpNote::Report { stats, minutes: at_end / NANOS_PER_SEC / 60 })
        } else {
            None
        }
    }

    /// The log after a turn that did not end the pump.
    pub open spec fn after_turn(self, t: PumpTurn) -> PumpLog {
        match t.action {
            PumpAction::Send { frame, frames, shed, repeated, injected } => self.booked(
                shed,
                repeated,
                injected,
                t.sent,
                t.at_end,
            ),
            _ => self,
        }
    }

    /// The log after a series of turns, none of which ended the pump.
    pub open spec fn after_turns(self, turns: Seq<PumpTurn>) -> PumpLog
        decreases turns.len(),
    {
        if turns.len() == 0 {
            self
        } else {
            self.after_turns(turns.drop_last()).after_turn(turns.last())
        }
    }

    /// The log of a session that has sent nothing yet.
    pub fn new() -> (r: PumpLog)
        ensures
            r == PumpLog::fresh(),
    {
        PumpLog {
            stats: PumpStats { shed: 0, repeated: 0, keepalive: 0, refused: 0 },
            reported_at: 0,
        }
    }

    /// Whether keepalive is worth a note.
    pub fn engages(&self, is_keepalive: bool) -> (r: Option<PumpNote>)
        ensures
            r == self.keepalive_note(is_keepalive),
    {
        if is_keepalive && self.stats.keepalive == 0 {
            Some(PumpNote::KeepaliveEngaged)
        } else {
            None
        }
    }

    /// Books a send in a turn that was over at `at_end`. Returns what to write
    /// of a refusal, and the report if one is due.
    pub fn book(&mut self, shed: u64, repeated: u64, injected: u64, ok: bool, at_end: u64) -> (r: (
        Option<PumpNote>,
        Option<PumpNote>,
    ))
        ensures
            *final(self) == old(self).booked(shed, repeated, injected, ok, at_end),
            r.0 == PumpLog::refusal_note(ok, final(self).stats.refused),
            r.1 == old(self).report_note(final(self).stats, at_end),
    {
        self.stats.shed = add_capped(self.stats.shed, shed);
        self.stats.repeated = add_capped(self.stats.repeated, repeated);
        self.stats.keepalive = add_capped(self.stats.keepalive, injected);
        if !ok {
            self.stats.refused = add_capped(self.stats.refused, 1);
        }
        let refusal: Option<PumpNote> = if !ok && self.stats.refused % REFUSAL_NOTE_EVERY == 1 {
            Some(PumpNote::QueueFull { total: self.stats.refused })
        } else {
            None
        };
        if at_end > self.reported_at && at_end - self.reported_at > REPORT_SECS * NANOS_PER_SEC {
            self.reported_at = at_end;
            (
                refusal,
                Some(PumpNote::Report { stats: self.stats, minutes: at_end / NANOS_PER_SEC / 60 }),
            )
        } else {
            (refusal, None)
        }
    }
}

/// What a series of turns of `pump` does, in order.
pub open spec fn deeds_of(
    pump: Pump,
    turns: Seq<PumpTurn>,
    start: Instant,
    epoch: Instant,
) -> Seq<Deed>
    decreases turns.len(),
{
    if turns.len() == 0 {
        Seq::empty()
    } else {
        let before = turns.drop_last();
        deeds_of(pump, before, start, epoch) + pump.after_turns(before).deeds(
            PumpLog::fresh().after_turns(before),
            turns.last(),
            start,
            epoch,
        )
    }
}

/// What a run of `pump` does: it asks the clock for its start, and then takes its
/// turns.
pub open spec fn run_deeds(
    pump: Pump,
    turns: Seq<PumpTurn>,
    start: Instant,
    epoch: Instant,
) -> Seq<Deed> {
    seq![Deed::Began(start)] + deeds_of(pump, turns, start, epoch)
}

/// The pump took these turns, and the last of them ended it with `exit`. (No
/// clock outlives `u64::MAX` turns; a pump that did would end as a dead
/// session.)
pub open spec fn is_run(pump: Pump, turns: Seq<PumpTurn>, exit: PumpExit) -> bool {
    let last = turns.len() - 1;
    &&& 0 <= last
    &&& forall|i: int|
        0 <= i <= last ==> pump.after_turns(turns.take(i)).takes(#[trigger] turns[i])
    &&& forall|i: int|
        0 <= i < last ==> pump.after_turns(turns.take(i)).verdict(#[trigger] turns[i]) is None
    &&& match pump.after_turns(turns.take(last)).verdict(turns[last]) {
        Some(e) => exit == e,
        None => exit == PumpExit::SessionDead && turns.len() == u64::MAX,
    }
}

/// Writes a note, if there is one.
fn write_if_any<
    A: Fn() -> bool,
    B: Fn() -> bool,
    S: Fn(LivePcmFrame) -> bool,
    H: Fn(u64),
    L: Fn(PumpNote),
>(rig: &mut Rig<A, B, S, H, L>, note: Option<PumpNote>)
    requires
        old(rig).wf(),
    ensures
        final(rig).wf(),
        final(rig).has_done(*old(rig), written(note)),
{
    if let Some(n) = note {
        rig.write_note(n);
    }
    assert(rig.journal() =~= old(rig).journal() + written(note));
}

/// Sends a chunk, and books what came of it. Returns why the pump is over, if it
/// is, and the record of the turn `t` with the send added.
fn send_turn<
    A: Fn() -> bool,
    B: Fn() -> bool,
    S: Fn(LivePcmFrame) -> bool,
    H: Fn(u64),
    L: Fn(PumpNote),
>(
    pump: &mut Pump,
    log: &mut PumpLog,
    rig: &mut Rig<A, B, S, H, L>,
    action: PumpAction,
    timed_out: bool,
    start: &Instant,
    Ghost(t): Ghost<PumpTurn>,
) -> (r: (Option<PumpExit>, Ghost<PumpTurn>))
    requires
        old(pump).wf(),
        old(rig).wf(),
        t.is_live(),
        t.action == action,
        timed_out == (t.reception is Timeout),
    ensures
        final(rig).wf(),
        r.1@ == (PumpTurn { sent: r.1@.sent, at_end: r.1@.at_end, ..t }),
        old(pump).verdict(r.1@) == r.0,
        r.0 is None ==> final(pump).wf() && *final(pump) == old(pump).after_turn(r.1@)
            && *final(log) == old(log).after_turn(r.1@),
        final(rig).has_done(*old(rig), old(pump).sending_deeds(*old(log), r.1@, *start)),
{
    let ghost mut t = t;
    let exit: Option<PumpExit> = match action {
        PumpAction::Exit(e) => Some(e),
        PumpAction::Idle => None,
        PumpAction::Send { frame, frames, shed, repeated, injected } => {
            write_if_any(rig, log.engages(timed_out));
            let ok: bool = rig.hand_over(frame);
            proof {
                t.sent = ok;
            }
            if ok && frames > u64::MAX - pump.pushed_frames {
                Some(PumpExit::SessionDead)
            } else if let Some(e) = pump.sent(frames, ok) {
                write_if_any(rig, Some(PumpNote::SenderUnresponsive));
                Some(e)
            } else {
                let at_end: u64 = rig.age(start);
                proof {
                    t.at_end = at_end;
                }
                let (refusal, report) = log.book(shed, repeated, injected, ok, at_end);
                write_if_any(rig, refusal);
                write_if_any(rig, report);
                None
            }
        },
    };
    assert(rig.journal() =~= old(rig).journal() + old(pump).sending_deeds(*old(log), t, *start));
    (exit, Ghost(t))
}

/// One turn of the pump with no flag up. Returns why the pump is over, if it is,
/// and the record of the turn.
fn live_turn<
    A: Fn() -> bool,
    B: Fn() -> bool,
    S: Fn(LivePcmFrame) -> bool,
    H: Fn(u64),
    L: Fn(PumpNote),
>(
    pump: &mut Pump,
    log: &mut PumpLog,
    rig: &mut Rig<A, B, S, H, L>,
    start: &Instant,
    epoch: &Instant,
) -> (r: (Option<PumpExit>, Ghost<PumpTurn>))
    requires
        old(pump).wf(),
        old(rig).wf(),
    ensures
        final(rig).wf(),
        r.1@.is_live(),
        old(pump).takes(r.1@),
        old(pump).verdict(r.1@) == r.0,
        r.0 is None ==> final(pump).wf() && *final(pump) == old(pump).after_turn(r.1@)
            && *final(log) == old(log).after_turn(r.1@),
        final(rig).has_done(*old(rig), old(pump).live_deeds(*old(log), r.1@, *start, *epoch)),
{
    let ghost mut t: PumpTurn = arbitrary();
    let reception: Reception = rig.wait(RECEIVE_WAIT_MS);
    let timed_out: bool = matches!(reception, Reception::Timeout);
    if let Reception::Frame(frame) = &reception {
        if audible(&frame.samples) {
            let heard_at: u64 = rig.age(epoch);
            rig.tell_heard(heard_at / NANOS_PER_MILLI);
            proof {
                t.heard_at = heard_at;
            }
        }
    }
    let at_receive: u64 = rig.age(start);
    let at_send: u64 = rig.age(start);
    proof {
        t.stop = false;
        t.dead = false;
        t.reception = reception;
        t.at_receive = at_receive;
        t.at_send = at_send;
    }
    let action: PumpAction = pump.answer(reception, at_receive, at_send);
    proof {
        t.action = action;
    }
    let r: (Option<PumpExit>, Ghost<PumpTurn>) = send_turn(
        pump,
        log,
        rig,
        action,
        timed_out,
        start,
        Ghost(t),
    );
    assert(rig.journal() =~= old(rig).journal() + old(pump).live_deeds(
        *old(log),
        r.1@,
        *start,
        *epoch,
    ));
    r
}

/// Forwards captured audio to the sender until the session is over, with
/// silence keepalive and drift regulation. Real audio is told of in milliseconds
/// since `epoch`.
///
/// What was done with the rig is exactly what the turns say, in their order, and
/// nothing else: both flags are read in every turn, and every age is a reading
/// of its own.
pub fn pump_loop<
    A: Fn() -> bool,
    B: Fn() -> bool,
    S: Fn(LivePcmFrame) -> bool,
    H: Fn(u64),
    L: Fn(PumpNote),
>(rig: &mut Rig<A, B, S, H, L>, sample_rate: u32, channels: u8, epoch: &Instant) -> (exit: PumpExit)
    requires
        old(rig).wf(),
        channels > 0,
        keepalive_cap(sample_rate as int) * channels <= usize::MAX,
    ensures
        final(rig).wf(),
        exists|turns: Seq<PumpTurn>, start: Instant|
            is_run(Pump::fresh(sample_rate, channels), turns, exit) && final(rig).has_done(
                *old(rig),
                #[trigger] run_deeds(Pump::fresh(sample_rate, channels), turns, start, *epoch),
            ),
{
    let ghost rig0 = *rig;
    let start: Instant = rig.begin();
    let mut pump: Pump = Pump::new(sample_rate, channels);
    let mut log: PumpLog = PumpLog::new();
    let ghost first = pump;
    let ghost mut turns: Seq<PumpTurn> = Seq::empty();
    let mut left: u64 = u64::MAX;
    assert(rig.journal() =~= rig0.journal() + run_deeds(first, turns, start, *epoch));
    while left > 0
        invariant
            first == Pump::fresh(sample_rate, channels),
            rig0 == *old(rig),
            rig.wf(),
            rig.has_done(rig0, run_deeds(first, turns, start, *epoch)),
            pump.wf(),
            turns.len() + left == u64::MAX,
            pump == first.after_turns(turns),
            log == PumpLog::fresh().after_turns(turns),
            forall|i: int|
                0 <= i < turns.len() ==> first.after_turns(turns.take(i)).takes(#[trigger] turns[i]),
            forall|i: int|
                0 <= i < turns.len() ==> first.after_turns(turns.take(i)).verdict(
                    #[trigger] turns[i],
                ) is None,
        decreases left,
    {
        left = left - 1;
        let ghost mut t: PumpTurn = arbitrary();
        let stopped: bool = rig.read_stop();
        if stopped {
            proof {
                t.stop = true;
                lemma_run_ends(first, turns, t, PumpExit::Stopped, start, *epoch);
                assert(rig.journal() =~= rig0.journal() + run_deeds(
                    first,
                    turns.push(t),
                    start,
                    *epoch,
                ));
            }
            return PumpExit::Stopped;
        }
        let died: bool = rig.read_dead();
        if died {
            proof {
                t.stop = false;
                t.dead = true;
                lemma_run_ends(first, turns, t, PumpExit::SessionDead, start, *epoch);
                assert(rig.journal() =~= rig0.journal() + run_deeds(
                    first,
                    turns.push(t),
                    start,
                    *epoch,
                ));
            }
            return PumpExit::SessionDead;
        }
        let (exit, Ghost(taken)) = live_turn(&mut pump, &mut log, rig, &start, epoch);
        proof {
            t = taken;
            lemma_turn_joins(first, turns, t, start, *epoch);
            assert(rig.journal() =~= rig0.journal() + run_deeds(
                first,
                turns.push(t),
                start,
                *epoch,
            ));
        }
        if let Some(e) = exit {
            proof {
                lemma_run_ends(first, turns, t, e, start, *epoch);
            }
            return e;
        }
        proof {
            let longer = turns.push(t);
            assert forall|i: int| 0 <= i < longer.len() implies #[trigger] longer.take(i)
                =~= turns.take(i) by {}
            assert(turns.take(turns.len() as int) =~= turns);
            turns = longer;
        }
    }
    assert(is_run(first, turns, PumpExit::SessionDead));
    PumpExit::SessionDead
}

/// One more turn adds what it does, and moves the accounts and the log.
proof fn lemma_turn_joins(
    first: Pump,
    turns: Seq<PumpTurn>,
    t: PumpTurn,
    start: Instant,
    epoch: Instant,
)
    ensures
        run_deeds(first, turns.push(t), start, epoch) == run_deeds(first, turns, start, epoch)
            + first.after_turns(turns).deeds(
            PumpLog::fresh().after_turns(turns),
            t,
            start,
            epoch,
        ),
        first.after_turns(turns.push(t)) == first.after_turns(turns).after_turn(t),
        PumpLog::fresh().after_turns(turns.push(t)) == PumpLog::fresh().after_turns(
            turns,
        ).after_turn(t),
{
    assert(turns.push(t).drop_last() =~= turns);
    assert(run_deeds(first, turns.push(t), start, epoch) =~= run_deeds(first, turns, start, epoch)
        + first.after_turns(turns).deeds(PumpLog::fresh().after_turns(turns), t, start, epoch));
}

/// One more turn, with a verdict, completes a run.
proof fn lemma_run_ends(
    first: Pump,
    turns: Seq<PumpTurn>,
    t: PumpTurn,
    exit: PumpExit,
    start: Instant,
    epoch: Instant,
)
    requires
        first.after_turns(turns).takes(t),
        first.after_turns(turns).verdict(t) == Some(exit),
        forall|i: int|
            0 <= i < turns.len() ==> first.after_turns(turns.take(i)).takes(#[trigger] turns[i]),
        forall|i: int|
            0 <= i < turns.len() ==> first.after_turns(turns.take(i)).verdict(
                #[trigger] turns[i],
            ) is None,
    ensures
        is_run(first, turns.push(t), exit),
        run_deeds(first, turns.push(t), start, epoch) == run_deeds(first, turns, start, epoch)
            + first.after_turns(turns).deeds(
            PumpLog::fresh().after_turns(turns),
            t,
            start,
            epoch,
        ),
{
    lemma_turn_joins(first, turns, t, start, epoch);
    let longer = turns.push(t);
    assert(turns.take(turns.len() as int) =~= turns);
    assert forall|i: int| 0 <= i < longer.len() implies first.after_turns(longer.take(i)).takes(
        #[trigger] longer[i],
    ) by {
        assert(longer.take(i) =~= turns.take(i));
        if i < turns.len() {
            assert(longer[i] == turns[i]);
        }
    }
    assert forall|i: int| 0 <= i < longer.len() - 1 implies first.after_turns(
        longer.take(i),
    ).verdict(#[trigger] longer[i]) is None by {
        assert(longer.take(i) =~= turns.take(i));
        assert(longer[i] == turns[i]);
    }
    assert(longer.take(longer.len() - 1) =~= turns);
}

} // verus!
