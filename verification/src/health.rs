//! The health of a session that is up: heartbeats, clock-sync queries, and
//! whether the PC is playing anything.

use crate::clock::NANOS_PER_MILLI;
use crate::status::{status_view, EngineStatus, StatusView};
use crate::streak::failing_streak;
use vstd::prelude::*;

verus! {

/// Heartbeats that may fail in a row before the session is declared dead.
pub const HEARTBEAT_STRIKES: u32 = 3;

/// How old a session is, in nanoseconds, before the lack of clock-sync queries
/// means anything.
pub const TIMING_GRACE_NANOS: u64 = 10_000_000_000;

/// How old a session is, in nanoseconds, before silence means anything.
pub const SILENCE_GRACE_NANOS: u64 = 5_000_000_000;

/// Audio that is no older than this, in milliseconds, is recent.
pub const RECENT_MS: u64 = 3_000;

/// The time of the last real audio while there has been none.
pub const NO_AUDIO_YET: u64 = u64::MAX;

/// What the health task remembers between two heartbeats.
#[derive(Debug, Clone, Copy, PartialEq, Eq, Structural)]
pub struct Health {
    /// Heartbeats that failed since the last one that did not.
    pub strikes: u32,
    /// The user has been told that nothing is playing, and nothing since.
    pub silent_reported: bool,
    /// The user has been told that the receiver cannot reach this PC.
    pub timing_warned: bool,
}

/// What one heartbeat found.
#[derive(Debug, Clone, Copy, PartialEq, Eq, Structural)]
pub struct Beat {
    /// The receiver answered.
    pub answered: bool,
    /// Clock-sync queries that have come in, where they are counted.
    pub timing_requests: Option<u64>,
    /// The session's age in nanoseconds.
    pub age_nanos: u64,
    /// The session's age, in milliseconds, at the last real audio, or
    /// `NO_AUDIO_YET`.
    pub last_audio_ms: u64,
}

/// The answer to a heartbeat.
#[derive(Debug)]
pub struct Pulse {
    /// The session is dead; there are no more heartbeats.
    pub dead: bool,
    pub status: Option<EngineStatus>,
}

/// What a heartbeat has the user told.
#[derive(Debug, Clone, Copy, PartialEq, Eq, Structural)]
pub enum Report {
    Unreachable,
    Silent,
    Playing,
}

impl Beat {
    /// Real audio came in lately.
    pub open spec fn is_playing(self) -> bool {
        &&& self.last_audio_ms != NO_AUDIO_YET
        &&& self.age_nanos as int / NANOS_PER_MILLI as int - self.last_audio_ms < RECENT_MS
    }

    /// The receiver has had time to ask for the time, and has not: inbound UDP
    /// is blocked, and the speaker will play silence.
    pub open spec fn is_unreachable(self) -> bool {
        self.age_nanos > TIMING_GRACE_NANOS && self.timing_requests == Some(0u64)
    }

    /// Whether real audio came in lately.
    pub fn playing(&self) -> (r: bool)
        ensures
            r == self.is_playing(),
    {
        let age_ms: u64 = self.age_nanos / NANOS_PER_MILLI;
        self.last_audio_ms != NO_AUDIO_YET && (self.last_audio_ms >= age_ms || age_ms
            - self.last_audio_ms < RECENT_MS)
    }
}

/// What to say when the receiver cannot reach this PC.
pub open spec fn unreachable_message() -> Seq<char> {
    "HomePod can't sync its clock — audio will stay silent. Re-run 'Enable firewall access' in the menu."@
}

/// The status for a report on the device called `name`.
pub open spec fn report_status(report: Report, name: Seq<char>) -> StatusView {
    match report {
        Report::Unreachable => StatusView::Warning(name, unreachable_message()),
        Report::Silent => StatusView::StreamingSilent(name),
        Report::Playing => StatusView::Streaming(name),
    }
}

impl Health {
    /// The session has not been declared dead.
    pub open spec fn wf(self) -> bool {
        self.strikes < HEARTBEAT_STRIKES
    }

    /// A session that has just come up.
    pub open spec fn fresh() -> Health {
        Health { strikes: 0, silent_reported: false, timing_warned: false }
    }

    /// The strikes after a heartbeat.
    pub open spec fn strikes_after(self, beat: Beat) -> int {
        if beat.answered {
            0
        } else {
            self.strikes + 1
        }
    }

    /// The heartbeat is the last strike.
    pub open spec fn dies(self, beat: Beat) -> bool {
        self.strikes_after(beat) >= HEARTBEAT_STRIKES
    }

    /// What the heartbeat has the user told. A dead session tells nothing; a
    /// receiver that cannot reach this PC is told of once, and then there is no
    /// more talk of silence; silence and its end are told in turn.
    pub open spec fn report(self, beat: Beat) -> Option<Report> {
        if self.dies(beat) || self.timing_warned {
            None
        } else if beat.is_unreachable() {
            Some(Report::Unreachable)
        } else if beat.age_nanos <= SILENCE_GRACE_NANOS || beat.is_playing()
            != self.silent_reported {
            None
        } else if beat.is_playing() {
            Some(Report::Playing)
        } else {
            Some(Report::Silent)
        }
    }

    /// The memory after a heartbeat.
    pub open spec fn moved(self, beat: Beat) -> Health {
        let h = Health { strikes: self.strikes_after(beat) as u32, ..self };
        match self.report(beat) {
            None => h,
            Some(Report::Unreachable) => Health { timing_warned: true, ..h },
            Some(Report::Silent) => Health { silent_reported: true, ..h },
            Some(Report::Playing) => Health { silent_reported: false, ..h },
        }
    }

    /// The memory after a series of heartbeats.
    pub open spec fn after(self, beats: Seq<Beat>) -> Health
        decreases beats.len(),
    {
        if beats.len() == 0 {
            self
        } else {
            self.after(beats.drop_last()).moved(beats.last())
        }
    }

    /// What a series of heartbeats had the user told.
    pub open spec fn reports(self, beats: Seq<Beat>) -> Seq<Report>
        decreases beats.len(),
    {
        if beats.len() == 0 {
            Seq::empty()
        } else {
            let before = self.reports(beats.drop_last());
            match self.after(beats.drop_last()).report(beats.last()) {
                Some(r) => before.push(r),
                None => before,
            }
        }
    }

    /// A session that has just come up.
    pub fn new() -> (r: Health)
        ensures
            r == Health::fresh(),
            r.wf(),
    {
        Health { strikes: 0, silent_reported: false, timing_warned: false }
    }

    /// Answers a heartbeat of a session with the device called `name`.
    pub fn tick(&mut self, beat: Beat, name: &str) -> (r: Pulse)
        requires
            old(self).wf(),
        ensures
            *final(self) == old(self).moved(beat),
            r.dead == old(self).dies(beat),
            !r.dead ==> final(self).wf(),
            status_view(r.status) == (match old(self).report(beat) {
                Some(report) => Some(report_status(report, name@)),
                None => None,
            }),
    {
        if beat.answered {
            self.strikes = 0;
        } else {
            self.strikes = self.strikes + 1;
            if self.strikes >= HEARTBEAT_STRIKES {
                return Pulse { dead: true, status: None };
            }
        }
        let mut status: Option<EngineStatus> = None;
        let none_came: bool = match beat.timing_requests {
            Some(n) => n == 0,
            None => false,
        };
        if !self.timing_warned && beat.age_nanos > TIMING_GRACE_NANOS && none_came {
            self.timing_warned = true;
            status = Some(
                EngineStatus::Warning {
                    name: name.to_owned(),
                    message: "HomePod can't sync its clock — audio will stay silent. Re-run 'Enable firewall access' in the menu.".to_owned(),
                },
            );
        }
        if beat.age_nanos > SILENCE_GRACE_NANOS && !self.timing_warned {
            let playing: bool = beat.playing();
            if !playing && !self.silent_reported {
                self.silent_reported = true;
                status = Some(EngineStatus::StreamingSilent { name: name.to_owned() });
            } else if playing && self.silent_reported {
                self.silent_reported = false;
                status = Some(EngineStatus::Streaming { name: name.to_owned() });
            }
        }
        Pulse { dead: false, status }
    }
}

/// Which heartbeats were answered.
pub open spec fn answers(beats: Seq<Beat>) -> Seq<bool> {
    beats.map_values(|b: Beat| b.answered)
}

/// A session is declared dead at a heartbeat exactly when that heartbeat and
/// the two before it all went unanswered.
pub proof fn law_dead_after_three_strikes(before: Seq<Beat>, beat: Beat)
    requires
        forall|i: int|
            0 <= i < before.len() ==> !Health::fresh().after(before.take(i)).dies(
                #[trigger] before[i],
            ),
    ensures
        ({
            let beats = before.push(beat);
            Health::fresh().after(before).dies(beat) <==> beats.len() >= HEARTBEAT_STRIKES && (
            forall|i: int|
                beats.len() - HEARTBEAT_STRIKES <= i < beats.len() ==> !(
                #[trigger] beats[i]).answered)
        }),
{
    let beats = before.push(beat);
    lemma_strikes_are_the_streak(before);
    assert(answers(beats).drop_last() =~= answers(before));
    assert(answers(beats).last() == beat.answered);
    crate::streak::law_streak_is_trailing_failures(answers(beats), HEARTBEAT_STRIKES as nat);
    assert(forall|i: int| 0 <= i < beats.len() ==> answers(beats)[i] == (#[trigger] beats[i]).answered);
    if Health::fresh().after(before).dies(beat) {
        assert forall|i: int| beats.len() - HEARTBEAT_STRIKES <= i < beats.len() implies !(
        #[trigger] beats[i]).answered by {
            assert(!answers(beats)[i]);
        }
    }
}

proof fn lemma_strikes_are_the_streak(beats: Seq<Beat>)
    requires
        forall|i: int|
            0 <= i < beats.len() ==> !Health::fresh().after(beats.take(i)).dies(
                #[trigger] beats[i],
            ),
    ensures
        Health::fresh().after(beats).strikes == failing_streak(answers(beats)),
        Health::fresh().after(beats).wf(),
    decreases beats.len(),
{
    if beats.len() > 0 {
        let init = beats.drop_last();
        assert forall|i: int| 0 <= i < init.len() implies !Health::fresh().after(
            init.take(i),
        ).dies(#[trigger] init[i]) by {
            assert(init.take(i) =~= beats.take(i));
            assert(!Health::fresh().after(beats.take(i)).dies(beats[i]));
        }
        lemma_strikes_are_the_streak(init);
        assert(answers(beats).drop_last() =~= answers(init));
        assert(beats.take(beats.len() - 1) =~= init);
        assert(!Health::fresh().after(init).dies(beats[beats.len() - 1]));
    }
}

/// Over a session, silence and its end are told in turn, silence first; and the
/// warning that the receiver cannot reach this PC is the last thing told.
pub proof fn law_reports_take_turns(beats: Seq<Beat>)
    ensures
        ({
            let told = Health::fresh().reports(beats);
            forall|i: int|
                0 <= i < told.len() ==> {
                    ||| (#[trigger] told[i]) == Report::Unreachable && i == told.len() - 1
                    ||| told[i] == (if i % 2 == 0 {
                        Report::Silent
                    } else {
                        Report::Playing
                    })
                }
        }),
{
    lemma_reports(beats);
}

proof fn lemma_reports(beats: Seq<Beat>)
    ensures
        ({
            let told = Health::fresh().reports(beats);
            let h = Health::fresh().after(beats);
            &&& h.timing_warned <==> told.len() > 0 && told.last() == Report::Unreachable
            &&& !h.timing_warned ==> (h.silent_reported <==> told.len() % 2 == 1)
            &&& forall|i: int|
                0 <= i < told.len() ==> {
                    ||| (#[trigger] told[i]) == Report::Unreachable && i == told.len() - 1
                    ||| told[i] == (if i % 2 == 0 {
                        Report::Silent
                    } else {
                        Report::Playing
                    })
                }
        }),
    decreases beats.len(),
{
    if beats.len() > 0 {
        let init = beats.drop_last();
        lemma_reports(init);
        let before = Health::fresh().reports(init);
        let told = Health::fresh().reports(beats);
        assert forall|i: int| 0 <= i < told.len() implies {
            ||| (#[trigger] told[i]) == Report::Unreachable && i == told.len() - 1
            ||| told[i] == (if i % 2 == 0 {
                Report::Silent
            } else {
                Report::Playing
            })
        } by {
            if i < before.len() {
                assert(told[i] == before[i]);
            }
        }
    }
}

} // verus!
