//! "HomePod only": the PC's own speakers are muted while a session plays.
//!
//! On many drivers the capture sits behind the mute, so muting the speakers
//! silences the capture too. After muting, the guard therefore wants to hear
//! real audio again, and undoes the mute where it does not.

use crate::health::NO_AUDIO_YET;
use crate::status::{EngineStatus, StatusView};
use vstd::prelude::*;

verus! {

/// Audio that was captured before the mute may arrive this long after it, in
/// milliseconds.
pub const MUTE_SETTLE_MS: u64 = 500;

/// How long after the mute real audio has to be heard, in milliseconds.
pub const MUTE_PROOF_MS: u64 = 4_000;

/// Where the mute stands.
#[derive(Debug, Clone, Copy, PartialEq, Eq, Structural)]
pub enum MuteState {
    /// Not muted by this session.
    Open,
    /// Muted at `since_ms` of session time. The output was muted `before` that
    /// already, or not. `proven`: real audio has been heard since.
    Muted { before: bool, since_ms: u64, proven: bool },
    /// Muting does not work here; the speakers stay as they are.
    GivenUp,
}

/// The mute of one session.
#[derive(Debug, Clone, Copy, PartialEq, Eq, Structural)]
pub struct MuteGuard {
    /// The user wants the HomePod only.
    pub wanted: bool,
    pub state: MuteState,
}

/// What to do with the output.
#[derive(Debug, Clone, Copy, PartialEq, Eq, Structural)]
pub enum MuteStep {
    Leave,
    /// Mute it, and report the outcome with [`MuteGuard::muted`].
    Mute,
    /// Set it back to `before`, and tell the user.
    RollBack { before: bool },
}

/// What to tell the user when the mute was undone.
pub open spec fn rolled_back_message() -> Seq<char> {
    "muting this PC's speakers also silences its audio capture — speakers restored. Route audio to an unused output device instead."@
}

impl MuteGuard {
    /// A session that has just come up.
    pub open spec fn fresh(wanted: bool) -> MuteGuard {
        MuteGuard { wanted, state: MuteState::Open }
    }

    /// Real audio has been heard through the mute.
    pub open spec fn heard_through(since_ms: u64, last_audio_ms: u64) -> bool {
        last_audio_ms != NO_AUDIO_YET && last_audio_ms > since_ms + MUTE_SETTLE_MS
    }

    /// What to do at `age_ms` of session time. `playing`: real audio came in
    /// lately, the last at `last_audio_ms`.
    pub open spec fn step(self, age_ms: u64, playing: bool, last_audio_ms: u64) -> MuteStep {
        match self.state {
            MuteState::Open => if self.wanted && playing {
                MuteStep::Mute
            } else {
                MuteStep::Leave
            },
            MuteState::Muted { before, since_ms, proven } => if !proven && !Self::heard_through(
                since_ms,
                last_audio_ms,
            ) && age_ms >= since_ms + MUTE_PROOF_MS {
                MuteStep::RollBack { before }
            } else {
                MuteStep::Leave
            },
            MuteState::GivenUp => MuteStep::Leave,
        }
    }

    /// The guard after that.
    pub open spec fn moved(self, age_ms: u64, playing: bool, last_audio_ms: u64) -> MuteGuard {
        let state = match (self.state, self.step(age_ms, playing, last_audio_ms)) {
            (_, MuteStep::RollBack { .. }) => MuteState::GivenUp,
            (MuteState::Muted { before, since_ms, proven }, _) => MuteState::Muted {
                before,
                since_ms,
                proven: proven || Self::heard_through(since_ms, last_audio_ms),
            },
            (s, _) => s,
        };
        MuteGuard { state, ..self }
    }

    /// A session that has just come up.
    pub fn new(wanted: bool) -> (r: MuteGuard)
        ensures
            r == MuteGuard::fresh(wanted),
    {
        MuteGuard { wanted, state: MuteState::Open }
    }

    /// Decides what to do with the output at `age_ms` of session time.
    pub fn tick(&mut self, age_ms: u64, playing: bool, last_audio_ms: u64) -> (r: MuteStep)
        ensures
            r == old(self).step(age_ms, playing, last_audio_ms),
            *final(self) == old(self).moved(age_ms, playing, last_audio_ms),
    {
        match self.state {
            MuteState::Open => if self.wanted && playing {
                MuteStep::Mute
            } else {
                MuteStep::Leave
            },
            MuteState::Muted { before, since_ms, proven } => {
                let heard: bool = last_audio_ms != NO_AUDIO_YET && last_audio_ms > since_ms
                    && last_audio_ms - since_ms > MUTE_SETTLE_MS;
                if !proven && !heard && age_ms >= since_ms && age_ms - since_ms >= MUTE_PROOF_MS {
                    self.state = MuteState::GivenUp;
                    return MuteStep::RollBack { before };
                }
                self.state = MuteState::Muted { before, since_ms, proven: proven || heard };
                MuteStep::Leave
            },
            MuteState::GivenUp => MuteStep::Leave,
        }
    }

    /// Books the outcome of a mute at `age_ms`: the state that the output was in
    /// before, or `None` where it could not be muted.
    pub fn muted(&mut self, outcome: Option<bool>, age_ms: u64)
        ensures
            *final(self) == (MuteGuard {
                state: match outcome {
                    Some(before) => MuteState::Muted { before, since_ms: age_ms, proven: false },
                    None => MuteState::GivenUp,
                },
                ..*old(self)
            }),
    {
        self.state = match outcome {
            Some(before) => MuteState::Muted { before, since_ms: age_ms, proven: false },
            None => MuteState::GivenUp,
        };
    }

    /// The session is over: the state to set the output back to, if it was
    /// muted.
    pub fn release(&mut self) -> (r: Option<bool>)
        ensures
            r == (match old(self).state {
                MuteState::Muted { before, .. } => Some(before),
                _ => None,
            }),
            *final(self) == (MuteGuard {
                state: if old(self).state is Muted {
                    MuteState::Open
                } else {
                    old(self).state
                },
                ..*old(self)
            }),
    {
        match self.state {
            MuteState::Muted { before, .. } => {
                self.state = MuteState::Open;
                Some(before)
            },
            _ => None,
        }
    }
}

/// The warning that goes with a mute that was undone.
pub fn rolled_back_warning(name: &str) -> (r: EngineStatus)
    ensures
        r@ == StatusView::Warning(name@, rolled_back_message()),
{
    EngineStatus::Warning {
        name: name.to_owned(),
        message: "muting this PC's speakers also silences its audio capture — speakers restored. Route audio to an unused output device instead.".to_owned(),
    }
}

/// The speakers are muted only where the user wants it and only while real
/// audio is coming in.
pub proof fn law_mutes_only_when_audio_flows(
    g: MuteGuard,
    age_ms: u64,
    playing: bool,
    last_audio_ms: u64,
)
    ensures
        g.step(age_ms, playing, last_audio_ms) == MuteStep::Mute ==> g.wanted && playing
            && g.state == MuteState::Open,
{
}

/// What one moment of the guard's life is: a tick, or the outcome of a mute.
pub enum MuteMoment {
    Tick { age_ms: u64, playing: bool, last_audio_ms: u64 },
    Outcome { outcome: Option<bool>, age_ms: u64 },
}

impl MuteGuard {
    /// The guard after one moment. A mute has an outcome only where one was
    /// asked for, that is, from `Open`.
    pub open spec fn lived(self, m: MuteMoment) -> MuteGuard {
        match m {
            MuteMoment::Tick { age_ms, playing, last_audio_ms } => self.moved(
                age_ms,
                playing,
                last_audio_ms,
            ),
            MuteMoment::Outcome { outcome, age_ms } => if self.state is Open {
                MuteGuard {
                    state: match outcome {
                        Some(before) => MuteState::Muted {
                            before,
                            since_ms: age_ms,
                            proven: false,
                        },
                        None => MuteState::GivenUp,
                    },
                    ..self
                }
            } else {
                self
            },
        }
    }

    /// The guard after a series of moments.
    pub open spec fn after(self, moments: Seq<MuteMoment>) -> MuteGuard
        decreases moments.len(),
    {
        if moments.len() == 0 {
            self
        } else {
            self.after(moments.drop_last()).lived(moments.last())
        }
    }
}

/// A mute lasts until it is undone, and remembers all the while how the output
/// was before: from the mute on, either the speakers are still muted and the
/// end of the session sets them back to `before`, or they have been set back to
/// `before` already, and are left alone from then on.
pub proof fn law_speakers_are_given_back(
    g: MuteGuard,
    before: bool,
    since_ms: u64,
    moments: Seq<MuteMoment>,
)
    requires
        g.state matches MuteState::Muted { before: b, since_ms: s, .. } && b == before && s
            == since_ms,
    ensures
        match g.after(moments).state {
            MuteState::Muted { before: b, since_ms: s, .. } => b == before && s == since_ms,
            MuteState::GivenUp => exists|i: int|
                0 <= i < moments.len() && (#[trigger] moments[i] matches MuteMoment::Tick {
                    age_ms,
                    playing,
                    last_audio_ms,
                } && g.after(moments.take(i)).step(age_ms, playing, last_audio_ms)
                    == (MuteStep::RollBack { before })),
            MuteState::Open => false,
        },
    decreases moments.len(),
{
    if moments.len() > 0 {
        let init = moments.drop_last();
        law_speakers_are_given_back(g, before, since_ms, init);
        assert(moments.take(moments.len() - 1) =~= init);
        if g.after(init).state is GivenUp {
            let i = choose|i: int|
                0 <= i < init.len() && (#[trigger] init[i] matches MuteMoment::Tick {
                    age_ms,
                    playing,
                    last_audio_ms,
                } && g.after(init.take(i)).step(age_ms, playing, last_audio_ms)
                    == (MuteStep::RollBack { before }));
            assert(init.take(i) =~= moments.take(i));
            assert(moments[i] == init[i]);
        } else if g.after(moments).state is GivenUp {
            let i = moments.len() - 1;
            assert(moments[i] == moments.last());
        }
    }
}

/// Where the user does not want the HomePod only, the speakers are left alone:
/// whatever ticks come, none mutes them, none undoes a mute, and the end of the
/// session has nothing to set back.
pub proof fn law_unwanted_mute_never_happens(ticks: Seq<MuteMoment>, last: MuteMoment)
    requires
        forall|i: int| 0 <= i < ticks.len() ==> (#[trigger] ticks[i]) is Tick,
    ensures
        MuteGuard::fresh(false).after(ticks) == MuteGuard::fresh(false),
        last matches MuteMoment::Tick { age_ms, playing, last_audio_ms } ==> MuteGuard::fresh(
            false,
        ).after(ticks).step(age_ms, playing, last_audio_ms) == MuteStep::Leave,
    decreases ticks.len(),
{
    if ticks.len() > 0 {
        let init = ticks.drop_last();
        assert forall|i: int| 0 <= i < init.len() implies (#[trigger] init[i]) is Tick by {
            assert(init[i] == ticks[i]);
        }
        law_unwanted_mute_never_happens(init, last);
        assert(ticks[ticks.len() - 1] == ticks.last());
    }
}

} // verus!
