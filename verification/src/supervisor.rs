//! Reconnect supervision: when to connect, how long to back off, and when to
//! give up.

use crate::pump::PumpExit;
use crate::status::{status_view, EngineStatus, StatusView};
use crate::text::{joined, joined3};
use vstd::prelude::*;
use vstd::string::*;

verus! {

/// The first backoff, in seconds.
pub const FIRST_BACKOFF_SECS: u64 = 1;

/// The longest backoff, in seconds.
pub const MAX_BACKOFF_SECS: u64 = 30;

/// Attempts before a device that never answered is given up on.
pub const FIRST_CONNECT_ATTEMPTS: u32 = 3;

/// A session that lasted longer than this, in nanoseconds, was a healthy one.
pub const HEALTHY_NANOS: u64 = 60_000_000_000;

/// The supervisor between two events.
#[derive(Debug, Clone, Copy, PartialEq, Eq, Structural)]
pub struct Supervisor {
    /// Connection attempts so far, as they are told to the user.
    pub attempt: u32,
    /// A session has been up.
    pub ever_connected: bool,
    /// The next backoff, in seconds.
    pub backoff_secs: u64,
}

/// What happened.
#[derive(Debug)]
pub enum Event {
    /// The audio capture could not be opened.
    CaptureFailed(String),
    /// Nothing stands in the way of the next attempt but the stop flag.
    Ready { stop: bool },
    /// The attempt failed, or took too long.
    ConnectFailed(String),
    /// The stop flag went up during the attempt.
    Interrupted,
    /// The session is up.
    Connected,
    /// The session is over and torn down.
    SessionOver { exit: PumpExit, lasted_nanos: u64 },
}

/// What to do next.
#[derive(Debug, Clone, Copy, PartialEq, Eq, Structural)]
pub enum Next {
    /// Try to open a session.
    Connect,
    /// Run the session that is open.
    Stream,
    /// Wait, or until the stop flag goes up; then `Ready`.
    Wait { secs: u64 },
    /// The engine is done.
    Finish,
}

/// The answer to an event: a status to tell, and what to do next.
#[derive(Debug)]
pub struct Reaction {
    pub status: Option<EngineStatus>,
    pub next: Next,
}

/// Twice as long, but no longer than the longest backoff.
pub open spec fn doubled(secs: u64) -> u64 {
    if secs * 2 <= MAX_BACKOFF_SECS {
        (secs * 2) as u64
    } else {
        MAX_BACKOFF_SECS
    }
}

impl Supervisor {
    /// The backoff is between its bounds.
    pub open spec fn wf(self) -> bool {
        FIRST_BACKOFF_SECS <= self.backoff_secs <= MAX_BACKOFF_SECS
    }

    /// A supervisor to which nothing has happened.
    pub open spec fn fresh() -> Supervisor {
        Supervisor { attempt: 0, ever_connected: false, backoff_secs: FIRST_BACKOFF_SECS }
    }

    /// A device that has never answered has had all its attempts.
    pub open spec fn gives_up(self) -> bool {
        !self.ever_connected && self.attempt >= FIRST_CONNECT_ATTEMPTS
    }

    /// The session that ended proved the device healthy.
    pub open spec fn rested(self, lasted_nanos: u64) -> Supervisor {
        if lasted_nanos > HEALTHY_NANOS {
            Supervisor { attempt: 1, backoff_secs: FIRST_BACKOFF_SECS, ..self }
        } else {
            self
        }
    }

    /// The supervisor after an event.
    pub open spec fn moved(self, event: Event) -> Supervisor {
        match event {
            Event::Ready { stop } => if stop {
                self
            } else {
                Supervisor { attempt: (self.attempt + 1) as u32, ..self }
            },
            Event::ConnectFailed(_) => if self.gives_up() {
                self
            } else {
                Supervisor { backoff_secs: doubled(self.backoff_secs), ..self }
            },
            Event::Connected => Supervisor { ever_connected: true, ..self },
            Event::SessionOver { exit: PumpExit::SessionDead, lasted_nanos } => {
                let s = self.rested(lasted_nanos);
                Supervisor { backoff_secs: doubled(s.backoff_secs), ..s }
            },
            _ => self,
        }
    }

    /// What to do after an event.
    pub open spec fn next(self, event: Event) -> Next {
        match event {
            Event::CaptureFailed(_) => Next::Finish,
            Event::Ready { stop } => if stop {
                Next::Finish
            } else {
                Next::Connect
            },
            Event::ConnectFailed(_) => if self.gives_up() {
                Next::Finish
            } else {
                Next::Wait { secs: self.backoff_secs }
            },
            Event::Interrupted => Next::Finish,
            Event::Connected => Next::Stream,
            Event::SessionOver { exit, lasted_nanos } => match exit {
                PumpExit::Stopped => Next::Finish,
                PumpExit::CaptureDied => Next::Finish,
                PumpExit::SessionDead => Next::Wait { secs: self.rested(lasted_nanos).backoff_secs },
            },
        }
    }

    /// What to tell the user after an event.
    pub open spec fn told(
        self,
        event: Event,
        name: Seq<char>,
        address: Seq<char>,
    ) -> Option<StatusView> {
        match event {
            Event::CaptureFailed(e) => Some(StatusView::Failed("audio capture: "@ + e@)),
            Event::Ready { stop } => if stop {
                Some(StatusView::Stopped)
            } else if self.attempt == 0 {
                Some(StatusView::Connecting(name))
            } else {
                Some(StatusView::Reconnecting(name, (self.attempt + 1) as u32))
            },
            Event::ConnectFailed(e) => if self.gives_up() {
                Some(StatusView::Failed("could not connect to "@ + address + ": "@ + e@))
            } else {
                None
            },
            Event::Interrupted => Some(StatusView::Stopped),
            Event::Connected => Some(StatusView::Streaming(name)),
            Event::SessionOver { exit, lasted_nanos } => match exit {
                PumpExit::Stopped => Some(StatusView::Stopped),
                PumpExit::CaptureDied => Some(
                    StatusView::Failed("audio capture stopped (device removed or driver error)"@),
                ),
                PumpExit::SessionDead => None,
            },
        }
    }

    /// The supervisor after a series of events.
    pub open spec fn after(self, events: Seq<Event>) -> Supervisor
        decreases events.len(),
    {
        if events.len() == 0 {
            self
        } else {
            self.after(events.drop_last()).moved(events.last())
        }
    }

    /// A supervisor to which nothing has happened.
    pub fn new() -> (r: Supervisor)
        ensures
            r == Supervisor::fresh(),
            r.wf(),
    {
        Supervisor { attempt: 0, ever_connected: false, backoff_secs: FIRST_BACKOFF_SECS }
    }

    /// Returns the present backoff and makes the next one twice as long.
    fn back_off(&mut self) -> (secs: u64)
        requires
            old(self).wf(),
        ensures
            secs == old(self).backoff_secs,
            *final(self) == (Supervisor {
                backoff_secs: doubled(old(self).backoff_secs),
                ..*old(self)
            }),
            final(self).wf(),
    {
        let secs: u64 = self.backoff_secs;
        self.backoff_secs = if secs * 2 <= MAX_BACKOFF_SECS {
            secs * 2
        } else {
            MAX_BACKOFF_SECS
        };
        secs
    }

    /// Answers an event of a session with the device called `name` at `address`.
    pub fn react(&mut self, event: Event, name: &str, address: &str) -> (r: Reaction)
        requires
            old(self).wf(),
            event matches Event::Ready { stop } ==> !stop ==> old(self).attempt < u32::MAX,
        ensures
            final(self).wf(),
            *final(self) == old(self).moved(event),
            r.next == old(self).next(event),
            status_view(r.status) == old(self).told(event, name@, address@),
    {
        match event {
            Event::CaptureFailed(e) => Reaction {
                status: Some(EngineStatus::Failed(joined("audio capture: ", e.as_str()))),
                next: Next::Finish,
            },
            Event::Ready { stop } => {
                if stop {
                    return Reaction { status: Some(EngineStatus::Stopped), next: Next::Finish };
                }
                self.attempt = self.attempt + 1;
                let status: EngineStatus = if self.attempt == 1 {
                    EngineStatus::Connecting { name: name.to_owned() }
                } else {
                    EngineStatus::Reconnecting { name: name.to_owned(), attempt: self.attempt }
                };
                Reaction { status: Some(status), next: Next::Connect }
            },
            Event::ConnectFailed(e) => {
                if !self.ever_connected && self.attempt >= FIRST_CONNECT_ATTEMPTS {
                    let mut message: String = joined3("could not connect to ", address, ": ");
                    message.append(e.as_str());
                    return Reaction {
                        status: Some(EngineStatus::Failed(message)),
                        next: Next::Finish,
                    };
                }
                let secs: u64 = self.back_off();
                Reaction { status: None, next: Next::Wait { secs } }
            },
            Event::Interrupted => Reaction {
                status: Some(EngineStatus::Stopped),
                next: Next::Finish,
            },
            Event::Connected => {
                self.ever_connected = true;
                Reaction {
                    status: Some(EngineStatus::Streaming { name: name.to_owned() }),
                    next: Next::Stream,
                }
            },
            Event::SessionOver { exit, lasted_nanos } => match exit {
                PumpExit::Stopped => Reaction {
                    status: Some(EngineStatus::Stopped),
                    next: Next::Finish,
                },
                PumpExit::CaptureDied => Reaction {
                    status: Some(
                        EngineStatus::Failed(
                            "audio capture stopped (device removed or driver error)".to_owned(),
                        ),
                    ),
                    next: Next::Finish,
                },
                PumpExit::SessionDead => {
                    if lasted_nanos > HEALTHY_NANOS {
                        self.backoff_secs = FIRST_BACKOFF_SECS;
                        self.attempt = 1;
                    }
                    let secs: u64 = self.back_off();
                    Reaction { status: None, next: Next::Wait { secs } }
                },
            },
        }
    }
}

/// Whatever happens, the backoff stays between its bounds, and a session that
/// has once been up is not forgotten.
pub proof fn law_supervisor_stays_sound(s: Supervisor, events: Seq<Event>)
    requires
        s.wf(),
    ensures
        s.after(events).wf(),
        s.ever_connected ==> s.after(events).ever_connected,
    decreases events.len(),
{
    if events.len() > 0 {
        law_supervisor_stays_sound(s, events.drop_last());
    }
}

/// Once a session has been up, a lost connection is always tried again: only the
/// stop flag or the capture can end the engine. Until the next attempt, nothing
/// is told.
pub proof fn law_reconnects_after_a_session(
    before: Seq<Event>,
    event: Event,
    name: Seq<char>,
    address: Seq<char>,
)
    requires
        before.contains(Event::Connected),
        event is ConnectFailed || (event matches Event::SessionOver { exit, .. } && exit
            == PumpExit::SessionDead),
    ensures
        Supervisor::fresh().after(before).next(event) is Wait,
        Supervisor::fresh().after(before).told(event, name, address) is None,
{
    lemma_connected_is_remembered(before);
}

/// After a lost connection, the next attempt is told as `Reconnecting`, with the
/// number of that attempt: one more than the count so far, which a healthy
/// session has set back to one.
pub proof fn law_next_attempt_is_told_as_reconnecting(
    before: Seq<Event>,
    event: Event,
    name: Seq<char>,
    address: Seq<char>,
)
    requires
        before.len() > 0,
        before[0] == (Event::Ready { stop: false }),
        before.contains(Event::Connected),
        attempts(before) < u32::MAX - 1,
        event is ConnectFailed || (event matches Event::SessionOver { exit, .. } && exit
            == PumpExit::SessionDead),
    ensures
        ({
            let s = Supervisor::fresh().after(before);
            let lost = Supervisor::fresh().after(before.push(event));
            let ready = Event::Ready { stop: false };
            let count = if event matches Event::SessionOver { lasted_nanos, .. } && lasted_nanos
                > HEALTHY_NANOS {
                1u32
            } else {
                s.attempt
            };
            &&& lost.next(ready) == Next::Connect
            &&& lost.told(ready, name, address) == Some(
                StatusView::Reconnecting(name, (count + 1) as u32),
            )
            &&& count + 1 <= u32::MAX
            &&& lost.moved(ready).attempt == count + 1
        }),
{
    lemma_connected_is_remembered(before);
    lemma_attempt_range(before);
    assert(before.push(event).drop_last() =~= before);
}

proof fn lemma_connected_is_remembered(events: Seq<Event>)
    requires
        events.contains(Event::Connected),
    ensures
        Supervisor::fresh().after(events).ever_connected,
    decreases events.len(),
{
    if events.last() != Event::Connected {
        let i = events.index_of(Event::Connected);
        assert(events.drop_last()[i] == Event::Connected);
        lemma_connected_is_remembered(events.drop_last());
    }
}

/// Attempts that were begun.
pub open spec fn attempts(events: Seq<Event>) -> nat
    decreases events.len(),
{
    if events.len() == 0 {
        0
    } else {
        attempts(events.drop_last()) + if events.last() == (Event::Ready { stop: false }) {
            1nat
        } else {
            0
        }
    }
}

/// Before the first session, the number told to the user is the number of
/// attempts that were begun.
pub proof fn law_attempts_are_counted(events: Seq<Event>)
    requires
        attempts(events) <= u32::MAX,
        forall|i: int| 0 <= i < events.len() ==> !((#[trigger] events[i]) is SessionOver),
    ensures
        Supervisor::fresh().after(events).attempt == attempts(events),
    decreases events.len(),
{
    if events.len() > 0 {
        law_attempts_are_counted(events.drop_last());
    }
}

/// A device that never answers is given up on when the third attempt has
/// failed, and not before.
pub proof fn law_gives_up_at_the_third_attempt(before: Seq<Event>, e: String)
    requires
        attempts(before) <= u32::MAX,
        forall|i: int|
            0 <= i < before.len() ==> !((#[trigger] before[i]) is SessionOver) && !(
            before[i] is Connected),
    ensures
        Supervisor::fresh().after(before).next(Event::ConnectFailed(e)) == Next::Finish
            <==> attempts(before) >= FIRST_CONNECT_ATTEMPTS,
{
    law_attempts_are_counted(before);
    lemma_never_connected(before);
}

proof fn lemma_never_connected(events: Seq<Event>)
    requires
        forall|i: int| 0 <= i < events.len() ==> !((#[trigger] events[i]) is Connected),
    ensures
        !Supervisor::fresh().after(events).ever_connected,
    decreases events.len(),
{
    if events.len() > 0 {
        lemma_never_connected(events.drop_last());
        assert(!(events[events.len() - 1] is Connected));
    }
}

/// Backoffs since the last healthy session, the one after it counted.
pub open spec fn backoffs(events: Seq<Event>) -> nat
    decreases events.len(),
{
    if events.len() == 0 {
        0
    } else {
        let before = events.drop_last();
        match events.last() {
            Event::ConnectFailed(_) => if Supervisor::fresh().after(before).gives_up() {
                backoffs(before)
            } else {
                backoffs(before) + 1
            },
            Event::SessionOver { exit: PumpExit::SessionDead, lasted_nanos } => if lasted_nanos
                > HEALTHY_NANOS {
                1
            } else {
                backoffs(before) + 1
            },
            _ => backoffs(before),
        }
    }
}

/// `2` to the `n`th.
pub open spec fn power_of_two(n: nat) -> nat
    decreases n,
{
    if n == 0 {
        1
    } else {
        2 * power_of_two((n - 1) as nat)
    }
}

/// The backoff doubles with each wait, from one second up to thirty, and a
/// healthy session starts it over.
pub proof fn law_backoff_doubles(events: Seq<Event>)
    ensures
        Supervisor::fresh().after(events).backoff_secs == (if power_of_two(backoffs(events))
            <= MAX_BACKOFF_SECS {
            power_of_two(backoffs(events))
        } else {
            MAX_BACKOFF_SECS as nat
        }),
        Supervisor::fresh().after(events).wf(),
    decreases events.len(),
{
    reveal_with_fuel(power_of_two, 2);
    if events.len() > 0 {
        law_backoff_doubles(events.drop_last());
        lemma_power_grows(backoffs(events.drop_last()));
    }
}

proof fn lemma_power_grows(n: nat)
    ensures
        power_of_two(n) >= 1,
        power_of_two(n + 1) == 2 * power_of_two(n),
    decreases n,
{
    if n > 0 {
        lemma_power_grows((n - 1) as nat);
    }
}

/// The engine is done exactly when it has told of a terminal status, so the
/// user always hears the last word, and nothing after it.
pub proof fn law_last_word(s: Supervisor, event: Event, name: Seq<char>, address: Seq<char>)
    ensures
        s.next(event) == Next::Finish <==> (s.told(event, name, address) matches Some(st)
            && st.is_terminal()),
{
}

/// A stop is answered with `Stopped`, wherever it meets the engine.
pub proof fn law_stop_is_answered(
    s: Supervisor,
    event: Event,
    name: Seq<char>,
    address: Seq<char>,
)
    ensures
        s.told(event, name, address) == Some(StatusView::Stopped) <==> {
            ||| event == (Event::Ready { stop: true })
            ||| event == Event::Interrupted
            ||| event matches Event::SessionOver { exit, .. } && exit == PumpExit::Stopped
        },
{
}

/// The first attempt is told as `Connecting`; every later one as
/// `Reconnecting`, with a number above one.
pub proof fn law_connecting_is_said_once(before: Seq<Event>, name: Seq<char>, address: Seq<char>)
    requires
        before.len() > 0 ==> before[0] == (Event::Ready { stop: false }),
        attempts(before) < u32::MAX - 1,
    ensures
        ({
            let told = Supervisor::fresh().after(before).told(
                Event::Ready { stop: false },
                name,
                address,
            );
            if before.len() == 0 {
                told == Some(StatusView::Connecting(name))
            } else {
                told matches Some(StatusView::Reconnecting(n, k)) && n == name && k >= 2
            }
        }),
{
    lemma_attempt_range(before);
}

proof fn lemma_attempt_range(events: Seq<Event>)
    requires
        events.len() > 0 ==> events[0] == (Event::Ready { stop: false }),
        attempts(events) < u32::MAX - 1,
    ensures
        ({
            let s = Supervisor::fresh().after(events);
            &&& s.attempt <= attempts(events) + 1
            &&& events.len() > 0 ==> s.attempt >= 1
        }),
    decreases events.len(),
{
    if events.len() > 1 {
        lemma_attempt_range(events.drop_last());
    } else if events.len() == 1 {
        assert(events.drop_last() =~= Seq::empty());
        assert(events.last() == events[0]);
        reveal_with_fuel(Supervisor::after, 2);
        reveal_with_fuel(attempts, 2);
    }
}

} // verus!
