//! The rig: everything outside that a session runs on, with a journal of what
//! was done with it.

use crate::capture::{look_into, looked, receive_from, received, Glance, Reception};
use crate::clock::{age_of, present, showed, was_now};
use crate::pcm::{CapturedFrame, LivePcmFrame};
use crate::pump::PumpNote;
use crossbeam_channel::Receiver;
use std::time::Instant;
use vstd::prelude::*;

verus! {

/// One thing that was done with the world outside, and what came of it.
#[derive(Debug)]
pub enum Deed {
    /// The stop flag was read.
    StopRead(bool),
    /// The dead flag was read.
    DeadRead(bool),
    /// The clock was asked for its present point.
    Began(Instant),
    /// The clock was asked how long ago a point was.
    Aged { since: Instant, nanos: u64 },
    /// The capture channel was waited on.
    Waited { wait_ms: u64, reception: Reception },
    /// The capture channel was looked into.
    Looked(Glance),
    /// A chunk was handed to the sender, which took it or not.
    Sent { frame: LivePcmFrame, taken: bool },
    /// Real audio was told of, with the session's age in milliseconds.
    Heard(u64),
    /// Something was written to the log.
    Noted(PumpNote),
}

/// The capture channel, the clock, the two flags, the sender, the listener for
/// real audio and the log, in one hand, and a journal of everything that was
/// done with them, in order. The journal is there for contracts alone.
pub struct Rig<
    A: Fn() -> bool,
    B: Fn() -> bool,
    S: Fn(LivePcmFrame) -> bool,
    H: Fn(u64),
    L: Fn(PumpNote),
> {
    rx: Receiver<CapturedFrame>,
    stop: A,
    dead: B,
    send: S,
    heard: H,
    note: L,
    journal: Ghost<Seq<Deed>>,
}

impl<
    A: Fn() -> bool,
    B: Fn() -> bool,
    S: Fn(LivePcmFrame) -> bool,
    H: Fn(u64),
    L: Fn(PumpNote),
> Rig<A, B, S, H, L> {
    /// The capture channel.
    pub closed spec fn channel(self) -> Receiver<CapturedFrame> {
        self.rx
    }

    /// Reads the stop flag.
    pub closed spec fn stop(self) -> A {
        self.stop
    }

    /// Reads the dead flag.
    pub closed spec fn dead(self) -> B {
        self.dead
    }

    /// Hands a chunk to the sender, and says whether it was taken.
    pub closed spec fn send(self) -> S {
        self.send
    }

    /// Is told of real audio.
    pub closed spec fn heard(self) -> H {
        self.heard
    }

    /// Writes to the log.
    pub closed spec fn note(self) -> L {
        self.note
    }

    /// What was done so far, in order.
    pub closed spec fn journal(self) -> Seq<Deed> {
        self.journal@
    }

    /// The deed is one that this rig can have done: its outcome is what the
    /// function, the channel or the clock gave.
    pub open spec fn did(self, deed: Deed) -> bool {
        match deed {
            Deed::StopRead(up) => call_ensures(self.stop(), (), up),
            Deed::DeadRead(up) => call_ensures(self.dead(), (), up),
            Deed::Began(at) => was_now(at),
            Deed::Aged { since, nanos } => showed(since, nanos),
            Deed::Waited { wait_ms, reception } => received(self.channel(), wait_ms, reception),
            Deed::Looked(glance) => looked(self.channel(), glance),
            Deed::Sent { frame, taken } => call_ensures(self.send(), (frame,), taken),
            Deed::Heard(ms) => call_ensures(self.heard(), (ms,), ()),
            Deed::Noted(note) => call_ensures(self.note(), (note,), ()),
        }
    }

    /// The functions can be called, and the journal is genuine: every deed in it
    /// is one that the rig did.
    pub open spec fn wf(self) -> bool {
        &&& call_requires(self.stop(), ())
        &&& call_requires(self.dead(), ())
        &&& forall|frame: LivePcmFrame| call_requires(self.send(), (frame,))
        &&& forall|ms: u64| call_requires(self.heard(), (ms,))
        &&& forall|note: PumpNote| call_requires(self.note(), (note,))
        &&& forall|i: int| 0 <= i < self.journal().len() ==> self.did(#[trigger] self.journal()[i])
    }

    /// The rig is the one that it was before, and did these deeds since, in this
    /// order, and no others.
    pub open spec fn has_done(self, before: Self, deeds: Seq<Deed>) -> bool {
        &&& self.channel() == before.channel()
        &&& self.stop() == before.stop()
        &&& self.dead() == before.dead()
        &&& self.send() == before.send()
        &&& self.heard() == before.heard()
        &&& self.note() == before.note()
        &&& self.journal() == before.journal() + deeds
    }

    /// A rig that has done nothing.
    pub fn new(rx: Receiver<CapturedFrame>, stop: A, dead: B, send: S, heard: H, note: L) -> (r:
        Self)
        requires
            call_requires(stop, ()),
            call_requires(dead, ()),
            forall|frame: LivePcmFrame| call_requires(send, (frame,)),
            forall|ms: u64| call_requires(heard, (ms,)),
            forall|n: PumpNote| call_requires(note, (n,)),
        ensures
            r.wf(),
            r.channel() == rx,
            r.stop() == stop,
            r.dead() == dead,
            r.send() == send,
            r.heard() == heard,
            r.note() == note,
            r.journal() == Seq::<Deed>::empty(),
    {
        Rig { rx, stop, dead, send, heard, note, journal: Ghost(Seq::empty()) }
    }

    /// One more deed that the rig did keeps the journal genuine.
    proof fn lemma_entered(self, before: Self, deed: Deed)
        requires
            before.wf(),
            self.has_done(before, seq![deed]),
            self.did(deed),
        ensures
            self.wf(),
    {
        assert forall|i: int| 0 <= i < self.journal().len() implies self.did(
            #[trigger] self.journal()[i],
        ) by {
            if i < before.journal().len() {
                assert(self.journal()[i] == before.journal()[i]);
            }
        }
    }

    /// Reads the stop flag.
    pub fn read_stop(&mut self) -> (up: bool)
        requires
            old(self).wf(),
        ensures
            final(self).wf(),
            final(self).has_done(*old(self), seq![Deed::StopRead(up)]),
    {
        let up: bool = (self.stop)();
        self.journal = Ghost(self.journal@ + seq![Deed::StopRead(up)]);
        proof {
            self.lemma_entered(*old(self), Deed::StopRead(up));
        }
        up
    }

    /// Reads the dead flag.
    pub fn read_dead(&mut self) -> (up: bool)
        requires
            old(self).wf(),
        ensures
            final(self).wf(),
            final(self).has_done(*old(self), seq![Deed::DeadRead(up)]),
    {
        let up: bool = (self.dead)();
        self.journal = Ghost(self.journal@ + seq![Deed::DeadRead(up)]);
        proof {
            self.lemma_entered(*old(self), Deed::DeadRead(up));
        }
        up
    }

    /// The present point on the clock.
    pub fn begin(&mut self) -> (at: Instant)
        requires
            old(self).wf(),
        ensures
            final(self).wf(),
            final(self).has_done(*old(self), seq![Deed::Began(at)]),
    {
        let at: Instant = present();
        self.journal = Ghost(self.journal@ + seq![Deed::Began(at)]);
        proof {
            self.lemma_entered(*old(self), Deed::Began(at));
        }
        at
    }

    /// Nanoseconds since `since`, by the clock.
    pub fn age(&mut self, since: &Instant) -> (nanos: u64)
        requires
            old(self).wf(),
        ensures
            final(self).wf(),
            final(self).has_done(*old(self), seq![Deed::Aged { since: *since, nanos }]),
    {
        let nanos: u64 = age_of(since);
        self.journal = Ghost(self.journal@ + seq![Deed::Aged { since: *since, nanos }]);
        proof {
            self.lemma_entered(*old(self), Deed::Aged { since: *since, nanos });
        }
        nanos
    }

    /// Waits up to `wait_ms` milliseconds for the next captured chunk.
    pub fn wait(&mut self, wait_ms: u64) -> (reception: Reception)
        requires
            old(self).wf(),
        ensures
            final(self).wf(),
            final(self).has_done(*old(self), seq![Deed::Waited { wait_ms, reception }]),
    {
        let reception: Reception = receive_from(&self.rx, wait_ms);
        self.journal = Ghost(self.journal@ + seq![Deed::Waited { wait_ms, reception }]);
        proof {
            self.lemma_entered(*old(self), Deed::Waited { wait_ms, reception });
        }
        reception
    }

    /// Takes the next captured chunk, if one is there now.
    pub fn look(&mut self) -> (glance: Glance)
        requires
            old(self).wf(),
        ensures
            final(self).wf(),
            final(self).has_done(*old(self), seq![Deed::Looked(glance)]),
    {
        let glance: Glance = look_into(&self.rx);
        self.journal = Ghost(self.journal@ + seq![Deed::Looked(glance)]);
        proof {
            self.lemma_entered(*old(self), Deed::Looked(glance));
        }
        glance
    }

    /// Hands a chunk to the sender.
    pub fn hand_over(&mut self, frame: LivePcmFrame) -> (taken: bool)
        requires
            old(self).wf(),
        ensures
            final(self).wf(),
            final(self).has_done(*old(self), seq![Deed::Sent { frame, taken }]),
    {
        let ghost handed = frame;
        assert(call_requires(self.send(), (frame,)));
        let taken: bool = (self.send)(frame);
        self.journal = Ghost(self.journal@ + seq![Deed::Sent { frame: handed, taken }]);
        proof {
            self.lemma_entered(*old(self), Deed::Sent { frame: handed, taken });
        }
        taken
    }

    /// Tells of real audio, at `ms` milliseconds of session time.
    pub fn tell_heard(&mut self, ms: u64)
        requires
            old(self).wf(),
        ensures
            final(self).wf(),
            final(self).has_done(*old(self), seq![Deed::Heard(ms)]),
    {
        assert(call_requires(self.heard(), (ms,)));
        (self.heard)(ms);
        self.journal = Ghost(self.journal@ + seq![Deed::Heard(ms)]);
        proof {
            self.lemma_entered(*old(self), Deed::Heard(ms));
        }
    }

    /// Writes to the log.
    pub fn write_note(&mut self, note: PumpNote)
        requires
            old(self).wf(),
        ensures
            final(self).wf(),
            final(self).has_done(*old(self), seq![Deed::Noted(note)]),
    {
        assert(call_requires(self.note(), (note,)));
        (self.note)(note);
        self.journal = Ghost(self.journal@ + seq![Deed::Noted(note)]);
        proof {
            self.lemma_entered(*old(self), Deed::Noted(note));
        }
    }
}

} // verus!
