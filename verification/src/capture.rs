//! The capture side of a session: the channel that captured audio arrives on.

use crate::clock::{age_of, present, showed, was_now};
use crate::pcm::CapturedFrame;
use crate::rig::Deed;
use crossbeam_channel::Receiver;
use std::time::{Duration, Instant};
use vstd::prelude::*;

verus! {

/// The receiving half of a channel. Other threads fill it and drain it, so
/// nothing is known of what it holds.
#[verifier::external_type_specification]
#[verifier::external_body]
#[verifier::reject_recursive_types(T)]
pub struct ExReceiver<T>(Receiver<T>);

/// What came of waiting for the capture.
#[derive(Debug)]
pub enum Reception {
    /// A captured chunk.
    Frame(CapturedFrame),
    /// Nothing arrived in time.
    Timeout,
    /// The channel is empty and every sender is gone.
    Disconnected,
}

/// What came of one look into the channel.
#[derive(Debug)]
pub enum Glance {
    Frame(CapturedFrame),
    Empty,
    Disconnected,
}

/// `Receiver::recv_timeout`: waits up to `wait_ms` milliseconds. Which of the
/// three outcomes it is depends on the sending thread and the clock, so nothing
/// is claimed of it.
#[verifier::external_body]
pub(crate) fn recv_timeout(rx: &Receiver<CapturedFrame>, wait_ms: u64) -> (r: Reception) {
    match rx.recv_timeout(Duration::from_millis(wait_ms)) {
        Ok(frame) => Reception::Frame(frame),
        Err(crossbeam_channel::RecvTimeoutError::Timeout) => Reception::Timeout,
        Err(crossbeam_channel::RecvTimeoutError::Disconnected) => Reception::Disconnected,
    }
}

/// `Receiver::try_recv`: takes the next chunk if one is there now. Which of the
/// three outcomes it is depends on the sending thread, so nothing is claimed
/// of it.
#[verifier::external_body]
pub(crate) fn try_recv(rx: &Receiver<CapturedFrame>) -> (r: Glance) {
    match rx.try_recv() {
        Ok(frame) => Glance::Frame(frame),
        Err(crossbeam_channel::TryRecvError::Empty) => Glance::Empty,
        Err(crossbeam_channel::TryRecvError::Disconnected) => Glance::Disconnected,
    }
}

/// Waiting `wait_ms` milliseconds on the channel gave this.
pub closed spec fn received(channel: Receiver<CapturedFrame>, wait_ms: u64, r: Reception) -> bool {
    call_ensures(recv_timeout, (&channel, wait_ms), r)
}

/// A look into the channel found this.
pub closed spec fn looked(channel: Receiver<CapturedFrame>, r: Glance) -> bool {
    call_ensures(try_recv, (&channel,), r)
}

fn reception_from<F: Fn(&Receiver<CapturedFrame>, u64) -> Reception>(
    wait: F,
    rx: &Receiver<CapturedFrame>,
    wait_ms: u64,
) -> (r: Reception)
    requires
        call_requires(wait, (rx, wait_ms)),
    ensures
        call_ensures(wait, (rx, wait_ms), r),
{
    wait(rx, wait_ms)
}

fn glance_from<F: Fn(&Receiver<CapturedFrame>) -> Glance>(
    look: F,
    rx: &Receiver<CapturedFrame>,
) -> (r: Glance)
    requires
        call_requires(look, (rx,)),
    ensures
        call_ensures(look, (rx,), r),
{
    look(rx)
}

/// Waits up to `wait_ms` milliseconds for the next chunk.
pub(crate) fn receive_from(rx: &Receiver<CapturedFrame>, wait_ms: u64) -> (r: Reception)
    ensures
        received(*rx, wait_ms, r),
{
    reception_from(recv_timeout, rx, wait_ms)
}

/// Takes the next chunk, if one is there now.
pub(crate) fn look_into(rx: &Receiver<CapturedFrame>) -> (r: Glance)
    ensures
        looked(*rx, r),
{
    glance_from(try_recv, rx)
}

/// The capture channel and the clock, and a journal of how they were read, in
/// order. The journal is there for contracts alone.
pub struct Probe {
    rx: Receiver<CapturedFrame>,
    journal: Ghost<Seq<Deed>>,
}

impl Probe {
    /// The channel.
    pub closed spec fn channel(self) -> Receiver<CapturedFrame> {
        self.rx
    }

    /// What was read so far, in order.
    pub closed spec fn journal(self) -> Seq<Deed> {
        self.journal@
    }

    /// The deed is one that this probe can have done: its outcome is what the
    /// channel or the clock gave.
    pub open spec fn did(self, deed: Deed) -> bool {
        match deed {
            Deed::Began(at) => was_now(at),
            Deed::Aged { since, nanos } => showed(since, nanos),
            Deed::Waited { wait_ms, reception } => received(self.channel(), wait_ms, reception),
            _ => false,
        }
    }

    /// The journal is genuine: every deed in it is one that the probe did.
    pub open spec fn wf(self) -> bool {
        forall|i: int| 0 <= i < self.journal().len() ==> self.did(#[trigger] self.journal()[i])
    }

    /// The probe is the one that it was before, and did these deeds since, in
    /// this order, and no others.
    pub open spec fn has_done(self, before: Probe, deeds: Seq<Deed>) -> bool {
        &&& self.channel() == before.channel()
        &&& self.journal() == before.journal() + deeds
    }

    /// A probe that has read nothing.
    pub fn new(rx: Receiver<CapturedFrame>) -> (r: Probe)
        ensures
            r.wf(),
            r.channel() == rx,
            r.journal() == Seq::<Deed>::empty(),
    {
        Probe { rx, journal: Ghost(Seq::empty()) }
    }

    /// One more deed that the probe did keeps the journal genuine.
    proof fn lemma_entered(self, before: Probe, deed: Deed)
        requires
            before.wf(),
            self.has_done(before, seq![deed]),
            self.did(deed),
        ensures
            self.wf(),
    {
        assert forall|i: int| 0 <= i < self.journal().len() implies self.did(
            #[trigger] self.journal()[i],
        ) by {
            if i < before.journal().len() {
                assert(self.journal()[i] == before.journal()[i]);
            }
        }
    }

    /// The present point on the clock.
    pub fn begin(&mut self) -> (at: Instant)
        requires
            old(self).wf(),
        ensures
            final(self).wf(),
            final(self).has_done(*old(self), seq![Deed::Began(at)]),
    {
        let at: Instant = present();
        self.journal = Ghost(self.journal@ + seq![Deed::Began(at)]);
        proof {
            self.lemma_entered(*old(self), Deed::Began(at));
        }
        at
    }

    /// Nanoseconds since `since`, by the clock.
    pub fn age(&mut self, since: &Instant) -> (nanos: u64)
        requires
            old(self).wf(),
        ensures
            final(self).wf(),
            final(self).has_done(*old(self), seq![Deed::Aged { since: *since, nanos }]),
    {
        let nanos: u64 = age_of(since);
        self.journal = Ghost(self.journal@ + seq![Deed::Aged { since: *since, nanos }]);
        proof {
            self.lemma_entered(*old(self), Deed::Aged { since: *since, nanos });
        }
        nanos
    }

    /// Waits up to `wait_ms` milliseconds for the next captured chunk.
    pub fn wait(&mut self, wait_ms: u64) -> (reception: Reception)
        requires
            old(self).wf(),
        ensures
            final(self).wf(),
            final(self).has_done(*old(self), seq![Deed::Waited { wait_ms, reception }]),
    {
        let reception: Reception = receive_from(&self.rx, wait_ms);
        self.journal = Ghost(self.journal@ + seq![Deed::Waited { wait_ms, reception }]);
        proof {
            self.lemma_entered(*old(self), Deed::Waited { wait_ms, reception });
        }
        reception
    }
}

/// What the channel gave is what a wait of that many milliseconds, or a look, gave
/// on that very channel.
pub(crate) proof fn law_channel_is_read_as_asked(
    channel: Receiver<CapturedFrame>,
    wait_ms: u64,
    reception: Reception,
    glance: Glance,
)
    ensures
        received(channel, wait_ms, reception) <==> call_ensures(
            recv_timeout,
            (&channel, wait_ms),
            reception,
        ),
        looked(channel, glance) <==> call_ensures(try_recv, (&channel,), glance),
{
}

} // verus!
