use vstd::prelude::*;
use crossbeam_channel::{Receiver, Sender};

verus! {

/// crossbeam-channel's sending half, carried through unchanged.
#[verifier::external_type_specification]
#[verifier::external_body]
#[verifier::reject_recursive_types(T)]
pub struct ExSender<T>(crossbeam_channel::Sender<T>);

/// crossbeam-channel's receiving half, carried through unchanged.
#[verifier::external_type_specification]
#[verifier::external_body]
#[verifier::reject_recursive_types(T)]
pub struct ExReceiver<T>(crossbeam_channel::Receiver<T>);

/// Relies on `crossbeam_channel::bounded(0)`: a fresh rendezvous channel; it
/// never panics for capacity zero.
#[verifier::external_body]
fn new_wait_channel() -> (Sender<()>, Receiver<()>) {
    crossbeam_channel::bounded(0)
}

/// Relies on `Receiver::clone`: another receiver of the same channel.
#[verifier::external_body]
fn clone_receiver(r: &Receiver<()>) -> Receiver<()> {
    r.clone()
}

/// The state of a dependency node, to be held under the node's lock.
///
/// Waiters receive on the channel in `waiter`; completing the node drops
/// the channel's only sender, which disconnects it and so wakes every
/// receiver, late ones included.
pub struct DepChainV {
    pub completed: bool,
    pub waiter: Option<(Sender<()>, Receiver<()>)>,
}

/// Whether a node has completed, with a channel to wait on when it has not
/// and one was asked for.
pub struct CompleteTestResult {
    pub completed: bool,
    pub wait_chan: Option<Receiver<()>>,
}

impl DepChainV {
    /// A node that has not completed, with no channel yet.
    pub fn new() -> (r: DepChainV)
        ensures
            !r.completed,
            r.waiter is None,
    {
        DepChainV { completed: false, waiter: None }
    }

    /// The wait channel, created on first use.
    pub fn get_channel_locked(&mut self) -> (r: Receiver<()>)
        ensures
            final(self).completed == old(self).completed,
            final(self).waiter is Some,
            old(self).waiter is Some ==> final(self).waiter == old(self).waiter,
    {
        match &self.waiter {
            Some(w) => clone_receiver(&w.1),
            None => {
                let w = new_wait_channel();
                let r = clone_receiver(&w.1);
                self.waiter = Some(w);
                r
            },
        }
    }

    /// Tests for completion; when the node has not completed and
    /// `get_channel` is set, hands out a receiver of its wait channel.
    pub fn is_completed_locked(&mut self, get_channel: bool) -> (r: CompleteTestResult)
        ensures
            r.completed == old(self).completed,
            r.wait_chan is Some == (!old(self).completed && get_channel),
            final(self).completed == old(self).completed,
            r.wait_chan is Some ==> final(self).waiter is Some,
            r.wait_chan is None ==> final(self).waiter == old(self).waiter,
    {
        if self.completed {
            CompleteTestResult { completed: true, wait_chan: None }
        } else if get_channel {
            let chan = self.get_channel_locked();
            CompleteTestResult { completed: false, wait_chan: Some(chan) }
        } else {
            CompleteTestResult { completed: false, wait_chan: None }
        }
    }

    /// Marks the node completed and closes its wait channel: every receiver,
    /// present or later, observes readiness.
    pub fn notify_complete_locked(&mut self)
        ensures
            final(self).completed,
            final(self).waiter is None,
    {
        self.completed = true;
        self.waiter = None;
    }
}

} // verus!
