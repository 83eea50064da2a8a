//! Primitive building blocks of channel signalling between threads.
//!
//! Signals travel over bounded standard-library channels. The two calls into
//! `std::sync::mpsc` stand behind trusted declarations; everything the
//! library concludes from an outcome is verified against them.

use vstd::prelude::*;

use crate::error::Error;
use core::time::Duration;
use std::sync::mpsc;

verus! {

/// The sending half of a bounded standard-library channel, opaque to the
/// verifier.
#[verifier::external_type_specification]
#[verifier::external_body]
#[verifier::reject_recursive_types(T)]
pub struct ExSyncSender<T>(std::sync::mpsc::SyncSender<T>);

/// The receiving half of a bounded standard-library channel, opaque to the
/// verifier.
#[verifier::external_type_specification]
#[verifier::external_body]
#[verifier::reject_recursive_types(T)]
pub struct ExReceiver<T>(std::sync::mpsc::Receiver<T>);

/// How big the bounded channels are.
pub const MPSC_CHANNEL_BOUND: usize = 128;

/// What one receive attempt yielded.
pub enum RecvOutcome<T> {
    /// A value arrived.
    Received(T),
    /// Nothing arrived within the timeout.
    TimedOut,
    /// Every sender is gone; nothing will ever arrive.
    Closed,
}

/// Relies on `std::sync::mpsc::sync_channel`: a connected sender/receiver
/// pair with the given bound. Which values later travel through it depends
/// on the threads using it, so nothing more is promised.
#[verifier::external_body]
fn mpsc_sync_channel<T>(bound: usize) -> (mpsc::SyncSender<T>, mpsc::Receiver<T>) {
    mpsc::sync_channel(bound)
}

/// Relies on `std::sync::mpsc::Receiver::recv_timeout`: yields a value some
/// sender sent, reports a timeout, or reports the channel closed. Which of
/// the three happens depends on the sending threads, so nothing more is
/// promised.
#[verifier::external_body]
fn mpsc_recv_timeout<T>(receiver: &mpsc::Receiver<T>, timeout: Duration) -> RecvOutcome<T> {
    match receiver.recv_timeout(timeout) {
        Ok(v) => RecvOutcome::Received(v),
        Err(mpsc::RecvTimeoutError::Timeout) => RecvOutcome::TimedOut,
        Err(mpsc::RecvTimeoutError::Disconnected) => RecvOutcome::Closed,
    }
}

/// Relies on `std::sync::mpsc::SyncSender::send`: hands the value to the
/// channel, blocking while the channel is full; reports `false` exactly when
/// the receiver is gone and the value was returned. Whether the receiver
/// lives depends on the other thread, so nothing more is promised. The value
/// is consumed either way.
#[verifier::external_body]
fn mpsc_send<T>(sender: &mpsc::SyncSender<T>, t: T) -> bool {
    match sender.send(t) {
        Ok(()) => true,
        Err(mpsc::SendError(_)) => false,
    }
}

/// What a receive attempt means for the caller: a value, silence within the
/// timeout, or the channel-closed error.
pub fn map_recv_outcome<T>(outcome: RecvOutcome<T>) -> (r: Result<Option<T>, Error>)
    ensures
        match outcome {
            RecvOutcome::Received(v) => r matches Ok(o) && o matches Some(w) && w == v,
            RecvOutcome::TimedOut => r matches Ok(o) && o is None,
            RecvOutcome::Closed => r matches Err(e) && e matches Error::Channel(_),
        },
{
    match outcome {
        RecvOutcome::Received(v) => Ok(Some(v)),
        RecvOutcome::TimedOut => Ok(None),
        RecvOutcome::Closed => Err(Error::Channel("channel closed")),
    }
}

/// The receiving half of a signalling channel.
#[verifier::reject_recursive_types(T)]
pub struct Receiver<T> {
    /// The wrapped standard-library receiver.
    pub(crate) receiver: mpsc::Receiver<T>,
}

impl<T> Receiver<T> {
    /// Wrap a standard-library receiver.
    pub(crate) fn new(receiver: mpsc::Receiver<T>) -> Receiver<T> {
        Receiver { receiver }
    }

    /// Wait up to `timeout` for a value: a value that a sender sent, `None`
    /// on timeout, or the channel error when every sender is gone.
    pub fn receive(&mut self, timeout: Duration) -> (r: Result<Option<T>, Error>)
        ensures
            r matches Err(e) ==> e matches Error::Channel(_),
    {
        let outcome = mpsc_recv_timeout(&self.receiver, timeout);
        map_recv_outcome(outcome)
    }
}

/// The sending half of a signalling channel.
#[verifier::reject_recursive_types(T)]
pub struct Sender<T> {
    /// The wrapped standard-library sender.
    pub(crate) sender: mpsc::SyncSender<T>,
}

impl<T> Sender<T> {
    /// Wrap a standard-library sender.
    pub(crate) fn new(sender: mpsc::SyncSender<T>) -> Sender<T> {
        Sender { sender }
    }

    /// Hand a value to the channel, blocking while it is full: `Ok` when the
    /// value was queued, the channel error when the receiver is gone.
    pub fn send(&mut self, t: T) -> (r: Result<(), Error>)
        ensures
            r matches Err(e) ==> e matches Error::Channel(_),
    {
        let ok = mpsc_send(&self.sender, t);
        if ok {
            Ok(())
        } else {
            Err(Error::Channel("channel closed"))
        }
    }
}

/// A connected, bounded signalling channel.
pub fn channel<T>() -> (Sender<T>, Receiver<T>) {
    let (mpsc_sender, mpsc_receiver) = mpsc_sync_channel(MPSC_CHANNEL_BOUND);
    let sender = Sender::new(mpsc_sender);
    let receiver = Receiver::new(mpsc_receiver);
    (sender, receiver)
}

} // verus!
