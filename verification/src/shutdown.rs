//! The process-wide shutdown signal.
//!
//! The signal is a queue of wake-ups. Every unit of concurrent work races against one
//! wake-up, and takes it out of the queue when it wins; a shutdown puts a fixed number of
//! wake-ups into the queue. Work beyond that number is not woken.

use vstd::prelude::*;

verus! {

/// `flume::Sender`: the sending end of a channel.
#[verifier::external_type_specification]
#[verifier::external_body]
#[verifier::reject_recursive_types(T)]
pub struct ExSender<T>(flume::Sender<T>);

/// `flume::Receiver`: the receiving end of a channel.
#[verifier::external_type_specification]
#[verifier::external_body]
#[verifier::reject_recursive_types(T)]
pub struct ExReceiver<T>(flume::Receiver<T>);

/// How many wake-ups a shutdown puts into the queue.
pub const WAKE_UPS: usize = 100;

/// The two ends of the queue of wake-ups. The queue has no limit, and it stays connected
/// for as long as the signal lives, since the signal holds both ends.
pub struct ShutdownSignal {
    sender: flume::Sender<()>,
    receiver: flume::Receiver<()>,
}

/// Whether the two values are the two ends of one channel that was made without a limit.
pub uninterp spec fn ends_of_open_channel(
    sender: flume::Sender<()>,
    receiver: flume::Receiver<()>,
) -> bool;

/// `flume::unbounded`: the two ends of one new channel without a limit.
#[verifier::external_body]
fn unbounded() -> (ends: (flume::Sender<()>, flume::Receiver<()>))
    ensures
        ends_of_open_channel(ends.0, ends.1),
{
    flume::unbounded()
}

/// `flume::Sender::send` on the signal's own channel. The call returns an error only when
/// all receivers of the channel have been dropped, and it blocks only on a channel with a
/// limit: here the signal holds a receiver of the channel during the call, and the channel
/// has no limit, so the wake-up is queued.
#[verifier::external_body]
fn send_wake_up(signal: &ShutdownSignal) -> (queued: bool)
    requires
        signal.connected(),
    ensures
        queued,
{
    signal.sender.send(()).is_ok()
}

impl ShutdownSignal {
    /// Whether the signal holds the two ends of one queue without a limit.
    pub closed spec fn connected(&self) -> bool {
        ends_of_open_channel(self.sender, self.receiver)
    }

    /// Every signal holds the two ends of one queue without a limit.
    #[verifier::type_invariant]
    spec fn holds_both_ends(&self) -> bool {
        self.connected()
    }

    /// A new signal: the two ends of a new queue without a limit.
    pub fn new() -> (signal: ShutdownSignal)
        ensures
            signal.connected(),
    {
        let (sender, receiver) = unbounded();
        ShutdownSignal { sender, receiver }
    }

    /// The receiving end of the queue.
    pub closed spec fn receiving_end(&self) -> flume::Receiver<()> {
        self.receiver
    }

    /// The end of the queue that a unit of work waits on.
    pub fn receiver(&self) -> (r: &flume::Receiver<()>)
        ensures
            *r == self.receiving_end(),
    {
        &self.receiver
    }
}

/// Where a shutdown stands: how many wake-ups it has queued, and whether it is done.
#[derive(Clone, Copy, Debug, PartialEq, Eq, Structural)]
pub struct Progress {
    pub queued: usize,
    pub done: bool,
}

/// Where a shutdown stands after it has offered one more wake-up to the queue: it gives
/// up when the queue does not take the wake-up, and it is done when `WAKE_UPS` are queued.
pub open spec fn progress_after(queued: usize, taken: bool) -> Progress {
    if !taken {
        Progress { queued, done: true }
    } else if queued + 1 >= WAKE_UPS {
        Progress { queued: WAKE_UPS, done: true }
    } else {
        Progress { queued: (queued + 1) as usize, done: false }
    }
}

/// Where a shutdown stands after it has offered one more wake-up to the queue.
pub fn after_wake_up(queued: usize, taken: bool) -> (r: Progress)
    ensures
        r == progress_after(queued, taken),
{
    if !taken {
        Progress { queued, done: true }
    } else if queued >= WAKE_UPS - 1 {
        Progress { queued: WAKE_UPS, done: true }
    } else {
        Progress { queued: queued + 1, done: false }
    }
}

/// Asks every unit of work that races against `signal` to stop: puts `WAKE_UPS` wake-ups
/// into the queue, one by one. The queue takes each of them, since the signal keeps it
/// connected. Returns how many were queued.
pub fn shutdown(signal: &ShutdownSignal) -> (queued: usize)
    ensures
        queued == WAKE_UPS,
{
    proof {
        use_type_invariant(signal);
    }
    let mut progress = Progress { queued: 0, done: false };
    while !progress.done
        invariant
            signal.connected(),
            progress.queued <= WAKE_UPS,
            progress.done <==> progress.queued == WAKE_UPS,
        decreases WAKE_UPS - progress.queued,
    {
        progress = after_wake_up(progress.queued, send_wake_up(signal));
    }
    progress.queued
}

} // verus!
