//! The client's link policy: when to connect, send, wait and stop.
//!
//! The network task runs a loop: it performs the command it holds, reports
//! the outcome as an event, and gets the next command. A packet whose send
//! fails is lost, never sent again; the link is reconnected once, and while
//! it is down no packet is taken off the outgoing queue, so packets queued
//! meanwhile wait there in order.
use vstd::prelude::*;

verus! {

/// How many packets may wait between the capture loop and the network task
/// before the capture loop has to wait.
pub const QUEUE_CAPACITY: usize = 1000;

/// The pause after a failed reconnect, in milliseconds.
pub const RECONNECT_DELAY_MS: u64 = 1000;

/// Where the link stands.
#[derive(Debug, Clone, Copy, PartialEq, Eq, Structural)]
pub enum LinkPhase {
    /// The first connection is being made.
    Connecting,
    /// Connected: packets are taken off the queue and sent.
    Ready,
    /// A send failed: the link is being made again.
    Reconnecting,
    /// A reconnect failed: pausing before the next one.
    Waiting,
    /// Done, for good.
    Stopped,
}

/// The outcome of the last command.
#[derive(Debug, Clone, Copy, PartialEq, Eq, Structural)]
pub enum LinkEvent {
    Connected,
    ConnectFailed,
    Sent,
    SendFailed,
    WaitElapsed,
    /// The queue has been closed by its producer.
    QueueClosed,
}

/// What the network task does next.
#[derive(Debug, Clone, Copy, PartialEq, Eq, Structural)]
pub enum LinkCommand {
    /// Open the connection.
    Connect,
    /// Take the next packet off the queue and send it, flushing at once.
    SendNext,
    /// Pause this long, in milliseconds.
    Wait { millis: u64 },
    /// End the task.
    Stop,
}

/// The command that goes with a phase.
pub open spec fn command_for(phase: LinkPhase) -> LinkCommand {
    match phase {
        LinkPhase::Connecting => LinkCommand::Connect,
        LinkPhase::Ready => LinkCommand::SendNext,
        LinkPhase::Reconnecting => LinkCommand::Connect,
        LinkPhase::Waiting => LinkCommand::Wait { millis: RECONNECT_DELAY_MS },
        LinkPhase::Stopped => LinkCommand::Stop,
    }
}

/// The phase after `event` in `phase`. A failed first connection stops the
/// link; a failed send leads to one reconnect; a failed reconnect to a pause
/// and then another reconnect. An event that does not belong to the phase
/// leaves it as it is.
pub open spec fn next_phase(phase: LinkPhase, event: LinkEvent) -> LinkPhase {
    if event == LinkEvent::QueueClosed || phase == LinkPhase::Stopped {
        LinkPhase::Stopped
    } else {
        match (phase, event) {
            (LinkPhase::Connecting, LinkEvent::Connected) => LinkPhase::Ready,
            (LinkPhase::Connecting, LinkEvent::ConnectFailed) => LinkPhase::Stopped,
            (LinkPhase::Ready, LinkEvent::SendFailed) => LinkPhase::Reconnecting,
            (LinkPhase::Reconnecting, LinkEvent::Connected) => LinkPhase::Ready,
            (LinkPhase::Reconnecting, LinkEvent::ConnectFailed) => LinkPhase::Waiting,
            (LinkPhase::Waiting, LinkEvent::WaitElapsed) => LinkPhase::Reconnecting,
            _ => phase,
        }
    }
}

/// The link policy of the client's network task.
pub struct LinkPolicy {
    phase: LinkPhase,
}

impl LinkPolicy {
    pub closed spec fn spec_phase(self) -> LinkPhase {
        self.phase
    }

    /// A link that has not connected yet; its first command is
    /// [`LinkCommand::Connect`].
    pub fn new() -> (r: LinkPolicy)
        ensures
            r.spec_phase() == LinkPhase::Connecting,
    {
        LinkPolicy { phase: LinkPhase::Connecting }
    }

    pub fn phase(&self) -> (r: LinkPhase)
        ensures
            r == self.spec_phase(),
    {
        self.phase
    }

    /// The command for the current phase.
    pub fn command(&self) -> (r: LinkCommand)
        ensures
            r == command_for(self.spec_phase()),
    {
        match self.phase {
            LinkPhase::Connecting => LinkCommand::Connect,
            LinkPhase::Ready => LinkCommand::SendNext,
            LinkPhase::Reconnecting => LinkCommand::Connect,
            LinkPhase::Waiting => LinkCommand::Wait { millis: RECONNECT_DELAY_MS },
            LinkPhase::Stopped => LinkCommand::Stop,
        }
    }

    /// Takes in the outcome of the last command and returns the next one.
    /// Packets are taken off the queue only when connected; after a failed
    /// send the next command is a reconnect, never a send of that packet.
    pub fn step(&mut self, event: LinkEvent) -> (r: LinkCommand)
        ensures
            final(self).spec_phase() == next_phase(old(self).spec_phase(), event),
            r == command_for(final(self).spec_phase()),
            r == LinkCommand::SendNext <==> final(self).spec_phase() == LinkPhase::Ready,
            old(self).spec_phase() == LinkPhase::Ready && event == LinkEvent::SendFailed ==> r
                == LinkCommand::Connect,
    {
        let next = if event == LinkEvent::QueueClosed || self.phase == LinkPhase::Stopped {
            LinkPhase::Stopped
        } else {
            match (self.phase, event) {
                (LinkPhase::Connecting, LinkEvent::Connected) => LinkPhase::Ready,
                (LinkPhase::Connecting, LinkEvent::ConnectFailed) => LinkPhase::Stopped,
                (LinkPhase::Ready, LinkEvent::SendFailed) => LinkPhase::Reconnecting,
                (LinkPhase::Reconnecting, LinkEvent::Connected) => LinkPhase::Ready,
                (LinkPhase::Reconnecting, LinkEvent::ConnectFailed) => LinkPhase::Waiting,
                (LinkPhase::Waiting, LinkEvent::WaitElapsed) => LinkPhase::Reconnecting,
                _ => self.phase,
            }
        };
        self.phase = next;
        self.command()
    }
}

} // verus!
