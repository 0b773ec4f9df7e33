//! The connectivity supervisor's decisions: bringing the wireless link
//! up, acquiring an address, connecting the socket, and keeping the
//! association alive. The waiting, polling and radio calls happen
//! outside the library; each poll result or outcome comes back here as
//! an event, and the next state and action are decided exactly.

use vstd::prelude::*;

verus! {

/// How long to sleep between polls of the link or address state, in
/// milliseconds.
pub const POLL_INTERVAL_MS: u64 = 500;

/// How long to cool down after a disassociation before re-associating,
/// in milliseconds.
pub const COOLDOWN_MS: u64 = 5000;

/// How long to wait before retrying a failed association, in
/// milliseconds.
pub const RETRY_DELAY_MS: u64 = 5000;

/// The state of the external network path, independent of and
/// prerequisite to any session.
#[derive(Clone, Copy, Debug, PartialEq, Eq, Structural)]
pub enum LinkState {
    LinkDown,
    LinkUp,
    AddressAcquired,
    SocketConnected,
    Disconnected,
}

/// What the outside world reports to the supervisor.
#[derive(Clone, Copy, Debug, PartialEq, Eq, Structural)]
pub enum LinkEvent {
    /// A poll of the link: is it up?
    LinkPoll(bool),
    /// A poll for an assigned address: is one present?
    AddressPoll(bool),
    /// The outcome of a socket connect attempt.
    ConnectResult(bool),
    /// The station disassociated.
    LinkLost,
}

/// What the caller does next.
#[derive(Clone, Copy, Debug, PartialEq, Eq, Structural)]
pub enum LinkAction {
    /// Sleep one poll interval, then poll again.
    WaitPoll,
    /// Poll for an assigned address.
    PollAddress,
    /// Attempt the socket connect to the configured endpoint.
    TryConnect,
    /// Hand the connected socket to the session driver.
    HandOff,
    /// Report a connectivity error upward; the supervisor does not
    /// itself retry the socket connect.
    ReportError,
    /// The event does not apply in this state; nothing to do.
    Ignore,
}

/// The bring-up state machine: `LinkDown → LinkUp → AddressAcquired →
/// SocketConnected`, with `Disconnected` reachable from every state.
pub open spec fn supervise_transition(s: LinkState, e: LinkEvent) -> (LinkState, LinkAction) {
    match (s, e) {
        (LinkState::LinkDown, LinkEvent::LinkPoll(true)) => (
            LinkState::LinkUp,
            LinkAction::PollAddress,
        ),
        (LinkState::LinkDown, LinkEvent::LinkPoll(false)) => (
            LinkState::LinkDown,
            LinkAction::WaitPoll,
        ),
        (LinkState::LinkUp, LinkEvent::AddressPoll(true)) => (
            LinkState::AddressAcquired,
            LinkAction::TryConnect,
        ),
        (LinkState::LinkUp, LinkEvent::AddressPoll(false)) => (
            LinkState::LinkUp,
            LinkAction::WaitPoll,
        ),
        (LinkState::AddressAcquired, LinkEvent::ConnectResult(true)) => (
            LinkState::SocketConnected,
            LinkAction::HandOff,
        ),
        (LinkState::AddressAcquired, LinkEvent::ConnectResult(false)) => (
            LinkState::Disconnected,
            LinkAction::ReportError,
        ),
        (_, LinkEvent::LinkLost) => (LinkState::Disconnected, LinkAction::ReportError),
        (s2, _) => (s2, LinkAction::Ignore),
    }
}

/// Drives one supervisor step.
pub fn supervise_step(s: LinkState, e: LinkEvent) -> (r: (LinkState, LinkAction))
    ensures
        r == supervise_transition(s, e),
{
    match (s, e) {
        (LinkState::LinkDown, LinkEvent::LinkPoll(up)) => {
            if up {
                (LinkState::LinkUp, LinkAction::PollAddress)
            } else {
                (LinkState::LinkDown, LinkAction::WaitPoll)
            }
        },
        (LinkState::LinkUp, LinkEvent::AddressPoll(got)) => {
            if got {
                (LinkState::AddressAcquired, LinkAction::TryConnect)
            } else {
                (LinkState::LinkUp, LinkAction::WaitPoll)
            }
        },
        (LinkState::AddressAcquired, LinkEvent::ConnectResult(ok)) => {
            if ok {
                (LinkState::SocketConnected, LinkAction::HandOff)
            } else {
                (LinkState::Disconnected, LinkAction::ReportError)
            }
        },
        (_, LinkEvent::LinkLost) => (LinkState::Disconnected, LinkAction::ReportError),
        (s2, _) => (s2, LinkAction::Ignore),
    }
}

/// What the long-lived link-maintenance task does on one round, given
/// whether the station is associated and whether it was already started.
#[derive(Clone, Copy, Debug, PartialEq, Eq, Structural)]
pub enum MaintainAction {
    /// Associated: wait for a disassociation event, then cool down.
    AwaitDisconnect,
    /// Not associated and not started: apply the station configuration
    /// and start, then associate.
    ConfigureStartAndConnect,
    /// Not associated but already started: only re-associate —
    /// configuration is never re-issued while the station is started.
    ConnectOnly,
}

/// The maintenance decision: configuration is re-applied only when the
/// station is not already started, so the bring-up sequence and this
/// task never race in issuing conflicting configuration.
pub open spec fn maintain_decision(connected: bool, started: bool) -> MaintainAction {
    if connected {
        MaintainAction::AwaitDisconnect
    } else if !started {
        MaintainAction::ConfigureStartAndConnect
    } else {
        MaintainAction::ConnectOnly
    }
}

/// Decides one maintenance round.
pub fn maintain_step(connected: bool, started: bool) -> (r: MaintainAction)
    ensures
        r == maintain_decision(connected, started),
{
    if connected {
        MaintainAction::AwaitDisconnect
    } else if !started {
        MaintainAction::ConfigureStartAndConnect
    } else {
        MaintainAction::ConnectOnly
    }
}

} // verus!
