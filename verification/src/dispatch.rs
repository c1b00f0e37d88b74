//! Transport-side decisions: the BLE connection lifecycle state machine
//! and session teardown. The surrounding I/O loop performs the actions
//! and feeds the events back; only one transport session is ever active.

use vstd::prelude::*;
use crate::channel::{ReportChannel, channel_contents};
use crate::keyboard::Keyboard;
use crate::report::KeyboardReportMessage;

verus! {

/// Connection lifecycle of the active transport.
#[derive(Clone, Copy, Debug, PartialEq, Eq, Structural)]
pub enum ConnectionState {
    Disconnected,
    Advertising,
    Connected,
}

/// What the transport driver reports back to the dispatcher.
#[derive(Clone, Copy, Debug, PartialEq, Eq, Structural)]
pub enum TransportEvent {
    /// Advertising has started.
    AdvertisingStarted,
    /// A host connected.
    PeerConnected,
    /// The connection dropped.
    PeerDisconnected,
}

/// What the surrounding loop must do next.
#[derive(Clone, Copy, Debug, PartialEq, Eq, Structural)]
pub enum DispatchAction {
    /// Start advertising.
    StartAdvertising,
    /// Wait for a host to connect.
    WaitForConnection,
    /// Run the duplex report flow, racing it against a disconnect watch.
    RunSession,
    /// Tear the session down, then start advertising again.
    EndSession,
    /// Nothing; the event does not apply to the current state.
    Stay,
}

/// One step of the connection lifecycle: advertise, wait, run the
/// session, and on disconnect tear down and advertise again. An event
/// that does not apply to the current state changes nothing.
pub fn connection_step(state: ConnectionState, event: TransportEvent) -> (r: (
    ConnectionState,
    DispatchAction,
))
    ensures
        r == spec_connection_step(state, event),
{
    match (state, event) {
        (ConnectionState::Disconnected, TransportEvent::AdvertisingStarted) => (
            ConnectionState::Advertising,
            DispatchAction::WaitForConnection,
        ),
        (ConnectionState::Advertising, TransportEvent::PeerConnected) => (
            ConnectionState::Connected,
            DispatchAction::RunSession,
        ),
        (ConnectionState::Connected, TransportEvent::PeerDisconnected) => (
            ConnectionState::Disconnected,
            DispatchAction::EndSession,
        ),
        _ => (state, DispatchAction::Stay),
    }
}

/// The lifecycle transition relation.
pub open spec fn spec_connection_step(state: ConnectionState, event: TransportEvent) -> (
    ConnectionState,
    DispatchAction,
) {
    match (state, event) {
        (ConnectionState::Disconnected, TransportEvent::AdvertisingStarted) => (
            ConnectionState::Advertising,
            DispatchAction::WaitForConnection,
        ),
        (ConnectionState::Advertising, TransportEvent::PeerConnected) => (
            ConnectionState::Connected,
            DispatchAction::RunSession,
        ),
        (ConnectionState::Connected, TransportEvent::PeerDisconnected) => (
            ConnectionState::Disconnected,
            DispatchAction::EndSession,
        ),
        _ => (state, DispatchAction::Stay),
    }
}

/// Tear down a transport session after a disconnect: every queued and
/// in-flight report is discarded, and the engine's transient decisions
/// (tap-hold, one-shot) die with the session, so the next connection
/// starts with a clean queue and no carried-over state.
pub fn end_session(kb: &mut Keyboard, chan: &mut ReportChannel)
    requires
        old(kb).wf(),
    ensures
        final(kb).wf(),
        channel_contents(*final(chan)) == Seq::<KeyboardReportMessage>::empty(),
        final(kb).pending is None,
        final(kb).one_shot is None,
        final(kb).layout == old(kb).layout,
        final(kb).config == old(kb).config,
        final(kb).report == old(kb).report,
        final(kb).held == old(kb).held,
        final(kb).stack.stack@ == (match old(kb).one_shot {
            Some(o) => crate::keyboard::popped_stack(old(kb).stack.stack@, o.layer),
            None => old(kb).stack.stack@,
        }),
{
    chan.clear();
    kb.discard_transients();
}

} // verus!
