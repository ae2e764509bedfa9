//! Routing of inbound chat messages and the per-command decision tables.
//!
//! Every decision is taken fresh from the message text, a fresh status
//! probe and the current registry state; nothing here is stored between
//! messages.

use vstd::prelude::*;

use crate::scan::pattern_at;
use crate::scan::pattern_matches_at;
use crate::status::ServiceStatus;

verus! {

/// The recognized command prefixes of the chat interface.
#[derive(PartialEq, Eq, Structural, Clone, Copy, Debug)]
pub enum ChatCommand {
    StartServer,
    StopServer,
    StatusServer,
    EnableChatbridge,
    DisableChatbridge,
    Licence,
}

/// Where one inbound message goes.
#[derive(PartialEq, Eq, Structural, Clone, Copy, Debug)]
pub enum MessageRoute {
    /// The text starts with a recognized command prefix.
    Dispatch(ChatCommand),
    /// No command, but a relay session is active for the chat: the text is
    /// bridge traffic.
    BridgeTraffic,
    /// No command and no active session: the message is dropped silently.
    Ignore,
}

pub open spec fn start_server_prefix() -> Seq<u8> {
    seq![
        '/' as u8, 's' as u8, 't' as u8, 'a' as u8, 'r' as u8, 't' as u8, '_' as u8, 's' as u8,
        'e' as u8, 'r' as u8, 'v' as u8, 'e' as u8, 'r' as u8,
    ]
}

pub open spec fn stop_server_prefix() -> Seq<u8> {
    seq![
        '/' as u8, 's' as u8, 't' as u8, 'o' as u8, 'p' as u8, '_' as u8, 's' as u8, 'e' as u8,
        'r' as u8, 'v' as u8, 'e' as u8, 'r' as u8,
    ]
}

pub open spec fn status_server_prefix() -> Seq<u8> {
    seq![
        '/' as u8, 's' as u8, 't' as u8, 'a' as u8, 't' as u8, 'u' as u8, 's' as u8, '_' as u8,
        's' as u8, 'e' as u8, 'r' as u8, 'v' as u8, 'e' as u8, 'r' as u8,
    ]
}

pub open spec fn enable_chatbridge_prefix() -> Seq<u8> {
    seq![
        '/' as u8, 'e' as u8, 'n' as u8, 'a' as u8, 'b' as u8, 'l' as u8, 'e' as u8, '_' as u8,
        'c' as u8, 'h' as u8, 'a' as u8, 't' as u8, 'b' as u8, 'r' as u8, 'i' as u8, 'd' as u8,
        'g' as u8, 'e' as u8,
    ]
}

pub open spec fn disable_chatbridge_prefix() -> Seq<u8> {
    seq![
        '/' as u8, 'd' as u8, 'i' as u8, 's' as u8, 'a' as u8, 'b' as u8, 'l' as u8, 'e' as u8,
        '_' as u8, 'c' as u8, 'h' as u8, 'a' as u8, 't' as u8, 'b' as u8, 'r' as u8, 'i' as u8,
        'd' as u8, 'g' as u8, 'e' as u8,
    ]
}

pub open spec fn licence_prefix() -> Seq<u8> {
    seq![
        '/' as u8, 'l' as u8, 'i' as u8, 'c' as u8, 'e' as u8, 'n' as u8, 'c' as u8, 'e' as u8,
    ]
}

/// `s` starts with `p`.
pub open spec fn starts_with(s: Seq<u8>, p: Seq<u8>) -> bool {
    pattern_at(s, p, 0)
}

/// The command that the text carries, tried in the interface's fixed
/// order; `None` when no prefix matches.
pub open spec fn command_of(text: Seq<u8>) -> Option<ChatCommand> {
    if starts_with(text, start_server_prefix()) {
        Some(ChatCommand::StartServer)
    } else if starts_with(text, stop_server_prefix()) {
        Some(ChatCommand::StopServer)
    } else if starts_with(text, status_server_prefix()) {
        Some(ChatCommand::StatusServer)
    } else if starts_with(text, enable_chatbridge_prefix()) {
        Some(ChatCommand::EnableChatbridge)
    } else if starts_with(text, disable_chatbridge_prefix()) {
        Some(ChatCommand::DisableChatbridge)
    } else if starts_with(text, licence_prefix()) {
        Some(ChatCommand::Licence)
    } else {
        None
    }
}

/// Where a message with this text goes, given whether a relay session is
/// active for the chat.
pub open spec fn route_of(text: Seq<u8>, bridge_active: bool) -> MessageRoute {
    match command_of(text) {
        Some(c) => MessageRoute::Dispatch(c),
        None => if bridge_active {
            MessageRoute::BridgeTraffic
        } else {
            MessageRoute::Ignore
        },
    }
}

/// The command that the text carries, if any.
pub fn classify_command(text: &[u8]) -> (r: Option<ChatCommand>)
    ensures
        r == command_of(text@),
{
    let start_p: [u8; 13] = [
        '/' as u8, 's' as u8, 't' as u8, 'a' as u8, 'r' as u8, 't' as u8, '_' as u8, 's' as u8,
        'e' as u8, 'r' as u8, 'v' as u8, 'e' as u8, 'r' as u8,
    ];
    let stop_p: [u8; 12] = [
        '/' as u8, 's' as u8, 't' as u8, 'o' as u8, 'p' as u8, '_' as u8, 's' as u8, 'e' as u8,
        'r' as u8, 'v' as u8, 'e' as u8, 'r' as u8,
    ];
    let status_p: [u8; 14] = [
        '/' as u8, 's' as u8, 't' as u8, 'a' as u8, 't' as u8, 'u' as u8, 's' as u8, '_' as u8,
        's' as u8, 'e' as u8, 'r' as u8, 'v' as u8, 'e' as u8, 'r' as u8,
    ];
    let enable_p: [u8; 18] = [
        '/' as u8, 'e' as u8, 'n' as u8, 'a' as u8, 'b' as u8, 'l' as u8, 'e' as u8, '_' as u8,
        'c' as u8, 'h' as u8, 'a' as u8, 't' as u8, 'b' as u8, 'r' as u8, 'i' as u8, 'd' as u8,
        'g' as u8, 'e' as u8,
    ];
    let disable_p: [u8; 19] = [
        '/' as u8, 'd' as u8, 'i' as u8, 's' as u8, 'a' as u8, 'b' as u8, 'l' as u8, 'e' as u8,
        '_' as u8, 'c' as u8, 'h' as u8, 'a' as u8, 't' as u8, 'b' as u8, 'r' as u8, 'i' as u8,
        'd' as u8, 'g' as u8, 'e' as u8,
    ];
    let licence_p: [u8; 8] = [
        '/' as u8, 'l' as u8, 'i' as u8, 'c' as u8, 'e' as u8, 'n' as u8, 'c' as u8, 'e' as u8,
    ];
    proof {
        assert(start_p@ =~= start_server_prefix());
        assert(stop_p@ =~= stop_server_prefix());
        assert(status_p@ =~= status_server_prefix());
        assert(enable_p@ =~= enable_chatbridge_prefix());
        assert(disable_p@ =~= disable_chatbridge_prefix());
        assert(licence_p@ =~= licence_prefix());
    }
    if pattern_matches_at(text, start_p.as_slice(), 0) {
        Some(ChatCommand::StartServer)
    } else if pattern_matches_at(text, stop_p.as_slice(), 0) {
        Some(ChatCommand::StopServer)
    } else if pattern_matches_at(text, status_p.as_slice(), 0) {
        Some(ChatCommand::StatusServer)
    } else if pattern_matches_at(text, enable_p.as_slice(), 0) {
        Some(ChatCommand::EnableChatbridge)
    } else if pattern_matches_at(text, disable_p.as_slice(), 0) {
        Some(ChatCommand::DisableChatbridge)
    } else if pattern_matches_at(text, licence_p.as_slice(), 0) {
        Some(ChatCommand::Licence)
    } else {
        None
    }
}

/// Route one inbound message: a recognized command is dispatched; other
/// text is bridge traffic when a session is active and dropped otherwise.
pub fn route_message(text: &[u8], bridge_active: bool) -> (r: MessageRoute)
    ensures
        r == route_of(text@, bridge_active),
{
    match classify_command(text) {
        Some(c) => MessageRoute::Dispatch(c),
        None => if bridge_active {
            MessageRoute::BridgeTraffic
        } else {
            MessageRoute::Ignore
        },
    }
}

/// What the start command does for each probed status.
#[derive(PartialEq, Eq, Structural, Clone, Copy, Debug)]
pub enum StartDecision {
    /// Issue the start action and run the start sequence.
    Launch,
    /// The service is already starting: acknowledge, do nothing.
    AlreadyStarting,
    /// The service is already running: acknowledge, do nothing.
    AlreadyRunning,
}

/// Decide the start command from a fresh status probe.
pub fn decide_start(status: &ServiceStatus) -> (r: StartDecision)
    ensures
        status is Inactive ==> r == StartDecision::Launch,
        status is Starting ==> r == StartDecision::AlreadyStarting,
        status is Running ==> r == StartDecision::AlreadyRunning,
{
    match status {
        ServiceStatus::Inactive => StartDecision::Launch,
        ServiceStatus::Starting => StartDecision::AlreadyStarting,
        ServiceStatus::Running { .. } => StartDecision::AlreadyRunning,
    }
}

/// What the stop command does for each probed status.
#[derive(PartialEq, Eq, Structural, Clone, Copy, Debug)]
pub enum StopDecision {
    /// Nothing runs: acknowledge, do nothing.
    NotRunning,
    /// The service is starting and must not be stopped now.
    CannotStopWhileStarting,
    /// Deactivate an active bridge, then issue the stop action.
    StopService,
}

/// Decide the stop command from a fresh status probe.
pub fn decide_stop(status: &ServiceStatus) -> (r: StopDecision)
    ensures
        status is Inactive ==> r == StopDecision::NotRunning,
        status is Starting ==> r == StopDecision::CannotStopWhileStarting,
        status is Running ==> r == StopDecision::StopService,
{
    match status {
        ServiceStatus::Inactive => StopDecision::NotRunning,
        ServiceStatus::Starting => StopDecision::CannotStopWhileStarting,
        ServiceStatus::Running { .. } => StopDecision::StopService,
    }
}

/// What the enable-bridge command does, given the registry state, any
/// already-prepared deferred activation, and a fresh status probe.
#[derive(PartialEq, Eq, Structural, Clone, Copy, Debug)]
pub enum EnableBridgeDecision {
    /// A relay session already runs for the chat: acknowledge, do nothing.
    AlreadyActive,
    /// The service is inactive: the bridge cannot be enabled.
    NotPossibleInactive,
    /// The service is starting: record the request, to be consumed when
    /// the start sequence confirms readiness.
    PrepareAfterStart,
    /// The service is starting and a request is already prepared: reject
    /// the duplicate.
    AlreadyPrepared,
    /// The service runs: activate the bridge now.
    ActivateNow,
}

/// Decide the enable-bridge command.  The registry check comes first, so
/// an already-active bridge is acknowledged without probing further.
pub fn decide_enable_bridge(bridge_active: bool, pending_already: bool, status: &ServiceStatus) -> (r:
    EnableBridgeDecision)
    ensures
        bridge_active ==> r == EnableBridgeDecision::AlreadyActive,
        !bridge_active && status is Inactive ==> r == EnableBridgeDecision::NotPossibleInactive,
        !bridge_active && status is Starting && !pending_already ==> r
            == EnableBridgeDecision::PrepareAfterStart,
        !bridge_active && status is Starting && pending_already ==> r
            == EnableBridgeDecision::AlreadyPrepared,
        !bridge_active && status is Running ==> r == EnableBridgeDecision::ActivateNow,
{
    if bridge_active {
        EnableBridgeDecision::AlreadyActive
    } else {
        match status {
            ServiceStatus::Inactive => EnableBridgeDecision::NotPossibleInactive,
            ServiceStatus::Starting => if pending_already {
                EnableBridgeDecision::AlreadyPrepared
            } else {
                EnableBridgeDecision::PrepareAfterStart
            },
            ServiceStatus::Running { .. } => EnableBridgeDecision::ActivateNow,
        }
    }
}

/// The callback payload that asks for the bridge to be enabled from the
/// inline keyboard offered with a start acknowledgement.
pub open spec fn enable_bridge_callback() -> Seq<u8> {
    seq![
        'i' as u8, 'n' as u8, 'l' as u8, 'i' as u8, 'n' as u8, 'e' as u8, '_' as u8, 'e' as u8,
        'n' as u8, 'a' as u8, 'b' as u8, 'l' as u8, 'e' as u8, '_' as u8, 'c' as u8, 'h' as u8,
        'a' as u8, 't' as u8, 'b' as u8, 'r' as u8, 'i' as u8, 'd' as u8, 'g' as u8, 'e' as u8,
    ]
}

/// Whether a callback query's payload asks for the bridge to be enabled.
pub fn callback_requests_bridge(data: &[u8]) -> (r: bool)
    ensures
        r == (data@ == enable_bridge_callback()),
{
    let payload: [u8; 24] = [
        'i' as u8, 'n' as u8, 'l' as u8, 'i' as u8, 'n' as u8, 'e' as u8, '_' as u8, 'e' as u8,
        'n' as u8, 'a' as u8, 'b' as u8, 'l' as u8, 'e' as u8, '_' as u8, 'c' as u8, 'h' as u8,
        'a' as u8, 't' as u8, 'b' as u8, 'r' as u8, 'i' as u8, 'd' as u8, 'g' as u8, 'e' as u8,
    ];
    proof {
        assert(payload@ =~= enable_bridge_callback());
    }
    if data.len() != 24 {
        proof {
            assert(data@ != enable_bridge_callback());
        }
        return false;
    }
    let r = pattern_matches_at(data, payload.as_slice(), 0);
    proof {
        if pattern_at(data@, enable_bridge_callback(), 0) {
            assert(data@ =~= enable_bridge_callback());
        }
    }
    r
}

} // verus!
