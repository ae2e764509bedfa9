use chatbridge::dispatch::callback_requests_bridge;
use chatbridge::dispatch::classify_command;
use chatbridge::dispatch::decide_enable_bridge;
use chatbridge::dispatch::decide_start;
use chatbridge::dispatch::decide_stop;
use chatbridge::dispatch::route_message;
use chatbridge::dispatch::ChatCommand;
use chatbridge::dispatch::EnableBridgeDecision;
use chatbridge::dispatch::MessageRoute;
use chatbridge::dispatch::StartDecision;
use chatbridge::dispatch::StopDecision;
use chatbridge::identity::ServiceIdentity;
use chatbridge::pending::PendingActivations;
use chatbridge::registry::ActivationOutcome;
use chatbridge::registry::BridgeSessionRegistry;
use chatbridge::status::ServiceStatus;

fn running() -> ServiceStatus {
    ServiceStatus::Running { current_players: 1, max_players: 8, player_names: vec![b"A".to_vec()] }
}

#[test]
fn command_prefixes_are_recognized() {
    assert_eq!(classify_command(b"/start_server"), Some(ChatCommand::StartServer));
    assert_eq!(classify_command(b"/stop_server"), Some(ChatCommand::StopServer));
    assert_eq!(classify_command(b"/status_server"), Some(ChatCommand::StatusServer));
    assert_eq!(classify_command(b"/enable_chatbridge"), Some(ChatCommand::EnableChatbridge));
    assert_eq!(classify_command(b"/disable_chatbridge"), Some(ChatCommand::DisableChatbridge));
    assert_eq!(classify_command(b"/licence"), Some(ChatCommand::Licence));
    assert_eq!(classify_command(b"/start_server@somebot"), Some(ChatCommand::StartServer));
    assert_eq!(classify_command(b"/unknown"), None);
    assert_eq!(classify_command(b"hello"), None);
    assert_eq!(classify_command(b""), None);
}

#[test]
fn non_commands_go_to_the_bridge_only_when_active() {
    assert_eq!(route_message(b"hello there", true), MessageRoute::BridgeTraffic);
    assert_eq!(route_message(b"hello there", false), MessageRoute::Ignore);
    assert_eq!(
        route_message(b"/status_server", true),
        MessageRoute::Dispatch(ChatCommand::StatusServer),
    );
}

#[test]
fn start_decision_follows_the_probe() {
    assert_eq!(decide_start(&ServiceStatus::Inactive), StartDecision::Launch);
    assert_eq!(decide_start(&ServiceStatus::Starting), StartDecision::AlreadyStarting);
    assert_eq!(decide_start(&running()), StartDecision::AlreadyRunning);
}

#[test]
fn stop_decision_follows_the_probe() {
    assert_eq!(decide_stop(&ServiceStatus::Inactive), StopDecision::NotRunning);
    assert_eq!(decide_stop(&ServiceStatus::Starting), StopDecision::CannotStopWhileStarting);
    assert_eq!(decide_stop(&running()), StopDecision::StopService);
}

#[test]
fn enable_bridge_decision_table() {
    assert_eq!(
        decide_enable_bridge(true, false, &running()),
        EnableBridgeDecision::AlreadyActive,
    );
    assert_eq!(
        decide_enable_bridge(false, false, &ServiceStatus::Inactive),
        EnableBridgeDecision::NotPossibleInactive,
    );
    assert_eq!(
        decide_enable_bridge(false, false, &ServiceStatus::Starting),
        EnableBridgeDecision::PrepareAfterStart,
    );
    assert_eq!(
        decide_enable_bridge(false, true, &ServiceStatus::Starting),
        EnableBridgeDecision::AlreadyPrepared,
    );
    assert_eq!(decide_enable_bridge(false, false, &running()), EnableBridgeDecision::ActivateNow);
}

#[test]
fn pending_activation_scenario() {
    let id = ServiceIdentity { chat_id: 42 };
    let mut registry: BridgeSessionRegistry<u32> = BridgeSessionRegistry::new();
    let mut pending: PendingActivations<&str> = PendingActivations::new();

    // Enable-bridge while the service is starting: the request is recorded.
    let d = decide_enable_bridge(
        registry.is_active(id),
        pending.has_pending(id),
        &ServiceStatus::Starting,
    );
    assert_eq!(d, EnableBridgeDecision::PrepareAfterStart);
    pending.record(id, "enable request");

    // A second request while the first is still pending is rejected.
    let d = decide_enable_bridge(
        registry.is_active(id),
        pending.has_pending(id),
        &ServiceStatus::Starting,
    );
    assert_eq!(d, EnableBridgeDecision::AlreadyPrepared);

    // Readiness confirmation consumes the request and activates the bridge
    // against the now-running service, with no further operator action.
    let consumed = pending.take(id);
    assert_eq!(consumed, Some("enable request"));
    let d = decide_enable_bridge(registry.is_active(id), pending.has_pending(id), &running());
    assert_eq!(d, EnableBridgeDecision::ActivateNow);
    assert!(matches!(registry.try_activate(id, 99), ActivationOutcome::Activated));
    assert!(registry.is_active(id));
    assert_eq!(pending.take(id), None);
}

#[test]
fn callback_payload_is_matched_exactly() {
    assert!(callback_requests_bridge(b"inline_enable_chatbridge"));
    assert!(!callback_requests_bridge(b"inline_enable_chatbridge2"));
    assert!(!callback_requests_bridge(b"inline_enable"));
    assert!(!callback_requests_bridge(b""));
}
