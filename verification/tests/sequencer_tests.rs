use chatbridge::sequencer::line_confirms_ready;
use chatbridge::sequencer::StartSequencer;
use chatbridge::sequencer::TickStep;

#[test]
fn done_line_confirms_readiness() {
    assert!(line_confirms_ready(
        b"[12:00:07] [Server thread/INFO]: Done (6.9s)! For help, type \"help\""
    ));
    assert!(!line_confirms_ready(
        b"[12:00:01] [Server thread/INFO]: Starting minecraft server version 1.19"
    ));
    assert!(!line_confirms_ready(b"Done"));
}

#[test]
fn signal_within_bound_confirms() {
    let mut wait = StartSequencer::new(3);
    assert_eq!(wait.on_tick(false), TickStep::KeepWaiting);
    assert_eq!(wait.on_tick(true), TickStep::Confirmed);
}

#[test]
fn bound_without_signal_times_out() {
    let mut wait = StartSequencer::new(3);
    assert_eq!(wait.on_tick(false), TickStep::KeepWaiting);
    assert_eq!(wait.on_tick(false), TickStep::KeepWaiting);
    assert_eq!(wait.on_tick(false), TickStep::TimedOut);
}

#[test]
fn signal_on_last_tick_still_confirms() {
    let mut wait = StartSequencer::new(2);
    assert_eq!(wait.on_tick(false), TickStep::KeepWaiting);
    assert_eq!(wait.on_tick(true), TickStep::Confirmed);
}

#[test]
fn single_tick_bound() {
    let mut wait = StartSequencer::new(1);
    assert_eq!(wait.on_tick(true), TickStep::Confirmed);
    let mut wait = StartSequencer::new(1);
    assert_eq!(wait.on_tick(false), TickStep::TimedOut);
}
