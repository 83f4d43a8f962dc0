use tail::session::{Action, Event, Phase, Tail, TailError, Unit, UnitState};
use tail::signal::CancellationSignals;

fn started() -> Tail {
    let mut tail = Tail::new();
    assert_eq!(tail.handle(Event::Start), Action::Launch);
    assert_eq!(tail.handle(Event::TunnelAcquired(Ok(()))), Action::SpawnTunnelAndRegistrar);
    tail
}

#[test]
fn happy_path_returns_ok_after_interrupt() {
    let mut signals = CancellationSignals::new();
    let mut tail = started();
    assert_eq!(tail.phase(), Phase::Joining);
    let fan_out = signals.listener.notify();
    assert_eq!(fan_out.attempted(), 3);
    assert_eq!(fan_out.delivered(), 3);
    assert!(signals.ingestion.try_recv().is_ok());
    assert!(signals.tunnel.try_recv().is_ok());
    assert!(signals.registration.try_recv().is_ok());
    assert_eq!(tail.handle(Event::Finished(Unit::Listener, Ok(()))), Action::Wait);
    assert_eq!(tail.handle(Event::Finished(Unit::Ingestion, Ok(()))), Action::Wait);
    assert_eq!(tail.handle(Event::Finished(Unit::Tunnel, Ok(()))), Action::Wait);
    assert_eq!(tail.handle(Event::Finished(Unit::Registrar, Ok(()))), Action::Return(Ok(())));
    assert_eq!(tail.phase(), Phase::Done);
}

#[test]
fn acquisition_failure_returns_that_error() {
    let mut tail = Tail::new();
    assert_eq!(tail.handle(Event::Start), Action::Launch);
    let err = TailError::Acquisition("executable not found".to_string());
    let action = tail.handle(Event::TunnelAcquired(Err(err)));
    assert_eq!(action, Action::Return(Err(TailError::Acquisition("executable not found".to_string()))));
    assert_eq!(tail.state(Unit::Ingestion), UnitState::Running);
    assert_eq!(tail.state(Unit::Listener), UnitState::Running);
    assert_eq!(tail.state(Unit::Tunnel), UnitState::NotStarted);
    assert_eq!(tail.state(Unit::Registrar), UnitState::NotStarted);
}

#[test]
fn collaborator_failure_returns_once_all_units_complete() {
    let mut tail = started();
    let err = TailError::Collaborator(Unit::Registrar, "network unreachable".to_string());
    assert_eq!(tail.handle(Event::Finished(Unit::Registrar, Err(err))), Action::Wait);
    assert_eq!(tail.handle(Event::Finished(Unit::Ingestion, Ok(()))), Action::Wait);
    assert_eq!(tail.handle(Event::Finished(Unit::Tunnel, Ok(()))), Action::StopListener);
    let action = tail.handle(Event::Finished(Unit::Listener, Ok(())));
    assert_eq!(action, Action::Return(Err(TailError::Collaborator(Unit::Registrar, "network unreachable".to_string()))));
}

#[test]
fn natural_completion_stops_the_listener_and_returns_ok() {
    let mut signals = CancellationSignals::new();
    let mut tail = started();
    assert_eq!(tail.handle(Event::Finished(Unit::Ingestion, Ok(()))), Action::Wait);
    assert_eq!(tail.handle(Event::Finished(Unit::Tunnel, Ok(()))), Action::Wait);
    assert_eq!(tail.phase(), Phase::Joining);
    assert_eq!(tail.handle(Event::Finished(Unit::Registrar, Ok(()))), Action::StopListener);
    assert_eq!(tail.state(Unit::Listener), UnitState::Running);
    assert_eq!(tail.handle(Event::Finished(Unit::Listener, Ok(()))), Action::Return(Ok(())));
    assert_eq!(tail.phase(), Phase::Done);
    assert!(!signals.listener.has_fired());
    assert!(signals.ingestion.try_recv().is_err());
    assert!(signals.tunnel.try_recv().is_err());
    assert!(signals.registration.try_recv().is_err());
}

#[test]
fn stop_listener_is_asked_once() {
    let mut tail = started();
    assert_eq!(tail.handle(Event::Finished(Unit::Registrar, Ok(()))), Action::Wait);
    assert_eq!(tail.handle(Event::Finished(Unit::Ingestion, Ok(()))), Action::Wait);
    assert_eq!(tail.handle(Event::Finished(Unit::Tunnel, Ok(()))), Action::StopListener);
    assert_eq!(tail.handle(Event::Finished(Unit::Tunnel, Ok(()))), Action::Wait);
    assert_eq!(tail.handle(Event::Finished(Unit::Listener, Ok(()))), Action::Return(Ok(())));
}

#[test]
fn first_error_wins_over_a_later_one() {
    let mut tail = started();
    let first = TailError::Collaborator(Unit::Tunnel, "tunnel closed".to_string());
    let second = TailError::Collaborator(Unit::Registrar, "network unreachable".to_string());
    assert_eq!(tail.handle(Event::Finished(Unit::Tunnel, Err(first))), Action::Wait);
    assert_eq!(tail.handle(Event::Finished(Unit::Registrar, Err(second))), Action::Wait);
    assert_eq!(tail.handle(Event::Finished(Unit::Ingestion, Ok(()))), Action::StopListener);
    let action = tail.handle(Event::Finished(Unit::Listener, Ok(())));
    assert_eq!(action, Action::Return(Err(TailError::Collaborator(Unit::Tunnel, "tunnel closed".to_string()))));
}

#[test]
fn failure_while_acquiring_is_kept_as_first() {
    let mut tail = Tail::new();
    tail.handle(Event::Start);
    let err = TailError::Listener("no signal handler".to_string());
    assert_eq!(tail.handle(Event::Finished(Unit::Listener, Err(err))), Action::Wait);
    assert_eq!(tail.state(Unit::Listener), UnitState::Finished);
    assert_eq!(tail.handle(Event::TunnelAcquired(Ok(()))), Action::SpawnTunnelAndRegistrar);
    let late = TailError::Collaborator(Unit::Registrar, "network unreachable".to_string());
    assert_eq!(tail.handle(Event::Finished(Unit::Registrar, Err(late))), Action::Wait);
    assert_eq!(tail.handle(Event::Finished(Unit::Ingestion, Ok(()))), Action::Wait);
    let action = tail.handle(Event::Finished(Unit::Tunnel, Ok(())));
    assert_eq!(action, Action::Return(Err(TailError::Listener("no signal handler".to_string()))));
}

#[test]
fn events_out_of_place_are_ignored() {
    let mut tail = Tail::new();
    assert_eq!(tail.handle(Event::TunnelAcquired(Ok(()))), Action::Wait);
    assert_eq!(tail.handle(Event::Finished(Unit::Ingestion, Ok(()))), Action::Wait);
    assert_eq!(tail.phase(), Phase::Idle);
    assert_eq!(tail.state(Unit::Ingestion), UnitState::NotStarted);
    tail.handle(Event::Start);
    assert_eq!(tail.handle(Event::Start), Action::Wait);
    assert_eq!(tail.handle(Event::Finished(Unit::Tunnel, Ok(()))), Action::Wait);
    assert_eq!(tail.state(Unit::Tunnel), UnitState::NotStarted);
    tail.handle(Event::TunnelAcquired(Ok(())));
    assert_eq!(tail.handle(Event::TunnelAcquired(Ok(()))), Action::Wait);
    assert_eq!(tail.handle(Event::Finished(Unit::Tunnel, Ok(()))), Action::Wait);
    assert_eq!(tail.handle(Event::Finished(Unit::Tunnel, Ok(()))), Action::Wait);
    assert_eq!(tail.state(Unit::Tunnel), UnitState::Finished);
}

#[test]
fn nothing_happens_after_the_result() {
    let mut tail = Tail::new();
    tail.handle(Event::Start);
    let err = TailError::Acquisition("port in use".to_string());
    tail.handle(Event::TunnelAcquired(Err(err)));
    assert_eq!(tail.phase(), Phase::Done);
    assert_eq!(tail.handle(Event::Finished(Unit::Ingestion, Ok(()))), Action::Wait);
    assert_eq!(tail.handle(Event::Start), Action::Wait);
    assert_eq!(tail.phase(), Phase::Done);
}
