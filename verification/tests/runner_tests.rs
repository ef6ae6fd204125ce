use exec_runtime::container::ServerContainer;
use exec_runtime::error::ExecError;
use exec_runtime::runner::{
    FromRunnerMsg, Runner, ToRunnerMsg, DEFAULT_RECV_TIMEOUT_MS, MAIN_RUNNER_ID,
};
use exec_runtime::server::{AudioServer, SendGameServer, ServerKind, UpdateServer};

#[test]
fn process_messages_applies_frequency_and_move() {
    let mut runner = Runner::default();
    let step = runner.process_messages(vec![
        ToRunnerMsg::SetFrequency(120),
        ToRunnerMsg::MoveServer(SendGameServer::Audio(AudioServer::new())),
    ]);
    assert!(!step.stop);
    assert!(step.fatal.is_none());
    assert!(step.replies.is_empty());
    assert_eq!(runner.frequency, 120);
    assert!(runner.container.audio.is_some());
}

#[test]
fn process_messages_replies_to_requests_in_order() {
    let mut runner = Runner::default();
    runner.container.audio = Some(AudioServer::new());
    let step = runner.process_messages(vec![
        ToRunnerMsg::RequestServer(ServerKind::Audio),
        ToRunnerMsg::RequestServer(ServerKind::Update),
    ]);
    assert!(!step.stop);
    assert_eq!(step.replies.len(), 2);
    assert!(matches!(
        step.replies[0],
        FromRunnerMsg::MoveServer(Some(SendGameServer::Audio(_)))
    ));
    assert!(matches!(step.replies[1], FromRunnerMsg::MoveServer(None)));
    assert!(runner.container.audio.is_none());
}

#[test]
fn process_messages_stops_and_drops_the_rest() {
    let mut runner = Runner::default();
    let step = runner.process_messages(vec![
        ToRunnerMsg::Stop,
        ToRunnerMsg::SetFrequency(999),
    ]);
    assert!(step.stop);
    assert!(step.fatal.is_none());
    assert_eq!(runner.frequency, 0);
}

#[test]
fn process_messages_duplicate_emplacement_is_fatal() {
    let mut runner = Runner::default();
    runner.container.update = Some(UpdateServer::new());
    let step = runner.process_messages(vec![
        ToRunnerMsg::MoveServer(SendGameServer::Update(UpdateServer::new())),
        ToRunnerMsg::SetFrequency(50),
    ]);
    assert!(step.stop);
    assert_eq!(step.fatal, Some(ExecError::InvariantViolation));
    // the batch stops at the violation; later messages are not applied
    assert_eq!(runner.frequency, 0);
}

#[test]
fn run_single_runs_container_and_paces() {
    let mut runner = Runner {
        container: ServerContainer {
            audio: Some(AudioServer::new()),
            draw: None,
            update: None,
        },
        frequency: 10,
        ..Runner::default()
    };
    // First cycle establishes the mark; second is paced.
    let sleep = runner.run_single(0).unwrap();
    assert_eq!(sleep, 0);
    runner.observe_wake(0);
    let sleep = runner.run_single(40_000_000).unwrap();
    assert_eq!(sleep, 60_000_000);
    runner.observe_wake(100_000_000);
    assert_eq!(runner.container.audio.unwrap().state.cycles, 2);
}

#[test]
fn main_runner_id_is_reserved() {
    assert_eq!(MAIN_RUNNER_ID, 3);
    assert_eq!(DEFAULT_RECV_TIMEOUT_MS, 100);
}
